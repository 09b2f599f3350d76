//! A per-owner record store with delegated write access.
//!
//! Every owner has one record, kept at an address derived from the owner's
//! identity. The record names a relayer, and only that relayer may change the
//! record's list of content identifiers or its shielded key.

pub mod identity;
pub mod error;
pub mod address;
pub mod record;
pub mod layout;
pub mod action;
pub mod store;
pub mod program;
pub mod laws;

pub use action::{Action, PasswordAction};
pub use error::ErrorCode;
pub use identity::Identity;
pub use program::{
    initialize_user, process_lpv2_action, update_lpv2_shielded_key, InitializeUser,
    ProcessLpv2Action, UpdateLpv2ShieldedKey,
};
pub use record::UserMetadata;
pub use store::RecordStore;
