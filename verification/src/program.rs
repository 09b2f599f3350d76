use vstd::prelude::*;
use crate::action::{apply, apply_spec, text, validate, validate_spec, PasswordAction};
use crate::address::{
    derive_record_address, derive_spec, derived_view, domain_tag, domain_tag_bytes,
    record_address,
};
use crate::error::ErrorCode;
use crate::identity::Identity;
use crate::record::{Record, UserMetadata};
use crate::store::RecordStore;

verus! {

/// Who asks for a record to be created.
#[derive(Clone, Copy, Debug)]
pub struct InitializeUser {
    /// The caller, who becomes the owner of the new record.
    pub user: Identity,
}

/// Who asks for a change to a record's content identifiers, and of which record.
#[derive(Clone, Copy, Debug)]
pub struct ProcessLpv2Action {
    /// The address of the record operated on.
    pub user_metadata: Identity,
    /// The caller.
    pub relayer: Identity,
}

/// Who asks for a record's shielded key to be replaced, and of which record.
#[derive(Clone, Copy, Debug)]
pub struct UpdateLpv2ShieldedKey {
    /// The address of the record operated on.
    pub user_metadata: Identity,
    /// The caller.
    pub relayer: Identity,
}

/// The bytes of an identity that may be absent.
pub open spec fn bytes_of(id: Option<Identity>) -> Option<Seq<u8>> {
    match id {
        Some(i) => Some(i@),
        None => None,
    }
}

/// The access check before every change to a record kept at `address`, where
/// `expected` is the address derived from the record's owner: the two
/// addresses must agree, and the caller must be the record's relayer.
pub open spec fn guard_spec(
    record: Record,
    address: Seq<u8>,
    expected: Option<Seq<u8>>,
    caller: Seq<u8>,
) -> Result<(), ErrorCode> {
    if expected != Some(address) {
        Err(ErrorCode::AddressMismatch)
    } else if caller != record.relayer {
        Err(ErrorCode::Unauthorized)
    } else {
        Ok(())
    }
}

/// The record with another shielded key.
pub open spec fn rotate_spec(record: Record, new_pubkey: Seq<u8>) -> Record {
    Record { shielded_pubkey: new_pubkey, ..record }
}

/// What the creation of a record for `owner` makes of the store, where
/// `address` is the address derived from the owner: the record is kept there
/// unless a record is kept there already, or no address could be derived.
pub open spec fn initialize_at_spec(
    store: Map<Seq<u8>, Record>,
    address: Option<Seq<u8>>,
    owner: Seq<u8>,
    shielded_pubkey: Seq<u8>,
    relayer: Seq<u8>,
) -> Result<Map<Seq<u8>, Record>, ErrorCode> {
    match address {
        None => Err(ErrorCode::AddressMismatch),
        Some(address) => if store.contains_key(address) {
            Err(ErrorCode::AlreadyExists)
        } else {
            Ok(
                store.insert(
                    address,
                    Record {
                        authority: owner,
                        shielded_pubkey,
                        relayer,
                        data_pointers: Seq::empty(),
                    },
                ),
            )
        },
    }
}

/// What the creation of a record for `owner` makes of the store.
pub open spec fn initialize_spec(
    store: Map<Seq<u8>, Record>,
    owner: Seq<u8>,
    shielded_pubkey: Seq<u8>,
    relayer: Seq<u8>,
) -> Result<Map<Seq<u8>, Record>, ErrorCode> {
    initialize_at_spec(store, record_address(owner), owner, shielded_pubkey, relayer)
}

/// Whether `caller` may change the record kept at `address`, and why not:
/// `AddressMismatch` where no record is kept there or the record's owner
/// derives another address, `Unauthorized` where the caller is not the
/// record's relayer.
pub open spec fn access_spec(
    store: Map<Seq<u8>, Record>,
    address: Seq<u8>,
    caller: Seq<u8>,
) -> Result<(), ErrorCode> {
    if !store.contains_key(address) {
        Err(ErrorCode::AddressMismatch)
    } else {
        guard_spec(store[address], address, record_address(store[address].authority), caller)
    }
}

/// What a request for a change to the content identifiers of the record at
/// `address` makes of the store. The access check comes first, then the request's
/// fields, then the change itself.
pub open spec fn process_spec(
    store: Map<Seq<u8>, Record>,
    address: Seq<u8>,
    caller: Seq<u8>,
    kind: PasswordAction,
    cid: Option<Seq<char>>,
    old_cid: Option<Seq<char>>,
    new_cid: Option<Seq<char>>,
) -> Result<Map<Seq<u8>, Record>, ErrorCode> {
    match access_spec(store, address, caller) {
        Err(e) => Err(e),
        Ok(()) => match validate_spec(kind, cid, old_cid, new_cid) {
            Err(e) => Err(e),
            Ok(change) => match apply_spec(store[address], change) {
                Err(e) => Err(e),
                Ok(record) => Ok(store.insert(address, record)),
            },
        },
    }
}

/// What a request for a new shielded key of the record at `address` makes of
/// the store.
pub open spec fn rotate_key_spec(
    store: Map<Seq<u8>, Record>,
    address: Seq<u8>,
    caller: Seq<u8>,
    new_pubkey: Seq<u8>,
) -> Result<Map<Seq<u8>, Record>, ErrorCode> {
    match access_spec(store, address, caller) {
        Err(e) => Err(e),
        Ok(()) => Ok(store.insert(address, rotate_spec(store[address], new_pubkey))),
    }
}

/// What is decided of a request to create an owner's record in the account
/// at `address`, where `derived` is the address and the bump seed derived
/// from the owner and `occupied` says whether the account is in use: the
/// bump seed with which the account is to be allocated, `AddressMismatch`
/// where the account is not the one derived, `AlreadyExists` where it is in
/// use.
pub open spec fn admission_spec(
    derived: Option<(Seq<u8>, u8)>,
    address: Seq<u8>,
    occupied: bool,
) -> Result<u8, ErrorCode> {
    match derived {
        None => Err(ErrorCode::AddressMismatch),
        Some(found) => if found.0 != address {
            Err(ErrorCode::AddressMismatch)
        } else if occupied {
            Err(ErrorCode::AlreadyExists)
        } else {
            Ok(found.1)
        },
    }
}

/// Decides a request to create an owner's record in the account at
/// `address`, given what was derived from the owner.
pub fn admission_at(derived: Option<(Identity, u8)>, address: &Identity, occupied: bool) -> (r: Result<
    u8,
    ErrorCode,
>)
    ensures
        r == admission_spec(derived_view(derived), address@, occupied),
{
    match derived {
        None => Err(ErrorCode::AddressMismatch),
        Some(found) => {
            if !found.0.same(address) {
                Err(ErrorCode::AddressMismatch)
            } else if occupied {
                Err(ErrorCode::AlreadyExists)
            } else {
                Ok(found.1)
            }
        },
    }
}

/// Decides a request to create the record of `owner` in the account at
/// `address`, for a host that keeps the accounts itself.
pub fn admission(owner: &Identity, address: &Identity, occupied: bool) -> (r: Result<u8, ErrorCode>)
    ensures
        r == admission_spec(derive_spec(owner@, domain_tag()), address@, occupied),
{
    let tag = domain_tag_bytes();
    let derived = crate::address::derive(owner, tag.as_slice());
    admission_at(derived, address, occupied)
}

/// The access check, given the address that the record's owner derives.
pub fn authorize(
    record: &UserMetadata,
    address: &Identity,
    expected: Option<Identity>,
    caller: &Identity,
) -> (r: Result<(), ErrorCode>)
    ensures
        r == guard_spec(record@, address@, bytes_of(expected), caller@),
{
    match expected {
        Some(derived) => {
            if !derived.same(address) {
                return Err(ErrorCode::AddressMismatch);
            }
        },
        None => {
            return Err(ErrorCode::AddressMismatch);
        },
    }
    if !caller.same(&record.relayer) {
        return Err(ErrorCode::Unauthorized);
    }
    Ok(())
}

/// Derives the address of the record's owner and holds it against
/// the address operated on, then holds the caller against the record's relayer.
pub fn check_access(record: &UserMetadata, address: &Identity, caller: &Identity) -> (r: Result<
    (),
    ErrorCode,
>)
    ensures
        r == guard_spec(record@, address@, record_address(record@.authority), caller@),
{
    let expected = derive_record_address(&record.authority);
    authorize(record, address, expected, caller)
}

/// Puts a new shielded key into the record, whatever the old one was.
pub fn rotate(record: &mut UserMetadata, new_pubkey: Identity)
    ensures
        final(record)@ == rotate_spec(old(record)@, new_pubkey@),
{
    record.lpv2_shielded_pubkey = new_pubkey;
}

/// Creates the record of `owner` at `address`, the address derived from the
/// owner, with the given shielded key and relayer and no content
/// identifiers. Refuses with `AlreadyExists` where a record is kept there
/// already, and with `AddressMismatch` where no address was derived.
pub fn initialize_at(
    store: &mut RecordStore,
    address: Option<Identity>,
    owner: Identity,
    lpv2_shielded_pubkey: Identity,
    relayer: Identity,
) -> (r: Result<(), ErrorCode>)
    requires
        old(store).wf(),
    ensures
        final(store).wf(),
        match r {
            Ok(()) => initialize_at_spec(
                old(store)@,
                bytes_of(address),
                owner@,
                lpv2_shielded_pubkey@,
                relayer@,
            ) == Ok::<Map<Seq<u8>, Record>, ErrorCode>(final(store)@),
            Err(e) => initialize_at_spec(
                old(store)@,
                bytes_of(address),
                owner@,
                lpv2_shielded_pubkey@,
                relayer@,
            ) == Err::<Map<Seq<u8>, Record>, ErrorCode>(e) && final(store)@ == old(store)@,
        },
{
    match address {
        Some(address) => {
            let record = UserMetadata::new(owner, lpv2_shielded_pubkey, relayer);
            store.create(address, record)
        },
        None => Err(ErrorCode::AddressMismatch),
    }
}

/// Creates the record of the caller: at the address derived from the caller,
/// with the caller as owner, the given shielded key and relayer, and no
/// content identifiers. Refuses with `AlreadyExists` where the caller has a
/// record already, and with `AddressMismatch` where no address can be derived
/// for the caller.
pub fn initialize_user(
    store: &mut RecordStore,
    ctx: &InitializeUser,
    lpv2_shielded_pubkey: Identity,
    relayer: Identity,
) -> (r: Result<(), ErrorCode>)
    requires
        old(store).wf(),
    ensures
        final(store).wf(),
        match r {
            Ok(()) => initialize_spec(old(store)@, ctx.user@, lpv2_shielded_pubkey@, relayer@)
                == Ok::<Map<Seq<u8>, Record>, ErrorCode>(final(store)@),
            Err(e) => initialize_spec(old(store)@, ctx.user@, lpv2_shielded_pubkey@, relayer@)
                == Err::<Map<Seq<u8>, Record>, ErrorCode>(e) && final(store)@ == old(store)@,
        },
{
    let address = derive_record_address(&ctx.user);
    initialize_at(store, address, ctx.user, lpv2_shielded_pubkey, relayer)
}

/// Applies one change to the content identifiers of the record at the
/// address operated on, for a caller who is that record's relayer. A request
/// that is refused changes nothing.
pub fn process_lpv2_action(
    store: &mut RecordStore,
    ctx: &ProcessLpv2Action,
    action: PasswordAction,
    cid: Option<String>,
    old_cid: Option<String>,
    new_cid: Option<String>,
) -> (r: Result<(), ErrorCode>)
    requires
        old(store).wf(),
    ensures
        final(store).wf(),
        match r {
            Ok(()) => process_spec(
                old(store)@,
                ctx.user_metadata@,
                ctx.relayer@,
                action,
                text(cid),
                text(old_cid),
                text(new_cid),
            ) == Ok::<Map<Seq<u8>, Record>, ErrorCode>(final(store)@),
            Err(e) => process_spec(
                old(store)@,
                ctx.user_metadata@,
                ctx.relayer@,
                action,
                text(cid),
                text(old_cid),
                text(new_cid),
            ) == Err::<Map<Seq<u8>, Record>, ErrorCode>(e) && final(store)@ == old(store)@,
        },
{
    let mut record = match store.get(&ctx.user_metadata) {
        Some(found) => found.clone(),
        None => {
            return Err(ErrorCode::AddressMismatch);
        },
    };
    match check_access(&record, &ctx.user_metadata, &ctx.relayer) {
        Err(e) => {
            return Err(e);
        },
        Ok(()) => {},
    }
    let change = match validate(action, cid, old_cid, new_cid) {
        Err(e) => {
            return Err(e);
        },
        Ok(change) => change,
    };
    match apply(&mut record, change) {
        Err(e) => {
            return Err(e);
        },
        Ok(()) => {},
    }
    store.write(&ctx.user_metadata, record);
    Ok(())
}

/// Replaces the shielded key of the record at the address operated on, for a
/// caller who is that record's relayer. A request that is refused changes
/// nothing.
pub fn update_lpv2_shielded_key(
    store: &mut RecordStore,
    ctx: &UpdateLpv2ShieldedKey,
    new_shielded_pubkey: Identity,
) -> (r: Result<(), ErrorCode>)
    requires
        old(store).wf(),
    ensures
        final(store).wf(),
        match r {
            Ok(()) => rotate_key_spec(
                old(store)@,
                ctx.user_metadata@,
                ctx.relayer@,
                new_shielded_pubkey@,
            ) == Ok::<Map<Seq<u8>, Record>, ErrorCode>(final(store)@),
            Err(e) => rotate_key_spec(
                old(store)@,
                ctx.user_metadata@,
                ctx.relayer@,
                new_shielded_pubkey@,
            ) == Err::<Map<Seq<u8>, Record>, ErrorCode>(e) && final(store)@ == old(store)@,
        },
{
    let mut record = match store.get(&ctx.user_metadata) {
        Some(found) => found.clone(),
        None => {
            return Err(ErrorCode::AddressMismatch);
        },
    };
    match check_access(&record, &ctx.user_metadata, &ctx.relayer) {
        Err(e) => {
            return Err(e);
        },
        Ok(()) => {},
    }
    rotate(&mut record, new_shielded_pubkey);
    store.write(&ctx.user_metadata, record);
    Ok(())
}

} // verus!
