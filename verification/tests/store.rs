use std::str::FromStr;

use anchor_lang::prelude::Pubkey;
use keyra_program::address::{derive_record_address, domain_tag_bytes, id as program_id};
use keyra_program::program::{admission, admission_at, authorize, check_access, initialize_at, rotate};
use keyra_program::{
    initialize_user, process_lpv2_action, update_lpv2_shielded_key, ErrorCode, Identity,
    InitializeUser, PasswordAction, ProcessLpv2Action, RecordStore, UpdateLpv2ShieldedKey,
    UserMetadata,
};

fn ident(n: u8) -> Identity {
    Identity::new([n; 32])
}

fn address_of(owner: &Identity) -> Identity {
    derive_record_address(owner).expect("an address")
}

fn store_with(owner: Identity, key: Identity, relayer: Identity) -> (RecordStore, Identity) {
    let mut store = RecordStore::new();
    assert_eq!(initialize_user(&mut store, &InitializeUser { user: owner }, key, relayer), Ok(()));
    (store, address_of(&owner))
}

fn add(store: &mut RecordStore, address: Identity, relayer: Identity, cid: &str) -> Result<(), ErrorCode> {
    let ctx = ProcessLpv2Action { user_metadata: address, relayer };
    process_lpv2_action(store, &ctx, PasswordAction::Add, Some(cid.to_string()), None, None)
}

fn list_at(store: &RecordStore, address: &Identity) -> Vec<String> {
    store.get(address).expect("a record").data_pointers.clone()
}

#[test]
fn program_id_is_the_declared_one() {
    let declared = Pubkey::from_str("2WeZQkQ4cd86G2ymjQLRbCPGUWcipZSdFjsbKv2ArBT3").unwrap();
    assert_eq!(program_id().to_bytes(), declared.to_bytes());
}

#[test]
fn domain_tag_is_user_metadata() {
    assert_eq!(&domain_tag_bytes()[..], b"user_metadata");
}

#[test]
fn derive_gives_the_program_address() {
    let owner = ident(9);
    let program = Pubkey::new_from_array(program_id().to_bytes());
    let (address, bump) = Pubkey::find_program_address(&[b"user_metadata", &owner.to_bytes()], &program);
    let derived = keyra_program::address::derive(&owner, b"user_metadata").expect("an address");
    assert_eq!(derived.0.to_bytes(), address.to_bytes());
    assert_eq!(derived.1, bump);
    assert_ne!(derived.0, owner);
    assert_eq!(derive_record_address(&owner), Some(derived.0));
}

#[test]
fn derive_is_deterministic_and_tells_owners_and_tags_apart() {
    let a = keyra_program::address::derive(&ident(1), b"user_metadata").unwrap();
    let again = keyra_program::address::derive(&ident(1), b"user_metadata").unwrap();
    assert_eq!(a.0, again.0);
    assert_eq!(a.1, again.1);
    let b = keyra_program::address::derive(&ident(2), b"user_metadata").unwrap();
    assert_ne!(a.0, b.0);
    let other_tag = keyra_program::address::derive(&ident(1), b"other_records").unwrap();
    assert_ne!(a.0, other_tag.0);
}

#[test]
fn derive_refuses_a_tag_that_is_too_long() {
    let tag = [0u8; 33];
    assert!(keyra_program::address::derive(&ident(1), &tag).is_none());
}

#[test]
fn initialize_then_read() {
    let (store, address) = store_with(ident(1), ident(2), ident(3));
    let record = store.get(&address).expect("a record");
    assert_eq!(record.authority, ident(1));
    assert_eq!(record.lpv2_shielded_pubkey, ident(2));
    assert_eq!(record.relayer, ident(3));
    assert!(record.data_pointers.is_empty());
    assert_eq!(store.len(), 1);
    assert!(store.contains(&address));
    assert!(!store.contains(&ident(1)));
}

#[test]
fn initialize_twice_already_exists() {
    let (mut store, address) = store_with(ident(1), ident(2), ident(3));
    let again = initialize_user(&mut store, &InitializeUser { user: ident(1) }, ident(8), ident(9));
    assert_eq!(again, Err(ErrorCode::AlreadyExists));
    let record = store.get(&address).expect("a record");
    assert_eq!(record.lpv2_shielded_pubkey, ident(2));
    assert_eq!(record.relayer, ident(3));
    assert_eq!(store.len(), 1);
}

#[test]
fn each_owner_has_a_record_of_its_own() {
    let (mut store, first) = store_with(ident(1), ident(2), ident(3));
    assert_eq!(initialize_user(&mut store, &InitializeUser { user: ident(4) }, ident(5), ident(3)), Ok(()));
    let second = address_of(&ident(4));
    assert_ne!(first, second);
    assert_eq!(store.len(), 2);
    assert_eq!(add(&mut store, second, ident(3), "A"), Ok(()));
    assert_eq!(list_at(&store, &second), vec!["A".to_string()]);
    assert!(list_at(&store, &first).is_empty());
    assert_eq!(store.get(&first).unwrap().authority, ident(1));
    assert_eq!(store.get(&second).unwrap().authority, ident(4));
}

#[test]
fn process_add_update_delete() {
    let (mut store, address) = store_with(ident(1), ident(2), ident(3));
    let ctx = ProcessLpv2Action { user_metadata: address, relayer: ident(3) };
    assert_eq!(add(&mut store, address, ident(3), "A"), Ok(()));
    assert_eq!(list_at(&store, &address), vec!["A".to_string()]);
    assert_eq!(add(&mut store, address, ident(3), "A"), Ok(()));
    assert_eq!(list_at(&store, &address), vec!["A".to_string(), "A".to_string()]);
    assert_eq!(add(&mut store, address, ident(3), "C"), Ok(()));
    let r = process_lpv2_action(
        &mut store,
        &ctx,
        PasswordAction::Update,
        None,
        Some("A".to_string()),
        Some("B".to_string()),
    );
    assert_eq!(r, Ok(()));
    assert_eq!(list_at(&store, &address), vec!["B".to_string(), "A".to_string(), "C".to_string()]);
    let r = process_lpv2_action(
        &mut store,
        &ctx,
        PasswordAction::Update,
        None,
        Some("Z".to_string()),
        Some("Y".to_string()),
    );
    assert_eq!(r, Ok(()));
    assert_eq!(list_at(&store, &address), vec!["B".to_string(), "A".to_string(), "C".to_string()]);
    assert_eq!(add(&mut store, address, ident(3), "B"), Ok(()));
    let r = process_lpv2_action(&mut store, &ctx, PasswordAction::Delete, Some("B".to_string()), None, None);
    assert_eq!(r, Ok(()));
    assert_eq!(list_at(&store, &address), vec!["A".to_string(), "C".to_string()]);
    let record = store.get(&address).unwrap();
    assert_eq!(record.authority, ident(1));
    assert_eq!(record.relayer, ident(3));
    assert_eq!(record.lpv2_shielded_pubkey, ident(2));
}

#[test]
fn process_by_another_caller_is_unauthorized() {
    let (mut store, address) = store_with(ident(1), ident(2), ident(3));
    assert_eq!(add(&mut store, address, ident(3), "A"), Ok(()));
    assert_eq!(add(&mut store, address, ident(7), "B"), Err(ErrorCode::Unauthorized));
    assert_eq!(list_at(&store, &address), vec!["A".to_string()]);
}

#[test]
fn the_owner_is_not_the_relayer() {
    let (mut store, address) = store_with(ident(1), ident(2), ident(3));
    assert_eq!(add(&mut store, address, ident(1), "A"), Err(ErrorCode::Unauthorized));
    assert!(list_at(&store, &address).is_empty());
    let ctx = UpdateLpv2ShieldedKey { user_metadata: address, relayer: ident(1) };
    assert_eq!(update_lpv2_shielded_key(&mut store, &ctx, ident(9)), Err(ErrorCode::Unauthorized));
    assert_eq!(store.get(&address).unwrap().lpv2_shielded_pubkey, ident(2));
}

#[test]
fn unauthorized_comes_before_invalid_action_data() {
    let (mut store, address) = store_with(ident(1), ident(2), ident(3));
    let ctx = ProcessLpv2Action { user_metadata: address, relayer: ident(7) };
    let r = process_lpv2_action(&mut store, &ctx, PasswordAction::Add, None, None, None);
    assert_eq!(r, Err(ErrorCode::Unauthorized));
}

#[test]
fn add_without_cid_is_invalid_action_data() {
    let (mut store, address) = store_with(ident(1), ident(2), ident(3));
    assert_eq!(add(&mut store, address, ident(3), "A"), Ok(()));
    let ctx = ProcessLpv2Action { user_metadata: address, relayer: ident(3) };
    let r = process_lpv2_action(
        &mut store,
        &ctx,
        PasswordAction::Add,
        None,
        Some("A".to_string()),
        Some("B".to_string()),
    );
    assert_eq!(r, Err(ErrorCode::InvalidActionData));
    assert_eq!(list_at(&store, &address), vec!["A".to_string()]);
    let r = process_lpv2_action(&mut store, &ctx, PasswordAction::Update, Some("A".to_string()), None, None);
    assert_eq!(r, Err(ErrorCode::InvalidActionData));
    let r = process_lpv2_action(&mut store, &ctx, PasswordAction::Delete, None, Some("A".to_string()), None);
    assert_eq!(r, Err(ErrorCode::InvalidActionData));
    assert_eq!(list_at(&store, &address), vec!["A".to_string()]);
}

#[test]
fn process_at_an_address_without_record_is_a_mismatch() {
    let (mut store, _address) = store_with(ident(1), ident(2), ident(3));
    assert_eq!(add(&mut store, ident(1), ident(3), "A"), Err(ErrorCode::AddressMismatch));
    let ctx = UpdateLpv2ShieldedKey { user_metadata: ident(42), relayer: ident(3) };
    assert_eq!(update_lpv2_shielded_key(&mut store, &ctx, ident(9)), Err(ErrorCode::AddressMismatch));
    assert_eq!(store.len(), 1);
}

#[test]
fn a_record_kept_elsewhere_is_a_mismatch() {
    let mut store = RecordStore::new();
    let record = UserMetadata::new(ident(1), ident(2), ident(3));
    assert_eq!(store.create(ident(50), record), Ok(()));
    assert_eq!(add(&mut store, ident(50), ident(3), "A"), Err(ErrorCode::AddressMismatch));
    assert!(list_at(&store, &ident(50)).is_empty());
}

#[test]
fn process_reports_storage_full() {
    let (mut store, address) = store_with(ident(1), ident(2), ident(3));
    assert_eq!(add(&mut store, address, ident(3), &"c".repeat(90)), Ok(()));
    assert_eq!(add(&mut store, address, ident(3), "abc"), Err(ErrorCode::StorageFull));
    assert_eq!(list_at(&store, &address), vec!["c".repeat(90)]);
    assert_eq!(add(&mut store, address, ident(3), "ab"), Ok(()));
    assert_eq!(list_at(&store, &address), vec!["c".repeat(90), "ab".to_string()]);
}

#[test]
fn rotate_key_overwrites() {
    let (mut store, address) = store_with(ident(1), ident(2), ident(3));
    assert_eq!(add(&mut store, address, ident(3), "A"), Ok(()));
    let ctx = UpdateLpv2ShieldedKey { user_metadata: address, relayer: ident(3) };
    assert_eq!(update_lpv2_shielded_key(&mut store, &ctx, ident(9)), Ok(()));
    let record = store.get(&address).unwrap();
    assert_eq!(record.lpv2_shielded_pubkey, ident(9));
    assert_eq!(record.authority, ident(1));
    assert_eq!(record.relayer, ident(3));
    assert_eq!(record.data_pointers, vec!["A".to_string()]);
    // the same key again is accepted
    assert_eq!(update_lpv2_shielded_key(&mut store, &ctx, ident(9)), Ok(()));
    assert_eq!(store.get(&address).unwrap().lpv2_shielded_pubkey, ident(9));
}

#[test]
fn rotate_changes_the_key_only() {
    let mut record = UserMetadata::new(ident(1), ident(2), ident(3));
    record.data_pointers.push("A".to_string());
    rotate(&mut record, ident(4));
    assert_eq!(record.lpv2_shielded_pubkey, ident(4));
    assert_eq!(record.authority, ident(1));
    assert_eq!(record.relayer, ident(3));
    assert_eq!(record.data_pointers, vec!["A".to_string()]);
}

#[test]
fn authorize_checks_address_then_caller() {
    let record = UserMetadata::new(ident(1), ident(2), ident(3));
    assert_eq!(authorize(&record, &ident(5), Some(ident(5)), &ident(3)), Ok(()));
    assert_eq!(authorize(&record, &ident(5), Some(ident(6)), &ident(3)), Err(ErrorCode::AddressMismatch));
    assert_eq!(authorize(&record, &ident(5), None, &ident(3)), Err(ErrorCode::AddressMismatch));
    assert_eq!(authorize(&record, &ident(5), Some(ident(5)), &ident(1)), Err(ErrorCode::Unauthorized));
    assert_eq!(authorize(&record, &ident(5), Some(ident(6)), &ident(1)), Err(ErrorCode::AddressMismatch));
}

#[test]
fn check_access_derives_the_owners_address() {
    let record = UserMetadata::new(ident(1), ident(2), ident(3));
    let address = address_of(&ident(1));
    assert_eq!(check_access(&record, &address, &ident(3)), Ok(()));
    assert_eq!(check_access(&record, &address, &ident(2)), Err(ErrorCode::Unauthorized));
    assert_eq!(check_access(&record, &address_of(&ident(2)), &ident(3)), Err(ErrorCode::AddressMismatch));
}

#[test]
fn store_create_get_write() {
    let mut store = RecordStore::new();
    assert_eq!(store.len(), 0);
    assert!(store.get(&ident(1)).is_none());
    assert_eq!(store.create(ident(1), UserMetadata::new(ident(10), ident(11), ident(12))), Ok(()));
    assert_eq!(
        store.create(ident(1), UserMetadata::new(ident(20), ident(21), ident(22))),
        Err(ErrorCode::AlreadyExists)
    );
    assert_eq!(store.get(&ident(1)).unwrap().authority, ident(10));
    assert!(store.write(&ident(1), UserMetadata::new(ident(10), ident(31), ident(12))));
    assert_eq!(store.get(&ident(1)).unwrap().lpv2_shielded_pubkey, ident(31));
    assert!(!store.write(&ident(2), UserMetadata::new(ident(10), ident(31), ident(12))));
    assert!(store.get(&ident(2)).is_none());
    assert_eq!(store.len(), 1);
}

#[test]
fn initialize_at_keeps_the_record_at_the_address_given() {
    let mut store = RecordStore::new();
    assert_eq!(initialize_at(&mut store, Some(ident(5)), ident(1), ident(2), ident(3)), Ok(()));
    let record = store.get(&ident(5)).expect("a record");
    assert_eq!(record.authority, ident(1));
    assert_eq!(record.lpv2_shielded_pubkey, ident(2));
    assert_eq!(record.relayer, ident(3));
    assert!(record.data_pointers.is_empty());
    assert_eq!(
        initialize_at(&mut store, Some(ident(5)), ident(6), ident(7), ident(8)),
        Err(ErrorCode::AlreadyExists)
    );
    assert_eq!(store.get(&ident(5)).unwrap().authority, ident(1));
}

#[test]
fn initialize_at_without_an_address_is_a_mismatch() {
    let mut store = RecordStore::new();
    assert_eq!(initialize_at(&mut store, None, ident(1), ident(2), ident(3)), Err(ErrorCode::AddressMismatch));
    assert_eq!(store.len(), 0);
}

#[test]
fn admission_goes_by_address_then_use() {
    assert_eq!(admission_at(Some((ident(5), 254)), &ident(5), false), Ok(254));
    assert_eq!(admission_at(Some((ident(5), 254)), &ident(5), true), Err(ErrorCode::AlreadyExists));
    assert_eq!(admission_at(Some((ident(5), 254)), &ident(6), false), Err(ErrorCode::AddressMismatch));
    assert_eq!(admission_at(Some((ident(5), 254)), &ident(6), true), Err(ErrorCode::AddressMismatch));
    assert_eq!(admission_at(None, &ident(5), false), Err(ErrorCode::AddressMismatch));
}

#[test]
fn admission_gives_the_bump_of_the_owners_address() {
    let owner = ident(9);
    let (address, bump) = keyra_program::address::derive(&owner, b"user_metadata").unwrap();
    assert_eq!(admission(&owner, &address, false), Ok(bump));
    assert_eq!(admission(&owner, &address, true), Err(ErrorCode::AlreadyExists));
    assert_eq!(admission(&owner, &owner, false), Err(ErrorCode::AddressMismatch));
    assert_eq!(admission(&ident(8), &address, false), Err(ErrorCode::AddressMismatch));
}
