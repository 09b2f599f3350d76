use vstd::prelude::*;
use crate::action::{
    apply_spec, differs, is_first_match, lemma_first_match, lemma_remove_all_push, outcome,
    remove_all, replace_first, validate_spec, Change, PasswordAction,
};
use crate::address::record_address;
use crate::error::ErrorCode;
use crate::layout::{encoding, lemma_encoding_len, lemma_stored_once, stored, well_formed};
use crate::program::{access_spec, initialize_spec, process_spec, rotate_key_spec};
use crate::record::{fits, lemma_size_push, pointers_size, space_spec, Record};

verus! {

/// An addition puts its identifier at the end of the list and leaves every
/// item before it in place, whether or not the list held the identifier.
pub proof fn law_add_appends(list: Seq<Seq<char>>, cid: Seq<char>)
    ensures
        outcome(list, Change::Add { cid }).len() == list.len() + 1,
        outcome(list, Change::Add { cid }).last() == cid,
        outcome(list, Change::Add { cid }).drop_last() == list,
{
    assert(list.push(cid).drop_last() =~= list);
}

/// An update changes the first item equal to the old identifier and no
/// other: the list keeps its length, the item at the first match becomes the
/// new identifier, and every other item stays where it was.
pub proof fn law_update_first_only(
    list: Seq<Seq<char>>,
    old_cid: Seq<char>,
    new_cid: Seq<char>,
    k: int,
)
    requires
        is_first_match(list, old_cid, k),
    ensures
        replace_first(list, old_cid, new_cid).len() == list.len(),
        replace_first(list, old_cid, new_cid)[k] == new_cid,
        forall|j: int|
            0 <= j < list.len() && j != k ==> #[trigger] replace_first(list, old_cid, new_cid)[j]
                == list[j],
{
    lemma_first_match(list, old_cid, k);
}

/// An update whose old identifier the list does not hold changes nothing,
/// and is no error.
pub proof fn law_update_absent(record: Record, old_cid: Seq<char>, new_cid: Seq<char>)
    requires
        !record.data_pointers.contains(old_cid),
    ensures
        apply_spec(record, Change::Update { old_cid, new_cid }) == Ok::<Record, ErrorCode>(record),
{
}

/// A deletion leaves no item equal to its identifier.
pub proof fn law_delete_complete(list: Seq<Seq<char>>, cid: Seq<char>)
    ensures
        !remove_all(list, cid).contains(cid),
{
    let kept = remove_all(list, cid);
    if kept.contains(cid) {
        let i = choose|i: int| 0 <= i < kept.len() && kept[i] == cid;
        list.lemma_filter_pred(differs(cid), i);
    }
}

/// A deletion keeps every item that differs from its identifier.
pub proof fn law_delete_keeps_others(list: Seq<Seq<char>>, cid: Seq<char>, i: int)
    requires
        0 <= i < list.len(),
        list[i] != cid,
    ensures
        remove_all(list, cid).contains(list[i]),
{
    list.lemma_filter_contains(differs(cid), i);
}

/// A deletion keeps the order of the items that stay: what it leaves of two
/// lists joined is what it leaves of the first, then what it leaves of the
/// second.
pub proof fn law_delete_keeps_order(first: Seq<Seq<char>>, second: Seq<Seq<char>>, cid: Seq<char>)
    ensures
        remove_all(first + second, cid) == remove_all(first, cid) + remove_all(second, cid),
{
    Seq::filter_distributes_over_add(first, second, differs(cid));
}

/// A deletion whose identifier the list does not hold changes nothing.
pub proof fn law_delete_absent(list: Seq<Seq<char>>, cid: Seq<char>)
    requires
        !list.contains(cid),
    ensures
        remove_all(list, cid) == list,
    decreases list.len(),
{
    reveal(Seq::filter);
    if list.len() > 0 {
        let front = list.drop_last();
        assert forall|i: int| 0 <= i < front.len() implies front[i] != cid by {
            assert(list[i] == front[i]);
            assert(list.contains(list[i]));
        }
        law_delete_absent(front, cid);
        assert(list.contains(list.last()));
        assert(front.push(list.last()) =~= list);
    }
}

/// A deletion applied twice gives what it gives applied once. On a list that
/// does not hold the identifier both give the list itself.
pub proof fn law_delete_idempotent(list: Seq<Seq<char>>, cid: Seq<char>)
    ensures
        remove_all(remove_all(list, cid), cid) == remove_all(list, cid),
        !list.contains(cid) ==> remove_all(remove_all(list, cid), cid) == list,
{
    law_delete_complete(list, cid);
    law_delete_absent(remove_all(list, cid), cid);
    if !list.contains(cid) {
        law_delete_absent(list, cid);
    }
}

/// What a deletion leaves takes no more storage than the list took.
pub proof fn law_delete_shrinks(list: Seq<Seq<char>>, cid: Seq<char>)
    ensures
        pointers_size(remove_all(list, cid)) <= pointers_size(list),
    decreases list.len(),
{
    reveal(Seq::filter);
    if list.len() > 0 {
        let front = list.drop_last();
        law_delete_shrinks(front, cid);
        lemma_remove_all_push(front, list.last(), cid);
        assert(front.push(list.last()) =~= list);
        lemma_size_push(front, list.last());
        if list.last() != cid {
            lemma_size_push(remove_all(front, cid), list.last());
        }
    }
}

/// A record that fits in its storage still fits after every change that is
/// granted.
pub proof fn law_change_keeps_fit(record: Record, change: Change)
    requires
        fits(record.data_pointers),
    ensures
        match apply_spec(record, change) {
            Ok(after) => fits(after.data_pointers),
            Err(e) => e == ErrorCode::StorageFull,
        },
{
    match change {
        Change::Delete { cid } => {
            law_delete_shrinks(record.data_pointers, cid);
        },
        _ => {},
    }
}

/// A deletion is never refused.
pub proof fn law_delete_succeeds(record: Record, cid: Seq<char>)
    ensures
        apply_spec(record, Change::Delete { cid }) is Ok,
{
}

/// No change to the content identifiers touches the owner, the relayer or
/// the shielded key of a record.
pub proof fn law_change_keeps_identities(record: Record, change: Change)
    ensures
        match apply_spec(record, change) {
            Ok(after) => after.authority == record.authority && after.relayer == record.relayer
                && after.shielded_pubkey == record.shielded_pubkey,
            Err(e) => e == ErrorCode::StorageFull,
        },
{
}

/// A request without the field that its kind needs is refused with
/// `InvalidActionData`, whatever the other fields hold.
pub proof fn law_missing_field(
    kind: PasswordAction,
    cid: Option<Seq<char>>,
    old_cid: Option<Seq<char>>,
    new_cid: Option<Seq<char>>,
)
    ensures
        validate_spec(PasswordAction::Add, None, old_cid, new_cid) == Err::<Change, ErrorCode>(
            ErrorCode::InvalidActionData,
        ),
        validate_spec(PasswordAction::Delete, None, old_cid, new_cid) == Err::<Change, ErrorCode>(
            ErrorCode::InvalidActionData,
        ),
        validate_spec(PasswordAction::Update, cid, None, new_cid) == Err::<Change, ErrorCode>(
            ErrorCode::InvalidActionData,
        ),
        validate_spec(PasswordAction::Update, cid, old_cid, None) == Err::<Change, ErrorCode>(
            ErrorCode::InvalidActionData,
        ),
        validate_spec(kind, cid, old_cid, new_cid) is Err <==> match kind {
            PasswordAction::Add => cid is None,
            PasswordAction::Update => old_cid is None || new_cid is None,
            PasswordAction::Delete => cid is None,
        },
{
}

/// A caller who is not the relayer of the record kept at an address is
/// refused, whatever is asked for: a change to the content identifiers or a
/// new shielded key. The refusal is `Unauthorized` where the record is kept
/// at the address that its owner derives, and `AddressMismatch` where it is
/// not, since the addresses are held against each other first.
pub proof fn law_only_the_relayer(
    store: Map<Seq<u8>, Record>,
    address: Seq<u8>,
    caller: Seq<u8>,
    kind: PasswordAction,
    cid: Option<Seq<char>>,
    old_cid: Option<Seq<char>>,
    new_cid: Option<Seq<char>>,
    new_pubkey: Seq<u8>,
)
    requires
        store.contains_key(address),
        caller != store[address].relayer,
    ensures
        process_spec(store, address, caller, kind, cid, old_cid, new_cid) == Err::<
            Map<Seq<u8>, Record>,
            ErrorCode,
        >(
            if record_address(store[address].authority) == Some(address) {
                ErrorCode::Unauthorized
            } else {
                ErrorCode::AddressMismatch
            },
        ),
        rotate_key_spec(store, address, caller, new_pubkey) == Err::<
            Map<Seq<u8>, Record>,
            ErrorCode,
        >(
            if record_address(store[address].authority) == Some(address) {
                ErrorCode::Unauthorized
            } else {
                ErrorCode::AddressMismatch
            },
        ),
{
}

/// Every record of the store is kept at the address derived from its owner.
pub open spec fn bound(store: Map<Seq<u8>, Record>) -> bool {
    forall|address: Seq<u8>| #[trigger]
        store.contains_key(address) ==> record_address(store[address].authority) == Some(address)
}

/// The stored form of a record that fits in its storage is no longer than
/// the storage, and bytes that begin with it hold the record, whatever
/// follows.
pub proof fn law_stored_form(record: Record, rest: Seq<u8>)
    requires
        well_formed(record),
        fits(record.data_pointers),
    ensures
        encoding(record).len() <= space_spec(),
        stored(encoding(record) + rest, record),
{
    lemma_encoding_len(record);
    assert((encoding(record) + rest).subrange(0, encoding(record).len() as int) =~= encoding(
        record,
    ));
}

/// Reading is the inverse of writing: bytes that begin with the stored form
/// of a record hold that record and no other.
pub proof fn law_read_what_was_written(record: Record, rest: Seq<u8>, other: Record)
    requires
        well_formed(record),
        fits(record.data_pointers),
        stored(encoding(record) + rest, other),
    ensures
        other == record,
{
    law_stored_form(record, rest);
    lemma_stored_once(encoding(record) + rest, record, other);
}

/// Every record of the store fits in the storage allocated to it.
pub open spec fn all_fit(store: Map<Seq<u8>, Record>) -> bool {
    forall|address: Seq<u8>| #[trigger]
        store.contains_key(address) ==> fits(store[address].data_pointers)
}

/// Where every record fits in its storage, every record still does after a
/// creation, after a change to the content identifiers and after a new
/// shielded key.
pub proof fn law_records_fit(
    store: Map<Seq<u8>, Record>,
    address: Seq<u8>,
    caller: Seq<u8>,
    kind: PasswordAction,
    cid: Option<Seq<char>>,
    old_cid: Option<Seq<char>>,
    new_cid: Option<Seq<char>>,
    shielded_pubkey: Seq<u8>,
    relayer: Seq<u8>,
)
    requires
        all_fit(store),
    ensures
        match initialize_spec(store, caller, shielded_pubkey, relayer) {
            Ok(after) => all_fit(after),
            Err(e) => true,
        },
        match process_spec(store, address, caller, kind, cid, old_cid, new_cid) {
            Ok(after) => all_fit(after),
            Err(e) => true,
        },
        match rotate_key_spec(store, address, caller, shielded_pubkey) {
            Ok(after) => all_fit(after),
            Err(e) => true,
        },
{
    if process_spec(store, address, caller, kind, cid, old_cid, new_cid) is Ok {
        let change = validate_spec(kind, cid, old_cid, new_cid)->Ok_0;
        law_change_keeps_fit(store[address], change);
    }
}

/// In a store whose records are kept at their owners' addresses, no owner
/// has two records.
pub proof fn law_one_record_per_owner(
    store: Map<Seq<u8>, Record>,
    first: Seq<u8>,
    second: Seq<u8>,
)
    requires
        bound(store),
        store.contains_key(first),
        store.contains_key(second),
        store[first].authority == store[second].authority,
    ensures
        first == second,
{
}

/// A record that was created is read back as it was asked for: at the
/// owner's address, with the owner, the shielded key and the relayer given,
/// and no content identifiers. Every other record is as it was, and the
/// records stay at their owners' addresses.
pub proof fn law_initialize_then_read(
    store: Map<Seq<u8>, Record>,
    owner: Seq<u8>,
    shielded_pubkey: Seq<u8>,
    relayer: Seq<u8>,
)
    requires
        initialize_spec(store, owner, shielded_pubkey, relayer) is Ok,
    ensures
        ({
            let after = initialize_spec(store, owner, shielded_pubkey, relayer)->Ok_0;
            let address = record_address(owner)->Some_0;
            &&& record_address(owner) is Some
            &&& !store.contains_key(address)
            &&& after.contains_key(address)
            &&& after[address] == (Record {
                authority: owner,
                shielded_pubkey,
                relayer,
                data_pointers: Seq::empty(),
            })
            &&& forall|other: Seq<u8>|
                other != address ==> (after.contains_key(other) <==> store.contains_key(other))
                    && (store.contains_key(other) ==> after[other] == store[other])
            &&& bound(store) ==> bound(after)
        }),
{
}

/// A second creation for an owner who has a record is refused with
/// `AlreadyExists`.
pub proof fn law_create_once(
    store: Map<Seq<u8>, Record>,
    owner: Seq<u8>,
    shielded_pubkey: Seq<u8>,
    relayer: Seq<u8>,
    again_pubkey: Seq<u8>,
    again_relayer: Seq<u8>,
)
    requires
        initialize_spec(store, owner, shielded_pubkey, relayer) is Ok,
    ensures
        initialize_spec(
            initialize_spec(store, owner, shielded_pubkey, relayer)->Ok_0,
            owner,
            again_pubkey,
            again_relayer,
        ) == Err::<Map<Seq<u8>, Record>, ErrorCode>(ErrorCode::AlreadyExists),
{
}

/// A request that is granted touches one record only, and of that record
/// neither the owner nor the relayer: the store keeps its addresses, every
/// other record is as it was, and the records stay at their owners'
/// addresses. A change to the content identifiers leaves the shielded key,
/// and a new shielded key leaves the content identifiers.
pub proof fn law_owner_and_relayer_fixed(
    store: Map<Seq<u8>, Record>,
    address: Seq<u8>,
    caller: Seq<u8>,
    kind: PasswordAction,
    cid: Option<Seq<char>>,
    old_cid: Option<Seq<char>>,
    new_cid: Option<Seq<char>>,
    new_pubkey: Seq<u8>,
)
    ensures
        match process_spec(store, address, caller, kind, cid, old_cid, new_cid) {
            Ok(after) => after.dom() == store.dom() && after[address].authority
                == store[address].authority && after[address].relayer == store[address].relayer
                && after[address].shielded_pubkey == store[address].shielded_pubkey
                && after.remove(address) == store.remove(address) && (bound(store) ==> bound(
                after,
            )),
            Err(e) => true,
        },
        match rotate_key_spec(store, address, caller, new_pubkey) {
            Ok(after) => after.dom() == store.dom() && after[address].authority
                == store[address].authority && after[address].relayer == store[address].relayer
                && after[address].shielded_pubkey == new_pubkey && after[address].data_pointers
                == store[address].data_pointers && after.remove(address) == store.remove(address)
                && (bound(store) ==> bound(after)),
            Err(e) => true,
        },
{
    match process_spec(store, address, caller, kind, cid, old_cid, new_cid) {
        Ok(after) => {
            assert(after.dom() =~= store.dom());
            assert(after.remove(address) =~= store.remove(address));
        },
        Err(e) => {},
    }
    match rotate_key_spec(store, address, caller, new_pubkey) {
        Ok(after) => {
            assert(after.dom() =~= store.dom());
            assert(after.remove(address) =~= store.remove(address));
        },
        Err(e) => {},
    }
}

/// A caller is let through exactly when a record is kept at the
/// address, the record's owner derives that address, and the caller is the
/// record's relayer. The owner is let through only where the owner is the
/// relayer too.
pub proof fn law_access(store: Map<Seq<u8>, Record>, address: Seq<u8>, caller: Seq<u8>)
    ensures
        access_spec(store, address, caller) is Ok <==> store.contains_key(address)
            && record_address(store[address].authority) == Some(address) && caller
            == store[address].relayer,
{
}

} // verus!
