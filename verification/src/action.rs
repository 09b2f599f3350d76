use vstd::prelude::*;
use crate::error::ErrorCode;
use crate::record::{
    fits, lemma_size_push, pointers, pointers_within, Record, UserMetadata, RESERVE,
};

verus! {

/// The kind of a change to a record's list of content identifiers.
#[derive(Clone, Copy, Debug, PartialEq, Eq, Structural)]
pub enum PasswordAction {
    Add,
    Update,
    Delete,
}

/// A change to a record's list of content identifiers, with the fields that
/// its kind needs.
#[derive(Debug)]
pub enum Action {
    /// Append `cid` to the end of the list.
    Add { cid: String },
    /// Put `new_cid` in the place of the first item equal to `old_cid`.
    Update { old_cid: String, new_cid: String },
    /// Remove every item equal to `cid`.
    Delete { cid: String },
}

/// A change as mathematical values.
pub ghost enum Change {
    Add { cid: Seq<char> },
    Update { old_cid: Seq<char>, new_cid: Seq<char> },
    Delete { cid: Seq<char> },
}

impl View for Action {
    type V = Change;

    open spec fn view(&self) -> Change {
        match self {
            Action::Add { cid } => Change::Add { cid: cid@ },
            Action::Update { old_cid, new_cid } => Change::Update {
                old_cid: old_cid@,
                new_cid: new_cid@,
            },
            Action::Delete { cid } => Change::Delete { cid: cid@ },
        }
    }
}

/// The text of a field of a request, where the field is present.
pub open spec fn text(field: Option<String>) -> Option<Seq<char>> {
    match field {
        Some(s) => Some(s@),
        None => None,
    }
}

/// The change that a request asks for: its kind with the fields that the kind
/// needs, or `InvalidActionData` where one of them is absent.
pub open spec fn validate_spec(
    kind: PasswordAction,
    cid: Option<Seq<char>>,
    old_cid: Option<Seq<char>>,
    new_cid: Option<Seq<char>>,
) -> Result<Change, ErrorCode> {
    match kind {
        PasswordAction::Add => match cid {
            Some(c) => Ok(Change::Add { cid: c }),
            None => Err(ErrorCode::InvalidActionData),
        },
        PasswordAction::Update => match (old_cid, new_cid) {
            (Some(o), Some(n)) => Ok(Change::Update { old_cid: o, new_cid: n }),
            _ => Err(ErrorCode::InvalidActionData),
        },
        PasswordAction::Delete => match cid {
            Some(c) => Ok(Change::Delete { cid: c }),
            None => Err(ErrorCode::InvalidActionData),
        },
    }
}

/// Whether `k` is the place of the first item of `list` equal to `cid`.
pub open spec fn is_first_match(list: Seq<Seq<char>>, cid: Seq<char>, k: int) -> bool {
    &&& 0 <= k < list.len()
    &&& list[k] == cid
    &&& forall|j: int| 0 <= j < k ==> list[j] != cid
}

/// The place of the first item of `list` equal to `cid`, where there is one.
pub open spec fn first_match(list: Seq<Seq<char>>, cid: Seq<char>) -> int {
    choose|k: int| is_first_match(list, cid, k)
}

/// `list` with `new_cid` in the place of the first item equal to `old_cid`;
/// `list` itself where no item equals `old_cid`.
pub open spec fn replace_first(
    list: Seq<Seq<char>>,
    old_cid: Seq<char>,
    new_cid: Seq<char>,
) -> Seq<Seq<char>> {
    if list.contains(old_cid) {
        list.update(first_match(list, old_cid), new_cid)
    } else {
        list
    }
}

/// The test that an item differs from `cid`.
pub open spec fn differs(cid: Seq<char>) -> spec_fn(Seq<char>) -> bool {
    |item: Seq<char>| item != cid
}

/// `list` without the items equal to `cid`, the others in their order.
pub open spec fn remove_all(list: Seq<Seq<char>>, cid: Seq<char>) -> Seq<Seq<char>> {
    list.filter(differs(cid))
}

/// The list that a change makes of `list`.
pub open spec fn outcome(list: Seq<Seq<char>>, change: Change) -> Seq<Seq<char>> {
    match change {
        Change::Add { cid } => list.push(cid),
        Change::Update { old_cid, new_cid } => replace_first(list, old_cid, new_cid),
        Change::Delete { cid } => remove_all(list, cid),
    }
}

/// Whether a change puts a new item into `list`, so that the storage must be
/// looked at: every addition, and an update that finds its item.
pub open spec fn needs_room(list: Seq<Seq<char>>, change: Change) -> bool {
    match change {
        Change::Add { cid } => true,
        Change::Update { old_cid, new_cid } => list.contains(old_cid),
        Change::Delete { cid } => false,
    }
}

/// The record that a change makes of `record`, or `StorageFull` where the
/// change puts in an item and the record would no longer fit in its storage.
pub open spec fn apply_spec(record: Record, change: Change) -> Result<Record, ErrorCode> {
    let list = outcome(record.data_pointers, change);
    if needs_room(record.data_pointers, change) && !fits(list) {
        Err(ErrorCode::StorageFull)
    } else {
        Ok(Record { data_pointers: list, ..record })
    }
}

/// There is one first match at most.
pub proof fn lemma_first_match(list: Seq<Seq<char>>, cid: Seq<char>, k: int)
    requires
        is_first_match(list, cid, k),
    ensures
        list.contains(cid),
        first_match(list, cid) == k,
{
    let found = first_match(list, cid);
    assert(is_first_match(list, cid, found));
    if found < k {
        assert(list[found] != cid);
    }
    if k < found {
        assert(list[k] != cid);
    }
}

/// Removing from a list with one more item at its end: the item stays unless
/// it is the one removed.
pub proof fn lemma_remove_all_push(list: Seq<Seq<char>>, item: Seq<char>, cid: Seq<char>)
    ensures
        remove_all(list.push(item), cid) == if item == cid {
            remove_all(list, cid)
        } else {
            remove_all(list, cid).push(item)
        },
{
    reveal(Seq::filter);
    assert(list.push(item).drop_last() =~= list);
}

/// Reads a request: the kind and the fields that came with it.
pub fn validate(
    kind: PasswordAction,
    cid: Option<String>,
    old_cid: Option<String>,
    new_cid: Option<String>,
) -> (r: Result<Action, ErrorCode>)
    ensures
        match r {
            Ok(action) => validate_spec(kind, text(cid), text(old_cid), text(new_cid)) == Ok::<
                Change,
                ErrorCode,
            >(action@),
            Err(e) => validate_spec(kind, text(cid), text(old_cid), text(new_cid)) == Err::<
                Change,
                ErrorCode,
            >(e),
        },
{
    match kind {
        PasswordAction::Add => match cid {
            Some(c) => Ok(Action::Add { cid: c }),
            None => Err(ErrorCode::InvalidActionData),
        },
        PasswordAction::Update => match (old_cid, new_cid) {
            (Some(o), Some(n)) => Ok(Action::Update { old_cid: o, new_cid: n }),
            _ => Err(ErrorCode::InvalidActionData),
        },
        PasswordAction::Delete => match cid {
            Some(c) => Ok(Action::Delete { cid: c }),
            None => Err(ErrorCode::InvalidActionData),
        },
    }
}

/// The place of the first item equal to `cid`, or `None` where no item equals it.
pub fn find_first(list: &Vec<String>, cid: &String) -> (r: Option<usize>)
    ensures
        match r {
            Some(k) => is_first_match(pointers(list@), cid@, k as int),
            None => !pointers(list@).contains(cid@),
        },
{
    let mut i: usize = 0;
    while i < list.len()
        invariant
            i <= list.len(),
            forall|j: int| 0 <= j < i ==> pointers(list@)[j] != cid@,
        decreases list.len() - i,
    {
        if list[i] == *cid {
            return Some(i);
        }
        i += 1;
    }
    None
}

/// The items that do not equal `cid`, in their order.
pub fn without(list: &Vec<String>, cid: &String) -> (kept: Vec<String>)
    ensures
        pointers(kept@) == remove_all(pointers(list@), cid@),
{
    let ghost all = pointers(list@);
    let mut kept: Vec<String> = Vec::new();
    let mut i: usize = 0;
    assert(all.subrange(0, 0) =~= Seq::<Seq<char>>::empty());
    assert(pointers(kept@) =~= Seq::<Seq<char>>::empty());
    proof {
        reveal(Seq::filter);
    }
    while i < list.len()
        invariant
            i <= list.len(),
            all == pointers(list@),
            pointers(kept@) == remove_all(all.subrange(0, i as int), cid@),
        decreases list.len() - i,
    {
        proof {
            assert(all.subrange(0, i + 1) =~= all.subrange(0, i as int).push(all[i as int]));
            lemma_remove_all_push(all.subrange(0, i as int), all[i as int], cid@);
        }
        if list[i] != *cid {
            let ghost before = kept@;
            let item = list[i].clone();
            kept.push(item);
            assert(pointers(kept@) =~= pointers(before).push(item@));
        }
        i += 1;
    }
    assert(all.subrange(0, i as int) =~= all);
    kept
}

/// Applies one change to a record's list of content identifiers. Nothing else
/// of the record changes, and a change that is refused changes nothing.
pub fn apply(record: &mut UserMetadata, action: Action) -> (r: Result<(), ErrorCode>)
    ensures
        match r {
            Ok(()) => apply_spec(old(record)@, action@) == Ok::<Record, ErrorCode>(final(record)@),
            Err(e) => apply_spec(old(record)@, action@) == Err::<Record, ErrorCode>(e)
                && final(record)@ == old(record)@,
        },
{
    let ghost list = pointers(record.data_pointers@);
    match action {
        Action::Add { cid } => {
            let n: usize = cid.as_str().as_bytes().len();
            proof {
                lemma_size_push(list, cid@);
            }
            if n > RESERVE - 4 || !pointers_within(&record.data_pointers, RESERVE - 4 - n) {
                return Err(ErrorCode::StorageFull);
            }
            record.data_pointers.push(cid);
            assert(pointers(record.data_pointers@) =~= list.push(cid@));
            Ok(())
        },
        Action::Update { old_cid, new_cid } => {
            match find_first(&record.data_pointers, &old_cid) {
                Some(k) => {
                    proof {
                        lemma_first_match(list, old_cid@, k as int);
                    }
                    let previous = record.data_pointers[k].clone();
                    record.data_pointers.set(k, new_cid);
                    assert(pointers(record.data_pointers@) =~= list.update(k as int, new_cid@));
                    if !pointers_within(&record.data_pointers, RESERVE) {
                        record.data_pointers.set(k, previous);
                        assert(pointers(record.data_pointers@) =~= list);
                        return Err(ErrorCode::StorageFull);
                    }
                    Ok(())
                },
                None => Ok(()),
            }
        },
        Action::Delete { cid } => {
            let kept = without(&record.data_pointers, &cid);
            record.data_pointers = kept;
            Ok(())
        },
    }
}

} // verus!
