use vstd::prelude::*;
use vstd::utf8::encode_utf8;
use crate::identity::Identity;

verus! {

/// What a record holds, as mathematical values.
pub ghost struct Record {
    /// The owner of the record.
    pub authority: Seq<u8>,
    /// The reference to the owner's out-of-band encryption key.
    pub shielded_pubkey: Seq<u8>,
    /// The only identity that may change the record.
    pub relayer: Seq<u8>,
    /// The content identifiers, in the order in which they were added.
    pub data_pointers: Seq<Seq<char>>,
}

/// The record of one owner.
#[derive(Debug)]
pub struct UserMetadata {
    pub authority: Identity,
    pub lpv2_shielded_pubkey: Identity,
    pub relayer: Identity,
    pub data_pointers: Vec<String>,
}

/// The texts of a list of content identifiers.
pub open spec fn pointers(list: Seq<String>) -> Seq<Seq<char>> {
    Seq::new(list.len(), |i: int| list[i]@)
}

/// The bytes that one content identifier takes in storage: a length prefix
/// of four bytes and the identifier's UTF-8 encoding.
pub open spec fn pointer_size(cid: Seq<char>) -> nat {
    4 + encode_utf8(cid).len()
}

/// The bytes that the items of a list of content identifiers take in storage.
pub open spec fn pointers_size(list: Seq<Seq<char>>) -> nat
    decreases list.len(),
{
    if list.len() == 0 {
        0
    } else {
        pointers_size(list.drop_last()) + pointer_size(list.last())
    }
}

/// The bytes reserved for the content identifiers of a record.
pub const RESERVE: usize = 100;

/// The bytes reserved for the content identifiers of a record.
pub open spec fn reserve() -> nat {
    RESERVE as nat
}

/// The bytes of storage allocated to each record.
pub open spec fn space_spec() -> nat {
    8 + 32 + 32 + 32 + 4 + reserve()
}

/// The bytes that a record takes in storage: a tag of eight bytes, the three
/// identities, the list's length prefix of four bytes, and the list's items.
pub open spec fn encoded_size(list: Seq<Seq<char>>) -> nat {
    8 + 32 + 32 + 32 + 4 + pointers_size(list)
}

/// Whether a record with these content identifiers fits in its storage.
pub open spec fn fits(list: Seq<Seq<char>>) -> bool {
    encoded_size(list) <= space_spec()
}

/// A list takes the storage of all its items but the last, and that of the last.
pub proof fn lemma_size_push(list: Seq<Seq<char>>, cid: Seq<char>)
    ensures
        pointers_size(list.push(cid)) == pointers_size(list) + pointer_size(cid),
{
    assert(list.push(cid).drop_last() =~= list);
}

/// The first `k` items of a list take no more storage than the whole list.
pub proof fn lemma_size_prefix(list: Seq<Seq<char>>, k: int)
    requires
        0 <= k <= list.len(),
    ensures
        pointers_size(list.subrange(0, k)) <= pointers_size(list),
    decreases list.len(),
{
    if k == list.len() {
        assert(list.subrange(0, k) =~= list);
    } else {
        lemma_size_prefix(list.drop_last(), k);
        assert(list.drop_last().subrange(0, k) =~= list.subrange(0, k));
    }
}

impl View for UserMetadata {
    type V = Record;

    open spec fn view(&self) -> Record {
        Record {
            authority: self.authority@,
            shielded_pubkey: self.lpv2_shielded_pubkey@,
            relayer: self.relayer@,
            data_pointers: pointers(self.data_pointers@),
        }
    }
}

/// Whether the items of `list` take at most `limit` bytes in storage.
pub fn pointers_within(list: &Vec<String>, limit: usize) -> (r: bool)
    ensures
        r == (pointers_size(pointers(list@)) <= limit),
{
    let ghost all = pointers(list@);
    let mut total: usize = 0;
    let mut i: usize = 0;
    while i < list.len()
        invariant
            i <= list.len(),
            all == pointers(list@),
            total == pointers_size(all.subrange(0, i as int)),
            total <= limit,
        decreases list.len() - i,
    {
        let n: usize = list[i].as_str().as_bytes().len();
        proof {
            assert(all.subrange(0, i + 1) =~= all.subrange(0, i as int).push(all[i as int]));
            lemma_size_push(all.subrange(0, i as int), all[i as int]);
            lemma_size_prefix(all, i + 1);
        }
        let room: usize = limit - total;
        if room < 4 || n > room - 4 {
            return false;
        }
        total = total + 4 + n;
        i += 1;
    }
    assert(all.subrange(0, i as int) =~= all);
    true
}

/// A copy of a list of content identifiers.
pub fn copy_pointers(list: &Vec<String>) -> (r: Vec<String>)
    ensures
        pointers(r@) == pointers(list@),
{
    let mut r: Vec<String> = Vec::new();
    let mut i: usize = 0;
    while i < list.len()
        invariant
            i <= list.len(),
            r@.len() == i,
            forall|j: int| 0 <= j < i ==> r@[j]@ == list@[j]@,
        decreases list.len() - i,
    {
        r.push(list[i].clone());
        i += 1;
    }
    assert(pointers(r@) =~= pointers(list@));
    r
}

impl Clone for UserMetadata {
    fn clone(&self) -> (r: UserMetadata)
        ensures
            r@ == self@,
    {
        UserMetadata {
            authority: self.authority,
            lpv2_shielded_pubkey: self.lpv2_shielded_pubkey,
            relayer: self.relayer,
            data_pointers: copy_pointers(&self.data_pointers),
        }
    }
}

impl UserMetadata {
    /// The bytes of storage allocated to each record.
    pub fn space() -> (r: usize)
        ensures
            r == space_spec(),
    {
        8 + 32 + 32 + 32 + 4 + RESERVE
    }

    /// A new record of `authority` with no content identifiers.
    pub fn new(authority: Identity, lpv2_shielded_pubkey: Identity, relayer: Identity) -> (r: UserMetadata)
        ensures
            r@ == (Record {
                authority: authority@,
                shielded_pubkey: lpv2_shielded_pubkey@,
                relayer: relayer@,
                data_pointers: Seq::<Seq<char>>::empty(),
            }),
            fits(r@.data_pointers),
    {
        let r = UserMetadata { authority, lpv2_shielded_pubkey, relayer, data_pointers: Vec::new() };
        assert(pointers(r.data_pointers@) =~= Seq::<Seq<char>>::empty());
        r
    }

    /// Whether the record fits in the storage allocated to it.
    pub fn fits_in_space(&self) -> (r: bool)
        ensures
            r == fits(self@.data_pointers),
    {
        pointers_within(&self.data_pointers, RESERVE)
    }
}

} // verus!
