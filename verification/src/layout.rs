use vstd::prelude::*;
use vstd::bytes::{
    lemma_auto_spec_u32_to_from_le_bytes, spec_u32_to_le_bytes, u32_from_le_bytes,
    u32_to_le_bytes,
};
use vstd::slice::{slice_subrange, slice_to_vec};
use vstd::utf8::{encode_utf8, encode_utf8_decode_utf8, encode_utf8_valid_utf8, valid_utf8};
use crate::error::ErrorCode;
use crate::identity::Identity;
use crate::record::{
    encoded_size, fits, lemma_size_prefix, lemma_size_push, pointer_size, pointers,
    pointers_size, Record, UserMetadata, RESERVE,
};

verus! {

/// The eight bytes in front of every stored record, which tell it from any
/// other kind of account of the program.
pub open spec fn account_tag() -> Seq<u8> {
    seq![157u8, 214u8, 220u8, 235u8, 98u8, 135u8, 171u8, 28u8]
}

/// A content identifier as stored: the length of its UTF-8 encoding in four
/// bytes, least significant first, then the encoding.
pub open spec fn encode_text(cid: Seq<char>) -> Seq<u8> {
    spec_u32_to_le_bytes(encode_utf8(cid).len() as u32) + encode_utf8(cid)
}

/// The items of a list of content identifiers as stored, one after the other.
pub open spec fn encode_list(list: Seq<Seq<char>>) -> Seq<u8>
    decreases list.len(),
{
    if list.len() == 0 {
        Seq::empty()
    } else {
        encode_list(list.drop_last()) + encode_text(list.last())
    }
}

/// A record as stored: the tag, the owner, the shielded key, the relayer,
/// the number of content identifiers in four bytes, least significant first,
/// and the content identifiers.
pub open spec fn encoding(record: Record) -> Seq<u8> {
    account_tag() + record.authority + record.shielded_pubkey + record.relayer
        + spec_u32_to_le_bytes(record.data_pointers.len() as u32) + encode_list(
        record.data_pointers,
    )
}

/// Each identity of the record has 32 bytes.
pub open spec fn well_formed(record: Record) -> bool {
    record.authority.len() == 32 && record.shielded_pubkey.len() == 32 && record.relayer.len()
        == 32
}

/// The stored items of a list take the bytes that the list's size says.
pub proof fn lemma_encode_list_len(list: Seq<Seq<char>>)
    ensures
        encode_list(list).len() == pointers_size(list),
        4 * list.len() <= pointers_size(list),
    decreases list.len(),
{
    lemma_auto_spec_u32_to_from_le_bytes();
    if list.len() > 0 {
        lemma_encode_list_len(list.drop_last());
    }
}

/// A stored record takes the bytes that its size says, so a record fits in
/// its storage exactly when its stored form is no longer than the storage.
pub proof fn lemma_encoding_len(record: Record)
    requires
        well_formed(record),
    ensures
        encoding(record).len() == encoded_size(record.data_pointers),
{
    lemma_auto_spec_u32_to_from_le_bytes();
    lemma_encode_list_len(record.data_pointers);
}

/// Puts `bytes` at the end of `out`.
fn append(out: &mut Vec<u8>, bytes: &[u8])
    ensures
        final(out)@ == old(out)@ + bytes@,
{
    let mut i: usize = 0;
    while i < bytes.len()
        invariant
            i <= bytes@.len(),
            out@ == old(out)@ + bytes@.subrange(0, i as int),
        decreases bytes.len() - i,
    {
        out.push(bytes[i]);
        assert(out@ =~= old(out)@ + bytes@.subrange(0, i + 1));
        i += 1;
    }
    assert(bytes@.subrange(0, i as int) =~= bytes@);
}

/// The tag in front of every stored record.
pub fn account_tag_bytes() -> (r: [u8; 8])
    ensures
        r@ == account_tag(),
{
    let tag: [u8; 8] = [157, 214, 220, 235, 98, 135, 171, 28];
    assert(tag@ =~= account_tag());
    tag
}

/// The stored form of a record that fits in its storage. A record that does
/// not fit is refused with `StorageFull`.
pub fn encode(record: &UserMetadata) -> (r: Result<Vec<u8>, ErrorCode>)
    ensures
        match r {
            Ok(bytes) => fits(record@.data_pointers) && bytes@ == encoding(record@),
            Err(e) => e == ErrorCode::StorageFull && !fits(record@.data_pointers),
        },
{
    if !record.fits_in_space() {
        return Err(ErrorCode::StorageFull);
    }
    let ghost all = pointers(record.data_pointers@);
    proof {
        lemma_encode_list_len(all);
    }
    let mut out: Vec<u8> = Vec::new();
    let tag = account_tag_bytes();
    append(&mut out, tag.as_slice());
    append(&mut out, record.authority.bytes.as_slice());
    append(&mut out, record.lpv2_shielded_pubkey.bytes.as_slice());
    append(&mut out, record.relayer.bytes.as_slice());
    let count: u32 = record.data_pointers.len() as u32;
    let count_bytes = u32_to_le_bytes(count);
    append(&mut out, count_bytes.as_slice());
    let ghost head = account_tag() + record@.authority + record@.shielded_pubkey + record@.relayer
        + spec_u32_to_le_bytes(all.len() as u32);
    assert(out@ =~= head);
    let mut i: usize = 0;
    assert(all.subrange(0, 0) =~= Seq::<Seq<char>>::empty());
    assert(out@ =~= head + encode_list(all.subrange(0, 0)));
    while i < record.data_pointers.len()
        invariant
            i <= record.data_pointers@.len(),
            all == pointers(record.data_pointers@),
            pointers_size(all) <= 100,
            out@ == head + encode_list(all.subrange(0, i as int)),
        decreases record.data_pointers.len() - i,
    {
        let bytes = record.data_pointers[i].as_str().as_bytes();
        proof {
            assert(all.subrange(0, i + 1).drop_last() =~= all.subrange(0, i as int));
            assert(all.subrange(0, i + 1) =~= all.subrange(0, i as int).push(all[i as int]));
            lemma_size_push(all.subrange(0, i as int), all[i as int]);
            lemma_size_prefix(all, i + 1);
            assert(pointer_size(all[i as int]) <= 100);
        }
        let n: u32 = bytes.len() as u32;
        let n_bytes = u32_to_le_bytes(n);
        let ghost before = out@;
        append(&mut out, n_bytes.as_slice());
        append(&mut out, bytes);
        assert(out@ =~= before + encode_text(all[i as int]));
        assert(out@ =~= head + encode_list(all.subrange(0, i + 1)));
        i += 1;
    }
    assert(all.subrange(0, i as int) =~= all);
    Ok(out)
}

/// Whether `bytes` begin with `head`.
pub open spec fn begins_with(bytes: Seq<u8>, head: Seq<u8>) -> bool {
    head.len() <= bytes.len() && bytes.subrange(0, head.len() as int) == head
}

/// Whether `bytes` hold `record`: they begin with the stored form of the
/// record, and the record fits in its storage. What follows the stored form
/// is room for growth and holds nothing.
pub open spec fn stored(bytes: Seq<u8>, record: Record) -> bool {
    well_formed(record) && fits(record.data_pointers) && begins_with(bytes, encoding(record))
}

/// Where each part of a record stands in the bytes that hold it.
pub open spec fn parts(bytes: Seq<u8>, record: Record) -> bool {
    let size = pointers_size(record.data_pointers) as int;
    &&& bytes.len() >= 108 + size
    &&& bytes.subrange(0, 8) == account_tag()
    &&& bytes.subrange(8, 40) == record.authority
    &&& bytes.subrange(40, 72) == record.shielded_pubkey
    &&& bytes.subrange(72, 104) == record.relayer
    &&& bytes.subrange(104, 108) == spec_u32_to_le_bytes(record.data_pointers.len() as u32)
    &&& bytes.subrange(108, 108 + size) == encode_list(record.data_pointers)
}

/// Bytes hold a record exactly when the record fits and each of its parts
/// stands in its place. A record that fits has 25 content identifiers at most.
pub proof fn lemma_stored_parts(bytes: Seq<u8>, record: Record)
    requires
        well_formed(record),
    ensures
        stored(bytes, record) <==> fits(record.data_pointers) && parts(bytes, record),
        fits(record.data_pointers) ==> record.data_pointers.len() <= 25,
{
    lemma_auto_spec_u32_to_from_le_bytes();
    lemma_encode_list_len(record.data_pointers);
    lemma_encoding_len(record);
    let e = encoding(record);
    let size = pointers_size(record.data_pointers) as int;
    if stored(bytes, record) {
        assert(bytes.subrange(0, e.len() as int) == e);
        assert(bytes.subrange(0, 8) =~= e.subrange(0, 8));
        assert(e.subrange(0, 8) =~= account_tag());
        assert(bytes.subrange(8, 40) =~= e.subrange(8, 40));
        assert(e.subrange(8, 40) =~= record.authority);
        assert(bytes.subrange(40, 72) =~= e.subrange(40, 72));
        assert(e.subrange(40, 72) =~= record.shielded_pubkey);
        assert(bytes.subrange(72, 104) =~= e.subrange(72, 104));
        assert(e.subrange(72, 104) =~= record.relayer);
        assert(bytes.subrange(104, 108) =~= e.subrange(104, 108));
        assert(e.subrange(104, 108) =~= spec_u32_to_le_bytes(record.data_pointers.len() as u32));
        assert(bytes.subrange(108, 108 + size) =~= e.subrange(108, 108 + size));
        assert(e.subrange(108, 108 + size) =~= encode_list(record.data_pointers));
    }
    if fits(record.data_pointers) && parts(bytes, record) {
        assert(bytes.subrange(0, e.len() as int) =~= bytes.subrange(0, 8) + bytes.subrange(8, 40)
            + bytes.subrange(40, 72) + bytes.subrange(72, 104) + bytes.subrange(104, 108)
            + bytes.subrange(108, 108 + size));
    }
}

/// Where an item of a list stands among the stored items: behind the items
/// before it.
proof fn lemma_item_at(list: Seq<Seq<char>>, i: int)
    requires
        0 <= i < list.len(),
    ensures
        pointers_size(list.subrange(0, i)) + pointer_size(list[i]) <= pointers_size(list),
        encode_list(list).subrange(
            pointers_size(list.subrange(0, i)) as int,
            (pointers_size(list.subrange(0, i)) + pointer_size(list[i])) as int,
        ) == encode_text(list[i]),
    decreases list.len(),
{
    lemma_auto_spec_u32_to_from_le_bytes();
    let front = list.drop_last();
    let start = pointers_size(list.subrange(0, i)) as int;
    let end = start + pointer_size(list[i]) as int;
    lemma_encode_list_len(list);
    lemma_encode_list_len(front);
    lemma_encode_list_len(list.subrange(0, i));
    if i == list.len() - 1 {
        assert(list.subrange(0, i) =~= front);
        assert(encode_list(list).subrange(start, end) =~= encode_text(list[i]));
    } else {
        lemma_item_at(front, i);
        assert(front.subrange(0, i) =~= list.subrange(0, i));
        assert(encode_list(list).subrange(start, end) =~= encode_list(front).subrange(start, end));
    }
}

/// Calls `String::from_utf8` of std. Trusted: where the bytes are valid
/// UTF-8 the text returned is the one whose UTF-8 encoding they are, and where
/// they are not, nothing is returned.
#[verifier::external_body]
fn text_from_utf8(bytes: Vec<u8>) -> (r: Option<String>)
    ensures
        match r {
            Some(text) => encode_utf8(text@) == bytes@,
            None => !valid_utf8(bytes@),
        },
{
    match String::from_utf8(bytes) {
        Ok(text) => Some(text),
        Err(_) => None,
    }
}

/// The identity that stands at `pos`.
fn read_identity(bytes: &[u8], pos: usize) -> (r: Identity)
    requires
        pos + 32 <= bytes@.len() <= usize::MAX,
    ensures
        r@ == bytes@.subrange(pos as int, pos + 32),
{
    let mut out: [u8; 32] = [0u8; 32];
    let mut k: usize = 0;
    while k < 32
        invariant
            k <= 32,
            pos + 32 <= bytes@.len() <= usize::MAX,
            forall|j: int| 0 <= j < k ==> out@[j] == bytes@[pos + j],
        decreases 32 - k,
    {
        out[k] = bytes[pos + k];
        k += 1;
    }
    assert(out@ =~= bytes@.subrange(pos as int, pos + 32));
    Identity { bytes: out }
}

/// The number that stands at `pos` in four bytes, least significant first.
fn read_u32(bytes: &[u8], pos: usize) -> (r: u32)
    requires
        pos + 4 <= bytes@.len() <= usize::MAX,
    ensures
        bytes@.subrange(pos as int, pos + 4) == spec_u32_to_le_bytes(r),
{
    proof {
        lemma_auto_spec_u32_to_from_le_bytes();
    }
    u32_from_le_bytes(slice_subrange(bytes, pos, pos + 4))
}

/// Two numbers with the same four bytes are one number.
proof fn lemma_same_u32(a: u32, b: u32)
    requires
        spec_u32_to_le_bytes(a) == spec_u32_to_le_bytes(b),
    ensures
        a == b,
{
    lemma_auto_spec_u32_to_from_le_bytes();
    assert(spec_u32_to_le_bytes(a).len() == 4);
    assert(spec_u32_to_le_bytes(b).len() == 4);
}

/// Two texts with the same UTF-8 encoding are one text.
proof fn lemma_same_text(a: Seq<char>, b: Seq<char>)
    requires
        encode_utf8(a) == encode_utf8(b),
    ensures
        a == b,
{
    encode_utf8_decode_utf8(a);
    encode_utf8_decode_utf8(b);
}

/// Where an item of a record stands in the bytes that hold the record:
/// behind the header and the items before it, its length first.
proof fn lemma_item_in_bytes(bytes: Seq<u8>, record: Record, i: int)
    requires
        stored(bytes, record),
        0 <= i < record.data_pointers.len(),
    ensures
        ({
            let pos = 108 + pointers_size(record.data_pointers.subrange(0, i)) as int;
            let n = encode_utf8(record.data_pointers[i]).len() as int;
            &&& n <= 100
            &&& pos + 4 + n <= bytes.len()
            &&& bytes.subrange(pos, pos + 4) == spec_u32_to_le_bytes(n as u32)
            &&& bytes.subrange(pos + 4, pos + 4 + n) == encode_utf8(record.data_pointers[i])
        }),
{
    lemma_auto_spec_u32_to_from_le_bytes();
    lemma_stored_parts(bytes, record);
    lemma_item_at(record.data_pointers, i);
    let list = record.data_pointers;
    let pos = 108 + pointers_size(list.subrange(0, i)) as int;
    let n = encode_utf8(list[i]).len() as int;
    let item = encode_text(list[i]);
    let size = pointers_size(list) as int;
    assert(bytes.subrange(pos, pos + item.len()) =~= bytes.subrange(108, 108 + size).subrange(
        pos - 108,
        pos - 108 + item.len(),
    ));
    assert(bytes.subrange(pos, pos + 4) =~= item.subrange(0, 4));
    assert(item.subrange(0, 4) =~= spec_u32_to_le_bytes(n as u32));
    assert(bytes.subrange(pos + 4, pos + 4 + n) =~= item.subrange(4, 4 + n));
    assert(item.subrange(4, 4 + n) =~= encode_utf8(list[i]));
}

/// Two records held by the same bytes agree on their first `i` content
/// identifiers.
proof fn lemma_stored_prefix(bytes: Seq<u8>, first: Record, second: Record, i: int)
    requires
        stored(bytes, first),
        stored(bytes, second),
        first.data_pointers.len() == second.data_pointers.len(),
        0 <= i <= first.data_pointers.len(),
    ensures
        first.data_pointers.subrange(0, i) == second.data_pointers.subrange(0, i),
    decreases i,
{
    if i == 0 {
        assert(first.data_pointers.subrange(0, 0) =~= second.data_pointers.subrange(0, 0));
    } else {
        let k = i - 1;
        lemma_stored_prefix(bytes, first, second, k);
        lemma_item_in_bytes(bytes, first, k);
        lemma_item_in_bytes(bytes, second, k);
        lemma_same_u32(
            encode_utf8(first.data_pointers[k]).len() as u32,
            encode_utf8(second.data_pointers[k]).len() as u32,
        );
        lemma_same_text(first.data_pointers[k], second.data_pointers[k]);
        assert(first.data_pointers.subrange(0, i) =~= first.data_pointers.subrange(0, k).push(
            first.data_pointers[k],
        ));
        assert(second.data_pointers.subrange(0, i) =~= second.data_pointers.subrange(0, k).push(
            second.data_pointers[k],
        ));
    }
}

/// Bytes hold one record at most.
pub proof fn lemma_stored_once(bytes: Seq<u8>, first: Record, second: Record)
    requires
        stored(bytes, first),
        stored(bytes, second),
    ensures
        first == second,
{
    lemma_stored_parts(bytes, first);
    lemma_stored_parts(bytes, second);
    lemma_same_u32(first.data_pointers.len() as u32, second.data_pointers.len() as u32);
    lemma_stored_prefix(bytes, first, second, first.data_pointers.len() as int);
    assert(first.data_pointers.subrange(0, first.data_pointers.len() as int)
        =~= first.data_pointers);
    assert(second.data_pointers.subrange(0, second.data_pointers.len() as int)
        =~= second.data_pointers);
}

/// Reads the record that `bytes` hold. Nothing is returned where they hold
/// no record; bytes that hold a record hold no other.
pub fn decode(bytes: &[u8]) -> (r: Option<UserMetadata>)
    ensures
        match r {
            Some(record) => stored(bytes@, record@),
            None => forall|record: Record| !stored(bytes@, record),
        },
        forall|record: Record| #[trigger]
            stored(bytes@, record) ==> (r matches Some(found) && found@ == record),
{
    if bytes.len() < 108 {
        assert forall|record: Record| !stored(bytes@, record) by {
            if well_formed(record) {
                lemma_stored_parts(bytes@, record);
            }
        }
        return None;
    }
    let tag = account_tag_bytes();
    let mut k: usize = 0;
    while k < 8
        invariant
            k <= 8,
            bytes@.len() >= 108,
            tag@ == account_tag(),
            forall|j: int| 0 <= j < k ==> bytes@[j] == tag@[j],
        decreases 8 - k,
    {
        if bytes[k] != tag[k] {
            assert forall|record: Record| !stored(bytes@, record) by {
                if well_formed(record) {
                    lemma_stored_parts(bytes@, record);
                    if stored(bytes@, record) {
                        assert(bytes@.subrange(0, 8)[k as int] == bytes@[k as int]);
                    }
                }
            }
            return None;
        }
        k += 1;
    }
    assert(bytes@.subrange(0, 8) =~= account_tag());
    let authority = read_identity(bytes, 8);
    let lpv2_shielded_pubkey = read_identity(bytes, 40);
    let relayer = read_identity(bytes, 72);
    let count = read_u32(bytes, 104);
    if count > 25 {
        assert forall|record: Record| !stored(bytes@, record) by {
            if well_formed(record) {
                lemma_stored_parts(bytes@, record);
                if stored(bytes@, record) {
                    lemma_same_u32(count, record.data_pointers.len() as u32);
                }
            }
        }
        return None;
    }
    let mut parsed: Vec<String> = Vec::new();
    let mut pos: usize = 108;
    let mut i: u32 = 0;
    assert(pointers(parsed@) =~= Seq::<Seq<char>>::empty());
    assert(bytes@.subrange(108, 108) =~= encode_list(pointers(parsed@)));
    assert forall|record: Record| stored(bytes@, record) implies record.data_pointers.len()
        == count && record.data_pointers.subrange(0, 0) == pointers(parsed@) by {
        lemma_stored_parts(bytes@, record);
        lemma_same_u32(count, record.data_pointers.len() as u32);
        assert(record.data_pointers.subrange(0, 0) =~= pointers(parsed@));
    }
    while i < count
        invariant
            i <= count <= 25,
            parsed@.len() == i,
            108 <= pos <= bytes@.len(),
            pos == 108 + pointers_size(pointers(parsed@)),
            bytes@.subrange(108, pos as int) == encode_list(pointers(parsed@)),
            forall|record: Record| #[trigger]
                stored(bytes@, record) ==> record.data_pointers.len() == count
                    && record.data_pointers.subrange(0, i as int) == pointers(parsed@),
        decreases count - i,
    {
        let ghost before = pointers(parsed@);
        if bytes.len() - pos < 4 {
            assert forall|record: Record| !stored(bytes@, record) by {
                if stored(bytes@, record) {
                    lemma_item_in_bytes(bytes@, record, i as int);
                }
            }
            return None;
        }
        let n = read_u32(bytes, pos);
        assert forall|record: Record| #[trigger] stored(bytes@, record) implies encode_utf8(
            record.data_pointers[i as int],
        ).len() == n && bytes@.subrange(pos + 4, pos + 4 + n) == encode_utf8(
            record.data_pointers[i as int],
        ) && pos + 4 + n <= bytes@.len() by {
            lemma_item_in_bytes(bytes@, record, i as int);
            lemma_same_u32(n, encode_utf8(record.data_pointers[i as int]).len() as u32);
        }
        if n as usize > bytes.len() - pos - 4 {
            return None;
        }
        let end: usize = pos + 4 + n as usize;
        let segment = slice_to_vec(slice_subrange(bytes, pos + 4, end));
        let text = match text_from_utf8(segment) {
            Some(text) => text,
            None => {
                assert forall|record: Record| !stored(bytes@, record) by {
                    if stored(bytes@, record) {
                        encode_utf8_valid_utf8(record.data_pointers[i as int]);
                    }
                }
                return None;
            },
        };
        parsed.push(text);
        proof {
            let after = pointers(parsed@);
            assert(after =~= before.push(text@));
            assert(after.drop_last() =~= before);
            lemma_size_push(before, text@);
            assert(bytes@.subrange(108, end as int) =~= bytes@.subrange(108, pos as int)
                + bytes@.subrange(pos as int, pos + 4) + bytes@.subrange(pos + 4, end as int));
            assert(encode_list(after) =~= encode_list(before) + encode_text(text@));
            assert forall|record: Record| #[trigger] stored(bytes@, record) implies
                record.data_pointers.subrange(0, i + 1) == after by {
                lemma_same_text(text@, record.data_pointers[i as int]);
                assert(record.data_pointers.subrange(0, i + 1) =~= record.data_pointers.subrange(
                    0,
                    i as int,
                ).push(record.data_pointers[i as int]));
            }
        }
        pos = end;
        i += 1;
    }
    if pos - 108 > RESERVE {
        assert forall|record: Record| !stored(bytes@, record) by {
            if stored(bytes@, record) {
                assert(record.data_pointers.subrange(0, i as int) =~= record.data_pointers);
            }
        }
        return None;
    }
    let found = UserMetadata { authority, lpv2_shielded_pubkey, relayer, data_pointers: parsed };
    proof {
        lemma_stored_parts(bytes@, found@);
        assert forall|record: Record| stored(bytes@, record) implies found@ == record by {
            lemma_stored_once(bytes@, found@, record);
        }
    }
    Some(found)
}

} // verus!
