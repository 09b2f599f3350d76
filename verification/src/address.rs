use vstd::prelude::*;
use anchor_lang::prelude::Pubkey;
use crate::identity::Identity;

verus! {

/// The address and the bump seed that the program-address search of the
/// Solana address library yields for the given seeds under the given program,
/// or `None` where the search finds no address.
pub uninterp spec fn program_address(seeds: Seq<Seq<u8>>, program: Seq<u8>) -> Option<(Seq<u8>, u8)>;

/// The domain tag that sets the addresses of user records apart from those of
/// any other kind of record of the program: the ASCII text `user_metadata`.
pub open spec fn domain_tag() -> Seq<u8> {
    seq![117u8, 115u8, 101u8, 114u8, 95u8, 109u8, 101u8, 116u8, 97u8, 100u8, 97u8, 116u8, 97u8]
}

/// The identity of the program that owns the records.
pub open spec fn program_id() -> Seq<u8> {
    seq![
        22u8, 115u8, 255u8, 140u8, 195u8, 0u8, 203u8, 0u8, 70u8, 246u8, 128u8, 247u8, 228u8,
        179u8, 143u8, 0u8, 36u8, 3u8, 214u8, 74u8, 167u8, 143u8, 184u8, 39u8, 182u8, 125u8,
        125u8, 150u8, 168u8, 255u8, 76u8, 102u8,
    ]
}

/// What the derivation gives for an owner and a domain tag.
pub open spec fn derive_spec(authority: Seq<u8>, tag: Seq<u8>) -> Option<(Seq<u8>, u8)> {
    program_address(seq![tag, authority], program_id())
}

/// The address of the record of the given owner, where one can be derived.
pub open spec fn record_address(authority: Seq<u8>) -> Option<Seq<u8>> {
    match derive_spec(authority, domain_tag()) {
        Some(found) => Some(found.0),
        None => None,
    }
}

/// The view of a derivation's outcome.
pub open spec fn derived_view(r: Option<(Identity, u8)>) -> Option<(Seq<u8>, u8)> {
    match r {
        Some(found) => Some((found.0@, found.1)),
        None => None,
    }
}

/// Calls `Pubkey::try_find_program_address` of `anchor_lang` (the Solana
/// address library's search for a program-derived address) with the two seeds
/// `tag` and the owner's bytes. Trusted: the outcome is the one that
/// `program_address` names for these seeds and this program.
#[verifier::external_body]
fn find_program_address(tag: &[u8], authority: &Identity, program: &Identity) -> (r: Option<(Identity, u8)>)
    ensures
        derived_view(r) == program_address(seq![tag@, authority@], program@),
{
    let owner = Pubkey::new_from_array(program.bytes);
    match Pubkey::try_find_program_address(&[tag, &authority.bytes], &owner) {
        Some((address, bump)) => Some((Identity { bytes: address.to_bytes() }, bump)),
        None => None,
    }
}

/// The bytes of the domain tag of user records.
pub fn domain_tag_bytes() -> (r: [u8; 13])
    ensures
        r@ == domain_tag(),
{
    let tag: [u8; 13] = [117, 115, 101, 114, 95, 109, 101, 116, 97, 100, 97, 116, 97];
    assert(tag@ =~= domain_tag());
    tag
}

/// The identity of the program that owns the records.
pub fn id() -> (r: Identity)
    ensures
        r@ == program_id(),
{
    let bytes: [u8; 32] = [
        22, 115, 255, 140, 195, 0, 203, 0, 70, 246, 128, 247, 228, 179, 143, 0, 36, 3, 214, 74,
        167, 143, 184, 39, 182, 125, 125, 150, 168, 255, 76, 102,
    ];
    assert(bytes@ =~= program_id());
    Identity { bytes }
}

/// Derives the storage address and the bump seed for an owner under a domain
/// tag. The same owner and tag always give the same outcome. `None` is
/// returned where the search finds no address for them.
pub fn derive(authority: &Identity, tag: &[u8]) -> (r: Option<(Identity, u8)>)
    ensures
        derived_view(r) == derive_spec(authority@, tag@),
{
    let program = id();
    find_program_address(tag, authority, &program)
}

/// The address at which the record of the given owner is kept.
pub fn derive_record_address(authority: &Identity) -> (r: Option<Identity>)
    ensures
        match r {
            Some(address) => record_address(authority@) == Some(address@),
            None => record_address(authority@) is None,
        },
{
    let tag = domain_tag_bytes();
    match derive(authority, tag.as_slice()) {
        Some(found) => Some(found.0),
        None => None,
    }
}

} // verus!
