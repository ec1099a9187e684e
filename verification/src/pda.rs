use vstd::prelude::*;

verus! {

/// What the host's one-way derivation returns for a domain tag, an authority
/// key and a program id: either an address (32 bytes) with its disambiguation
/// byte ("bump"), or nothing when no viable bump exists in the search space.
/// The search is a pure function of its three inputs, so the result carries no
/// hidden state and deriving twice yields the same outcome.
pub uninterp spec fn pda_result(tag: Seq<u8>, authority: Seq<u8>, program_id: Seq<u8>) -> Option<
    (Seq<u8>, u8),
>;

/// Relies on `Pubkey::try_find_program_address` (anchor_lang's re-export of
/// solana_pubkey): a deterministic bump-seed search over sha256 of the seeds
/// and the program id. It returns `None` rather than panicking when no bump
/// is viable or a seed is oversized, and a returned address is exactly 32
/// bytes (it is a `Pubkey`).
#[verifier::external_body]
fn try_find_pda(tag: &[u8], authority: &[u8], program_id: &[u8]) -> (r: Option<([u8; 32], u8)>)
    requires
        program_id@.len() == 32,
    ensures
        r is Some <==> pda_result(tag@, authority@, program_id@) is Some,
        r is Some ==> r.unwrap().0@ == pda_result(tag@, authority@, program_id@).unwrap().0,
        r is Some ==> r.unwrap().1 == pda_result(tag@, authority@, program_id@).unwrap().1,
{
    let mut pid = [0u8; 32];
    pid.copy_from_slice(program_id);
    let pid = anchor_lang::solana_program::pubkey::Pubkey::new_from_array(pid);
    anchor_lang::solana_program::pubkey::Pubkey::try_find_program_address(
        &[tag, authority],
        &pid,
    ).map(|(address, bump)| (address.to_bytes(), bump))
}

/// The fixed domain tag under which every profile record is derived:
/// the bytes of `user-profile-v1`.
pub open spec fn profile_tag() -> Seq<u8> {
    seq![117u8, 115u8, 101u8, 114u8, 45u8, 112u8, 114u8, 111u8, 102u8, 105u8, 108u8, 101u8, 45u8, 118u8, 49u8]
}

/// The profile program's own 32-byte id, the third input of the derivation.
pub open spec fn profile_program_id() -> Seq<u8> {
    seq![
        81u8, 178u8, 247u8, 174u8, 200u8, 161u8, 178u8, 190u8, 43u8, 51u8, 37u8, 245u8, 214u8,
        168u8, 224u8, 11u8, 90u8, 5u8, 207u8, 251u8, 9u8, 81u8, 85u8, 228u8, 198u8, 43u8, 247u8,
        85u8, 30u8, 148u8, 161u8, 179u8,
    ]
}

/// The storage slot derived for an authority key under the fixed tag and
/// program id: the address and bump, or `None` when derivation fails.
pub open spec fn derived_profile_slot(authority: Seq<u8>) -> Option<(Seq<u8>, u8)> {
    pda_result(profile_tag(), authority, profile_program_id())
}

/// The derived storage address alone, where derivation succeeds.
pub open spec fn derived_profile_address(authority: Seq<u8>) -> Seq<u8> {
    derived_profile_slot(authority).unwrap().0
}

pub fn profile_tag_bytes() -> (r: Vec<u8>)
    ensures
        r@ == profile_tag(),
{
    let mut v: Vec<u8> = Vec::new();
    v.push(117u8);
    v.push(115u8);
    v.push(101u8);
    v.push(114u8);
    v.push(45u8);
    v.push(112u8);
    v.push(114u8);
    v.push(111u8);
    v.push(102u8);
    v.push(105u8);
    v.push(108u8);
    v.push(101u8);
    v.push(45u8);
    v.push(118u8);
    v.push(49u8);
    proof {
        assert(v@ =~= profile_tag());
    }
    v
}

pub fn profile_program_id_bytes() -> (r: Vec<u8>)
    ensures
        r@ == profile_program_id(),
{
    let mut v: Vec<u8> = Vec::new();
    v.push(81u8);
    v.push(178u8);
    v.push(247u8);
    v.push(174u8);
    v.push(200u8);
    v.push(161u8);
    v.push(178u8);
    v.push(190u8);
    v.push(43u8);
    v.push(51u8);
    v.push(37u8);
    v.push(245u8);
    v.push(214u8);
    v.push(168u8);
    v.push(224u8);
    v.push(11u8);
    v.push(90u8);
    v.push(5u8);
    v.push(207u8);
    v.push(251u8);
    v.push(9u8);
    v.push(81u8);
    v.push(85u8);
    v.push(228u8);
    v.push(198u8);
    v.push(43u8);
    v.push(247u8);
    v.push(85u8);
    v.push(30u8);
    v.push(148u8);
    v.push(161u8);
    v.push(179u8);
    proof {
        assert(v@ =~= profile_program_id());
    }
    v
}

/// Derive the storage slot for an authority key: the address at which that
/// key's profile record lives, plus the disambiguation byte, or `None` when
/// no viable disambiguation exists.
pub fn derive_profile_address(authority: &[u8; 32]) -> (r: Option<([u8; 32], u8)>)
    ensures
        r is Some <==> derived_profile_slot(authority@) is Some,
        r is Some ==> r.unwrap().0@ == derived_profile_slot(authority@).unwrap().0,
        r is Some ==> r.unwrap().1 == derived_profile_slot(authority@).unwrap().1,
{
    let tag = profile_tag_bytes();
    let pid = profile_program_id_bytes();
    try_find_pda(tag.as_slice(), authority.as_slice(), pid.as_slice())
}

/// Determinism: deriving the storage slot for the same authority key twice
/// yields the identical address and bump.
pub proof fn lemma_derivation_deterministic(k1: Seq<u8>, k2: Seq<u8>)
    requires
        k1 == k2,
    ensures
        derived_profile_slot(k1) == derived_profile_slot(k2),
{
}

} // verus!
