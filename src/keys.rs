use anchor_lang::prelude::Pubkey;
use vstd::prelude::*;

verus! {

/// The address and bump that `Pubkey::try_find_program_address` gives for a
/// list of seeds under a program id, or `None` when no bump yields an
/// off-curve address.
pub uninterp spec fn program_address_of(seeds: Seq<Seq<u8>>, program_id: Seq<u8>) -> Option<(Seq<u8>, u8)>;

/// The byte views of a list of 32-byte seeds.
pub open spec fn seed_views(seeds: Seq<[u8; 32]>) -> Seq<Seq<u8>> {
    seeds.map_values(|k: [u8; 32]| k@)
}

/// Relies on `Pubkey::try_find_program_address` (solana-program): the
/// derived address and bump depend on the seeds and the program id alone.
#[verifier::external_body]
fn find_program_address(seeds: &Vec<[u8; 32]>, program_id: &[u8; 32]) -> (r: Option<([u8; 32], u8)>)
    ensures
        r.is_some() == program_address_of(seed_views(seeds@), program_id@).is_some(),
        r.is_some() ==> program_address_of(seed_views(seeds@), program_id@) == Some(
            (r.unwrap().0@, r.unwrap().1),
        ),
{
    let refs: Vec<&[u8]> = seeds.iter().map(|k| k.as_slice()).collect();
    Pubkey::try_find_program_address(&refs, &Pubkey::new_from_array(*program_id)).map(
        |(key, bump)| (key.to_bytes(), bump),
    )
}

/// Whether two 32-byte identities are equal.
pub fn same_key(a: &[u8; 32], b: &[u8; 32]) -> (r: bool)
    ensures
        r == (a@ == b@),
{
    let mut i: usize = 0;
    while i < 32
        invariant
            0 <= i <= 32,
            a@.len() == 32,
            b@.len() == 32,
            forall|j: int| 0 <= j < i ==> a@[j] == b@[j],
        decreases 32 - i,
    {
        if a[i] != b[i] {
            return false;
        }
        i = i + 1;
    }
    proof {
        assert(a@ =~= b@);
    }
    true
}

/// The derived address of a list of 32-byte seeds under `program_id`:
/// the first component of what the host's derivation gives, or `None` when
/// the derivation has no valid bump.
pub fn derive_address(seeds: &Vec<[u8; 32]>, program_id: &[u8; 32]) -> (r: Option<[u8; 32]>)
    ensures
        r.is_some() == program_address_of(seed_views(seeds@), program_id@).is_some(),
        r.is_some() ==> r.unwrap()@ == program_address_of(seed_views(seeds@), program_id@).unwrap().0,
{
    match find_program_address(seeds, program_id) {
        Some((address, _bump)) => Some(address),
        None => None,
    }
}

} // verus!
