//! Program-derived addresses.
//!
//! The derivation itself, a hash of the seeds and the program's address
//! with a search for a bump seed, is the platform's. This module names
//! its result and calls it.

use vstd::prelude::*;
use vstd::slice::slice_to_vec;
use solana_program::pubkey::Pubkey;
use crate::meta::Address;

verus! {

/// What `Pubkey::try_find_program_address` of `solana_program` returns
/// for `seeds` and the program at `program_id`: the derived address with
/// the bump seed it found, or `None` where it derives none.
pub uninterp spec fn program_address(seeds: Seq<Seq<u8>>, program_id: Seq<u8>) -> Option<
    (Seq<u8>, u8),
>;

/// The byte strings held by a sequence of vectors.
pub open spec fn byte_strings(values: Seq<Vec<u8>>) -> Seq<Seq<u8>> {
    Seq::new(values.len(), |i: int| values[i]@)
}

/// Calls `Pubkey::try_find_program_address` of `solana_program`.
///
/// Trusted: the result is the platform's derivation for these seeds and
/// this program, a function of the arguments alone. Nothing is claimed
/// of which address it is, nor of when there is none.
#[verifier::external_body]
pub(crate) fn find_program_address(seeds: &Vec<Vec<u8>>, program_id: &Address) -> (r: Option<
    (Address, u8),
>)
    ensures
        match r {
            Some((address, bump)) => program_address(byte_strings(seeds@), program_id@) == Some(
                (address@, bump),
            ),
            None => program_address(byte_strings(seeds@), program_id@) is None,
        },
{
    let slices: Vec<&[u8]> = seeds.iter().map(|seed| seed.as_slice()).collect();
    match Pubkey::try_find_program_address(&slices, &Pubkey::new_from_array(*program_id)) {
        Some((address, bump)) => Some((address.to_bytes(), bump)),
        None => None,
    }
}

/// The seed that marks the account in which a hook stores its list.
pub open spec fn list_account_seed() -> Seq<u8> {
    seq![101u8, 120, 116, 114, 97, 45, 97, 99, 99, 111, 117, 110, 116, 45, 109, 101, 116, 97, 115]
}

/// The address of the account in which the hook at `program_id` stores
/// the list for `mint`, where the platform derives one.
pub open spec fn list_account_address(mint: Seq<u8>, program_id: Seq<u8>) -> Option<Seq<u8>> {
    match program_address(seq![list_account_seed(), mint], program_id) {
        Some((address, _)) => Some(address),
        None => None,
    }
}

/// Derives the address of the account that stores the list of the hook
/// at `program_id` for `mint`: the program-derived address for the
/// marker seed and the mint's address.
pub fn get_extra_account_metas_address(mint: &Address, program_id: &Address) -> (r: Option<
    Address,
>)
    ensures
        match r {
            Some(address) => list_account_address(mint@, program_id@) == Some(address@),
            None => list_account_address(mint@, program_id@) is None,
        },
{
    let marker: Vec<u8> = vec![
        101u8, 120, 116, 114, 97, 45, 97, 99, 99, 111, 117, 110, 116, 45, 109, 101, 116, 97, 115,
    ];
    let mut seeds: Vec<Vec<u8>> = Vec::new();
    seeds.push(marker);
    seeds.push(slice_to_vec(mint.as_slice()));
    assert(byte_strings(seeds@) =~= seq![list_account_seed(), mint@]);
    match find_program_address(&seeds, program_id) {
        Some((address, _)) => Some(address),
        None => None,
    }
}

} // verus!
