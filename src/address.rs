use anchor_lang::solana_program::pubkey::{Pubkey, PubkeyError};
use crate::error::VaultError;
use vstd::prelude::*;

verus! {

/// Number of bytes in an address.
pub const ADDRESS_LEN: usize = 32;

/// A 32-byte account address.
#[derive(Clone, Copy, Debug)]
pub struct Address {
    pub bytes: [u8; 32],
}

impl View for Address {
    type V = Seq<u8>;

    open spec fn view(&self) -> Seq<u8> {
        self.bytes@
    }
}

impl Address {
    pub fn new(bytes: [u8; 32]) -> (r: Address)
        ensures
            r.bytes == bytes,
            r@ == bytes@,
    {
        Address { bytes }
    }

    /// Byte-wise equality of two addresses.
    pub fn equals(&self, other: &Address) -> (r: bool)
        ensures
            r == (self@ == other@),
    {
        let mut i: usize = 0;
        while i < ADDRESS_LEN
            invariant
                i <= ADDRESS_LEN,
                self@.len() == ADDRESS_LEN,
                other@.len() == ADDRESS_LEN,
                forall|j: int| 0 <= j < i ==> self@[j] == other@[j],
            decreases ADDRESS_LEN - i,
        {
            if self.bytes[i] != other.bytes[i] {
                return false;
            }
            i = i + 1;
        }
        assert(self@ =~= other@);
        true
    }

    /// The address as an owned byte string, for use as a seed.
    pub fn to_vec(&self) -> (r: Vec<u8>)
        ensures
            r@ == self@,
    {
        let mut v: Vec<u8> = Vec::new();
        let mut i: usize = 0;
        while i < ADDRESS_LEN
            invariant
                i <= ADDRESS_LEN,
                self@.len() == ADDRESS_LEN,
                v@ == self@.subrange(0, i as int),
            decreases ADDRESS_LEN - i,
        {
            v.push(self.bytes[i]);
            i = i + 1;
            assert(v@ =~= self@.subrange(0, i as int));
        }
        assert(self@.subrange(0, ADDRESS_LEN as int) =~= self@);
        v
    }
}

/// The error that `Pubkey::create_program_address` reports.
#[verifier::external_type_specification]
#[verifier::external_body]
pub struct ExPubkeyError(PubkeyError);

/// The address that a seed chain and a program identity derive, or `None` where
/// the chain derives no keyless address (the hash lies on the curve, or a seed
/// limit is exceeded).
pub uninterp spec fn created_address(seeds: Seq<Seq<u8>>, program: Seq<u8>) -> Option<Seq<u8>>;

/// Relies on `Pubkey::create_program_address`: it returns the address derived
/// from the seeds and the program identity, or an error where none exists.
#[verifier::external_body]
pub(crate) fn create_program_address(seeds: &Vec<Vec<u8>>, program: &Address) -> (r: Result<
    Address,
    PubkeyError,
>)
    ensures
        r is Ok <==> created_address(seeds@.map_values(|s: Vec<u8>| s@), program@) is Some,
        r matches Ok(a) ==> created_address(seeds@.map_values(|s: Vec<u8>| s@), program@) == Some(a@),
{
    let refs: Vec<&[u8]> = seeds.iter().map(|s| s.as_slice()).collect();
    match Pubkey::create_program_address(&refs, &Pubkey::new_from_array(program.bytes)) {
        Ok(p) => Ok(Address { bytes: p.to_bytes() }),
        Err(e) => Err(e),
    }
}

/// The seed chain extended by a one-byte bump seed.
pub open spec fn with_bump(seeds: Seq<Seq<u8>>, bump: u8) -> Seq<Seq<u8>> {
    seeds.push(seq![bump])
}

/// The first bump, counting down from `b` to 1, for which the seeds derive an
/// address, together with that address.
pub open spec fn search_from(seeds: Seq<Seq<u8>>, program: Seq<u8>, b: int) -> Option<(Seq<u8>, u8)>
    decreases b,
{
    if b < 1 {
        None
    } else {
        match created_address(with_bump(seeds, b as u8), program) {
            Some(a) => Some((a, b as u8)),
            None => search_from(seeds, program, b - 1),
        }
    }
}

/// The canonical derived address of a seed chain and its bump: the search
/// starts at 255 and goes down.
pub open spec fn found_address(seeds: Seq<Seq<u8>>, program: Seq<u8>) -> Option<(Seq<u8>, u8)> {
    search_from(seeds, program, 255)
}

/// The seed chain made of a namespace tag and one key.
pub open spec fn tagged(tag: Seq<u8>, key: Seq<u8>) -> Seq<Seq<u8>> {
    seq![tag, key]
}

/// Relies on `Pubkey::try_find_program_address`: off-chain it tries the bumps
/// from 255 down to 1 with `create_program_address` and returns the first
/// address found, or `None`.
#[verifier::external_body]
fn try_find_program_address(seeds: &Vec<Vec<u8>>, program: &Address) -> (r: Option<(Address, u8)>)
    ensures
        r is None <==> found_address(seeds@.map_values(|s: Vec<u8>| s@), program@) is None,
        r matches Some(p) ==> found_address(seeds@.map_values(|s: Vec<u8>| s@), program@) == Some(
            (p.0@, p.1),
        ),
{
    let refs: Vec<&[u8]> = seeds.iter().map(|s| s.as_slice()).collect();
    Pubkey::try_find_program_address(&refs, &Pubkey::new_from_array(program.bytes)).map(
        |(p, b)| (Address { bytes: p.to_bytes() }, b),
    )
}

fn tag_and_key(tag: &Vec<u8>, key: &Address) -> (r: Vec<Vec<u8>>)
    ensures
        r@.map_values(|s: Vec<u8>| s@) == tagged(tag@, key@),
{
    let mut r: Vec<Vec<u8>> = Vec::new();
    r.push(tag.clone());
    r.push(key.to_vec());
    assert(r@.map_values(|s: Vec<u8>| s@) =~= tagged(tag@, key@));
    r
}

/// `r` is what a search for the canonical address of `tag` and `key` reports.
pub open spec fn derived_as(program: Seq<u8>, tag: Seq<u8>, key: Seq<u8>, r: Result<(Address, u8), VaultError>) -> bool {
    match found_address(tagged(tag, key), program) {
        Some((a, b)) => r matches Ok(p) && p.0@ == a && p.1 == b,
        None => r == Err::<(Address, u8), VaultError>(VaultError::DerivationExhausted),
    }
}

/// Searches for the canonical address that `tag` and `key` derive under
/// `program`, and its bump.
pub fn derive(program: &Address, tag: &Vec<u8>, key: &Address) -> (r: Result<(Address, u8), VaultError>)
    ensures
        derived_as(program@, tag@, key@, r),
{
    let seeds = tag_and_key(tag, key);
    match try_find_program_address(&seeds, program) {
        Some(p) => Ok(p),
        None => Err(VaultError::DerivationExhausted),
    }
}

/// The outcome of checking `expected` against the address that `tag`, `key`
/// and a recorded `bump` derive.
pub open spec fn address_check(program: Seq<u8>, tag: Seq<u8>, key: Seq<u8>, bump: u8, expected: Seq<u8>) -> Result<
    (),
    VaultError,
> {
    match created_address(with_bump(tagged(tag, key), bump), program) {
        Some(a) => if a == expected {
            Ok(())
        } else {
            Err(VaultError::InvalidAddress)
        },
        None => Err(VaultError::BumpMismatch),
    }
}

/// Recomputes the address that `tag`, `key` and a recorded `bump` derive, and
/// checks it against `expected`.
pub fn verify_address(program: &Address, tag: &Vec<u8>, key: &Address, bump: u8, expected: &Address) -> (r: Result<(), VaultError>)
    ensures
        r == address_check(program@, tag@, key@, bump, expected@),
{
    let mut seeds = tag_and_key(tag, key);
    let mut b: Vec<u8> = Vec::new();
    b.push(bump);
    seeds.push(b);
    assert(seeds@.map_values(|s: Vec<u8>| s@) =~= with_bump(tagged(tag@, key@), bump));
    match create_program_address(&seeds, program) {
        Ok(a) => if a.equals(expected) {
            Ok(())
        } else {
            Err(VaultError::InvalidAddress)
        },
        Err(_) => Err(VaultError::BumpMismatch),
    }
}

} // verus!
