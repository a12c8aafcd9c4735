use anchor_lang::solana_program::pubkey::Pubkey;
use vstd::prelude::*;

verus! {

/// A 32-byte account address: a user, a token mint, a program, or an
/// address derived for a program.
#[derive(Clone, Copy, Debug, PartialEq, Eq)]
pub struct Address {
    pub bytes: [u8; 32],
}

impl Address {
    pub fn new(bytes: [u8; 32]) -> (r: Address)
        ensures
            r.bytes == bytes,
    {
        Address { bytes }
    }

    /// Byte-for-byte equality of two addresses.
    pub fn same(&self, other: &Address) -> (r: bool)
        ensures
            r == (*self == *other),
    {
        let mut i: usize = 0;
        while i < 32
            invariant
                0 <= i <= 32,
                forall|j: int| 0 <= j < i ==> self.bytes@[j] == other.bytes@[j],
            decreases 32 - i,
        {
            if self.bytes[i] != other.bytes[i] {
                return false;
            }
            i += 1;
        }
        proof {
            assert(self.bytes =~= other.bytes);
        }
        true
    }
}

/// The first seed of every offer address: the ASCII bytes of "offer".
pub open spec fn offer_prefix() -> Seq<u8> {
    seq![111u8, 102u8, 102u8, 101u8, 114u8]
}

/// Byte `j` of `x` in little-endian order.
pub open spec fn le_byte(x: u64, j: int) -> u8 {
    ((x >> ((8 * j) as u64)) & 0xffu64) as u8
}

/// The eight little-endian bytes of `x`.
pub open spec fn le_bytes(x: u64) -> Seq<u8> {
    Seq::new(8, |j: int| le_byte(x, j))
}

/// The seeds from which the address of offer `id` is derived.
pub open spec fn offer_seeds(id: u64) -> Seq<Seq<u8>> {
    seq![offer_prefix(), le_bytes(id)]
}

/// The program address and bump that the runtime derives from `seeds` for
/// the program `program_id`, or `None` where no bump gives a valid address.
pub uninterp spec fn program_address_of(seeds: Seq<Seq<u8>>, program_id: Seq<u8>) -> Option<
    (Seq<u8>, u8),
>;

/// The view of a derived address as plain bytes.
pub open spec fn derived_view(d: Option<(Address, u8)>) -> Option<(Seq<u8>, u8)> {
    match d {
        Some((a, bump)) => Some((a.bytes@, bump)),
        None => None,
    }
}

/// The address and bump of offer `id` under `program_id`.
pub open spec fn offer_address_of(id: u64, program_id: Address) -> Option<(Seq<u8>, u8)> {
    program_address_of(offer_seeds(id), program_id.bytes@)
}

pub fn offer_prefix_bytes() -> (r: Vec<u8>)
    ensures
        r@ == offer_prefix(),
{
    let r: Vec<u8> = vec![111u8, 102u8, 102u8, 101u8, 114u8];
    assert(r@ =~= offer_prefix());
    r
}

/// The little-endian bytes of `x`.
pub fn to_le_bytes(x: u64) -> (r: Vec<u8>)
    ensures
        r@ == le_bytes(x),
{
    let mut r: Vec<u8> = Vec::new();
    let mut i: u64 = 0;
    while i < 8
        invariant
            0 <= i <= 8,
            r@.len() == i,
            forall|j: int| 0 <= j < i ==> r@[j] == le_byte(x, j),
        decreases 8 - i,
    {
        r.push(((x >> (8 * i)) & 0xff) as u8);
        i += 1;
    }
    assert(r@ =~= le_bytes(x));
    r
}

/// Relies on `Pubkey::try_find_program_address` of solana-program (through
/// anchor-lang): it searches the bumps from 255 down for the first one whose
/// hash of seeds, bump and program id is off the curve; the result depends on
/// its arguments alone and it does not panic.
#[verifier::external_body]
fn try_find_program_address(seeds: &Vec<Vec<u8>>, program_id: &Address) -> (r: Option<
    (Address, u8),
>)
    ensures
        derived_view(r) == program_address_of(
            seeds@.map_values(|s: Vec<u8>| s@),
            program_id.bytes@,
        ),
{
    let slices: Vec<&[u8]> = seeds.iter().map(|s| s.as_slice()).collect();
    Pubkey::try_find_program_address(&slices, &Pubkey::new_from_array(program_id.bytes)).map(
        |(key, bump)| (Address { bytes: key.to_bytes() }, bump),
    )
}

/// Derives the address that holds offer `id` and its holding, with the bump
/// that proves the derivation.
pub fn find_offer_address(id: u64, program_id: &Address) -> (r: Option<(Address, u8)>)
    ensures
        derived_view(r) == offer_address_of(id, *program_id),
{
    let mut seeds: Vec<Vec<u8>> = Vec::new();
    seeds.push(offer_prefix_bytes());
    seeds.push(to_le_bytes(id));
    assert(seeds@.map_values(|s: Vec<u8>| s@) =~= offer_seeds(id));
    try_find_program_address(&seeds, program_id)
}

} // verus!
