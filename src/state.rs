use crate::address::Address;
use vstd::prelude::*;

verus! {

/// An open offer: the maker locked some of `token_mint_a` and asks for
/// `token_b_wanted_amount` of `token_mint_b` in exchange.
#[derive(Clone, Copy, Debug, PartialEq, Eq)]
pub struct Offer {
    pub id: u64,
    pub maker: Address,
    pub token_mint_a: Address,
    pub token_mint_b: Address,
    pub token_b_wanted_amount: u64,
    /// The bump with which the offer's address was derived.
    pub bump: u8,
}

/// A token balance: `amount` of `mint` held by `owner`.
#[derive(Clone, Copy, Debug, PartialEq, Eq)]
pub struct TokenAccount {
    pub owner: Address,
    pub mint: Address,
    pub amount: u64,
}

/// What the ledger keeps for an open offer: the offer itself, its derived
/// address (the authority of its holding) and the amount held.
#[derive(Clone, Copy, Debug, PartialEq, Eq)]
pub struct OfferRecord {
    pub offer: Offer,
    pub address: Address,
    pub held: u64,
}

} // verus!
