use vstd::prelude::*;

verus! {

/// Why an escrow instruction was refused. A refused instruction changes nothing.
#[derive(Clone, Copy, Debug, PartialEq, Eq, Structural)]
pub enum EscrowError {
    /// An offered or wanted amount is zero.
    InvalidAmount,
    /// The offered and the wanted token are the same mint.
    InvalidAssetPair,
    /// The maker holds less of the offered token than the offered amount.
    InsufficientFunderBalance,
    /// The taker holds less of the wanted token than the wanted amount.
    InsufficientTakerBalance,
    /// No open offer has this id.
    OfferNotFound,
    /// The caller is not the maker of the offer.
    Unauthorized,
    /// An open offer already occupies the address of this id.
    OfferAlreadyExists,
    /// No program address can be derived for this id.
    AddressDerivationFailed,
    /// A credit would take a balance past the largest token amount.
    BalanceOverflow,
}

} // verus!
