//! A two-party token escrow: a maker locks an amount of one token in a holding
//! bound to an offer, and either a taker pays the wanted amount of another
//! token and receives the holding, or the maker takes it back.

pub mod address;
pub mod error;
pub mod state;
pub mod ledger;
pub mod instructions;
pub mod laws;
