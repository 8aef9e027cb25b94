//! A two-party conditional-transfer escrow core.
//!
//! A maker locks a quantity of a fungible asset into a custodial vault,
//! recording the quantity and asset it expects in return. The vault can
//! later be unwound back to the maker (refund). The crate models the
//! escrow account lifecycle and fund-custody protocol: how the holding
//! account is derived, how deposits and withdrawals are authorized, and
//! the invariants that keep funds from being stranded, double-spent, or
//! released to the wrong party.

pub mod derivation;
pub mod errors;
pub mod laws;
pub mod ledger;
pub mod state;
