use vstd::prelude::*;

verus! {

/// Why a Make or Refund was rejected. Every failure aborts the whole
/// operation: no funds move and no account is created or retired.
#[derive(Clone, Copy, Debug, PartialEq, Eq, Structural)]
pub enum EscrowError {
    /// A deposit or receive quantity of zero was requested.
    InvalidAmount,
    /// The maker's balance of the offered asset is below the deposit.
    InsufficientFunds,
    /// A live escrow already sits at the address derived from (maker, seed).
    AddressCollision,
    /// Refund was attempted by an identity other than the recorded maker.
    Unauthorized,
    /// No vault matches the address and authority derived from the record,
    /// either because the escrow was already retired or because a forged
    /// or mismatched vault was presented.
    InvalidVault,
    /// The balance-transfer primitive rejected the movement.
    TransferFailed,
}

} // verus!
