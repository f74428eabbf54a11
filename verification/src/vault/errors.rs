use vstd::prelude::*;

verus! {

/// Why a vault operation was refused. Every refusal leaves the ledger as it
/// was.
#[derive(Clone, Copy, Debug, PartialEq, Eq, Structural)]
pub enum VaultError {
    /// The amount to move is zero.
    InvalidAmount,
    /// The owner holds too little.
    InsufficientFunds,
    /// The receiving balance cannot hold the amount.
    Overflow,
    /// The named vault is not the one derived for the owner.
    DerivationMismatch,
}

} // verus!
