use vstd::prelude::*;

verus! {

/// Why an escrow operation was refused. Every refusal leaves the exchange
/// as it was.
#[derive(Clone, Copy, Debug, PartialEq, Eq, Structural)]
pub enum EscrowError {
    /// An amount that must be positive is zero.
    InvalidAmount,
    /// A paying balance is smaller than the amount asked of it.
    InsufficientFunds,
    /// A receiving balance cannot hold the amount sent to it.
    Overflow,
    /// The caller is not the party the record names as its maker.
    Unauthorized,
    /// A supplied address is not the one derived for the record.
    DerivationMismatch,
    /// A record or holding account already lives at the derived address.
    AddressInUse,
    /// No open record lives at the given address.
    RecordNotFound,
}

} // verus!
