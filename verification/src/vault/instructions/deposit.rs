use crate::address::{optional, Address};
use crate::ledger::{balance_in, transferred, Balances, Ledger, TransferError};
use crate::vault::custody::{find_vault, native, native_mint, vault_address};
use crate::vault::errors::VaultError;
use vstd::prelude::*;

verus! {

/// The accounts of a request to pay into a vault.
#[derive(Clone, Copy, Debug, PartialEq, Eq)]
pub struct Deposit {
    /// The owner of the vault, who pays.
    pub signer: Address,
    /// The owner's vault.
    pub vault: Address,
}

/// A `Deposit` with its identities as byte sequences.
pub struct DepositView {
    pub signer: Seq<u8>,
    pub vault: Seq<u8>,
}

impl View for Deposit {
    type V = DepositView;

    open spec fn view(&self) -> DepositView {
        DepositView { signer: self.signer@, vault: self.vault@ }
    }
}

/// The error a vault operation reports for a refused movement of funds.
pub open spec fn refusal(e: TransferError) -> VaultError {
    match e {
        TransferError::InsufficientFunds => VaultError::InsufficientFunds,
        TransferError::Overflow => VaultError::Overflow,
    }
}

/// The error a vault operation reports for a refused movement of funds.
pub fn refuse(e: TransferError) -> (error: VaultError)
    ensures
        error == refusal(e),
{
    match e {
        TransferError::InsufficientFunds => VaultError::InsufficientFunds,
        TransferError::Overflow => VaultError::Overflow,
    }
}

/// The vault of an owner, derived.
pub fn derived_vault(signer: &Address) -> (vault: Option<Address>)
    ensures
        optional(vault) == vault_address(signer@),
{
    match find_vault(signer) {
        Some((vault, _)) => Some(vault),
        None => None,
    }
}

/// What a deposit does to the balances, given the vault derived for the
/// owner. It is refused, in this order: with `InvalidAmount` where `amount`
/// is zero; with `DerivationMismatch` where the named vault is not the
/// derived one; with `InsufficientFunds` where the owner does not hold more
/// than `rent_minimum`, or holds less than `amount`; with `Overflow` where
/// the vault cannot hold the amount. Otherwise `amount` moves from the
/// owner to the vault.
pub open spec fn deposited_with(
    balances: Balances,
    ctx: DepositView,
    derived: Option<Seq<u8>>,
    amount: u64,
    rent_minimum: u64,
) -> Result<Balances, VaultError> {
    if amount == 0 {
        Err(VaultError::InvalidAmount)
    } else if derived != Some(ctx.vault) {
        Err(VaultError::DerivationMismatch)
    } else if balance_in(balances, ctx.signer, native_mint()) <= rent_minimum {
        Err(VaultError::InsufficientFunds)
    } else {
        match transferred(balances, ctx.signer, ctx.vault, native_mint(), amount) {
            Ok(next) => Ok(next),
            Err(e) => Err(refusal(e)),
        }
    }
}

/// What a deposit does to the balances: what `deposited_with` says for the
/// vault derived for the owner.
pub open spec fn deposited(
    balances: Balances,
    ctx: DepositView,
    amount: u64,
    rent_minimum: u64,
) -> Result<Balances, VaultError> {
    deposited_with(balances, ctx, vault_address(ctx.signer), amount, rent_minimum)
}

/// Pays `amount` from the owner into the vault that the caller has derived
/// for the owner, or refuses and changes nothing. `rent_minimum` is the
/// balance that the owner must exceed to be allowed to pay.
pub fn pay_in(
    ledger: &mut Ledger,
    ctx: &Deposit,
    derived: Option<Address>,
    amount: u64,
    rent_minimum: u64,
) -> (done: Result<(), VaultError>)
    requires
        old(ledger).wf(),
    ensures
        final(ledger).wf(),
        match deposited_with(old(ledger)@, ctx@, optional(derived), amount, rent_minimum) {
            Ok(next) => done is Ok && final(ledger)@ == next,
            Err(e) => done == Err::<(), VaultError>(e) && final(ledger)@ == old(ledger)@,
        },
        final(ledger).same_supply(*old(ledger)),
{
    if amount == 0 {
        return Err(VaultError::InvalidAmount);
    }
    match derived {
        Some(vault) => {
            if vault != ctx.vault {
                return Err(VaultError::DerivationMismatch);
            }
        },
        None => {
            return Err(VaultError::DerivationMismatch);
        },
    }
    let mint = native();
    if ledger.balance_of(&ctx.signer, &mint) <= rent_minimum {
        return Err(VaultError::InsufficientFunds);
    }
    match ledger.transfer(&ctx.signer, &ctx.vault, &mint, amount) {
        Ok(()) => Ok(()),
        Err(e) => Err(refuse(e)),
    }
}

/// Pays `amount` from the owner into the owner's vault, or refuses and
/// changes nothing. `rent_minimum` is the balance that the owner must
/// exceed to be allowed to pay.
pub fn handler(ledger: &mut Ledger, ctx: &Deposit, amount: u64, rent_minimum: u64) -> (done:
    Result<(), VaultError>)
    requires
        old(ledger).wf(),
    ensures
        final(ledger).wf(),
        match deposited(old(ledger)@, ctx@, amount, rent_minimum) {
            Ok(next) => done is Ok && final(ledger)@ == next,
            Err(e) => done == Err::<(), VaultError>(e) && final(ledger)@ == old(ledger)@,
        },
        final(ledger).same_supply(*old(ledger)),
{
    let derived = derived_vault(&ctx.signer);
    pay_in(ledger, ctx, derived, amount, rent_minimum)
}

} // verus!
