use crate::address::{optional, Address};
use crate::ledger::{balance_in, transferred, Balances, Ledger};
use crate::vault::custody::{native, native_mint, vault_address};
use crate::vault::errors::VaultError;
use crate::vault::instructions::deposit::{derived_vault, refusal, refuse};
use vstd::prelude::*;

verus! {

/// The accounts of a request to empty a vault.
#[derive(Clone, Copy, Debug, PartialEq, Eq)]
pub struct Withdraw {
    /// The owner of the vault, who receives.
    pub signer: Address,
    /// The owner's vault.
    pub vault: Address,
}

/// A `Withdraw` with its identities as byte sequences.
pub struct WithdrawView {
    pub signer: Seq<u8>,
    pub vault: Seq<u8>,
}

impl View for Withdraw {
    type V = WithdrawView;

    open spec fn view(&self) -> WithdrawView {
        WithdrawView { signer: self.signer@, vault: self.vault@ }
    }
}

/// What a withdrawal does to the balances, given the vault derived for the
/// owner. It is refused, in this order: with `DerivationMismatch` where the
/// named vault is not the derived one; with `InvalidAmount` where the vault
/// is empty; with `Overflow` where the owner cannot hold what the vault
/// holds. Otherwise all that the vault holds moves to the owner.
pub open spec fn withdrawn_with(
    balances: Balances,
    ctx: WithdrawView,
    derived: Option<Seq<u8>>,
) -> Result<Balances, VaultError> {
    if derived != Some(ctx.vault) {
        Err(VaultError::DerivationMismatch)
    } else if balance_in(balances, ctx.vault, native_mint()) == 0 {
        Err(VaultError::InvalidAmount)
    } else {
        match transferred(
            balances,
            ctx.vault,
            ctx.signer,
            native_mint(),
            balance_in(balances, ctx.vault, native_mint()),
        ) {
            Ok(next) => Ok(next),
            Err(e) => Err(refusal(e)),
        }
    }
}

/// What a withdrawal does to the balances: what `withdrawn_with` says for
/// the vault derived for the owner.
pub open spec fn withdrawn(balances: Balances, ctx: WithdrawView) -> Result<Balances, VaultError> {
    withdrawn_with(balances, ctx, vault_address(ctx.signer))
}

/// Moves all that the vault holds back to the owner for whom the caller
/// has derived it, or refuses and changes nothing.
pub fn pay_out(ledger: &mut Ledger, ctx: &Withdraw, derived: Option<Address>) -> (done: Result<
    (),
    VaultError,
>)
    requires
        old(ledger).wf(),
    ensures
        final(ledger).wf(),
        match withdrawn_with(old(ledger)@, ctx@, optional(derived)) {
            Ok(next) => done is Ok && final(ledger)@ == next,
            Err(e) => done == Err::<(), VaultError>(e) && final(ledger)@ == old(ledger)@,
        },
        final(ledger).same_supply(*old(ledger)),
{
    match derived {
        Some(vault) => {
            if vault != ctx.vault {
                return Err(VaultError::DerivationMismatch);
            }
        },
        None => {
            return Err(VaultError::DerivationMismatch);
        },
    }
    let mint = native();
    let held = ledger.balance_of(&ctx.vault, &mint);
    if held == 0 {
        return Err(VaultError::InvalidAmount);
    }
    match ledger.transfer(&ctx.vault, &ctx.signer, &mint, held) {
        Ok(()) => Ok(()),
        Err(e) => Err(refuse(e)),
    }
}

/// Moves all that the owner's vault holds back to the owner, or refuses
/// and changes nothing.
pub fn handler(ledger: &mut Ledger, ctx: &Withdraw) -> (done: Result<(), VaultError>)
    requires
        old(ledger).wf(),
    ensures
        final(ledger).wf(),
        match withdrawn(old(ledger)@, ctx@) {
            Ok(next) => done is Ok && final(ledger)@ == next,
            Err(e) => done == Err::<(), VaultError>(e) && final(ledger)@ == old(ledger)@,
        },
        final(ledger).same_supply(*old(ledger)),
{
    let derived = derived_vault(&ctx.signer);
    pay_out(ledger, ctx, derived)
}

} // verus!
