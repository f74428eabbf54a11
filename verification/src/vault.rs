use crate::ledger::Ledger;
use crate::vault::errors::VaultError;
use crate::vault::instructions::deposit::{deposited, Deposit};
use crate::vault::instructions::withdraw::{withdrawn, Withdraw};
use vstd::prelude::*;

pub mod custody;
pub mod errors;
pub mod instructions;
pub mod laws;

verus! {

/// Pays `amount` from the owner into the owner's vault, or refuses and
/// changes nothing.
pub fn deposit(ledger: &mut Ledger, ctx: &Deposit, amount: u64, rent_minimum: u64) -> (done:
    Result<(), VaultError>)
    requires
        old(ledger).wf(),
    ensures
        final(ledger).wf(),
        match deposited(old(ledger)@, ctx@, amount, rent_minimum) {
            Ok(next) => done is Ok && final(ledger)@ == next,
            Err(e) => done == Err::<(), VaultError>(e) && final(ledger)@ == old(ledger)@,
        },
        final(ledger).same_supply(*old(ledger)),
{
    instructions::deposit::handler(ledger, ctx, amount, rent_minimum)
}

/// Moves all that the owner's vault holds back to the owner, or refuses
/// and changes nothing.
pub fn withdraw(ledger: &mut Ledger, ctx: &Withdraw) -> (done: Result<(), VaultError>)
    requires
        old(ledger).wf(),
    ensures
        final(ledger).wf(),
        match withdrawn(old(ledger)@, ctx@) {
            Ok(next) => done is Ok && final(ledger)@ == next,
            Err(e) => done == Err::<(), VaultError>(e) && final(ledger)@ == old(ledger)@,
        },
        final(ledger).same_supply(*old(ledger)),
{
    instructions::withdraw::handler(ledger, ctx)
}

} // verus!
