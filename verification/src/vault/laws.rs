use crate::ledger::{balance_in, Balances};
use crate::vault::custody::native_mint;
use crate::vault::instructions::deposit::{deposited_with, DepositView};
use crate::vault::instructions::withdraw::{withdrawn_with, WithdrawView};
use vstd::prelude::*;

verus! {

/// A granted deposit moves exactly `amount` from the owner to the vault
/// derived for the owner and touches no other balance; it is granted only
/// for a positive amount and to an owner that held more than the rent
/// minimum.
pub proof fn lemma_deposit_moves(
    balances: Balances,
    ctx: DepositView,
    derived: Option<Seq<u8>>,
    amount: u64,
    rent_minimum: u64,
    owner: Seq<u8>,
    mint: Seq<u8>,
)
    ensures
        deposited_with(balances, ctx, derived, amount, rent_minimum) matches Ok(next) ==> {
            &&& amount > 0
            &&& derived == Some(ctx.vault)
            &&& balance_in(balances, ctx.signer, native_mint()) > rent_minimum
            &&& ctx.signer != ctx.vault ==> balance_in(next, ctx.signer, native_mint())
                == balance_in(balances, ctx.signer, native_mint()) - amount
            &&& ctx.signer != ctx.vault ==> balance_in(next, ctx.vault, native_mint())
                == balance_in(balances, ctx.vault, native_mint()) + amount
            &&& (mint != native_mint() || (owner != ctx.signer && owner != ctx.vault))
                ==> balance_in(next, owner, mint) == balance_in(balances, owner, mint)
        },
{
}

/// A granted withdrawal leaves the vault empty and the owner richer by all
/// that the vault held, and touches no other balance; it is granted only
/// for the vault derived for the owner and only where the vault held
/// something.
pub proof fn lemma_withdraw_empties(
    balances: Balances,
    ctx: WithdrawView,
    derived: Option<Seq<u8>>,
    owner: Seq<u8>,
    mint: Seq<u8>,
)
    ensures
        withdrawn_with(balances, ctx, derived) matches Ok(next) ==> {
            &&& derived == Some(ctx.vault)
            &&& balance_in(balances, ctx.vault, native_mint()) > 0
            &&& ctx.signer != ctx.vault ==> balance_in(next, ctx.vault, native_mint()) == 0
            &&& ctx.signer != ctx.vault ==> balance_in(next, ctx.signer, native_mint())
                == balance_in(balances, ctx.signer, native_mint()) + balance_in(
                balances,
                ctx.vault,
                native_mint(),
            )
            &&& (mint != native_mint() || (owner != ctx.signer && owner != ctx.vault))
                ==> balance_in(next, owner, mint) == balance_in(balances, owner, mint)
        },
{
}

/// Deposits into an empty vault followed by a withdrawal give the owner
/// back exactly what was paid in.
pub proof fn lemma_deposit_withdraw_restores(
    balances: Balances,
    ctx: DepositView,
    derived: Option<Seq<u8>>,
    amount: u64,
    rent_minimum: u64,
)
    requires
        ctx.signer != ctx.vault,
        balance_in(balances, ctx.vault, native_mint()) == 0,
    ensures
        deposited_with(balances, ctx, derived, amount, rent_minimum) matches Ok(paid) ==> (
        withdrawn_with(
            paid,
            WithdrawView { signer: ctx.signer, vault: ctx.vault },
            derived,
        ) matches Ok(back) && balance_in(back, ctx.signer, native_mint()) == balance_in(
            balances,
            ctx.signer,
            native_mint(),
        ) && balance_in(back, ctx.vault, native_mint()) == 0),
{
}

} // verus!
