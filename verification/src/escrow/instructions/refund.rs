use crate::address::{optional, Address};
use crate::escrow::custody::signer;
use crate::escrow::instructions::take::lemma_close_keeps_wf;
use crate::escrow::errors::EscrowError;
use crate::escrow::exchange::{refusal, refuse, Exchange, ExchangeView};
use crate::ledger::credited;
use vstd::prelude::*;

verus! {

/// The parties and accounts of a request to cancel a trade.
#[derive(Clone, Copy, Debug, PartialEq, Eq)]
pub struct Refund {
    /// The party that asks for the cancellation.
    pub maker: Address,
    /// The address of the record.
    pub escrow: Address,
    /// The address of the record's holding account.
    pub vault: Address,
}

/// A `Refund` with its identities as byte sequences.
pub struct RefundView {
    pub maker: Seq<u8>,
    pub escrow: Seq<u8>,
    pub vault: Seq<u8>,
}

impl View for Refund {
    type V = RefundView;

    open spec fn view(&self) -> RefundView {
        RefundView { maker: self.maker@, escrow: self.escrow@, vault: self.vault@ }
    }
}

/// What cancelling a trade does to the exchange, given the address
/// recomputed from what the record stores. It is refused, in this order:
/// with `RecordNotFound` where no trade is open under the named record
/// address; with `Unauthorized` where the caller is not the maker that the
/// record stores; with `DerivationMismatch` where `signer` is not that
/// address or the named holding account is not the record's; with
/// `InvalidAmount` where nothing is held in custody; with `Overflow` where
/// the maker cannot hold the custody. Otherwise the maker receives all that
/// is held in custody, and the record and its holding account cease to
/// exist.
pub open spec fn refunded_with(
    state: ExchangeView,
    ctx: RefundView,
    signer: Option<Seq<u8>>,
) -> Result<ExchangeView, EscrowError> {
    if !state.is_open(ctx.escrow) {
        Err(EscrowError::RecordNotFound)
    } else {
        let custody = state.escrows[ctx.escrow];
        if custody.record.maker != ctx.maker {
            Err(EscrowError::Unauthorized)
        } else if !custody.authorizes(signer, ctx.escrow, ctx.vault) {
            Err(EscrowError::DerivationMismatch)
        } else if custody.amount == 0 {
            Err(EscrowError::InvalidAmount)
        } else {
            match credited(
                state.balances,
                custody.record.maker,
                custody.record.mint_a,
                custody.amount,
            ) {
                Err(e) => Err(refusal(e)),
                Ok(returned) => Ok(
                    ExchangeView { balances: returned, escrows: state.escrows.remove(ctx.escrow) },
                ),
            }
        }
    }
}

/// What cancelling a trade does to the exchange: what `refunded_with` says
/// for the address that the stored seeds and bump sign for.
pub open spec fn refunded(state: ExchangeView, ctx: RefundView) -> Result<
    ExchangeView,
    EscrowError,
> {
    refunded_with(state, ctx, state.signer(ctx.escrow))
}

/// Cancels a trade for which the caller has recomputed the signing
/// address: returns the custody to the maker and closes the record. All of
/// it happens, or none of it.
pub fn cancel(state: &mut Exchange, ctx: &Refund, signer: Option<Address>) -> (done: Result<
    (),
    EscrowError,
>)
    requires
        old(state).wf(),
    ensures
        final(state).wf(),
        old(state)@.derived() ==> final(state)@.derived(),
        match refunded_with(old(state)@, ctx@, optional(signer)) {
            Ok(next) => done is Ok && final(state)@ == next,
            Err(e) => done == Err::<(), EscrowError>(e) && final(state)@ == old(state)@,
        },
        final(state).same_supply(*old(state)),
{
    let custody = match state.custody(&ctx.escrow) {
        None => {
            return Err(EscrowError::RecordNotFound);
        },
        Some(custody) => custody,
    };
    if custody.record.maker != ctx.maker {
        return Err(EscrowError::Unauthorized);
    }
    if !custody.authorizes(&signer, &ctx.escrow, &ctx.vault) {
        return Err(EscrowError::DerivationMismatch);
    }
    if custody.amount == 0 {
        return Err(EscrowError::InvalidAmount);
    }
    let mut staged = state.copy();
    match staged.credit(&custody.record.maker, &custody.record.mint_a, custody.amount) {
        Err(e) => {
            return Err(refuse(e));
        },
        Ok(()) => {},
    }
    staged.close(&ctx.escrow);
    proof {
        lemma_close_keeps_wf(old(state)@, ctx@.escrow, staged@.balances);
    }
    *state = staged;
    Ok(())
}

/// Cancels a trade: recomputes the signing address from what the record
/// stores, returns the custody to the maker and closes the record. All of
/// it happens, or none of it.
pub fn handler(state: &mut Exchange, ctx: &Refund) -> (done: Result<(), EscrowError>)
    requires
        old(state).wf(),
    ensures
        final(state).wf(),
        old(state)@.derived() ==> final(state)@.derived(),
        match refunded(old(state)@, ctx@) {
            Ok(next) => done is Ok && final(state)@ == next,
            Err(e) => done == Err::<(), EscrowError>(e) && final(state)@ == old(state)@,
        },
        final(state).same_supply(*old(state)),
{
    let recomputed = match state.custody(&ctx.escrow) {
        Some(custody) => signer(&custody.record),
        None => None,
    };
    cancel(state, ctx, recomputed)
}

} // verus!
