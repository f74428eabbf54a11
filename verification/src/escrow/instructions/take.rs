use crate::address::{optional, Address};
use crate::escrow::custody::signer;
use crate::escrow::errors::EscrowError;
use crate::escrow::exchange::{refusal, refuse, Exchange, ExchangeView};
use crate::ledger::{credited, transferred};
use vstd::prelude::*;

verus! {

/// The parties and accounts of a request to complete a trade.
#[derive(Clone, Copy, Debug, PartialEq, Eq)]
pub struct Take {
    /// The party that pays the asked asset. Any party may take.
    pub taker: Address,
    /// The address of the record.
    pub escrow: Address,
    /// The address of the record's holding account.
    pub vault: Address,
    /// The party that receives what is held in custody.
    pub destination: Address,
}

/// A `Take` with its identities as byte sequences.
pub struct TakeView {
    pub taker: Seq<u8>,
    pub escrow: Seq<u8>,
    pub vault: Seq<u8>,
    pub destination: Seq<u8>,
}

impl View for Take {
    type V = TakeView;

    open spec fn view(&self) -> TakeView {
        TakeView {
            taker: self.taker@,
            escrow: self.escrow@,
            vault: self.vault@,
            destination: self.destination@,
        }
    }
}

/// What completing a trade does to the exchange, given the address
/// recomputed from what the record stores. It is refused, in this order:
/// with `RecordNotFound` where no trade is open under the named record
/// address; with `DerivationMismatch` where `signer` is not that address or
/// the named holding account is not the record's; with `InsufficientFunds`
/// where the taker holds less of `mint_b` than the record asks; with
/// `Overflow` where the maker cannot hold the payment or the destination
/// cannot hold the custody. Otherwise the taker pays the maker what the
/// record asks, the destination receives all that is held in custody, and
/// the record and its holding account cease to exist.
pub open spec fn taken_with(state: ExchangeView, ctx: TakeView, signer: Option<Seq<u8>>) -> Result<
    ExchangeView,
    EscrowError,
> {
    if !state.is_open(ctx.escrow) {
        Err(EscrowError::RecordNotFound)
    } else {
        let custody = state.escrows[ctx.escrow];
        if !custody.authorizes(signer, ctx.escrow, ctx.vault) {
            Err(EscrowError::DerivationMismatch)
        } else {
            match transferred(
                state.balances,
                ctx.taker,
                custody.record.maker,
                custody.record.mint_b,
                custody.record.receive,
            ) {
                Err(e) => Err(refusal(e)),
                Ok(paid) => match credited(
                    paid,
                    ctx.destination,
                    custody.record.mint_a,
                    custody.amount,
                ) {
                    Err(e) => Err(refusal(e)),
                    Ok(settled) => Ok(
                        ExchangeView {
                            balances: settled,
                            escrows: state.escrows.remove(ctx.escrow),
                        },
                    ),
                },
            }
        }
    }
}

/// What completing a trade does to the exchange: what `taken_with` says
/// for the address that the stored seeds and bump sign for.
pub open spec fn taken(state: ExchangeView, ctx: TakeView) -> Result<ExchangeView, EscrowError> {
    taken_with(state, ctx, state.signer(ctx.escrow))
}

/// Removing a trade leaves a well-formed exchange well formed, whatever
/// the balances become.
pub proof fn lemma_close_keeps_wf(
    state: ExchangeView,
    escrow: Seq<u8>,
    balances: Map<(Seq<u8>, Seq<u8>), u64>,
)
    ensures
        state.wf() ==> (ExchangeView { balances, escrows: state.escrows.remove(escrow) }).wf(),
        state.derived() ==> (ExchangeView {
            balances,
            escrows: state.escrows.remove(escrow),
        }).derived(),
{
    let rest = state.escrows.remove(escrow);
    if state.wf() {
        assert forall|other: Seq<u8>| rest.dom().contains(other) implies (
        #[trigger] rest[other]).wf() by {
            assert(state.escrows[other].wf());
        }
        assert forall|a: Seq<u8>, b: Seq<u8>|
            rest.dom().contains(a) && rest.dom().contains(b) && (#[trigger] rest[a]).vault == (
            #[trigger] rest[b]).vault implies a == b by {
            assert(state.escrows[a].vault == state.escrows[b].vault);
        }
    }
    if state.derived() {
        assert forall|other: Seq<u8>| rest.dom().contains(other) implies (
        #[trigger] rest[other]).derived_at(other) by {
            assert(state.escrows[other].derived_at(other));
        }
    }
}

/// Completes a trade for which the caller has recomputed the signing
/// address: pays the maker, releases the custody to the destination and
/// closes the record. All of it happens, or none of it.
pub fn settle(state: &mut Exchange, ctx: &Take, signer: Option<Address>) -> (done: Result<
    (),
    EscrowError,
>)
    requires
        old(state).wf(),
    ensures
        final(state).wf(),
        old(state)@.derived() ==> final(state)@.derived(),
        match taken_with(old(state)@, ctx@, optional(signer)) {
            Ok(next) => done is Ok && final(state)@ == next,
            Err(e) => done == Err::<(), EscrowError>(e) && final(state)@ == old(state)@,
        },
        final(state).same_supply(*old(state)),
{
    let custody = match state.custody(&ctx.escrow) {
        None => {
            return Err(EscrowError::RecordNotFound);
        },
        Some(custody) => custody,
    };
    if !custody.authorizes(&signer, &ctx.escrow, &ctx.vault) {
        return Err(EscrowError::DerivationMismatch);
    }
    let mut staged = state.copy();
    match staged.transfer(
        &ctx.taker,
        &custody.record.maker,
        &custody.record.mint_b,
        custody.record.receive,
    ) {
        Err(e) => {
            return Err(refuse(e));
        },
        Ok(()) => {},
    }
    match staged.credit(&ctx.destination, &custody.record.mint_a, custody.amount) {
        Err(e) => {
            return Err(refuse(e));
        },
        Ok(()) => {},
    }
    staged.close(&ctx.escrow);
    proof {
        lemma_close_keeps_wf(old(state)@, ctx@.escrow, staged@.balances);
    }
    *state = staged;
    Ok(())
}

/// Completes a trade: recomputes the signing address from what the record
/// stores, pays the maker, releases the custody to the destination and
/// closes the record. All of it happens, or none of it.
pub fn handler(state: &mut Exchange, ctx: &Take) -> (done: Result<(), EscrowError>)
    requires
        old(state).wf(),
    ensures
        final(state).wf(),
        old(state)@.derived() ==> final(state)@.derived(),
        match taken(old(state)@, ctx@) {
            Ok(next) => done is Ok && final(state)@ == next,
            Err(e) => done == Err::<(), EscrowError>(e) && final(state)@ == old(state)@,
        },
        final(state).same_supply(*old(state)),
{
    let recomputed = match state.custody(&ctx.escrow) {
        Some(custody) => signer(&custody.record),
        None => None,
    };
    settle(state, ctx, recomputed)
}

} // verus!
