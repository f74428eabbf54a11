use crate::escrow::custody::DerivationView;
use crate::escrow::errors::EscrowError;
use crate::escrow::exchange::ExchangeView;
use crate::escrow::instructions::make::{
    lemma_make_keeps_derived, lemma_make_keeps_wf, made, made_with, MakeView,
};
use crate::escrow::instructions::refund::{refunded, refunded_with, RefundView};
use crate::escrow::instructions::take::{lemma_close_keeps_wf, taken, taken_with, TakeView};
use vstd::prelude::*;

verus! {

/// What the maker, the taker and the holding account of the trade under
/// `escrow` hold of `mint` together. A party that is both maker and taker
/// is counted once.
pub open spec fn joint_holdings(
    state: ExchangeView,
    maker: Seq<u8>,
    taker: Seq<u8>,
    escrow: Seq<u8>,
    mint: Seq<u8>,
) -> int {
    state.balance(maker, mint) + (if taker == maker {
        0
    } else {
        state.balance(taker, mint) as int
    }) + state.held(escrow)
}

/// A well-formed exchange stays well formed through every granted
/// operation, whatever was derived or recomputed for it; and where every
/// open trade is kept at its derived addresses, it stays so through the
/// operations that derive the addresses themselves.
pub proof fn lemma_operations_keep_wf(
    state: ExchangeView,
    make: MakeView,
    derived: Option<DerivationView>,
    seed: u64,
    receive: u64,
    amount: u64,
    take: TakeView,
    refund: RefundView,
    signer: Option<Seq<u8>>,
)
    ensures
        state.wf() ==> (made_with(state, make, derived, seed, receive, amount) matches Ok(next)
            ==> next.wf()),
        state.wf() ==> (taken_with(state, take, signer) matches Ok(next) ==> next.wf()),
        state.wf() ==> (refunded_with(state, refund, signer) matches Ok(next) ==> next.wf()),
        state.derived() ==> (made(state, make, seed, receive, amount) matches Ok(next)
            ==> next.derived()),
        state.derived() ==> (taken_with(state, take, signer) matches Ok(next) ==> next.derived()),
        state.derived() ==> (refunded_with(state, refund, signer) matches Ok(next)
            ==> next.derived()),
{
    if state.wf() {
        lemma_make_keeps_wf(state, make, derived, seed, receive, amount);
    }
    if state.derived() {
        lemma_make_keeps_derived(state, make, seed, receive, amount);
    }
    if let Ok(next) = taken_with(state, take, signer) {
        lemma_close_keeps_wf(state, take.escrow, next.balances);
    }
    if let Ok(next) = refunded_with(state, refund, signer) {
        lemma_close_keeps_wf(state, refund.escrow, next.balances);
    }
}

/// Every open trade that is kept at its derived addresses can be settled
/// with them: the stored seeds and bump sign for the record's address. A
/// take or a refund of such a trade is refused with `DerivationMismatch`
/// only for a wrong holding address, and in a well-formed exchange no
/// refund is refused with `InvalidAmount`.
pub proof fn lemma_open_trades_authorize(state: ExchangeView, take: TakeView, refund: RefundView)
    requires
        state.wf(),
        state.derived(),
    ensures
        state.is_open(take.escrow) ==> state.signer(take.escrow) == Some(take.escrow),
        taken(state, take) == Err::<ExchangeView, EscrowError>(EscrowError::DerivationMismatch)
            <==> state.is_open(take.escrow) && state.escrows[take.escrow].vault != take.vault,
        refunded(state, refund) == Err::<ExchangeView, EscrowError>(
            EscrowError::DerivationMismatch,
        ) <==> state.is_open(refund.escrow) && state.escrows[refund.escrow].record.maker
            == refund.maker && state.escrows[refund.escrow].vault != refund.vault,
        refunded(state, refund) != Err::<ExchangeView, EscrowError>(EscrowError::InvalidAmount),
{
    if state.is_open(take.escrow) {
        assert(state.escrows[take.escrow].derived_at(take.escrow));
        assert(state.escrows[take.escrow].wf());
    }
    if state.is_open(refund.escrow) {
        assert(state.escrows[refund.escrow].derived_at(refund.escrow));
        assert(state.escrows[refund.escrow].wf());
    }
}

/// Atomicity and success: an operation either yields the next state or an
/// error, and it is granted exactly when none of its refusals applies. For
/// a take these are: the trade is open, the recomputed address and the
/// named holding account are the record's, the taker holds what the record
/// asks, and maker and destination can hold what they are to receive.
pub proof fn lemma_take_granted(state: ExchangeView, take: TakeView, signer: Option<Seq<u8>>)
    requires
        state.is_open(take.escrow),
        take.taker != state.escrows[take.escrow].record.maker,
        take.destination != state.escrows[take.escrow].record.maker,
        take.destination != take.taker || state.escrows[take.escrow].record.mint_a
            != state.escrows[take.escrow].record.mint_b,
    ensures
        taken_with(state, take, signer) is Ok <==> {
            let custody = state.escrows[take.escrow];
            &&& signer == Some(take.escrow)
            &&& custody.vault == take.vault
            &&& state.balance(take.taker, custody.record.mint_b) >= custody.record.receive
            &&& state.balance(custody.record.maker, custody.record.mint_b) + custody.record.receive
                <= u64::MAX
            &&& state.balance(take.destination, custody.record.mint_a) + custody.amount
                <= u64::MAX
        },
{
}

/// Exactly-once settlement: once a take or a refund of a trade is granted,
/// every further take or refund that names the same record is refused with
/// `RecordNotFound`, whatever is recomputed for it.
pub proof fn lemma_settles_once(
    state: ExchangeView,
    take: TakeView,
    refund: RefundView,
    signer: Option<Seq<u8>>,
    later_take: TakeView,
    later_refund: RefundView,
    later_signer: Option<Seq<u8>>,
)
    requires
        later_take.escrow == later_refund.escrow,
    ensures
        taken_with(state, take, signer) matches Ok(next) ==> take.escrow == later_take.escrow ==> {
            &&& !next.is_open(take.escrow)
            &&& taken_with(next, later_take, later_signer) == Err::<ExchangeView, EscrowError>(
                EscrowError::RecordNotFound,
            )
            &&& refunded_with(next, later_refund, later_signer) == Err::<
                ExchangeView,
                EscrowError,
            >(EscrowError::RecordNotFound)
            &&& taken(next, later_take) == Err::<ExchangeView, EscrowError>(
                EscrowError::RecordNotFound,
            )
            &&& refunded(next, later_refund) == Err::<ExchangeView, EscrowError>(
                EscrowError::RecordNotFound,
            )
        },
        refunded_with(state, refund, signer) matches Ok(next) ==> refund.escrow
            == later_take.escrow ==> {
            &&& !next.is_open(refund.escrow)
            &&& taken_with(next, later_take, later_signer) == Err::<ExchangeView, EscrowError>(
                EscrowError::RecordNotFound,
            )
            &&& refunded_with(next, later_refund, later_signer) == Err::<
                ExchangeView,
                EscrowError,
            >(EscrowError::RecordNotFound)
            &&& taken(next, later_take) == Err::<ExchangeView, EscrowError>(
                EscrowError::RecordNotFound,
            )
            &&& refunded(next, later_refund) == Err::<ExchangeView, EscrowError>(
                EscrowError::RecordNotFound,
            )
        },
{
}

/// Authorization: a refund is granted only to the maker that the record
/// stores. Any other caller is refused, whatever the state of the record
/// and whatever is recomputed for it: with `Unauthorized` where the trade
/// is open, with `RecordNotFound` where it is not.
pub proof fn lemma_only_maker_refunds(
    state: ExchangeView,
    refund: RefundView,
    signer: Option<Seq<u8>>,
)
    ensures
        refunded_with(state, refund, signer) is Ok ==> state.is_open(refund.escrow)
            && state.escrows[refund.escrow].record.maker == refund.maker,
        state.is_open(refund.escrow) && state.escrows[refund.escrow].record.maker != refund.maker
            ==> refunded_with(state, refund, signer) == Err::<ExchangeView, EscrowError>(
            EscrowError::Unauthorized,
        ),
        !state.is_open(refund.escrow) ==> refunded_with(state, refund, signer) == Err::<
            ExchangeView,
            EscrowError,
        >(EscrowError::RecordNotFound),
{
}

/// Custody is touched through its own trade only: an operation on one
/// record leaves every other open trade, with all it holds, as it was, and
/// opens or closes no other.
pub proof fn lemma_other_trades_untouched(
    state: ExchangeView,
    make: MakeView,
    derived: Option<DerivationView>,
    seed: u64,
    receive: u64,
    amount: u64,
    take: TakeView,
    refund: RefundView,
    signer: Option<Seq<u8>>,
    other: Seq<u8>,
)
    ensures
        made_with(state, make, derived, seed, receive, amount) matches Ok(next) ==> other
            != make.escrow ==> {
            &&& next.is_open(other) == state.is_open(other)
            &&& state.is_open(other) ==> next.escrows[other] == state.escrows[other]
        },
        taken_with(state, take, signer) matches Ok(next) ==> other != take.escrow ==> {
            &&& next.is_open(other) == state.is_open(other)
            &&& state.is_open(other) ==> next.escrows[other] == state.escrows[other]
        },
        refunded_with(state, refund, signer) matches Ok(next) ==> other != refund.escrow ==> {
            &&& next.is_open(other) == state.is_open(other)
            &&& state.is_open(other) ==> next.escrows[other] == state.escrows[other]
        },
{
}

/// The custody of a trade is what was deposited when it was opened: a
/// granted make leaves the record open with the named amounts, the maker
/// poorer by the deposit, and the holding account with the deposit.
pub proof fn lemma_make_opens(
    state: ExchangeView,
    make: MakeView,
    derived: Option<DerivationView>,
    seed: u64,
    receive: u64,
    amount: u64,
)
    ensures
        made_with(state, make, derived, seed, receive, amount) matches Ok(next) ==> {
            &&& amount > 0 && receive > 0
            &&& derived matches Some(d) && d.escrow == make.escrow && d.vault == make.vault
            &&& !state.is_open(make.escrow)
            &&& next.is_open(make.escrow)
            &&& next.held(make.escrow) == amount
            &&& next.escrows[make.escrow].vault == make.vault
            &&& next.escrows[make.escrow].record == make.record(seed, receive, derived->0.bump)
            &&& next.balance(make.maker, make.mint_a) == state.balance(make.maker, make.mint_a)
                - amount
        },
{
}

/// Conservation through a completed trade: across a make and the take of
/// the same record, with the custody released to the taker, what the maker,
/// the taker and the holding account hold together of the deposited asset
/// never changes; the taker ends with the deposit and nothing is left in
/// custody.
pub proof fn lemma_make_take_conserves(
    state: ExchangeView,
    make: MakeView,
    derived: Option<DerivationView>,
    seed: u64,
    receive: u64,
    amount: u64,
    take: TakeView,
    signer: Option<Seq<u8>>,
)
    requires
        take.escrow == make.escrow,
        take.destination == take.taker,
    ensures
        made_with(state, make, derived, seed, receive, amount) matches Ok(opened) ==> {
            &&& joint_holdings(opened, make.maker, take.taker, make.escrow, make.mint_a)
                == joint_holdings(state, make.maker, take.taker, make.escrow, make.mint_a)
            &&& taken_with(opened, take, signer) matches Ok(settled) ==> {
                &&& joint_holdings(settled, make.maker, take.taker, make.escrow, make.mint_a)
                    == joint_holdings(state, make.maker, take.taker, make.escrow, make.mint_a)
                &&& settled.held(make.escrow) == 0
                &&& !settled.is_open(make.escrow)
            }
        },
{
}

/// Conservation through a cancelled trade: across a make and the refund of
/// the same record the maker gets back exactly what was deposited, nobody's
/// balance differs from what it was, and what maker, any taker and the
/// holding account hold together never changes.
pub proof fn lemma_make_refund_restores(
    state: ExchangeView,
    make: MakeView,
    derived: Option<DerivationView>,
    seed: u64,
    receive: u64,
    amount: u64,
    refund: RefundView,
    signer: Option<Seq<u8>>,
    owner: Seq<u8>,
    mint: Seq<u8>,
)
    requires
        refund.escrow == make.escrow,
    ensures
        made_with(state, make, derived, seed, receive, amount) matches Ok(opened) ==> (
        refunded_with(opened, refund, signer) matches Ok(settled) ==> {
            &&& settled.balance(owner, mint) == state.balance(owner, mint)
            &&& settled.held(make.escrow) == 0
            &&& !settled.is_open(make.escrow)
            &&& settled.escrows == state.escrows
            &&& joint_holdings(settled, make.maker, owner, make.escrow, make.mint_a)
                == joint_holdings(opened, make.maker, owner, make.escrow, make.mint_a)
            &&& joint_holdings(settled, make.maker, owner, make.escrow, make.mint_a)
                == joint_holdings(state, make.maker, owner, make.escrow, make.mint_a)
        }),
{
    if let Ok(opened) = made_with(state, make, derived, seed, receive, amount) {
        if let Ok(settled) = refunded_with(opened, refund, signer) {
            assert(settled.escrows =~= state.escrows);
        }
    }
}

/// What a completed trade moves: the maker gains what the record asks of
/// the asked asset, and the destination gains all of the custody. Stated
/// for distinct parties and distinct assets, where no two of these balances
/// are the same balance.
pub proof fn lemma_take_settles(state: ExchangeView, take: TakeView, signer: Option<Seq<u8>>)
    requires
        state.is_open(take.escrow),
        take.taker != state.escrows[take.escrow].record.maker,
        take.destination != state.escrows[take.escrow].record.maker,
        state.escrows[take.escrow].record.mint_a != state.escrows[take.escrow].record.mint_b,
    ensures
        taken_with(state, take, signer) matches Ok(next) ==> {
            let custody = state.escrows[take.escrow];
            &&& next.balance(custody.record.maker, custody.record.mint_b) == state.balance(
                custody.record.maker,
                custody.record.mint_b,
            ) + custody.record.receive
            &&& next.balance(take.taker, custody.record.mint_b) == state.balance(
                take.taker,
                custody.record.mint_b,
            ) - custody.record.receive
            &&& next.balance(take.destination, custody.record.mint_a) == state.balance(
                take.destination,
                custody.record.mint_a,
            ) + custody.amount
            &&& next.balance(custody.record.maker, custody.record.mint_a) == state.balance(
                custody.record.maker,
                custody.record.mint_a,
            )
        },
{
}

/// Two open trades never share an address or a holding account, and where
/// they are kept at their derived addresses they never share a maker and
/// seed: one maker runs several trades only under distinct seeds.
pub proof fn lemma_open_trades_disjoint(state: ExchangeView, first: Seq<u8>, second: Seq<u8>)
    requires
        state.wf(),
        state.is_open(first),
        state.is_open(second),
        first != second,
    ensures
        state.escrows[first].vault != state.escrows[second].vault,
        state.derived() ==> state.escrows[first].record.maker != state.escrows[second].record.maker
            || state.escrows[first].record.seed != state.escrows[second].record.seed,
{
    if state.derived() {
        assert(state.escrows[first].derived_at(first));
        assert(state.escrows[second].derived_at(second));
    }
}

} // verus!
