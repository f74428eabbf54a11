use crate::address::Address;
use crate::escrow::custody::{derivation, derived_view, Derivation, DerivationView};
use crate::escrow::errors::EscrowError;
use crate::escrow::exchange::{
    refusal, refuse, vault_in_use, Custody, CustodyView, Exchange, ExchangeView,
};
use crate::escrow::state::{Escrow, EscrowView};
use crate::ledger::debited;
use vstd::prelude::*;

verus! {

/// The parties and accounts of a request to open a trade.
#[derive(Clone, Copy, Debug, PartialEq, Eq)]
pub struct Make {
    /// The party that opens the trade and pays the deposit.
    pub maker: Address,
    /// Where the record is to live.
    pub escrow: Address,
    /// The asset the maker deposits.
    pub mint_a: Address,
    /// The asset the maker asks in return.
    pub mint_b: Address,
    /// Where the deposit is to be held.
    pub vault: Address,
}

/// A `Make` with its identities as byte sequences.
pub struct MakeView {
    pub maker: Seq<u8>,
    pub escrow: Seq<u8>,
    pub mint_a: Seq<u8>,
    pub mint_b: Seq<u8>,
    pub vault: Seq<u8>,
}

impl View for Make {
    type V = MakeView;

    open spec fn view(&self) -> MakeView {
        MakeView {
            maker: self.maker@,
            escrow: self.escrow@,
            mint_a: self.mint_a@,
            mint_b: self.mint_b@,
            vault: self.vault@,
        }
    }
}

impl MakeView {
    /// The bump of the record address, where `derived` holds the named
    /// record and holding addresses.
    pub open spec fn bump(self, derived: Option<DerivationView>) -> Option<u8> {
        match derived {
            Some(d) => if d.escrow == self.escrow && d.vault == self.vault {
                Some(d.bump)
            } else {
                None
            },
            None => None,
        }
    }

    /// The record that the request writes.
    pub open spec fn record(self, seed: u64, receive: u64, bump: u8) -> EscrowView {
        EscrowView {
            seed,
            maker: self.maker,
            mint_a: self.mint_a,
            mint_b: self.mint_b,
            receive,
            bump,
        }
    }
}

/// The exchange after the record and an empty holding account are
/// allocated at the named addresses; `AddressInUse` where either address is
/// taken.
pub open spec fn populated(
    state: ExchangeView,
    ctx: MakeView,
    seed: u64,
    receive: u64,
    bump: u8,
) -> Result<ExchangeView, EscrowError> {
    if state.is_open(ctx.escrow) || vault_in_use(state.escrows, ctx.vault) {
        Err(EscrowError::AddressInUse)
    } else {
        Ok(
            ExchangeView {
                balances: state.balances,
                escrows: state.escrows.insert(
                    ctx.escrow,
                    CustodyView { record: ctx.record(seed, receive, bump), vault: ctx.vault, amount: 0 },
                ),
            },
        )
    }
}

/// The exchange after `amount` of the deposited asset moves from the maker
/// into the holding account of the record at the named address.
pub open spec fn deposited(state: ExchangeView, ctx: MakeView, amount: u64) -> Result<
    ExchangeView,
    EscrowError,
> {
    if !state.is_open(ctx.escrow) {
        Err(EscrowError::RecordNotFound)
    } else {
        match debited(state.balances, ctx.maker, ctx.mint_a, amount) {
            Err(e) => Err(refusal(e)),
            Ok(paid) => if state.held(ctx.escrow) + amount > u64::MAX {
                Err(EscrowError::Overflow)
            } else {
                Ok(
                    ExchangeView {
                        balances: paid,
                        escrows: state.escrows.insert(
                            ctx.escrow,
                            CustodyView {
                                amount: (state.held(ctx.escrow) + amount) as u64,
                                ..state.escrows[ctx.escrow]
                            },
                        ),
                    },
                )
            },
        }
    }
}

/// What opening a trade does to the exchange, given what was derived from
/// the maker and `seed`. It is refused, in this order: with `InvalidAmount`
/// where either amount is zero; with `DerivationMismatch` where nothing was
/// derived or the named addresses are not the derived ones; with
/// `AddressInUse` where a trade is open under the record address or a
/// custody is kept at the holding address; with `InsufficientFunds` where
/// the maker holds less than `amount` of `mint_a`. Otherwise the maker pays
/// `amount`, and the record is open with `amount` in custody.
pub open spec fn made_with(
    state: ExchangeView,
    ctx: MakeView,
    derived: Option<DerivationView>,
    seed: u64,
    receive: u64,
    amount: u64,
) -> Result<ExchangeView, EscrowError> {
    if amount == 0 || receive == 0 {
        Err(EscrowError::InvalidAmount)
    } else if ctx.bump(derived) is None {
        Err(EscrowError::DerivationMismatch)
    } else if state.is_open(ctx.escrow) || vault_in_use(state.escrows, ctx.vault) {
        Err(EscrowError::AddressInUse)
    } else if state.balance(ctx.maker, ctx.mint_a) < amount {
        Err(EscrowError::InsufficientFunds)
    } else {
        Ok(
            ExchangeView {
                balances: state.balances.insert(
                    (ctx.maker, ctx.mint_a),
                    (state.balance(ctx.maker, ctx.mint_a) - amount) as u64,
                ),
                escrows: state.escrows.insert(
                    ctx.escrow,
                    CustodyView {
                        record: ctx.record(seed, receive, ctx.bump(derived)->0),
                        vault: ctx.vault,
                        amount,
                    },
                ),
            },
        )
    }
}

/// What opening a trade does to the exchange: what `made_with` says for
/// the addresses and bump derived from the maker and `seed`.
pub open spec fn made(
    state: ExchangeView,
    ctx: MakeView,
    seed: u64,
    receive: u64,
    amount: u64,
) -> Result<ExchangeView, EscrowError> {
    made_with(state, ctx, derivation(ctx.maker, seed), seed, receive, amount)
}

impl Make {
    /// Allocates the record and its empty holding account at the named
    /// addresses and writes the record; `amount` is what the maker asks in
    /// return.
    pub(crate) fn populate_escrow(
        &self,
        state: &mut Exchange,
        seed: u64,
        amount: u64,
        bump: u8,
    ) -> (done: Result<(), EscrowError>)
        requires
            old(state).inv(),
        ensures
            final(state).inv(),
            match populated(old(state)@, self@, seed, amount, bump) {
                Ok(next) => done is Ok && final(state)@ == next,
                Err(e) => done == Err::<(), EscrowError>(e) && final(state)@ == old(state)@,
            },
            final(state).same_supply(*old(state)),
    {
        if state.custody(&self.escrow).is_some() || state.holds_vault(&self.vault) {
            return Err(EscrowError::AddressInUse);
        }
        state.open(
            Custody {
                escrow: self.escrow,
                record: Escrow {
                    seed,
                    maker: self.maker,
                    mint_a: self.mint_a,
                    mint_b: self.mint_b,
                    receive: amount,
                    bump,
                },
                vault: self.vault,
                amount: 0,
            },
        );
        Ok(())
    }

    /// Moves `amount` of the deposited asset from the maker into the
    /// holding account.
    pub(crate) fn deposit_tokens(&self, state: &mut Exchange, amount: u64) -> (done: Result<
        (),
        EscrowError,
    >)
        requires
            old(state).inv(),
        ensures
            final(state).inv(),
            match deposited(old(state)@, self@, amount) {
                Ok(next) => done is Ok && final(state)@ == next,
                Err(e) => done == Err::<(), EscrowError>(e) && final(state)@ == old(state)@,
            },
            old(state)@.is_open(self.escrow@) && old(state)@.escrows[self.escrow@].record.mint_a
                == self.mint_a@ ==> final(state).same_supply(*old(state)),
    {
        let held = match state.custody(&self.escrow) {
            None => {
                return Err(EscrowError::RecordNotFound);
            },
            Some(custody) => custody.amount,
        };
        let total = match held.checked_add(amount) {
            None => {
                // The debit is judged first: a maker who cannot pay is told so.
                let funds = state.balance_of_party(&self.maker, &self.mint_a);
                if funds < amount {
                    return Err(EscrowError::InsufficientFunds);
                }
                return Err(EscrowError::Overflow);
            },
            Some(total) => total,
        };
        match state.debit(&self.maker, &self.mint_a, amount) {
            Err(e) => {
                return Err(refuse(e));
            },
            Ok(()) => {},
        }
        state.hold(&self.escrow, total);
        Ok(())
    }
}

/// Opens a trade at addresses that the caller has derived: validates the
/// amounts and the named addresses against `derived`, writes the record,
/// and moves the deposit into custody. All of it happens, or none of it.
pub fn open_at(
    state: &mut Exchange,
    ctx: &Make,
    derived: Option<Derivation>,
    seed: u64,
    receive: u64,
    amount: u64,
) -> (done: Result<(), EscrowError>)
    requires
        old(state).wf(),
    ensures
        final(state).wf(),
        match made_with(old(state)@, ctx@, derived_view(derived), seed, receive, amount) {
            Ok(next) => done is Ok && final(state)@ == next,
            Err(e) => done == Err::<(), EscrowError>(e) && final(state)@ == old(state)@,
        },
        final(state).same_supply(*old(state)),
{
    if amount == 0 || receive == 0 {
        return Err(EscrowError::InvalidAmount);
    }
    let bump = match derived {
        None => {
            return Err(EscrowError::DerivationMismatch);
        },
        Some(d) => {
            if !(d.escrow == ctx.escrow && d.vault == ctx.vault) {
                return Err(EscrowError::DerivationMismatch);
            }
            d.bump
        },
    };
    let mut staged = state.copy();
    match ctx.populate_escrow(&mut staged, seed, receive, bump) {
        Err(e) => {
            return Err(e);
        },
        Ok(()) => {},
    }
    match ctx.deposit_tokens(&mut staged, amount) {
        Err(e) => {
            return Err(e);
        },
        Ok(()) => {},
    }
    proof {
        let before = old(state)@;
        let after = staged@;
        let expected = made_with(before, ctx@, derived_view(derived), seed, receive, amount)->Ok_0;
        assert(after.escrows =~= expected.escrows);
        assert(after == expected);
        lemma_make_keeps_wf(before, ctx@, derived_view(derived), seed, receive, amount);
    }
    *state = staged;
    Ok(())
}

/// A granted make leaves a well-formed exchange well formed.
pub proof fn lemma_make_keeps_wf(
    state: ExchangeView,
    ctx: MakeView,
    derived: Option<DerivationView>,
    seed: u64,
    receive: u64,
    amount: u64,
)
    requires
        state.wf(),
    ensures
        made_with(state, ctx, derived, seed, receive, amount) matches Ok(next) ==> next.wf(),
{
    if let Ok(next) = made_with(state, ctx, derived, seed, receive, amount) {
        assert forall|escrow: Seq<u8>| next.escrows.dom().contains(escrow) implies (
        #[trigger] next.escrows[escrow]).wf() by {
            if escrow != ctx.escrow {
                assert(state.escrows[escrow].wf());
            }
        }
        assert forall|a: Seq<u8>, b: Seq<u8>|
            next.escrows.dom().contains(a) && next.escrows.dom().contains(b) && (
            #[trigger] next.escrows[a]).vault == (#[trigger] next.escrows[b]).vault implies a
            == b by {
            if a != ctx.escrow && b != ctx.escrow {
                assert(state.escrows[a].vault == state.escrows[b].vault);
            } else if a != ctx.escrow {
                assert(state.escrows.dom().contains(a) && state.escrows[a].vault == ctx.vault);
            } else if b != ctx.escrow {
                assert(state.escrows.dom().contains(b) && state.escrows[b].vault == ctx.vault);
            }
        }
    }
}

/// A granted make that derives the addresses itself keeps every open trade
/// where its maker and seed place it.
pub proof fn lemma_make_keeps_derived(
    state: ExchangeView,
    ctx: MakeView,
    seed: u64,
    receive: u64,
    amount: u64,
)
    requires
        state.derived(),
    ensures
        made(state, ctx, seed, receive, amount) matches Ok(next) ==> next.derived(),
{
    if let Ok(next) = made(state, ctx, seed, receive, amount) {
        assert forall|escrow: Seq<u8>| next.escrows.dom().contains(escrow) implies (
        #[trigger] next.escrows[escrow]).derived_at(escrow) by {
            if escrow != ctx.escrow {
                assert(state.escrows[escrow].derived_at(escrow));
            }
        }
    }
}

/// Opens a trade: derives the addresses of the maker's trade under `seed`,
/// validates the amounts and the named addresses, writes the record, and
/// moves the deposit into custody. All of it happens, or none of it.
pub fn handler(state: &mut Exchange, ctx: &Make, seed: u64, receive: u64, amount: u64) -> (done:
    Result<(), EscrowError>)
    requires
        old(state).wf(),
    ensures
        final(state).wf(),
        old(state)@.derived() ==> final(state)@.derived(),
        match made(old(state)@, ctx@, seed, receive, amount) {
            Ok(next) => done is Ok && final(state)@ == next,
            Err(e) => done == Err::<(), EscrowError>(e) && final(state)@ == old(state)@,
        },
        final(state).same_supply(*old(state)),
{
    let derived = crate::escrow::custody::derive(&ctx.maker, seed);
    proof {
        if old(state)@.derived() {
            lemma_make_keeps_derived(old(state)@, ctx@, seed, receive, amount);
        }
    }
    open_at(state, ctx, derived, seed, receive, amount)
}

} // verus!
