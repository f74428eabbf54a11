use crate::escrow::errors::EscrowError;
use crate::escrow::exchange::Exchange;
use crate::escrow::instructions::make::{made, Make};
use crate::escrow::instructions::refund::{refunded, Refund};
use crate::escrow::instructions::take::{taken, Take};
use vstd::prelude::*;

pub mod custody;
pub mod errors;
pub mod exchange;
pub mod instructions;
pub mod laws;
pub mod state;

verus! {

/// Opens a trade: the maker names what it asks in return and pays the
/// deposit into custody. Either the record is open and funded afterwards,
/// or the exchange is as it was.
pub fn make(state: &mut Exchange, ctx: &Make, seed: u64, receive: u64, amount: u64) -> (done:
    Result<(), EscrowError>)
    requires
        old(state).wf(),
    ensures
        final(state).wf(),
        old(state)@.derived() ==> final(state)@.derived(),
        match made(old(state)@, ctx@, seed, receive, amount) {
            Ok(next) => done is Ok && final(state)@ == next,
            Err(e) => done == Err::<(), EscrowError>(e) && final(state)@ == old(state)@,
        },
        final(state).same_supply(*old(state)),
{
    instructions::make::handler(state, ctx, seed, receive, amount)
}

/// Completes a trade: the taker pays the maker and receives the custody.
/// Either both legs settle and the record is closed, or the exchange is as
/// it was.
pub fn take(state: &mut Exchange, ctx: &Take) -> (done: Result<(), EscrowError>)
    requires
        old(state).wf(),
    ensures
        final(state).wf(),
        old(state)@.derived() ==> final(state)@.derived(),
        match taken(old(state)@, ctx@) {
            Ok(next) => done is Ok && final(state)@ == next,
            Err(e) => done == Err::<(), EscrowError>(e) && final(state)@ == old(state)@,
        },
        final(state).same_supply(*old(state)),
{
    instructions::take::handler(state, ctx)
}

/// Cancels a trade: the maker, and nobody else, gets the custody back.
/// Either the custody is returned and the record is closed, or the
/// exchange is as it was.
pub fn refund(state: &mut Exchange, ctx: &Refund) -> (done: Result<(), EscrowError>)
    requires
        old(state).wf(),
    ensures
        final(state).wf(),
        old(state)@.derived() ==> final(state)@.derived(),
        match refunded(old(state)@, ctx@) {
            Ok(next) => done is Ok && final(state)@ == next,
            Err(e) => done == Err::<(), EscrowError>(e) && final(state)@ == old(state)@,
        },
        final(state).same_supply(*old(state)),
{
    instructions::refund::handler(state, ctx)
}

} // verus!
