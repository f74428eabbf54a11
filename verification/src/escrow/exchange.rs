use crate::address::{optional, Address};
use crate::escrow::custody::{derivation, signer_address, DerivationView};
use crate::escrow::errors::EscrowError;
use crate::escrow::state::{Escrow, EscrowView};
use crate::ledger::{balance_in, credited, debited, transferred, Balances, Ledger, TransferError};
use vstd::prelude::*;

verus! {

/// One open trade in custody: its record, where the record lives, and the
/// holding account with what it holds of the record's `mint_a`.
#[derive(Clone, Copy, Debug, PartialEq, Eq)]
pub struct Custody {
    /// The address of the record.
    pub escrow: Address,
    /// The record.
    pub record: Escrow,
    /// The address of the holding account.
    pub vault: Address,
    /// What the holding account holds.
    pub amount: u64,
}

/// What the exchange keeps under a record's address.
pub struct CustodyView {
    pub record: EscrowView,
    pub vault: Seq<u8>,
    pub amount: u64,
}

impl View for Custody {
    type V = CustodyView;

    open spec fn view(&self) -> CustodyView {
        CustodyView { record: self.record@, vault: self.vault@, amount: self.amount }
    }
}

impl CustodyView {
    /// What holds of every open trade: something is held in custody, and
    /// something is asked for it.
    pub open spec fn wf(self) -> bool {
        &&& self.amount > 0
        &&& self.record.receive > 0
    }

    /// The trade is kept where its maker and seed place it: `escrow`, the
    /// holding address and the stored bump are the ones derived from them.
    pub open spec fn derived_at(self, escrow: Seq<u8>) -> bool {
        derivation(self.record.maker, self.record.seed) == Some(
            DerivationView { escrow, vault: self.vault, bump: self.record.bump },
        )
    }

    /// The custody may be released for a caller that names `escrow` and
    /// `vault`: `signer`, the address recomputed from the stored seeds and
    /// bump, is `escrow`, and `vault` is the holding account kept with the
    /// record.
    pub open spec fn authorizes(
        self,
        signer: Option<Seq<u8>>,
        escrow: Seq<u8>,
        vault: Seq<u8>,
    ) -> bool {
        &&& signer == Some(escrow)
        &&& self.vault == vault
    }
}

impl Custody {
    spec fn key(self) -> Seq<u8> {
        self.escrow@
    }

    /// Whether the custody may be released for a caller that names `escrow`
    /// and `vault`, given the address recomputed from the stored seeds and
    /// bump.
    pub fn authorizes(&self, signer: &Option<Address>, escrow: &Address, vault: &Address) -> (granted:
        bool)
        ensures
            granted == self@.authorizes(optional(*signer), escrow@, vault@),
    {
        match signer {
            Some(address) => *address == *escrow && self.vault == *vault,
            None => false,
        }
    }
}

/// The open trades, by the address of their record.
pub type Custodies = Map<Seq<u8>, CustodyView>;

/// Some open trade keeps its custody at `vault`.
pub open spec fn vault_in_use(escrows: Custodies, vault: Seq<u8>) -> bool {
    exists|escrow: Seq<u8>| escrows.dom().contains(escrow) && (#[trigger] escrows[escrow]).vault == vault
}

/// The state of the exchange: what every party holds, and every open trade.
pub struct ExchangeView {
    pub balances: Balances,
    pub escrows: Custodies,
}

impl ExchangeView {
    /// Every open trade is well formed, and no two of them share a holding
    /// account.
    pub open spec fn wf(self) -> bool {
        &&& forall|escrow: Seq<u8>|
            self.escrows.dom().contains(escrow) ==> (#[trigger] self.escrows[escrow]).wf()
        &&& forall|a: Seq<u8>, b: Seq<u8>|
            self.escrows.dom().contains(a) && self.escrows.dom().contains(b) && (
            #[trigger] self.escrows[a]).vault == (#[trigger] self.escrows[b]).vault ==> a == b
    }

    /// Every open trade is kept where its maker and seed place it. This
    /// holds of a new exchange, and every operation that derives the
    /// addresses itself keeps it.
    pub open spec fn derived(self) -> bool {
        forall|escrow: Seq<u8>|
            self.escrows.dom().contains(escrow) ==> (#[trigger] self.escrows[escrow]).derived_at(
                escrow,
            )
    }

    /// The address recomputed from the seeds and bump that the record under
    /// `escrow` stores; nothing where no trade is open there.
    pub open spec fn signer(self, escrow: Seq<u8>) -> Option<Seq<u8>> {
        if self.escrows.dom().contains(escrow) {
            signer_address(
                self.escrows[escrow].record.maker,
                self.escrows[escrow].record.seed,
                self.escrows[escrow].record.bump,
            )
        } else {
            None
        }
    }

    /// What `owner` holds of `mint`.
    pub open spec fn balance(self, owner: Seq<u8>, mint: Seq<u8>) -> u64 {
        balance_in(self.balances, owner, mint)
    }

    /// A trade is open under `escrow`.
    pub open spec fn is_open(self, escrow: Seq<u8>) -> bool {
        self.escrows.dom().contains(escrow)
    }

    /// What the holding account of the trade under `escrow` holds; nothing
    /// where no such trade is open.
    pub open spec fn held(self, escrow: Seq<u8>) -> u64 {
        if self.escrows.dom().contains(escrow) {
            self.escrows[escrow].amount
        } else {
            0
        }
    }
}

/// The error an escrow operation reports for a refused movement of funds.
pub open spec fn refusal(e: TransferError) -> EscrowError {
    match e {
        TransferError::InsufficientFunds => EscrowError::InsufficientFunds,
        TransferError::Overflow => EscrowError::Overflow,
    }
}

/// The error an escrow operation reports for a refused movement of funds.
pub fn refuse(e: TransferError) -> (error: EscrowError)
    ensures
        error == refusal(e),
{
    match e {
        TransferError::InsufficientFunds => EscrowError::InsufficientFunds,
        TransferError::Overflow => EscrowError::Overflow,
    }
}

/// No two custodies of the sequence are kept under the same address.
spec fn distinct_custodies(custodies: Seq<Custody>) -> bool {
    forall|i: int, j: int|
        0 <= i < custodies.len() && 0 <= j < custodies.len() && i != j
            ==> #[trigger] custodies[i].key() != #[trigger] custodies[j].key()
}

/// Some custody of the sequence is kept under `escrow`.
spec fn has_custody(custodies: Seq<Custody>, escrow: Seq<u8>) -> bool {
    exists|i: int| 0 <= i < custodies.len() && #[trigger] custodies[i].key() == escrow
}

/// The place of a custody kept under `escrow`.
spec fn custody_slot(custodies: Seq<Custody>, escrow: Seq<u8>) -> int {
    choose|i: int| 0 <= i < custodies.len() && #[trigger] custodies[i].key() == escrow
}

/// The open trades that a sequence of custodies stands for.
spec fn custodies_of(custodies: Seq<Custody>) -> Custodies {
    Map::new(
        |escrow: Seq<u8>| has_custody(custodies, escrow),
        |escrow: Seq<u8>| custodies[custody_slot(custodies, escrow)]@,
    )
}

proof fn lemma_custody_slot(custodies: Seq<Custody>, i: int)
    requires
        distinct_custodies(custodies),
        0 <= i < custodies.len(),
    ensures
        has_custody(custodies, custodies[i].key()),
        custody_slot(custodies, custodies[i].key()) == i,
        custodies_of(custodies).dom().contains(custodies[i].key()),
        custodies_of(custodies)[custodies[i].key()] == custodies[i]@,
{
    let key = custodies[i].key();
    assert(has_custody(custodies, key));
    let j = custody_slot(custodies, key);
    assert(0 <= j < custodies.len() && custodies[j].key() == key);
}

proof fn lemma_custody_set(custodies: Seq<Custody>, i: int, amount: u64)
    requires
        distinct_custodies(custodies),
        0 <= i < custodies.len(),
    ensures
        distinct_custodies(custodies.update(i, Custody { amount, ..custodies[i] })),
        custodies_of(custodies.update(i, Custody { amount, ..custodies[i] })) == custodies_of(
            custodies,
        ).insert(custodies[i].key(), Custody { amount, ..custodies[i] }@),
{
    let next = custodies.update(i, Custody { amount, ..custodies[i] });
    assert forall|j: int| 0 <= j < custodies.len() implies #[trigger] next[j].key()
        == custodies[j].key() by {}
    assert(distinct_custodies(next));
    let expected = custodies_of(custodies).insert(
        custodies[i].key(),
        Custody { amount, ..custodies[i] }@,
    );
    assert forall|key: Seq<u8>| has_custody(next, key) == has_custody(custodies, key) by {
        if has_custody(next, key) {
            let j = custody_slot(next, key);
            assert(custodies[j].key() == key);
        }
        if has_custody(custodies, key) {
            let j = custody_slot(custodies, key);
            assert(next[j].key() == key);
        }
    }
    assert forall|key: Seq<u8>| #[trigger] expected.dom().contains(key) implies custodies_of(
        next,
    )[key] == expected[key] by {
        let j = custody_slot(next, key);
        assert(has_custody(next, key));
        assert(0 <= j < next.len() && next[j].key() == key);
        lemma_custody_slot(custodies, j);
        if key == custodies[i].key() {
            assert(j == i);
        } else {
            assert(j != i);
        }
    }
    assert(custodies_of(next) =~= expected);
}

proof fn lemma_custody_push(custodies: Seq<Custody>, custody: Custody)
    requires
        distinct_custodies(custodies),
        !has_custody(custodies, custody.key()),
    ensures
        distinct_custodies(custodies.push(custody)),
        custodies_of(custodies.push(custody)) == custodies_of(custodies).insert(
            custody.key(),
            custody@,
        ),
{
    let next = custodies.push(custody);
    assert forall|i: int, j: int|
        0 <= i < next.len() && 0 <= j < next.len() && i != j implies #[trigger] next[i].key()
        != #[trigger] next[j].key() by {
        if i < custodies.len() && j < custodies.len() {
            assert(custodies[i].key() != custodies[j].key());
        } else if i < custodies.len() {
            assert(custodies[i].key() == next[i].key());
        } else {
            assert(custodies[j].key() == next[j].key());
        }
    }
    let expected = custodies_of(custodies).insert(custody.key(), custody@);
    assert forall|key: Seq<u8>|
        has_custody(next, key) == (has_custody(custodies, key) || key == custody.key()) by {
        if has_custody(next, key) {
            let j = custody_slot(next, key);
            if j < custodies.len() {
                assert(custodies[j].key() == key);
            }
        }
        if has_custody(custodies, key) {
            let j = custody_slot(custodies, key);
            assert(next[j].key() == key);
        }
        if key == custody.key() {
            assert(next[custodies.len() as int].key() == key);
        }
    }
    assert forall|key: Seq<u8>| #[trigger] expected.dom().contains(key) implies custodies_of(
        next,
    )[key] == expected[key] by {
        let j = custody_slot(next, key);
        assert(has_custody(next, key));
        assert(0 <= j < next.len() && next[j].key() == key);
        lemma_custody_slot(next, j);
        if key == custody.key() {
            assert(next[custodies.len() as int].key() == key);
            assert(j == custodies.len());
        } else {
            assert(j < custodies.len());
            assert(custodies[j].key() == key);
            lemma_custody_slot(custodies, j);
        }
    }
    assert(custodies_of(next) =~= expected);
}

proof fn lemma_custody_remove(custodies: Seq<Custody>, i: int)
    requires
        distinct_custodies(custodies),
        0 <= i < custodies.len(),
    ensures
        distinct_custodies(custodies.remove(i)),
        custodies_of(custodies.remove(i)) == custodies_of(custodies).remove(custodies[i].key()),
{
    let next = custodies.remove(i);
    assert forall|j: int| 0 <= j < next.len() implies #[trigger] next[j].key() == custodies[if j
        < i {
        j
    } else {
        j + 1
    }].key() by {}
    assert forall|a: int, b: int|
        0 <= a < next.len() && 0 <= b < next.len() && a != b implies #[trigger] next[a].key()
        != #[trigger] next[b].key() by {
        let a0 = if a < i { a } else { a + 1 };
        let b0 = if b < i { b } else { b + 1 };
        assert(custodies[a0].key() != custodies[b0].key());
    }
    let expected = custodies_of(custodies).remove(custodies[i].key());
    assert forall|key: Seq<u8>|
        has_custody(next, key) == (has_custody(custodies, key) && key != custodies[i].key()) by {
        if has_custody(next, key) {
            let j = custody_slot(next, key);
            let j0 = if j < i { j } else { j + 1 };
            assert(custodies[j0].key() == key);
            assert(custodies[j0].key() != custodies[i].key());
        }
        if has_custody(custodies, key) && key != custodies[i].key() {
            let j = custody_slot(custodies, key);
            assert(j != i);
            let j1 = if j < i { j } else { j - 1 };
            assert(next[j1].key() == key);
        }
    }
    assert forall|key: Seq<u8>| #[trigger] expected.dom().contains(key) implies custodies_of(
        next,
    )[key] == expected[key] by {
        let j = custody_slot(next, key);
        assert(has_custody(next, key));
        assert(0 <= j < next.len() && next[j].key() == key);
        let j0 = if j < i { j } else { j + 1 };
        assert(custodies[j0].key() == key);
        lemma_custody_slot(custodies, j0);
    }
    assert(custodies_of(next) =~= expected);
}

proof fn lemma_vault_in_use(custodies: Seq<Custody>, vault: Seq<u8>)
    requires
        distinct_custodies(custodies),
    ensures
        vault_in_use(custodies_of(custodies), vault) <==> exists|i: int|
            0 <= i < custodies.len() && (#[trigger] custodies[i]).vault@ == vault,
{
    let escrows = custodies_of(custodies);
    if vault_in_use(escrows, vault) {
        let escrow = choose|escrow: Seq<u8>|
            escrows.dom().contains(escrow) && (#[trigger] escrows[escrow]).vault == vault;
        let i = custody_slot(custodies, escrow);
        assert(has_custody(custodies, escrow));
        assert(custodies[i].vault@ == vault);
    }
    if exists|i: int| 0 <= i < custodies.len() && (#[trigger] custodies[i]).vault@ == vault {
        let i = choose|i: int| 0 <= i < custodies.len() && (#[trigger] custodies[i]).vault@ == vault;
        lemma_custody_slot(custodies, i);
        assert(escrows[custodies[i].key()].vault == vault);
    }
}

/// What a custody adds to what exists of `mint`.
spec fn kept(custody: Custody, mint: Seq<u8>) -> nat {
    if custody.record.mint_a@ == mint {
        custody.amount as nat
    } else {
        0
    }
}

/// What the custodies hold of `mint` together.
spec fn kept_sum(custodies: Seq<Custody>, mint: Seq<u8>) -> nat
    decreases custodies.len(),
{
    if custodies.len() == 0 {
        0
    } else {
        kept_sum(custodies.drop_last(), mint) + kept(custodies.last(), mint)
    }
}

proof fn lemma_kept_push(custodies: Seq<Custody>, custody: Custody, mint: Seq<u8>)
    ensures
        kept_sum(custodies.push(custody), mint) == kept_sum(custodies, mint) + kept(custody, mint),
{
    assert(custodies.push(custody).drop_last() =~= custodies);
}

proof fn lemma_kept_update(custodies: Seq<Custody>, i: int, custody: Custody, mint: Seq<u8>)
    requires
        0 <= i < custodies.len(),
    ensures
        kept_sum(custodies.update(i, custody), mint) + kept(custodies[i], mint) == kept_sum(
            custodies,
            mint,
        ) + kept(custody, mint),
    decreases custodies.len(),
{
    let next = custodies.update(i, custody);
    if i == custodies.len() - 1 {
        assert(next.drop_last() =~= custodies.drop_last());
    } else {
        assert(next.drop_last() =~= custodies.drop_last().update(i, custody));
        lemma_kept_update(custodies.drop_last(), i, custody, mint);
    }
}

proof fn lemma_kept_remove(custodies: Seq<Custody>, i: int, mint: Seq<u8>)
    requires
        0 <= i < custodies.len(),
    ensures
        kept_sum(custodies.remove(i), mint) + kept(custodies[i], mint) == kept_sum(custodies, mint),
    decreases custodies.len(),
{
    let next = custodies.remove(i);
    if i == custodies.len() - 1 {
        assert(next =~= custodies.drop_last());
    } else {
        assert(next.drop_last() =~= custodies.drop_last().remove(i));
        assert(next.last() == custodies.last());
        lemma_kept_remove(custodies.drop_last(), i, mint);
    }
}

proof fn lemma_kept_covers(custodies: Seq<Custody>, i: int, mint: Seq<u8>)
    requires
        0 <= i < custodies.len(),
    ensures
        kept_sum(custodies, mint) >= kept(custodies[i], mint),
    decreases custodies.len(),
{
    if i < custodies.len() - 1 {
        lemma_kept_covers(custodies.drop_last(), i, mint);
    }
}

/// The exchange: the balances of all parties and the open trades with
/// their custody.
pub struct Exchange {
    ledger: Ledger,
    custodies: Vec<Custody>,
}

impl View for Exchange {
    type V = ExchangeView;

    closed spec fn view(&self) -> ExchangeView {
        ExchangeView { balances: self.ledger@, escrows: custodies_of(self.custodies@) }
    }
}

impl Exchange {
    /// The stored form is sound: one wallet per owner and asset, one
    /// custody per record address.
    pub closed spec fn inv(&self) -> bool {
        &&& self.ledger.wf()
        &&& distinct_custodies(self.custodies@)
    }

    /// The stored form is sound and every open trade is well formed.
    pub open spec fn wf(&self) -> bool {
        &&& self.inv()
        &&& self@.wf()
    }

    /// All that exists of `mint`: what every party holds of it, and what
    /// every holding account holds of it.
    pub closed spec fn supply(&self, mint: Seq<u8>) -> nat {
        self.ledger.supply(mint) + kept_sum(self.custodies@, mint)
    }

    /// The two exchanges hold as much of every asset: between them value
    /// has moved, and none was made or lost.
    pub open spec fn same_supply(self, other: Exchange) -> bool {
        forall|mint: Seq<u8>| #[trigger] self.supply(mint) == other.supply(mint)
    }

    /// This exchange holds `amount` more of `mint` than the other, and as
    /// much of every other asset.
    pub open spec fn supply_grown(self, other: Exchange, mint: Seq<u8>, amount: int) -> bool {
        forall|asset: Seq<u8>| #[trigger]
            self.supply(asset) == other.supply(asset) + (if asset == mint {
                amount
            } else {
                0
            })
    }

    /// Nothing is counted twice and nothing is left out: a party's balance
    /// and the custody of an open trade in the same asset are both part of
    /// what exists of it.
    pub proof fn lemma_supply_covers(&self, owner: Seq<u8>, escrow: Seq<u8>, mint: Seq<u8>)
        requires
            self.inv(),
        ensures
            self@.balance(owner, mint) + (if self@.is_open(escrow)
                && self@.escrows[escrow].record.mint_a == mint {
                self@.held(escrow) as int
            } else {
                0
            }) <= self.supply(mint),
    {
        self.ledger.lemma_supply_covers(owner, mint);
        if has_custody(self.custodies@, escrow) {
            let i = custody_slot(self.custodies@, escrow);
            lemma_custody_slot(self.custodies@, i);
            lemma_kept_covers(self.custodies@, i, mint);
        }
    }

    /// An exchange without balances and without open trades.
    pub fn new() -> (exchange: Exchange)
        ensures
            exchange.wf(),
            exchange@.derived(),
            exchange@.balances == Map::<(Seq<u8>, Seq<u8>), u64>::empty(),
            exchange@.escrows == Map::<Seq<u8>, CustodyView>::empty(),
            forall|mint: Seq<u8>| #[trigger] exchange.supply(mint) == 0,
    {
        let exchange = Exchange { ledger: Ledger::new(), custodies: Vec::new() };
        assert(exchange@.escrows =~= Map::<Seq<u8>, CustodyView>::empty());
        exchange
    }

    /// What `owner` holds of `mint`.
    pub fn balance_of(&self, owner: &Address, mint: &Address) -> (amount: u64)
        requires
            self.wf(),
        ensures
            amount == self@.balance(owner@, mint@),
    {
        self.ledger.balance_of(owner, mint)
    }

    /// Gives `amount` of `mint` to `owner` from outside the exchange, or
    /// refuses with `Overflow` and changes nothing.
    pub fn fund(&mut self, owner: &Address, mint: &Address, amount: u64) -> (done: Result<
        (),
        EscrowError,
    >)
        requires
            old(self).wf(),
        ensures
            final(self).wf(),
            final(self)@.escrows == old(self)@.escrows,
            match credited(old(self)@.balances, owner@, mint@, amount) {
                Ok(next) => done is Ok && final(self)@.balances == next,
                Err(e) => done == Err::<(), EscrowError>(EscrowError::Overflow) && final(self)@
                    == old(self)@,
            },
            final(self).supply_grown(*old(self), mint@, if done is Ok { amount as int } else { 0 }),
    {
        let done = self.ledger.credit(owner, mint, amount);
        assert(final(self)@.escrows == old(self)@.escrows);
        match done {
            Ok(()) => Ok(()),
            Err(_) => Err(EscrowError::Overflow),
        }
    }

    fn slot(&self, escrow: &Address) -> (found: Option<usize>)
        requires
            self.inv(),
        ensures
            match found {
                Some(i) => i < self.custodies@.len() && self.custodies@[i as int].key() == escrow@,
                None => !has_custody(self.custodies@, escrow@),
            },
    {
        let mut i: usize = 0;
        while i < self.custodies.len()
            invariant
                i <= self.custodies@.len(),
                forall|j: int| 0 <= j < i ==> #[trigger] self.custodies@[j].key() != escrow@,
            decreases self.custodies@.len() - i,
        {
            if self.custodies[i].escrow == *escrow {
                return Some(i);
            }
            i += 1;
        }
        None
    }

    /// The open trade under `escrow`, if there is one.
    pub fn custody(&self, escrow: &Address) -> (found: Option<Custody>)
        requires
            self.inv(),
        ensures
            match found {
                Some(c) => self@.escrows.dom().contains(escrow@) && self@.escrows[escrow@] == c@
                    && c.escrow@ == escrow@,
                None => !self@.escrows.dom().contains(escrow@),
            },
    {
        match self.slot(escrow) {
            Some(i) => {
                proof {
                    lemma_custody_slot(self.custodies@, i as int);
                }
                Some(self.custodies[i])
            },
            None => None,
        }
    }

    /// Whether some open trade keeps its custody at `vault`.
    pub fn holds_vault(&self, vault: &Address) -> (used: bool)
        requires
            self.inv(),
        ensures
            used == vault_in_use(self@.escrows, vault@),
    {
        let mut i: usize = 0;
        while i < self.custodies.len()
            invariant
                i <= self.custodies@.len(),
                self.inv(),
                forall|j: int| 0 <= j < i ==> (#[trigger] self.custodies@[j]).vault@ != vault@,
            decreases self.custodies@.len() - i,
        {
            if self.custodies[i].vault == *vault {
                proof {
                    lemma_vault_in_use(self.custodies@, vault@);
                }
                return true;
            }
            i += 1;
        }
        proof {
            lemma_vault_in_use(self.custodies@, vault@);
        }
        false
    }

    /// A second exchange in the same state.
    pub(crate) fn copy(&self) -> (twin: Exchange)
        requires
            self.inv(),
        ensures
            twin.inv(),
            twin@ == self@,
            twin.same_supply(*self),
    {
        let mut custodies: Vec<Custody> = Vec::new();
        let mut i: usize = 0;
        while i < self.custodies.len()
            invariant
                i <= self.custodies@.len(),
                custodies@ == self.custodies@.subrange(0, i as int),
            decreases self.custodies@.len() - i,
        {
            custodies.push(self.custodies[i]);
            assert(custodies@ =~= self.custodies@.subrange(0, i + 1));
            i += 1;
        }
        assert(custodies@ =~= self.custodies@);
        Exchange { ledger: self.ledger.copy(), custodies }
    }

    /// Opens a trade under an address that holds none.
    pub(crate) fn open(&mut self, custody: Custody)
        requires
            old(self).inv(),
            !old(self)@.escrows.dom().contains(custody.escrow@),
        ensures
            final(self).inv(),
            final(self)@.balances == old(self)@.balances,
            final(self)@.escrows == old(self)@.escrows.insert(custody.escrow@, custody@),
            final(self).supply_grown(*old(self), custody.record.mint_a@, custody.amount as int),
    {
        proof {
            lemma_custody_push(self.custodies@, custody);
            assert forall|asset: Seq<u8>|
                kept_sum(#[trigger] self.custodies@.push(custody), asset) == kept_sum(
                    self.custodies@,
                    asset,
                ) + kept(custody, asset) by {
                lemma_kept_push(self.custodies@, custody, asset);
            }
        }
        self.custodies.push(custody);
    }

    /// Sets what the holding account of an open trade holds.
    pub(crate) fn hold(&mut self, escrow: &Address, amount: u64)
        requires
            old(self).inv(),
            old(self)@.escrows.dom().contains(escrow@),
        ensures
            final(self).inv(),
            final(self)@.balances == old(self)@.balances,
            final(self)@.escrows == old(self)@.escrows.insert(
                escrow@,
                CustodyView { amount, ..old(self)@.escrows[escrow@] },
            ),
            final(self).supply_grown(
                *old(self),
                old(self)@.escrows[escrow@].record.mint_a,
                amount - old(self)@.escrows[escrow@].amount,
            ),
    {
        match self.slot(escrow) {
            Some(i) => {
                let before = self.custodies[i];
                let after = Custody {
                    escrow: before.escrow,
                    record: before.record,
                    vault: before.vault,
                    amount,
                };
                proof {
                    lemma_custody_slot(self.custodies@, i as int);
                    lemma_custody_set(self.custodies@, i as int, amount);
                    assert forall|asset: Seq<u8>|
                        kept_sum(#[trigger] self.custodies@.update(i as int, after), asset)
                            == kept_sum(self.custodies@, asset) + (if asset
                            == before.record.mint_a@ {
                            amount - before.amount
                        } else {
                            0
                        }) by {
                        lemma_kept_update(self.custodies@, i as int, after, asset);
                    }
                }
                self.custodies.set(i, after);
            },
            None => {},
        }
    }

    /// Closes the trade under `escrow`: the record and its holding account
    /// cease to exist.
    pub(crate) fn close(&mut self, escrow: &Address)
        requires
            old(self).inv(),
        ensures
            final(self).inv(),
            final(self)@.balances == old(self)@.balances,
            final(self)@.escrows == old(self)@.escrows.remove(escrow@),
            old(self)@.is_open(escrow@) ==> final(self).supply_grown(
                *old(self),
                old(self)@.escrows[escrow@].record.mint_a,
                -old(self)@.escrows[escrow@].amount,
            ),
            !old(self)@.is_open(escrow@) ==> final(self).same_supply(*old(self)),
    {
        match self.slot(escrow) {
            Some(i) => {
                proof {
                    lemma_custody_slot(self.custodies@, i as int);
                    lemma_custody_remove(self.custodies@, i as int);
                    assert forall|asset: Seq<u8>|
                        kept_sum(#[trigger] self.custodies@.remove(i as int), asset) + kept(
                            self.custodies@[i as int],
                            asset,
                        ) == kept_sum(self.custodies@, asset) by {
                        lemma_kept_remove(self.custodies@, i as int, asset);
                    }
                }
                self.custodies.remove(i);
            },
            None => {
                assert(final(self)@.escrows =~= old(self)@.escrows.remove(escrow@));
            },
        }
    }

    /// What `owner` holds of `mint`.
    pub(crate) fn balance_of_party(&self, owner: &Address, mint: &Address) -> (amount: u64)
        requires
            self.inv(),
        ensures
            amount == self@.balance(owner@, mint@),
    {
        self.ledger.balance_of(owner, mint)
    }

    /// Takes funds from a party, or refuses and changes nothing.
    pub(crate) fn debit(&mut self, owner: &Address, mint: &Address, amount: u64) -> (done: Result<
        (),
        TransferError,
    >)
        requires
            old(self).inv(),
        ensures
            final(self).inv(),
            final(self)@.escrows == old(self)@.escrows,
            match debited(old(self)@.balances, owner@, mint@, amount) {
                Ok(next) => done is Ok && final(self)@.balances == next,
                Err(e) => done == Err::<(), TransferError>(e) && final(self)@ == old(self)@,
            },
            final(self).supply_grown(*old(self), mint@, if done is Ok { -amount } else { 0 }),
    {
        self.ledger.debit(owner, mint, amount)
    }

    /// Gives funds to a party, or refuses and changes nothing.
    pub(crate) fn credit(&mut self, owner: &Address, mint: &Address, amount: u64) -> (done: Result<
        (),
        TransferError,
    >)
        requires
            old(self).inv(),
        ensures
            final(self).inv(),
            final(self)@.escrows == old(self)@.escrows,
            match credited(old(self)@.balances, owner@, mint@, amount) {
                Ok(next) => done is Ok && final(self)@.balances == next,
                Err(e) => done == Err::<(), TransferError>(e) && final(self)@ == old(self)@,
            },
            final(self).supply_grown(*old(self), mint@, if done is Ok { amount as int } else { 0 }),
    {
        self.ledger.credit(owner, mint, amount)
    }

    /// Moves funds between two parties, or refuses and changes nothing.
    pub(crate) fn transfer(
        &mut self,
        from: &Address,
        to: &Address,
        mint: &Address,
        amount: u64,
    ) -> (done: Result<(), TransferError>)
        requires
            old(self).inv(),
        ensures
            final(self).inv(),
            final(self)@.escrows == old(self)@.escrows,
            match transferred(old(self)@.balances, from@, to@, mint@, amount) {
                Ok(next) => done is Ok && final(self)@.balances == next,
                Err(e) => done == Err::<(), TransferError>(e) && final(self)@ == old(self)@,
            },
            final(self).same_supply(*old(self)),
    {
        self.ledger.transfer(from, to, mint, amount)
    }
}

} // verus!
