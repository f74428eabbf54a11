use crate::address::Address;
use vstd::prelude::*;

verus! {

/// Why a movement of funds was refused.
#[derive(Clone, Copy, Debug, PartialEq, Eq, Structural)]
pub enum TransferError {
    /// The paying balance is smaller than the amount.
    InsufficientFunds,
    /// The receiving balance cannot hold the amount.
    Overflow,
}

/// Balances by owner and asset. A pair without an entry holds nothing.
pub type Balances = Map<(Seq<u8>, Seq<u8>), u64>;

/// What `owner` holds of `mint`.
pub open spec fn balance_in(balances: Balances, owner: Seq<u8>, mint: Seq<u8>) -> u64 {
    if balances.dom().contains((owner, mint)) {
        balances[(owner, mint)]
    } else {
        0
    }
}

/// The balances after `amount` of `mint` is taken from `owner`.
pub open spec fn debited(balances: Balances, owner: Seq<u8>, mint: Seq<u8>, amount: u64) -> Result<
    Balances,
    TransferError,
> {
    if balance_in(balances, owner, mint) < amount {
        Err(TransferError::InsufficientFunds)
    } else {
        Ok(balances.insert((owner, mint), (balance_in(balances, owner, mint) - amount) as u64))
    }
}

/// The balances after `amount` of `mint` is given to `owner`.
pub open spec fn credited(balances: Balances, owner: Seq<u8>, mint: Seq<u8>, amount: u64) -> Result<
    Balances,
    TransferError,
> {
    if balance_in(balances, owner, mint) + amount > u64::MAX {
        Err(TransferError::Overflow)
    } else {
        Ok(balances.insert((owner, mint), (balance_in(balances, owner, mint) + amount) as u64))
    }
}

/// The balances after `amount` of `mint` moves from `from` to `to`: the
/// debit first, then the credit, so that a party may pay itself.
pub open spec fn transferred(
    balances: Balances,
    from: Seq<u8>,
    to: Seq<u8>,
    mint: Seq<u8>,
    amount: u64,
) -> Result<Balances, TransferError> {
    match debited(balances, from, mint, amount) {
        Ok(paid) => credited(paid, to, mint, amount),
        Err(e) => Err(e),
    }
}

/// A granted transfer moves exactly `amount` between two distinct parties,
/// and nothing between a party and itself; every other balance stays as it
/// was. It is granted exactly when the payer holds the amount and the
/// receiver can hold it.
pub proof fn lemma_transfer_moves(
    balances: Balances,
    from: Seq<u8>,
    to: Seq<u8>,
    mint: Seq<u8>,
    amount: u64,
    owner: Seq<u8>,
    asset: Seq<u8>,
)
    ensures
        transferred(balances, from, to, mint, amount) is Ok <==> balance_in(balances, from, mint)
            >= amount && (from == to || balance_in(balances, to, mint) + amount <= u64::MAX),
        transferred(balances, from, to, mint, amount) matches Ok(next) ==> {
            &&& from != to ==> balance_in(next, from, mint) == balance_in(balances, from, mint)
                - amount
            &&& from != to ==> balance_in(next, to, mint) == balance_in(balances, to, mint)
                + amount
            &&& from == to ==> balance_in(next, from, mint) == balance_in(balances, from, mint)
            &&& (asset != mint || (owner != from && owner != to)) ==> balance_in(
                next,
                owner,
                asset,
            ) == balance_in(balances, owner, asset)
        },
{
}

/// One balance: what `owner` holds of `mint`.
#[derive(Clone, Copy, Debug)]
struct Wallet {
    owner: Address,
    mint: Address,
    amount: u64,
}

impl Wallet {
    spec fn key(self) -> (Seq<u8>, Seq<u8>) {
        (self.owner@, self.mint@)
    }
}

/// No two wallets of the sequence belong to the same owner and asset.
spec fn distinct_wallets(wallets: Seq<Wallet>) -> bool {
    forall|i: int, j: int|
        0 <= i < wallets.len() && 0 <= j < wallets.len() && i != j ==> #[trigger] wallets[i].key()
            != #[trigger] wallets[j].key()
}

/// Some wallet of the sequence belongs to the key.
spec fn has_wallet(wallets: Seq<Wallet>, key: (Seq<u8>, Seq<u8>)) -> bool {
    exists|i: int| 0 <= i < wallets.len() && #[trigger] wallets[i].key() == key
}

/// The place of a wallet that belongs to the key.
spec fn wallet_slot(wallets: Seq<Wallet>, key: (Seq<u8>, Seq<u8>)) -> int {
    choose|i: int| 0 <= i < wallets.len() && #[trigger] wallets[i].key() == key
}

/// The balances that a sequence of wallets stands for.
spec fn balances_of(wallets: Seq<Wallet>) -> Balances {
    Map::new(
        |key: (Seq<u8>, Seq<u8>)| has_wallet(wallets, key),
        |key: (Seq<u8>, Seq<u8>)| wallets[wallet_slot(wallets, key)].amount,
    )
}

proof fn lemma_wallet_slot(wallets: Seq<Wallet>, i: int)
    requires
        distinct_wallets(wallets),
        0 <= i < wallets.len(),
    ensures
        has_wallet(wallets, wallets[i].key()),
        wallet_slot(wallets, wallets[i].key()) == i,
        balances_of(wallets)[wallets[i].key()] == wallets[i].amount,
{
    let key = wallets[i].key();
    assert(has_wallet(wallets, key));
    let j = wallet_slot(wallets, key);
    assert(0 <= j < wallets.len() && wallets[j].key() == key);
}

proof fn lemma_wallet_set(wallets: Seq<Wallet>, i: int, amount: u64)
    requires
        distinct_wallets(wallets),
        0 <= i < wallets.len(),
    ensures
        distinct_wallets(wallets.update(i, Wallet { amount, ..wallets[i] })),
        balances_of(wallets.update(i, Wallet { amount, ..wallets[i] })) == balances_of(
            wallets,
        ).insert(wallets[i].key(), amount),
{
    let next = wallets.update(i, Wallet { amount, ..wallets[i] });
    assert forall|j: int| 0 <= j < wallets.len() implies #[trigger] next[j].key()
        == wallets[j].key() by {}
    assert(distinct_wallets(next));
    let expected = balances_of(wallets).insert(wallets[i].key(), amount);
    assert forall|key: (Seq<u8>, Seq<u8>)| has_wallet(next, key) == has_wallet(wallets, key) by {
        if has_wallet(next, key) {
            let j = wallet_slot(next, key);
            assert(wallets[j].key() == key);
        }
        if has_wallet(wallets, key) {
            let j = wallet_slot(wallets, key);
            assert(next[j].key() == key);
        }
    }
    assert forall|key: (Seq<u8>, Seq<u8>)| #[trigger]
        expected.dom().contains(key) implies balances_of(next)[key] == expected[key] by {
        let j = wallet_slot(next, key);
        assert(has_wallet(next, key));
        assert(0 <= j < next.len() && next[j].key() == key);
        lemma_wallet_slot(wallets, j);
        if key == wallets[i].key() {
            assert(j == i);
        } else {
            assert(j != i);
        }
    }
    assert(balances_of(next) =~= expected);
}

proof fn lemma_wallet_push(wallets: Seq<Wallet>, wallet: Wallet)
    requires
        distinct_wallets(wallets),
        !has_wallet(wallets, wallet.key()),
    ensures
        distinct_wallets(wallets.push(wallet)),
        balances_of(wallets.push(wallet)) == balances_of(wallets).insert(
            wallet.key(),
            wallet.amount,
        ),
{
    let next = wallets.push(wallet);
    assert forall|i: int, j: int|
        0 <= i < next.len() && 0 <= j < next.len() && i != j implies #[trigger] next[i].key()
        != #[trigger] next[j].key() by {
        if i < wallets.len() && j < wallets.len() {
            assert(wallets[i].key() != wallets[j].key());
        } else if i < wallets.len() {
            assert(wallets[i].key() == next[i].key());
        } else {
            assert(wallets[j].key() == next[j].key());
        }
    }
    let expected = balances_of(wallets).insert(wallet.key(), wallet.amount);
    assert forall|key: (Seq<u8>, Seq<u8>)|
        has_wallet(next, key) == (has_wallet(wallets, key) || key == wallet.key()) by {
        if has_wallet(next, key) {
            let j = wallet_slot(next, key);
            if j < wallets.len() {
                assert(wallets[j].key() == key);
            }
        }
        if has_wallet(wallets, key) {
            let j = wallet_slot(wallets, key);
            assert(next[j].key() == key);
        }
        if key == wallet.key() {
            assert(next[wallets.len() as int].key() == key);
        }
    }
    assert forall|key: (Seq<u8>, Seq<u8>)| #[trigger]
        expected.dom().contains(key) implies balances_of(next)[key] == expected[key] by {
        let j = wallet_slot(next, key);
        assert(has_wallet(next, key));
        assert(0 <= j < next.len() && next[j].key() == key);
        lemma_wallet_slot(next, j);
        if key == wallet.key() {
            assert(next[wallets.len() as int].key() == key);
            assert(j == wallets.len());
        } else {
            assert(j < wallets.len());
            assert(wallets[j].key() == key);
            lemma_wallet_slot(wallets, j);
        }
    }
    assert(balances_of(next) =~= expected);
}

/// What a wallet adds to what exists of `mint`.
spec fn counted(wallet: Wallet, mint: Seq<u8>) -> nat {
    if wallet.mint@ == mint {
        wallet.amount as nat
    } else {
        0
    }
}

/// What the wallets hold of `mint` together.
spec fn sum_of(wallets: Seq<Wallet>, mint: Seq<u8>) -> nat
    decreases wallets.len(),
{
    if wallets.len() == 0 {
        0
    } else {
        sum_of(wallets.drop_last(), mint) + counted(wallets.last(), mint)
    }
}

proof fn lemma_sum_push(wallets: Seq<Wallet>, wallet: Wallet, mint: Seq<u8>)
    ensures
        sum_of(wallets.push(wallet), mint) == sum_of(wallets, mint) + counted(wallet, mint),
{
    assert(wallets.push(wallet).drop_last() =~= wallets);
}

proof fn lemma_sum_update(wallets: Seq<Wallet>, i: int, wallet: Wallet, mint: Seq<u8>)
    requires
        0 <= i < wallets.len(),
    ensures
        sum_of(wallets.update(i, wallet), mint) + counted(wallets[i], mint) == sum_of(
            wallets,
            mint,
        ) + counted(wallet, mint),
    decreases wallets.len(),
{
    let next = wallets.update(i, wallet);
    if i == wallets.len() - 1 {
        assert(next.drop_last() =~= wallets.drop_last());
    } else {
        assert(next.drop_last() =~= wallets.drop_last().update(i, wallet));
        lemma_sum_update(wallets.drop_last(), i, wallet, mint);
    }
}

proof fn lemma_sum_covers(wallets: Seq<Wallet>, i: int, mint: Seq<u8>)
    requires
        0 <= i < wallets.len(),
    ensures
        sum_of(wallets, mint) >= counted(wallets[i], mint),
    decreases wallets.len(),
{
    if i < wallets.len() - 1 {
        lemma_sum_covers(wallets.drop_last(), i, mint);
    }
}

/// The balances of every party in every asset.
pub struct Ledger {
    wallets: Vec<Wallet>,
}

impl View for Ledger {
    type V = Balances;

    closed spec fn view(&self) -> Balances {
        balances_of(self.wallets@)
    }
}

impl Ledger {
    /// The stored wallets are one per owner and asset.
    pub closed spec fn wf(&self) -> bool {
        distinct_wallets(self.wallets@)
    }

    /// What `owner` holds of `mint`.
    pub open spec fn balance(&self, owner: Seq<u8>, mint: Seq<u8>) -> u64 {
        balance_in(self@, owner, mint)
    }

    /// All that exists of `mint`: the sum of what every owner holds of it.
    pub closed spec fn supply(&self, mint: Seq<u8>) -> nat {
        sum_of(self.wallets@, mint)
    }

    /// The two ledgers hold as much of every asset.
    pub open spec fn same_supply(self, other: Ledger) -> bool {
        forall|mint: Seq<u8>| #[trigger] self.supply(mint) == other.supply(mint)
    }

    /// This ledger holds `amount` more of `mint` than the other, and as
    /// much of every other asset.
    pub open spec fn supply_grown(self, other: Ledger, mint: Seq<u8>, amount: int) -> bool {
        forall|asset: Seq<u8>| #[trigger]
            self.supply(asset) == other.supply(asset) + (if asset == mint {
                amount
            } else {
                0
            })
    }

    /// No balance exceeds what exists of its asset.
    pub proof fn lemma_supply_covers(&self, owner: Seq<u8>, mint: Seq<u8>)
        requires
            self.wf(),
        ensures
            self.balance(owner, mint) <= self.supply(mint),
    {
        if has_wallet(self.wallets@, (owner, mint)) {
            let i = wallet_slot(self.wallets@, (owner, mint));
            lemma_wallet_slot(self.wallets@, i);
            lemma_sum_covers(self.wallets@, i, mint);
        }
    }

    /// A ledger in which nobody holds anything.
    pub fn new() -> (ledger: Ledger)
        ensures
            ledger.wf(),
            ledger@ == Map::<(Seq<u8>, Seq<u8>), u64>::empty(),
            forall|mint: Seq<u8>| #[trigger] ledger.supply(mint) == 0,
    {
        let ledger = Ledger { wallets: Vec::new() };
        assert(ledger@ =~= Map::<(Seq<u8>, Seq<u8>), u64>::empty());
        ledger
    }

    fn slot(&self, owner: &Address, mint: &Address) -> (found: Option<usize>)
        requires
            self.wf(),
        ensures
            match found {
                Some(i) => i < self.wallets@.len() && self.wallets@[i as int].key() == (
                    owner@,
                    mint@,
                ),
                None => !has_wallet(self.wallets@, (owner@, mint@)),
            },
    {
        let mut i: usize = 0;
        while i < self.wallets.len()
            invariant
                i <= self.wallets@.len(),
                forall|j: int| 0 <= j < i ==> #[trigger] self.wallets@[j].key() != (owner@, mint@),
            decreases self.wallets@.len() - i,
        {
            if self.wallets[i].owner == *owner && self.wallets[i].mint == *mint {
                return Some(i);
            }
            i += 1;
        }
        None
    }

    /// What `owner` holds of `mint`.
    pub fn balance_of(&self, owner: &Address, mint: &Address) -> (amount: u64)
        requires
            self.wf(),
        ensures
            amount == self.balance(owner@, mint@),
    {
        match self.slot(owner, mint) {
            Some(i) => {
                proof {
                    lemma_wallet_slot(self.wallets@, i as int);
                }
                self.wallets[i].amount
            },
            None => 0,
        }
    }

    fn put(&mut self, owner: &Address, mint: &Address, amount: u64)
        requires
            old(self).wf(),
        ensures
            final(self).wf(),
            final(self)@ == old(self)@.insert((owner@, mint@), amount),
            final(self).supply_grown(
                *old(self),
                mint@,
                amount - old(self).balance(owner@, mint@),
            ),
    {
        match self.slot(owner, mint) {
            Some(i) => {
                let wallet = Wallet { owner: self.wallets[i].owner, mint: self.wallets[i].mint, amount };
                proof {
                    lemma_wallet_set(self.wallets@, i as int, amount);
                    lemma_wallet_slot(self.wallets@, i as int);
                    assert forall|asset: Seq<u8>|
                        sum_of(#[trigger] self.wallets@.update(i as int, wallet), asset) == sum_of(
                            self.wallets@,
                            asset,
                        ) + (if asset == mint@ {
                            amount - self.wallets@[i as int].amount
                        } else {
                            0
                        }) by {
                        lemma_sum_update(self.wallets@, i as int, wallet, asset);
                    }
                }
                self.wallets.set(i, wallet);
            },
            None => {
                let wallet = Wallet { owner: *owner, mint: *mint, amount };
                proof {
                    lemma_wallet_push(self.wallets@, wallet);
                    assert forall|asset: Seq<u8>|
                        sum_of(#[trigger] self.wallets@.push(wallet), asset) == sum_of(
                            self.wallets@,
                            asset,
                        ) + counted(wallet, asset) by {
                        lemma_sum_push(self.wallets@, wallet, asset);
                    }
                }
                self.wallets.push(wallet);
            },
        }
    }

    /// Takes `amount` of `mint` from `owner`, or refuses and changes nothing.
    pub fn debit(&mut self, owner: &Address, mint: &Address, amount: u64) -> (done: Result<
        (),
        TransferError,
    >)
        requires
            old(self).wf(),
        ensures
            final(self).wf(),
            match debited(old(self)@, owner@, mint@, amount) {
                Ok(next) => done is Ok && final(self)@ == next,
                Err(e) => done == Err::<(), TransferError>(e) && final(self)@ == old(self)@,
            },
            final(self).supply_grown(*old(self), mint@, if done is Ok { -amount } else { 0 }),
    {
        let held = self.balance_of(owner, mint);
        if held < amount {
            return Err(TransferError::InsufficientFunds);
        }
        self.put(owner, mint, held - amount);
        Ok(())
    }

    /// Gives `amount` of `mint` to `owner`, or refuses and changes nothing.
    pub fn credit(&mut self, owner: &Address, mint: &Address, amount: u64) -> (done: Result<
        (),
        TransferError,
    >)
        requires
            old(self).wf(),
        ensures
            final(self).wf(),
            match credited(old(self)@, owner@, mint@, amount) {
                Ok(next) => done is Ok && final(self)@ == next,
                Err(e) => done == Err::<(), TransferError>(e) && final(self)@ == old(self)@,
            },
            final(self).supply_grown(*old(self), mint@, if done is Ok { amount as int } else { 0 }),
    {
        let held = self.balance_of(owner, mint);
        match held.checked_add(amount) {
            None => Err(TransferError::Overflow),
            Some(total) => {
                self.put(owner, mint, total);
                Ok(())
            },
        }
    }

    /// Moves `amount` of `mint` from `from` to `to`, or refuses and changes
    /// nothing.
    pub fn transfer(&mut self, from: &Address, to: &Address, mint: &Address, amount: u64) -> (done:
        Result<(), TransferError>)
        requires
            old(self).wf(),
        ensures
            final(self).wf(),
            match transferred(old(self)@, from@, to@, mint@, amount) {
                Ok(next) => done is Ok && final(self)@ == next,
                Err(e) => done == Err::<(), TransferError>(e) && final(self)@ == old(self)@,
            },
            final(self).same_supply(*old(self)),
    {
        let held = self.balance_of(from, mint);
        if held < amount {
            return Err(TransferError::InsufficientFunds);
        }
        if *from == *to {
            self.put(from, mint, held);
            assert(final(self)@ =~= old(self)@.insert((from@, mint@), (held - amount) as u64).insert(
                (to@, mint@),
                held,
            ));
            return Ok(());
        }
        let target = self.balance_of(to, mint);
        match target.checked_add(amount) {
            None => Err(TransferError::Overflow),
            Some(total) => {
                self.put(from, mint, held - amount);
                self.put(to, mint, total);
                Ok(())
            },
        }
    }

    /// A second ledger with the same balances.
    pub fn copy(&self) -> (twin: Ledger)
        requires
            self.wf(),
        ensures
            twin.wf(),
            twin@ == self@,
            twin.same_supply(*self),
    {
        let mut wallets: Vec<Wallet> = Vec::new();
        let mut i: usize = 0;
        while i < self.wallets.len()
            invariant
                i <= self.wallets@.len(),
                wallets@ == self.wallets@.subrange(0, i as int),
            decreases self.wallets@.len() - i,
        {
            wallets.push(self.wallets[i]);
            assert(wallets@ =~= self.wallets@.subrange(0, i + 1));
            i += 1;
        }
        assert(wallets@ =~= self.wallets@);
        Ledger { wallets }
    }
}

} // verus!
