//! A ledger held in memory.

use crate::traits::{holding, AssetTransactor, Balances};
use crate::types::{bytes32_eq, AccountId, AssetId};
use vstd::prelude::*;
use vstd::slice::slice_to_vec;

verus! {

/// What one account holds of one asset.
#[derive(Clone, Copy, Debug, PartialEq, Eq)]
pub struct Holding {
    pub who: AccountId,
    pub asset: AssetId,
    pub amount: u128,
}

/// The holdings that a list of records stands for: a later record of an
/// account and an asset replaces an earlier one.
pub open spec fn balances_of(entries: Seq<Holding>) -> Balances
    decreases entries.len(),
{
    if entries.len() == 0 {
        Map::empty()
    } else {
        let h = entries.last();
        balances_of(entries.drop_last()).insert((h.who, h.asset), h.amount as nat)
    }
}

spec fn is_record_of(h: Holding, who: AccountId, asset: AssetId) -> bool {
    h.who == who && h.asset == asset
}

proof fn lemma_no_record(entries: Seq<Holding>, who: AccountId, asset: AssetId)
    requires
        forall|j: int| 0 <= j < entries.len() ==> !is_record_of(entries[j], who, asset),
    ensures
        !balances_of(entries).contains_key((who, asset)),
    decreases entries.len(),
{
    if entries.len() > 0 {
        let rest = entries.drop_last();
        assert(!is_record_of(entries[entries.len() - 1], who, asset));
        assert forall|j: int| 0 <= j < rest.len() implies !is_record_of(rest[j], who, asset) by {
            assert(rest[j] == entries[j]);
        }
        lemma_no_record(rest, who, asset);
    }
}

proof fn lemma_last_record(entries: Seq<Holding>, i: int, who: AccountId, asset: AssetId)
    requires
        0 <= i < entries.len(),
        is_record_of(entries[i], who, asset),
        forall|j: int| i < j < entries.len() ==> !is_record_of(entries[j], who, asset),
    ensures
        balances_of(entries).contains_key((who, asset)),
        balances_of(entries)[(who, asset)] == entries[i].amount,
    decreases entries.len(),
{
    if i < entries.len() - 1 {
        let rest = entries.drop_last();
        assert(!is_record_of(entries[entries.len() - 1], who, asset));
        assert(rest[i] == entries[i]);
        assert forall|j: int| i < j < rest.len() implies !is_record_of(rest[j], who, asset) by {
            assert(rest[j] == entries[j]);
        }
        lemma_last_record(rest, i, who, asset);
    }
}

proof fn lemma_replace_record(entries: Seq<Holding>, i: int, h: Holding)
    requires
        0 <= i < entries.len(),
        is_record_of(entries[i], h.who, h.asset),
        forall|j: int| i < j < entries.len() ==> !is_record_of(entries[j], h.who, h.asset),
    ensures
        balances_of(entries.update(i, h)) == balances_of(entries).insert(
            (h.who, h.asset),
            h.amount as nat,
        ),
    decreases entries.len(),
{
    let changed = entries.update(i, h);
    let rest = entries.drop_last();
    if i == entries.len() - 1 {
        assert(changed.drop_last() =~= rest);
        assert(balances_of(changed) =~= balances_of(entries).insert(
            (h.who, h.asset),
            h.amount as nat,
        ));
    } else {
        let last = entries.last();
        assert(!is_record_of(entries[entries.len() - 1], h.who, h.asset));
        assert(rest[i] == entries[i]);
        assert forall|j: int| i < j < rest.len() implies !is_record_of(
            rest[j],
            h.who,
            h.asset,
        ) by {
            assert(rest[j] == entries[j]);
        }
        lemma_replace_record(rest, i, h);
        assert(changed.drop_last() =~= rest.update(i, h));
        assert(changed.last() == last);
        assert(balances_of(changed) =~= balances_of(entries).insert(
            (h.who, h.asset),
            h.amount as nat,
        ));
    }
}

/// A ledger held in memory: the holdings of every account, and a copy of
/// them for the scope that is open.
///
/// An account cannot hold more of an asset than a `u128` counts, nor less
/// than nothing: a movement that would lead there does not happen.
pub struct Ledger {
    entries: Vec<Holding>,
    saved: Vec<Holding>,
}

impl Ledger {
    /// A ledger on which nobody holds anything.
    pub fn new() -> (ledger: Ledger)
        ensures
            ledger.balances() == Map::<(AccountId, AssetId), nat>::empty(),
    {
        Ledger { entries: Vec::new(), saved: Vec::new() }
    }

    fn find(&self, who: &AccountId, asset: &AssetId) -> (place: Option<usize>)
        ensures
            match place {
                Some(i) => {
                    &&& i < self.entries@.len()
                    &&& is_record_of(self.entries@[i as int], *who, *asset)
                    &&& forall|j: int|
                        i < j < self.entries@.len() ==> !is_record_of(
                            self.entries@[j],
                            *who,
                            *asset,
                        )
                },
                None => forall|j: int|
                    0 <= j < self.entries@.len() ==> !is_record_of(self.entries@[j], *who, *asset),
            },
    {
        let mut i: usize = self.entries.len();
        while i > 0
            invariant
                i <= self.entries@.len(),
                forall|j: int|
                    i <= j < self.entries@.len() ==> !is_record_of(self.entries@[j], *who, *asset),
            decreases i,
        {
            i -= 1;
            let h = &self.entries[i];
            if bytes32_eq(&h.who, who) && bytes32_eq(&h.asset, asset) {
                return Some(i);
            }
        }
        None
    }

    /// What `who` holds of `asset`.
    pub fn balance(&self, who: &AccountId, asset: &AssetId) -> (amount: u128)
        ensures
            amount == holding(self.balances(), *who, *asset),
    {
        match self.find(who, asset) {
            Some(i) => {
                proof {
                    lemma_last_record(self.entries@, i as int, *who, *asset);
                }
                self.entries[i].amount
            },
            None => {
                proof {
                    lemma_no_record(self.entries@, *who, *asset);
                }
                0
            },
        }
    }

    fn put(&mut self, who: &AccountId, asset: &AssetId, amount: u128)
        ensures
            final(self).balances() == old(self).balances().insert((*who, *asset), amount as nat),
            final(self).rollback_point() == old(self).rollback_point(),
    {
        let h = Holding { who: *who, asset: *asset, amount };
        match self.find(who, asset) {
            Some(i) => {
                proof {
                    lemma_replace_record(self.entries@, i as int, h);
                }
                self.entries[i] = h;
            },
            None => {
                self.entries.push(h);
                proof {
                    assert(self.entries@.drop_last() =~= old(self).entries@);
                }
            },
        }
    }
}

impl AssetTransactor for Ledger {
    closed spec fn balances(&self) -> Balances {
        balances_of(self.entries@)
    }

    closed spec fn rollback_point(&self) -> Balances {
        balances_of(self.saved@)
    }

    /// An account gives up what it holds, and no more.
    open spec fn accepts_withdraw(
        balances: Balances,
        who: AccountId,
        asset: AssetId,
        amount: u128,
    ) -> bool {
        holding(balances, who, asset) >= amount
    }

    /// An account takes what a `u128` still counts, and no more.
    open spec fn accepts_deposit(
        balances: Balances,
        who: AccountId,
        asset: AssetId,
        amount: u128,
    ) -> bool {
        holding(balances, who, asset) + amount <= u128::MAX
    }

    fn begin(&mut self) {
        self.saved = slice_to_vec(self.entries.as_slice());
    }

    fn commit(&mut self) {
    }

    fn rollback(&mut self) {
        self.entries = slice_to_vec(self.saved.as_slice());
    }

    fn withdraw(&mut self, who: &AccountId, asset: &AssetId, amount: u128) -> (moved: bool) {
        let current = self.balance(who, asset);
        if current < amount {
            return false;
        }
        self.put(who, asset, current - amount);
        true
    }

    fn deposit(&mut self, who: &AccountId, asset: &AssetId, amount: u128) -> (moved: bool) {
        let current = self.balance(who, asset);
        if amount > u128::MAX - current {
            return false;
        }
        self.put(who, asset, current + amount);
        true
    }
}

} // verus!
