//! What the bridge asks of its host: who may administer it, what a transfer
//! costs, whether the committee signed a message, and how assets move.

use crate::types::{AccountId, AssetId, CommitteeKey, DomainID, Origin};
use vstd::prelude::*;

verus! {

/// The holdings of every account, by asset. An account that is absent holds
/// nothing.
pub type Balances = Map<(AccountId, AssetId), nat>;

/// What `who` holds of `asset`.
pub open spec fn holding(balances: Balances, who: AccountId, asset: AssetId) -> nat {
    if balances.contains_key((who, asset)) {
        balances[(who, asset)]
    } else {
        0
    }
}

/// The holdings once `amount` of `asset` is added to what `who` holds.
pub open spec fn credited(balances: Balances, who: AccountId, asset: AssetId, amount: nat)
    -> Balances {
    balances.insert((who, asset), holding(balances, who, asset) + amount)
}

/// The holdings once `amount` of `asset` is taken from what `who` holds.
pub open spec fn debited(balances: Balances, who: AccountId, asset: AssetId, amount: nat)
    -> Balances {
    balances.insert((who, asset), (holding(balances, who, asset) - amount) as nat)
}

/// The ledger on which the bridge moves assets.
///
/// A movement either happens in full or leaves the holdings as they were.
/// Several movements are made all-or-nothing by a scope: `begin` remembers the
/// holdings, `rollback` returns to what was remembered, `commit` keeps what
/// was done.
///
/// What the bridge proves of the holdings, it proves of ledgers that keep
/// to the contracts below. A verified ledger states its holdings in
/// `balances` and `rollback_point`, and what it accepts in `accepts_withdraw`
/// and `accepts_deposit`. A ledger written outside verified code cannot
/// state them and is left with the bodies given here: that it moves assets
/// as some holdings would, and accepts by the holdings alone, is then taken
/// on trust.
pub trait AssetTransactor {
    /// The present holdings.
    open spec fn balances(&self) -> Balances {
        Map::empty()
    }

    /// The holdings that `rollback` returns to.
    open spec fn rollback_point(&self) -> Balances {
        Map::empty()
    }

    /// Whether a ledger of this kind lets `amount` of `asset` leave `who`
    /// while the holdings are `balances`.
    open spec fn accepts_withdraw(
        balances: Balances,
        who: AccountId,
        asset: AssetId,
        amount: u128,
    ) -> bool {
        false
    }

    /// Whether a ledger of this kind lets `amount` of `asset` reach `who`
    /// while the holdings are `balances`.
    open spec fn accepts_deposit(
        balances: Balances,
        who: AccountId,
        asset: AssetId,
        amount: u128,
    ) -> bool {
        false
    }

    /// Opens a scope: remembers the present holdings.
    fn begin(&mut self)
        ensures
            final(self).balances() == old(self).balances(),
            final(self).rollback_point() == old(self).balances(),
    ;

    /// Closes the scope and keeps the holdings as they are.
    fn commit(&mut self)
        ensures
            final(self).balances() == old(self).balances(),
    ;

    /// Closes the scope and returns to the holdings that `begin` remembered.
    fn rollback(&mut self)
        ensures
            final(self).balances() == old(self).rollback_point(),
    ;

    /// Takes `amount` of `asset` from `who`, or does nothing and says so.
    /// Whether it does is a matter of the holdings alone.
    fn withdraw(&mut self, who: &AccountId, asset: &AssetId, amount: u128) -> (moved: bool)
        ensures
            moved == Self::accepts_withdraw(old(self).balances(), *who, *asset, amount),
            moved ==> holding(old(self).balances(), *who, *asset) >= amount,
            moved ==> final(self).balances() == debited(
                old(self).balances(),
                *who,
                *asset,
                amount as nat,
            ),
            !moved ==> final(self).balances() == old(self).balances(),
            final(self).rollback_point() == old(self).rollback_point(),
    ;

    /// Gives `amount` of `asset` to `who`, or does nothing and says so.
    /// Whether it does is a matter of the holdings alone.
    fn deposit(&mut self, who: &AccountId, asset: &AssetId, amount: u128) -> (moved: bool)
        ensures
            moved == Self::accepts_deposit(old(self).balances(), *who, *asset, amount),
            moved ==> final(self).balances() == credited(
                old(self).balances(),
                *who,
                *asset,
                amount as nat,
            ),
            !moved ==> final(self).balances() == old(self).balances(),
            final(self).rollback_point() == old(self).rollback_point(),
    ;
}

/// The configuration of a bridge deployment: the policies and primitives
/// that the host supplies. Each of them is a function of its arguments alone.
///
/// The three specification functions name what the three executable ones
/// answer; the contracts of the bridge are stated over them. A verified
/// configuration defines them. One written outside verified code cannot and
/// is left with the bodies given here: that its executable functions are
/// functions of their arguments alone is then taken on trust, and the
/// contracts of the bridge hold of what those functions answer.
pub trait Config {
    /// The ledger on which assets move.
    type AssetTransactor: AssetTransactor;

    /// Whether `origin` may administer the bridge.
    open spec fn is_committee_origin(origin: Origin) -> bool {
        origin is Root
    }

    /// The fee for sending `amount` of `asset` to `domain`.
    open spec fn fee(asset: AssetId, domain: DomainID, amount: u128) -> u128 {
        0
    }

    /// Whether `signature` was made over `message` by the holder of the
    /// private counterpart of `key`.
    open spec fn signed_by(key: CommitteeKey, message: Seq<u8>, signature: Seq<u8>) -> bool {
        false
    }

    /// Decides whether `origin` may administer the bridge.
    fn ensure_committee_origin(origin: &Origin) -> (allowed: bool)
        ensures
            allowed == Self::is_committee_origin(*origin),
    ;

    /// Computes the fee for sending `amount` of `asset` to `domain`.
    fn compute_fee(asset: &AssetId, domain: DomainID, amount: u128) -> (fee: u128)
        ensures
            fee == Self::fee(*asset, domain, amount),
    ;

    /// Checks `signature` over `message` against `key`. Anything that is not
    /// a valid signature, whatever its shape, is answered with `false`.
    fn check_signature(key: &CommitteeKey, message: &[u8], signature: &[u8]) -> (valid: bool)
        ensures
            valid == Self::signed_by(*key, message@, signature@),
    ;
}

} // verus!
