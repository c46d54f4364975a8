//! The safety laws of the bridge, proved of its model.
//!
//! The laws of the persisted state speak of every sequence of calls, so they
//! hold in every state that a bridge can reach. The laws of the two flows
//! speak of the steps that the contracts of `deposit` and `execute_proposal`
//! are stated with.

use crate::location::{destination_domain, destination_of, LocationView};
use crate::ledger::Ledger;
use crate::pallet::{
    admission, after_batch, after_deposit, after_proposal, batch_allowed, batch_executed,
    deposit_plan, deposit_step, lemma_after_batch_prefix, movements_accepted, outcome_allowed,
    pause_step, proposal_outcome, set_mpc_key_step, unpause_step, BridgeView, DepositPlan,
};
use crate::traits::{holding, AssetTransactor};
use crate::registry::resource_of;
use crate::store::{after_call, after_calls, StoreCall, StateView};
use crate::types::{
    Asset, CommitteeKey, DepositNonce, DomainID, Error, Origin, PauseState, ProposalView,
};
use vstd::prelude::*;

verus! {

/// Every state that a bridge can reach gives each domain a pause status and
/// a deposit counter.
pub proof fn law_reachable_states_total(calls: Seq<StoreCall>)
    ensures
        after_calls(StateView::initial(), calls).total(),
    decreases calls.len(),
{
    if calls.len() > 0 {
        law_reachable_states_total(calls.drop_last());
    }
}

/// A domain that no call has paused or unpaused is unrecognized: it is not
/// active, and a call to unpause it fails, for want of a committee key
/// where none is set, and as not recognized where one is.
pub proof fn law_untouched_domain_unrecognized(calls: Seq<StoreCall>, domain: DomainID)
    requires
        forall|i: int|
            0 <= i < calls.len() ==> calls[i] != StoreCall::Pause(domain) && calls[i]
                != StoreCall::Unpause(domain),
    ensures
        after_calls(StateView::initial(), calls).pause[domain] == PauseState::Unrecognized,
        !after_calls(StateView::initial(), calls).is_active(domain),
        after_calls(StateView::initial(), calls).unpause_verdict(domain) == Err::<(), Error>(
            if after_calls(StateView::initial(), calls).committee_key is Some {
                Error::BridgeNotRecognized
            } else {
                Error::MissingMpcKey
            },
        ),
    decreases calls.len(),
{
    if calls.len() > 0 {
        let earlier = calls.drop_last();
        assert forall|i: int| 0 <= i < earlier.len() implies earlier[i] != StoreCall::Pause(domain)
            && earlier[i] != StoreCall::Unpause(domain) by {
            assert(earlier[i] == calls[i]);
        }
        law_untouched_domain_unrecognized(earlier, domain);
        assert(calls.last() == calls[calls.len() - 1]);
    }
}

/// Once a committee key is set, no sequence of calls changes or removes it,
/// and every call to set one fails, whatever key it brings.
pub proof fn law_committee_key_never_changes(
    v: StateView,
    key: CommitteeKey,
    calls: Seq<StoreCall>,
)
    requires
        v.committee_key == Some(key),
    ensures
        after_calls(v, calls).committee_key == Some(key),
        after_calls(v, calls).key_verdict() == Err::<(), Error>(Error::MpcKeyNotUpdatable),
    decreases calls.len(),
{
    if calls.len() > 0 {
        law_committee_key_never_changes(v, key, calls.drop_last());
    }
}

/// The committee key is set exactly once: the call that finds no key
/// succeeds and stores its key, and every call after it fails, whatever
/// happens in between.
pub proof fn law_committee_key_set_once(
    v: StateView,
    key: CommitteeKey,
    calls: Seq<StoreCall>,
    other: CommitteeKey,
)
    requires
        v.committee_key is None,
    ensures
        v.key_verdict() is Ok,
        after_call(v, StoreCall::SetCommitteeKey(key)).committee_key == Some(key),
        after_calls(after_call(v, StoreCall::SetCommitteeKey(key)), calls).key_verdict() == Err::<
            (),
            Error,
        >(Error::MpcKeyNotUpdatable),
        after_call(
            after_calls(after_call(v, StoreCall::SetCommitteeKey(key)), calls),
            StoreCall::SetCommitteeKey(other),
        ).committee_key == Some(key),
{
    law_committee_key_never_changes(after_call(v, StoreCall::SetCommitteeKey(key)), key, calls);
}

/// Pausing a domain twice succeeds both times, and the second call changes
/// nothing.
pub proof fn law_pause_twice(v: StateView, domain: DomainID)
    requires
        v.committee_key is Some,
    ensures
        v.pause_verdict() is Ok,
        after_call(v, StoreCall::Pause(domain)).pause_verdict() is Ok,
        after_call(v, StoreCall::Pause(domain)).pause[domain] == PauseState::Paused,
        after_call(after_call(v, StoreCall::Pause(domain)), StoreCall::Pause(domain)) == after_call(
            v,
            StoreCall::Pause(domain),
        ),
{
    let once = after_call(v, StoreCall::Pause(domain));
    let twice = after_call(once, StoreCall::Pause(domain));
    assert(twice.pause =~= once.pause);
}

/// Unpausing an unpaused domain fails and changes nothing, so that a second
/// call meets the same state and fails with the same error.
pub proof fn law_unpause_twice(v: StateView, domain: DomainID)
    requires
        v.committee_key is Some,
        v.pause[domain] == PauseState::Unpaused,
    ensures
        v.unpause_verdict(domain) == Err::<(), Error>(Error::BridgeUnpaused),
        after_call(v, StoreCall::Unpause(domain)) == v,
        after_call(v, StoreCall::Unpause(domain)).unpause_verdict(domain) == Err::<(), Error>(
            Error::BridgeUnpaused,
        ),
{
}

/// Unpausing a paused domain succeeds, and the call after it fails as on
/// any unpaused domain.
pub proof fn law_unpause_then_unpaused(v: StateView, domain: DomainID)
    requires
        v.committee_key is Some,
        v.pause[domain] == PauseState::Paused,
    ensures
        v.unpause_verdict(domain) is Ok,
        after_call(v, StoreCall::Unpause(domain)).is_active(domain),
        after_call(v, StoreCall::Unpause(domain)).unpause_verdict(domain) == Err::<(), Error>(
            Error::BridgeUnpaused,
        ),
{
}

/// Marking a nonce consumes that nonce of that domain and no other.
pub proof fn law_mark_consumes_one(
    v: StateView,
    domain: DomainID,
    nonce: DepositNonce,
    d: DomainID,
    n: DepositNonce,
)
    ensures
        after_call(v, StoreCall::MarkNonceUsed(domain, nonce)).is_nonce_used(d, n) == ((d, n) == (
            domain,
            nonce,
        ) || v.is_nonce_used(d, n)),
{
}

/// A nonce is consumed exactly if its bucket holds it: nonce `n` stands in
/// bucket `n / 256` at offset `n % 256`.
pub proof fn law_bucket_holds_its_nonces(v: StateView, domain: DomainID, nonce: DepositNonce)
    ensures
        v.is_nonce_used(domain, nonce) == v.bucket(domain, nonce / 256).contains(
            (nonce % 256) as int,
        ),
{
    let index = nonce / 256;
    let offset = (nonce % 256) as int;
    assert(index * 256 + offset == nonce);
}

/// A consumed nonce stays consumed, whatever is called afterwards.
pub proof fn law_used_nonce_stays_used(
    v: StateView,
    domain: DomainID,
    nonce: DepositNonce,
    calls: Seq<StoreCall>,
)
    requires
        v.is_nonce_used(domain, nonce),
    ensures
        after_calls(v, calls).is_nonce_used(domain, nonce),
    decreases calls.len(),
{
    if calls.len() > 0 {
        law_used_nonce_stays_used(v, domain, nonce, calls.drop_last());
    }
}

/// The nonces of a domain are handed out in order: each successful call
/// gives the number of those handed out before it.
pub proof fn law_deposit_nonces_count_up(v: StateView, domain: DomainID)
    requires
        v.deposit_counts[domain] < u64::MAX,
    ensures
        after_call(v, StoreCall::NextDepositNonce(domain)).deposit_counts[domain]
            == v.deposit_counts[domain] + 1,
        forall|d: DomainID|
            d != domain ==> after_call(v, StoreCall::NextDepositNonce(domain)).deposit_counts[d]
                == v.deposit_counts[d],
{
}

/// A deposit counter never goes down and is never reset, whatever is
/// called.
pub proof fn law_deposit_counts_never_decrease(
    v: StateView,
    domain: DomainID,
    calls: Seq<StoreCall>,
)
    ensures
        after_calls(v, calls).deposit_counts[domain] >= v.deposit_counts[domain],
    decreases calls.len(),
{
    if calls.len() > 0 {
        law_deposit_counts_never_decrease(v, domain, calls.drop_last());
    }
}

/// A domain that is recognized stays recognized, whatever is called.
pub proof fn law_recognized_domain_stays_recognized(
    v: StateView,
    domain: DomainID,
    calls: Seq<StoreCall>,
)
    requires
        v.pause[domain] != PauseState::Unrecognized,
    ensures
        after_calls(v, calls).pause[domain] != PauseState::Unrecognized,
    decreases calls.len(),
{
    if calls.len() > 0 {
        law_recognized_domain_stays_recognized(v, domain, calls.drop_last());
    }
}

/// The bridge changes its persisted state through the calls of the state
/// store and in no other way, so that the laws of that state hold of the
/// bridge.
pub proof fn law_bridge_steps_are_store_calls(
    v: BridgeView,
    allowed: bool,
    key: CommitteeKey,
    domain: DomainID,
    plan: DepositPlan,
    p: ProposalView,
    outcome: Result<(), Error>,
)
    ensures
        set_mpc_key_step(v, allowed, key).1.store == if allowed {
            after_call(v.store, StoreCall::SetCommitteeKey(key))
        } else {
            v.store
        },
        pause_step(v, allowed, domain).1.store == if allowed {
            after_call(v.store, StoreCall::Pause(domain))
        } else {
            v.store
        },
        unpause_step(v, allowed, domain).1.store == if allowed {
            after_call(v.store, StoreCall::Unpause(domain))
        } else {
            v.store
        },
        plan.nonce == v.store.deposit_counts[plan.domain] && plan.nonce < u64::MAX
            ==> after_deposit(v, plan).store == after_call(
            v.store,
            StoreCall::NextDepositNonce(plan.domain),
        ),
        after_proposal(v, p, outcome).store == if admission(v, p) is Ok && outcome is Ok {
            after_call(v.store, StoreCall::MarkNonceUsed(p.origin_domain_id, p.deposit_nonce))
        } else {
            v.store
        },
{
}

/// An executed proposal has consumed its nonce, and has left its origin
/// domain active.
pub proof fn law_execution_consumes_nonce(v: BridgeView, p: ProposalView)
    requires
        admission(v, p) is Ok,
    ensures
        after_proposal(v, p, Ok(())).store.is_nonce_used(p.origin_domain_id, p.deposit_nonce),
        after_proposal(v, p, Ok(())).store.is_active(p.origin_domain_id),
        !v.store.is_nonce_used(p.origin_domain_id, p.deposit_nonce),
{
}

/// A proposal whose nonce is consumed is never executed: it ends in an
/// error, which is `ProposalAlreadyComplete` while its origin domain is
/// active, and it changes nothing, so that nobody is credited twice.
pub proof fn law_replay_rejected(v: BridgeView, p: ProposalView, outcome: Result<(), Error>)
    requires
        v.store.is_nonce_used(p.origin_domain_id, p.deposit_nonce),
        outcome_allowed(v, p, outcome),
    ensures
        outcome is Err,
        v.store.is_active(p.origin_domain_id) ==> outcome == Err::<(), Error>(
            Error::ProposalAlreadyComplete,
        ),
        after_proposal(v, p, outcome) == v,
{
}

/// Submitting a proposal a second time, in a batch of its own, fails with
/// `ProposalAlreadyComplete` and changes nothing, whatever payload and
/// resource the second submission carries under the same origin and nonce.
pub proof fn law_replayed_batch_rejected(
    v: BridgeView,
    p: ProposalView,
    first: Seq<Result<(), Error>>,
    q: ProposalView,
    second: Seq<Result<(), Error>>,
)
    requires
        q.origin_domain_id == p.origin_domain_id,
        q.deposit_nonce == p.deposit_nonce,
        batch_allowed(v, seq![p], first),
        first[0] is Ok,
        batch_allowed(after_batch(v, seq![p], first, 1), seq![q], second),
    ensures
        second[0] == Err::<(), Error>(Error::ProposalAlreadyComplete),
        after_batch(after_batch(v, seq![p], first, 1), seq![q], second, 1) == after_batch(
            v,
            seq![p],
            first,
            1,
        ),
{
    let ps = seq![p];
    let qs = seq![q];
    assert(ps.len() == 1 && ps[0] == p);
    assert(qs.len() == 1 && qs[0] == q);
    assert(after_batch(v, ps, first, 0) == v);
    assert(outcome_allowed(after_batch(v, ps, first, 0), ps[0], first[0]));
    let v1 = after_batch(v, ps, first, 1);
    assert(v1 == after_proposal(after_batch(v, ps, first, 0), ps[0], first[0]));
    law_execution_consumes_nonce(v, p);
    assert(after_batch(v1, qs, second, 0) == v1);
    assert(outcome_allowed(after_batch(v1, qs, second, 0), qs[0], second[0]));
    assert(after_batch(v1, qs, second, 1) == after_proposal(
        after_batch(v1, qs, second, 0),
        qs[0],
        second[0],
    ));
    law_replay_rejected(v1, q, second[0]);
}

/// Whatever the ledger accepts, the outcome of a proposal is one that the
/// checks allow.
pub proof fn law_outcome_is_allowed<A: AssetTransactor>(v: BridgeView, p: ProposalView)
    ensures
        outcome_allowed(v, p, proposal_outcome::<A>(v, p)),
{
}

/// A batch has one sequence of outcomes and no other: the checks and the
/// ledger decide each of them.
pub proof fn law_batch_outcomes_determined<A: AssetTransactor>(
    v: BridgeView,
    proposals: Seq<ProposalView>,
    a: Seq<Result<(), Error>>,
    b: Seq<Result<(), Error>>,
)
    requires
        batch_executed::<A>(v, proposals, a),
        batch_executed::<A>(v, proposals, b),
    ensures
        a == b,
{
    lemma_same_outcomes::<A>(v, proposals, a, b, proposals.len());
    assert(a =~= b);
}

proof fn lemma_same_outcomes<A: AssetTransactor>(
    v: BridgeView,
    proposals: Seq<ProposalView>,
    a: Seq<Result<(), Error>>,
    b: Seq<Result<(), Error>>,
    n: nat,
)
    requires
        batch_executed::<A>(v, proposals, a),
        batch_executed::<A>(v, proposals, b),
        n <= proposals.len(),
    ensures
        forall|i: int| 0 <= i < n ==> a[i] == b[i],
    decreases n,
{
    if n > 0 {
        let k = (n - 1) as nat;
        lemma_same_outcomes::<A>(v, proposals, a, b, k);
        lemma_after_batch_prefix(v, proposals, a, b, k);
        assert(a[k as int] == proposal_outcome::<A>(
            after_batch(v, proposals, a, k),
            proposals[k as int],
        ));
        assert(b[k as int] == proposal_outcome::<A>(
            after_batch(v, proposals, b, k),
            proposals[k as int],
        ));
    }
}

/// A batch touches the consumed nonces and the holdings, and nothing else:
/// not the committee key, not a pause status, not a deposit counter, not the
/// registry, the reserves or the events.
pub proof fn law_batch_changes_nonces_and_holdings_only(
    v: BridgeView,
    proposals: Seq<ProposalView>,
    outcomes: Seq<Result<(), Error>>,
    n: nat,
)
    ensures
        after_batch(v, proposals, outcomes, n).store.committee_key == v.store.committee_key,
        after_batch(v, proposals, outcomes, n).store.pause == v.store.pause,
        after_batch(v, proposals, outcomes, n).store.deposit_counts == v.store.deposit_counts,
        after_batch(v, proposals, outcomes, n).registry == v.registry,
        after_batch(v, proposals, outcomes, n).transfer_reserve == v.transfer_reserve,
        after_batch(v, proposals, outcomes, n).fee_reserve == v.fee_reserve,
        after_batch(v, proposals, outcomes, n).events == v.events,
    decreases n,
{
    if n > 0 {
        law_batch_changes_nonces_and_holdings_only(v, proposals, outcomes, (n - 1) as nat);
    }
}

/// A nonce that was consumed before a batch is consumed after it.
pub proof fn law_batch_keeps_used_nonces(
    v: BridgeView,
    proposals: Seq<ProposalView>,
    outcomes: Seq<Result<(), Error>>,
    n: nat,
    domain: DomainID,
    nonce: DepositNonce,
)
    requires
        v.store.is_nonce_used(domain, nonce),
    ensures
        after_batch(v, proposals, outcomes, n).store.is_nonce_used(domain, nonce),
    decreases n,
{
    if n > 0 {
        law_batch_keeps_used_nonces(v, proposals, outcomes, (n - 1) as nat, domain, nonce);
    }
}

/// A nonce that a batch has consumed is the nonce of one of its proposals,
/// and the outcome of that proposal is success.
pub proof fn law_batch_consumes_executed_nonces_only(
    v: BridgeView,
    proposals: Seq<ProposalView>,
    outcomes: Seq<Result<(), Error>>,
    n: nat,
    domain: DomainID,
    nonce: DepositNonce,
)
    requires
        !v.store.is_nonce_used(domain, nonce),
        after_batch(v, proposals, outcomes, n).store.is_nonce_used(domain, nonce),
    ensures
        exists|i: int|
            0 <= i < n && (#[trigger] proposals[i]).origin_domain_id == domain
                && proposals[i].deposit_nonce == nonce && outcomes[i] is Ok,
    decreases n,
{
    if n > 0 {
        let k = (n - 1) as nat;
        let before = after_batch(v, proposals, outcomes, k);
        if before.store.is_nonce_used(domain, nonce) {
            law_batch_consumes_executed_nonces_only(v, proposals, outcomes, k, domain, nonce);
        } else {
            let p = proposals[k as int];
            assert(p.origin_domain_id == domain && p.deposit_nonce == nonce && outcomes[k as int]
                is Ok);
        }
    }
}

/// On the ledger held in memory a deposit that passes every check succeeds,
/// if the sender holds the amount and each reserve has room for it.
pub proof fn law_funded_deposit_succeeds(v: BridgeView, plan: DepositPlan)
    requires
        plan.fee < plan.amount,
        holding(v.balances, plan.sender, plan.asset) >= plan.amount,
        holding(v.balances, v.fee_reserve, plan.asset) + plan.amount <= u128::MAX,
        holding(v.balances, v.transfer_reserve, plan.asset) + plan.amount <= u128::MAX,
    ensures
        movements_accepted::<Ledger>(v, plan),
        deposit_step::<Ledger>(v, Ok(plan)) == (
            Ok::<DepositNonce, Error>(plan.nonce),
            after_deposit(v, plan),
        ),
{
}

/// On the ledger held in memory a proposal that passes every check is
/// executed, if its recipient has room for the credit.
pub proof fn law_credit_with_room_succeeds(v: BridgeView, p: ProposalView)
    requires
        admission(v, p) is Ok,
        holding(v.balances, admission(v, p)->Ok_0.recipient, admission(v, p)->Ok_0.asset)
            + admission(v, p)->Ok_0.amount <= u128::MAX,
    ensures
        proposal_outcome::<Ledger>(v, p) == Ok::<(), Error>(()),
{
}

/// A deposit towards a domain that is not active fails with `BridgePaused`,
/// if the caller holds an account, the asset is bound and the destination
/// is well formed.
pub proof fn law_deposit_paused(
    v: BridgeView,
    origin: Origin,
    asset: Asset,
    dest: LocationView,
    fee_of: spec_fn(DomainID) -> u128,
)
    requires
        origin is Signed,
        resource_of(v.registry, asset.id) is Some,
        destination_of(dest) is Some,
        !v.store.is_active(destination_domain(dest)),
    ensures
        deposit_plan(v, origin, asset, dest, fee_of) == Err::<DepositPlan, Error>(
            Error::BridgePaused,
        ),
{
}

/// Once its domain is unpaused, a deposit that failed for the pause alone
/// passes every check: what is left to fail is the ledger.
pub proof fn law_deposit_after_unpause(
    v: BridgeView,
    origin: Origin,
    asset: Asset,
    dest: LocationView,
    fee_of: spec_fn(DomainID) -> u128,
)
    requires
        origin is Signed,
        resource_of(v.registry, asset.id) is Some,
        destination_of(dest) is Some,
        v.store.committee_key is Some,
        v.store.pause[destination_domain(dest)] == PauseState::Paused,
        asset.amount > fee_of(destination_domain(dest)),
        v.store.deposit_counts[destination_domain(dest)] < u64::MAX,
    ensures
        deposit_plan(v, origin, asset, dest, fee_of) == Err::<DepositPlan, Error>(
            Error::BridgePaused,
        ),
        unpause_step(v, true, destination_domain(dest)).0 is Ok,
        deposit_plan(
            unpause_step(v, true, destination_domain(dest)).1,
            origin,
            asset,
            dest,
            fee_of,
        ) is Ok,
{
}

} // verus!
