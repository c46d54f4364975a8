//! The persisted state of the bridge: the committee key, the pause status of
//! every domain, the deposit counters and the ledger of consumed nonces.

use crate::bitmap::NonceBitmap;
use crate::types::{CommitteeKey, DepositNonce, DomainID, Error, PauseState};
use std::collections::HashMap;
use vstd::prelude::*;

verus! {

broadcast use vstd::std_specs::hash::group_hash_axioms;

/// Number of domains that a `DomainID` can name.
pub const DOMAIN_COUNT: usize = 256;

/// Number of nonces that one bitmap records.
pub const BUCKET_SIZE: u64 = 256;

/// Number of buckets that the nonces of one domain fall into.
pub const BUCKETS_PER_DOMAIN: u64 = 0x0100_0000_0000_0000;

/// Mathematical value of a [`BridgeStateStore`].
pub struct StateView {
    /// The committee key, once it is set.
    pub committee_key: Option<CommitteeKey>,
    /// The pause status of every domain.
    pub pause: Map<DomainID, PauseState>,
    /// The number of deposits made so far towards every domain.
    pub deposit_counts: Map<DomainID, nat>,
    /// The consumed nonces of every origin domain.
    pub used_nonces: Set<(DomainID, DepositNonce)>,
}

impl StateView {
    /// The state of a bridge that was never touched.
    pub open spec fn initial() -> StateView {
        StateView {
            committee_key: None,
            pause: Map::new(|d: DomainID| true, |d: DomainID| PauseState::Unrecognized),
            deposit_counts: Map::new(|d: DomainID| true, |d: DomainID| 0nat),
            used_nonces: Set::empty(),
        }
    }

    /// Every domain has a pause status and a deposit counter.
    pub open spec fn total(self) -> bool {
        &&& forall|d: DomainID| self.pause.contains_key(d)
        &&& forall|d: DomainID| self.deposit_counts.contains_key(d)
    }

    /// Whether transfers with `domain` are admitted.
    pub open spec fn is_active(self, domain: DomainID) -> bool {
        self.pause[domain] == PauseState::Unpaused
    }

    /// Whether the proposal that carries `nonce` from `domain` was executed.
    pub open spec fn is_nonce_used(self, domain: DomainID, nonce: DepositNonce) -> bool {
        self.used_nonces.contains((domain, nonce))
    }

    /// The consumed nonces of `domain` that fall into bucket `index`, each
    /// by its place in the bucket: bucket `index` holds the nonces from
    /// `256 * index` to `256 * index + 255`.
    pub open spec fn bucket(self, domain: DomainID, index: u64) -> Set<int> {
        Set::new(
            |offset: int|
                0 <= offset < BUCKET_SIZE && index * BUCKET_SIZE + offset <= u64::MAX
                    && self.used_nonces.contains(
                    (domain, (index * BUCKET_SIZE + offset) as DepositNonce),
                ),
        )
    }

    /// The state once `key` is stored as the committee key.
    pub open spec fn with_key(self, key: CommitteeKey) -> StateView {
        StateView { committee_key: Some(key), ..self }
    }

    /// The state once `domain` has the pause status `state`.
    pub open spec fn with_pause(self, domain: DomainID, state: PauseState) -> StateView {
        StateView { pause: self.pause.insert(domain, state), ..self }
    }

    /// The state once one more deposit towards `domain` is counted.
    pub open spec fn with_deposit(self, domain: DomainID) -> StateView {
        StateView {
            deposit_counts: self.deposit_counts.insert(domain, self.deposit_counts[domain] + 1),
            ..self
        }
    }

    /// The state once `nonce` from `domain` is consumed.
    pub open spec fn with_nonce(self, domain: DomainID, nonce: DepositNonce) -> StateView {
        StateView { used_nonces: self.used_nonces.insert((domain, nonce)), ..self }
    }

    /// What `set_committee_key` answers in this state.
    pub open spec fn key_verdict(self) -> Result<(), Error> {
        if self.committee_key is Some {
            Err(Error::MpcKeyNotUpdatable)
        } else {
            Ok(())
        }
    }

    /// What `pause` answers in this state.
    pub open spec fn pause_verdict(self) -> Result<(), Error> {
        if self.committee_key is None {
            Err(Error::MissingMpcKey)
        } else {
            Ok(())
        }
    }

    /// What `unpause` of `domain` answers in this state.
    pub open spec fn unpause_verdict(self, domain: DomainID) -> Result<(), Error> {
        if self.committee_key is None {
            Err(Error::MissingMpcKey)
        } else if self.pause[domain] == PauseState::Unrecognized {
            Err(Error::BridgeNotRecognized)
        } else if self.pause[domain] == PauseState::Unpaused {
            Err(Error::BridgeUnpaused)
        } else {
            Ok(())
        }
    }
}

/// A call of one of the operations that change the state.
pub enum StoreCall {
    SetCommitteeKey(CommitteeKey),
    Pause(DomainID),
    Unpause(DomainID),
    NextDepositNonce(DomainID),
    MarkNonceUsed(DomainID, DepositNonce),
}

/// The state that `call` leaves: the change that the operation makes where
/// it succeeds, and no change where it fails.
pub open spec fn after_call(v: StateView, call: StoreCall) -> StateView {
    match call {
        StoreCall::SetCommitteeKey(key) => if v.key_verdict() is Ok {
            v.with_key(key)
        } else {
            v
        },
        StoreCall::Pause(domain) => if v.pause_verdict() is Ok {
            v.with_pause(domain, PauseState::Paused)
        } else {
            v
        },
        StoreCall::Unpause(domain) => if v.unpause_verdict(domain) is Ok {
            v.with_pause(domain, PauseState::Unpaused)
        } else {
            v
        },
        StoreCall::NextDepositNonce(domain) => if v.deposit_counts[domain] < u64::MAX {
            v.with_deposit(domain)
        } else {
            v
        },
        StoreCall::MarkNonceUsed(domain, nonce) => v.with_nonce(domain, nonce),
    }
}

/// The state that a sequence of calls leaves, the first call first.
pub open spec fn after_calls(v: StateView, calls: Seq<StoreCall>) -> StateView
    decreases calls.len(),
{
    if calls.len() == 0 {
        v
    } else {
        after_call(after_calls(v, calls.drop_last()), calls.last())
    }
}

/// The place of the bitmap that records `nonce` of `domain`: the buckets of
/// one domain lie side by side, and the domains one after another.
pub open spec fn bucket_key(domain: DomainID, nonce: DepositNonce) -> u64 {
    (domain as u64 * BUCKETS_PER_DOMAIN + nonce / BUCKET_SIZE) as u64
}

/// The bit that records `nonce` within its bitmap.
pub open spec fn bucket_offset(nonce: DepositNonce) -> int {
    (nonce % BUCKET_SIZE) as int
}

/// Two nonces share a bitmap and a bit only if they are the same nonce of
/// the same domain.
pub proof fn lemma_bucket_place_injective(
    d1: DomainID,
    n1: DepositNonce,
    d2: DomainID,
    n2: DepositNonce,
)
    requires
        bucket_key(d1, n1) == bucket_key(d2, n2),
        bucket_offset(n1) == bucket_offset(n2),
    ensures
        d1 == d2,
        n1 == n2,
{
    let b1 = n1 as int / 256;
    let b2 = n2 as int / 256;
    assert(0 <= b1 < 0x0100_0000_0000_0000);
    assert(0 <= b2 < 0x0100_0000_0000_0000);
    assert(d1 as int * 0x0100_0000_0000_0000 + b1 <= u64::MAX);
    assert(d2 as int * 0x0100_0000_0000_0000 + b2 <= u64::MAX);
    assert(d1 as int * 0x0100_0000_0000_0000 + b1 == d2 as int * 0x0100_0000_0000_0000 + b2);
    assert(n1 as int == 256 * b1 + n1 as int % 256);
    assert(n2 as int == 256 * b2 + n2 as int % 256);
}

/// The state of the bridge.
///
/// All of it is owned here and changes only through the operations below, so
/// that the committee key is set at most once and a consumed nonce stays
/// consumed.
pub struct BridgeStateStore {
    committee_key: Option<CommitteeKey>,
    pause: [PauseState; DOMAIN_COUNT],
    deposit_counts: [DepositNonce; DOMAIN_COUNT],
    used: HashMap<u64, NonceBitmap>,
}

impl View for BridgeStateStore {
    type V = StateView;

    closed spec fn view(&self) -> StateView {
        StateView {
            committee_key: self.committee_key,
            pause: Map::new(|d: DomainID| true, |d: DomainID| self.pause@[d as int]),
            deposit_counts: Map::new(
                |d: DomainID| true,
                |d: DomainID| self.deposit_counts@[d as int] as nat,
            ),
            used_nonces: Set::new(|p: (DomainID, DepositNonce)| self.recorded(p.0, p.1)),
        }
    }
}

fn bucket_key_of(domain: DomainID, nonce: DepositNonce) -> (key: u64)
    ensures
        key == bucket_key(domain, nonce),
{
    domain as u64 * BUCKETS_PER_DOMAIN + nonce / BUCKET_SIZE
}

impl BridgeStateStore {
    spec fn recorded(&self, domain: DomainID, nonce: DepositNonce) -> bool {
        let key = bucket_key(domain, nonce);
        self.used@.contains_key(key) && self.used@[key]@.contains(bucket_offset(nonce))
    }

    /// The state of a bridge that was never touched: no key, every domain
    /// unrecognized, every counter at zero, no nonce consumed.
    pub fn new() -> (store: BridgeStateStore)
        ensures
            store@ == StateView::initial(),
    {
        let store = BridgeStateStore {
            committee_key: None,
            pause: [PauseState::Unrecognized; DOMAIN_COUNT],
            deposit_counts: [0; DOMAIN_COUNT],
            used: HashMap::new(),
        };
        proof {
            assert(store@.pause =~= StateView::initial().pause);
            assert(store@.deposit_counts =~= StateView::initial().deposit_counts);
            assert(store@.used_nonces =~= StateView::initial().used_nonces);
        }
        store
    }

    /// The committee key, once it is set.
    pub fn committee_key(&self) -> (key: Option<CommitteeKey>)
        ensures
            key == self@.committee_key,
    {
        self.committee_key
    }

    /// Stores the committee key, unless one is stored already.
    pub fn set_committee_key(&mut self, key: CommitteeKey) -> (done: Result<(), Error>)
        ensures
            done == old(self)@.key_verdict(),
            final(self)@ == after_call(old(self)@, StoreCall::SetCommitteeKey(key)),
    {
        if self.committee_key.is_some() {
            return Err(Error::MpcKeyNotUpdatable);
        }
        self.committee_key = Some(key);
        proof {
            assert(self@.used_nonces =~= old(self)@.used_nonces);
        }
        Ok(())
    }

    /// The pause status of `domain`.
    pub fn pause_state(&self, domain: DomainID) -> (state: PauseState)
        ensures
            state == self@.pause[domain],
    {
        self.pause[domain as usize]
    }

    /// Whether transfers with `domain` are admitted.
    pub fn is_active(&self, domain: DomainID) -> (active: bool)
        ensures
            active == self@.is_active(domain),
    {
        match self.pause_state(domain) {
            PauseState::Unpaused => true,
            _ => false,
        }
    }

    /// Pauses `domain`, whatever its status was, once a committee key is set.
    pub fn pause(&mut self, domain: DomainID) -> (done: Result<(), Error>)
        ensures
            done == old(self)@.pause_verdict(),
            final(self)@ == after_call(old(self)@, StoreCall::Pause(domain)),
    {
        if self.committee_key.is_none() {
            return Err(Error::MissingMpcKey);
        }
        self.pause[domain as usize] = PauseState::Paused;
        proof {
            assert(self@.pause =~= old(self)@.pause.insert(domain, PauseState::Paused));
            assert(self@.used_nonces =~= old(self)@.used_nonces);
        }
        Ok(())
    }

    /// Unpauses `domain` if it is paused and a committee key is set.
    pub fn unpause(&mut self, domain: DomainID) -> (done: Result<(), Error>)
        ensures
            done == old(self)@.unpause_verdict(domain),
            final(self)@ == after_call(old(self)@, StoreCall::Unpause(domain)),
    {
        if self.committee_key.is_none() {
            return Err(Error::MissingMpcKey);
        }
        match self.pause[domain as usize] {
            PauseState::Unrecognized => Err(Error::BridgeNotRecognized),
            PauseState::Unpaused => Err(Error::BridgeUnpaused),
            PauseState::Paused => {
                self.pause[domain as usize] = PauseState::Unpaused;
                proof {
                    assert(self@.pause =~= old(self)@.pause.insert(domain, PauseState::Unpaused));
                    assert(self@.used_nonces =~= old(self)@.used_nonces);
                }
                Ok(())
            },
        }
    }

    /// The number of deposits made so far towards `domain`, which is the
    /// nonce that the next one gets.
    pub fn deposit_count(&self, domain: DomainID) -> (count: DepositNonce)
        ensures
            count == self@.deposit_counts[domain],
    {
        self.deposit_counts[domain as usize]
    }

    /// Hands out the next nonce of `domain` and advances its counter.
    ///
    /// The first nonce of a domain is 0. No nonce is handed out, and nothing
    /// changes, once the counter has reached the largest value it can hold.
    pub fn next_deposit_nonce(&mut self, domain: DomainID) -> (nonce: Option<DepositNonce>)
        ensures
            nonce is Some == (old(self)@.deposit_counts[domain] < u64::MAX),
            nonce is Some ==> nonce->0 == old(self)@.deposit_counts[domain],
            final(self)@ == after_call(old(self)@, StoreCall::NextDepositNonce(domain)),
    {
        let current = self.deposit_counts[domain as usize];
        if current == u64::MAX {
            return None;
        }
        self.deposit_counts[domain as usize] = current + 1;
        proof {
            assert(self@.deposit_counts =~= old(self)@.with_deposit(domain).deposit_counts);
            assert(self@.used_nonces =~= old(self)@.used_nonces);
        }
        Some(current)
    }

    /// Whether the proposal that carries `nonce` from `domain` was executed.
    pub fn is_nonce_used(&self, domain: DomainID, nonce: DepositNonce) -> (used: bool)
        ensures
            used == self@.is_nonce_used(domain, nonce),
    {
        let key = bucket_key_of(domain, nonce);
        match self.used.get(&key) {
            Some(bitmap) => bitmap.test((nonce % BUCKET_SIZE) as u8),
            None => false,
        }
    }

    /// The bitmap of bucket `index` of `domain`: the bit at an offset is set
    /// exactly if the nonce at that place of the bucket is consumed.
    pub fn nonce_bucket(&self, domain: DomainID, index: u64) -> (bitmap: NonceBitmap)
        ensures
            bitmap@ == self@.bucket(domain, index),
    {
        if index >= BUCKETS_PER_DOMAIN {
            let bitmap = NonceBitmap::empty();
            assert(bitmap@ =~= self@.bucket(domain, index));
            return bitmap;
        }
        let key = domain as u64 * BUCKETS_PER_DOMAIN + index;
        let bitmap = match self.used.get(&key) {
            Some(bitmap) => *bitmap,
            None => NonceBitmap::empty(),
        };
        proof {
            assert forall|offset: int| bitmap@.contains(offset) == self@.bucket(
                domain,
                index,
            ).contains(offset) by {
                if bitmap@.contains(offset) {
                    bitmap.lemma_offsets_in_range(offset);
                }
                if 0 <= offset < 256 {
                    let nonce = (index * 256 + offset) as DepositNonce;
                    assert(nonce as int / 256 == index as int);
                    assert(nonce as int % 256 == offset);
                    assert(bucket_key(domain, nonce) == key);
                    assert(bucket_offset(nonce) == offset);
                    assert(self@.used_nonces.contains((domain, nonce)) == self.recorded(
                        domain,
                        nonce,
                    ));
                }
            }
            assert(bitmap@ =~= self@.bucket(domain, index));
        }
        bitmap
    }

    /// The state gives every domain a pause status and a deposit counter.
    pub proof fn lemma_view_total(&self)
        ensures
            self@.total(),
    {
    }

    /// Records that the proposal that carries `nonce` from `domain` was
    /// executed. No other nonce changes, and nothing ever clears the record.
    pub fn mark_nonce_used(&mut self, domain: DomainID, nonce: DepositNonce)
        ensures
            final(self)@ == after_call(old(self)@, StoreCall::MarkNonceUsed(domain, nonce)),
    {
        let key = bucket_key_of(domain, nonce);
        let offset = (nonce % BUCKET_SIZE) as u8;
        let current = match self.used.get(&key) {
            Some(bitmap) => *bitmap,
            None => NonceBitmap::empty(),
        };
        self.used.insert(key, current.with(offset));
        proof {
            assert forall|p: (DomainID, DepositNonce)|
                self.recorded(p.0, p.1) == (p == (domain, nonce) || old(self).recorded(
                    p.0,
                    p.1,
                )) by {
                if bucket_key(p.0, p.1) == key && bucket_offset(p.1) == offset as int {
                    lemma_bucket_place_injective(p.0, p.1, domain, nonce);
                }
            }
            assert(self@.used_nonces =~= old(self)@.used_nonces.insert((domain, nonce)));
        }
    }
}

} // verus!
