//! The bridge: its privileged operations, the outbound deposit and the
//! execution of inbound proposals.

use crate::bitmap::NonceBitmap;
use crate::location::{destination_of, extract_dest, Location, LocationView};
use crate::registry::{asset_of, resource_of, ResourceRegistry};
use crate::store::{BridgeStateStore, StateView};
use crate::traits::{credited, debited, holding, AssetTransactor, Balances, Config};
use crate::types::{
    event_views, AccountId, Asset, AssetId, CommitteeKey, DepositNonce, DomainID, Error, Event,
    EventView, Origin, PauseState, Proposal, ProposalView, ResourceId,
};
use crate::wire::{batch_message, decode_transfer, decoded_transfer, proposal_views, signing_message};
use vstd::prelude::*;

verus! {

/// Mathematical value of a bridge.
pub struct BridgeView {
    /// The persisted state.
    pub store: StateView,
    /// The resource of each bound asset.
    pub registry: Map<AssetId, ResourceId>,
    /// The account that holds what was sent out.
    pub transfer_reserve: AccountId,
    /// The account that collects the fees.
    pub fee_reserve: AccountId,
    /// The holdings on the ledger.
    pub balances: Balances,
    /// Everything that was emitted, oldest first.
    pub events: Seq<EventView>,
}

/// What a privileged call gives when the caller is `allowed` or not and the
/// state answers `verdict` and would become `next`.
pub open spec fn privileged_step(
    v: BridgeView,
    allowed: bool,
    verdict: Result<(), Error>,
    next: StateView,
) -> (Result<(), Error>, BridgeView) {
    if !allowed {
        (Err(Error::BadOrigin), v)
    } else if verdict is Err {
        (verdict, v)
    } else {
        (Ok(()), BridgeView { store: next, ..v })
    }
}

/// What setting the committee key gives.
pub open spec fn set_mpc_key_step(v: BridgeView, allowed: bool, key: CommitteeKey) -> (
    Result<(), Error>,
    BridgeView,
) {
    privileged_step(v, allowed, v.store.key_verdict(), v.store.with_key(key))
}

/// What pausing `domain` gives.
pub open spec fn pause_step(v: BridgeView, allowed: bool, domain: DomainID) -> (
    Result<(), Error>,
    BridgeView,
) {
    privileged_step(
        v,
        allowed,
        v.store.pause_verdict(),
        v.store.with_pause(domain, PauseState::Paused),
    )
}

/// What unpausing `domain` gives.
pub open spec fn unpause_step(v: BridgeView, allowed: bool, domain: DomainID) -> (
    Result<(), Error>,
    BridgeView,
) {
    privileged_step(
        v,
        allowed,
        v.store.unpause_verdict(domain),
        v.store.with_pause(domain, PauseState::Unpaused),
    )
}

/// A deposit that passed every check and waits for the assets to move.
pub struct DepositPlan {
    pub sender: AccountId,
    pub asset: AssetId,
    pub amount: u128,
    pub resource_id: ResourceId,
    pub domain: DomainID,
    pub recipient: Seq<u8>,
    pub fee: u128,
    pub nonce: DepositNonce,
}

/// The checks of a deposit, in their order: the caller holds an account, the
/// asset is bound, the destination names a domain and a recipient, the
/// domain is active, the amount exceeds the fee `fee_of(domain)`, and the
/// domain has a nonce left.
pub open spec fn deposit_plan(
    v: BridgeView,
    origin: Origin,
    asset: Asset,
    dest: LocationView,
    fee_of: spec_fn(DomainID) -> u128,
) -> Result<DepositPlan, Error> {
    match (origin, resource_of(v.registry, asset.id), destination_of(dest)) {
        (Origin::Signed(sender), Some(resource_id), Some((domain, recipient))) => {
            if !v.store.is_active(domain) {
                Err(Error::BridgePaused)
            } else if asset.amount <= fee_of(domain) {
                Err(Error::InsufficientAmount)
            } else if v.store.deposit_counts[domain] >= u64::MAX {
                Err(Error::DepositNonceExhausted)
            } else {
                Ok(
                    DepositPlan {
                        sender,
                        asset: asset.id,
                        amount: asset.amount,
                        resource_id,
                        domain,
                        recipient,
                        fee: fee_of(domain),
                        nonce: v.store.deposit_counts[domain] as DepositNonce,
                    },
                )
            }
        },
        (Origin::Signed(_), Some(_), None) => Err(Error::InvalidDestination),
        (Origin::Signed(_), None, _) => Err(Error::AssetNotBound),
        _ => Err(Error::BadOrigin),
    }
}

/// The holdings once the assets of `plan` have moved: the amount leaves the
/// sender, the fee reaches the fee reserve, the rest the transfer reserve.
pub open spec fn deposited_balances(v: BridgeView, plan: DepositPlan) -> Balances {
    credited(
        credited(
            debited(v.balances, plan.sender, plan.asset, plan.amount as nat),
            v.fee_reserve,
            plan.asset,
            plan.fee as nat,
        ),
        v.transfer_reserve,
        plan.asset,
        (plan.amount - plan.fee) as nat,
    )
}

/// The event that tells of the deposit of `plan`.
pub open spec fn deposit_event(plan: DepositPlan) -> EventView {
    EventView::Deposit {
        dest_domain_id: plan.domain,
        resource_id: plan.resource_id,
        deposit_nonce: plan.nonce,
        sender: plan.sender,
        recipient: plan.recipient,
        amount: (plan.amount - plan.fee) as u128,
    }
}

/// The bridge once the deposit of `plan` is done: the assets have moved, the
/// counter of the domain has advanced, the event is emitted.
pub open spec fn after_deposit(v: BridgeView, plan: DepositPlan) -> BridgeView {
    BridgeView {
        store: v.store.with_deposit(plan.domain),
        balances: deposited_balances(v, plan),
        events: v.events.push(deposit_event(plan)),
        ..v
    }
}

/// Whether the ledger accepts the three movements of `plan`, each in the
/// holdings that the one before it has left.
pub open spec fn movements_accepted<A: AssetTransactor>(v: BridgeView, plan: DepositPlan) -> bool {
    let withdrawn = debited(v.balances, plan.sender, plan.asset, plan.amount as nat);
    let fee_paid = credited(withdrawn, v.fee_reserve, plan.asset, plan.fee as nat);
    &&& A::accepts_withdraw(v.balances, plan.sender, plan.asset, plan.amount)
    &&& A::accepts_deposit(withdrawn, v.fee_reserve, plan.asset, plan.fee)
    &&& A::accepts_deposit(
        fee_paid,
        v.transfer_reserve,
        plan.asset,
        (plan.amount - plan.fee) as u128,
    )
}

/// What a deposit gives: the error of the check that it fails; where it
/// passes them all and the ledger accepts its movements, the nonce, and the
/// bridge with the deposit done; where the ledger refuses one of them,
/// `TransactorFailed`, and the bridge as it was.
pub open spec fn deposit_step<A: AssetTransactor>(
    v: BridgeView,
    checked: Result<DepositPlan, Error>,
) -> (Result<DepositNonce, Error>, BridgeView) {
    match checked {
        Ok(plan) => if movements_accepted::<A>(v, plan) {
            (Ok(plan.nonce), after_deposit(v, plan))
        } else {
            (Err(Error::TransactorFailed), v)
        },
        Err(e) => (Err(e), v),
    }
}

/// What a proposal asks to credit.
pub struct Credit {
    pub asset: AssetId,
    pub recipient: AccountId,
    pub amount: u128,
}

/// The checks of a proposal, in their order: the origin domain is active,
/// the nonce was not consumed, the resource is bound, the payload is a
/// transfer.
pub open spec fn admission(v: BridgeView, p: ProposalView) -> Result<Credit, Error> {
    if !v.store.is_active(p.origin_domain_id) {
        Err(Error::BridgePaused)
    } else if v.store.is_nonce_used(p.origin_domain_id, p.deposit_nonce) {
        Err(Error::ProposalAlreadyComplete)
    } else {
        match (asset_of(v.registry, p.resource_id), decoded_transfer(p.data)) {
            (Some(asset), Some((recipient, amount))) => Ok(Credit { asset, recipient, amount }),
            (Some(_), None) => Err(Error::MalformedProposal),
            (None, _) => Err(Error::AssetNotBound),
        }
    }
}

/// Whether executing `p` can end in `outcome`: a proposal that fails a check
/// ends in the error of that check; one that passes them all is executed,
/// unless the ledger refuses the credit.
pub open spec fn outcome_allowed(v: BridgeView, p: ProposalView, outcome: Result<(), Error>)
    -> bool {
    match admission(v, p) {
        Ok(_) => outcome is Ok || outcome == Err::<(), Error>(Error::TransactorFailed),
        Err(e) => outcome == Err::<(), Error>(e),
    }
}

/// The outcome of executing `p`: the error of the check that it fails;
/// where it passes them all, success if the ledger accepts the credit, and
/// `TransactorFailed` if it does not.
pub open spec fn proposal_outcome<A: AssetTransactor>(v: BridgeView, p: ProposalView) -> Result<
    (),
    Error,
> {
    match admission(v, p) {
        Ok(credit) => if A::accepts_deposit(
            v.balances,
            credit.recipient,
            credit.asset,
            credit.amount,
        ) {
            Ok(())
        } else {
            Err(Error::TransactorFailed)
        },
        Err(e) => Err(e),
    }
}

/// The bridge once `p` has ended in `outcome`: an executed proposal has
/// credited its recipient and consumed its nonce, any other has changed
/// nothing.
pub open spec fn after_proposal(v: BridgeView, p: ProposalView, outcome: Result<(), Error>)
    -> BridgeView {
    match (admission(v, p), outcome) {
        (Ok(credit), Ok(_)) => BridgeView {
            store: v.store.with_nonce(p.origin_domain_id, p.deposit_nonce),
            balances: credited(v.balances, credit.recipient, credit.asset, credit.amount as nat),
            ..v
        },
        _ => v,
    }
}

/// The bridge once the first `n` proposals of a batch have ended in the
/// first `n` of `outcomes`, one after another.
pub open spec fn after_batch(
    v: BridgeView,
    proposals: Seq<ProposalView>,
    outcomes: Seq<Result<(), Error>>,
    n: nat,
) -> BridgeView
    decreases n,
{
    if n == 0 {
        v
    } else {
        after_proposal(
            after_batch(v, proposals, outcomes, (n - 1) as nat),
            proposals[n - 1],
            outcomes[n - 1],
        )
    }
}

/// Whether a batch can end in `outcomes`: there is one outcome for each
/// proposal, and each is one that its proposal can have in the state that
/// the proposals before it have left.
pub open spec fn batch_allowed(
    v: BridgeView,
    proposals: Seq<ProposalView>,
    outcomes: Seq<Result<(), Error>>,
) -> bool {
    &&& outcomes.len() == proposals.len()
    &&& forall|i: nat|
        i < proposals.len() ==> outcome_allowed(
            #[trigger] after_batch(v, proposals, outcomes, i),
            proposals[i as int],
            outcomes[i as int],
        )
}

/// Whether `outcomes` are the outcomes of a batch: there is one for each
/// proposal, and each is the outcome of its proposal in the state that the
/// proposals before it have left.
pub open spec fn batch_executed<A: AssetTransactor>(
    v: BridgeView,
    proposals: Seq<ProposalView>,
    outcomes: Seq<Result<(), Error>>,
) -> bool {
    &&& outcomes.len() == proposals.len()
    &&& forall|i: nat|
        i < proposals.len() ==> outcomes[i as int] == proposal_outcome::<A>(
            #[trigger] after_batch(v, proposals, outcomes, i),
            proposals[i as int],
        )
}

/// Whether the committee has attested to a batch: a key is set, and the
/// signature is one of that key over the message of the batch.
pub open spec fn attested(v: BridgeView, signed: spec_fn(CommitteeKey) -> bool) -> bool {
    v.store.committee_key is Some && signed(v.store.committee_key->0)
}

/// The first `n` steps of a batch depend on the first `n` outcomes only.
pub proof fn lemma_after_batch_prefix(
    v: BridgeView,
    proposals: Seq<ProposalView>,
    a: Seq<Result<(), Error>>,
    b: Seq<Result<(), Error>>,
    n: nat,
)
    requires
        forall|i: int| 0 <= i < n ==> a[i] == b[i],
    ensures
        after_batch(v, proposals, a, n) == after_batch(v, proposals, b, n),
    decreases n,
{
    if n > 0 {
        lemma_after_batch_prefix(v, proposals, a, b, (n - 1) as nat);
    }
}

/// The end of a deposit, once the ledger has answered whether the three
/// movements went through, within the scope that was opened for them.
///
/// If they `moved`, the scope is committed, the domain gives its next nonce,
/// the event is emitted, and the nonce is the answer. If they did not, the
/// scope is rolled back and nothing else changes. So it is, too, if the
/// domain has no nonce left.
pub fn conclude_deposit<A: AssetTransactor>(
    store: &mut BridgeStateStore,
    ledger: &mut A,
    events: &mut Vec<Event>,
    domain: DomainID,
    resource_id: ResourceId,
    sender: AccountId,
    recipient: Vec<u8>,
    amount: u128,
    moved: bool,
) -> (done: Result<DepositNonce, Error>)
    ensures
        done is Ok == (moved && old(store)@.deposit_counts[domain] < u64::MAX),
        done is Ok ==> {
            &&& done->Ok_0 == old(store)@.deposit_counts[domain]
            &&& final(store)@ == old(store)@.with_deposit(domain)
            &&& final(ledger).balances() == old(ledger).balances()
            &&& event_views(final(events)@) == event_views(old(events)@).push(
                EventView::Deposit {
                    dest_domain_id: domain,
                    resource_id,
                    deposit_nonce: done->Ok_0,
                    sender,
                    recipient: recipient@,
                    amount,
                },
            )
        },
        done is Err ==> {
            &&& done->Err_0 == if moved {
                Error::DepositNonceExhausted
            } else {
                Error::TransactorFailed
            }
            &&& final(store)@ == old(store)@
            &&& final(ledger).balances() == old(ledger).rollback_point()
            &&& event_views(final(events)@) == event_views(old(events)@)
        },
{
    if !moved {
        ledger.rollback();
        return Err(Error::TransactorFailed);
    }
    let nonce = match store.next_deposit_nonce(domain) {
        Some(nonce) => nonce,
        None => {
            ledger.rollback();
            return Err(Error::DepositNonceExhausted);
        },
    };
    ledger.commit();
    let ghost recipient_view = recipient@;
    events.push(
        Event::Deposit {
            dest_domain_id: domain,
            resource_id,
            deposit_nonce: nonce,
            sender,
            recipient,
            amount,
        },
    );
    proof {
        assert(event_views(events@) =~= event_views(old(events)@).push(
            EventView::Deposit {
                dest_domain_id: domain,
                resource_id,
                deposit_nonce: nonce,
                sender,
                recipient: recipient_view,
                amount,
            },
        ));
    }
    Ok(nonce)
}

/// The end of a proposal, once the ledger has answered whether the credit
/// went through: if it `moved`, the nonce is consumed; if it did not, the
/// nonce stays free and the proposal has failed.
pub fn conclude_proposal(store: &mut BridgeStateStore, proposal: &Proposal, moved: bool) -> (done:
    Result<(), Error>)
    ensures
        done is Ok == moved,
        moved ==> done == Ok::<(), Error>(()) && final(store)@ == old(store)@.with_nonce(
            proposal.origin_domain_id,
            proposal.deposit_nonce,
        ),
        !moved ==> done == Err::<(), Error>(Error::TransactorFailed) && final(store)@ == old(
            store,
        )@,
{
    if !moved {
        return Err(Error::TransactorFailed);
    }
    store.mark_nonce_used(proposal.origin_domain_id, proposal.deposit_nonce);
    Ok(())
}

/// A bridge deployment: the persisted state, the registry of resources, the
/// two reserve accounts, the ledger it moves assets on, and the log of what
/// it has emitted.
pub struct Pallet<T: Config> {
    store: BridgeStateStore,
    registry: ResourceRegistry,
    transfer_reserve: AccountId,
    fee_reserve: AccountId,
    ledger: T::AssetTransactor,
    events: Vec<Event>,
}

impl<T: Config> View for Pallet<T> {
    type V = BridgeView;

    closed spec fn view(&self) -> BridgeView {
        BridgeView {
            store: self.store@,
            registry: self.registry@,
            transfer_reserve: self.transfer_reserve,
            fee_reserve: self.fee_reserve,
            balances: self.ledger.balances(),
            events: event_views(self.events@),
        }
    }
}

impl<T: Config> Pallet<T> {
    /// The fee of the host for `asset`, by domain.
    pub open spec fn fee_of(asset: Asset) -> spec_fn(DomainID) -> u128 {
        |domain: DomainID| T::fee(asset.id, domain, asset.amount)
    }

    /// Whether `signature` is one of the host's scheme over the message of
    /// `proposals`, by key.
    pub open spec fn signed(proposals: Seq<ProposalView>, signature: Seq<u8>) -> spec_fn(
        CommitteeKey,
    ) -> bool {
        |key: CommitteeKey| T::signed_by(key, batch_message(proposals), signature)
    }

    /// A bridge that was never touched, on `ledger` as it stands.
    pub fn new(
        registry: ResourceRegistry,
        transfer_reserve: AccountId,
        fee_reserve: AccountId,
        ledger: T::AssetTransactor,
    ) -> (bridge: Self)
        ensures
            bridge@ == (BridgeView {
                store: StateView::initial(),
                registry: registry@,
                transfer_reserve,
                fee_reserve,
                balances: ledger.balances(),
                events: Seq::empty(),
            }),
    {
        let bridge = Pallet {
            store: BridgeStateStore::new(),
            registry,
            transfer_reserve,
            fee_reserve,
            ledger,
            events: Vec::new(),
        };
        assert(bridge@.events =~= Seq::<EventView>::empty());
        bridge
    }

    /// The committee key, once it is set.
    pub fn mpc_key(&self) -> (key: Option<CommitteeKey>)
        ensures
            key == self@.store.committee_key,
    {
        self.store.committee_key()
    }

    /// Whether `id` is paused; nothing for a domain that is not recognized.
    pub fn is_paused(&self, id: DomainID) -> (paused: Option<bool>)
        ensures
            paused == match self@.store.pause[id] {
                PauseState::Unrecognized => None,
                PauseState::Paused => Some(true),
                PauseState::Unpaused => Some(false),
            },
    {
        match self.store.pause_state(id) {
            PauseState::Unrecognized => None,
            PauseState::Paused => Some(true),
            PauseState::Unpaused => Some(false),
        }
    }

    /// The number of deposits made so far towards `id`.
    pub fn dest_counts(&self, id: DomainID) -> (count: DepositNonce)
        ensures
            count == self@.store.deposit_counts[id],
    {
        self.store.deposit_count(id)
    }

    /// Whether the proposal that carries `nonce` from `id` was executed.
    pub fn is_proposal_executed(&self, id: DomainID, nonce: DepositNonce) -> (executed: bool)
        ensures
            executed == self@.store.is_nonce_used(id, nonce),
    {
        self.store.is_nonce_used(id, nonce)
    }

    /// The bitmap of bucket `bucket` of the nonces of `id`: the bit at an
    /// offset is set exactly if the proposal whose nonce stands at that place
    /// of the bucket was executed.
    pub fn used_nonces(&self, id: DomainID, bucket: u64) -> (bitmap: NonceBitmap)
        ensures
            bitmap@ == self@.store.bucket(id, bucket),
    {
        self.store.nonce_bucket(id, bucket)
    }

    /// The bridge gives every domain a pause status and a deposit counter.
    pub proof fn lemma_view_total(&self)
        ensures
            self@.store.total(),
    {
        self.store.lemma_view_total();
    }

    /// The ledger that the bridge moves assets on.
    pub fn ledger(&self) -> (ledger: &T::AssetTransactor)
        ensures
            ledger.balances() == self@.balances,
    {
        &self.ledger
    }

    /// Everything that was emitted, oldest first.
    pub fn events(&self) -> (events: &Vec<Event>)
        ensures
            event_views(events@) == self@.events,
    {
        &self.events
    }

    /// Pauses the bridge with `id`. Transfers with that domain fail until it
    /// is unpaused. A domain that was not recognized becomes a paused one.
    pub fn pause_bridge(&mut self, origin: Origin, id: DomainID) -> (done: Result<(), Error>)
        ensures
            (done, final(self)@) == pause_step(old(self)@, T::is_committee_origin(origin), id),
    {
        if !T::ensure_committee_origin(&origin) {
            return Err(Error::BadOrigin);
        }
        self.store.pause(id)
    }

    /// Unpauses the bridge with `id`.
    pub fn unpause_bridge(&mut self, origin: Origin, id: DomainID) -> (done: Result<(), Error>)
        ensures
            (done, final(self)@) == unpause_step(old(self)@, T::is_committee_origin(origin), id),
    {
        if !T::ensure_committee_origin(&origin) {
            return Err(Error::BadOrigin);
        }
        self.store.unpause(id)
    }

    /// Sets the committee key, once and for all.
    pub fn set_mpc_key(&mut self, origin: Origin, key: CommitteeKey) -> (done: Result<(), Error>)
        ensures
            (done, final(self)@) == set_mpc_key_step(
                old(self)@,
                T::is_committee_origin(origin),
                key,
            ),
    {
        if !T::ensure_committee_origin(&origin) {
            return Err(Error::BadOrigin);
        }
        self.store.set_committee_key(key)
    }

    /// Takes in a transfer of `asset` from the caller towards `dest`.
    ///
    /// A deposit that fails a check changes nothing and answers with the
    /// error of that check. One that passes them all moves the assets as one
    /// unit, takes the next nonce of the domain, emits the event and answers
    /// with the nonce, if the ledger accepts the three movements; if it
    /// refuses one of them, the holdings are as before, and so is everything
    /// else.
    pub fn deposit(&mut self, origin: Origin, asset: Asset, dest: Location) -> (done: Result<
        DepositNonce,
        Error,
    >)
        ensures
            (done, final(self)@) == deposit_step::<T::AssetTransactor>(
                old(self)@,
                deposit_plan(old(self)@, origin, asset, dest@, Self::fee_of(asset)),
            ),
            done is Ok ==> origin is Signed && holding(
                old(self)@.balances,
                origin->Signed_0,
                asset.id,
            ) >= asset.amount,
    {
        let sender = match origin {
            Origin::Signed(who) => who,
            _ => {
                return Err(Error::BadOrigin);
            },
        };
        let resource_id = match self.registry.lookup(&asset.id) {
            Some(resource_id) => resource_id,
            None => {
                return Err(Error::AssetNotBound);
            },
        };
        let (domain, recipient) = match extract_dest(&dest) {
            Some(destination) => destination,
            None => {
                return Err(Error::InvalidDestination);
            },
        };
        if !self.store.is_active(domain) {
            return Err(Error::BridgePaused);
        }
        let fee = T::compute_fee(&asset.id, domain, asset.amount);
        if asset.amount <= fee {
            return Err(Error::InsufficientAmount);
        }
        if self.store.deposit_count(domain) == u64::MAX {
            return Err(Error::DepositNonceExhausted);
        }
        let fee_reserve = self.fee_reserve;
        let transfer_reserve = self.transfer_reserve;
        self.ledger.begin();
        let moved = self.ledger.withdraw(&sender, &asset.id, asset.amount) && self.ledger.deposit(
            &fee_reserve,
            &asset.id,
            fee,
        ) && self.ledger.deposit(&transfer_reserve, &asset.id, asset.amount - fee);
        conclude_deposit(
            &mut self.store,
            &mut self.ledger,
            &mut self.events,
            domain,
            resource_id,
            sender,
            recipient,
            asset.amount - fee,
            moved,
        )
    }

    /// Asks the relayers to try again the deposit behind `hash`. Nothing
    /// moves: the request is emitted, and that is all. Anybody may ask.
    pub fn retry(&mut self, origin: Origin, hash: [u8; 32]) -> (done: Result<(), Error>)
        ensures
            done is Ok,
            final(self)@ == (BridgeView {
                events: old(self)@.events.push(EventView::Retry(hash)),
                ..old(self)@
            }),
    {
        self.events.push(Event::Retry(hash));
        proof {
            assert(self@.events =~= old(self)@.events.push(EventView::Retry(hash)));
        }
        Ok(())
    }

    /// Whether the committee has attested to `proposals` with `signature`.
    /// Without a committee key nothing is attested.
    pub fn verify(&self, proposals: &Vec<Proposal>, signature: &Vec<u8>) -> (valid: bool)
        ensures
            valid == attested(self@, Self::signed(proposal_views(proposals@), signature@)),
    {
        match self.store.committee_key() {
            Some(key) => {
                let message = signing_message(proposals);
                T::check_signature(&key, message.as_slice(), signature.as_slice())
            },
            None => false,
        }
    }

    /// Executes one proposal of an attested batch: checks it, credits its
    /// recipient, and only then consumes its nonce.
    pub(crate) fn execute_single(&mut self, proposal: &Proposal) -> (done: Result<(), Error>)
        ensures
            done == proposal_outcome::<T::AssetTransactor>(old(self)@, proposal@),
            final(self)@ == after_proposal(old(self)@, proposal@, done),
    {
        if !self.store.is_active(proposal.origin_domain_id) {
            return Err(Error::BridgePaused);
        }
        if self.store.is_nonce_used(proposal.origin_domain_id, proposal.deposit_nonce) {
            return Err(Error::ProposalAlreadyComplete);
        }
        let asset = match self.registry.reverse_lookup(&proposal.resource_id) {
            Some(asset) => asset,
            None => {
                return Err(Error::AssetNotBound);
            },
        };
        let (recipient, amount) = match decode_transfer(proposal.data.as_slice()) {
            Some(transfer) => transfer,
            None => {
                return Err(Error::MalformedProposal);
            },
        };
        let moved = self.ledger.deposit(&recipient, &asset, amount);
        conclude_proposal(&mut self.store, proposal, moved)
    }

    /// Executes a batch of proposals, if the committee has attested to it.
    ///
    /// Anybody may submit a batch: the signature authorizes it, not the
    /// caller. A batch without a valid signature is rejected as a whole and
    /// changes nothing. Of an attested batch each proposal is executed by
    /// itself, in the order of the batch, and has its own outcome: one that
    /// fails leaves the bridge as the proposals before it have left it. What
    /// each outcome is, the checks and the ledger decide, and nothing else.
    /// So a proposal that was executed before is told off in its own
    /// outcome, with `ProposalAlreadyComplete`, and not as the error of the
    /// call.
    pub fn execute_proposal(
        &mut self,
        origin: Origin,
        proposals: Vec<Proposal>,
        signature: Vec<u8>,
    ) -> (done: Result<Vec<Result<(), Error>>, Error>)
        ensures
            match done {
                Ok(outcomes) => {
                    &&& attested(
                        old(self)@,
                        Self::signed(proposal_views(proposals@), signature@),
                    )
                    &&& batch_executed::<T::AssetTransactor>(
                        old(self)@,
                        proposal_views(proposals@),
                        outcomes@,
                    )
                    &&& batch_allowed(old(self)@, proposal_views(proposals@), outcomes@)
                    &&& final(self)@ == after_batch(
                        old(self)@,
                        proposal_views(proposals@),
                        outcomes@,
                        proposals@.len(),
                    )
                },
                Err(e) => {
                    &&& !attested(
                        old(self)@,
                        Self::signed(proposal_views(proposals@), signature@),
                    )
                    &&& e == Error::BadMpcSignature
                    &&& final(self)@ == old(self)@
                },
            },
    {
        if !self.verify(&proposals, &signature) {
            return Err(Error::BadMpcSignature);
        }
        let ghost start = self@;
        let ghost views = proposal_views(proposals@);
        let n = proposals.len();
        let mut outcomes: Vec<Result<(), Error>> = Vec::new();
        let mut i: usize = 0;
        while i < n
            invariant
                n == proposals@.len(),
                i <= n,
                views == proposal_views(proposals@),
                outcomes@.len() == i,
                self@ == after_batch(start, views, outcomes@, i as nat),
                forall|k: nat|
                    k < i ==> outcomes@[k as int] == proposal_outcome::<T::AssetTransactor>(
                        #[trigger] after_batch(start, views, outcomes@, k),
                        views[k as int],
                    ),
            decreases n - i,
        {
            let ghost before = outcomes@;
            let outcome = self.execute_single(&proposals[i]);
            outcomes.push(outcome);
            proof {
                assert(views[i as int] == proposals@[i as int]@);
                assert forall|k: nat| k <= i implies #[trigger] after_batch(
                    start,
                    views,
                    outcomes@,
                    k,
                ) == after_batch(start, views, before, k) by {
                    lemma_after_batch_prefix(start, views, outcomes@, before, k);
                }
                assert(after_batch(start, views, outcomes@, (i + 1) as nat) == after_proposal(
                    after_batch(start, views, outcomes@, i as nat),
                    views[i as int],
                    outcomes@[i as int],
                ));
            }
            i += 1;
        }
        Ok(outcomes)
    }
}

} // verus!
