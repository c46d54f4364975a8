//! Plain data shared by every component of the bridge.

use vstd::prelude::*;

verus! {

/// Identifies a remote domain taking part in the bridge.
pub type DomainID = u8;

/// Position of a deposit in the sequence sent to one destination domain.
pub type DepositNonce = u64;

/// Bridge-wide name of a fungible asset class.
pub type ResourceId = [u8; 32];

/// Account on the local ledger.
pub type AccountId = [u8; 32];

/// Local name of a fungible asset class.
pub type AssetId = [u8; 32];

/// Public key material of the signing committee.
pub type CommitteeKey = [u8; 32];

/// Pause status of a remote domain.
#[derive(Clone, Copy, Debug, PartialEq, Eq, Structural)]
pub enum PauseState {
    /// The domain was never paused nor unpaused.
    Unrecognized,
    /// Transfers from and to the domain are rejected.
    Paused,
    /// Transfers from and to the domain are admitted.
    Unpaused,
}

/// Reasons for which the bridge rejects a call.
#[derive(Clone, Copy, Debug, PartialEq, Eq, Structural)]
pub enum Error {
    /// The caller lacks the authority that the call asks for.
    BadOrigin,
    /// The batch is not attested by the committee key.
    BadMpcSignature,
    /// No committee key is configured yet.
    MissingMpcKey,
    /// A committee key is configured already and can never change.
    MpcKeyNotUpdatable,
    /// The domain is not active.
    BridgePaused,
    /// The domain was never paused, so there is nothing to unpause.
    BridgeNotRecognized,
    /// The domain is unpaused already.
    BridgeUnpaused,
    /// The destination does not name a domain and a recipient.
    InvalidDestination,
    /// The amount does not exceed the fee.
    InsufficientAmount,
    /// No resource is bound to the asset, or no asset to the resource.
    AssetNotBound,
    /// The deposit counter of the domain cannot advance any further.
    DepositNonceExhausted,
    /// The proposal was executed before.
    ProposalAlreadyComplete,
    /// The payload of the proposal is not a recipient and an amount.
    MalformedProposal,
    /// The ledger refused to move the asset.
    TransactorFailed,
}

/// Who makes a call.
#[derive(Clone, Copy, Debug, PartialEq, Eq)]
pub enum Origin {
    /// The administrative authority of the host.
    Root,
    /// The holder of an account.
    Signed(AccountId),
    /// Nobody in particular.
    Anonymous,
}

/// An amount of one asset class.
#[derive(Clone, Copy, Debug, PartialEq, Eq)]
pub struct Asset {
    pub id: AssetId,
    pub amount: u128,
}

/// One instruction to credit a local account, born from a deposit on a
/// remote domain.
#[derive(Clone, Debug, PartialEq, Eq)]
pub struct Proposal {
    pub origin_domain_id: DomainID,
    pub deposit_nonce: DepositNonce,
    pub resource_id: ResourceId,
    pub data: Vec<u8>,
}

/// Mathematical value of a [`Proposal`].
pub struct ProposalView {
    pub origin_domain_id: DomainID,
    pub deposit_nonce: DepositNonce,
    pub resource_id: ResourceId,
    pub data: Seq<u8>,
}

impl View for Proposal {
    type V = ProposalView;

    open spec fn view(&self) -> ProposalView {
        ProposalView {
            origin_domain_id: self.origin_domain_id,
            deposit_nonce: self.deposit_nonce,
            resource_id: self.resource_id,
            data: self.data@,
        }
    }
}

/// What the bridge tells the relayers that watch it.
#[derive(Clone, Debug, PartialEq, Eq)]
pub enum Event {
    /// A transfer towards a remote domain was taken in.
    Deposit {
        dest_domain_id: DomainID,
        resource_id: ResourceId,
        deposit_nonce: DepositNonce,
        sender: AccountId,
        recipient: Vec<u8>,
        amount: u128,
    },
    /// Somebody asks that the deposit behind this reference be tried again.
    Retry([u8; 32]),
}

/// Mathematical value of an [`Event`].
pub enum EventView {
    Deposit {
        dest_domain_id: DomainID,
        resource_id: ResourceId,
        deposit_nonce: DepositNonce,
        sender: AccountId,
        recipient: Seq<u8>,
        amount: u128,
    },
    Retry([u8; 32]),
}

impl View for Event {
    type V = EventView;

    open spec fn view(&self) -> EventView {
        match self {
            Event::Deposit {
                dest_domain_id,
                resource_id,
                deposit_nonce,
                sender,
                recipient,
                amount,
            } => EventView::Deposit {
                dest_domain_id: *dest_domain_id,
                resource_id: *resource_id,
                deposit_nonce: *deposit_nonce,
                sender: *sender,
                recipient: recipient@,
                amount: *amount,
            },
            Event::Retry(reference) => EventView::Retry(*reference),
        }
    }
}

/// The values of the events of a log.
pub open spec fn event_views(events: Seq<Event>) -> Seq<EventView> {
    events.map_values(|e: Event| e@)
}

/// Compares two 32-byte identifiers.
pub fn bytes32_eq(a: &[u8; 32], b: &[u8; 32]) -> (same: bool)
    ensures
        same == (*a == *b),
{
    let mut i: usize = 0;
    while i < 32
        invariant
            i <= 32,
            forall|j: int| 0 <= j < i ==> a@[j] == b@[j],
        decreases 32 - i,
    {
        if a[i] != b[i] {
            return false;
        }
        i += 1;
    }
    assert(a@ =~= b@);
    assert(*a =~= *b);
    true
}

} // verus!
