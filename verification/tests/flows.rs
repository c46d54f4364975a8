use sygma_bridge::ledger::Ledger;
use sygma_bridge::location::{Junction, Location};
use sygma_bridge::bitmap::NonceBitmap;
use sygma_bridge::pallet::{conclude_deposit, conclude_proposal, Pallet};
use sygma_bridge::store::BridgeStateStore;
use sygma_bridge::registry::ResourceRegistry;
use sygma_bridge::traits::{AssetTransactor, Config};
use sygma_bridge::types::{
    AccountId, Asset, AssetId, CommitteeKey, DomainID, Error, Event, Origin, Proposal, ResourceId,
};
use sygma_bridge::wire::{encode_transfer, signing_message};

const FEE: u128 = 10;
const ALICE: AccountId = [1; 32];
const BOB: AccountId = [2; 32];
const TRANSFER_RESERVE: AccountId = [100; 32];
const FEE_RESERVE: AccountId = [101; 32];
const USDC: AssetId = [50; 32];
const USDC_RESOURCE: ResourceId = [60; 32];
const UNBOUND: AssetId = [51; 32];
const KEY: CommitteeKey = [0; 32];

fn digest(message: &[u8]) -> u64 {
    let mut hash: u64 = 0xcbf2_9ce4_8422_2325;
    for byte in message {
        hash ^= *byte as u64;
        hash = hash.wrapping_mul(0x0000_0100_0000_01b3);
    }
    hash
}

/// A stand-in for a signature scheme: the signature is the key, blended
/// with a digest of the message.
fn sign(key: &CommitteeKey, message: &[u8]) -> Vec<u8> {
    let digest = digest(message).to_le_bytes();
    let mut signature = Vec::new();
    for i in 0..32 {
        signature.push(key[i] ^ digest[i % 8]);
    }
    signature
}

struct Runtime;

impl Config for Runtime {
    type AssetTransactor = Ledger;

    fn ensure_committee_origin(origin: &Origin) -> bool {
        matches!(origin, Origin::Root)
    }

    fn compute_fee(_asset: &AssetId, _domain: DomainID, _amount: u128) -> u128 {
        FEE
    }

    fn check_signature(key: &CommitteeKey, message: &[u8], signature: &[u8]) -> bool {
        signature == sign(key, message).as_slice()
    }
}

fn new_bridge(alice_holds: u128) -> Pallet<Runtime> {
    let registry = ResourceRegistry::new(vec![(USDC, USDC_RESOURCE)]).unwrap();
    let mut ledger = Ledger::new();
    assert!(ledger.deposit(&ALICE, &USDC, alice_holds));
    Pallet::new(registry, TRANSFER_RESERVE, FEE_RESERVE, ledger)
}

fn active_bridge(alice_holds: u128, domain: DomainID) -> Pallet<Runtime> {
    let mut bridge = new_bridge(alice_holds);
    assert_eq!(bridge.set_mpc_key(Origin::Root, KEY), Ok(()));
    assert_eq!(bridge.pause_bridge(Origin::Root, domain), Ok(()));
    assert_eq!(bridge.unpause_bridge(Origin::Root, domain), Ok(()));
    bridge
}

fn destination(domain: u128, recipient: &[u8]) -> Location {
    Location {
        parents: 0,
        interior: vec![Junction::GeneralKey(recipient.to_vec()), Junction::GeneralIndex(domain)],
    }
}

fn usdc(amount: u128) -> Asset {
    Asset { id: USDC, amount }
}

fn proposal(domain: DomainID, nonce: u64, recipient: &AccountId, amount: u128) -> Proposal {
    Proposal {
        origin_domain_id: domain,
        deposit_nonce: nonce,
        resource_id: USDC_RESOURCE,
        data: encode_transfer(recipient, amount),
    }
}

/// Submits `p` in an attested batch of its own and gives its outcome.
fn execute_one(bridge: &mut Pallet<Runtime>, p: Proposal) -> Result<(), Error> {
    let batch = vec![p];
    let signature = sign(&KEY, &signing_message(&batch));
    let mut outcomes = bridge.execute_proposal(Origin::Anonymous, batch, signature).unwrap();
    assert_eq!(outcomes.len(), 1);
    outcomes.remove(0)
}

fn holdings(bridge: &Pallet<Runtime>) -> [u128; 4] {
    [
        bridge.ledger().balance(&ALICE, &USDC),
        bridge.ledger().balance(&BOB, &USDC),
        bridge.ledger().balance(&TRANSFER_RESERVE, &USDC),
        bridge.ledger().balance(&FEE_RESERVE, &USDC),
    ]
}

#[test]
fn deposit_through_pause_and_unpause() {
    let mut bridge = new_bridge(1_000);
    let recipient = [0xAB_u8; 20];
    assert_eq!(bridge.is_paused(7), None);
    assert_eq!(bridge.pause_bridge(Origin::Root, 7), Err(Error::MissingMpcKey));
    assert_eq!(bridge.set_mpc_key(Origin::Root, [0; 32]), Ok(()));
    assert_eq!(bridge.pause_bridge(Origin::Root, 7), Ok(()));

    assert_eq!(
        bridge.deposit(Origin::Signed(ALICE), usdc(200), destination(7, &recipient)),
        Err(Error::BridgePaused)
    );
    assert_eq!(holdings(&bridge), [1_000, 0, 0, 0]);
    assert_eq!(bridge.dest_counts(7), 0);
    assert!(bridge.events().is_empty());

    assert_eq!(bridge.unpause_bridge(Origin::Root, 7), Ok(()));
    assert_eq!(
        bridge.deposit(Origin::Signed(ALICE), usdc(200), destination(7, &recipient)),
        Ok(0)
    );
    assert_eq!(holdings(&bridge), [800, 0, 190, 10]);
    assert_eq!(
        bridge.deposit(Origin::Signed(ALICE), usdc(300), destination(7, &recipient)),
        Ok(1)
    );
    assert_eq!(holdings(&bridge), [500, 0, 480, 20]);
    assert_eq!(bridge.dest_counts(7), 2);
    assert_eq!(bridge.dest_counts(8), 0);
    assert_eq!(
        bridge.events(),
        &vec![
            Event::Deposit {
                dest_domain_id: 7,
                resource_id: USDC_RESOURCE,
                deposit_nonce: 0,
                sender: ALICE,
                recipient: recipient.to_vec(),
                amount: 190,
            },
            Event::Deposit {
                dest_domain_id: 7,
                resource_id: USDC_RESOURCE,
                deposit_nonce: 1,
                sender: ALICE,
                recipient: recipient.to_vec(),
                amount: 290,
            },
        ]
    );
}

#[test]
fn deposit_to_unrecognized_domain_is_paused() {
    let mut bridge = active_bridge(1_000, 7);
    assert_eq!(
        bridge.deposit(Origin::Signed(ALICE), usdc(200), destination(8, &[1])),
        Err(Error::BridgePaused)
    );
    assert_eq!(holdings(&bridge), [1_000, 0, 0, 0]);
}

#[test]
fn deposit_nonces_are_per_domain() {
    let mut bridge = active_bridge(1_000, 7);
    assert_eq!(bridge.pause_bridge(Origin::Root, 9), Ok(()));
    assert_eq!(bridge.unpause_bridge(Origin::Root, 9), Ok(()));
    assert_eq!(bridge.deposit(Origin::Signed(ALICE), usdc(11), destination(7, &[1])), Ok(0));
    assert_eq!(bridge.deposit(Origin::Signed(ALICE), usdc(11), destination(9, &[1])), Ok(0));
    assert_eq!(bridge.deposit(Origin::Signed(ALICE), usdc(11), destination(9, &[1])), Ok(1));
    assert_eq!(bridge.deposit(Origin::Signed(ALICE), usdc(11), destination(7, &[1])), Ok(1));
    assert_eq!(holdings(&bridge), [956, 0, 4, 40]);
}

#[test]
fn deposit_needs_an_account() {
    let mut bridge = active_bridge(1_000, 7);
    assert_eq!(
        bridge.deposit(Origin::Root, usdc(200), destination(7, &[1])),
        Err(Error::BadOrigin)
    );
    assert_eq!(
        bridge.deposit(Origin::Anonymous, usdc(200), destination(7, &[1])),
        Err(Error::BadOrigin)
    );
    assert_eq!(holdings(&bridge), [1_000, 0, 0, 0]);
    assert!(bridge.events().is_empty());
}

#[test]
fn deposit_of_unbound_asset() {
    let mut bridge = active_bridge(1_000, 7);
    let asset = Asset { id: UNBOUND, amount: 200 };
    // the unbound asset comes first, before anything else is looked at
    assert_eq!(
        bridge.deposit(Origin::Signed(ALICE), asset, destination(8, &[])),
        Err(Error::AssetNotBound)
    );
    assert_eq!(
        bridge.deposit(Origin::Signed(ALICE), asset, destination(7, &[1])),
        Err(Error::AssetNotBound)
    );
    assert_eq!(holdings(&bridge), [1_000, 0, 0, 0]);
}

#[test]
fn deposit_to_malformed_destination() {
    let mut bridge = active_bridge(1_000, 7);
    let key = Junction::GeneralKey(vec![1, 2, 3]);
    let index = Junction::GeneralIndex(7);
    let malformed = vec![
        Location { parents: 1, interior: vec![key.clone(), index.clone()] },
        Location { parents: 0, interior: vec![] },
        Location { parents: 0, interior: vec![key.clone()] },
        Location { parents: 0, interior: vec![index.clone(), key.clone()] },
        Location { parents: 0, interior: vec![key.clone(), index.clone(), index.clone()] },
        Location { parents: 0, interior: vec![key.clone(), Junction::Other] },
        Location { parents: 0, interior: vec![Junction::Other, index.clone()] },
        Location { parents: 0, interior: vec![key.clone(), key.clone()] },
        Location { parents: 0, interior: vec![Junction::GeneralKey(vec![]), index.clone()] },
        Location { parents: 0, interior: vec![key.clone(), Junction::GeneralIndex(256)] },
        Location { parents: 0, interior: vec![key.clone(), Junction::GeneralIndex(u128::MAX)] },
    ];
    for dest in malformed {
        assert_eq!(
            bridge.deposit(Origin::Signed(ALICE), usdc(200), dest),
            Err(Error::InvalidDestination)
        );
    }
    assert_eq!(holdings(&bridge), [1_000, 0, 0, 0]);
    assert_eq!(bridge.dest_counts(7), 0);
}

#[test]
fn deposit_must_exceed_the_fee() {
    let mut bridge = active_bridge(1_000, 7);
    for amount in [0u128, 1, 9, 10] {
        assert_eq!(
            bridge.deposit(Origin::Signed(ALICE), usdc(amount), destination(7, &[1])),
            Err(Error::InsufficientAmount)
        );
    }
    assert_eq!(holdings(&bridge), [1_000, 0, 0, 0]);
    assert_eq!(bridge.deposit(Origin::Signed(ALICE), usdc(11), destination(7, &[1])), Ok(0));
    assert_eq!(holdings(&bridge), [989, 0, 1, 10]);
}

#[test]
fn deposit_beyond_holdings_moves_nothing() {
    let mut bridge = active_bridge(100, 7);
    assert_eq!(
        bridge.deposit(Origin::Signed(ALICE), usdc(101), destination(7, &[1])),
        Err(Error::TransactorFailed)
    );
    assert_eq!(
        bridge.deposit(Origin::Signed(BOB), usdc(50), destination(7, &[1])),
        Err(Error::TransactorFailed)
    );
    assert_eq!(holdings(&bridge), [100, 0, 0, 0]);
    assert_eq!(bridge.dest_counts(7), 0);
    assert!(bridge.events().is_empty());
    assert_eq!(bridge.deposit(Origin::Signed(ALICE), usdc(100), destination(7, &[1])), Ok(0));
    assert_eq!(holdings(&bridge), [0, 0, 90, 10]);
}

#[test]
fn deposit_is_rolled_back_when_a_reserve_overflows() {
    let registry = ResourceRegistry::new(vec![(USDC, USDC_RESOURCE)]).unwrap();
    let mut ledger = Ledger::new();
    assert!(ledger.deposit(&ALICE, &USDC, 1_000));
    assert!(ledger.deposit(&TRANSFER_RESERVE, &USDC, u128::MAX - 50));
    let mut bridge: Pallet<Runtime> = Pallet::new(registry, TRANSFER_RESERVE, FEE_RESERVE, ledger);
    assert_eq!(bridge.set_mpc_key(Origin::Root, KEY), Ok(()));
    assert_eq!(bridge.pause_bridge(Origin::Root, 7), Ok(()));
    assert_eq!(bridge.unpause_bridge(Origin::Root, 7), Ok(()));
    // the sender and the fee reserve have moved when the third step fails
    assert_eq!(
        bridge.deposit(Origin::Signed(ALICE), usdc(200), destination(7, &[1])),
        Err(Error::TransactorFailed)
    );
    assert_eq!(holdings(&bridge), [1_000, 0, u128::MAX - 50, 0]);
    assert_eq!(bridge.dest_counts(7), 0);
    assert!(bridge.events().is_empty());
    // what still fits goes through
    assert_eq!(bridge.deposit(Origin::Signed(ALICE), usdc(60), destination(7, &[1])), Ok(0));
    assert_eq!(holdings(&bridge), [940, 0, u128::MAX, 10]);
}

#[test]
fn sender_may_be_a_reserve() {
    let registry = ResourceRegistry::new(vec![(USDC, USDC_RESOURCE)]).unwrap();
    let mut ledger = Ledger::new();
    assert!(ledger.deposit(&FEE_RESERVE, &USDC, 100));
    let mut bridge: Pallet<Runtime> = Pallet::new(registry, TRANSFER_RESERVE, FEE_RESERVE, ledger);
    assert_eq!(bridge.set_mpc_key(Origin::Root, KEY), Ok(()));
    assert_eq!(bridge.pause_bridge(Origin::Root, 7), Ok(()));
    assert_eq!(bridge.unpause_bridge(Origin::Root, 7), Ok(()));
    assert_eq!(bridge.deposit(Origin::Signed(FEE_RESERVE), usdc(40), destination(7, &[1])), Ok(0));
    assert_eq!(holdings(&bridge), [0, 0, 30, 70]);
}

#[test]
fn retry_emits_and_moves_nothing() {
    let mut bridge = active_bridge(1_000, 7);
    assert_eq!(bridge.retry(Origin::Signed(ALICE), [9; 32]), Ok(()));
    assert_eq!(bridge.retry(Origin::Anonymous, [8; 32]), Ok(()));
    assert_eq!(bridge.events(), &vec![Event::Retry([9; 32]), Event::Retry([8; 32])]);
    assert_eq!(holdings(&bridge), [1_000, 0, 0, 0]);
    assert_eq!(bridge.dest_counts(7), 0);
}

#[test]
fn proposal_is_executed_once() {
    let mut bridge = active_bridge(0, 7);
    let batch = vec![proposal(7, 0, &BOB, 100)];
    let signature = sign(&KEY, &signing_message(&batch));
    assert!(bridge.verify(&batch, &signature));
    assert!(!bridge.is_proposal_executed(7, 0));

    assert_eq!(
        bridge.execute_proposal(Origin::Anonymous, batch.clone(), signature.clone()),
        Ok(vec![Ok(())])
    );
    assert_eq!(holdings(&bridge), [0, 100, 0, 0]);
    assert!(bridge.is_proposal_executed(7, 0));
    assert!(!bridge.is_proposal_executed(7, 1));

    assert_eq!(
        bridge.execute_proposal(Origin::Anonymous, batch, signature),
        Ok(vec![Err(Error::ProposalAlreadyComplete)])
    );
    assert_eq!(holdings(&bridge), [0, 100, 0, 0]);
    assert!(bridge.events().is_empty());
}

#[test]
fn replay_with_another_payload_is_rejected() {
    let mut bridge = active_bridge(0, 7);
    let first = vec![proposal(7, 5, &BOB, 100)];
    let signature = sign(&KEY, &signing_message(&first));
    assert_eq!(bridge.execute_proposal(Origin::Root, first, signature), Ok(vec![Ok(())]));
    let second = vec![proposal(7, 5, &ALICE, 999)];
    let signature = sign(&KEY, &signing_message(&second));
    assert_eq!(
        bridge.execute_proposal(Origin::Root, second, signature),
        Ok(vec![Err(Error::ProposalAlreadyComplete)])
    );
    assert_eq!(holdings(&bridge), [0, 100, 0, 0]);
}

#[test]
fn batch_without_attestation_is_rejected() {
    let mut bridge = new_bridge(0);
    let batch = vec![proposal(7, 0, &BOB, 100)];
    let signature = sign(&KEY, &signing_message(&batch));
    // no committee key yet: nothing is attested
    assert!(!bridge.verify(&batch, &signature));
    assert_eq!(
        bridge.execute_proposal(Origin::Root, batch.clone(), signature.clone()),
        Err(Error::BadMpcSignature)
    );
    assert_eq!(bridge.set_mpc_key(Origin::Root, KEY), Ok(()));
    assert_eq!(bridge.pause_bridge(Origin::Root, 7), Ok(()));
    assert_eq!(bridge.unpause_bridge(Origin::Root, 7), Ok(()));

    // a signature of another key, of another batch, or no signature at all
    let other_key = sign(&[1; 32], &signing_message(&batch));
    let other_batch = sign(&KEY, &signing_message(&vec![proposal(7, 0, &BOB, 101)]));
    for bad in [other_key, other_batch, Vec::new(), vec![0; 32], vec![0; 65]] {
        assert!(!bridge.verify(&batch, &bad));
        assert_eq!(
            bridge.execute_proposal(Origin::Root, batch.clone(), bad),
            Err(Error::BadMpcSignature)
        );
    }
    assert_eq!(holdings(&bridge), [0, 0, 0, 0]);
    assert!(!bridge.is_proposal_executed(7, 0));
    assert_eq!(bridge.execute_proposal(Origin::Root, batch, signature), Ok(vec![Ok(())]));
    assert_eq!(holdings(&bridge), [0, 100, 0, 0]);
}

#[test]
fn each_proposal_of_a_batch_has_its_outcome() {
    let mut bridge = active_bridge(0, 7);
    assert_eq!(bridge.pause_bridge(Origin::Root, 8), Ok(()));
    let unbound = Proposal {
        origin_domain_id: 7,
        deposit_nonce: 2,
        resource_id: [61; 32],
        data: encode_transfer(&BOB, 5),
    };
    let malformed = Proposal {
        origin_domain_id: 7,
        deposit_nonce: 3,
        resource_id: USDC_RESOURCE,
        data: vec![1, 2, 3],
    };
    let batch = vec![
        proposal(7, 0, &BOB, 100),
        proposal(8, 0, &BOB, 1),
        proposal(9, 0, &BOB, 1),
        proposal(7, 0, &BOB, 100),
        unbound,
        malformed,
        proposal(7, 1, &ALICE, 7),
        proposal(7, 256, &BOB, 1),
    ];
    let signature = sign(&KEY, &signing_message(&batch));
    assert_eq!(
        bridge.execute_proposal(Origin::Anonymous, batch, signature),
        Ok(vec![
            Ok(()),
            Err(Error::BridgePaused),
            Err(Error::BridgePaused),
            Err(Error::ProposalAlreadyComplete),
            Err(Error::AssetNotBound),
            Err(Error::MalformedProposal),
            Ok(()),
            Ok(()),
        ])
    );
    assert_eq!(holdings(&bridge), [7, 101, 0, 0]);
    for (nonce, executed) in [(0u64, true), (1, true), (2, false), (3, false), (256, true)] {
        assert_eq!(bridge.is_proposal_executed(7, nonce), executed);
    }
    assert!(!bridge.is_proposal_executed(8, 0));
    assert!(!bridge.is_proposal_executed(9, 0));
}

#[test]
fn checks_of_a_proposal_come_in_order() {
    let mut bridge = active_bridge(0, 7);
    assert_eq!(bridge.pause_bridge(Origin::Root, 8), Ok(()));
    // paused comes before everything else
    let paused = Proposal { origin_domain_id: 8, deposit_nonce: 0, resource_id: [61; 32], data: vec![] };
    assert_eq!(execute_one(&mut bridge, paused), Err(Error::BridgePaused));
    // a consumed nonce comes before the resource and the payload
    assert_eq!(execute_one(&mut bridge, proposal(7, 0, &BOB, 1)), Ok(()));
    let replayed = Proposal { origin_domain_id: 7, deposit_nonce: 0, resource_id: [61; 32], data: vec![] };
    assert_eq!(execute_one(&mut bridge, replayed), Err(Error::ProposalAlreadyComplete));
    // an unbound resource comes before the payload
    let unbound = Proposal { origin_domain_id: 7, deposit_nonce: 1, resource_id: [61; 32], data: vec![] };
    assert_eq!(execute_one(&mut bridge, unbound), Err(Error::AssetNotBound));
    assert_eq!(holdings(&bridge), [0, 1, 0, 0]);
}

#[test]
fn payload_must_be_a_transfer() {
    let mut bridge = active_bridge(0, 7);
    let good = encode_transfer(&BOB, 100);
    let mut long = good.clone();
    long.push(0);
    for data in [Vec::new(), good[..47].to_vec(), long, vec![0; 16], vec![0; 32]] {
        let p = Proposal { origin_domain_id: 7, deposit_nonce: 0, resource_id: USDC_RESOURCE, data };
        assert_eq!(execute_one(&mut bridge, p), Err(Error::MalformedProposal));
    }
    assert_eq!(holdings(&bridge), [0, 0, 0, 0]);
    assert!(!bridge.is_proposal_executed(7, 0));
}

#[test]
fn refused_credit_leaves_the_nonce_free() {
    let registry = ResourceRegistry::new(vec![(USDC, USDC_RESOURCE)]).unwrap();
    let mut ledger = Ledger::new();
    assert!(ledger.deposit(&BOB, &USDC, u128::MAX - 50));
    let mut bridge: Pallet<Runtime> = Pallet::new(registry, TRANSFER_RESERVE, FEE_RESERVE, ledger);
    assert_eq!(bridge.set_mpc_key(Origin::Root, KEY), Ok(()));
    assert_eq!(bridge.pause_bridge(Origin::Root, 7), Ok(()));
    assert_eq!(bridge.unpause_bridge(Origin::Root, 7), Ok(()));

    let batch = vec![proposal(7, 0, &BOB, 100), proposal(7, 1, &BOB, 50)];
    let signature = sign(&KEY, &signing_message(&batch));
    assert_eq!(
        bridge.execute_proposal(Origin::Anonymous, batch, signature),
        Ok(vec![Err(Error::TransactorFailed), Ok(())])
    );
    assert_eq!(holdings(&bridge), [0, u128::MAX, 0, 0]);
    assert!(!bridge.is_proposal_executed(7, 0));
    assert!(bridge.is_proposal_executed(7, 1));
    // the failed proposal can be submitted again, and fails again for the ledger
    assert_eq!(execute_one(&mut bridge, proposal(7, 0, &BOB, 100)), Err(Error::TransactorFailed));
    assert_eq!(execute_one(&mut bridge, proposal(7, 0, &ALICE, 100)), Ok(()));
    assert_eq!(holdings(&bridge), [100, u128::MAX, 0, 0]);
}

#[test]
fn pausing_stops_inbound_proposals() {
    let mut bridge = active_bridge(0, 7);
    assert_eq!(execute_one(&mut bridge, proposal(7, 0, &BOB, 10)), Ok(()));
    assert_eq!(bridge.pause_bridge(Origin::Root, 7), Ok(()));
    assert_eq!(execute_one(&mut bridge, proposal(7, 1, &BOB, 10)), Err(Error::BridgePaused));
    // while paused, a replay is told off for the pause
    assert_eq!(execute_one(&mut bridge, proposal(7, 0, &BOB, 10)), Err(Error::BridgePaused));
    assert_eq!(bridge.unpause_bridge(Origin::Root, 7), Ok(()));
    assert_eq!(
        execute_one(&mut bridge, proposal(7, 0, &BOB, 10)),
        Err(Error::ProposalAlreadyComplete)
    );
    assert_eq!(execute_one(&mut bridge, proposal(7, 1, &BOB, 10)), Ok(()));
    assert_eq!(holdings(&bridge), [0, 20, 0, 0]);
}

#[test]
fn empty_batch_is_executed_when_attested() {
    let mut bridge = active_bridge(0, 7);
    let batch: Vec<Proposal> = Vec::new();
    let signature = sign(&KEY, &signing_message(&batch));
    assert_eq!(bridge.execute_proposal(Origin::Anonymous, batch, signature), Ok(vec![]));
    assert_eq!(holdings(&bridge), [0, 0, 0, 0]);
}

#[test]
fn nonces_on_both_sides_of_a_bucket_boundary() {
    let mut bridge = active_bridge(0, 7);
    let empty = NonceBitmap::empty();
    assert_eq!(bridge.used_nonces(7, 0), empty);
    assert_eq!(bridge.used_nonces(7, 1), empty);

    let first = vec![proposal(7, 255, &BOB, 10)];
    let signature = sign(&KEY, &signing_message(&first));
    assert_eq!(bridge.execute_proposal(Origin::Anonymous, first, signature), Ok(vec![Ok(())]));
    let second = vec![proposal(7, 256, &BOB, 20)];
    let signature = sign(&KEY, &signing_message(&second));
    assert_eq!(bridge.execute_proposal(Origin::Anonymous, second, signature), Ok(vec![Ok(())]));

    assert!(bridge.is_proposal_executed(7, 255));
    assert!(bridge.is_proposal_executed(7, 256));
    for nonce in [0u64, 254, 257, 511, 512] {
        assert!(!bridge.is_proposal_executed(7, nonce));
    }
    assert_eq!(bridge.used_nonces(7, 0), empty.with(255));
    assert_eq!(bridge.used_nonces(7, 1), empty.with(0));
    assert_eq!(bridge.used_nonces(7, 2), empty);
    assert_eq!(bridge.used_nonces(6, 0), empty);
    assert_eq!(bridge.used_nonces(8, 0), empty);
    assert_eq!(holdings(&bridge), [0, 30, 0, 0]);
}

#[test]
fn funded_deposit_succeeds_with_all_its_effects() {
    let mut bridge = active_bridge(500, 7);
    assert_eq!(bridge.deposit(Origin::Signed(ALICE), usdc(500), destination(7, &[5, 6])), Ok(0));
    assert_eq!(holdings(&bridge), [0, 0, 490, 10]);
    assert_eq!(bridge.dest_counts(7), 1);
    assert_eq!(
        bridge.events(),
        &vec![Event::Deposit {
            dest_domain_id: 7,
            resource_id: USDC_RESOURCE,
            deposit_nonce: 0,
            sender: ALICE,
            recipient: vec![5, 6],
            amount: 490,
        }]
    );
}

#[test]
fn failed_deposits_take_no_nonce() {
    let mut bridge = active_bridge(100, 7);
    assert_eq!(bridge.deposit(Origin::Signed(ALICE), usdc(40), destination(7, &[1])), Ok(0));
    assert_eq!(
        bridge.deposit(Origin::Signed(ALICE), usdc(61), destination(7, &[1])),
        Err(Error::TransactorFailed)
    );
    assert_eq!(
        bridge.deposit(Origin::Signed(ALICE), usdc(5), destination(7, &[1])),
        Err(Error::InsufficientAmount)
    );
    assert_eq!(bridge.dest_counts(7), 1);
    assert_eq!(bridge.deposit(Origin::Signed(ALICE), usdc(60), destination(7, &[1])), Ok(1));
    assert_eq!(bridge.dest_counts(7), 2);
    assert_eq!(holdings(&bridge), [0, 0, 80, 20]);
}

#[test]
fn deposit_ends_by_the_answer_of_the_ledger() {
    let mut store = BridgeStateStore::new();
    let mut ledger = Ledger::new();
    let mut events = Vec::new();
    assert!(ledger.deposit(&ALICE, &USDC, 100));

    // the movements went through: commit, nonce, event
    ledger.begin();
    assert!(ledger.withdraw(&ALICE, &USDC, 30));
    assert!(ledger.deposit(&TRANSFER_RESERVE, &USDC, 30));
    assert_eq!(
        conclude_deposit(&mut store, &mut ledger, &mut events, 7, USDC_RESOURCE, ALICE, vec![9], 30, true),
        Ok(0)
    );
    assert_eq!(store.deposit_count(7), 1);
    assert_eq!(ledger.balance(&ALICE, &USDC), 70);
    assert_eq!(ledger.balance(&TRANSFER_RESERVE, &USDC), 30);
    assert_eq!(
        events,
        vec![Event::Deposit {
            dest_domain_id: 7,
            resource_id: USDC_RESOURCE,
            deposit_nonce: 0,
            sender: ALICE,
            recipient: vec![9],
            amount: 30,
        }]
    );

    // they did not: rollback, no nonce, no event
    ledger.begin();
    assert!(ledger.withdraw(&ALICE, &USDC, 50));
    assert_eq!(
        conclude_deposit(&mut store, &mut ledger, &mut events, 7, USDC_RESOURCE, ALICE, vec![9], 50, false),
        Err(Error::TransactorFailed)
    );
    assert_eq!(store.deposit_count(7), 1);
    assert_eq!(ledger.balance(&ALICE, &USDC), 70);
    assert_eq!(events.len(), 1);

    // the next one gets the next nonce
    ledger.begin();
    assert_eq!(
        conclude_deposit(&mut store, &mut ledger, &mut events, 7, USDC_RESOURCE, BOB, vec![], 1, true),
        Ok(1)
    );
    assert_eq!(store.deposit_count(7), 2);
    assert_eq!(store.deposit_count(8), 0);
    assert_eq!(events.len(), 2);
}

#[test]
fn proposal_ends_by_the_answer_of_the_ledger() {
    let mut store = BridgeStateStore::new();
    let p = proposal(7, 300, &BOB, 1);
    assert_eq!(conclude_proposal(&mut store, &p, false), Err(Error::TransactorFailed));
    assert!(!store.is_nonce_used(7, 300));
    assert_eq!(conclude_proposal(&mut store, &p, true), Ok(()));
    assert!(store.is_nonce_used(7, 300));
    assert!(!store.is_nonce_used(7, 299));
    assert!(!store.is_nonce_used(7, 301));
    assert_eq!(conclude_proposal(&mut store, &p, false), Err(Error::TransactorFailed));
    assert!(store.is_nonce_used(7, 300));
}
