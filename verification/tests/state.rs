use sygma_bridge::bitmap::NonceBitmap;
use sygma_bridge::registry::ResourceRegistry;
use sygma_bridge::store::BridgeStateStore;
use sygma_bridge::types::{bytes32_eq, Error, PauseState};

#[test]
fn fresh_store_is_empty() {
    let store = BridgeStateStore::new();
    assert_eq!(store.committee_key(), None);
    for domain in [0u8, 1, 128, 255] {
        assert_eq!(store.pause_state(domain), PauseState::Unrecognized);
        assert!(!store.is_active(domain));
        assert_eq!(store.deposit_count(domain), 0);
        assert!(!store.is_nonce_used(domain, 0));
        assert!(!store.is_nonce_used(domain, u64::MAX));
    }
}

#[test]
fn store_pause_state_machine() {
    let mut store = BridgeStateStore::new();
    assert_eq!(store.pause(7), Err(Error::MissingMpcKey));
    assert_eq!(store.unpause(7), Err(Error::MissingMpcKey));
    assert_eq!(store.pause_state(7), PauseState::Unrecognized);
    assert_eq!(store.set_committee_key([0; 32]), Ok(()));
    assert_eq!(store.set_committee_key([0; 32]), Err(Error::MpcKeyNotUpdatable));
    assert_eq!(store.unpause(7), Err(Error::BridgeNotRecognized));
    assert_eq!(store.pause(7), Ok(()));
    assert_eq!(store.pause_state(7), PauseState::Paused);
    assert!(!store.is_active(7));
    assert_eq!(store.unpause(7), Ok(()));
    assert_eq!(store.pause_state(7), PauseState::Unpaused);
    assert!(store.is_active(7));
    assert_eq!(store.unpause(7), Err(Error::BridgeUnpaused));
    assert_eq!(store.pause_state(8), PauseState::Unrecognized);
}

#[test]
fn deposit_nonces_count_up_per_domain() {
    let mut store = BridgeStateStore::new();
    assert_eq!(store.next_deposit_nonce(7), Some(0));
    assert_eq!(store.next_deposit_nonce(7), Some(1));
    assert_eq!(store.next_deposit_nonce(7), Some(2));
    assert_eq!(store.deposit_count(7), 3);
    assert_eq!(store.next_deposit_nonce(8), Some(0));
    assert_eq!(store.deposit_count(8), 1);
    assert_eq!(store.deposit_count(7), 3);
    assert_eq!(store.next_deposit_nonce(255), Some(0));
    assert_eq!(store.next_deposit_nonce(0), Some(0));
}

#[test]
fn used_nonces_across_bucket_boundaries() {
    let mut store = BridgeStateStore::new();
    store.mark_nonce_used(7, 255);
    assert!(store.is_nonce_used(7, 255));
    assert!(!store.is_nonce_used(7, 256));
    assert!(!store.is_nonce_used(7, 254));
    store.mark_nonce_used(7, 256);
    assert!(store.is_nonce_used(7, 255));
    assert!(store.is_nonce_used(7, 256));
    assert!(!store.is_nonce_used(7, 0));
    assert!(!store.is_nonce_used(7, 257));
    assert!(!store.is_nonce_used(7, 511));
    assert!(!store.is_nonce_used(7, 512));
    // the same nonce of another domain is another nonce
    assert!(!store.is_nonce_used(6, 255));
    assert!(!store.is_nonce_used(8, 256));
}

#[test]
fn used_nonces_stay_used() {
    let mut store = BridgeStateStore::new();
    let nonces = [0u64, 1, 63, 64, 127, 128, 191, 192, 255, 256, 65_535, 65_536, u64::MAX - 1, u64::MAX];
    for nonce in nonces {
        assert!(!store.is_nonce_used(0, nonce));
        store.mark_nonce_used(0, nonce);
        assert!(store.is_nonce_used(0, nonce));
    }
    store.mark_nonce_used(255, u64::MAX);
    store.mark_nonce_used(1, 0);
    assert_eq!(store.set_committee_key([3; 32]), Ok(()));
    assert_eq!(store.pause(0), Ok(()));
    assert_eq!(store.unpause(0), Ok(()));
    assert_eq!(store.next_deposit_nonce(0), Some(0));
    // marking again changes nothing
    store.mark_nonce_used(0, 64);
    for nonce in nonces {
        assert!(store.is_nonce_used(0, nonce));
    }
    assert!(store.is_nonce_used(255, u64::MAX));
    assert!(store.is_nonce_used(1, 0));
    for nonce in [2u64, 62, 65, 129, 254, 257, 65_534, 65_537, u64::MAX - 2] {
        assert!(!store.is_nonce_used(0, nonce));
    }
    assert!(!store.is_nonce_used(1, 1));
    assert!(!store.is_nonce_used(254, u64::MAX));
    // the largest bucket of one domain and the first of the next lie apart
    assert!(!store.is_nonce_used(1, u64::MAX));
    assert!(!store.is_nonce_used(2, 0));
}

#[test]
fn bitmap_sets_single_bits() {
    let empty = NonceBitmap::empty();
    for offset in 0..=255u8 {
        assert!(!empty.test(offset));
    }
    let mut bitmap = empty;
    for offset in [0u8, 63, 64, 127, 128, 191, 192, 255] {
        bitmap = bitmap.with(offset);
    }
    for offset in 0..=255u8 {
        let expected = matches!(offset, 0 | 63 | 64 | 127 | 128 | 191 | 192 | 255);
        assert_eq!(bitmap.test(offset), expected);
    }
    assert_eq!(bitmap.with(63), bitmap);
    assert_ne!(bitmap.with(1), bitmap);
    assert_ne!(bitmap, empty);
}

#[test]
fn registry_binds_one_to_one() {
    let a1 = [1u8; 32];
    let a2 = [2u8; 32];
    let r1 = [11u8; 32];
    let r2 = [12u8; 32];
    let registry = ResourceRegistry::new(vec![(a1, r1), (a2, r2)]).unwrap();
    assert_eq!(registry.lookup(&a1), Some(r1));
    assert_eq!(registry.lookup(&a2), Some(r2));
    assert_eq!(registry.lookup(&r1), None);
    assert_eq!(registry.reverse_lookup(&r1), Some(a1));
    assert_eq!(registry.reverse_lookup(&r2), Some(a2));
    assert_eq!(registry.reverse_lookup(&a1), None);
    // an asset and its resource may share their bytes
    let same = ResourceRegistry::new(vec![(a1, a1)]).unwrap();
    assert_eq!(same.lookup(&a1), Some(a1));
    assert_eq!(same.reverse_lookup(&a1), Some(a1));
    let empty = ResourceRegistry::new(Vec::new()).unwrap();
    assert_eq!(empty.lookup(&a1), None);
    assert_eq!(empty.reverse_lookup(&r1), None);
}

#[test]
fn registry_refuses_double_bindings() {
    let a1 = [1u8; 32];
    let a2 = [2u8; 32];
    let r1 = [11u8; 32];
    let r2 = [12u8; 32];
    assert!(ResourceRegistry::new(vec![(a1, r1), (a1, r2)]).is_none());
    assert!(ResourceRegistry::new(vec![(a1, r1), (a2, r1)]).is_none());
    assert!(ResourceRegistry::new(vec![(a1, r1), (a2, r2), (a1, r1)]).is_none());
    assert!(ResourceRegistry::new(vec![(a1, r1), (a2, r2)]).is_some());
}

#[test]
fn identifiers_compare_byte_by_byte() {
    let a = [7u8; 32];
    let mut b = [7u8; 32];
    assert!(bytes32_eq(&a, &b));
    b[31] = 8;
    assert!(!bytes32_eq(&a, &b));
    b[31] = 7;
    b[0] = 6;
    assert!(!bytes32_eq(&a, &b));
}

#[test]
fn buckets_hold_their_nonces() {
    let mut store = BridgeStateStore::new();
    let empty = NonceBitmap::empty();
    store.mark_nonce_used(7, 255);
    store.mark_nonce_used(7, 256);
    store.mark_nonce_used(7, 258);
    store.mark_nonce_used(9, u64::MAX);
    assert_eq!(store.nonce_bucket(7, 0), empty.with(255));
    assert_eq!(store.nonce_bucket(7, 1), empty.with(0).with(2));
    assert_eq!(store.nonce_bucket(7, 2), empty);
    assert_eq!(store.nonce_bucket(8, 0), empty);
    // the last bucket of a domain, and what lies beyond it
    assert_eq!(store.nonce_bucket(9, 0x00FF_FFFF_FFFF_FFFF), empty.with(255));
    assert_eq!(store.nonce_bucket(9, 0x0100_0000_0000_0000), empty);
    assert_eq!(store.nonce_bucket(9, u64::MAX), empty);
    assert_eq!(store.nonce_bucket(10, 0), empty);
}
