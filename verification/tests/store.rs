use willow_sync::grouping::Area;
use willow_sync::keys::NamespaceId;
use willow_sync::keys::NamespaceSecretKey;
use willow_sync::keys::UserSecretKey;
use willow_sync::meadowcap::AccessMode;
use willow_sync::meadowcap::McCapability;
use willow_sync::meadowcap::OwnedCapability;
use willow_sync::meadowcap::attach_authorisation;
use willow_sync::store::SplitAction;
use willow_sync::store::Store;
use willow_sync::store::SyncConfig;
use willow_sync::willow::AuthorisedEntry;
use willow_sync::willow::Entry;
use willow_sync::willow::PayloadDigest;

fn namespace_secret() -> NamespaceSecretKey {
    NamespaceSecretKey::from_bytes(vec![7u8; 32])
}

fn authorised(
    user: &UserSecretKey,
    path: &[u8],
    timestamp: u64,
    digest: u8,
    length: u64,
) -> AuthorisedEntry {
    let ns = namespace_secret();
    let cap = McCapability::Owned(OwnedCapability::new(&ns, user.public_key(), AccessMode::Write));
    let entry = Entry {
        namespace_id: NamespaceId { bytes: ns.public_key().id().bytes },
        subspace_id: user.public_key().id(),
        path: path.to_vec(),
        timestamp,
        payload_length: length,
        payload_digest: PayloadDigest { bytes: vec![digest; 32] },
    };
    attach_authorisation(entry, cap, user).expect("authorised")
}

fn namespace() -> NamespaceId {
    NamespaceId { bytes: namespace_secret().public_key().id().bytes }
}

#[test]
fn ingest_appends_new_slots() {
    let alice = UserSecretKey::from_bytes(vec![1u8; 32]);
    let mut store = Store::new();
    store.ingest_entry(&authorised(&alice, b"a", 1, 1, 3));
    store.ingest_entry(&authorised(&alice, b"b", 1, 1, 3));
    assert_eq!(store.len(), 2);
}

#[test]
fn ingest_is_idempotent() {
    let alice = UserSecretKey::from_bytes(vec![1u8; 32]);
    let mut store = Store::new();
    let ae = authorised(&alice, b"a", 1, 1, 3);
    store.ingest_entry(&ae);
    store.ingest_entry(&ae);
    assert_eq!(store.len(), 1);
}

#[test]
fn ingest_keeps_conflict_winner() {
    let alice = UserSecretKey::from_bytes(vec![1u8; 32]);
    let mut store = Store::new();

    // Later timestamp wins.
    store.ingest_entry(&authorised(&alice, b"a", 1, 1, 3));
    store.ingest_entry(&authorised(&alice, b"a", 2, 1, 3));
    assert_eq!(store.len(), 1);
    assert_eq!(store.entries[0].entry.timestamp, 2);
    // The losing older entry does not displace it.
    store.ingest_entry(&authorised(&alice, b"a", 1, 9, 9));
    assert_eq!(store.entries[0].entry.timestamp, 2);

    // Equal timestamps: the larger digest wins.
    store.ingest_entry(&authorised(&alice, b"a", 2, 5, 3));
    assert_eq!(store.entries[0].entry.payload_digest.bytes[0], 5);
    store.ingest_entry(&authorised(&alice, b"a", 2, 3, 3));
    assert_eq!(store.entries[0].entry.payload_digest.bytes[0], 5);

    // Equal timestamp and digest: the larger payload length wins.
    store.ingest_entry(&authorised(&alice, b"a", 2, 5, 7));
    assert_eq!(store.entries[0].entry.payload_length, 7);
    store.ingest_entry(&authorised(&alice, b"a", 2, 5, 4));
    assert_eq!(store.entries[0].entry.payload_length, 7);
}

#[test]
fn count_and_fingerprint_over_range() {
    let alice = UserSecretKey::from_bytes(vec![1u8; 32]);
    let mut store = Store::new();
    store.ingest_entry(&authorised(&alice, b"a", 1, 1, 3));
    store.ingest_entry(&authorised(&alice, b"b", 1, 2, 3));
    let range = Area::full().into_range();
    let ns = namespace();
    assert_eq!(store.count(&ns, &range), 2);
    assert!(!store.fingerprint(&ns, &range).is_empty());

    let empty = Store::new();
    assert_eq!(empty.count(&ns, &range), 0);
    assert!(empty.fingerprint(&ns, &range).is_empty());
}

#[test]
fn equal_stores_have_equal_fingerprints() {
    let alice = UserSecretKey::from_bytes(vec![1u8; 32]);
    let mut a = Store::new();
    let mut b = Store::new();
    for (path, ts) in [(b"a".as_slice(), 1u64), (b"b".as_slice(), 2u64)] {
        a.ingest_entry(&authorised(&alice, path, ts, 1, 3));
        b.ingest_entry(&authorised(&alice, path, ts, 1, 3));
    }
    let range = Area::full().into_range();
    let ns = namespace();
    let fa = a.fingerprint(&ns, &range);
    let fb = b.fingerprint(&ns, &range);
    assert!(fa.same_fingerprint(&fb));
}

#[test]
fn split_range_splits_large_ranges() {
    let alice = UserSecretKey::from_bytes(vec![1u8; 32]);
    let mut store = Store::new();
    store.ingest_entry(&authorised(&alice, b"a", 1, 1, 3));
    store.ingest_entry(&authorised(&alice, b"b", 1, 2, 3));
    store.ingest_entry(&authorised(&alice, b"c", 1, 3, 3));
    let range = Area::full().into_range();
    let ns = namespace();
    let config = SyncConfig::default();
    let parts = store.split_range(&ns, &range, &config);
    assert_eq!(parts.len(), 2);
    // The labelled counts cover all three entries.
    let mut covered = 0u64;
    for (part, action) in &parts {
        match action {
            SplitAction::SendEntries(c) => covered += c,
            SplitAction::SendFingerprint(_) => covered += store.count(&ns, part),
        }
    }
    assert_eq!(covered, 3);
}
