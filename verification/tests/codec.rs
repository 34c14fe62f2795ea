use willow_sync::keys::NamespaceId;
use willow_sync::keys::UserId;
use willow_sync::willow::Entry;
use willow_sync::willow::PayloadDigest;

fn sample_entry() -> Entry {
    Entry {
        namespace_id: NamespaceId { bytes: (0u8..32).collect() },
        subspace_id: UserId { bytes: (32u8..64).collect() },
        path: b"blog/2024/post".to_vec(),
        timestamp: 0x0102_0304_0506_0708,
        payload_length: 42,
        payload_digest: PayloadDigest { bytes: (64u8..96).collect() },
    }
}

#[test]
fn entry_encode_decode_round_trip() {
    let entry = sample_entry();
    let bytes = entry.encode();
    let decoded = Entry::decode(&bytes).expect("decodes");
    assert!(decoded.same_entry(&entry));
}

#[test]
fn entry_round_trip_empty_path() {
    let mut entry = sample_entry();
    entry.path = Vec::new();
    let bytes = entry.encode();
    let decoded = Entry::decode(&bytes).expect("decodes");
    assert!(decoded.same_entry(&entry));
}

#[test]
fn entry_decode_rejects_short_input() {
    assert!(Entry::decode(&vec![0u8; 10]).is_none());
    assert!(Entry::decode(&Vec::new()).is_none());
}

#[test]
fn entry_decode_rejects_wrong_length() {
    let entry = sample_entry();
    let mut bytes = entry.encode();
    bytes.push(0);
    assert!(Entry::decode(&bytes).is_none());
}

#[test]
fn entry_encoding_layout() {
    let entry = sample_entry();
    let bytes = entry.encode();
    assert_eq!(bytes.len(), 120 + entry.path.len());
    assert_eq!(&bytes[0..32], &entry.namespace_id.bytes[..]);
    assert_eq!(&bytes[32..64], &entry.subspace_id.bytes[..]);
    // path length, big-endian
    assert_eq!(
        &bytes[64..72],
        &(entry.path.len() as u64).to_be_bytes()[..]
    );
    assert_eq!(&bytes[72..72 + entry.path.len()], &entry.path[..]);
}

#[test]
fn entry_conflict_order() {
    let newer = sample_entry();
    let mut older = sample_entry();
    older.timestamp -= 1;
    assert!(newer.is_newer_than(&older));
    assert!(!older.is_newer_than(&newer));

    // same timestamp: larger digest wins
    let mut big_digest = sample_entry();
    big_digest.payload_digest = PayloadDigest { bytes: vec![0xff; 32] };
    assert!(big_digest.is_newer_than(&newer));

    // same timestamp and digest: larger payload length wins
    let mut longer = sample_entry();
    longer.payload_length += 1;
    assert!(longer.is_newer_than(&newer));
    assert!(!newer.is_newer_than(&newer));
}
