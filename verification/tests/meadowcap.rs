use willow_sync::keys::NamespaceSecretKey;
use willow_sync::keys::UserSecretKey;
use willow_sync::meadowcap::AccessMode;
use willow_sync::meadowcap::CommunalCapability;
use willow_sync::meadowcap::McCapability;
use willow_sync::meadowcap::OwnedCapability;
use willow_sync::meadowcap::attach_authorisation;
use willow_sync::meadowcap::create_token;
use willow_sync::meadowcap::is_authorised_write;
use willow_sync::willow::Entry;
use willow_sync::willow::PayloadDigest;
use willow_sync::keys::NamespaceId;
use willow_sync::keys::UserId;

fn namespace_secret() -> NamespaceSecretKey {
    NamespaceSecretKey::from_bytes(vec![7u8; 32])
}

fn user_secret(tag: u8) -> UserSecretKey {
    UserSecretKey::from_bytes(vec![tag; 32])
}

fn entry_for(user: &UserSecretKey, ns: &NamespaceSecretKey, path: &[u8], timestamp: u64) -> Entry {
    Entry {
        namespace_id: NamespaceId {
            bytes: ns.public_key().id().bytes,
        },
        subspace_id: UserId {
            bytes: user.public_key().id().bytes,
        },
        path: path.to_vec(),
        timestamp,
        payload_length: 3,
        payload_digest: PayloadDigest { bytes: vec![9u8; 32] },
    }
}

#[test]
fn owned_capability_is_valid() {
    let ns = namespace_secret();
    let alice = user_secret(1);
    let cap = OwnedCapability::new(&ns, alice.public_key(), AccessMode::Write);
    assert!(cap.is_valid());
    // A capability for reading is valid too, but its signature binds the mode.
    let read_cap = OwnedCapability::new(&ns, alice.public_key(), AccessMode::Read);
    assert!(read_cap.is_valid());
}

#[test]
fn owned_capability_tampered_signature_is_invalid() {
    let ns = namespace_secret();
    let alice = user_secret(1);
    let mut cap = OwnedCapability::new(&ns, alice.public_key(), AccessMode::Write);
    cap.initial_authorisation.bytes[0] ^= 0xff;
    assert!(!cap.is_valid());
}

#[test]
fn owned_capability_wrong_namespace_key_is_invalid() {
    let other_ns = NamespaceSecretKey::from_bytes(vec![8u8; 32]);
    let ns = namespace_secret();
    let alice = user_secret(1);
    let cap = OwnedCapability::new(&ns, alice.public_key(), AccessMode::Write);
    // Rebuild the capability under another namespace key: the old
    // authorisation no longer verifies.
    let forged = OwnedCapability {
        access_mode: cap.access_mode,
        namespace_key: other_ns.public_key(),
        user_key: cap.user_key.clone(),
        initial_authorisation: cap.initial_authorisation.clone(),
        delegations: Vec::new(),
    };
    assert!(!forged.is_valid());
}

#[test]
fn communal_capability_without_delegations_is_valid() {
    let ns = namespace_secret();
    let alice = user_secret(1);
    let cap = CommunalCapability {
        access_mode: AccessMode::Write,
        namespace_key: ns.public_key(),
        user_key: alice.public_key(),
        delegations: Vec::new(),
    };
    assert!(cap.is_valid());
}

#[test]
fn attach_authorisation_authorises_write() {
    let ns = namespace_secret();
    let alice = user_secret(1);
    let cap = McCapability::Owned(OwnedCapability::new(&ns, alice.public_key(), AccessMode::Write));
    let entry = entry_for(&alice, &ns, b"blog/post", 10);
    let authorised = attach_authorisation(entry, cap, &alice).expect("authorisation");
    assert!(is_authorised_write(&authorised.entry, &authorised.token));
}

#[test]
fn attach_authorisation_rejects_read_capability() {
    let ns = namespace_secret();
    let alice = user_secret(1);
    let cap = McCapability::Owned(OwnedCapability::new(&ns, alice.public_key(), AccessMode::Read));
    let entry = entry_for(&alice, &ns, b"blog/post", 10);
    assert!(attach_authorisation(entry, cap, &alice).is_err());
}

#[test]
fn attach_authorisation_rejects_wrong_secret() {
    let ns = namespace_secret();
    let alice = user_secret(1);
    let bob = user_secret(2);
    let cap = McCapability::Owned(OwnedCapability::new(&ns, alice.public_key(), AccessMode::Write));
    let entry = entry_for(&alice, &ns, b"blog/post", 10);
    assert!(attach_authorisation(entry, cap, &bob).is_err());
}

#[test]
fn attach_authorisation_rejects_foreign_subspace_for_communal() {
    let ns = namespace_secret();
    let alice = user_secret(1);
    let bob = user_secret(2);
    let cap = McCapability::Communal(CommunalCapability {
        access_mode: AccessMode::Write,
        namespace_key: ns.public_key(),
        user_key: alice.public_key(),
        delegations: Vec::new(),
    });
    // The entry lives in Bob's subspace; Alice's communal capability does
    // not reach it.
    let entry = entry_for(&bob, &ns, b"blog/post", 10);
    assert!(attach_authorisation(entry, cap, &alice).is_err());
}

#[test]
fn create_token_signature_verifies() {
    let ns = namespace_secret();
    let alice = user_secret(1);
    let cap = McCapability::Owned(OwnedCapability::new(&ns, alice.public_key(), AccessMode::Write));
    let entry = entry_for(&alice, &ns, b"a", 1);
    let token = create_token(&entry, cap, &alice);
    assert!(is_authorised_write(&entry, &token));
}

#[test]
fn tampered_entry_is_not_authorised() {
    let ns = namespace_secret();
    let alice = user_secret(1);
    let cap = McCapability::Owned(OwnedCapability::new(&ns, alice.public_key(), AccessMode::Write));
    let entry = entry_for(&alice, &ns, b"a", 1);
    let token = create_token(&entry, cap, &alice);
    let mut other = entry_for(&alice, &ns, b"a", 2);
    other.payload_length = 4;
    assert!(!is_authorised_write(&other, &token));
}
