use willow_sync::channels::Channels;
use willow_sync::coroutine::Coroutine;
use willow_sync::coroutine::CoroutineStatus;
use willow_sync::coroutine::Readyness;
use willow_sync::coroutine::Yield;
use willow_sync::coroutine::run_session;
use willow_sync::grouping::Area;
use willow_sync::keys::NamespaceId;
use willow_sync::keys::NamespaceSecretKey;
use willow_sync::keys::UserSecretKey;
use willow_sync::meadowcap::AccessMode;
use willow_sync::meadowcap::McCapability;
use willow_sync::meadowcap::OwnedCapability;
use willow_sync::meadowcap::attach_authorisation;
use willow_sync::session::Error;
use willow_sync::session::Role;
use willow_sync::session::SessionInit;
use willow_sync::session::SessionState;
use willow_sync::store::Store;
use willow_sync::store::SyncConfig;
use willow_sync::wgps::AreaOfInterest;
use willow_sync::wgps::LengthyEntry;
use willow_sync::wgps::Message;
use willow_sync::wgps::ReconciliationSendEntry;
use willow_sync::wgps::ResourceHandle;
use willow_sync::willow::AuthorisedEntry;
use willow_sync::willow::Entry;
use willow_sync::willow::PayloadDigest;

fn namespace_secret() -> NamespaceSecretKey {
    NamespaceSecretKey::from_bytes(vec![7u8; 32])
}

fn namespace() -> NamespaceId {
    NamespaceId { bytes: namespace_secret().public_key().id().bytes }
}

fn user(tag: u8) -> UserSecretKey {
    UserSecretKey::from_bytes(vec![tag; 32])
}

fn clone_secret(u: &UserSecretKey) -> UserSecretKey {
    UserSecretKey::from_bytes(u.bytes.clone())
}

fn authorised(user: &UserSecretKey, path: &[u8], timestamp: u64, digest: u8) -> AuthorisedEntry {
    let ns = namespace_secret();
    let cap = McCapability::Owned(OwnedCapability::new(&ns, user.public_key(), AccessMode::Write));
    let entry = Entry {
        namespace_id: namespace(),
        subspace_id: user.public_key().id(),
        path: path.to_vec(),
        timestamp,
        payload_length: 3,
        payload_digest: PayloadDigest { bytes: vec![digest; 32] },
    };
    attach_authorisation(entry, cap, user).expect("authorised")
}

fn make_peer(role: Role, store: Store, secret: &UserSecretKey, nonce: u8, peer_nonce: u8) -> Coroutine {
    let ns = namespace_secret();
    let cap = McCapability::Owned(OwnedCapability::new(
        &ns,
        secret.public_key(),
        AccessMode::Write,
    ));
    let init = SessionInit {
        user_secret_key: clone_secret(secret),
        interests: vec![(cap, vec![AreaOfInterest { area: Area::full() }])],
    };
    let state = SessionState::new(role, vec![nonce; 8], vec![peer_nonce; 8]);
    let snapshot = store.snapshot();
    Coroutine::new(snapshot, store, Channels::new(64), state, SyncConfig::default(), init)
}

fn store_contains(store: &Store, entry: &Entry) -> bool {
    store.entries.iter().any(|ae| ae.entry.same_entry(entry))
}

/// One entry on one side only: after a session the other side holds it.
#[test]
fn sync_empty_versus_non_empty() {
    let alice = user(1);
    let bob = user(2);
    let e1 = authorised(&alice, b"a", 10, 1);
    let mut store_a = Store::new();
    store_a.ingest_entry(&e1);
    let store_b = Store::new();

    let mut alfie = make_peer(Role::Alfie, store_a, &alice, 1, 2);
    let mut betty = make_peer(Role::Betty, store_b, &bob, 2, 1);
    run_session(&mut alfie, &mut betty, 30).expect("session");

    assert!(store_contains(&betty.store_writer, &e1.entry));
    assert!(store_contains(&alfie.store_writer, &e1.entry));
    assert!(alfie.state.reconciliation_is_complete());
    assert!(betty.state.reconciliation_is_complete());
    // A completed reconciliation closes the local send halves.
    assert!(alfie.channels.reconciliation_send.closed);
    assert!(betty.channels.reconciliation_send.closed);
}

/// Identical stores: fingerprints match, no entries travel, both finish.
#[test]
fn sync_identical_stores() {
    let alice = user(1);
    let bob = user(2);
    let e1 = authorised(&alice, b"a", 10, 1);
    let mut store_a = Store::new();
    store_a.ingest_entry(&e1);
    let mut store_b = Store::new();
    store_b.ingest_entry(&e1);

    let mut alfie = make_peer(Role::Alfie, store_a, &alice, 1, 2);
    let mut betty = make_peer(Role::Betty, store_b, &bob, 2, 1);
    run_session(&mut alfie, &mut betty, 30).expect("session");

    assert_eq!(alfie.store_writer.len(), 1);
    assert_eq!(betty.store_writer.len(), 1);
    assert!(alfie.state.reconciliation_is_complete());
    assert!(betty.state.reconciliation_is_complete());
}

/// Conflicting entries in one slot: both sides keep the digest-larger one.
#[test]
fn sync_resolves_conflicts() {
    let alice = user(1);
    let low = authorised(&alice, b"a", 10, 0x01);
    let high = authorised(&alice, b"a", 10, 0x02);
    let mut store_a = Store::new();
    store_a.ingest_entry(&low);
    let mut store_b = Store::new();
    store_b.ingest_entry(&high);

    let mut alfie = make_peer(Role::Alfie, store_a, &alice, 1, 2);
    let mut betty = make_peer(Role::Betty, store_b, &user(2), 2, 1);
    run_session(&mut alfie, &mut betty, 30).expect("session");

    assert_eq!(alfie.store_writer.len(), 1);
    assert_eq!(betty.store_writer.len(), 1);
    assert!(store_contains(&alfie.store_writer, &high.entry));
    assert!(store_contains(&betty.store_writer, &high.entry));
    assert!(!store_contains(&alfie.store_writer, &low.entry));
    assert!(!store_contains(&betty.store_writer, &low.entry));
}

/// Disjoint stores that need splitting: both converge to the union, and a
/// second session changes nothing more.
#[test]
fn sync_disjoint_stores_converges_and_is_idempotent() {
    let alice = user(1);
    let bob = user(2);
    let mut store_a = Store::new();
    let mut store_b = Store::new();
    let mut all = Vec::new();
    for (i, path) in [b"a".as_slice(), b"b".as_slice(), b"c".as_slice()].iter().enumerate() {
        let ae = authorised(&alice, path, 10 + i as u64, 1);
        store_a.ingest_entry(&ae);
        all.push(ae);
    }
    for (i, path) in [b"x".as_slice(), b"y".as_slice(), b"z".as_slice()].iter().enumerate() {
        let ae = authorised(&bob, path, 20 + i as u64, 1);
        store_b.ingest_entry(&ae);
        all.push(ae);
    }

    let mut alfie = make_peer(Role::Alfie, store_a, &alice, 1, 2);
    let mut betty = make_peer(Role::Betty, store_b, &bob, 2, 1);
    run_session(&mut alfie, &mut betty, 60).expect("session");

    assert_eq!(alfie.store_writer.len(), 6);
    assert_eq!(betty.store_writer.len(), 6);
    for ae in &all {
        assert!(store_contains(&alfie.store_writer, &ae.entry));
        assert!(store_contains(&betty.store_writer, &ae.entry));
    }

    // Running the same synchronisation again moves nothing.
    let store_a2 = take_store(&mut alfie);
    let store_b2 = take_store(&mut betty);
    let mut alfie2 = make_peer(Role::Alfie, store_a2, &alice, 3, 4);
    let mut betty2 = make_peer(Role::Betty, store_b2, &bob, 4, 3);
    run_session(&mut alfie2, &mut betty2, 60).expect("second session");
    assert_eq!(alfie2.store_writer.len(), 6);
    assert_eq!(betty2.store_writer.len(), 6);
}

fn take_store(peer: &mut Coroutine) -> Store {
    std::mem::replace(&mut peer.store_writer, Store::new())
}

/// An entry outside the scope of the capability that vouches for it is
/// rejected as unauthorised: the capability grants Alice's subspace, the
/// entry claims Bob's.
#[test]
fn out_of_scope_entry_fails_the_session() {
    let alice = user(1);
    let bob = user(2);
    let ns = namespace_secret();
    let communal = McCapability::Communal(willow_sync::meadowcap::CommunalCapability {
        access_mode: AccessMode::Write,
        namespace_key: ns.public_key(),
        user_key: alice.public_key(),
        delegations: Vec::new(),
    });
    let bad_entry = Entry {
        namespace_id: namespace(),
        subspace_id: bob.public_key().id(),
        path: b"a".to_vec(),
        timestamp: 10,
        payload_length: 3,
        payload_digest: PayloadDigest { bytes: vec![1u8; 32] },
    };
    // The signature itself is genuine; only the granted area is wrong.
    let token = willow_sync::meadowcap::create_token(&bad_entry, communal.clone(), &alice);

    let mut betty = make_peer(Role::Betty, Store::new(), &bob, 2, 1);
    // Pretend an announcement of one entry is open and the static token is
    // bound, then deliver the out-of-scope entry.
    betty.state.static_tokens.bind_theirs(communal);
    betty.state.pending_entries = Some(1);
    let msg = Message::ReconciliationSendEntry(ReconciliationSendEntry {
        entry: LengthyEntry::new(bad_entry, 3),
        static_token_handle: 1,
        dynamic_token: token.signature,
    });
    betty.channels.reconciliation_recv.queue.push(msg);
    let result = betty.run_reconciliation(None);
    assert_eq!(result, Err(Error::Unauthorised));
}

/// An entry whose static token has not arrived suspends the driver on that
/// resource and is ingested once the token is bound.
#[test]
fn late_static_token_suspends_and_resumes() {
    let alice = user(1);
    let bob = user(2);
    let good = authorised(&alice, b"a", 10, 1);

    let mut betty = make_peer(Role::Betty, Store::new(), &bob, 2, 1);
    betty.state.pending_entries = Some(1);
    let msg = Message::ReconciliationSendEntry(ReconciliationSendEntry {
        entry: LengthyEntry::new(good.entry.clone(), 3),
        static_token_handle: 1,
        dynamic_token: good.token.signature.clone(),
    });
    betty.channels.reconciliation_recv.queue.push(msg);

    // The token is not bound yet: the driver suspends on the resource.
    let status = betty.run_reconciliation(None).expect("step");
    assert_eq!(
        status,
        CoroutineStatus::Suspended(Yield::Pending(Readyness::Resource(
            ResourceHandle::StaticToken(1)
        )))
    );
    assert!(betty.store_writer.len() == 0);

    // Bind the token; the next step ingests the entry.
    betty.state.static_tokens.bind_theirs(match &good.token.capability {
        McCapability::Owned(c) => McCapability::Owned(c.clone()),
        McCapability::Communal(c) => McCapability::Communal(c.clone()),
    });
    let _ = betty.run_reconciliation(None).expect("resume");
    assert_eq!(betty.store_writer.len(), 1);
    assert!(store_contains(&betty.store_writer, &good.entry));
}

/// A message of the wrong channel on the Reconciliation channel fails the
/// driver with the unsupported-message error.
#[test]
fn foreign_message_is_unsupported() {
    let bob = user(2);
    let mut betty = make_peer(Role::Betty, Store::new(), &bob, 2, 1);
    betty.channels.reconciliation_recv.queue.push(Message::ControlFreeHandle(
        willow_sync::wgps::ControlFreeHandle {
            handle: 1,
            kind: willow_sync::wgps::HandleType::StaticToken,
        },
    ));
    let result = betty.run_reconciliation(None);
    assert_eq!(result, Err(Error::UnsupportedMessage));
}

/// The commitment sub-state: our reveal happens once, the peer's reveal
/// must match the commitment.
#[test]
fn commitment_reveal_state_machine() {
    let mut state = SessionState::new(Role::Alfie, vec![1u8; 8], vec![2u8; 8]);
    let reveal = state.commitment_reveal().expect("first reveal");
    assert_eq!(reveal.nonce, vec![1u8; 8]);
    assert!(state.commitment_reveal().is_err());

    let good = willow_sync::wgps::CommitmentReveal { nonce: vec![2u8; 8] };
    let bad = willow_sync::wgps::CommitmentReveal { nonce: vec![3u8; 8] };
    assert!(state.on_commitment_reveal(&bad).is_err());
    assert!(state.on_commitment_reveal(&good).is_ok());
    assert!(state.on_commitment_reveal(&good).is_err());
}
