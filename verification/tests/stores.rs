use protocol_core::inmem::{
    InMemIdentityKeyStore, InMemKyberPreKeyStore, InMemPreKeyStore, InMemSenderKeyStore,
    InMemSessionStore, InMemSignalProtocolStore, InMemSignedPreKeyStore,
};
use protocol_core::records::{
    Direction, IdentityChange, IdentityKey, IdentityKeyPair, KyberPreKeyId, KyberPreKeyRecord,
    PreKeyId, PreKeyRecord, ProtocolAddress, SenderKeyRecord, SessionRecord, SignalProtocolError,
    SignedPreKeyId, SignedPreKeyRecord,
};

fn alice() -> ProtocolAddress {
    ProtocolAddress::new("alice".to_string(), 1)
}

fn bob() -> ProtocolAddress {
    ProtocolAddress::new("bob".to_string(), 1)
}

fn pair(public: &[u8], private: &[u8]) -> IdentityKeyPair {
    IdentityKeyPair::new(IdentityKey::new(public.to_vec()), private.to_vec())
}

#[test]
fn address_accessors() {
    let a = ProtocolAddress::new("alice".to_string(), 7);
    assert_eq!(a.name(), "alice");
    assert_eq!(a.device_id(), 7);
    assert!(a.matches(&a.clone()));
    assert!(!a.matches(&bob()));
    assert!(!a.matches(&ProtocolAddress::new("alice".to_string(), 8)));
}

#[test]
fn session_store_load_consistency() {
    let mut store = InMemSessionStore::new();
    let address = alice();

    // Initially should return None.
    assert!(store.load_session(&address).unwrap().is_none());

    // After storing should return the same record.
    let session = SessionRecord::new(vec![1, 2, 3]);
    store.store_session(&address, &session).unwrap();
    let loaded = store.load_session(&address).unwrap().unwrap();
    assert_eq!(loaded.serialized(), &vec![1, 2, 3]);

    // Different addresses are isolated.
    assert!(store.load_session(&bob()).unwrap().is_none());

    // Storing again overwrites.
    let session2 = SessionRecord::new(vec![9]);
    store.store_session(&address, &session2).unwrap();
    let loaded2 = store.load_session(&address).unwrap().unwrap();
    assert_eq!(loaded2.serialized(), &vec![9]);
}

#[test]
fn load_existing_sessions_in_order() {
    let mut store = InMemSessionStore::new();
    let a = alice();
    let b = bob();
    store.store_session(&a, &SessionRecord::new(vec![1])).unwrap();
    store.store_session(&b, &SessionRecord::new(vec![2])).unwrap();

    let loaded = store.load_existing_sessions(&[&b, &a]).unwrap();
    assert_eq!(loaded.len(), 2);
    assert_eq!(loaded[0].serialized(), &vec![2]);
    assert_eq!(loaded[1].serialized(), &vec![1]);
}

#[test]
fn load_existing_sessions_reports_missing_address() {
    let mut store = InMemSessionStore::new();
    let a = alice();
    let b = bob();
    store.store_session(&a, &SessionRecord::new(vec![1])).unwrap();

    let err = store.load_existing_sessions(&[&a, &b]).unwrap_err();
    match err {
        SignalProtocolError::SessionNotFound(addr) => {
            assert_eq!(addr.name(), "bob");
            assert_eq!(addr.device_id(), 1);
        }
        other => panic!("unexpected error: {:?}", other),
    }
}

#[test]
fn identity_store_basics() {
    let kp = pair(&[1, 2], &[3, 4]);
    let store = InMemIdentityKeyStore::new(kp, 12345);

    let got = store.get_identity_key_pair().unwrap();
    assert_eq!(got.identity_key().serialized(), &vec![1, 2]);
    assert_eq!(got.private_key(), &vec![3, 4]);
    assert_eq!(store.get_local_registration_id().unwrap(), 12345);
    assert!(store.get_identity(&alice()).unwrap().is_none());
}

#[test]
fn identity_change_detection() {
    let mut store = InMemIdentityKeyStore::new(pair(&[0], &[0]), 12345);
    let address = bob();
    let key1 = IdentityKey::new(vec![10]);
    let key2 = IdentityKey::new(vec![20]);

    // First use is trusted before anything is saved.
    assert!(store.is_trusted_identity(&address, &key1, Direction::Sending).unwrap());

    // First save is new.
    assert_eq!(
        store.save_identity(&address, &key1).unwrap(),
        IdentityChange::NewOrUnchanged
    );
    assert_eq!(
        store.get_identity(&address).unwrap().unwrap().serialized(),
        &vec![10]
    );

    // Saving the same key again is unchanged.
    assert_eq!(
        store.save_identity(&address, &key1).unwrap(),
        IdentityChange::NewOrUnchanged
    );

    // Now only the saved key is trusted.
    assert!(store.is_trusted_identity(&address, &key1, Direction::Receiving).unwrap());
    assert!(!store.is_trusted_identity(&address, &key2, Direction::Receiving).unwrap());

    // A different key is detected as a replacement.
    assert_eq!(
        store.save_identity(&address, &key2).unwrap(),
        IdentityChange::ReplacedExisting
    );
    assert_eq!(
        store.get_identity(&address).unwrap().unwrap().serialized(),
        &vec![20]
    );

    // Reset clears the known keys.
    store.reset();
    assert!(store.get_identity(&address).unwrap().is_none());
    assert!(store.is_trusted_identity(&address, &key1, Direction::Sending).unwrap());
}

#[test]
fn pre_key_store_crud() {
    let mut store = InMemPreKeyStore::new();
    let id = PreKeyId::new(31337);
    assert_eq!(id.value(), 31337);

    assert!(matches!(
        store.get_pre_key(id),
        Err(SignalProtocolError::InvalidPreKeyId)
    ));
    assert!(store.all_pre_key_ids().is_empty());

    store.save_pre_key(id, &PreKeyRecord::new(vec![1, 1])).unwrap();
    assert_eq!(store.get_pre_key(id).unwrap().serialized(), &vec![1, 1]);
    assert_eq!(store.all_pre_key_ids(), vec![id]);

    // Overwriting keeps a single binding.
    store.save_pre_key(id, &PreKeyRecord::new(vec![2, 2])).unwrap();
    assert_eq!(store.get_pre_key(id).unwrap().serialized(), &vec![2, 2]);
    assert_eq!(store.all_pre_key_ids().len(), 1);

    // Removal, and removing an absent id, both succeed.
    store.remove_pre_key(id).unwrap();
    assert!(matches!(
        store.get_pre_key(id),
        Err(SignalProtocolError::InvalidPreKeyId)
    ));
    store.remove_pre_key(id).unwrap();
}

#[test]
fn signed_pre_key_store_crud() {
    let mut store = InMemSignedPreKeyStore::new();
    let id = SignedPreKeyId::new(2);

    assert!(matches!(
        store.get_signed_pre_key(id),
        Err(SignalProtocolError::InvalidSignedPreKeyId)
    ));

    store
        .save_signed_pre_key(id, &SignedPreKeyRecord::new(vec![5, 6]))
        .unwrap();
    assert_eq!(store.get_signed_pre_key(id).unwrap().serialized(), &vec![5, 6]);
    assert_eq!(store.all_signed_pre_key_ids(), vec![id]);
}

#[test]
fn kyber_pre_key_store_crud() {
    let mut store = InMemKyberPreKeyStore::new();
    let id = KyberPreKeyId::new(7);

    assert!(matches!(
        store.get_kyber_pre_key(id),
        Err(SignalProtocolError::InvalidKyberPreKeyId)
    ));

    store
        .save_kyber_pre_key(id, &KyberPreKeyRecord::new(vec![7, 7]))
        .unwrap();
    assert_eq!(store.get_kyber_pre_key(id).unwrap().serialized(), &vec![7, 7]);
    assert_eq!(store.all_kyber_pre_key_ids(), vec![id]);

    // Marking a key used changes nothing in the in-memory store.
    store.mark_kyber_pre_key_used(id).unwrap();
    assert_eq!(store.get_kyber_pre_key(id).unwrap().serialized(), &vec![7, 7]);
}

#[test]
fn sender_key_store_keys_by_address_and_distribution_id() {
    let mut store = InMemSenderKeyStore::new();
    let sender = alice();
    let dist_a: u128 = 0x0123_4567_89ab_cdef_0123_4567_89ab_cdef;
    let dist_b: u128 = 42;

    assert!(store.load_sender_key(&sender, dist_a).unwrap().is_none());

    store
        .store_sender_key(&sender, dist_a, &SenderKeyRecord::new(vec![1]))
        .unwrap();
    assert_eq!(
        store.load_sender_key(&sender, dist_a).unwrap().unwrap().serialized(),
        &vec![1]
    );

    // A different distribution id or address finds nothing.
    assert!(store.load_sender_key(&sender, dist_b).unwrap().is_none());
    assert!(store.load_sender_key(&bob(), dist_a).unwrap().is_none());

    // Overwrite under the same key.
    store
        .store_sender_key(&sender, dist_a, &SenderKeyRecord::new(vec![2]))
        .unwrap();
    assert_eq!(
        store.load_sender_key(&sender, dist_a).unwrap().unwrap().serialized(),
        &vec![2]
    );
}

#[test]
fn protocol_store_delegates_to_components() {
    let mut store = InMemSignalProtocolStore::new(pair(&[9], &[8]), 5).unwrap();

    assert_eq!(store.get_local_registration_id().unwrap(), 5);
    assert_eq!(
        store.get_identity_key_pair().unwrap().identity_key().serialized(),
        &vec![9]
    );

    let address = alice();
    let key = IdentityKey::new(vec![11]);
    assert_eq!(
        store.save_identity(&address, &key).unwrap(),
        IdentityChange::NewOrUnchanged
    );
    assert!(store.is_trusted_identity(&address, &key, Direction::Sending).unwrap());
    assert_eq!(
        store.get_identity(&address).unwrap().unwrap().serialized(),
        &vec![11]
    );

    let pre_id = PreKeyId::new(1);
    store.save_pre_key(pre_id, &PreKeyRecord::new(vec![1])).unwrap();
    assert_eq!(store.get_pre_key(pre_id).unwrap().serialized(), &vec![1]);
    assert_eq!(store.all_pre_key_ids(), vec![pre_id]);
    store.remove_pre_key(pre_id).unwrap();
    assert!(store.all_pre_key_ids().is_empty());

    let signed_id = SignedPreKeyId::new(2);
    store
        .save_signed_pre_key(signed_id, &SignedPreKeyRecord::new(vec![2]))
        .unwrap();
    assert_eq!(store.get_signed_pre_key(signed_id).unwrap().serialized(), &vec![2]);
    assert_eq!(store.all_signed_pre_key_ids(), vec![signed_id]);

    let kyber_id = KyberPreKeyId::new(3);
    store
        .save_kyber_pre_key(kyber_id, &KyberPreKeyRecord::new(vec![3]))
        .unwrap();
    store.mark_kyber_pre_key_used(kyber_id).unwrap();
    assert_eq!(store.get_kyber_pre_key(kyber_id).unwrap().serialized(), &vec![3]);
    assert_eq!(store.all_kyber_pre_key_ids(), vec![kyber_id]);

    store.store_session(&address, &SessionRecord::new(vec![4])).unwrap();
    assert_eq!(
        store.load_session(&address).unwrap().unwrap().serialized(),
        &vec![4]
    );

    store
        .store_sender_key(&address, 77, &SenderKeyRecord::new(vec![5]))
        .unwrap();
    assert_eq!(
        store.load_sender_key(&address, 77).unwrap().unwrap().serialized(),
        &vec![5]
    );
}
