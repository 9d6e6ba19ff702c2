//! Purely in-memory stores for protocol state, useful as reference
//! implementations and for testing. Each store is specified against a finite
//! map from key views to the views of the stored values, so callers know
//! exactly which bindings a call reads or rewrites.

use crate::assoc::{AddrMap, IdMap, SenderMap};
use crate::records::{
    Direction, IdentityChange, IdentityKey, IdentityKeyPair, KyberPreKeyId, KyberPreKeyRecord,
    PreKeyId, PreKeyRecord, ProtocolAddress, SenderKeyRecord, SessionRecord,
    SignalProtocolError, SignedPreKeyId, SignedPreKeyRecord,
};
use vstd::prelude::*;

verus! {

/// In-memory identity-key store: the local identity pair and registration
/// id, and a trust-on-first-use map of known remote keys.
pub struct InMemIdentityKeyStore {
    key_pair: IdentityKeyPair,
    registration_id: u32,
    known_keys: AddrMap<IdentityKey>,
}

impl InMemIdentityKeyStore {
    /// Distinct addresses are stored once each.
    pub closed spec fn wf(self) -> bool {
        self.known_keys.wf()
    }

    /// The local identity pair, as serialized bytes.
    pub closed spec fn identity_pair(self) -> (Seq<u8>, Seq<u8>) {
        self.key_pair@
    }

    /// The local registration id.
    pub closed spec fn local_registration_id(self) -> u32 {
        self.registration_id
    }

    /// The known remote keys, as a map from address to key bytes.
    pub closed spec fn known(self) -> Map<(Seq<char>, u32), Seq<u8>> {
        self.known_keys.view_map()
    }

    /// Create a new instance holding the given local identity and
    /// registration id, knowing no remote keys yet.
    pub fn new(key_pair: IdentityKeyPair, registration_id: u32) -> (r: Self)
        ensures
            r.wf(),
            r.identity_pair() == key_pair@,
            r.local_registration_id() == registration_id,
            r.known() == Map::<(Seq<char>, u32), Seq<u8>>::empty(),
    {
        InMemIdentityKeyStore { key_pair, registration_id, known_keys: AddrMap::new() }
    }

    /// Clear the mapping of known keys.
    pub fn reset(&mut self)
        requires
            old(self).wf(),
        ensures
            final(self).wf(),
            final(self).known() == Map::<(Seq<char>, u32), Seq<u8>>::empty(),
            final(self).identity_pair() == old(self).identity_pair(),
            final(self).local_registration_id() == old(self).local_registration_id(),
    {
        self.known_keys.clear();
    }

    /// The local identity pair.
    pub fn get_identity_key_pair(&self) -> (r: Result<IdentityKeyPair, SignalProtocolError>)
        ensures
            r matches Ok(kp) && kp@ == self.identity_pair(),
    {
        Ok(self.key_pair.clone())
    }

    /// The local registration id.
    pub fn get_local_registration_id(&self) -> (r: Result<u32, SignalProtocolError>)
        ensures
            r matches Ok(id) && id == self.local_registration_id(),
    {
        Ok(self.registration_id)
    }

    /// Record `identity` as the key for `address`, overwriting any previous
    /// binding, and report whether a different key was replaced.
    pub fn save_identity(&mut self, address: &ProtocolAddress, identity: &IdentityKey) -> (r:
        Result<IdentityChange, SignalProtocolError>)
        requires
            old(self).wf(),
        ensures
            final(self).wf(),
            final(self).known() == old(self).known().insert(address@, identity@),
            final(self).identity_pair() == old(self).identity_pair(),
            final(self).local_registration_id() == old(self).local_registration_id(),
            r matches Ok(c) && (c == IdentityChange::ReplacedExisting <==> old(
                self,
            ).known().contains_key(address@) && old(self).known()[address@] != identity@),
    {
        let previous: Option<bool> = match self.known_keys.get(address) {
            None => None,
            Some(k) => Some(k.matches(identity)),
        };
        match previous {
            None => {
                self.known_keys.insert(address, identity.clone());
                Ok(IdentityChange::NewOrUnchanged)
            },
            Some(true) => {
                proof {
                    assert(old(self).known().insert(address@, identity@) =~= old(self).known());
                }
                Ok(IdentityChange::NewOrUnchanged)
            },
            Some(false) => {
                self.known_keys.insert(address, identity.clone());
                Ok(IdentityChange::ReplacedExisting)
            },
        }
    }

    /// Trust-on-first-use check: an unknown address is trusted, a known one
    /// is trusted exactly when the presented key equals the stored one.
    pub fn is_trusted_identity(
        &self,
        address: &ProtocolAddress,
        identity: &IdentityKey,
        _direction: Direction,
    ) -> (r: Result<bool, SignalProtocolError>)
        requires
            self.wf(),
        ensures
            r matches Ok(b) && b == (self.known().contains_key(address@)
                ==> self.known()[address@] == identity@),
    {
        match self.known_keys.get(address) {
            None => Ok(true),
            Some(k) => Ok(k.matches(identity)),
        }
    }

    /// The key stored for `address`, if any.
    pub fn get_identity(&self, address: &ProtocolAddress) -> (r: Result<
        Option<IdentityKey>,
        SignalProtocolError,
    >)
        requires
            self.wf(),
        ensures
            r matches Ok(o) && match o {
                Some(k) => self.known().contains_key(address@) && k@ == self.known()[address@],
                None => !self.known().contains_key(address@),
            },
    {
        match self.known_keys.get(address) {
            None => Ok(None),
            Some(k) => Ok(Some(k.clone())),
        }
    }
}

/// In-memory store of one-time pre-keys, keyed by pre-key id.
pub struct InMemPreKeyStore {
    pre_keys: IdMap<PreKeyRecord>,
}

impl InMemPreKeyStore {
    /// Distinct ids are stored once each.
    pub closed spec fn wf(self) -> bool {
        self.pre_keys.wf()
    }

    /// The stored records, as a map from raw id to record bytes.
    pub closed spec fn pre_keys(self) -> Map<u32, Seq<u8>> {
        self.pre_keys.view_map()
    }

    /// Create an empty pre-key store.
    pub fn new() -> (r: Self)
        ensures
            r.wf(),
            r.pre_keys() == Map::<u32, Seq<u8>>::empty(),
    {
        InMemPreKeyStore { pre_keys: IdMap::new() }
    }

    /// Returns all registered pre-key ids, each exactly once.
    pub fn all_pre_key_ids(&self) -> (r: Vec<PreKeyId>)
        requires
            self.wf(),
        ensures
            forall|j: int|
                0 <= j < r@.len() ==> self.pre_keys().contains_key((#[trigger] r@[j])@),
            forall|k: u32| #[trigger]
                self.pre_keys().contains_key(k) ==> exists|j: int|
                    0 <= j < r@.len() && (#[trigger] r@[j])@ == k,
            forall|j1: int, j2: int|
                0 <= j1 < j2 < r@.len() ==> (#[trigger] r@[j1])@ != (#[trigger] r@[j2])@,
    {
        proof {
            self.pre_keys.lemma_keys_complete();
        }
        let raw = self.pre_keys.keys();
        let mut out: Vec<PreKeyId> = Vec::new();
        let mut i: usize = 0;
        while i < raw.len()
            invariant
                i <= raw@.len(),
                out@.len() == i,
                forall|j: int| 0 <= j < i ==> (#[trigger] out@[j])@ == raw@[j],
            decreases raw@.len() - i,
        {
            out.push(PreKeyId::new(raw[i]));
            i = i + 1;
        }
        proof {
            assert forall|j: int|
                0 <= j < out@.len() implies self.pre_keys().contains_key(
                (#[trigger] out@[j])@,
            ) by {
                assert(out@[j]@ == self.pre_keys.pairs()[j].0);
            }
            assert forall|k: u32| #[trigger]
                self.pre_keys().contains_key(k) implies exists|j: int|
                0 <= j < out@.len() && (#[trigger] out@[j])@ == k by {
                let j = choose|j: int|
                    0 <= j < self.pre_keys.pairs().len() && (#[trigger] self.pre_keys.pairs()[j]).0
                        == k;
                assert(out@[j]@ == k);
            }
            assert forall|j1: int, j2: int|
                0 <= j1 < j2 < out@.len() implies (#[trigger] out@[j1])@ != (
            #[trigger] out@[j2])@ by {
                assert(out@[j1]@ == (#[trigger] self.pre_keys.pairs()[j1]).0);
                assert(out@[j2]@ == (#[trigger] self.pre_keys.pairs()[j2]).0);
            }
        }
        out
    }

    /// The record stored under `id`, or `InvalidPreKeyId` if there is none.
    pub fn get_pre_key(&self, id: PreKeyId) -> (r: Result<PreKeyRecord, SignalProtocolError>)
        requires
            self.wf(),
        ensures
            r matches Ok(rec) ==> self.pre_keys().contains_key(id@) && rec@
                == self.pre_keys()[id@],
            r matches Err(e) ==> !self.pre_keys().contains_key(id@) && e
                == SignalProtocolError::InvalidPreKeyId,
    {
        match self.pre_keys.get(id.value()) {
            Some(rec) => Ok(rec.clone()),
            None => Err(SignalProtocolError::InvalidPreKeyId),
        }
    }

    /// Store `record` under `id`, overwriting any previous record.
    pub fn save_pre_key(&mut self, id: PreKeyId, record: &PreKeyRecord) -> (r: Result<
        (),
        SignalProtocolError,
    >)
        requires
            old(self).wf(),
        ensures
            final(self).wf(),
            final(self).pre_keys() == old(self).pre_keys().insert(id@, record@),
            r is Ok,
    {
        self.pre_keys.insert(id.value(), record.clone());
        Ok(())
    }

    /// Drop the record stored under `id`; removing an absent id silently
    /// does nothing.
    pub fn remove_pre_key(&mut self, id: PreKeyId) -> (r: Result<(), SignalProtocolError>)
        requires
            old(self).wf(),
        ensures
            final(self).wf(),
            final(self).pre_keys() == old(self).pre_keys().remove(id@),
            r is Ok,
    {
        self.pre_keys.remove(id.value());
        Ok(())
    }
}

impl Default for InMemPreKeyStore {
    /// An empty pre-key store.
    fn default() -> (r: Self)
        ensures
            r.wf(),
            r.pre_keys() == Map::<u32, Seq<u8>>::empty(),
    {
        InMemPreKeyStore::new()
    }
}

/// In-memory store of signed pre-keys, keyed by signed pre-key id.
pub struct InMemSignedPreKeyStore {
    signed_pre_keys: IdMap<SignedPreKeyRecord>,
}

impl InMemSignedPreKeyStore {
    /// Distinct ids are stored once each.
    pub closed spec fn wf(self) -> bool {
        self.signed_pre_keys.wf()
    }

    /// The stored records, as a map from raw id to record bytes.
    pub closed spec fn signed_pre_keys(self) -> Map<u32, Seq<u8>> {
        self.signed_pre_keys.view_map()
    }

    /// Create an empty signed pre-key store.
    pub fn new() -> (r: Self)
        ensures
            r.wf(),
            r.signed_pre_keys() == Map::<u32, Seq<u8>>::empty(),
    {
        InMemSignedPreKeyStore { signed_pre_keys: IdMap::new() }
    }

    /// Returns all registered signed pre-key ids, each exactly once.
    pub fn all_signed_pre_key_ids(&self) -> (r: Vec<SignedPreKeyId>)
        requires
            self.wf(),
        ensures
            forall|j: int|
                0 <= j < r@.len() ==> self.signed_pre_keys().contains_key((#[trigger] r@[j])@),
            forall|k: u32| #[trigger]
                self.signed_pre_keys().contains_key(k) ==> exists|j: int|
                    0 <= j < r@.len() && (#[trigger] r@[j])@ == k,
            forall|j1: int, j2: int|
                0 <= j1 < j2 < r@.len() ==> (#[trigger] r@[j1])@ != (#[trigger] r@[j2])@,
    {
        proof {
            self.signed_pre_keys.lemma_keys_complete();
        }
        let raw = self.signed_pre_keys.keys();
        let mut out: Vec<SignedPreKeyId> = Vec::new();
        let mut i: usize = 0;
        while i < raw.len()
            invariant
                i <= raw@.len(),
                out@.len() == i,
                forall|j: int| 0 <= j < i ==> (#[trigger] out@[j])@ == raw@[j],
            decreases raw@.len() - i,
        {
            out.push(SignedPreKeyId::new(raw[i]));
            i = i + 1;
        }
        proof {
            assert forall|j: int|
                0 <= j < out@.len() implies self.signed_pre_keys().contains_key(
                (#[trigger] out@[j])@,
            ) by {
                assert(out@[j]@ == self.signed_pre_keys.pairs()[j].0);
            }
            assert forall|k: u32| #[trigger]
                self.signed_pre_keys().contains_key(k) implies exists|j: int|
                0 <= j < out@.len() && (#[trigger] out@[j])@ == k by {
                let j = choose|j: int|
                    0 <= j < self.signed_pre_keys.pairs().len() && (
                    #[trigger] self.signed_pre_keys.pairs()[j]).0 == k;
                assert(out@[j]@ == k);
            }
            assert forall|j1: int, j2: int|
                0 <= j1 < j2 < out@.len() implies (#[trigger] out@[j1])@ != (
            #[trigger] out@[j2])@ by {
                assert(out@[j1]@ == (#[trigger] self.signed_pre_keys.pairs()[j1]).0);
                assert(out@[j2]@ == (#[trigger] self.signed_pre_keys.pairs()[j2]).0);
            }
        }
        out
    }

    /// The record stored under `id`, or `InvalidSignedPreKeyId` if there is
    /// none.
    pub fn get_signed_pre_key(&self, id: SignedPreKeyId) -> (r: Result<
        SignedPreKeyRecord,
        SignalProtocolError,
    >)
        requires
            self.wf(),
        ensures
            r matches Ok(rec) ==> self.signed_pre_keys().contains_key(id@) && rec@
                == self.signed_pre_keys()[id@],
            r matches Err(e) ==> !self.signed_pre_keys().contains_key(id@) && e
                == SignalProtocolError::InvalidSignedPreKeyId,
    {
        match self.signed_pre_keys.get(id.value()) {
            Some(rec) => Ok(rec.clone()),
            None => Err(SignalProtocolError::InvalidSignedPreKeyId),
        }
    }

    /// Store `record` under `id`, overwriting any previous record.
    pub fn save_signed_pre_key(&mut self, id: SignedPreKeyId, record: &SignedPreKeyRecord) -> (r:
        Result<(), SignalProtocolError>)
        requires
            old(self).wf(),
        ensures
            final(self).wf(),
            final(self).signed_pre_keys() == old(self).signed_pre_keys().insert(id@, record@),
            r is Ok,
    {
        self.signed_pre_keys.insert(id.value(), record.clone());
        Ok(())
    }
}

impl Default for InMemSignedPreKeyStore {
    /// An empty signed pre-key store.
    fn default() -> (r: Self)
        ensures
            r.wf(),
            r.signed_pre_keys() == Map::<u32, Seq<u8>>::empty(),
    {
        InMemSignedPreKeyStore::new()
    }
}

/// In-memory store of Kyber pre-keys, keyed by Kyber pre-key id.
pub struct InMemKyberPreKeyStore {
    kyber_pre_keys: IdMap<KyberPreKeyRecord>,
}

impl InMemKyberPreKeyStore {
    /// Distinct ids are stored once each.
    pub closed spec fn wf(self) -> bool {
        self.kyber_pre_keys.wf()
    }

    /// The stored records, as a map from raw id to record bytes.
    pub closed spec fn kyber_pre_keys(self) -> Map<u32, Seq<u8>> {
        self.kyber_pre_keys.view_map()
    }

    /// Create an empty Kyber pre-key store.
    pub fn new() -> (r: Self)
        ensures
            r.wf(),
            r.kyber_pre_keys() == Map::<u32, Seq<u8>>::empty(),
    {
        InMemKyberPreKeyStore { kyber_pre_keys: IdMap::new() }
    }

    /// Returns all registered Kyber pre-key ids, each exactly once.
    pub fn all_kyber_pre_key_ids(&self) -> (r: Vec<KyberPreKeyId>)
        requires
            self.wf(),
        ensures
            forall|j: int|
                0 <= j < r@.len() ==> self.kyber_pre_keys().contains_key((#[trigger] r@[j])@),
            forall|k: u32| #[trigger]
                self.kyber_pre_keys().contains_key(k) ==> exists|j: int|
                    0 <= j < r@.len() && (#[trigger] r@[j])@ == k,
            forall|j1: int, j2: int|
                0 <= j1 < j2 < r@.len() ==> (#[trigger] r@[j1])@ != (#[trigger] r@[j2])@,
    {
        proof {
            self.kyber_pre_keys.lemma_keys_complete();
        }
        let raw = self.kyber_pre_keys.keys();
        let mut out: Vec<KyberPreKeyId> = Vec::new();
        let mut i: usize = 0;
        while i < raw.len()
            invariant
                i <= raw@.len(),
                out@.len() == i,
                forall|j: int| 0 <= j < i ==> (#[trigger] out@[j])@ == raw@[j],
            decreases raw@.len() - i,
        {
            out.push(KyberPreKeyId::new(raw[i]));
            i = i + 1;
        }
        proof {
            assert forall|j: int|
                0 <= j < out@.len() implies self.kyber_pre_keys().contains_key(
                (#[trigger] out@[j])@,
            ) by {
                assert(out@[j]@ == self.kyber_pre_keys.pairs()[j].0);
            }
            assert forall|k: u32| #[trigger]
                self.kyber_pre_keys().contains_key(k) implies exists|j: int|
                0 <= j < out@.len() && (#[trigger] out@[j])@ == k by {
                let j = choose|j: int|
                    0 <= j < self.kyber_pre_keys.pairs().len() && (
                    #[trigger] self.kyber_pre_keys.pairs()[j]).0 == k;
                assert(out@[j]@ == k);
            }
            assert forall|j1: int, j2: int|
                0 <= j1 < j2 < out@.len() implies (#[trigger] out@[j1])@ != (
            #[trigger] out@[j2])@ by {
                assert(out@[j1]@ == (#[trigger] self.kyber_pre_keys.pairs()[j1]).0);
                assert(out@[j2]@ == (#[trigger] self.kyber_pre_keys.pairs()[j2]).0);
            }
        }
        out
    }

    /// The record stored under `id`, or `InvalidKyberPreKeyId` if there is
    /// none.
    pub fn get_kyber_pre_key(&self, kyber_prekey_id: KyberPreKeyId) -> (r: Result<
        KyberPreKeyRecord,
        SignalProtocolError,
    >)
        requires
            self.wf(),
        ensures
            r matches Ok(rec) ==> self.kyber_pre_keys().contains_key(kyber_prekey_id@) && rec@
                == self.kyber_pre_keys()[kyber_prekey_id@],
            r matches Err(e) ==> !self.kyber_pre_keys().contains_key(kyber_prekey_id@) && e
                == SignalProtocolError::InvalidKyberPreKeyId,
    {
        match self.kyber_pre_keys.get(kyber_prekey_id.value()) {
            Some(rec) => Ok(rec.clone()),
            None => Err(SignalProtocolError::InvalidKyberPreKeyId),
        }
    }

    /// Store `record` under `kyber_prekey_id`, overwriting any previous
    /// record.
    pub fn save_kyber_pre_key(
        &mut self,
        kyber_prekey_id: KyberPreKeyId,
        record: &KyberPreKeyRecord,
    ) -> (r: Result<(), SignalProtocolError>)
        requires
            old(self).wf(),
        ensures
            final(self).wf(),
            final(self).kyber_pre_keys() == old(self).kyber_pre_keys().insert(
                kyber_prekey_id@,
                record@,
            ),
            r is Ok,
    {
        self.kyber_pre_keys.insert(kyber_prekey_id.value(), record.clone());
        Ok(())
    }

    /// Marking a Kyber pre-key used is accepted and changes nothing in this
    /// in-memory implementation.
    pub fn mark_kyber_pre_key_used(&mut self, _kyber_prekey_id: KyberPreKeyId) -> (r: Result<
        (),
        SignalProtocolError,
    >)
        requires
            old(self).wf(),
        ensures
            final(self).wf(),
            final(self).kyber_pre_keys() == old(self).kyber_pre_keys(),
            r is Ok,
    {
        Ok(())
    }
}

impl Default for InMemKyberPreKeyStore {
    /// An empty Kyber pre-key store.
    fn default() -> (r: Self)
        ensures
            r.wf(),
            r.kyber_pre_keys() == Map::<u32, Seq<u8>>::empty(),
    {
        InMemKyberPreKeyStore::new()
    }
}

/// In-memory store of sessions, keyed by protocol address.
pub struct InMemSessionStore {
    sessions: AddrMap<SessionRecord>,
}

impl InMemSessionStore {
    /// Distinct addresses are stored once each.
    pub closed spec fn wf(self) -> bool {
        self.sessions.wf()
    }

    /// The stored sessions, as a map from address to record bytes.
    pub closed spec fn sessions(self) -> Map<(Seq<char>, u32), Seq<u8>> {
        self.sessions.view_map()
    }

    /// Create an empty session store.
    pub fn new() -> (r: Self)
        ensures
            r.wf(),
            r.sessions() == Map::<(Seq<char>, u32), Seq<u8>>::empty(),
    {
        InMemSessionStore { sessions: AddrMap::new() }
    }

    /// The session stored for `address`, if any.
    pub fn load_session(&self, address: &ProtocolAddress) -> (r: Result<
        Option<SessionRecord>,
        SignalProtocolError,
    >)
        requires
            self.wf(),
        ensures
            r matches Ok(o) && match o {
                Some(s) => self.sessions().contains_key(address@) && s@ == self.sessions()[
                    address@
                ],
                None => !self.sessions().contains_key(address@),
            },
    {
        match self.sessions.get(address) {
            None => Ok(None),
            Some(s) => Ok(Some(s.clone())),
        }
    }

    /// Store `record` for `address`, overwriting any previous session.
    pub fn store_session(&mut self, address: &ProtocolAddress, record: &SessionRecord) -> (r:
        Result<(), SignalProtocolError>)
        requires
            old(self).wf(),
        ensures
            final(self).wf(),
            final(self).sessions() == old(self).sessions().insert(address@, record@),
            r is Ok,
    {
        self.sessions.insert(address, record.clone());
        Ok(())
    }

    /// Bulk lookup: the stored session of every given address, in order, or
    /// `SessionNotFound` naming the first address that has none.
    pub fn load_existing_sessions(&self, addresses: &[&ProtocolAddress]) -> (r: Result<
        Vec<&SessionRecord>,
        SignalProtocolError,
    >)
        requires
            self.wf(),
        ensures
            r matches Ok(v) ==> v@.len() == addresses@.len() && forall|j: int|
                0 <= j < v@.len() ==> self.sessions().contains_key(
                    (#[trigger] addresses@[j])@,
                ) && v@[j]@ == self.sessions()[addresses@[j]@],
            r matches Err(e) ==> exists|j: int|
                0 <= j < addresses@.len() && !self.sessions().contains_key(
                    (#[trigger] addresses@[j])@,
                ) && (forall|i: int|
                    0 <= i < j ==> self.sessions().contains_key((#[trigger] addresses@[i])@)) && (
                e matches SignalProtocolError::SessionNotFound(a) && a@ == addresses@[j]@),
    {
        let mut out: Vec<&SessionRecord> = Vec::new();
        let mut i: usize = 0;
        while i < addresses.len()
            invariant
                self.wf(),
                i <= addresses@.len(),
                out@.len() == i,
                forall|j: int|
                    0 <= j < i ==> self.sessions().contains_key((#[trigger] addresses@[j])@),
                forall|j: int| 0 <= j < i ==> (#[trigger] out@[j])@ == self.sessions()[
                    addresses@[j]@
                ],
            decreases addresses@.len() - i,
        {
            let address = addresses[i];
            match self.sessions.get(address) {
                Some(s) => {
                    out.push(s);
                },
                None => {
                    return Err(SignalProtocolError::SessionNotFound(address.clone()));
                },
            }
            i = i + 1;
        }
        Ok(out)
    }
}

impl Default for InMemSessionStore {
    /// An empty session store.
    fn default() -> (r: Self)
        ensures
            r.wf(),
            r.sessions() == Map::<(Seq<char>, u32), Seq<u8>>::empty(),
    {
        InMemSessionStore::new()
    }
}

/// In-memory store of sender keys, keyed by sending address and distribution
/// id (the 128-bit value of the distribution UUID).
pub struct InMemSenderKeyStore {
    keys: SenderMap<SenderKeyRecord>,
}

impl InMemSenderKeyStore {
    /// Distinct keys are stored once each.
    pub closed spec fn wf(self) -> bool {
        self.keys.wf()
    }

    /// The stored sender keys, as a map from address and distribution id to
    /// record bytes.
    pub closed spec fn sender_keys(self) -> Map<((Seq<char>, u32), u128), Seq<u8>> {
        self.keys.view_map()
    }

    /// Create an empty sender key store.
    pub fn new() -> (r: Self)
        ensures
            r.wf(),
            r.sender_keys() == Map::<((Seq<char>, u32), u128), Seq<u8>>::empty(),
    {
        InMemSenderKeyStore { keys: SenderMap::new() }
    }

    /// Store `record` for the sender and distribution id, overwriting any
    /// previous record.
    pub fn store_sender_key(
        &mut self,
        sender: &ProtocolAddress,
        distribution_id: u128,
        record: &SenderKeyRecord,
    ) -> (r: Result<(), SignalProtocolError>)
        requires
            old(self).wf(),
        ensures
            final(self).wf(),
            final(self).sender_keys() == old(self).sender_keys().insert(
                (sender@, distribution_id),
                record@,
            ),
            r is Ok,
    {
        self.keys.insert(sender, distribution_id, record.clone());
        Ok(())
    }

    /// The record stored for the sender and distribution id, if any.
    pub fn load_sender_key(&mut self, sender: &ProtocolAddress, distribution_id: u128) -> (r:
        Result<Option<SenderKeyRecord>, SignalProtocolError>)
        requires
            old(self).wf(),
        ensures
            final(self).wf(),
            final(self).sender_keys() == old(self).sender_keys(),
            r matches Ok(o) && match o {
                Some(rec) => old(self).sender_keys().contains_key((sender@, distribution_id))
                    && rec@ == old(self).sender_keys()[(sender@, distribution_id)],
                None => !old(self).sender_keys().contains_key((sender@, distribution_id)),
            },
    {
        match self.keys.get(sender, distribution_id) {
            Some(rec) => Ok(Some(rec.clone())),
            None => Ok(None),
        }
    }
}

impl Default for InMemSenderKeyStore {
    /// An empty sender key store.
    fn default() -> (r: Self)
        ensures
            r.wf(),
            r.sender_keys() == Map::<((Seq<char>, u32), u128), Seq<u8>>::empty(),
    {
        InMemSenderKeyStore::new()
    }
}

/// All six in-memory stores bundled into one protocol store.
pub struct InMemSignalProtocolStore {
    /// The session store half.
    pub session_store: InMemSessionStore,
    /// The pre-key store half.
    pub pre_key_store: InMemPreKeyStore,
    /// The signed pre-key store half.
    pub signed_pre_key_store: InMemSignedPreKeyStore,
    /// The Kyber pre-key store half.
    pub kyber_pre_key_store: InMemKyberPreKeyStore,
    /// The identity-key store half.
    pub identity_store: InMemIdentityKeyStore,
    /// The sender-key store half.
    pub sender_key_store: InMemSenderKeyStore,
}

impl InMemSignalProtocolStore {
    /// Every component store is well formed.
    pub open spec fn wf(self) -> bool {
        self.session_store.wf() && self.pre_key_store.wf() && self.signed_pre_key_store.wf()
            && self.kyber_pre_key_store.wf() && self.identity_store.wf()
            && self.sender_key_store.wf()
    }

    /// Create a store representing the given identity `key_pair` along with
    /// the separately chosen `registration_id`; every component starts empty.
    pub fn new(key_pair: IdentityKeyPair, registration_id: u32) -> (r: Result<
        Self,
        SignalProtocolError,
    >)
        ensures
            r matches Ok(s) && s.wf() && s.identity_store.identity_pair() == key_pair@
                && s.identity_store.local_registration_id() == registration_id
                && s.identity_store.known() == Map::<(Seq<char>, u32), Seq<u8>>::empty()
                && s.session_store.sessions() == Map::<(Seq<char>, u32), Seq<u8>>::empty()
                && s.pre_key_store.pre_keys() == Map::<u32, Seq<u8>>::empty()
                && s.signed_pre_key_store.signed_pre_keys() == Map::<u32, Seq<u8>>::empty()
                && s.kyber_pre_key_store.kyber_pre_keys() == Map::<u32, Seq<u8>>::empty()
                && s.sender_key_store.sender_keys() == Map::<
                ((Seq<char>, u32), u128),
                Seq<u8>,
            >::empty(),
    {
        Ok(
            InMemSignalProtocolStore {
                session_store: InMemSessionStore::new(),
                pre_key_store: InMemPreKeyStore::new(),
                signed_pre_key_store: InMemSignedPreKeyStore::new(),
                kyber_pre_key_store: InMemKyberPreKeyStore::new(),
                identity_store: InMemIdentityKeyStore::new(key_pair, registration_id),
                sender_key_store: InMemSenderKeyStore::new(),
            },
        )
    }

    /// Returns all registered pre-key ids, each exactly once.
    pub fn all_pre_key_ids(&self) -> (r: Vec<PreKeyId>)
        requires
            self.wf(),
        ensures
            forall|j: int|
                0 <= j < r@.len() ==> self.pre_key_store.pre_keys().contains_key(
                    (#[trigger] r@[j])@,
                ),
            forall|k: u32| #[trigger]
                self.pre_key_store.pre_keys().contains_key(k) ==> exists|j: int|
                    0 <= j < r@.len() && (#[trigger] r@[j])@ == k,
            forall|j1: int, j2: int|
                0 <= j1 < j2 < r@.len() ==> (#[trigger] r@[j1])@ != (#[trigger] r@[j2])@,
    {
        self.pre_key_store.all_pre_key_ids()
    }

    /// Returns all registered signed pre-key ids, each exactly once.
    pub fn all_signed_pre_key_ids(&self) -> (r: Vec<SignedPreKeyId>)
        requires
            self.wf(),
        ensures
            forall|j: int|
                0 <= j < r@.len() ==> self.signed_pre_key_store.signed_pre_keys().contains_key(
                    (#[trigger] r@[j])@,
                ),
            forall|k: u32| #[trigger]
                self.signed_pre_key_store.signed_pre_keys().contains_key(k) ==> exists|j: int|
                    0 <= j < r@.len() && (#[trigger] r@[j])@ == k,
            forall|j1: int, j2: int|
                0 <= j1 < j2 < r@.len() ==> (#[trigger] r@[j1])@ != (#[trigger] r@[j2])@,
    {
        self.signed_pre_key_store.all_signed_pre_key_ids()
    }

    /// Returns all registered Kyber pre-key ids, each exactly once.
    pub fn all_kyber_pre_key_ids(&self) -> (r: Vec<KyberPreKeyId>)
        requires
            self.wf(),
        ensures
            forall|j: int|
                0 <= j < r@.len() ==> self.kyber_pre_key_store.kyber_pre_keys().contains_key(
                    (#[trigger] r@[j])@,
                ),
            forall|k: u32| #[trigger]
                self.kyber_pre_key_store.kyber_pre_keys().contains_key(k) ==> exists|j: int|
                    0 <= j < r@.len() && (#[trigger] r@[j])@ == k,
            forall|j1: int, j2: int|
                0 <= j1 < j2 < r@.len() ==> (#[trigger] r@[j1])@ != (#[trigger] r@[j2])@,
    {
        self.kyber_pre_key_store.all_kyber_pre_key_ids()
    }

    /// The local identity pair.
    pub fn get_identity_key_pair(&self) -> (r: Result<IdentityKeyPair, SignalProtocolError>)
        ensures
            r matches Ok(kp) && kp@ == self.identity_store.identity_pair(),
    {
        self.identity_store.get_identity_key_pair()
    }

    /// The local registration id.
    pub fn get_local_registration_id(&self) -> (r: Result<u32, SignalProtocolError>)
        ensures
            r matches Ok(id) && id == self.identity_store.local_registration_id(),
    {
        self.identity_store.get_local_registration_id()
    }

    /// Record `identity` as the key for `address` in the identity store.
    pub fn save_identity(&mut self, address: &ProtocolAddress, identity: &IdentityKey) -> (r:
        Result<IdentityChange, SignalProtocolError>)
        requires
            old(self).wf(),
        ensures
            final(self).wf(),
            final(self).identity_store.known() == old(self).identity_store.known().insert(
                address@,
                identity@,
            ),
            final(self).identity_store.identity_pair() == old(self).identity_store.identity_pair(),
            final(self).identity_store.local_registration_id() == old(
                self,
            ).identity_store.local_registration_id(),
            final(self).session_store == old(self).session_store,
            final(self).pre_key_store == old(self).pre_key_store,
            final(self).signed_pre_key_store == old(self).signed_pre_key_store,
            final(self).kyber_pre_key_store == old(self).kyber_pre_key_store,
            final(self).sender_key_store == old(self).sender_key_store,
            r matches Ok(c) && (c == IdentityChange::ReplacedExisting <==> old(
                self,
            ).identity_store.known().contains_key(address@) && old(self).identity_store.known()[
                address@
            ] != identity@),
    {
        self.identity_store.save_identity(address, identity)
    }

    /// Trust-on-first-use check against the identity store.
    pub fn is_trusted_identity(
        &self,
        address: &ProtocolAddress,
        identity: &IdentityKey,
        direction: Direction,
    ) -> (r: Result<bool, SignalProtocolError>)
        requires
            self.wf(),
        ensures
            r matches Ok(b) && b == (self.identity_store.known().contains_key(address@)
                ==> self.identity_store.known()[address@] == identity@),
    {
        self.identity_store.is_trusted_identity(address, identity, direction)
    }

    /// The key stored for `address`, if any.
    pub fn get_identity(&self, address: &ProtocolAddress) -> (r: Result<
        Option<IdentityKey>,
        SignalProtocolError,
    >)
        requires
            self.wf(),
        ensures
            r matches Ok(o) && match o {
                Some(k) => self.identity_store.known().contains_key(address@) && k@
                    == self.identity_store.known()[address@],
                None => !self.identity_store.known().contains_key(address@),
            },
    {
        self.identity_store.get_identity(address)
    }

    /// The pre-key stored under `id`, or `InvalidPreKeyId` if there is none.
    pub fn get_pre_key(&self, id: PreKeyId) -> (r: Result<PreKeyRecord, SignalProtocolError>)
        requires
            self.wf(),
        ensures
            r matches Ok(rec) ==> self.pre_key_store.pre_keys().contains_key(id@) && rec@
                == self.pre_key_store.pre_keys()[id@],
            r matches Err(e) ==> !self.pre_key_store.pre_keys().contains_key(id@) && e
                == SignalProtocolError::InvalidPreKeyId,
    {
        self.pre_key_store.get_pre_key(id)
    }

    /// Store `record` under `id` in the pre-key store.
    pub fn save_pre_key(&mut self, id: PreKeyId, record: &PreKeyRecord) -> (r: Result<
        (),
        SignalProtocolError,
    >)
        requires
            old(self).wf(),
        ensures
            final(self).wf(),
            final(self).pre_key_store.pre_keys() == old(self).pre_key_store.pre_keys().insert(
                id@,
                record@,
            ),
            final(self).session_store == old(self).session_store,
            final(self).signed_pre_key_store == old(self).signed_pre_key_store,
            final(self).kyber_pre_key_store == old(self).kyber_pre_key_store,
            final(self).identity_store == old(self).identity_store,
            final(self).sender_key_store == old(self).sender_key_store,
            r is Ok,
    {
        self.pre_key_store.save_pre_key(id, record)
    }

    /// Drop the pre-key stored under `id`, if any.
    pub fn remove_pre_key(&mut self, id: PreKeyId) -> (r: Result<(), SignalProtocolError>)
        requires
            old(self).wf(),
        ensures
            final(self).wf(),
            final(self).pre_key_store.pre_keys() == old(self).pre_key_store.pre_keys().remove(id@),
            final(self).session_store == old(self).session_store,
            final(self).signed_pre_key_store == old(self).signed_pre_key_store,
            final(self).kyber_pre_key_store == old(self).kyber_pre_key_store,
            final(self).identity_store == old(self).identity_store,
            final(self).sender_key_store == old(self).sender_key_store,
            r is Ok,
    {
        self.pre_key_store.remove_pre_key(id)
    }

    /// The signed pre-key stored under `id`, or `InvalidSignedPreKeyId` if
    /// there is none.
    pub fn get_signed_pre_key(&self, id: SignedPreKeyId) -> (r: Result<
        SignedPreKeyRecord,
        SignalProtocolError,
    >)
        requires
            self.wf(),
        ensures
            r matches Ok(rec) ==> self.signed_pre_key_store.signed_pre_keys().contains_key(id@)
                && rec@ == self.signed_pre_key_store.signed_pre_keys()[id@],
            r matches Err(e) ==> !self.signed_pre_key_store.signed_pre_keys().contains_key(id@)
                && e == SignalProtocolError::InvalidSignedPreKeyId,
    {
        self.signed_pre_key_store.get_signed_pre_key(id)
    }

    /// Store `record` under `id` in the signed pre-key store.
    pub fn save_signed_pre_key(&mut self, id: SignedPreKeyId, record: &SignedPreKeyRecord) -> (r:
        Result<(), SignalProtocolError>)
        requires
            old(self).wf(),
        ensures
            final(self).wf(),
            final(self).signed_pre_key_store.signed_pre_keys() == old(
                self,
            ).signed_pre_key_store.signed_pre_keys().insert(id@, record@),
            final(self).session_store == old(self).session_store,
            final(self).pre_key_store == old(self).pre_key_store,
            final(self).kyber_pre_key_store == old(self).kyber_pre_key_store,
            final(self).identity_store == old(self).identity_store,
            final(self).sender_key_store == old(self).sender_key_store,
            r is Ok,
    {
        self.signed_pre_key_store.save_signed_pre_key(id, record)
    }

    /// The Kyber pre-key stored under the id, or `InvalidKyberPreKeyId` if
    /// there is none.
    pub fn get_kyber_pre_key(&self, kyber_prekey_id: KyberPreKeyId) -> (r: Result<
        KyberPreKeyRecord,
        SignalProtocolError,
    >)
        requires
            self.wf(),
        ensures
            r matches Ok(rec) ==> self.kyber_pre_key_store.kyber_pre_keys().contains_key(
                kyber_prekey_id@,
            ) && rec@ == self.kyber_pre_key_store.kyber_pre_keys()[kyber_prekey_id@],
            r matches Err(e) ==> !self.kyber_pre_key_store.kyber_pre_keys().contains_key(
                kyber_prekey_id@,
            ) && e == SignalProtocolError::InvalidKyberPreKeyId,
    {
        self.kyber_pre_key_store.get_kyber_pre_key(kyber_prekey_id)
    }

    /// Store `record` under the id in the Kyber pre-key store.
    pub fn save_kyber_pre_key(
        &mut self,
        kyber_prekey_id: KyberPreKeyId,
        record: &KyberPreKeyRecord,
    ) -> (r: Result<(), SignalProtocolError>)
        requires
            old(self).wf(),
        ensures
            final(self).wf(),
            final(self).kyber_pre_key_store.kyber_pre_keys() == old(
                self,
            ).kyber_pre_key_store.kyber_pre_keys().insert(kyber_prekey_id@, record@),
            final(self).session_store == old(self).session_store,
            final(self).pre_key_store == old(self).pre_key_store,
            final(self).signed_pre_key_store == old(self).signed_pre_key_store,
            final(self).identity_store == old(self).identity_store,
            final(self).sender_key_store == old(self).sender_key_store,
            r is Ok,
    {
        self.kyber_pre_key_store.save_kyber_pre_key(kyber_prekey_id, record)
    }

    /// Marking a Kyber pre-key used changes nothing in this in-memory
    /// implementation.
    pub fn mark_kyber_pre_key_used(&mut self, kyber_prekey_id: KyberPreKeyId) -> (r: Result<
        (),
        SignalProtocolError,
    >)
        requires
            old(self).wf(),
        ensures
            final(self).wf(),
            final(self).kyber_pre_key_store.kyber_pre_keys() == old(
                self,
            ).kyber_pre_key_store.kyber_pre_keys(),
            final(self).session_store == old(self).session_store,
            final(self).pre_key_store == old(self).pre_key_store,
            final(self).signed_pre_key_store == old(self).signed_pre_key_store,
            final(self).identity_store == old(self).identity_store,
            final(self).sender_key_store == old(self).sender_key_store,
            r is Ok,
    {
        self.kyber_pre_key_store.mark_kyber_pre_key_used(kyber_prekey_id)
    }

    /// The session stored for `address`, if any.
    pub fn load_session(&self, address: &ProtocolAddress) -> (r: Result<
        Option<SessionRecord>,
        SignalProtocolError,
    >)
        requires
            self.wf(),
        ensures
            r matches Ok(o) && match o {
                Some(s) => self.session_store.sessions().contains_key(address@) && s@
                    == self.session_store.sessions()[address@],
                None => !self.session_store.sessions().contains_key(address@),
            },
    {
        self.session_store.load_session(address)
    }

    /// Store `record` for `address` in the session store.
    pub fn store_session(&mut self, address: &ProtocolAddress, record: &SessionRecord) -> (r:
        Result<(), SignalProtocolError>)
        requires
            old(self).wf(),
        ensures
            final(self).wf(),
            final(self).session_store.sessions() == old(self).session_store.sessions().insert(
                address@,
                record@,
            ),
            final(self).pre_key_store == old(self).pre_key_store,
            final(self).signed_pre_key_store == old(self).signed_pre_key_store,
            final(self).kyber_pre_key_store == old(self).kyber_pre_key_store,
            final(self).identity_store == old(self).identity_store,
            final(self).sender_key_store == old(self).sender_key_store,
            r is Ok,
    {
        self.session_store.store_session(address, record)
    }

    /// Store `record` for the sender and distribution id in the sender-key
    /// store.
    pub fn store_sender_key(
        &mut self,
        sender: &ProtocolAddress,
        distribution_id: u128,
        record: &SenderKeyRecord,
    ) -> (r: Result<(), SignalProtocolError>)
        requires
            old(self).wf(),
        ensures
            final(self).wf(),
            final(self).sender_key_store.sender_keys() == old(
                self,
            ).sender_key_store.sender_keys().insert((sender@, distribution_id), record@),
            final(self).session_store == old(self).session_store,
            final(self).pre_key_store == old(self).pre_key_store,
            final(self).signed_pre_key_store == old(self).signed_pre_key_store,
            final(self).kyber_pre_key_store == old(self).kyber_pre_key_store,
            final(self).identity_store == old(self).identity_store,
            r is Ok,
    {
        self.sender_key_store.store_sender_key(sender, distribution_id, record)
    }

    /// The sender key stored for the sender and distribution id, if any.
    pub fn load_sender_key(&mut self, sender: &ProtocolAddress, distribution_id: u128) -> (r:
        Result<Option<SenderKeyRecord>, SignalProtocolError>)
        requires
            old(self).wf(),
        ensures
            final(self).wf(),
            final(self).sender_key_store.sender_keys() == old(self).sender_key_store.sender_keys(),
            final(self).session_store == old(self).session_store,
            final(self).pre_key_store == old(self).pre_key_store,
            final(self).signed_pre_key_store == old(self).signed_pre_key_store,
            final(self).kyber_pre_key_store == old(self).kyber_pre_key_store,
            final(self).identity_store == old(self).identity_store,
            r matches Ok(o) && match o {
                Some(rec) => old(self).sender_key_store.sender_keys().contains_key(
                    (sender@, distribution_id),
                ) && rec@ == old(self).sender_key_store.sender_keys()[(sender@, distribution_id)],
                None => !old(self).sender_key_store.sender_keys().contains_key(
                    (sender@, distribution_id),
                ),
            },
    {
        self.sender_key_store.load_sender_key(sender, distribution_id)
    }
}

} // verus!
