//! Value types handled by the in-memory stores: addresses, identity keys,
//! pre-key and session records, and the error and status enums of the store
//! interface. Keys and records carry their serialized form as plain bytes;
//! every type has a view over mathematical sequences so that store contracts
//! can speak about contents exactly.

use vstd::prelude::*;

verus! {

/// Copies a byte vector element by element.
pub(crate) fn copy_bytes(src: &Vec<u8>) -> (r: Vec<u8>)
    ensures
        r@ == src@,
{
    let mut out: Vec<u8> = Vec::new();
    let mut i: usize = 0;
    while i < src.len()
        invariant
            i <= src.len(),
            out@ == src@.take(i as int),
        decreases src.len() - i,
    {
        out.push(src[i]);
        proof {
            assert(src@.take(i + 1) =~= src@.take(i as int).push(src@[i as int]));
        }
        i = i + 1;
    }
    proof {
        assert(src@.take(src@.len() as int) =~= src@);
    }
    out
}

/// Compares two byte vectors for equality of contents.
pub(crate) fn bytes_eq(a: &Vec<u8>, b: &Vec<u8>) -> (r: bool)
    ensures
        r == (a@ == b@),
{
    if a.len() != b.len() {
        return false;
    }
    let mut i: usize = 0;
    while i < a.len()
        invariant
            i <= a.len(),
            a@.len() == b@.len(),
            forall|j: int| 0 <= j < i ==> a@[j] == b@[j],
        decreases a.len() - i,
    {
        if a[i] != b[i] {
            return false;
        }
        i = i + 1;
    }
    proof {
        assert(a@ =~= b@);
    }
    true
}

/// The name and device id that together identify a remote protocol endpoint.
#[derive(Debug)]
pub struct ProtocolAddress {
    name: String,
    device_id: u32,
}

impl View for ProtocolAddress {
    type V = (Seq<char>, u32);

    closed spec fn view(&self) -> (Seq<char>, u32) {
        (self.name@, self.device_id)
    }
}

impl ProtocolAddress {
    /// Create an address from a name and a device id.
    pub fn new(name: String, device_id: u32) -> (r: Self)
        ensures
            r@ == (name@, device_id),
    {
        ProtocolAddress { name, device_id }
    }

    /// The name half of the address.
    pub fn name(&self) -> (r: &str)
        ensures
            r@ == self@.0,
    {
        self.name.as_str()
    }

    /// The device id half of the address.
    pub fn device_id(&self) -> (r: u32)
        ensures
            r == self@.1,
    {
        self.device_id
    }

    /// True exactly when both halves of the two addresses agree.
    pub fn matches(&self, other: &ProtocolAddress) -> (r: bool)
        ensures
            r == (self@ == other@),
    {
        self.device_id == other.device_id && self.name == other.name
    }
}

impl Clone for ProtocolAddress {
    fn clone(&self) -> (r: Self)
        ensures
            r@ == self@,
    {
        ProtocolAddress { name: self.name.clone(), device_id: self.device_id }
    }
}

/// A public identity key, carried in serialized form.
#[derive(Debug)]
pub struct IdentityKey {
    public_key: Vec<u8>,
}

impl View for IdentityKey {
    type V = Seq<u8>;

    closed spec fn view(&self) -> Seq<u8> {
        self.public_key@
    }
}

impl IdentityKey {
    /// Wrap serialized public-key bytes.
    pub fn new(public_key: Vec<u8>) -> (r: Self)
        ensures
            r@ == public_key@,
    {
        IdentityKey { public_key }
    }

    /// The serialized form of the key.
    pub fn serialized(&self) -> (r: &Vec<u8>)
        ensures
            r@ == self@,
    {
        &self.public_key
    }

    /// True exactly when the two keys serialize to the same bytes.
    pub fn matches(&self, other: &IdentityKey) -> (r: bool)
        ensures
            r == (self@ == other@),
    {
        bytes_eq(&self.public_key, &other.public_key)
    }
}

impl Clone for IdentityKey {
    fn clone(&self) -> (r: Self)
        ensures
            r@ == self@,
    {
        IdentityKey { public_key: copy_bytes(&self.public_key) }
    }
}

/// A local identity: the public identity key together with the serialized
/// private key.
#[derive(Debug)]
pub struct IdentityKeyPair {
    identity_key: IdentityKey,
    private_key: Vec<u8>,
}

impl View for IdentityKeyPair {
    type V = (Seq<u8>, Seq<u8>);

    closed spec fn view(&self) -> (Seq<u8>, Seq<u8>) {
        (self.identity_key@, self.private_key@)
    }
}

impl IdentityKeyPair {
    /// Pair a public identity key with its serialized private key.
    pub fn new(identity_key: IdentityKey, private_key: Vec<u8>) -> (r: Self)
        ensures
            r@ == (identity_key@, private_key@),
    {
        IdentityKeyPair { identity_key, private_key }
    }

    /// The public half of the pair.
    pub fn identity_key(&self) -> (r: &IdentityKey)
        ensures
            r@ == self@.0,
    {
        &self.identity_key
    }

    /// The serialized private half of the pair.
    pub fn private_key(&self) -> (r: &Vec<u8>)
        ensures
            r@ == self@.1,
    {
        &self.private_key
    }
}

impl Clone for IdentityKeyPair {
    fn clone(&self) -> (r: Self)
        ensures
            r@ == self@,
    {
        IdentityKeyPair {
            identity_key: self.identity_key.clone(),
            private_key: copy_bytes(&self.private_key),
        }
    }
}

/// Identifier of a one-time pre-key.
#[derive(Clone, Copy, PartialEq, Eq, Structural, Debug)]
pub struct PreKeyId {
    value: u32,
}

impl View for PreKeyId {
    type V = u32;

    closed spec fn view(&self) -> u32 {
        self.value
    }
}

impl PreKeyId {
    /// Wrap a raw id value.
    pub fn new(value: u32) -> (r: Self)
        ensures
            r@ == value,
    {
        PreKeyId { value }
    }

    /// The raw id value.
    pub fn value(&self) -> (r: u32)
        ensures
            r == self@,
    {
        self.value
    }
}

/// Identifier of a signed pre-key.
#[derive(Clone, Copy, PartialEq, Eq, Structural, Debug)]
pub struct SignedPreKeyId {
    value: u32,
}

impl View for SignedPreKeyId {
    type V = u32;

    closed spec fn view(&self) -> u32 {
        self.value
    }
}

impl SignedPreKeyId {
    /// Wrap a raw id value.
    pub fn new(value: u32) -> (r: Self)
        ensures
            r@ == value,
    {
        SignedPreKeyId { value }
    }

    /// The raw id value.
    pub fn value(&self) -> (r: u32)
        ensures
            r == self@,
    {
        self.value
    }
}

/// Identifier of a Kyber pre-key.
#[derive(Clone, Copy, PartialEq, Eq, Structural, Debug)]
pub struct KyberPreKeyId {
    value: u32,
}

impl View for KyberPreKeyId {
    type V = u32;

    closed spec fn view(&self) -> u32 {
        self.value
    }
}

impl KyberPreKeyId {
    /// Wrap a raw id value.
    pub fn new(value: u32) -> (r: Self)
        ensures
            r@ == value,
    {
        KyberPreKeyId { value }
    }

    /// The raw id value.
    pub fn value(&self) -> (r: u32)
        ensures
            r == self@,
    {
        self.value
    }
}

/// A stored one-time pre-key, in serialized form.
#[derive(Debug)]
pub struct PreKeyRecord {
    data: Vec<u8>,
}

impl View for PreKeyRecord {
    type V = Seq<u8>;

    closed spec fn view(&self) -> Seq<u8> {
        self.data@
    }
}

impl PreKeyRecord {
    /// Wrap serialized record bytes.
    pub fn new(data: Vec<u8>) -> (r: Self)
        ensures
            r@ == data@,
    {
        PreKeyRecord { data }
    }

    /// The serialized form of the record.
    pub fn serialized(&self) -> (r: &Vec<u8>)
        ensures
            r@ == self@,
    {
        &self.data
    }
}

impl Clone for PreKeyRecord {
    fn clone(&self) -> (r: Self)
        ensures
            r@ == self@,
    {
        PreKeyRecord { data: copy_bytes(&self.data) }
    }
}

/// A stored signed pre-key, in serialized form.
#[derive(Debug)]
pub struct SignedPreKeyRecord {
    data: Vec<u8>,
}

impl View for SignedPreKeyRecord {
    type V = Seq<u8>;

    closed spec fn view(&self) -> Seq<u8> {
        self.data@
    }
}

impl SignedPreKeyRecord {
    /// Wrap serialized record bytes.
    pub fn new(data: Vec<u8>) -> (r: Self)
        ensures
            r@ == data@,
    {
        SignedPreKeyRecord { data }
    }

    /// The serialized form of the record.
    pub fn serialized(&self) -> (r: &Vec<u8>)
        ensures
            r@ == self@,
    {
        &self.data
    }
}

impl Clone for SignedPreKeyRecord {
    fn clone(&self) -> (r: Self)
        ensures
            r@ == self@,
    {
        SignedPreKeyRecord { data: copy_bytes(&self.data) }
    }
}

/// A stored Kyber pre-key, in serialized form.
#[derive(Debug)]
pub struct KyberPreKeyRecord {
    data: Vec<u8>,
}

impl View for KyberPreKeyRecord {
    type V = Seq<u8>;

    closed spec fn view(&self) -> Seq<u8> {
        self.data@
    }
}

impl KyberPreKeyRecord {
    /// Wrap serialized record bytes.
    pub fn new(data: Vec<u8>) -> (r: Self)
        ensures
            r@ == data@,
    {
        KyberPreKeyRecord { data }
    }

    /// The serialized form of the record.
    pub fn serialized(&self) -> (r: &Vec<u8>)
        ensures
            r@ == self@,
    {
        &self.data
    }
}

impl Clone for KyberPreKeyRecord {
    fn clone(&self) -> (r: Self)
        ensures
            r@ == self@,
    {
        KyberPreKeyRecord { data: copy_bytes(&self.data) }
    }
}

/// A stored session state, in serialized form.
#[derive(Debug)]
pub struct SessionRecord {
    data: Vec<u8>,
}

impl View for SessionRecord {
    type V = Seq<u8>;

    closed spec fn view(&self) -> Seq<u8> {
        self.data@
    }
}

impl SessionRecord {
    /// Wrap serialized record bytes.
    pub fn new(data: Vec<u8>) -> (r: Self)
        ensures
            r@ == data@,
    {
        SessionRecord { data }
    }

    /// The serialized form of the record.
    pub fn serialized(&self) -> (r: &Vec<u8>)
        ensures
            r@ == self@,
    {
        &self.data
    }
}

impl Clone for SessionRecord {
    fn clone(&self) -> (r: Self)
        ensures
            r@ == self@,
    {
        SessionRecord { data: copy_bytes(&self.data) }
    }
}

/// A stored sender-key state, in serialized form.
#[derive(Debug)]
pub struct SenderKeyRecord {
    data: Vec<u8>,
}

impl View for SenderKeyRecord {
    type V = Seq<u8>;

    closed spec fn view(&self) -> Seq<u8> {
        self.data@
    }
}

impl SenderKeyRecord {
    /// Wrap serialized record bytes.
    pub fn new(data: Vec<u8>) -> (r: Self)
        ensures
            r@ == data@,
    {
        SenderKeyRecord { data }
    }

    /// The serialized form of the record.
    pub fn serialized(&self) -> (r: &Vec<u8>)
        ensures
            r@ == self@,
    {
        &self.data
    }
}

impl Clone for SenderKeyRecord {
    fn clone(&self) -> (r: Self)
        ensures
            r@ == self@,
    {
        SenderKeyRecord { data: copy_bytes(&self.data) }
    }
}

/// The errors that the stores report.
#[derive(Debug)]
pub enum SignalProtocolError {
    /// No pre-key is stored under the requested id.
    InvalidPreKeyId,
    /// No signed pre-key is stored under the requested id.
    InvalidSignedPreKeyId,
    /// No Kyber pre-key is stored under the requested id.
    InvalidKyberPreKeyId,
    /// No session is stored for the given address.
    SessionNotFound(ProtocolAddress),
}

/// What saving an identity did to the stored mapping.
#[derive(Clone, Copy, PartialEq, Eq, Structural, Debug)]
pub enum IdentityChange {
    /// The address was unknown, or already mapped to this same key.
    NewOrUnchanged,
    /// The address was known with a different key, which was replaced.
    ReplacedExisting,
}

/// The direction of traffic a trust check is made for.
#[derive(Clone, Copy, PartialEq, Eq, Structural, Debug)]
pub enum Direction {
    /// Keys used to send to the remote endpoint.
    Sending,
    /// Keys used to receive from the remote endpoint.
    Receiving,
}

} // verus!
