//! Key and signature primitives: namespace and user keypairs with
//! fixed-length public keys and signatures. Signing and verification are
//! delegated to an Ed25519 implementation behind trusted wrappers; everything
//! above them works on plain byte vectors.

use vstd::prelude::*;
use crate::util::clone_bytes;
use crate::util::bytes_eq;

verus! {

/// Length in bytes of a public key.
pub const PUBLIC_KEY_LENGTH: usize = 32;

/// Length in bytes of a signature.
pub const SIGNATURE_LENGTH: usize = 64;

/// The public key derived from the given Ed25519 secret key bytes.
pub uninterp spec fn ed_public_key_of(secret: Seq<u8>) -> Seq<u8>;

/// The signature produced by the given Ed25519 secret key over a message.
pub uninterp spec fn ed_signature_of(secret: Seq<u8>, message: Seq<u8>) -> Seq<u8>;

/// Whether a public key, message and signature pass Ed25519 verification.
pub uninterp spec fn ed_verifies(public_key: Seq<u8>, message: Seq<u8>, signature: Seq<u8>) -> bool;

/// Relies on ed25519_dalek::SigningKey::verifying_key: the public key is
/// derived from the secret key bytes alone and is 32 bytes long.
#[verifier::external_body]
fn ed_derive_public_key(secret: &Vec<u8>) -> (r: Vec<u8>)
    requires
        secret@.len() == 32,
    ensures
        r@ == ed_public_key_of(secret@),
        r@.len() == 32,
{
    let bytes: [u8; 32] = secret.as_slice().try_into().unwrap();
    let key = ed25519_dalek::SigningKey::from_bytes(&bytes);
    key.verifying_key().to_bytes().to_vec()
}

/// Relies on ed25519_dalek's `Signer::sign` for `SigningKey`: Ed25519 signing
/// is deterministic, the signature is 64 bytes, and a signature so produced
/// passes verification under the corresponding public key.
#[verifier::external_body]
fn ed_sign(secret: &Vec<u8>, message: &Vec<u8>) -> (r: Vec<u8>)
    requires
        secret@.len() == 32,
    ensures
        r@ == ed_signature_of(secret@, message@),
        r@.len() == 64,
        ed_verifies(ed_public_key_of(secret@), message@, r@),
{
    let bytes: [u8; 32] = secret.as_slice().try_into().unwrap();
    let key = ed25519_dalek::SigningKey::from_bytes(&bytes);
    let signature = ed25519_dalek::Signer::sign(&key, message.as_slice());
    signature.to_bytes().to_vec()
}

/// Relies on ed25519_dalek::VerifyingKey::verify: the outcome is a function
/// of the key, message and signature bytes alone; bytes that do not parse as
/// a key or signature verify nothing.
#[verifier::external_body]
fn ed_verify(public_key: &Vec<u8>, message: &Vec<u8>, signature: &Vec<u8>) -> (r: bool)
    ensures
        r == ed_verifies(public_key@, message@, signature@),
{
    let Ok(key_bytes): Result<[u8; 32], _> = public_key.as_slice().try_into() else {
        return false;
    };
    let Ok(key) = ed25519_dalek::VerifyingKey::from_bytes(&key_bytes) else {
        return false;
    };
    let Ok(sig_bytes): Result<[u8; 64], _> = signature.as_slice().try_into() else {
        return false;
    };
    let signature = ed25519_dalek::Signature::from_bytes(&sig_bytes);
    ed25519_dalek::Verifier::verify(&key, message.as_slice(), &signature).is_ok()
}

/// A 32-byte public key naming a namespace.
#[derive(Debug)]
pub struct NamespacePublicKey {
    pub bytes: Vec<u8>,
}

/// A 32-byte public key naming a user (and, equally, a subspace).
#[derive(Debug)]
pub struct UserPublicKey {
    pub bytes: Vec<u8>,
}

/// A 64-byte signature issued by a namespace secret key.
#[derive(Debug)]
pub struct NamespaceSignature {
    pub bytes: Vec<u8>,
}

/// A 64-byte signature issued by a user secret key.
#[derive(Debug)]
pub struct UserSignature {
    pub bytes: Vec<u8>,
}

/// The secret half of a namespace keypair.
#[derive(Debug)]
pub struct NamespaceSecretKey {
    pub bytes: Vec<u8>,
}

/// The secret half of a user keypair.
#[derive(Debug)]
pub struct UserSecretKey {
    pub bytes: Vec<u8>,
}

impl NamespacePublicKey {
    pub open spec fn wf(&self) -> bool {
        self.bytes@.len() == 32
    }
}

impl UserPublicKey {
    pub open spec fn wf(&self) -> bool {
        self.bytes@.len() == 32
    }

    /// Verifies `signature` over `message` under this key.
    pub fn verify(&self, message: &Vec<u8>, signature: &UserSignature) -> (r: bool)
        ensures
            r == ed_verifies(self.bytes@, message@, signature.bytes@),
    {
        ed_verify(&self.bytes, message, &signature.bytes)
    }
}

impl NamespaceSignature {
    pub open spec fn wf(&self) -> bool {
        self.bytes@.len() == 64
    }
}

impl UserSignature {
    pub open spec fn wf(&self) -> bool {
        self.bytes@.len() == 64
    }
}

impl NamespacePublicKey {
    /// Verifies `signature` over `message` under this key.
    pub fn verify(&self, message: &Vec<u8>, signature: &NamespaceSignature) -> (r: bool)
        ensures
            r == ed_verifies(self.bytes@, message@, signature.bytes@),
    {
        ed_verify(&self.bytes, message, &signature.bytes)
    }

    /// Copies the key.
    pub fn duplicate(&self) -> (r: Self)
        ensures
            r.bytes@ == self.bytes@,
    {
        NamespacePublicKey { bytes: clone_bytes(&self.bytes) }
    }

    /// Byte-wise equality of keys.
    pub fn same_key(&self, other: &Self) -> (r: bool)
        ensures
            r == (self.bytes@ == other.bytes@),
    {
        bytes_eq(&self.bytes, &other.bytes)
    }
}

impl UserPublicKey {
    /// Copies the key.
    pub fn duplicate(&self) -> (r: Self)
        ensures
            r.bytes@ == self.bytes@,
    {
        UserPublicKey { bytes: clone_bytes(&self.bytes) }
    }

    /// Byte-wise equality of keys.
    pub fn same_key(&self, other: &Self) -> (r: bool)
        ensures
            r == (self.bytes@ == other.bytes@),
    {
        bytes_eq(&self.bytes, &other.bytes)
    }
}

impl NamespaceSecretKey {
    pub open spec fn wf(&self) -> bool {
        self.bytes@.len() == 32
    }

    /// Builds a secret key from 32 bytes of key material.
    pub fn from_bytes(bytes: Vec<u8>) -> (r: Self)
        requires
            bytes@.len() == 32,
        ensures
            r.bytes@ == bytes@,
            r.wf(),
    {
        NamespaceSecretKey { bytes }
    }

    /// The public key of this keypair.
    pub fn public_key(&self) -> (r: NamespacePublicKey)
        requires
            self.wf(),
        ensures
            r.bytes@ == ed_public_key_of(self.bytes@),
            r.wf(),
    {
        NamespacePublicKey { bytes: ed_derive_public_key(&self.bytes) }
    }

    /// Signs a message; the signature verifies under the public key.
    pub fn sign(&self, message: &Vec<u8>) -> (r: NamespaceSignature)
        requires
            self.wf(),
        ensures
            r.bytes@ == ed_signature_of(self.bytes@, message@),
            r.wf(),
            ed_verifies(ed_public_key_of(self.bytes@), message@, r.bytes@),
    {
        NamespaceSignature { bytes: ed_sign(&self.bytes, message) }
    }
}

impl UserSecretKey {
    pub open spec fn wf(&self) -> bool {
        self.bytes@.len() == 32
    }

    /// Builds a secret key from 32 bytes of key material.
    pub fn from_bytes(bytes: Vec<u8>) -> (r: Self)
        requires
            bytes@.len() == 32,
        ensures
            r.bytes@ == bytes@,
            r.wf(),
    {
        UserSecretKey { bytes }
    }

    /// The public key of this keypair.
    pub fn public_key(&self) -> (r: UserPublicKey)
        requires
            self.wf(),
        ensures
            r.bytes@ == ed_public_key_of(self.bytes@),
            r.wf(),
    {
        UserPublicKey { bytes: ed_derive_public_key(&self.bytes) }
    }

    /// Signs a message; the signature verifies under the public key.
    pub fn sign(&self, message: &Vec<u8>) -> (r: UserSignature)
        requires
            self.wf(),
        ensures
            r.bytes@ == ed_signature_of(self.bytes@, message@),
            r.wf(),
            ed_verifies(ed_public_key_of(self.bytes@), message@, r.bytes@),
    {
        UserSignature { bytes: ed_sign(&self.bytes, message) }
    }
}

impl Clone for NamespaceSignature {
    fn clone(&self) -> (r: Self)
        ensures
            r.bytes@ == self.bytes@,
    {
        NamespaceSignature { bytes: clone_bytes(&self.bytes) }
    }
}

impl Clone for UserSignature {
    fn clone(&self) -> (r: Self)
        ensures
            r.bytes@ == self.bytes@,
    {
        UserSignature { bytes: clone_bytes(&self.bytes) }
    }
}

impl Clone for NamespacePublicKey {
    fn clone(&self) -> (r: Self)
        ensures
            r.bytes@ == self.bytes@,
    {
        NamespacePublicKey { bytes: clone_bytes(&self.bytes) }
    }
}

impl Clone for UserPublicKey {
    fn clone(&self) -> (r: Self)
        ensures
            r.bytes@ == self.bytes@,
    {
        UserPublicKey { bytes: clone_bytes(&self.bytes) }
    }
}

/// The identifier of a namespace: the encoding of its public key.
#[derive(Debug)]
pub struct NamespaceId {
    pub bytes: Vec<u8>,
}

/// The identifier of a user, also used as a subspace identifier: the
/// encoding of the user's public key.
#[derive(Debug)]
pub struct UserId {
    pub bytes: Vec<u8>,
}

/// Subspace identifiers coincide with user identifiers.
pub type SubspaceId = UserId;

impl NamespaceId {
    pub open spec fn wf(&self) -> bool {
        self.bytes@.len() == 32
    }

    /// Byte-wise equality of identifiers.
    pub fn same_id(&self, other: &Self) -> (r: bool)
        ensures
            r == (self.bytes@ == other.bytes@),
    {
        bytes_eq(&self.bytes, &other.bytes)
    }
}

impl UserId {
    pub open spec fn wf(&self) -> bool {
        self.bytes@.len() == 32
    }

    /// Byte-wise equality of identifiers.
    pub fn same_id(&self, other: &Self) -> (r: bool)
        ensures
            r == (self.bytes@ == other.bytes@),
    {
        bytes_eq(&self.bytes, &other.bytes)
    }
}

impl Clone for NamespaceId {
    fn clone(&self) -> (r: Self)
        ensures
            r.bytes@ == self.bytes@,
    {
        NamespaceId { bytes: clone_bytes(&self.bytes) }
    }
}

impl Clone for UserId {
    fn clone(&self) -> (r: Self)
        ensures
            r.bytes@ == self.bytes@,
    {
        UserId { bytes: clone_bytes(&self.bytes) }
    }
}

impl NamespacePublicKey {
    /// The identifier derived from this key.
    pub fn id(&self) -> (r: NamespaceId)
        ensures
            r.bytes@ == self.bytes@,
    {
        NamespaceId { bytes: clone_bytes(&self.bytes) }
    }
}

impl UserPublicKey {
    /// The identifier derived from this key.
    pub fn id(&self) -> (r: UserId)
        ensures
            r.bytes@ == self.bytes@,
    {
        UserId { bytes: clone_bytes(&self.bytes) }
    }
}

} // verus!
