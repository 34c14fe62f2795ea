//! Entries and authorised entries. An `Entry` is the canonical record
//! `(namespace, subspace, path, timestamp, payload_length, payload_digest)`
//! with a canonical byte encoding used as the signing input; an
//! `AuthorisedEntry` couples an entry with a Meadowcap token whose checks
//! hold by construction.

use vstd::prelude::*;
use crate::keys::NamespaceId;
use crate::keys::SubspaceId;
use crate::keys::UserSignature;
use crate::grouping::MAX_PATH_LENGTH;
use crate::meadowcap::MeadowcapAuthorisationToken;
use crate::meadowcap::authorised_write;
use crate::meadowcap::is_authorised_write;
use crate::util::clone_bytes;
use crate::util::bytes_eq;
use crate::util::bytes_less;
use crate::util::lex_less;
use crate::util::spec_u64_be;
use crate::util::spec_be_u64;
use crate::util::push_u64_be;
use crate::util::push_bytes;
use crate::util::read_u64_be;
use crate::util::read_bytes;
use crate::util::lemma_u64_be_round_trip;

verus! {

/// The fixed-length digest of an entry's payload.
#[derive(Debug)]
pub struct PayloadDigest {
    pub bytes: Vec<u8>,
}

impl PayloadDigest {
    pub open spec fn wf(&self) -> bool {
        self.bytes@.len() == 32
    }
}

impl Clone for PayloadDigest {
    fn clone(&self) -> (r: Self)
        ensures
            r.bytes@ == self.bytes@,
    {
        PayloadDigest { bytes: clone_bytes(&self.bytes) }
    }
}

/// The metadata record reconciled between stores.
#[derive(Debug)]
pub struct Entry {
    pub namespace_id: NamespaceId,
    pub subspace_id: SubspaceId,
    pub path: Vec<u8>,
    pub timestamp: u64,
    pub payload_length: u64,
    pub payload_digest: PayloadDigest,
}

/// Returned when an entry fails its authorisation check.
#[derive(Debug)]
pub struct Unauthorised;

/// The canonical encoding: both 32-byte identifiers, the path length as
/// eight big-endian bytes, the path, timestamp and payload length as eight
/// big-endian bytes each, and the 32-byte payload digest.
pub open spec fn enc(e: Entry) -> Seq<u8> {
    e.namespace_id.bytes@ + e.subspace_id.bytes@ + spec_u64_be(e.path@.len() as u64) + e.path@
        + spec_u64_be(e.timestamp) + spec_u64_be(e.payload_length) + e.payload_digest.bytes@
}

/// Views of two entries are equal, field by field.
pub open spec fn entry_eqv(a: Entry, b: Entry) -> bool {
    &&& a.namespace_id.bytes@ == b.namespace_id.bytes@
    &&& a.subspace_id.bytes@ == b.subspace_id.bytes@
    &&& a.path@ == b.path@
    &&& a.timestamp == b.timestamp
    &&& a.payload_length == b.payload_length
    &&& a.payload_digest.bytes@ == b.payload_digest.bytes@
}

/// Two entries address the same slot: equal namespace, subspace and path.
pub open spec fn entry_key_eq(a: Entry, b: Entry) -> bool {
    &&& a.namespace_id.bytes@ == b.namespace_id.bytes@
    &&& a.subspace_id.bytes@ == b.subspace_id.bytes@
    &&& a.path@ == b.path@
}

/// The conflict order on entries of one slot: later timestamp wins, ties go
/// to the lexicographically larger digest, final ties to the larger payload
/// length.
pub open spec fn entry_newer(a: Entry, b: Entry) -> bool {
    ||| a.timestamp > b.timestamp
    ||| (a.timestamp == b.timestamp && lex_less(b.payload_digest.bytes@, a.payload_digest.bytes@))
    ||| (a.timestamp == b.timestamp && a.payload_digest.bytes@ == b.payload_digest.bytes@
        && a.payload_length > b.payload_length)
}

impl Entry {
    pub open spec fn wf(&self) -> bool {
        &&& self.namespace_id.wf()
        &&& self.subspace_id.wf()
        &&& self.path@.len() <= MAX_PATH_LENGTH
        &&& self.payload_digest.wf()
    }

    /// Produces the canonical byte encoding.
    pub fn encode(&self) -> (r: Vec<u8>)
        requires
            self.wf(),
        ensures
            r@ == enc(*self),
    {
        let mut out: Vec<u8> = Vec::new();
        push_bytes(&mut out, &self.namespace_id.bytes);
        push_bytes(&mut out, &self.subspace_id.bytes);
        push_u64_be(&mut out, self.path.len() as u64);
        push_bytes(&mut out, &self.path);
        push_u64_be(&mut out, self.timestamp);
        push_u64_be(&mut out, self.payload_length);
        push_bytes(&mut out, &self.payload_digest.bytes);
        out
    }

    /// Parses a canonical encoding back into an entry. Succeeds exactly on
    /// the byte strings that are the encoding of some well-formed entry, and
    /// then returns an entry with that encoding.
    #[verifier::rlimit(100)]
    pub fn decode(bytes: &Vec<u8>) -> (r: Option<Entry>)
        ensures
            match r {
                Option::Some(d) => d.wf() && enc(d) == bytes@,
                Option::None => forall|e: Entry| e.wf() ==> enc(e) != bytes@,
            },
    {
        let n: usize = bytes.len();
        if n < 120 {
            proof {
                assert forall|e: Entry| e.wf() implies enc(e) != bytes@ by {
                    lemma_enc_parts(e);
                }
            }
            return Option::None;
        }
        let plen64 = read_u64_be(bytes, 64);
        if plen64 > MAX_PATH_LENGTH as u64 {
            proof {
                assert forall|e: Entry| e.wf() implies enc(e) != bytes@ by {
                    if enc(e) == bytes@ {
                        lemma_enc_parts(e);
                        lemma_u64_be_round_trip(e.path@.len() as u64);
                    }
                }
            }
            return Option::None;
        }
        let plen = plen64 as usize;
        if n != 120 + plen {
            proof {
                assert forall|e: Entry| e.wf() implies enc(e) != bytes@ by {
                    if enc(e) == bytes@ {
                        lemma_enc_parts(e);
                        lemma_u64_be_round_trip(e.path@.len() as u64);
                    }
                }
            }
            return Option::None;
        }
        let namespace_id = NamespaceId { bytes: read_bytes(bytes, 0, 32) };
        let subspace_id = SubspaceId { bytes: read_bytes(bytes, 32, 32) };
        let path = read_bytes(bytes, 72, plen);
        let timestamp = read_u64_be(bytes, 72 + plen);
        let payload_length = read_u64_be(bytes, 80 + plen);
        let payload_digest = PayloadDigest { bytes: read_bytes(bytes, 88 + plen, 32) };
        let d = Entry { namespace_id, subspace_id, path, timestamp, payload_length, payload_digest };
        proof {
            lemma_enc_parts(d);
            lemma_u64_be_round_trip(d.path@.len() as u64);
            lemma_u64_be_round_trip(d.timestamp);
            lemma_u64_be_round_trip(d.payload_length);
            assert(spec_u64_be(d.path@.len() as u64) =~= bytes@.subrange(64, 72)) by {
                assert(spec_be_u64(bytes@.subrange(64, 72)) == plen64);
                assert(d.path@.len() == plen);
                lemma_u64_be_determined(d.path@.len() as u64, bytes@.subrange(64, 72));
            }
            assert(spec_u64_be(d.timestamp) =~= bytes@.subrange(72 + plen, 80 + plen)) by {
                lemma_u64_be_determined(d.timestamp, bytes@.subrange(72 + plen, 80 + plen));
            }
            assert(spec_u64_be(d.payload_length) =~= bytes@.subrange(80 + plen, 88 + plen)) by {
                lemma_u64_be_determined(d.payload_length, bytes@.subrange(80 + plen, 88 + plen));
            }
            assert(enc(d) =~= bytes@);
        }
        Option::Some(d)
    }

    /// Whether the entry's identifiers, digest and path have the required
    /// shapes: the executable form of well-formedness, for values read off
    /// the wire.
    pub fn check_wf(&self) -> (r: bool)
        ensures
            r == self.wf(),
    {
        self.namespace_id.bytes.len() == 32 && self.subspace_id.bytes.len() == 32
            && self.path.len() <= MAX_PATH_LENGTH && self.payload_digest.bytes.len() == 32
    }

    /// Whether this entry wins the conflict against `other` in the order
    /// (timestamp, digest, payload length).
    pub fn is_newer_than(&self, other: &Entry) -> (r: bool)
        ensures
            r == entry_newer(*self, *other),
    {
        if self.timestamp > other.timestamp {
            true
        } else if self.timestamp < other.timestamp {
            false
        } else if bytes_less(&other.payload_digest.bytes, &self.payload_digest.bytes) {
            true
        } else if bytes_eq(&self.payload_digest.bytes, &other.payload_digest.bytes) {
            self.payload_length > other.payload_length
        } else {
            false
        }
    }

    /// Whether both entries address the same (namespace, subspace, path)
    /// slot.
    pub fn same_key(&self, other: &Entry) -> (r: bool)
        ensures
            r == entry_key_eq(*self, *other),
    {
        bytes_eq(&self.namespace_id.bytes, &other.namespace_id.bytes) && bytes_eq(
            &self.subspace_id.bytes,
            &other.subspace_id.bytes,
        ) && bytes_eq(&self.path, &other.path)
    }

    /// Field-wise equality of entries.
    pub fn same_entry(&self, other: &Entry) -> (r: bool)
        ensures
            r == entry_eqv(*self, *other),
    {
        self.same_key(other) && self.timestamp == other.timestamp && self.payload_length
            == other.payload_length && bytes_eq(
            &self.payload_digest.bytes,
            &other.payload_digest.bytes,
        )
    }
}

impl Clone for Entry {
    fn clone(&self) -> (r: Self)
        ensures
            entry_eqv(r, *self),
    {
        Entry {
            namespace_id: self.namespace_id.clone(),
            subspace_id: self.subspace_id.clone(),
            path: clone_bytes(&self.path),
            timestamp: self.timestamp,
            payload_length: self.payload_length,
            payload_digest: self.payload_digest.clone(),
        }
    }
}

/// The encoding of a well-formed entry splits at fixed offsets around the
/// path: its overall length and every field's slice are determined.
pub proof fn lemma_enc_parts(e: Entry)
    requires
        e.wf(),
    ensures
        enc(e).len() == 120 + e.path@.len(),
        enc(e).subrange(0, 32) == e.namespace_id.bytes@,
        enc(e).subrange(32, 64) == e.subspace_id.bytes@,
        enc(e).subrange(64, 72) == spec_u64_be(e.path@.len() as u64),
        enc(e).subrange(72, 72 + e.path@.len() as int) == e.path@,
        enc(e).subrange(72 + e.path@.len() as int, 80 + e.path@.len() as int) == spec_u64_be(e.timestamp),
        enc(e).subrange(80 + e.path@.len() as int, 88 + e.path@.len() as int) == spec_u64_be(e.payload_length),
        enc(e).subrange(88 + e.path@.len() as int, 120 + e.path@.len() as int) == e.payload_digest.bytes@,
{
    let s = enc(e);
    let len = e.path@.len() as int;
    assert(s.subrange(0, 32) =~= e.namespace_id.bytes@);
    assert(s.subrange(32, 64) =~= e.subspace_id.bytes@);
    assert(s.subrange(64, 72) =~= spec_u64_be(e.path@.len() as u64));
    assert(s.subrange(72, 72 + len) =~= e.path@);
    assert(s.subrange(72 + len, 80 + len) =~= spec_u64_be(e.timestamp));
    assert(s.subrange(80 + len, 88 + len) =~= spec_u64_be(e.payload_length));
    assert(s.subrange(88 + len, 120 + len) =~= e.payload_digest.bytes@);
}

/// Eight big-endian bytes that read back as `x` are the encoding of `x`.
proof fn lemma_u64_be_determined(x: u64, s: Seq<u8>)
    requires
        s.len() == 8,
        spec_be_u64(s) == x,
    ensures
        spec_u64_be(x) == s,
{
    let b0 = s[0];
    let b1 = s[1];
    let b2 = s[2];
    let b3 = s[3];
    let b4 = s[4];
    let b5 = s[5];
    let b6 = s[6];
    let b7 = s[7];
    let y = (((b0 as u64) << 56) | ((b1 as u64) << 48) | ((b2 as u64) << 40) | ((b3 as u64) << 32)
        | ((b4 as u64) << 24) | ((b5 as u64) << 16) | ((b6 as u64) << 8) | (b7 as u64)) as u64;
    assert(((y >> 56) & 0xff) == b0 && ((y >> 48) & 0xff) == b1 && ((y >> 40) & 0xff) == b2 && ((y
        >> 32) & 0xff) == b3 && ((y >> 24) & 0xff) == b4 && ((y >> 16) & 0xff) == b5 && ((y >> 8)
        & 0xff) == b6 && (y & 0xff) == b7) by (bit_vector)
        requires
            y == (((b0 as u64) << 56) | ((b1 as u64) << 48) | ((b2 as u64) << 40) | ((b3
                as u64) << 32) | ((b4 as u64) << 24) | ((b5 as u64) << 16) | ((b6 as u64) << 8) | (
            b7 as u64)) as u64,
    ;
    assert(spec_u64_be(x) =~= s);
}

/// The canonical encoding is injective on well-formed entries: equal
/// encodings mean field-wise equal entries.
pub proof fn lemma_entry_encode_injective(a: Entry, b: Entry)
    requires
        a.wf(),
        b.wf(),
        enc(a) == enc(b),
    ensures
        entry_eqv(a, b),
{
    lemma_enc_parts(a);
    lemma_enc_parts(b);
    lemma_u64_be_round_trip(a.path@.len() as u64);
    lemma_u64_be_round_trip(b.path@.len() as u64);
    assert(a.path@.len() == b.path@.len());
    lemma_u64_be_round_trip(a.timestamp);
    lemma_u64_be_round_trip(b.timestamp);
    lemma_u64_be_round_trip(a.payload_length);
    lemma_u64_be_round_trip(b.payload_length);
}

/// The conflict order decides every pair: of two entries for one slot,
/// either one strictly beats the other, or they agree on timestamp, digest
/// and payload length — so the entry a store retains is the maximum in the
/// (timestamp, digest, payload length) lexicographic order.
pub proof fn lemma_conflict_order_total(a: Entry, b: Entry)
    ensures
        entry_newer(a, b) || entry_newer(b, a) || (a.timestamp == b.timestamp
            && a.payload_digest.bytes@ == b.payload_digest.bytes@ && a.payload_length
            == b.payload_length),
{
    crate::util::lemma_lex_trichotomy(a.payload_digest.bytes@, b.payload_digest.bytes@);
}

/// An entry together with a token that authorises writing it; the
/// authorisation check holds by construction.
#[derive(Debug)]
pub struct AuthorisedEntry {
    pub entry: Entry,
    pub token: MeadowcapAuthorisationToken,
}

impl AuthorisedEntry {
    /// The invariant every authorised entry carries: the entry is well
    /// formed and the token authorises it.
    pub open spec fn wf(&self) -> bool {
        self.entry.wf() && authorised_write(self.entry, self.token)
    }

    /// Checked factory: runs the full authorisation check on the parts and
    /// succeeds exactly when it holds.
    pub fn try_from_parts(
        entry: Entry,
        static_token: crate::meadowcap::McCapability,
        dynamic_token: UserSignature,
    ) -> (r: Result<AuthorisedEntry, Unauthorised>)
        requires
            entry.wf(),
        ensures
            match r {
                Result::Ok(ae) => ae.entry == entry && ae.token.capability == static_token
                    && ae.token.signature == dynamic_token && ae.wf(),
                Result::Err(_) => !authorised_write(
                    entry,
                    (MeadowcapAuthorisationToken {
                        capability: static_token,
                        signature: dynamic_token,
                    }),
                ),
            },
    {
        let token = MeadowcapAuthorisationToken { capability: static_token, signature: dynamic_token };
        if is_authorised_write(&entry, &token) {
            Result::Ok(AuthorisedEntry { entry, token })
        } else {
            Result::Err(Unauthorised)
        }
    }

    /// Unchecked factory for callers that have already established the
    /// authorisation; here that is a proof obligation rather than a runtime
    /// check.
    pub fn from_parts_unchecked(entry: Entry, token: MeadowcapAuthorisationToken) -> (r:
        AuthorisedEntry)
        requires
            entry.wf(),
            authorised_write(entry, token),
        ensures
            r.entry == entry,
            r.token == token,
            r.wf(),
    {
        AuthorisedEntry { entry, token }
    }

    /// Splits the pair apart again.
    pub fn into_parts(self) -> (r: (Entry, MeadowcapAuthorisationToken))
        ensures
            r.0 == self.entry,
            r.1 == self.token,
    {
        (self.entry, self.token)
    }
}

impl Clone for AuthorisedEntry {
    fn clone(&self) -> (r: Self)
        ensures
            entry_eqv(r.entry, self.entry),
            crate::meadowcap::cap_eqv(r.token.capability, self.token.capability),
            r.token.signature.bytes@ == self.token.signature.bytes@,
            self.wf() ==> r.wf(),
    {
        let entry = self.entry.clone();
        let token = self.token.clone();
        proof {
            crate::meadowcap::lemma_authorised_write_congruence(
                self.entry,
                self.token,
                entry,
                token,
            );
        }
        AuthorisedEntry { entry, token }
    }
}

impl AuthorisedEntry {
    /// Splits the pair apart, keeping both halves borrowed.
    pub fn as_parts(&self) -> (r: (&Entry, &MeadowcapAuthorisationToken))
        ensures
            r.0 == &self.entry,
            r.1 == &self.token,
    {
        (&self.entry, &self.token)
    }
}

} // verus!
