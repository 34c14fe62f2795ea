//! Meadowcap capabilities: signed grants that authorise reads or writes in
//! a namespace (owned) or a single subspace (communal), and the
//! authorisation tokens that bind a capability and a user signature to an
//! entry.

use vstd::prelude::*;
use crate::keys::NamespacePublicKey;
use crate::keys::NamespaceSecretKey;
use crate::keys::UserPublicKey;
use crate::keys::UserSecretKey;
use crate::keys::UserSignature;
use crate::keys::NamespaceSignature;
use crate::keys::ed_public_key_of;
use crate::keys::ed_signature_of;
use crate::keys::ed_verifies;
use crate::grouping::Area;
use crate::grouping::AreaSubspace;
use crate::grouping::area_eqv;
use crate::grouping::area_eq;
use crate::grouping::area_includes;
use crate::grouping::area_includes_area;
use crate::willow::AuthorisedEntry;
use crate::willow::Entry;
use crate::willow::Unauthorised;
use crate::willow::enc;
use crate::util::bytes_eq;
use crate::util::push_bytes;

verus! {

/// What a capability permits.
#[derive(Debug, Clone, Copy, PartialEq, Eq, Structural)]
pub enum AccessMode {
    Read,
    Write,
}

/// One step of delegation: a new user authorised for a restricted area.
/// The data shape is carried, but a capability with any delegation is
/// treated as invalid until delegation rules are defined.
#[derive(Debug)]
pub struct Delegation {
    pub area: Area,
    pub user: UserPublicKey,
    pub signature: UserSignature,
}

/// A capability for a communal namespace: it grants its user's subspace.
#[derive(Debug)]
pub struct CommunalCapability {
    /// The kind of access this grants.
    pub access_mode: AccessMode,
    /// The namespace in which this grants access.
    pub namespace_key: NamespacePublicKey,
    /// The subspace for which and to whom this grants access.
    pub user_key: UserPublicKey,
    /// Successive authorisations of new users, each restricted to an area.
    pub delegations: Vec<Delegation>,
}

/// A capability for an owned namespace: it grants the whole namespace and
/// carries the namespace key's authorisation of the user.
#[derive(Debug)]
pub struct OwnedCapability {
    /// The kind of access this grants.
    pub access_mode: AccessMode,
    /// The namespace for which this grants access.
    pub namespace_key: NamespacePublicKey,
    /// The user to whom this grants access over the whole namespace.
    pub user_key: UserPublicKey,
    /// Authorisation of the user key by the namespace key.
    pub initial_authorisation: NamespaceSignature,
    /// Successive authorisations of new users, each restricted to an area.
    pub delegations: Vec<Delegation>,
}

/// Either kind of capability.
#[derive(Debug)]
pub enum McCapability {
    Communal(CommunalCapability),
    Owned(OwnedCapability),
}

/// Raised when parameters passed to token creation do not fit together.
#[derive(Debug)]
pub struct InvalidParams;

/// Raised when a capability fails its validity check.
#[derive(Debug)]
pub struct InvalidCapability;

/// The token that authorises writing one entry: a capability and the
/// receiver's signature over the entry's canonical encoding.
#[derive(Debug)]
pub struct MeadowcapAuthorisationToken {
    /// Certifies that an entry may be written.
    pub capability: McCapability,
    /// Proves that the entry was signed by the receiver of the capability.
    pub signature: UserSignature,
}

/// The byte string an owned capability's initial authorisation signs: one
/// mode byte (0x02 for read, 0x03 for write) followed by the receiver's
/// public key bytes.
pub open spec fn signable_spec(access_mode: AccessMode, user_key: Seq<u8>) -> Seq<u8> {
    seq![
        if access_mode == AccessMode::Read {
            2u8
        } else {
            3u8
        },
    ] + user_key
}

/// The receiver of a capability: the user it was made out to.
pub open spec fn cap_receiver(c: McCapability) -> Seq<u8> {
    match c {
        McCapability::Communal(cap) => cap.user_key.bytes@,
        McCapability::Owned(cap) => cap.user_key.bytes@,
    }
}

/// The namespace a capability grants access in.
pub open spec fn cap_namespace(c: McCapability) -> Seq<u8> {
    match c {
        McCapability::Communal(cap) => cap.namespace_key.bytes@,
        McCapability::Owned(cap) => cap.namespace_key.bytes@,
    }
}

/// The access mode of a capability.
pub open spec fn cap_mode(c: McCapability) -> AccessMode {
    match c {
        McCapability::Communal(cap) => cap.access_mode,
        McCapability::Owned(cap) => cap.access_mode,
    }
}

/// Validity. A communal capability without delegations is always valid; an
/// owned one needs its initial authorisation to verify under the namespace
/// key over the signable string. Any delegation makes a capability invalid
/// until delegation rules are defined.
pub open spec fn cap_valid(c: McCapability) -> bool {
    match c {
        McCapability::Communal(cap) => cap.delegations@.len() == 0,
        McCapability::Owned(cap) => cap.delegations@.len() == 0 && ed_verifies(
            cap.namespace_key.bytes@,
            signable_spec(cap.access_mode, cap.user_key.bytes@),
            cap.initial_authorisation.bytes@,
        ),
    }
}

/// Whether a capability's granted area includes the entry coordinates: a
/// communal capability grants exactly its user's subspace, an owned one the
/// whole namespace.
pub open spec fn cap_area_includes(
    c: McCapability,
    subspace: Seq<u8>,
    path: Seq<u8>,
    time: u64,
) -> bool {
    match c {
        McCapability::Communal(cap) => cap.user_key.bytes@ == subspace,
        McCapability::Owned(_) => true,
    }
}

/// Whether a capability's granted area includes the whole area `a`.
pub open spec fn cap_includes_area(c: McCapability, a: Area) -> bool {
    match c {
        McCapability::Communal(cap) => a.subspace matches AreaSubspace::Id(t) && t.bytes@
            == cap.user_key.bytes@,
        McCapability::Owned(_) => true,
    }
}

/// The full authorisation judgement for writing `e` under token `t`: the
/// capability is valid, grants write access, its area includes the entry,
/// and the receiver's key verifies the signature over the entry encoding.
pub open spec fn authorised_write(e: Entry, t: MeadowcapAuthorisationToken) -> bool {
    &&& cap_valid(t.capability)
    &&& cap_mode(t.capability) == AccessMode::Write
    &&& cap_area_includes(t.capability, e.subspace_id.bytes@, e.path@, e.timestamp)
    &&& ed_verifies(cap_receiver(t.capability), enc(e), t.signature.bytes@)
}

/// Views of two delegations are equal.
pub open spec fn delegation_eqv(a: Delegation, b: Delegation) -> bool {
    area_eqv(a.area, b.area) && a.user.bytes@ == b.user.bytes@ && a.signature.bytes@
        == b.signature.bytes@
}

/// Views of two capabilities are equal, variant and field by field.
pub open spec fn cap_eqv(a: McCapability, b: McCapability) -> bool {
    match (a, b) {
        (McCapability::Communal(x), McCapability::Communal(y)) => {
            &&& x.access_mode == y.access_mode
            &&& x.namespace_key.bytes@ == y.namespace_key.bytes@
            &&& x.user_key.bytes@ == y.user_key.bytes@
            &&& x.delegations@.len() == y.delegations@.len()
            &&& forall|i: int| 0 <= i < x.delegations@.len() ==> delegation_eqv(
                #[trigger] x.delegations@[i],
                y.delegations@[i],
            )
        },
        (McCapability::Owned(x), McCapability::Owned(y)) => {
            &&& x.access_mode == y.access_mode
            &&& x.namespace_key.bytes@ == y.namespace_key.bytes@
            &&& x.user_key.bytes@ == y.user_key.bytes@
            &&& x.initial_authorisation.bytes@ == y.initial_authorisation.bytes@
            &&& x.delegations@.len() == y.delegations@.len()
            &&& forall|i: int| 0 <= i < x.delegations@.len() ==> delegation_eqv(
                #[trigger] x.delegations@[i],
                y.delegations@[i],
            )
        },
        _ => false,
    }
}

impl Clone for Delegation {
    fn clone(&self) -> (r: Self)
        ensures
            delegation_eqv(r, *self),
    {
        Delegation {
            area: self.area.clone(),
            user: self.user.clone(),
            signature: self.signature.clone(),
        }
    }
}

/// Byte-wise equality of delegations.
pub fn delegation_eq(a: &Delegation, b: &Delegation) -> (r: bool)
    ensures
        r == delegation_eqv(*a, *b),
{
    area_eq(&a.area, &b.area) && bytes_eq(&a.user.bytes, &b.user.bytes) && bytes_eq(
        &a.signature.bytes,
        &b.signature.bytes,
    )
}

fn delegations_clone(v: &Vec<Delegation>) -> (r: Vec<Delegation>)
    ensures
        r@.len() == v@.len(),
        forall|i: int| 0 <= i < v@.len() ==> delegation_eqv(#[trigger] r@[i], v@[i]),
{
    let mut r: Vec<Delegation> = Vec::new();
    let mut i: usize = 0;
    while i < v.len()
        invariant
            i <= v.len(),
            r@.len() == i,
            forall|j: int| 0 <= j < i ==> delegation_eqv(#[trigger] r@[j], v@[j]),
        decreases v.len() - i,
    {
        r.push(v[i].clone());
        i = i + 1;
    }
    r
}

fn delegations_eq(a: &Vec<Delegation>, b: &Vec<Delegation>) -> (r: bool)
    ensures
        r == (a@.len() == b@.len() && forall|i: int|
            0 <= i < a@.len() ==> delegation_eqv(#[trigger] a@[i], b@[i])),
{
    if a.len() != b.len() {
        return false;
    }
    let mut i: usize = 0;
    while i < a.len()
        invariant
            i <= a.len(),
            a@.len() == b@.len(),
            forall|j: int| 0 <= j < i ==> delegation_eqv(#[trigger] a@[j], b@[j]),
        decreases a.len() - i,
    {
        if !delegation_eq(&a[i], &b[i]) {
            return false;
        }
        i = i + 1;
    }
    true
}

impl Clone for CommunalCapability {
    fn clone(&self) -> (r: Self)
        ensures
            cap_eqv(McCapability::Communal(r), McCapability::Communal(*self)),
    {
        CommunalCapability {
            access_mode: self.access_mode,
            namespace_key: self.namespace_key.clone(),
            user_key: self.user_key.clone(),
            delegations: delegations_clone(&self.delegations),
        }
    }
}

impl Clone for OwnedCapability {
    fn clone(&self) -> (r: Self)
        ensures
            cap_eqv(McCapability::Owned(r), McCapability::Owned(*self)),
    {
        OwnedCapability {
            access_mode: self.access_mode,
            namespace_key: self.namespace_key.clone(),
            user_key: self.user_key.clone(),
            initial_authorisation: self.initial_authorisation.clone(),
            delegations: delegations_clone(&self.delegations),
        }
    }
}

impl Clone for McCapability {
    fn clone(&self) -> (r: Self)
        ensures
            cap_eqv(r, *self),
    {
        match self {
            McCapability::Communal(cap) => McCapability::Communal(cap.clone()),
            McCapability::Owned(cap) => McCapability::Owned(cap.clone()),
        }
    }
}

/// The authorisation judgement depends on its arguments only through their
/// views: an equal-view entry and token authorise alike.
pub proof fn lemma_authorised_write_congruence(
    e1: Entry,
    t1: MeadowcapAuthorisationToken,
    e2: Entry,
    t2: MeadowcapAuthorisationToken,
)
    requires
        crate::willow::entry_eqv(e1, e2),
        cap_eqv(t1.capability, t2.capability),
        t1.signature.bytes@ == t2.signature.bytes@,
    ensures
        authorised_write(e1, t1) == authorised_write(e2, t2),
{
    assert(enc(e1) == enc(e2));
    match (t1.capability, t2.capability) {
        (McCapability::Communal(x), McCapability::Communal(y)) => {
            assert(cap_valid(t1.capability) == cap_valid(t2.capability));
        },
        (McCapability::Owned(x), McCapability::Owned(y)) => {
            assert(signable_spec(x.access_mode, x.user_key.bytes@) == signable_spec(
                y.access_mode,
                y.user_key.bytes@,
            ));
        },
        _ => {},
    }
}

/// Congruence in the capability alone, for one entry and signature.
pub proof fn lemma_authorised_write_eqv_cap(
    e: Entry,
    c1: McCapability,
    c2: McCapability,
    sig: UserSignature,
)
    requires
        cap_eqv(c1, c2),
    ensures
        authorised_write(e, (MeadowcapAuthorisationToken { capability: c1, signature: sig }))
            == authorised_write(
            e,
            (MeadowcapAuthorisationToken { capability: c2, signature: sig }),
        ),
{
    lemma_authorised_write_congruence(
        e,
        MeadowcapAuthorisationToken { capability: c1, signature: sig },
        e,
        MeadowcapAuthorisationToken { capability: c2, signature: sig },
    );
}

/// Content equality of capabilities is transitive.
pub proof fn lemma_cap_eqv_trans(a: McCapability, b: McCapability, c: McCapability)
    requires
        cap_eqv(a, b),
        cap_eqv(b, c),
    ensures
        cap_eqv(a, c),
{
    match (a, b, c) {
        (McCapability::Communal(x), McCapability::Communal(y), McCapability::Communal(z)) => {
            assert forall|i: int| 0 <= i < x.delegations@.len() implies delegation_eqv(
                #[trigger] x.delegations@[i],
                z.delegations@[i],
            ) by {
                assert(delegation_eqv(x.delegations@[i], y.delegations@[i]));
                assert(delegation_eqv(y.delegations@[i], z.delegations@[i]));
            }
        },
        (McCapability::Owned(x), McCapability::Owned(y), McCapability::Owned(z)) => {
            assert forall|i: int| 0 <= i < x.delegations@.len() implies delegation_eqv(
                #[trigger] x.delegations@[i],
                z.delegations@[i],
            ) by {
                assert(delegation_eqv(x.delegations@[i], y.delegations@[i]));
                assert(delegation_eqv(y.delegations@[i], z.delegations@[i]));
            }
        },
        _ => {},
    }
}

impl crate::resource::ResourceValue for McCapability {
    open spec fn eqv(&self, other: &Self) -> bool {
        cap_eqv(*self, *other)
    }

    fn value_eq(&self, other: &Self) -> (r: bool) {
        cap_eq(self, other)
    }

    proof fn eqv_reflexive(&self) {
    }
}

/// Byte-wise equality of capabilities.
pub fn cap_eq(a: &McCapability, b: &McCapability) -> (r: bool)
    ensures
        r == cap_eqv(*a, *b),
{
    match (a, b) {
        (McCapability::Communal(x), McCapability::Communal(y)) => {
            x.access_mode == y.access_mode && x.namespace_key.same_key(&y.namespace_key)
                && x.user_key.same_key(&y.user_key) && delegations_eq(&x.delegations, &y.delegations)
        },
        (McCapability::Owned(x), McCapability::Owned(y)) => {
            x.access_mode == y.access_mode && x.namespace_key.same_key(&y.namespace_key)
                && x.user_key.same_key(&y.user_key) && bytes_eq(
                &x.initial_authorisation.bytes,
                &y.initial_authorisation.bytes,
            ) && delegations_eq(&x.delegations, &y.delegations)
        },
        _ => false,
    }
}

impl CommunalCapability {
    /// The user this capability was made out to.
    pub fn receiver(&self) -> (r: &UserPublicKey)
        ensures
            r.bytes@ == cap_receiver(McCapability::Communal(*self)),
    {
        &self.user_key
    }

    /// The namespace this capability grants access in.
    pub fn granted_namespace(&self) -> (r: &NamespacePublicKey)
        ensures
            r.bytes@ == cap_namespace(McCapability::Communal(*self)),
    {
        &self.namespace_key
    }

    /// The granted area: the receiver's subspace, all paths, all times.
    pub fn granted_area(&self) -> (r: Area)
        ensures
            r.subspace matches AreaSubspace::Id(s) && s.bytes@ == self.user_key.bytes@,
            r.path@.len() == 0,
            r.times.start == 0,
            r.times.end matches crate::grouping::RangeEnd::Open,
    {
        Area::subspace(self.user_key.id())
    }

    /// A communal capability without delegations is always valid.
    pub fn is_valid(&self) -> (r: bool)
        ensures
            r == cap_valid(McCapability::Communal(*self)),
    {
        self.delegations.len() == 0
    }
}

impl OwnedCapability {
    /// Creates an owned capability: the namespace secret key signs the mode
    /// byte followed by the user's public key. The result is valid.
    pub fn new(
        namespace_secret_key: &NamespaceSecretKey,
        user_key: UserPublicKey,
        access_mode: AccessMode,
    ) -> (r: Self)
        requires
            namespace_secret_key.wf(),
        ensures
            r.access_mode == access_mode,
            r.namespace_key.bytes@ == ed_public_key_of(namespace_secret_key.bytes@),
            r.user_key == user_key,
            r.initial_authorisation.bytes@ == ed_signature_of(
                namespace_secret_key.bytes@,
                signable_spec(access_mode, user_key.bytes@),
            ),
            r.delegations@.len() == 0,
            cap_valid(McCapability::Owned(r)),
    {
        let namespace_key = namespace_secret_key.public_key();
        let signable = Self::signable(access_mode, &user_key);
        let initial_authorisation = namespace_secret_key.sign(&signable);
        OwnedCapability {
            access_mode,
            namespace_key,
            user_key,
            initial_authorisation,
            delegations: Vec::new(),
        }
    }

    /// The user this capability was made out to.
    pub fn receiver(&self) -> (r: &UserPublicKey)
        ensures
            r.bytes@ == cap_receiver(McCapability::Owned(*self)),
    {
        &self.user_key
    }

    /// The namespace this capability grants access in.
    pub fn granted_namespace(&self) -> (r: &NamespacePublicKey)
        ensures
            r.bytes@ == cap_namespace(McCapability::Owned(*self)),
    {
        &self.namespace_key
    }

    /// The granted area: the whole namespace.
    pub fn granted_area(&self) -> (r: Area)
        ensures
            r.subspace matches AreaSubspace::Any,
            r.path@.len() == 0,
            r.times.start == 0,
            r.times.end matches crate::grouping::RangeEnd::Open,
    {
        Area::full()
    }

    /// With zero delegations, validity is exactly that the initial
    /// authorisation verifies under the namespace key over the signable
    /// string; with delegations the capability is invalid.
    pub fn is_valid(&self) -> (r: bool)
        ensures
            r == cap_valid(McCapability::Owned(*self)),
            self.delegations@.len() == 0 ==> r == ed_verifies(
                self.namespace_key.bytes@,
                signable_spec(self.access_mode, self.user_key.bytes@),
                self.initial_authorisation.bytes@,
            ),
            self.delegations@.len() != 0 ==> r == false,
    {
        if self.delegations.len() == 0 {
            let signable = Self::signable(self.access_mode, &self.user_key);
            self.namespace_key.verify(&signable, &self.initial_authorisation)
        } else {
            false
        }
    }

    /// The byte string signed by the namespace key: the mode byte followed
    /// by the user's public key bytes.
    pub fn signable(access_mode: AccessMode, user_key: &UserPublicKey) -> (r: Vec<u8>)
        ensures
            r@ == signable_spec(access_mode, user_key.bytes@),
    {
        let mut out: Vec<u8> = Vec::new();
        let mode_byte: u8 = match access_mode {
            AccessMode::Read => 2,
            AccessMode::Write => 3,
        };
        out.push(mode_byte);
        let ghost first = out@;
        push_bytes(&mut out, &user_key.bytes);
        proof {
            assert(out@ =~= signable_spec(access_mode, user_key.bytes@));
        }
        out
    }
}

impl McCapability {
    /// The access mode of either variant.
    pub fn access_mode(&self) -> (r: AccessMode)
        ensures
            r == cap_mode(*self),
    {
        match self {
            McCapability::Communal(cap) => cap.access_mode,
            McCapability::Owned(cap) => cap.access_mode,
        }
    }

    /// The receiver of either variant.
    pub fn receiver(&self) -> (r: &UserPublicKey)
        ensures
            r.bytes@ == cap_receiver(*self),
    {
        match self {
            McCapability::Communal(cap) => cap.receiver(),
            McCapability::Owned(cap) => cap.receiver(),
        }
    }

    /// The namespace of either variant.
    pub fn granted_namespace(&self) -> (r: &NamespacePublicKey)
        ensures
            r.bytes@ == cap_namespace(*self),
    {
        match self {
            McCapability::Communal(cap) => cap.granted_namespace(),
            McCapability::Owned(cap) => cap.granted_namespace(),
        }
    }

    /// The granted area of either variant. Membership in the returned area
    /// coincides with `cap_area_includes`.
    pub fn granted_area(&self) -> (r: Area)
        ensures
            forall|subspace: Seq<u8>, path: Seq<u8>, time: u64|
                area_includes(r, subspace, path, time) == cap_area_includes(
                    *self,
                    subspace,
                    path,
                    time,
                ),
            forall|a: Area| area_includes_area(r, a) == cap_includes_area(*self, a),
    {
        let r = match self {
            McCapability::Communal(cap) => cap.granted_area(),
            McCapability::Owned(cap) => cap.granted_area(),
        };
        proof {
            assert forall|subspace: Seq<u8>, path: Seq<u8>, time: u64|
                area_includes(r, subspace, path, time) == cap_area_includes(
                    *self,
                    subspace,
                    path,
                    time,
                ) by {
                assert(r.path@ =~= path.take(0));
            }
            assert forall|a: Area| area_includes_area(r, a) == cap_includes_area(*self, a) by {
                assert(r.path@ =~= a.path@.take(0));
            }
        }
        r
    }

    /// Rejects an area the granted area does not include.
    pub fn try_granted_area(&self, area: &Area) -> (r: Result<(), Unauthorised>)
        ensures
            r is Ok <==> cap_includes_area(*self, *area),
    {
        let granted = self.granted_area();
        if !granted.includes_area(area) {
            Result::Err(Unauthorised)
        } else {
            Result::Ok(())
        }
    }

    /// Whether the granted area includes the whole area `a`.
    pub fn try_granted_area_ok(&self, area: &Area) -> (r: bool)
        ensures
            r == cap_includes_area(*self, *area),
    {
        let granted = self.granted_area();
        granted.includes_area(area)
    }

    /// The bytes of the granted namespace's public key, as a fresh vector.
    pub fn granted_namespace_bytes(&self) -> (r: Vec<u8>)
        ensures
            r@ == cap_namespace(*self),
    {
        crate::util::clone_bytes(&self.granted_namespace().bytes)
    }

    /// Validity of either variant.
    pub fn is_valid(&self) -> (r: bool)
        ensures
            r == cap_valid(*self),
    {
        match self {
            McCapability::Communal(cap) => cap.is_valid(),
            McCapability::Owned(cap) => cap.is_valid(),
        }
    }

    /// Validity as a result.
    pub fn validate(&self) -> (r: Result<(), InvalidCapability>)
        ensures
            r is Ok <==> cap_valid(*self),
    {
        if self.is_valid() {
            Result::Ok(())
        } else {
            Result::Err(InvalidCapability)
        }
    }
}

impl MeadowcapAuthorisationToken {
    /// Packs a capability and signature into a token.
    pub fn from_parts(capability: McCapability, signature: UserSignature) -> (r: Self)
        ensures
            r.capability == capability,
            r.signature == signature,
    {
        MeadowcapAuthorisationToken { capability, signature }
    }

    /// Borrows both parts.
    pub fn as_parts(&self) -> (r: (&McCapability, &UserSignature))
        ensures
            r.0 == &self.capability,
            r.1 == &self.signature,
    {
        (&self.capability, &self.signature)
    }

    /// Takes both parts.
    pub fn into_parts(self) -> (r: (McCapability, UserSignature))
        ensures
            r.0 == self.capability,
            r.1 == self.signature,
    {
        (self.capability, self.signature)
    }
}

impl Clone for MeadowcapAuthorisationToken {
    fn clone(&self) -> (r: Self)
        ensures
            cap_eqv(r.capability, self.capability),
            r.signature.bytes@ == self.signature.bytes@,
    {
        MeadowcapAuthorisationToken {
            capability: self.capability.clone(),
            signature: self.signature.clone(),
        }
    }
}

/// The full authorisation check: capability valid, write access, area
/// includes the entry, and the receiver's signature verifies over the
/// entry's canonical encoding.
pub fn is_authorised_write(entry: &Entry, token: &MeadowcapAuthorisationToken) -> (r: bool)
    requires
        entry.wf(),
    ensures
        r == authorised_write(*entry, *token),
{
    let (capability, signature) = token.as_parts();
    capability.is_valid() && capability.access_mode() == AccessMode::Write
        && capability.granted_area().includes(&entry.subspace_id, &entry.path, entry.timestamp)
        && capability.receiver().verify(&entry.encode(), signature)
}

/// Signs the entry's canonical encoding and packages the capability with
/// the signature.
pub fn create_token(
    entry: &Entry,
    capability: McCapability,
    secret_key: &UserSecretKey,
) -> (r: MeadowcapAuthorisationToken)
    requires
        entry.wf(),
        secret_key.wf(),
    ensures
        r.capability == capability,
        r.signature.bytes@ == ed_signature_of(secret_key.bytes@, enc(*entry)),
        ed_verifies(ed_public_key_of(secret_key.bytes@), enc(*entry), r.signature.bytes@),
{
    let signable = entry.encode();
    let signature = secret_key.sign(&signable);
    MeadowcapAuthorisationToken::from_parts(capability, signature)
}

/// Builds an authorised entry from an entry, a capability and the matching
/// secret key. Succeeds exactly when the capability is valid, grants write
/// access, its area includes the entry, and the secret key belongs to the
/// capability's receiver; the result then satisfies the authorised-write
/// judgement by construction.
pub fn attach_authorisation(
    entry: Entry,
    capability: McCapability,
    secret_key: &UserSecretKey,
) -> (r: Result<AuthorisedEntry, InvalidParams>)
    requires
        entry.wf(),
        secret_key.wf(),
    ensures
        r is Ok <==> (cap_valid(capability) && cap_mode(capability) == AccessMode::Write
            && cap_area_includes(capability, entry.subspace_id.bytes@, entry.path@, entry.timestamp)
            && cap_receiver(capability) == ed_public_key_of(secret_key.bytes@)),
        match r {
            Result::Ok(ae) => ae.entry == entry && ae.token.capability == capability
                && ae.token.signature.bytes@ == ed_signature_of(secret_key.bytes@, enc(entry))
                && ae.wf(),
            Result::Err(_) => true,
        },
{
    if capability.access_mode() != AccessMode::Write || !capability.is_valid()
        || !capability.granted_area().includes(&entry.subspace_id, &entry.path, entry.timestamp)
        || !capability.receiver().same_key(&secret_key.public_key()) {
        return Result::Err(InvalidParams);
    }
    let token = create_token(&entry, capability, secret_key);
    Result::Ok(AuthorisedEntry::from_parts_unchecked(entry, token))
}

} // verus!
