//! Per-session bookkeeping: the errors the core raises, the two roles, the
//! session initialisation data, and the session state with its bound
//! resources, commitment/reveal sub-state, pending ranges and pending
//! entries.

use vstd::prelude::*;
use crate::keys::NamespaceId;
use crate::keys::UserSecretKey;
use crate::keys::ed_public_key_of;
use crate::keys::ed_signature_of;
use crate::keys::ed_verifies;
use crate::grouping::RangeEnd;
use crate::grouping::ThreeDRange;
use crate::grouping::AreaSubspace;
use crate::grouping::Area;
use crate::grouping::range_eqv;
use crate::grouping::succ_fixed_spec;
use crate::grouping::prefix_succ_spec;
use crate::grouping::succ_fixed;
use crate::grouping::prefix_succ;
use crate::meadowcap::McCapability;
use crate::meadowcap::cap_eqv;
use crate::meadowcap::cap_namespace;
use crate::meadowcap::cap_valid;
use crate::resource::ResourceMap;
use crate::resource::spec_bind_if_new;
use crate::static_tokens::StaticTokens;
use crate::wgps::AreaOfInterest;
use crate::wgps::CommitmentReveal;
use crate::wgps::SetupBindAreaOfInterest;
use crate::wgps::SetupBindReadCapability;
use crate::wgps::SetupBindStaticToken;
use crate::wgps::StaticToken;
use crate::util::bytes_eq;
use crate::util::bytes_leq;
use crate::util::clone_bytes;
use crate::util::lex_leq;
use crate::util::spec_u64_be;
use crate::util::push_u64_be;

verus! {

/// Everything the session core can fail with.
#[derive(Debug, Clone, Copy, PartialEq, Eq, Structural)]
pub enum Error {
    /// A capability failed its validity check.
    InvalidCapability,
    /// A capability does not cover an entry or range, or a signature check
    /// failed.
    Unauthorised,
    /// Our secret key does not belong to the capability's receiver.
    WrongSecretKeyForCapability,
    /// The two areas of interest have no common range.
    AreaOfInterestDoesNotOverlap,
    /// A handle was dereferenced that nobody bound.
    MissingResource,
    /// A message arrived that the current state cannot accept.
    InvalidMessageInCurrentState,
    /// A message arrived on the wrong channel or of an unexpected kind.
    UnsupportedMessage,
    /// A channel was closed while sending.
    ChannelClosed,
}

/// The two protocol roles: the initiator and the responder. Only the
/// initiator begins reconciliation on a freshly bound pair of areas of
/// interest.
#[derive(Debug, Clone, Copy, PartialEq, Eq, Structural)]
pub enum Role {
    Alfie,
    Betty,
}

/// What a session starts from: the user's secret key and, per capability,
/// the areas of interest to bind under it.
#[derive(Debug)]
pub struct SessionInit {
    pub user_secret_key: UserSecretKey,
    pub interests: Vec<(McCapability, Vec<AreaOfInterest>)>,
}

/// The resources one side of a session has bound.
#[derive(Debug)]
pub struct Resources {
    pub capabilities: ResourceMap<McCapability>,
    pub areas_of_interest: ResourceMap<SetupBindAreaOfInterest>,
}

impl Resources {
    pub fn new() -> (r: Resources)
        ensures
            r.capabilities.values@.len() == 0,
            r.areas_of_interest.values@.len() == 0,
    {
        Resources { capabilities: ResourceMap::new(), areas_of_interest: ResourceMap::new() }
    }
}

/// Whether a capability's granted area structurally covers a range: an
/// owned capability covers everything in its namespace, a communal one the
/// ranges lying within its subspace.
pub open spec fn cap_covers_range(c: McCapability, r: ThreeDRange) -> bool {
    match c {
        McCapability::Owned(_) => true,
        McCapability::Communal(cap) => {
            &&& lex_leq(cap.user_key.bytes@, r.subspaces.start@)
            &&& match (r.subspaces.end, succ_fixed_spec(cap.user_key.bytes@)) {
                (RangeEnd::Closed(ie), Option::Some(oe)) => lex_leq(ie@, oe),
                (RangeEnd::Closed(ie), Option::None) => true,
                (RangeEnd::Open, Option::None) => true,
                (RangeEnd::Open, Option::Some(_)) => false,
            }
        },
    }
}

/// Executable form of `cap_covers_range`.
pub fn cap_covers_range_exec(c: &McCapability, r: &ThreeDRange) -> (res: bool)
    ensures
        res == cap_covers_range(*c, *r),
{
    match c {
        McCapability::Owned(_) => true,
        McCapability::Communal(cap) => {
            bytes_leq(&cap.user_key.bytes, &r.subspaces.start) && match (&r.subspaces.end,
            succ_fixed(&cap.user_key.bytes)) {
                (RangeEnd::Closed(ie), Option::Some(oe)) => bytes_leq(ie, &oe),
                (RangeEnd::Closed(_), Option::None) => true,
                (RangeEnd::Open, Option::None) => true,
                (RangeEnd::Open, Option::Some(_)) => false,
            }
        },
    }
}

/// The chain from an area-of-interest handle to the namespace of the
/// capability that authorised it, on one side's resources; `None` when a
/// link is missing.
pub open spec fn aoi_namespace(res: Resources, aoi_handle: u64) -> Option<Seq<u8>> {
    if 1 <= aoi_handle <= res.areas_of_interest.values@.len() {
        let aoi = res.areas_of_interest.values@[aoi_handle - 1];
        if 1 <= aoi.authorisation <= res.capabilities.values@.len() {
            Option::Some(cap_namespace(res.capabilities.values@[aoi.authorisation - 1]))
        } else {
            Option::None
        }
    } else {
        Option::None
    }
}

/// Whether a range is authorised by the pair of area-of-interest handles:
/// both chains resolve, both capabilities name the same namespace, and both
/// granted areas cover the range.
pub open spec fn range_authorised(
    ours: Resources,
    theirs: Resources,
    r: ThreeDRange,
    our_handle: u64,
    their_handle: u64,
) -> bool {
    &&& 1 <= our_handle <= ours.areas_of_interest.values@.len()
    &&& 1 <= their_handle <= theirs.areas_of_interest.values@.len()
    &&& ({
        let our_aoi = ours.areas_of_interest.values@[our_handle - 1];
        let their_aoi = theirs.areas_of_interest.values@[their_handle - 1];
        &&& 1 <= our_aoi.authorisation <= ours.capabilities.values@.len()
        &&& 1 <= their_aoi.authorisation <= theirs.capabilities.values@.len()
        &&& ({
            let our_cap = ours.capabilities.values@[our_aoi.authorisation - 1];
            let their_cap = theirs.capabilities.values@[their_aoi.authorisation - 1];
            &&& cap_namespace(our_cap) == cap_namespace(their_cap)
            &&& cap_covers_range(our_cap, r)
            &&& cap_covers_range(their_cap, r)
        })
    })
}

/// All mutable state of one session.
#[derive(Debug)]
pub struct SessionState {
    /// Which role this side plays.
    pub role: Role,
    /// Resources bound by this side.
    pub our_resources: Resources,
    /// Resources bound by the peer.
    pub their_resources: Resources,
    /// Static tokens bound by either side.
    pub static_tokens: StaticTokens,
    /// Ranges for which a final reply is still expected, tagged by our
    /// area-of-interest handle.
    pub pending_ranges: Vec<(u64, ThreeDRange)>,
    /// How many entries of an announcement are still to arrive.
    pub pending_entries: Option<u64>,
    /// Whether reconciliation has begun.
    pub reconciliation_started: bool,
    /// The nonce this side committed to at session start.
    pub our_nonce: Vec<u8>,
    /// The commitment the peer opened the session with.
    pub peer_commitment: Vec<u8>,
    /// Whether we already sent our reveal.
    pub our_commitment_revealed: bool,
    /// Whether the peer's reveal already arrived.
    pub peer_commitment_received: bool,
}

/// Whether an entry of `pending_ranges` matches a handle and range.
pub open spec fn pending_matches(p: (u64, ThreeDRange), handle: u64, r: ThreeDRange) -> bool {
    p.0 == handle && range_eqv(p.1, r)
}

/// Whether a final-reply marker can be cleared against the pending set: an
/// absent marker always can, a present one needs a matching pending entry.
pub open spec fn can_clear_pending(
    pending: Seq<(u64, ThreeDRange)>,
    handle: u64,
    marker: Option<ThreeDRange>,
) -> bool {
    match marker {
        Option::None => true,
        Option::Some(r) => exists|i: int|
            0 <= i < pending.len() && pending_matches(#[trigger] pending[i], handle, r),
    }
}

impl SessionState {
    /// Fresh session state from the role, our nonce and the peer's
    /// commitment.
    pub fn new(role: Role, our_nonce: Vec<u8>, peer_commitment: Vec<u8>) -> (r: SessionState)
        ensures
            r.role == role,
            r.our_resources.capabilities.values@.len() == 0,
            r.our_resources.areas_of_interest.values@.len() == 0,
            r.their_resources.capabilities.values@.len() == 0,
            r.their_resources.areas_of_interest.values@.len() == 0,
            r.static_tokens.ours.values@.len() == 0,
            r.static_tokens.theirs.values@.len() == 0,
            r.pending_ranges@.len() == 0,
            r.pending_entries is None,
            !r.reconciliation_started,
            r.our_nonce == our_nonce,
            r.peer_commitment == peer_commitment,
            !r.our_commitment_revealed,
            !r.peer_commitment_received,
    {
        SessionState {
            role,
            our_resources: Resources::new(),
            their_resources: Resources::new(),
            static_tokens: StaticTokens::new(),
            pending_ranges: Vec::new(),
            pending_entries: Option::None,
            reconciliation_started: false,
            our_nonce,
            peer_commitment,
            our_commitment_revealed: false,
            peer_commitment_received: false,
        }
    }

    /// Produces the reveal message from the local nonce; fails if already
    /// revealed.
    pub fn commitment_reveal(&mut self) -> (r: Result<CommitmentReveal, Error>)
        ensures
            r is Ok <==> !old(self).our_commitment_revealed,
            match r {
                Result::Ok(m) => m.nonce@ == old(self).our_nonce@ && *final(self) == (SessionState {
                    our_commitment_revealed: true,
                    ..*old(self)
                }),
                Result::Err(e) => e == Error::InvalidMessageInCurrentState && *final(self) == *old(self),
            },
    {
        if self.our_commitment_revealed {
            return Result::Err(Error::InvalidMessageInCurrentState);
        }
        self.our_commitment_revealed = true;
        Result::Ok(CommitmentReveal { nonce: clone_bytes(&self.our_nonce) })
    }

    /// Records the peer's reveal; fails if already received or if it does
    /// not match the peer's commitment.
    pub fn on_commitment_reveal(&mut self, msg: &CommitmentReveal) -> (r: Result<(), Error>)
        ensures
            r is Ok <==> (!old(self).peer_commitment_received && msg.nonce@ == old(self).peer_commitment@),
            match r {
                Result::Ok(_) => *final(self) == (SessionState {
                    peer_commitment_received: true,
                    ..*old(self)
                }),
                Result::Err(e) => e == Error::InvalidMessageInCurrentState && *final(self) == *old(self),
            },
    {
        if self.peer_commitment_received {
            return Result::Err(Error::InvalidMessageInCurrentState);
        }
        if !bytes_eq(&msg.nonce, &self.peer_commitment) {
            return Result::Err(Error::InvalidMessageInCurrentState);
        }
        self.peer_commitment_received = true;
        Result::Ok(())
    }

    /// Binds our capability (idempotently) and signs the intersection
    /// handle with our secret key; returns the handle and, when the
    /// capability was new, the setup message to send.
    pub fn bind_and_sign_capability(
        &mut self,
        secret: &UserSecretKey,
        intersection_handle: u64,
        capability: McCapability,
    ) -> (r: (u64, Option<SetupBindReadCapability>))
        requires
            secret.wf(),
        ensures
            (final(self).our_resources.capabilities.values@, r.0 as int, r.1 is Some)
                == spec_bind_if_new(old(self).our_resources.capabilities.values@, capability),
            match r.1 {
                Option::Some(m) => cap_eqv(m.capability, capability) && m.handle
                    == intersection_handle && m.signature.bytes@ == ed_signature_of(
                    secret.bytes@,
                    spec_u64_be(intersection_handle),
                ) && ed_verifies(
                    ed_public_key_of(secret.bytes@),
                    spec_u64_be(intersection_handle),
                    m.signature.bytes@,
                ),
                Option::None => true,
            },
            final(self).their_resources == old(self).their_resources,
            final(self).our_resources.areas_of_interest == old(self).our_resources.areas_of_interest,
            final(self).pending_ranges == old(self).pending_ranges,
            final(self).pending_entries == old(self).pending_entries,
            final(self).static_tokens == old(self).static_tokens,
            final(self).role == old(self).role,
    {
        let copy = capability.clone();
        let (handle, is_new) = self.our_resources.capabilities.bind_if_new(capability);
        if is_new {
            let mut signable: Vec<u8> = Vec::new();
            push_u64_be(&mut signable, intersection_handle);
            let signature = secret.sign(&signable);
            proof {
                assert(signable@ =~= spec_u64_be(intersection_handle));
            }
            (
                handle,
                Option::Some(
                    SetupBindReadCapability {
                        capability: copy,
                        handle: intersection_handle,
                        signature,
                    },
                ),
            )
        } else {
            (handle, Option::None)
        }
    }

    /// Validates and records a capability the peer bound: the capability
    /// must be valid and the signature must verify, under the capability's
    /// receiver, over the intersection handle.
    pub fn on_setup_bind_read_capability(&mut self, msg: SetupBindReadCapability) -> (r: Result<
        (),
        Error,
    >)
        ensures
            r is Ok <==> (cap_valid(msg.capability) && ed_verifies(
                crate::meadowcap::cap_receiver(msg.capability),
                spec_u64_be(msg.handle),
                msg.signature.bytes@,
            )),
            match r {
                Result::Ok(_) => final(self).their_resources.capabilities.values@ == old(self).their_resources.capabilities.values@.push(msg.capability),
                Result::Err(e) => (e == Error::InvalidCapability || e == Error::Unauthorised)
                    && *final(self) == *old(self),
            },
            final(self).our_resources == old(self).our_resources,
            final(self).their_resources.areas_of_interest == old(self).their_resources.areas_of_interest,
            final(self).pending_ranges == old(self).pending_ranges,
            final(self).pending_entries == old(self).pending_entries,
            final(self).static_tokens == old(self).static_tokens,
            final(self).role == old(self).role,
            final(self).reconciliation_started == old(self).reconciliation_started,
    {
        if !msg.capability.is_valid() {
            return Result::Err(Error::InvalidCapability);
        }
        let mut signable: Vec<u8> = Vec::new();
        push_u64_be(&mut signable, msg.handle);
        proof {
            assert(signable@ =~= spec_u64_be(msg.handle));
        }
        if !msg.capability.receiver().verify(&signable, &msg.signature) {
            return Result::Err(Error::Unauthorised);
        }
        self.their_resources.capabilities.bind(msg.capability);
        Result::Ok(())
    }

    /// Records a static token the peer bound.
    pub fn on_setup_bind_static_token(&mut self, msg: SetupBindStaticToken)
        ensures
            final(self).static_tokens.theirs.values@ == old(self).static_tokens.theirs.values@.push(msg.static_token),
            final(self).static_tokens.ours == old(self).static_tokens.ours,
            final(self).our_resources == old(self).our_resources,
            final(self).their_resources == old(self).their_resources,
            final(self).pending_ranges == old(self).pending_ranges,
            final(self).pending_entries == old(self).pending_entries,
            final(self).role == old(self).role,
            final(self).reconciliation_started == old(self).reconciliation_started,
    {
        self.static_tokens.bind_theirs(msg.static_token);
    }

    /// Binds our static token (idempotently); when new, also returns the
    /// setup message announcing it.
    pub fn bind_our_static_token(&mut self, static_token: StaticToken) -> (r: (
        u64,
        Option<SetupBindStaticToken>,
    ))
        ensures
            (final(self).static_tokens.ours.values@, r.0 as int, r.1 is Some) == spec_bind_if_new(
                old(self).static_tokens.ours.values@,
                static_token,
            ),
            match r.1 {
                Option::Some(m) => cap_eqv(m.static_token, static_token),
                Option::None => true,
            },
            final(self).static_tokens.theirs == old(self).static_tokens.theirs,
            final(self).our_resources == old(self).our_resources,
            final(self).their_resources == old(self).their_resources,
            final(self).pending_ranges == old(self).pending_ranges,
            final(self).pending_entries == old(self).pending_entries,
            final(self).role == old(self).role,
            final(self).reconciliation_started == old(self).reconciliation_started,
    {
        let (handle, msg) = self.static_tokens.bind_ours(static_token);
        (handle, msg)
    }

    /// Records an area of interest the peer bound, after checking that the
    /// authorising capability exists and covers the area. When this side is
    /// the initiator and one of our own areas of interest shares the
    /// namespace, returns the pair of handles that starts reconciliation.
    pub fn on_setup_bind_area_of_interest(&mut self, msg: SetupBindAreaOfInterest) -> (r: Result<
        Option<(u64, u64)>,
        Error,
    >)
        ensures
            r is Ok <==> (1 <= msg.authorisation <= old(
                self,
            ).their_resources.capabilities.values@.len() && crate::meadowcap::cap_includes_area(
                old(self).their_resources.capabilities.values@[msg.authorisation - 1],
                msg.area_of_interest.area,
            )),
            match r {
                Result::Ok(start) => {
                    &&& 1 <= msg.authorisation <= old(self).their_resources.capabilities.values@.len()
                    &&& crate::meadowcap::cap_includes_area(
                        old(self).their_resources.capabilities.values@[msg.authorisation - 1],
                        msg.area_of_interest.area,
                    )
                    &&& final(self).their_resources.areas_of_interest.values@ == old(self).their_resources.areas_of_interest.values@.push(msg)
                    &&& (start is Some <==> (old(self).role == Role::Alfie && exists|g: u64|
                        1 <= g <= old(self).our_resources.areas_of_interest.values@.len()
                            && #[trigger] aoi_namespace(old(self).our_resources, g)
                            == Option::Some(
                            cap_namespace(
                                old(self).their_resources.capabilities.values@[msg.authorisation
                                    - 1],
                            ),
                        )))
                    &&& match start {
                        Option::Some(pair) => old(self).role == Role::Alfie && pair.1 == old(self).their_resources.areas_of_interest.values@.len() + 1 && 1 <= pair.0 <= old(self).our_resources.areas_of_interest.values@.len() && aoi_namespace(old(self).our_resources, pair.0) == Option::Some(cap_namespace(old(self).their_resources.capabilities.values@[msg.authorisation - 1])),
                        Option::None => true,
                    }
                },
                Result::Err(e) => (e == Error::MissingResource || e == Error::Unauthorised)
                    && *final(self) == *old(self),
            },
            final(self).our_resources == old(self).our_resources,
            final(self).their_resources.capabilities == old(self).their_resources.capabilities,
            final(self).pending_ranges == old(self).pending_ranges,
            final(self).pending_entries == old(self).pending_entries,
            final(self).static_tokens == old(self).static_tokens,
            final(self).role == old(self).role,
            final(self).reconciliation_started == old(self).reconciliation_started,
    {
        let their_cap_ns = match self.their_resources.capabilities.get(msg.authorisation) {
            Option::Some(cap) => {
                if !cap.try_granted_area_ok(&msg.area_of_interest.area) {
                    return Result::Err(Error::Unauthorised);
                }
                cap.granted_namespace().duplicate()
            },
            Option::None => {
                return Result::Err(Error::MissingResource);
            },
        };
        let their_handle = self.their_resources.areas_of_interest.bind(msg);
        let start = if matches!(self.role, Role::Alfie) {
            match self.find_our_aoi_for_namespace(&their_cap_ns.bytes) {
                Option::Some(our_handle) => Option::Some((our_handle, their_handle)),
                Option::None => Option::None,
            }
        } else {
            Option::None
        };
        Result::Ok(start)
    }

    /// The handle of the first of our areas of interest whose authorising
    /// capability names the given namespace.
    fn find_our_aoi_for_namespace(&self, namespace: &Vec<u8>) -> (r: Option<u64>)
        ensures
            match r {
                Option::Some(h) => {
                    &&& 1 <= h <= self.our_resources.areas_of_interest.values@.len()
                    &&& aoi_namespace(self.our_resources, h) == Option::Some(namespace@)
                    &&& forall|g: u64|
                        1 <= g < h ==> aoi_namespace(self.our_resources, g) != Option::Some(
                            namespace@,
                        )
                },
                Option::None => forall|g: u64|
                    1 <= g <= self.our_resources.areas_of_interest.values@.len()
                        ==> aoi_namespace(self.our_resources, g) != Option::Some(namespace@),
            },
    {
        let n: usize = self.our_resources.areas_of_interest.len();
        let mut i: usize = 0;
        while i < n
            invariant
                i <= n,
                n == self.our_resources.areas_of_interest.values@.len(),
                forall|g: u64|
                    1 <= g <= i ==> aoi_namespace(self.our_resources, g) != Option::Some(
                        namespace@,
                    ),
            decreases n - i,
        {
            let aoi = &self.our_resources.areas_of_interest.values[i];
            match self.our_resources.capabilities.get(aoi.authorisation) {
                Option::Some(cap) => {
                    if bytes_eq(&cap.granted_namespace_bytes(), namespace) {
                        proof {
                            assert(aoi_namespace(self.our_resources, (i + 1) as u64)
                                == Option::Some(namespace@));
                        }
                        return Option::Some((i as u64) + 1);
                    }
                    proof {
                        assert(aoi_namespace(self.our_resources, (i + 1) as u64) != Option::Some(
                            namespace@,
                        ));
                    }
                },
                Option::None => {
                    proof {
                        assert(aoi_namespace(self.our_resources, (i + 1) as u64) != Option::Some(
                            namespace@,
                        ));
                    }
                },
            }
            i = i + 1;
        }
        Option::None
    }

    /// Verifies that both areas of interest authorise the range and share a
    /// namespace; returns that namespace.
    pub fn range_is_authorised(
        &self,
        range: &ThreeDRange,
        our_handle: u64,
        their_handle: u64,
    ) -> (r: Result<NamespaceId, Error>)
        ensures
            r is Ok <==> range_authorised(
                self.our_resources,
                self.their_resources,
                *range,
                our_handle,
                their_handle,
            ),
            match r {
                Result::Ok(ns) => 1 <= our_handle <= self.our_resources.areas_of_interest.values@.len()
                    && ns.bytes@ == cap_namespace(
                    self.our_resources.capabilities.values@[self.our_resources.areas_of_interest.values@[our_handle
                        - 1].authorisation - 1],
                ),
                Result::Err(e) => e == Error::MissingResource || e == Error::Unauthorised,
            },
    {
        let our_aoi = match self.our_resources.areas_of_interest.get(our_handle) {
            Option::Some(a) => a,
            Option::None => {
                return Result::Err(Error::MissingResource);
            },
        };
        let their_aoi = match self.their_resources.areas_of_interest.get(their_handle) {
            Option::Some(a) => a,
            Option::None => {
                return Result::Err(Error::MissingResource);
            },
        };
        let our_cap = match self.our_resources.capabilities.get(our_aoi.authorisation) {
            Option::Some(c) => c,
            Option::None => {
                return Result::Err(Error::MissingResource);
            },
        };
        let their_cap = match self.their_resources.capabilities.get(their_aoi.authorisation) {
            Option::Some(c) => c,
            Option::None => {
                return Result::Err(Error::MissingResource);
            },
        };
        if !bytes_eq(&our_cap.granted_namespace_bytes(), &their_cap.granted_namespace_bytes()) {
            return Result::Err(Error::Unauthorised);
        }
        if !cap_covers_range_exec(our_cap, range) || !cap_covers_range_exec(their_cap, range) {
            return Result::Err(Error::Unauthorised);
        }
        Result::Ok(NamespaceId { bytes: our_cap.granted_namespace_bytes() })
    }

    /// On a final reply for a range, removes the matching pending entry;
    /// fails if it is absent. Without a final-reply marker this is a no-op.
    pub fn clear_pending_range_if_some(
        &mut self,
        our_handle: u64,
        is_final_reply_for_range: &Option<ThreeDRange>,
    ) -> (r: Result<(), Error>)
        ensures
            match *is_final_reply_for_range {
                Option::None => r is Ok && *final(self) == *old(self),
                Option::Some(range) => {
                    &&& (r is Ok <==> exists|i: int|
                        0 <= i < old(self).pending_ranges@.len() && pending_matches(
                            #[trigger] old(self).pending_ranges@[i],
                            our_handle,
                            range,
                        ))
                    &&& match r {
                        Result::Ok(_) => exists|i: int|
                            {
                                &&& 0 <= i < old(self).pending_ranges@.len()
                                &&& pending_matches(
                                    #[trigger] old(self).pending_ranges@[i],
                                    our_handle,
                                    range,
                                )
                                &&& final(self).pending_ranges@ == old(self).pending_ranges@.remove(i)
                            },
                        Result::Err(e) => e == Error::InvalidMessageInCurrentState && *final(self)
                            == *old(self),
                    }
                },
            },
            final(self).our_resources == old(self).our_resources,
            final(self).their_resources == old(self).their_resources,
            final(self).pending_entries == old(self).pending_entries,
            final(self).static_tokens == old(self).static_tokens,
            final(self).role == old(self).role,
            final(self).reconciliation_started == old(self).reconciliation_started,
            final(self).our_nonce == old(self).our_nonce,
    {
        let range = match is_final_reply_for_range {
            Option::None => {
                return Result::Ok(());
            },
            Option::Some(range) => range,
        };
        proof {
            assert(*is_final_reply_for_range == Option::Some(*range));
        }
        let n: usize = self.pending_ranges.len();
        let mut i: usize = 0;
        while i < n
            invariant
                i <= n,
                n == self.pending_ranges@.len(),
                *self == *old(self),
                *is_final_reply_for_range == Option::Some(*range),
                forall|j: int| 0 <= j < i ==> !pending_matches(
                    #[trigger] self.pending_ranges@[j],
                    our_handle,
                    *range,
                ),
            decreases n - i,
        {
            let p = &self.pending_ranges[i];
            if p.0 == our_handle && p.1.same_range(range) {
                self.pending_ranges.remove(i);
                proof {
                    let rv = (*is_final_reply_for_range)->Some_0;
                    assert(rv == *range);
                    assert(pending_matches(old(self).pending_ranges@[i as int], our_handle, rv));
                    assert(self.pending_ranges@ == old(self).pending_ranges@.remove(i as int));
                    assert(exists|k: int|
                        0 <= k < old(self).pending_ranges@.len() && pending_matches(
                            #[trigger] old(self).pending_ranges@[k],
                            our_handle,
                            rv,
                        ) && self.pending_ranges@ == old(self).pending_ranges@.remove(k));
                }
                return Result::Ok(());
            }
            i = i + 1;
        }
        Result::Err(Error::InvalidMessageInCurrentState)
    }

    /// Records that a final reply is expected for `(our_handle, range)`.
    pub fn push_pending_range(&mut self, our_handle: u64, range: ThreeDRange)
        ensures
            final(self).pending_ranges@ == old(self).pending_ranges@.push((our_handle, range)),
            final(self).our_resources == old(self).our_resources,
            final(self).their_resources == old(self).their_resources,
            final(self).pending_entries == old(self).pending_entries,
            final(self).static_tokens == old(self).static_tokens,
            final(self).role == old(self).role,
            final(self).reconciliation_started == old(self).reconciliation_started,
    {
        self.pending_ranges.push((our_handle, range));
    }

    /// Reconciliation is complete when no range awaits a final reply and no
    /// announced entries are outstanding.
    pub fn reconciliation_is_complete(&self) -> (r: bool)
        ensures
            r == (self.pending_ranges@.len() == 0 && self.pending_entries is None),
    {
        self.pending_ranges.len() == 0 && matches!(self.pending_entries, Option::None)
    }

    /// Consumes one entry of the open announcement; closes it at zero.
    /// Fails when no entries are outstanding.
    pub fn on_send_entry(&mut self) -> (r: Result<(), Error>)
        ensures
            r is Ok <==> (old(self).pending_entries matches Option::Some(c) && c > 0),
            match r {
                Result::Ok(_) => {
                    let c = old(self).pending_entries->Some_0;
                    *final(self) == (SessionState {
                        pending_entries: if c == 1 {
                            Option::<u64>::None
                        } else {
                            Option::Some((c - 1) as u64)
                        },
                        ..*old(self)
                    })
                },
                Result::Err(e) => e == Error::InvalidMessageInCurrentState && *final(self) == *old(self),
            },
    {
        match self.pending_entries {
            Option::Some(c) => {
                if c == 0 {
                    Result::Err(Error::InvalidMessageInCurrentState)
                } else if c == 1 {
                    self.pending_entries = Option::None;
                    Result::Ok(())
                } else {
                    self.pending_entries = Option::Some(c - 1);
                    Result::Ok(())
                }
            },
            Option::None => Result::Err(Error::InvalidMessageInCurrentState),
        }
    }
}

} // verus!
