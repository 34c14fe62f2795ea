//! Wire messages of the sync protocol, the handle kinds they refer to, and
//! the XOR-homomorphic range fingerprint. Control messages carry commitment
//! reveals and resource bindings; reconciliation messages carry range
//! fingerprints, entry announcements and entries.

use vstd::prelude::*;
use crate::grouping::Area;
use crate::grouping::ThreeDRange;
use crate::grouping::area_eqv;
use crate::grouping::area_eq;
use crate::meadowcap::McCapability;
use crate::keys::UserSignature;
use crate::willow::Entry;
use crate::willow::enc;
use crate::resource::ResourceValue;
use crate::util::bytes_eq;
use crate::util::clone_bytes;

verus! {

/// The static part of an authorisation token: the capability.
pub type StaticToken = McCapability;

/// The dynamic part of an authorisation token: the user signature.
pub type DynamicToken = UserSignature;

/// The two logical channels of a session.
#[derive(Debug, Clone, Copy, PartialEq, Eq, Structural)]
pub enum LogicalChannel {
    Control,
    Reconciliation,
}

/// The kinds of handle-bound resources.
#[derive(Debug, Clone, Copy, PartialEq, Eq, Structural)]
pub enum HandleType {
    Capability,
    AreaOfInterest,
    StaticToken,
    Intersection,
}

/// A kind-tagged handle, as carried in messages that wait on resources.
#[derive(Debug, Clone, Copy, PartialEq, Eq, Structural)]
pub enum ResourceHandle {
    Capability(u64),
    AreaOfInterest(u64),
    StaticToken(u64),
    Intersection(u64),
}

/// An area a peer declares willingness to sync.
#[derive(Debug)]
pub struct AreaOfInterest {
    pub area: Area,
}

impl Clone for AreaOfInterest {
    fn clone(&self) -> (r: Self)
        ensures
            area_eqv(r.area, self.area),
    {
        AreaOfInterest { area: self.area.clone() }
    }
}

/// A fixed-size, XOR-homomorphic fingerprint over entry encodings.
#[derive(Debug)]
pub struct Fingerprint {
    pub bytes: Vec<u8>,
}

/// All-zero fingerprint: the fingerprint of no entries.
pub open spec fn fp_zero() -> Seq<u8> {
    Seq::new(32, |i: int| 0u8)
}

/// `data` folded byte-wise into `acc` by XOR, byte `i` at position
/// `i % 32`; processing starts at index `i`.
pub open spec fn fp_fold(acc: Seq<u8>, data: Seq<u8>, i: int) -> Seq<u8>
    decreases data.len() - i,
{
    if i < 0 || i >= data.len() || acc.len() != 32 {
        acc
    } else {
        fp_fold(acc.update(i % 32, acc[i % 32] ^ data[i]), data, i + 1)
    }
}

/// The fingerprint of one entry: its canonical encoding folded into 32
/// bytes.
pub open spec fn fp_of_entry(e: Entry) -> Seq<u8> {
    fp_fold(fp_zero(), enc(e), 0)
}

/// Byte-wise XOR of two 32-byte strings.
pub open spec fn fp_xor(a: Seq<u8>, b: Seq<u8>) -> Seq<u8> {
    Seq::new(32, |i: int| a[i] ^ b[i])
}

/// The XOR of the fingerprints of a sequence of authorised entries.
pub open spec fn fp_of_seq(q: Seq<crate::willow::AuthorisedEntry>) -> Seq<u8>
    decreases q.len(),
{
    if q.len() == 0 {
        fp_zero()
    } else {
        fp_xor(fp_of_seq(q.drop_last()), fp_of_entry(q.last().entry))
    }
}

impl Fingerprint {
    pub open spec fn wf(&self) -> bool {
        self.bytes@.len() == 32
    }

    /// The fingerprint of no entries.
    pub fn empty() -> (r: Fingerprint)
        ensures
            r.bytes@ == fp_zero(),
            r.wf(),
    {
        let mut bytes: Vec<u8> = Vec::new();
        let mut i: usize = 0;
        while i < 32
            invariant
                i <= 32,
                bytes@.len() == i,
                forall|j: int| 0 <= j < i ==> bytes@[j] == 0u8,
            decreases 32 - i,
        {
            bytes.push(0);
            i = i + 1;
        }
        proof {
            assert(bytes@ =~= fp_zero());
        }
        Fingerprint { bytes }
    }

    /// The fingerprint of the single entry `e`.
    pub fn of_entry(e: &Entry) -> (r: Fingerprint)
        requires
            e.wf(),
        ensures
            r.bytes@ == fp_of_entry(*e),
            r.wf(),
    {
        let mut acc = Fingerprint::empty();
        let data = e.encode();
        let n: usize = data.len();
        let mut i: usize = 0;
        while i < n
            invariant
                i <= n,
                n == data@.len(),
                acc.bytes@.len() == 32,
                fp_fold(acc.bytes@, data@, i as int) == fp_fold(fp_zero(), data@, 0),
            decreases n - i,
        {
            let pos: usize = i % 32;
            let b = acc.bytes[pos] ^ data[i];
            acc.bytes.set(pos, b);
            i = i + 1;
        }
        acc
    }

    /// XOR-combines another fingerprint into this one.
    pub fn combine(&mut self, other: &Fingerprint)
        requires
            old(self).wf(),
            other.wf(),
        ensures
            final(self).bytes@ == fp_xor(old(self).bytes@, other.bytes@),
            final(self).wf(),
    {
        let ghost before = self.bytes@;
        let mut i: usize = 0;
        while i < 32
            invariant
                i <= 32,
                self.bytes@.len() == 32,
                before.len() == 32,
                other.bytes@.len() == 32,
                forall|j: int| i <= j < 32 ==> self.bytes@[j] == before[j],
                forall|j: int| 0 <= j < i ==> self.bytes@[j] == (before[j] ^ other.bytes@[j]),
            decreases 32 - i,
        {
            let b = self.bytes[i] ^ other.bytes[i];
            self.bytes.set(i, b);
            i = i + 1;
        }
        proof {
            assert(self.bytes@ =~= fp_xor(before, other.bytes@));
        }
    }

    /// Whether this is the all-zero fingerprint.
    pub fn is_empty(&self) -> (r: bool)
        ensures
            r == (self.bytes@ == fp_zero()),
    {
        if self.bytes.len() != 32 {
            proof {
                assert(self.bytes@.len() != fp_zero().len());
            }
            return false;
        }
        let mut i: usize = 0;
        while i < 32
            invariant
                i <= 32,
                self.bytes@.len() == 32,
                forall|j: int| 0 <= j < i ==> self.bytes@[j] == 0u8,
            decreases 32 - i,
        {
            if self.bytes[i] != 0 {
                proof {
                    assert(self.bytes@[i as int] != fp_zero()[i as int]);
                }
                return false;
            }
            i = i + 1;
        }
        proof {
            assert(self.bytes@ =~= fp_zero());
        }
        true
    }

    /// Byte-wise equality of fingerprints.
    pub fn same_fingerprint(&self, other: &Fingerprint) -> (r: bool)
        ensures
            r == (self.bytes@ == other.bytes@),
    {
        bytes_eq(&self.bytes, &other.bytes)
    }
}

impl Clone for Fingerprint {
    fn clone(&self) -> (r: Self)
        ensures
            r.bytes@ == self.bytes@,
    {
        Fingerprint { bytes: clone_bytes(&self.bytes) }
    }
}

/// An entry together with how many payload bytes the sender holds.
#[derive(Debug)]
pub struct LengthyEntry {
    pub entry: Entry,
    pub available: u64,
}

impl LengthyEntry {
    pub fn new(entry: Entry, available: u64) -> (r: Self)
        ensures
            r.entry == entry,
            r.available == available,
    {
        LengthyEntry { entry, available }
    }
}

/// Reveals the nonce whose commitment opened the session.
#[derive(Debug)]
pub struct CommitmentReveal {
    pub nonce: Vec<u8>,
}

/// Binds a read capability on the sender's side, authorised by a signature
/// over the intersection handle.
#[derive(Debug)]
pub struct SetupBindReadCapability {
    pub capability: McCapability,
    pub handle: u64,
    pub signature: UserSignature,
}

/// Binds an area of interest on the sender's side, authorised by one of the
/// sender's capability handles.
#[derive(Debug)]
pub struct SetupBindAreaOfInterest {
    pub area_of_interest: AreaOfInterest,
    pub authorisation: u64,
}

impl Clone for SetupBindAreaOfInterest {
    fn clone(&self) -> (r: Self)
        ensures
            r.eqv(&*self),
    {
        SetupBindAreaOfInterest {
            area_of_interest: self.area_of_interest.clone(),
            authorisation: self.authorisation,
        }
    }
}

impl ResourceValue for SetupBindAreaOfInterest {
    open spec fn eqv(&self, other: &Self) -> bool {
        area_eqv(self.area_of_interest.area, other.area_of_interest.area) && self.authorisation
            == other.authorisation
    }

    fn value_eq(&self, other: &Self) -> (r: bool) {
        area_eq(&self.area_of_interest.area, &other.area_of_interest.area) && self.authorisation
            == other.authorisation
    }

    proof fn eqv_reflexive(&self) {
    }
}

/// Binds a static token on the sender's side.
#[derive(Debug)]
pub struct SetupBindStaticToken {
    pub static_token: StaticToken,
}

/// Asks to free a handle. Reserved; handle freeing is not performed.
#[derive(Debug)]
pub struct ControlFreeHandle {
    pub handle: u64,
    pub kind: HandleType,
}

/// Sends the local fingerprint over a range.
#[derive(Debug)]
pub struct ReconciliationSendFingerprint {
    pub range: ThreeDRange,
    pub fingerprint: Fingerprint,
    pub sender_handle: u64,
    pub receiver_handle: u64,
    pub is_final_reply_for_range: Option<ThreeDRange>,
}

/// Announces how many entries follow for a range, and whether a response
/// over the same range is wanted.
#[derive(Debug)]
pub struct ReconciliationAnnounceEntries {
    pub range: ThreeDRange,
    pub count: u64,
    pub want_response: bool,
    pub will_sort: bool,
    pub sender_handle: u64,
    pub receiver_handle: u64,
    pub is_final_reply_for_range: Option<ThreeDRange>,
}

/// Sends one entry, its static token by handle and its dynamic token.
#[derive(Debug)]
pub struct ReconciliationSendEntry {
    pub entry: LengthyEntry,
    pub static_token_handle: u64,
    pub dynamic_token: DynamicToken,
}

/// Every message of the protocol.
#[derive(Debug)]
pub enum Message {
    CommitmentReveal(CommitmentReveal),
    SetupBindReadCapability(SetupBindReadCapability),
    SetupBindAreaOfInterest(SetupBindAreaOfInterest),
    SetupBindStaticToken(SetupBindStaticToken),
    ControlFreeHandle(ControlFreeHandle),
    ReconciliationSendFingerprint(ReconciliationSendFingerprint),
    ReconciliationAnnounceEntries(ReconciliationAnnounceEntries),
    ReconciliationSendEntry(ReconciliationSendEntry),
}

/// The channel a message belongs on.
pub open spec fn message_channel(m: Message) -> LogicalChannel {
    match m {
        Message::ReconciliationSendFingerprint(_) => LogicalChannel::Reconciliation,
        Message::ReconciliationAnnounceEntries(_) => LogicalChannel::Reconciliation,
        Message::ReconciliationSendEntry(_) => LogicalChannel::Reconciliation,
        _ => LogicalChannel::Control,
    }
}

/// The messages of `s` that belong on channel `c`, in order.
pub open spec fn msgs_to(s: Seq<Message>, c: LogicalChannel) -> Seq<Message>
    decreases s.len(),
{
    if s.len() == 0 {
        Seq::empty()
    } else {
        let rest = msgs_to(s.drop_last(), c);
        if message_channel(s.last()) == c {
            rest.push(s.last())
        } else {
            rest
        }
    }
}

impl Message {
    /// The channel this message belongs on.
    pub fn logical_channel(&self) -> (r: LogicalChannel)
        ensures
            r == message_channel(*self),
    {
        match self {
            Message::ReconciliationSendFingerprint(_) => LogicalChannel::Reconciliation,
            Message::ReconciliationAnnounceEntries(_) => LogicalChannel::Reconciliation,
            Message::ReconciliationSendEntry(_) => LogicalChannel::Reconciliation,
            _ => LogicalChannel::Control,
        }
    }
}

} // verus!
