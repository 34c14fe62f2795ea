//! The two cooperative drivers of a session. The Control driver reveals the
//! commitment, performs setup and records peer bindings; the Reconciliation
//! driver runs the range-fingerprint algorithm. Both are written as step
//! functions: a call works through the incoming channel until it would
//! block, and reports how it left off — every suspension point of the
//! yield protocol becomes a returned status.

use vstd::prelude::*;
use crate::channels::Channels;
use crate::channels::Channel;
use crate::channels::ReadOutcome;
use crate::channels::WriteOutcome;
use crate::grouping::ThreeDRange;
use crate::keys::NamespaceId;
use crate::session::Error;
use crate::session::SessionInit;
use crate::session::SessionState;
use crate::store::SplitAction;
use crate::store::Store;
use crate::store::SyncConfig;
use crate::store::included_seq;
use crate::store::ingest_post;
use crate::resource::ResourceValue;
use crate::grouping::range_eqv;
use crate::grouping::areas_overlap;
use crate::grouping::area_intersection_of;
use crate::grouping::range_projects_area;
use crate::grouping::Area;
use crate::session::can_clear_pending;
use crate::session::pending_matches;
use crate::session::range_authorised;
use crate::session::aoi_namespace;
use crate::session::Role;
use crate::willow::entry_eqv;
use crate::meadowcap::cap_eqv;
use crate::meadowcap::cap_namespace;
use crate::meadowcap::cap_receiver;
use crate::keys::ed_public_key_of;
use crate::wgps::msgs_to;
use crate::wgps::message_channel;
use crate::wgps::fp_of_seq;
use crate::wgps::fp_zero;
use crate::wgps::Fingerprint;
use crate::wgps::LengthyEntry;
use crate::wgps::LogicalChannel;
use crate::wgps::Message;
use crate::wgps::ReconciliationAnnounceEntries;
use crate::wgps::ReconciliationSendEntry;
use crate::wgps::ReconciliationSendFingerprint;
use crate::wgps::ResourceHandle;
use crate::wgps::SetupBindAreaOfInterest;
use crate::willow::AuthorisedEntry;

verus! {

/// What a driver is waiting for.
#[derive(Debug, Clone, Copy, PartialEq, Eq, Structural)]
pub enum Interest {
    Send,
    Recv,
}

/// A driver's readiness condition: channel capacity or a peer-bound
/// resource.
#[derive(Debug, Clone, Copy, PartialEq, Eq, Structural)]
pub enum Readyness {
    Channel(LogicalChannel, Interest),
    Resource(ResourceHandle),
}

/// The suspension points of the drivers: waiting for readiness, or the
/// Control driver handing an initiation request to the Reconciliation
/// driver.
#[derive(Debug, Clone, Copy, PartialEq, Eq)]
pub enum Yield {
    Pending(Readyness),
    StartReconciliation(Option<(u64, u64)>),
}

/// How a driver step ended: the incoming channel is closed and the driver
/// is finished, or it suspended at a yield point and wants to be resumed.
#[derive(Debug, Clone, Copy, PartialEq, Eq)]
pub enum CoroutineStatus {
    Done,
    Suspended(Yield),
}

/// The lookups initiation needs: both area-of-interest handles are bound
/// and ours names a bound capability.
pub open spec fn start_chain_resolves(
    state: crate::session::SessionState,
    our_handle: u64,
    their_handle: u64,
) -> bool {
    &&& 1 <= our_handle <= state.our_resources.areas_of_interest.values@.len()
    &&& 1 <= their_handle <= state.their_resources.areas_of_interest.values@.len()
    &&& 1 <= state.our_resources.areas_of_interest.values@[our_handle - 1].authorisation
        <= state.our_resources.capabilities.values@.len()
}

/// Views of two optional ranges are equal.
pub open spec fn opt_range_eqv(a: Option<ThreeDRange>, b: Option<ThreeDRange>) -> bool {
    match (a, b) {
        (Option::None, Option::None) => true,
        (Option::Some(x), Option::Some(y)) => range_eqv(x, y),
        _ => false,
    }
}

/// `m` announces `count` entries over a view-equal range, with the given
/// flags, handles and final-reply marker.
pub open spec fn is_announce_msg(
    m: Message,
    range: ThreeDRange,
    count: u64,
    want_response: bool,
    sender: u64,
    receiver: u64,
    marker: Option<ThreeDRange>,
) -> bool {
    match m {
        Message::ReconciliationAnnounceEntries(a) => {
            &&& range_eqv(a.range, range)
            &&& a.count == count
            &&& a.want_response == want_response
            &&& a.sender_handle == sender
            &&& a.receiver_handle == receiver
            &&& opt_range_eqv(a.is_final_reply_for_range, marker)
        },
        _ => false,
    }
}

/// `m` carries the entry of `ae`, its payload length as the available
/// count, and `ae`'s signature as the dynamic token.
pub open spec fn is_entry_msg(m: Message, ae: crate::willow::AuthorisedEntry) -> bool {
    match m {
        Message::ReconciliationSendEntry(e) => {
            &&& entry_eqv(e.entry.entry, ae.entry)
            &&& e.entry.available == ae.entry.payload_length
            &&& e.dynamic_token.bytes@ == ae.token.signature.bytes@
        },
        _ => false,
    }
}

/// A message composed while answering for a subrange of `whole` is
/// consistent with the local snapshot: fingerprints and counts are the
/// snapshot's over the message's own range, the handles are ours and the
/// peer's, announcements ask for a response, and a final-reply marker, if
/// any, names `whole`. Entry and token-binding messages accompany the
/// announcements.
pub open spec fn recon_msg_consistent(
    m: Message,
    store_entries: Seq<crate::willow::AuthorisedEntry>,
    namespace: Seq<u8>,
    our_handle: u64,
    their_handle: u64,
    whole: ThreeDRange,
) -> bool {
    match m {
        Message::ReconciliationSendFingerprint(f) => {
            &&& f.sender_handle == our_handle
            &&& f.receiver_handle == their_handle
            &&& f.fingerprint.bytes@ == fp_of_seq(included_seq(store_entries, namespace, f.range))
            &&& (f.is_final_reply_for_range is None || opt_range_eqv(
                f.is_final_reply_for_range,
                Option::Some(whole),
            ))
        },
        Message::ReconciliationAnnounceEntries(a) => {
            &&& a.sender_handle == our_handle
            &&& a.receiver_handle == their_handle
            &&& a.want_response
            &&& a.count == included_seq(store_entries, namespace, a.range).len()
            &&& (a.is_final_reply_for_range is None || opt_range_eqv(
                a.is_final_reply_for_range,
                Option::Some(whole),
            ))
        },
        Message::ReconciliationSendEntry(_) => true,
        Message::SetupBindStaticToken(_) => true,
        _ => false,
    }
}

/// `m` carries the final-reply marker for `whole`.
pub open spec fn msg_final_marker_eqv(m: Message, whole: ThreeDRange) -> bool {
    match m {
        Message::ReconciliationSendFingerprint(f) => opt_range_eqv(
            f.is_final_reply_for_range,
            Option::Some(whole),
        ),
        Message::ReconciliationAnnounceEntries(a) => opt_range_eqv(
            a.is_final_reply_for_range,
            Option::Some(whole),
        ),
        _ => false,
    }
}

/// The head of the control queue is a message whose handling decides the
/// step at once: a repeated reveal, a bindable area of interest, or a
/// message of the wrong channel.
pub open spec fn control_head_decides(c: Coroutine) -> bool {
    match c.channels.control_recv.queue@[0] {
        Message::CommitmentReveal(_) => c.state.peer_commitment_received,
        Message::SetupBindAreaOfInterest(m) => 1 <= m.authorisation
            <= c.state.their_resources.capabilities.values@.len()
            && crate::meadowcap::cap_includes_area(
            c.state.their_resources.capabilities.values@[m.authorisation - 1],
            m.area_of_interest.area,
        ),
        _ => message_channel(c.channels.control_recv.queue@[0]) == LogicalChannel::Reconciliation,
    }
}

/// Some slot of `values` holds a capability with the contents of `c`.
pub open spec fn cap_bound(values: Seq<crate::meadowcap::McCapability>, c: crate::meadowcap::McCapability) -> bool {
    exists|h: int| 0 <= h < values.len() && cap_eqv(#[trigger] values[h], c)
}

/// Some slot of `values` holds an area-of-interest binding with the
/// contents of `m`.
pub open spec fn aoi_bound(values: Seq<SetupBindAreaOfInterest>, m: SetupBindAreaOfInterest) -> bool {
    exists|h: int| 0 <= h < values.len() && (#[trigger] values[h]).eqv(&m)
}

/// Some message of `post` past position `lo` carries the entry of `ae`.
pub open spec fn entry_covered(post: Seq<Message>, lo: int, ae: crate::willow::AuthorisedEntry) -> bool {
    exists|t: int| lo < t < post.len() && is_entry_msg(#[trigger] post[t], ae)
}

/// `m` carries the entry of some member of `inc`.
pub open spec fn matches_some_entry(m: Message, inc: Seq<crate::willow::AuthorisedEntry>) -> bool {
    exists|i: int| 0 <= i < inc.len() && is_entry_msg(m, #[trigger] inc[i])
}

/// The entry messages of `s`, in order.
pub open spec fn entry_msgs(s: Seq<Message>) -> Seq<Message>
    decreases s.len(),
{
    if s.len() == 0 {
        Seq::empty()
    } else {
        let rest = entry_msgs(s.drop_last());
        match s.last() {
            Message::ReconciliationSendEntry(_) => rest.push(s.last()),
            _ => rest,
        }
    }
}

/// The fingerprint and announcement messages of `s`, in order: the heads
/// of the per-subrange replies, with entry and token messages left out.
pub open spec fn burst_heads(s: Seq<Message>) -> Seq<Message>
    decreases s.len(),
{
    if s.len() == 0 {
        Seq::empty()
    } else {
        let rest = burst_heads(s.drop_last());
        match s.last() {
            Message::ReconciliationSendFingerprint(_) => rest.push(s.last()),
            Message::ReconciliationAnnounceEntries(_) => rest.push(s.last()),
            _ => rest,
        }
    }
}

/// Whether `m` is such a head message.
pub open spec fn is_head_msg(m: Message) -> bool {
    m matches Message::ReconciliationSendFingerprint(_) || m
        matches Message::ReconciliationAnnounceEntries(_)
}

/// The head filter distributes over concatenation.
pub proof fn lemma_heads_concat(a: Seq<Message>, b: Seq<Message>)
    ensures
        burst_heads(a + b) == burst_heads(a) + burst_heads(b),
    decreases b.len(),
{
    if b.len() == 0 {
        assert(a + b =~= a);
        assert(burst_heads(a) + burst_heads(b) =~= burst_heads(a));
    } else {
        assert((a + b).drop_last() =~= a + b.drop_last());
        lemma_heads_concat(a, b.drop_last());
        assert((a + b).last() == b.last());
        if is_head_msg(b.last()) {
            assert((burst_heads(a) + burst_heads(b.drop_last())).push(b.last()) =~= burst_heads(
                a,
            ) + burst_heads(b.drop_last()).push(b.last()));
        }
    }
}

/// A reply block — one head followed by entry and token messages — has
/// exactly that head.
pub proof fn lemma_heads_single(c: Seq<Message>)
    requires
        c.len() >= 1,
        is_head_msg(c[0]),
        forall|t: int| 1 <= t < c.len() ==> !is_head_msg(#[trigger] c[t]),
    ensures
        burst_heads(c) =~= seq![c[0]],
    decreases c.len(),
{
    if c.len() == 1 {
        assert(c.drop_last() =~= Seq::<Message>::empty());
        assert(burst_heads(c) == burst_heads(c.drop_last()).push(c[0]));
        assert(burst_heads(c.drop_last()) =~= Seq::<Message>::empty());
    } else {
        assert(!is_head_msg(c.last()));
        assert(c.drop_last()[0] == c[0]);
        lemma_heads_single(c.drop_last());
    }
}

/// The announcement and entries appended to the outbox for one range: the
/// announcement stands first, then one entry message per included entry,
/// in store order, each carrying the handle its static token is bound
/// under in `tokens`; nothing but entry and token-binding messages follows
/// the announcement.
pub open spec fn announce_burst(
    pre: Seq<Message>,
    post: Seq<Message>,
    inc: Seq<crate::willow::AuthorisedEntry>,
    tokens: Seq<crate::wgps::StaticToken>,
    range: ThreeDRange,
    count: u64,
    want_response: bool,
    sender: u64,
    receiver: u64,
    marker: Option<ThreeDRange>,
) -> bool {
    &&& post.len() > pre.len()
    &&& post.subrange(0, pre.len() as int) == pre
    &&& is_announce_msg(post[pre.len() as int], range, count, want_response, sender, receiver, marker)
    &&& forall|i: int|
        0 <= i < inc.len() ==> #[trigger] entry_covered(post, pre.len() as int, inc[i])
    &&& forall|t: int|
        pre.len() < t < post.len() ==> match #[trigger] post[t] {
            Message::ReconciliationSendEntry(_) => matches_some_entry(post[t], inc),
            Message::SetupBindStaticToken(_) => true,
            _ => false,
        }
    &&& ({
        let ems = entry_msgs(post.skip(pre.len() as int));
        &&& ems.len() == inc.len()
        &&& forall|k: int|
            0 <= k < inc.len() ==> is_entry_msg(#[trigger] ems[k], inc[k]) && match ems[k] {
                Message::ReconciliationSendEntry(e) => 1 <= e.static_token_handle <= tokens.len()
                    && cap_eqv(
                    tokens[e.static_token_handle - 1],
                    inc[k].token.capability,
                ),
                _ => false,
            }
    })
}

/// One side's driver state: the local store snapshot and writer, the four
/// channel halves, the session state, composed-but-unsent messages, and an
/// entry waiting for its static token.
#[derive(Debug)]
pub struct Coroutine {
    /// Read-only view of the local store, pinned for the session.
    pub store_snapshot: Store,
    /// The store entries are ingested into.
    pub store_writer: Store,
    /// The four channel halves.
    pub channels: Channels,
    /// The session state shared by both drivers.
    pub state: SessionState,
    /// Thresholds for range splitting.
    pub config: SyncConfig,
    /// What to bind during setup.
    pub init: SessionInit,
    /// Whether setup already consumed `init`.
    pub setup_done: bool,
    /// Whether the Control driver already emitted our reveal.
    pub reveal_sent: bool,
    /// Messages composed but not yet moved into the send channels.
    pub outbox: Vec<Message>,
    /// An incoming entry waiting for its static token to be bound.
    pub stashed_entry: Option<ReconciliationSendEntry>,
}

impl Coroutine {
    /// Both stores are well formed and the secret key has its shape.
    pub open spec fn wf(&self) -> bool {
        &&& self.store_snapshot.wf()
        &&& self.store_writer.wf()
        &&& self.init.user_secret_key.wf()
    }

    /// The incoming channel halves are untouched between `pre` and `post`.
    pub open spec fn recv_frame(pre: Coroutine, post: Coroutine) -> bool {
        &&& post.channels.control_recv == pre.channels.control_recv
        &&& post.channels.reconciliation_recv == pre.channels.reconciliation_recv
    }

    /// A driver for one side of a fresh session.
    pub fn new(
        store_snapshot: Store,
        store_writer: Store,
        channels: Channels,
        state: SessionState,
        config: SyncConfig,
        init: SessionInit,
    ) -> (r: Coroutine)
        requires
            store_snapshot.wf(),
            store_writer.wf(),
            init.user_secret_key.wf(),
        ensures
            r.wf(),
            r.store_snapshot == store_snapshot,
            r.store_writer == store_writer,
            r.channels == channels,
            r.state == state,
            r.init == init,
            !r.setup_done,
            !r.reveal_sent,
            r.outbox@.len() == 0,
            r.stashed_entry is None,
    {
        Coroutine {
            store_snapshot,
            store_writer,
            channels,
            state,
            config,
            init,
            setup_done: false,
            reveal_sent: false,
            outbox: Vec::new(),
            stashed_entry: Option::None,
        }
    }

    /// Moves composed messages into their send channels, oldest first,
    /// until the outbox is drained, the next message's channel is full
    /// (`Ok(false)`), or that channel is closed (an error). The flushed
    /// prefix lands on the two send queues in order, split by channel.
    fn flush_outbox(&mut self) -> (r: Result<bool, Error>)
        requires
            old(self).wf(),
        ensures
            final(self).wf(),
            Coroutine::recv_frame(*old(self), *final(self)),
            final(self).state == old(self).state,
            final(self).store_writer == old(self).store_writer,
            final(self).store_snapshot == old(self).store_snapshot,
            final(self).stashed_entry == old(self).stashed_entry,
            final(self).init == old(self).init,
            final(self).setup_done == old(self).setup_done,
            final(self).reveal_sent == old(self).reveal_sent,
            final(self).channels.control_send.closed == old(self).channels.control_send.closed,
            final(self).channels.reconciliation_send.closed == old(self).channels.reconciliation_send.closed,
            final(self).channels.control_send.capacity == old(self).channels.control_send.capacity,
            final(self).channels.reconciliation_send.capacity == old(self).channels.reconciliation_send.capacity,
            exists|k: int|
                {
                    &&& 0 <= k <= old(self).outbox@.len()
                    &&& final(self).outbox@ == old(self).outbox@.skip(k)
                    &&& final(self).channels.control_send.queue@ == old(self).channels.control_send.queue@ + msgs_to(
                        #[trigger] old(self).outbox@.take(k),
                        LogicalChannel::Control,
                    )
                    &&& final(self).channels.reconciliation_send.queue@ == old(self).channels.reconciliation_send.queue@ + msgs_to(
                        old(self).outbox@.take(k),
                        LogicalChannel::Reconciliation,
                    )
                },
            match r {
                Result::Ok(flushed) => flushed == (final(self).outbox@.len() == 0) && (!flushed
                    ==> (if message_channel(final(self).outbox@[0]) == LogicalChannel::Control {
                    final(self).channels.control_send.queue@.len() >= final(self).channels.control_send.capacity
                } else {
                    final(self).channels.reconciliation_send.queue@.len() >= final(self).channels.reconciliation_send.capacity
                })),
                Result::Err(e) => e == Error::ChannelClosed && final(self).outbox@.len() > 0 && (
                if message_channel(final(self).outbox@[0]) == LogicalChannel::Control {
                    final(self).channels.control_send.closed
                } else {
                    final(self).channels.reconciliation_send.closed
                }),
            },
    {
        let ghost mut k: int = 0;
        proof {
            assert(self.outbox@ =~= old(self).outbox@.skip(0));
            assert(msgs_to(old(self).outbox@.take(0), LogicalChannel::Control) =~= Seq::<
                Message,
            >::empty());
            assert(msgs_to(old(self).outbox@.take(0), LogicalChannel::Reconciliation) =~= Seq::<
                Message,
            >::empty());
            assert(self.channels.control_send.queue@ =~= old(self).channels.control_send.queue@
                + msgs_to(old(self).outbox@.take(0), LogicalChannel::Control));
            assert(self.channels.reconciliation_send.queue@ =~= old(self).channels.reconciliation_send.queue@ + msgs_to(
                old(self).outbox@.take(0),
                LogicalChannel::Reconciliation,
            ));
        }
        loop
            invariant
                self.wf(),
                Coroutine::recv_frame(*old(self), *self),
                self.state == old(self).state,
                self.store_writer == old(self).store_writer,
                self.store_snapshot == old(self).store_snapshot,
                self.stashed_entry == old(self).stashed_entry,
                self.init == old(self).init,
                self.reveal_sent == old(self).reveal_sent,
                self.setup_done == old(self).setup_done,
                self.channels.control_send.closed == old(self).channels.control_send.closed,
                self.channels.reconciliation_send.closed == old(self).channels.reconciliation_send.closed,
                self.channels.control_send.capacity == old(self).channels.control_send.capacity,
                self.channels.reconciliation_send.capacity == old(self).channels.reconciliation_send.capacity,
                0 <= k <= old(self).outbox@.len(),
                self.outbox@ == old(self).outbox@.skip(k),
                self.channels.control_send.queue@ == old(self).channels.control_send.queue@
                    + msgs_to(old(self).outbox@.take(k), LogicalChannel::Control),
                self.channels.reconciliation_send.queue@ == old(self).channels.reconciliation_send.queue@ + msgs_to(
                    old(self).outbox@.take(k),
                    LogicalChannel::Reconciliation,
                ),
            decreases self.outbox@.len(),
        {
            if self.outbox.len() == 0 {
                return Result::Ok(true);
            }
            let channel = self.outbox[0].logical_channel();
            let closed = match channel {
                LogicalChannel::Control => self.channels.control_send.is_closed(),
                LogicalChannel::Reconciliation => self.channels.reconciliation_send.is_closed(),
            };
            if closed {
                return Result::Err(Error::ChannelClosed);
            }
            let full = match channel {
                LogicalChannel::Control => self.channels.control_send.len()
                    >= self.channels.control_send.capacity,
                LogicalChannel::Reconciliation => self.channels.reconciliation_send.len()
                    >= self.channels.reconciliation_send.capacity,
            };
            if full {
                return Result::Ok(false);
            }
            let msg = self.outbox.remove(0);
            proof {
                assert(old(self).outbox@.skip(k)[0] == old(self).outbox@[k]);
                assert(self.outbox@ =~= old(self).outbox@.skip(k + 1));
                assert(old(self).outbox@.take(k + 1).drop_last() =~= old(self).outbox@.take(k));
                assert(old(self).outbox@.take(k + 1).last() == old(self).outbox@[k]);
            }
            match self.channels.send_on(channel, msg) {
                WriteOutcome::Sent => {
                    proof {
                        assert((old(self).channels.control_send.queue@ + msgs_to(
                            old(self).outbox@.take(k),
                            LogicalChannel::Control,
                        )).push(msg) =~= old(self).channels.control_send.queue@ + msgs_to(
                            old(self).outbox@.take(k),
                            LogicalChannel::Control,
                        ).push(msg));
                        assert((old(self).channels.reconciliation_send.queue@ + msgs_to(
                            old(self).outbox@.take(k),
                            LogicalChannel::Reconciliation,
                        )).push(msg) =~= old(self).channels.reconciliation_send.queue@ + msgs_to(
                            old(self).outbox@.take(k),
                            LogicalChannel::Reconciliation,
                        ).push(msg));
                        k = k + 1;
                    }
                },
                WriteOutcome::BufferFull => {
                    // excluded by the capacity check above
                    proof {
                        assert(false);
                    }
                    return Result::Err(Error::ChannelClosed);
                },
                WriteOutcome::Closed => {
                    // excluded by the closed check above
                    proof {
                        assert(false);
                    }
                    return Result::Err(Error::ChannelClosed);
                },
            }
        }
    }

    /// Binds our capabilities and areas of interest, announcing each new
    /// binding. It succeeds exactly when every capability of the
    /// initialisation data was made out to our key; each capability is
    /// then bound, and only setup messages are composed.
    fn setup(&mut self) -> (r: Result<(), Error>)
        requires
            old(self).wf(),
        ensures
            final(self).wf(),
            Coroutine::recv_frame(*old(self), *final(self)),
            final(self).channels.control_send == old(self).channels.control_send,
            final(self).channels.reconciliation_send == old(self).channels.reconciliation_send,
            final(self).store_writer == old(self).store_writer,
            final(self).store_snapshot == old(self).store_snapshot,
            final(self).stashed_entry == old(self).stashed_entry,
            final(self).reveal_sent == old(self).reveal_sent,
            r is Ok <==> forall|i: int|
                0 <= i < old(self).init.interests@.len() ==> cap_receiver(
                    (#[trigger] old(self).init.interests@[i]).0,
                ) == ed_public_key_of(old(self).init.user_secret_key.bytes@),
            match r {
                Result::Ok(_) => forall|i: int|
                    0 <= i < old(self).init.interests@.len() ==> #[trigger] cap_bound(
                        final(self).state.our_resources.capabilities.values@,
                        old(self).init.interests@[i].0,
                    ),
                Result::Err(e) => e == Error::WrongSecretKeyForCapability,
            },
            final(self).outbox@.len() >= old(self).outbox@.len(),
            final(self).outbox@.subrange(0, old(self).outbox@.len() as int) == old(self).outbox@,
            final(self).state.our_resources.capabilities.values@.len() >= old(self).state.our_resources.capabilities.values@.len(),
            final(self).state.our_resources.capabilities.values@.subrange(
                0,
                old(self).state.our_resources.capabilities.values@.len() as int,
            ) == old(self).state.our_resources.capabilities.values@,
            final(self).state.our_resources.areas_of_interest.values@.len() >= old(self).state.our_resources.areas_of_interest.values@.len(),
            final(self).state.our_resources.areas_of_interest.values@.subrange(
                0,
                old(self).state.our_resources.areas_of_interest.values@.len() as int,
            ) == old(self).state.our_resources.areas_of_interest.values@,
            forall|t: int|
                old(self).outbox@.len() <= t < final(self).outbox@.len()
                    ==> match #[trigger] final(self).outbox@[t] {
                    Message::SetupBindReadCapability(m) => !cap_bound(
                        old(self).state.our_resources.capabilities.values@,
                        m.capability,
                    ),
                    Message::SetupBindAreaOfInterest(m) => !aoi_bound(
                        old(self).state.our_resources.areas_of_interest.values@,
                        m,
                    ),
                    _ => false,
                },
    {
        let ghost base = old(self).outbox@.len() as int;
        let n: usize = self.init.interests.len();
        let mut i: usize = 0;
        while i < n
            invariant
                i <= n,
                self.wf(),
                n == self.init.interests@.len(),
                Coroutine::recv_frame(*old(self), *self),
                self.channels.control_send == old(self).channels.control_send,
                self.channels.reconciliation_send == old(self).channels.reconciliation_send,
                self.store_writer == old(self).store_writer,
                self.store_snapshot == old(self).store_snapshot,
                self.stashed_entry == old(self).stashed_entry,
                self.init == old(self).init,
                self.reveal_sent == old(self).reveal_sent,
                base == old(self).outbox@.len(),
                self.outbox@.len() >= base,
                self.outbox@.subrange(0, base) == old(self).outbox@,
                self.state.our_resources.capabilities.values@.len() >= old(self).state.our_resources.capabilities.values@.len(),
                self.state.our_resources.capabilities.values@.subrange(
                    0,
                    old(self).state.our_resources.capabilities.values@.len() as int,
                ) == old(self).state.our_resources.capabilities.values@,
                self.state.our_resources.areas_of_interest.values@.len() >= old(self).state.our_resources.areas_of_interest.values@.len(),
                self.state.our_resources.areas_of_interest.values@.subrange(
                    0,
                    old(self).state.our_resources.areas_of_interest.values@.len() as int,
                ) == old(self).state.our_resources.areas_of_interest.values@,
                forall|t: int|
                    base <= t < self.outbox@.len() ==> match #[trigger] self.outbox@[t] {
                        Message::SetupBindReadCapability(m) => !cap_bound(
                            old(self).state.our_resources.capabilities.values@,
                            m.capability,
                        ),
                        Message::SetupBindAreaOfInterest(m) => !aoi_bound(
                            old(self).state.our_resources.areas_of_interest.values@,
                            m,
                        ),
                        _ => false,
                    },
                forall|k: int|
                    0 <= k < i ==> cap_receiver((#[trigger] old(self).init.interests@[k]).0)
                        == ed_public_key_of(old(self).init.user_secret_key.bytes@),
                forall|k: int|
                    0 <= k < i ==> #[trigger] cap_bound(
                        self.state.our_resources.capabilities.values@,
                        old(self).init.interests@[k].0,
                    ),
            decreases n - i,
        {
            let ghost caps_at_start = self.state.our_resources.capabilities.values@;
            let capability = self.init.interests[i].0.clone();
            let ghost cap_arg = capability;
            let our_key = self.init.user_secret_key.public_key();
            if !capability.receiver().same_key(&our_key) {
                return Result::Err(Error::WrongSecretKeyForCapability);
            }
            let intersection_handle: u64 = 0;
            let (our_capability_handle, message) = self.state.bind_and_sign_capability(
                &self.init.user_secret_key,
                intersection_handle,
                capability,
            );
            proof {
                let vals = self.state.our_resources.capabilities.values@;
                assert forall|k: int| 0 <= k < i + 1 implies #[trigger] cap_bound(
                    vals,
                    old(self).init.interests@[k].0,
                ) by {
                    if k == i {
                        if vals.len() == caps_at_start.len() + 1 {
                            assert(vals[vals.len() - 1] == cap_arg);
                            assert(cap_eqv(vals[vals.len() - 1], old(self).init.interests@[k].0));
                        } else {
                            crate::resource::lemma_find_eqv_props(caps_at_start, cap_arg);
                            let idx = crate::resource::find_eqv(caps_at_start, cap_arg)->Some_0;
                            assert(cap_eqv(caps_at_start[idx], cap_arg));
                            crate::meadowcap::lemma_cap_eqv_trans(
                                caps_at_start[idx],
                                cap_arg,
                                old(self).init.interests@[k].0,
                            );
                            assert(0 <= idx < vals.len() && cap_eqv(
                                vals[idx],
                                old(self).init.interests@[k].0,
                            ));
                        }
                    } else {
                        assert(cap_bound(caps_at_start, old(self).init.interests@[k].0));
                        let h0 = choose|h0: int|
                            0 <= h0 < caps_at_start.len() && cap_eqv(
                                #[trigger] caps_at_start[h0],
                                old(self).init.interests@[k].0,
                            );
                        assert(vals[h0] == caps_at_start[h0]);
                        assert(0 <= h0 < vals.len() && cap_eqv(
                            vals[h0],
                            old(self).init.interests@[k].0,
                        ));
                    }
                }
            }
            match message {
                Option::Some(m) => {
                    self.outbox.push(Message::SetupBindReadCapability(m));
                    proof {
                        assert(self.outbox@.subrange(0, base) =~= old(self).outbox@);
                        crate::resource::lemma_find_eqv_props(caps_at_start, cap_arg);
                        match self.outbox@.last() {
                            Message::SetupBindReadCapability(mm) => {
                                if cap_bound(
                                    old(self).state.our_resources.capabilities.values@,
                                    mm.capability,
                                ) {
                                    let h = choose|h: int|
                                        0 <= h < old(self).state.our_resources.capabilities.values@.len() && cap_eqv(
                                            #[trigger] old(self).state.our_resources.capabilities.values@[h],
                                            mm.capability,
                                        );
                                    assert(caps_at_start[h] == old(self).state.our_resources.capabilities.values@[h]);
                                    crate::meadowcap::lemma_cap_eqv_trans(
                                        caps_at_start[h],
                                        mm.capability,
                                        cap_arg,
                                    );
                                    assert(caps_at_start[h].eqv(&cap_arg));
                                    assert(false);
                                }
                            },
                            _ => {},
                        }
                    }
                },
                Option::None => {},
            }
            proof {
                assert(self.state.our_resources.capabilities.values@.subrange(
                    0,
                    old(self).state.our_resources.capabilities.values@.len() as int,
                ) =~= old(self).state.our_resources.capabilities.values@);
            }
            let m: usize = self.init.interests[i].1.len();
            let mut j: usize = 0;
            while j < m
                invariant
                    j <= m,
                    i < n,
                    self.wf(),
                    n == self.init.interests@.len(),
                    m == self.init.interests@[i as int].1@.len(),
                    Coroutine::recv_frame(*old(self), *self),
                    self.channels.control_send == old(self).channels.control_send,
                    self.channels.reconciliation_send == old(self).channels.reconciliation_send,
                    self.store_writer == old(self).store_writer,
                    self.store_snapshot == old(self).store_snapshot,
                    self.stashed_entry == old(self).stashed_entry,
                    self.init == old(self).init,
                    self.reveal_sent == old(self).reveal_sent,
                    base == old(self).outbox@.len(),
                    self.outbox@.len() >= base,
                    self.outbox@.subrange(0, base) == old(self).outbox@,
                    self.state.our_resources.capabilities.values@.len() >= old(self).state.our_resources.capabilities.values@.len(),
                    self.state.our_resources.capabilities.values@.subrange(
                        0,
                        old(self).state.our_resources.capabilities.values@.len() as int,
                    ) == old(self).state.our_resources.capabilities.values@,
                    self.state.our_resources.areas_of_interest.values@.len() >= old(self).state.our_resources.areas_of_interest.values@.len(),
                    self.state.our_resources.areas_of_interest.values@.subrange(
                        0,
                        old(self).state.our_resources.areas_of_interest.values@.len() as int,
                    ) == old(self).state.our_resources.areas_of_interest.values@,
                    forall|t: int|
                        base <= t < self.outbox@.len() ==> match #[trigger] self.outbox@[t] {
                            Message::SetupBindReadCapability(m) => !cap_bound(
                                old(self).state.our_resources.capabilities.values@,
                                m.capability,
                            ),
                            Message::SetupBindAreaOfInterest(m) => !aoi_bound(
                                old(self).state.our_resources.areas_of_interest.values@,
                                m,
                            ),
                            _ => false,
                        },
                    forall|k: int|
                        0 <= k < i + 1 ==> #[trigger] cap_bound(
                            self.state.our_resources.capabilities.values@,
                            old(self).init.interests@[k].0,
                        ),
                decreases m - j,
            {
                let msg = SetupBindAreaOfInterest {
                    area_of_interest: self.init.interests[i].1[j].clone(),
                    authorisation: our_capability_handle,
                };
                let copy = msg.clone();
                let ghost aoi_arg = msg;
                let ghost aois_at = self.state.our_resources.areas_of_interest.values@;
                let (_our_handle, is_new) = self.state.our_resources.areas_of_interest.bind_if_new(
                    msg,
                );
                proof {
                    assert(self.state.our_resources.areas_of_interest.values@.subrange(
                        0,
                        old(self).state.our_resources.areas_of_interest.values@.len() as int,
                    ) =~= old(self).state.our_resources.areas_of_interest.values@);
                }
                if is_new {
                    self.outbox.push(Message::SetupBindAreaOfInterest(copy));
                    proof {
                        assert(self.outbox@.subrange(0, base) =~= old(self).outbox@);
                        crate::resource::lemma_find_eqv_props(aois_at, aoi_arg);
                        match self.outbox@.last() {
                            Message::SetupBindAreaOfInterest(mm) => {
                                assert(mm.eqv(&aoi_arg));
                                if aoi_bound(
                                    old(self).state.our_resources.areas_of_interest.values@,
                                    mm,
                                ) {
                                    let h = choose|h: int|
                                        0 <= h < old(self).state.our_resources.areas_of_interest.values@.len() && (#[trigger] old(self).state.our_resources.areas_of_interest.values@[h]).eqv(&mm);
                                    assert(aois_at[h] == old(self).state.our_resources.areas_of_interest.values@[h]);
                                    assert(aois_at[h].eqv(&aoi_arg));
                                    assert(false);
                                }
                            },
                            _ => {},
                        }
                    }
                }
                j = j + 1;
            }
            i = i + 1;
        }
        Result::Ok(())
    }

    /// Initiates reconciliation over the intersection of the two areas of
    /// interest: succeeds exactly when both handles and the authorising
    /// capability resolve and the two areas overlap; it then marks the
    /// common range pending and composes the opening fingerprint message,
    /// with our local fingerprint and no final-reply marker.
    fn start_reconciliation(&mut self, our_handle: u64, their_handle: u64) -> (r: Result<
        (),
        Error,
    >)
        requires
            old(self).wf(),
        ensures
            final(self).wf(),
            Coroutine::recv_frame(*old(self), *final(self)),
            final(self).channels.control_send == old(self).channels.control_send,
            final(self).channels.reconciliation_send == old(self).channels.reconciliation_send,
            final(self).store_writer == old(self).store_writer,
            final(self).store_snapshot == old(self).store_snapshot,
            final(self).stashed_entry == old(self).stashed_entry,
            final(self).reveal_sent == old(self).reveal_sent,
            r is Ok <==> start_chain_resolves(old(self).state, our_handle, their_handle)
                && areas_overlap(
                old(self).state.our_resources.areas_of_interest.values@[our_handle
                    - 1].area_of_interest.area,
                old(self).state.their_resources.areas_of_interest.values@[their_handle
                    - 1].area_of_interest.area,
            ),
            match r {
                Result::Ok(_) => {
                    &&& final(self).state.reconciliation_started
                    &&& final(self).state.pending_ranges@.len() == old(self).state.pending_ranges@.len() + 1
                    &&& final(self).state.pending_ranges@.subrange(
                        0,
                        old(self).state.pending_ranges@.len() as int,
                    ) == old(self).state.pending_ranges@
                    &&& final(self).state.pending_ranges@.last().0 == our_handle
                    &&& final(self).outbox@.len() == old(self).outbox@.len() + 1
                    &&& final(self).outbox@.subrange(0, old(self).outbox@.len() as int) == old(self).outbox@
                    &&& match final(self).outbox@.last() {
                        Message::ReconciliationSendFingerprint(f) => {
                            &&& f.sender_handle == our_handle
                            &&& f.receiver_handle == their_handle
                            &&& f.is_final_reply_for_range is None
                            &&& range_eqv(f.range, final(self).state.pending_ranges@.last().1)
                            &&& f.fingerprint.bytes@ == fp_of_seq(
                                included_seq(
                                    old(self).store_snapshot.entries@,
                                    aoi_namespace(
                                        old(self).state.our_resources,
                                        our_handle,
                                    )->Some_0,
                                    f.range,
                                ),
                            )
                            &&& exists|c: Area|
                                #[trigger] area_intersection_of(
                                    c,
                                    old(self).state.our_resources.areas_of_interest.values@[our_handle - 1].area_of_interest.area,
                                    old(self).state.their_resources.areas_of_interest.values@[their_handle - 1].area_of_interest.area,
                                ) && range_projects_area(f.range, c)
                        },
                        _ => false,
                    }
                },
                Result::Err(e) => *final(self) == *old(self) && (e == Error::MissingResource || e
                    == Error::AreaOfInterestDoesNotOverlap) && (e
                    == Error::AreaOfInterestDoesNotOverlap ==> start_chain_resolves(
                    old(self).state,
                    our_handle,
                    their_handle,
                )) && (e == Error::MissingResource ==> !start_chain_resolves(
                    old(self).state,
                    our_handle,
                    their_handle,
                )),
            },
    {
        let our_aoi = match self.state.our_resources.areas_of_interest.get(our_handle) {
            Option::Some(a) => a,
            Option::None => {
                return Result::Err(Error::MissingResource);
            },
        };
        let their_aoi = match self.state.their_resources.areas_of_interest.get(their_handle) {
            Option::Some(a) => a,
            Option::None => {
                return Result::Err(Error::MissingResource);
            },
        };
        let our_capability = match self.state.our_resources.capabilities.get(
            our_aoi.authorisation,
        ) {
            Option::Some(c) => c,
            Option::None => {
                return Result::Err(Error::MissingResource);
            },
        };
        let namespace = NamespaceId { bytes: our_capability.granted_namespace_bytes() };
        let common_aoi = match our_aoi.area_of_interest.area.intersection(
            &their_aoi.area_of_interest.area,
        ) {
            Option::Some(a) => a,
            Option::None => {
                return Result::Err(Error::AreaOfInterestDoesNotOverlap);
            },
        };
        let range = common_aoi.into_range();
        let ghost projected = range;
        let ghost common = common_aoi;
        self.state.reconciliation_started = true;
        let fingerprint = self.store_snapshot.fingerprint(&namespace, &range);
        self.send_fingerprint(range, fingerprint, our_handle, their_handle, Option::None);
        proof {
            assert(area_intersection_of(
                common,
                old(self).state.our_resources.areas_of_interest.values@[our_handle - 1].area_of_interest.area,
                old(self).state.their_resources.areas_of_interest.values@[their_handle - 1].area_of_interest.area,
            ) && range_projects_area(projected, common));
        }
        Result::Ok(())
    }

    /// Marks the range pending and composes a fingerprint message for it.
    fn send_fingerprint(
        &mut self,
        range: ThreeDRange,
        fingerprint: Fingerprint,
        our_handle: u64,
        their_handle: u64,
        is_final_reply_for_range: Option<ThreeDRange>,
    )
        requires
            old(self).wf(),
        ensures
            final(self).wf(),
            Coroutine::recv_frame(*old(self), *final(self)),
            final(self).channels.control_send == old(self).channels.control_send,
            final(self).channels.reconciliation_send == old(self).channels.reconciliation_send,
            final(self).store_writer == old(self).store_writer,
            final(self).stashed_entry == old(self).stashed_entry,
            final(self).reveal_sent == old(self).reveal_sent,
            final(self).store_snapshot == old(self).store_snapshot,
            final(self).state.reconciliation_started == old(self).state.reconciliation_started,
            final(self).state.pending_entries == old(self).state.pending_entries,
            final(self).state.pending_ranges@.len() == old(self).state.pending_ranges@.len() + 1,
            final(self).state.pending_ranges@.subrange(
                0,
                old(self).state.pending_ranges@.len() as int,
            ) == old(self).state.pending_ranges@,
            final(self).state.pending_ranges@.last().0 == our_handle,
            range_eqv(final(self).state.pending_ranges@.last().1, range),
            final(self).outbox@ == old(self).outbox@.push(
                Message::ReconciliationSendFingerprint(
                    (ReconciliationSendFingerprint {
                        range,
                        fingerprint,
                        sender_handle: our_handle,
                        receiver_handle: their_handle,
                        is_final_reply_for_range,
                    }),
                ),
            ),
    {
        self.state.push_pending_range(our_handle, range.clone());
        proof {
            assert(self.state.pending_ranges@.subrange(
                0,
                old(self).state.pending_ranges@.len() as int,
            ) =~= old(self).state.pending_ranges@);
        }
        let msg = ReconciliationSendFingerprint {
            range,
            fingerprint,
            sender_handle: our_handle,
            receiver_handle: their_handle,
            is_final_reply_for_range,
        };
        self.outbox.push(Message::ReconciliationSendFingerprint(msg));
    }

    /// Announces how many entries we hold in the range and composes one
    /// send-entry message per included entry, binding static tokens as
    /// they are first used: the appended messages are the announcement
    /// followed by the entries of the snapshot over the range.
    fn announce_and_send_entries(
        &mut self,
        namespace: &NamespaceId,
        range: &ThreeDRange,
        our_handle: u64,
        their_handle: u64,
        want_response: bool,
        is_final_reply_for_range: Option<ThreeDRange>,
        our_count: Option<u64>,
    )
        requires
            old(self).wf(),
        ensures
            final(self).wf(),
            Coroutine::recv_frame(*old(self), *final(self)),
            final(self).channels.control_send == old(self).channels.control_send,
            final(self).channels.reconciliation_send == old(self).channels.reconciliation_send,
            final(self).store_writer == old(self).store_writer,
            final(self).stashed_entry == old(self).stashed_entry,
            final(self).reveal_sent == old(self).reveal_sent,
            final(self).store_snapshot == old(self).store_snapshot,
            final(self).state.reconciliation_started == old(self).state.reconciliation_started,
            final(self).state.pending_entries == old(self).state.pending_entries,
            announce_burst(
                old(self).outbox@,
                final(self).outbox@,
                included_seq(old(self).store_snapshot.entries@, namespace.bytes@, *range),
                final(self).state.static_tokens.ours.values@,
                *range,
                (match our_count {
                    Option::Some(c) => c,
                    Option::None => included_seq(
                        old(self).store_snapshot.entries@,
                        namespace.bytes@,
                        *range,
                    ).len() as u64,
                }),
                want_response,
                our_handle,
                their_handle,
                is_final_reply_for_range,
            ),
            want_response ==> final(self).state.pending_ranges@.len() == old(self).state.pending_ranges@.len() + 1 && final(self).state.pending_ranges@.subrange(
                0,
                old(self).state.pending_ranges@.len() as int,
            ) == old(self).state.pending_ranges@ && final(self).state.pending_ranges@.last().0
                == our_handle && range_eqv(final(self).state.pending_ranges@.last().1, *range),
            !want_response ==> final(self).state.pending_ranges == old(self).state.pending_ranges,
    {
        let ghost inc = included_seq(old(self).store_snapshot.entries@, namespace.bytes@, *range);
        let ghost base = old(self).outbox@.len() as int;
        if want_response {
            self.state.push_pending_range(our_handle, range.clone());
            proof {
                assert(self.state.pending_ranges@.subrange(
                    0,
                    old(self).state.pending_ranges@.len() as int,
                ) =~= old(self).state.pending_ranges@);
            }
        }
        let count = match our_count {
            Option::Some(c) => c,
            Option::None => self.store_snapshot.count(namespace, range),
        };
        let msg = ReconciliationAnnounceEntries {
            range: range.clone(),
            count,
            want_response,
            will_sort: false,
            sender_handle: our_handle,
            receiver_handle: their_handle,
            is_final_reply_for_range,
        };
        self.outbox.push(Message::ReconciliationAnnounceEntries(msg));
        proof {
            assert(self.outbox@.subrange(0, base) =~= old(self).outbox@);
            assert(self.outbox@.skip(base) =~= Seq::<Message>::empty().push(
                self.outbox@.last(),
            ));
            assert(self.outbox@.skip(base).drop_last() =~= Seq::<Message>::empty());
            assert(self.outbox@.skip(base).last() == self.outbox@.last());
            assert(self.outbox@.skip(base).len() == 1);
            assert(entry_msgs(self.outbox@.skip(base)) == entry_msgs(
                self.outbox@.skip(base).drop_last(),
            ));
            assert(entry_msgs(self.outbox@.skip(base)) =~= Seq::<Message>::empty());
        }
        let mut entries = self.store_snapshot.get_entries_with_authorisation(namespace, range);
        let ghost mut j: int = 0;
        while entries.len() > 0
            invariant
                self.wf(),
                Coroutine::recv_frame(*old(self), *self),
                self.channels.control_send == old(self).channels.control_send,
                self.channels.reconciliation_send == old(self).channels.reconciliation_send,
                self.store_writer == old(self).store_writer,
                self.stashed_entry == old(self).stashed_entry,
                self.store_snapshot == old(self).store_snapshot,
                self.init == old(self).init,
                self.reveal_sent == old(self).reveal_sent,
                self.state.reconciliation_started == old(self).state.reconciliation_started,
                self.state.pending_entries == old(self).state.pending_entries,
                want_response ==> self.state.pending_ranges@.len() == old(self).state.pending_ranges@.len() + 1 && self.state.pending_ranges@.subrange(
                    0,
                    old(self).state.pending_ranges@.len() as int,
                ) == old(self).state.pending_ranges@ && self.state.pending_ranges@.last().0
                    == our_handle && range_eqv(self.state.pending_ranges@.last().1, *range),
                !want_response ==> self.state.pending_ranges == old(self).state.pending_ranges,
                base == old(self).outbox@.len(),
                inc == included_seq(old(self).store_snapshot.entries@, namespace.bytes@, *range),
                self.outbox@.len() > base,
                self.outbox@.subrange(0, base) == old(self).outbox@,
                is_announce_msg(
                    self.outbox@[base],
                    *range,
                    (match our_count {
                        Option::Some(c) => c,
                        Option::None => inc.len() as u64,
                    }),
                    want_response,
                    our_handle,
                    their_handle,
                    is_final_reply_for_range,
                ),
                0 <= j,
                j + entries@.len() == inc.len(),
                forall|t: int|
                    0 <= t < entries@.len() ==> entry_eqv(
                        (#[trigger] entries@[t]).entry,
                        inc[j + t].entry,
                    ) && entries@[t].token.signature.bytes@ == inc[j + t].token.signature.bytes@
                        && entries@[t].entry.payload_length == inc[j + t].entry.payload_length
                        && cap_eqv(
                        entries@[t].token.capability,
                        inc[j + t].token.capability,
                    ),
                entry_msgs(self.outbox@.skip(base)).len() == j,
                forall|k: int|
                    0 <= k < j ==> is_entry_msg(
                        #[trigger] entry_msgs(self.outbox@.skip(base))[k],
                        inc[k],
                    ) && match entry_msgs(self.outbox@.skip(base))[k] {
                        Message::ReconciliationSendEntry(e) => 1 <= e.static_token_handle
                            <= self.state.static_tokens.ours.values@.len() && cap_eqv(
                            self.state.static_tokens.ours.values@[e.static_token_handle - 1],
                            inc[k].token.capability,
                        ),
                        _ => false,
                    },
                forall|i: int|
                    0 <= i < j ==> #[trigger] entry_covered(self.outbox@, base, inc[i]),
                forall|t: int|
                    base < t < self.outbox@.len() ==> match #[trigger] self.outbox@[t] {
                        Message::ReconciliationSendEntry(_) => matches_some_entry(
                            self.outbox@[t],
                            inc,
                        ),
                        Message::SetupBindStaticToken(_) => true,
                        _ => false,
                    },
            decreases entries@.len(),
        {
            let ghost obx_at_start = self.outbox@;
            let ghost ours_at_start = self.state.static_tokens.ours.values@;
            let authorised_entry = entries.remove(0);
            let (entry, token) = authorised_entry.into_parts();
            let (static_token, dynamic_token) = token.into_parts();
            let ghost st_ghost = static_token;
            let available = entry.payload_length;
            let (static_token_handle, static_token_bind_msg) = self.state.bind_our_static_token(
                static_token,
            );
            let ghost pushed_bind = static_token_bind_msg is Some;
            match static_token_bind_msg {
                Option::Some(m) => {
                    self.outbox.push(Message::SetupBindStaticToken(m));
                    proof {
                        assert(self.outbox@.subrange(0, base) =~= old(self).outbox@);
                    }
                },
                Option::None => {},
            }
            let msg = ReconciliationSendEntry {
                entry: LengthyEntry::new(entry, available),
                static_token_handle,
                dynamic_token,
            };
            self.outbox.push(Message::ReconciliationSendEntry(msg));
            proof {
                assert(self.outbox@.subrange(0, base) =~= old(self).outbox@);
                assert(is_entry_msg(self.outbox@.last(), inc[j]));
                assert(matches_some_entry(self.outbox@.last(), inc));
                if pushed_bind {
                    let mid = obx_at_start.push(self.outbox@[self.outbox@.len() - 2]);
                    assert(self.outbox@ =~= mid.push(self.outbox@.last()));
                    assert(mid.skip(base) =~= obx_at_start.skip(base).push(mid.last()));
                    assert(mid.skip(base).drop_last() =~= obx_at_start.skip(base));
                    assert(entry_msgs(mid.skip(base)) == entry_msgs(obx_at_start.skip(base)));
                    assert(self.outbox@.skip(base) =~= mid.skip(base).push(self.outbox@.last()));
                    assert(self.outbox@.skip(base).drop_last() =~= mid.skip(base));
                    assert(entry_msgs(self.outbox@.skip(base)) == entry_msgs(mid.skip(base)).push(
                        self.outbox@.last(),
                    ));
                } else {
                    assert(self.outbox@.skip(base) =~= obx_at_start.skip(base).push(
                        self.outbox@.last(),
                    ));
                    assert(self.outbox@.skip(base).drop_last() =~= obx_at_start.skip(base));
                    assert(entry_msgs(self.outbox@.skip(base)) == entry_msgs(
                        obx_at_start.skip(base),
                    ).push(self.outbox@.last()));
                }
                assert(entry_msgs(self.outbox@.skip(base)).len() == j + 1);
                assert(entry_msgs(self.outbox@.skip(base))[j] == self.outbox@.last());
                if ours_at_start.len() == self.state.static_tokens.ours.values@.len() {
                    crate::resource::lemma_find_eqv_props(ours_at_start, st_ghost);
                } else {
                    assert(self.state.static_tokens.ours.values@.last() == st_ghost);
                }
                assert(1 <= static_token_handle <= self.state.static_tokens.ours.values@.len()
                    && cap_eqv(
                    self.state.static_tokens.ours.values@[static_token_handle - 1],
                    st_ghost,
                ));
                crate::meadowcap::lemma_cap_eqv_trans(
                    self.state.static_tokens.ours.values@[static_token_handle - 1],
                    st_ghost,
                    inc[j].token.capability,
                );
                assert forall|k: int| 0 <= k < j + 1 implies is_entry_msg(
                    #[trigger] entry_msgs(self.outbox@.skip(base))[k],
                    inc[k],
                ) && match entry_msgs(self.outbox@.skip(base))[k] {
                    Message::ReconciliationSendEntry(e) => 1 <= e.static_token_handle
                        <= self.state.static_tokens.ours.values@.len() && cap_eqv(
                        self.state.static_tokens.ours.values@[e.static_token_handle - 1],
                        inc[k].token.capability,
                    ),
                    _ => false,
                } by {
                    if k < j {
                        assert(entry_msgs(self.outbox@.skip(base))[k] == entry_msgs(
                            obx_at_start.skip(base),
                        )[k]);
                        assert(is_entry_msg(entry_msgs(obx_at_start.skip(base))[k], inc[k]));
                        match entry_msgs(obx_at_start.skip(base))[k] {
                            Message::ReconciliationSendEntry(e) => {
                                assert(self.state.static_tokens.ours.values@[e.static_token_handle
                                    - 1] == ours_at_start[e.static_token_handle - 1]);
                            },
                            _ => {},
                        }
                    }
                }
                assert forall|i: int| 0 <= i < j + 1 implies #[trigger] entry_covered(
                    self.outbox@,
                    base,
                    inc[i],
                ) by {
                    if i == j {
                        assert(base < self.outbox@.len() - 1 < self.outbox@.len() && is_entry_msg(
                            self.outbox@[self.outbox@.len() - 1],
                            inc[i],
                        ));
                    } else {
                        assert(entry_covered(obx_at_start, base, inc[i]));
                        let t0 = choose|t0: int|
                            base < t0 < obx_at_start.len() && is_entry_msg(
                                #[trigger] obx_at_start[t0],
                                inc[i],
                            );
                        assert(self.outbox@[t0] == obx_at_start[t0]);
                        assert(base < t0 < self.outbox@.len() && is_entry_msg(
                            self.outbox@[t0],
                            inc[i],
                        ));
                    }
                }
                assert forall|t: int|
                    base < t < self.outbox@.len() implies match #[trigger] self.outbox@[t] {
                    Message::ReconciliationSendEntry(_) => matches_some_entry(
                        self.outbox@[t],
                        inc,
                    ),
                    Message::SetupBindStaticToken(_) => true,
                    _ => false,
                } by {
                    if t < obx_at_start.len() {
                        assert(self.outbox@[t] == obx_at_start[t]);
                    }
                }
                j = j + 1;
            }
        }
        proof {
            let cnt = (match our_count {
                Option::Some(c) => c,
                Option::None => inc.len() as u64,
            });
            assert forall|i: int| 0 <= i < inc.len() implies #[trigger] entry_covered(
                self.outbox@,
                base,
                inc[i],
            ) by {
                assert(0 <= i < j);
                assert(entry_covered(self.outbox@, base, inc[i]));
            }
            assert(announce_burst(
                old(self).outbox@,
                self.outbox@,
                inc,
                self.state.static_tokens.ours.values@,
                *range,
                cnt,
                want_response,
                our_handle,
                their_handle,
                is_final_reply_for_range,
            ));
        }
    }

    /// Splits a mismatched range and, part by part, either announces and
    /// sends its entries or sends its fingerprint. Every composed message
    /// is consistent with the snapshot over its own subrange, one of them
    /// carries the final-reply marker for the whole range, and each part
    /// becomes a pending range under our handle.
    fn split_range_and_send_parts(
        &mut self,
        namespace: &NamespaceId,
        range: &ThreeDRange,
        our_handle: u64,
        their_handle: u64,
    )
        requires
            old(self).wf(),
        ensures
            final(self).wf(),
            Coroutine::recv_frame(*old(self), *final(self)),
            final(self).channels.control_send == old(self).channels.control_send,
            final(self).channels.reconciliation_send == old(self).channels.reconciliation_send,
            final(self).store_writer == old(self).store_writer,
            final(self).stashed_entry == old(self).stashed_entry,
            final(self).reveal_sent == old(self).reveal_sent,
            final(self).store_snapshot == old(self).store_snapshot,
            final(self).state.reconciliation_started == old(self).state.reconciliation_started,
            final(self).state.pending_entries == old(self).state.pending_entries,
            final(self).outbox@.len() > old(self).outbox@.len(),
            final(self).outbox@.subrange(0, old(self).outbox@.len() as int) == old(self).outbox@,
            forall|t: int|
                old(self).outbox@.len() <= t < final(self).outbox@.len()
                    ==> recon_msg_consistent(
                    #[trigger] final(self).outbox@[t],
                    old(self).store_snapshot.entries@,
                    namespace.bytes@,
                    our_handle,
                    their_handle,
                    *range,
                ),
            exists|t: int|
                old(self).outbox@.len() <= t < final(self).outbox@.len()
                    && msg_final_marker_eqv(#[trigger] final(self).outbox@[t], *range),
            ({
                let heads = burst_heads(final(self).outbox@.skip(old(self).outbox@.len() as int));
                &&& 1 <= heads.len() <= 2
                &&& final(self).state.pending_ranges@.len() == old(self).state.pending_ranges@.len() + heads.len()
                &&& forall|k: int|
                    0 <= k < heads.len() ==> ({
                        let pr = final(self).state.pending_ranges@[old(self).state.pending_ranges@.len() + k];
                        &&& pr.0 == our_handle
                        &&& match #[trigger] heads[k] {
                            Message::ReconciliationSendFingerprint(f) => range_eqv(pr.1, f.range)
                                && (if k < heads.len() - 1 {
                                f.is_final_reply_for_range is None
                            } else {
                                opt_range_eqv(f.is_final_reply_for_range, Option::Some(*range))
                            }),
                            Message::ReconciliationAnnounceEntries(a) => range_eqv(pr.1, a.range)
                                && (if k < heads.len() - 1 {
                                a.is_final_reply_for_range is None
                            } else {
                                opt_range_eqv(a.is_final_reply_for_range, Option::Some(*range))
                            }),
                            _ => false,
                        }
                    })
            }),
            final(self).state.pending_ranges@.len() > old(self).state.pending_ranges@.len(),
            final(self).state.pending_ranges@.subrange(
                0,
                old(self).state.pending_ranges@.len() as int,
            ) == old(self).state.pending_ranges@,
            forall|t: int|
                old(self).state.pending_ranges@.len() <= t < final(self).state.pending_ranges@.len() ==> (#[trigger] final(self).state.pending_ranges@[t]).0 == our_handle,
    {
        let ghost base = old(self).outbox@.len() as int;
        let ghost pbase = old(self).state.pending_ranges@.len() as int;
        let config = self.config;
        let mut parts = self.store_snapshot.split_range(namespace, range, &config);
        let ghost all_parts = parts@;
        let ghost mut done: int = 0;
        proof {
            assert(self.outbox@.skip(base) =~= Seq::<Message>::empty());
        }
        let mut sent: bool = false;
        while parts.len() > 0
            invariant
                self.wf(),
                Coroutine::recv_frame(*old(self), *self),
                self.channels.control_send == old(self).channels.control_send,
                self.channels.reconciliation_send == old(self).channels.reconciliation_send,
                self.store_writer == old(self).store_writer,
                self.stashed_entry == old(self).stashed_entry,
                self.store_snapshot == old(self).store_snapshot,
                self.reveal_sent == old(self).reveal_sent,
                self.state.reconciliation_started == old(self).state.reconciliation_started,
                self.state.pending_entries == old(self).state.pending_entries,
                base == old(self).outbox@.len(),
                pbase == old(self).state.pending_ranges@.len(),
                sent ==> self.outbox@.len() > base,
                !sent ==> self.outbox@ == old(self).outbox@ && self.state.pending_ranges == old(self).state.pending_ranges,
                sent || parts@.len() > 0,
                self.outbox@.subrange(0, base) == old(self).outbox@,
                forall|t: int|
                    base <= t < self.outbox@.len() ==> recon_msg_consistent(
                        #[trigger] self.outbox@[t],
                        old(self).store_snapshot.entries@,
                        namespace.bytes@,
                        our_handle,
                        their_handle,
                        *range,
                    ),
                parts@.len() == 0 ==> exists|t: int|
                    base <= t < self.outbox@.len() && msg_final_marker_eqv(
                        #[trigger] self.outbox@[t],
                        *range,
                    ),
                sent ==> self.state.pending_ranges@.len() > pbase,
                done == all_parts.len() - parts@.len(),
                0 <= done,
                burst_heads(self.outbox@.skip(base)).len() == done,
                self.state.pending_ranges@.len() == pbase + done,
                forall|k: int|
                    0 <= k < done ==> ({
                        let pr = self.state.pending_ranges@[pbase + k];
                        &&& pr.0 == our_handle
                        &&& match #[trigger] burst_heads(self.outbox@.skip(base))[k] {
                            Message::ReconciliationSendFingerprint(f) => range_eqv(pr.1, f.range)
                                && ((k < done - 1 || parts@.len() > 0)
                                ==> f.is_final_reply_for_range is None) && ((k == done - 1
                                && parts@.len() == 0) ==> opt_range_eqv(
                                f.is_final_reply_for_range,
                                Option::Some(*range),
                            )),
                            Message::ReconciliationAnnounceEntries(a) => range_eqv(pr.1, a.range)
                                && ((k < done - 1 || parts@.len() > 0)
                                ==> a.is_final_reply_for_range is None) && ((k == done - 1
                                && parts@.len() == 0) ==> opt_range_eqv(
                                a.is_final_reply_for_range,
                                Option::Some(*range),
                            )),
                            _ => false,
                        }
                    }),
                self.state.pending_ranges@.subrange(0, pbase) == old(self).state.pending_ranges@,
                forall|t: int|
                    pbase <= t < self.state.pending_ranges@.len() ==> (#[trigger] self.state.pending_ranges@[t]).0 == our_handle,
                forall|k: int|
                    0 <= k < parts@.len() ==> match (#[trigger] parts@[k]).1 {
                        SplitAction::SendEntries(c) => c == included_seq(
                            old(self).store_snapshot.entries@,
                            namespace.bytes@,
                            parts@[k].0,
                        ).len(),
                        SplitAction::SendFingerprint(fp) => fp.wf() && fp.bytes@ == fp_of_seq(
                            included_seq(
                                old(self).store_snapshot.entries@,
                                namespace.bytes@,
                                parts@[k].0,
                            ),
                        ),
                    },
            decreases parts@.len(),
        {
            let ghost obx_at_start = self.outbox@;
            let ghost pend_at_start = self.state.pending_ranges@;
            let part = parts.remove(0);
            let is_last = parts.len() == 0;
            let is_final_reply = if is_last {
                Option::Some(range.clone())
            } else {
                Option::None
            };
            let ghost head_at = self.outbox@.len() as int;
            match part.1 {
                SplitAction::SendEntries(count) => {
                    self.announce_and_send_entries(
                        namespace,
                        &part.0,
                        our_handle,
                        their_handle,
                        true,
                        is_final_reply,
                        Option::Some(count),
                    );
                },
                SplitAction::SendFingerprint(fingerprint) => {
                    self.send_fingerprint(
                        part.0,
                        fingerprint,
                        our_handle,
                        their_handle,
                        is_final_reply,
                    );
                },
            }
            sent = true;
            proof {
                assert(self.outbox@.subrange(0, base) =~= old(self).outbox@);
                assert(self.state.pending_ranges@.subrange(0, pbase) =~= old(self).state.pending_ranges@);
                assert forall|t: int|
                    base <= t < self.outbox@.len() implies recon_msg_consistent(
                    #[trigger] self.outbox@[t],
                    old(self).store_snapshot.entries@,
                    namespace.bytes@,
                    our_handle,
                    their_handle,
                    *range,
                ) by {
                    if t < obx_at_start.len() {
                        assert(self.outbox@[t] == obx_at_start[t]);
                    } else {
                        match self.outbox@[t] {
                            Message::ReconciliationAnnounceEntries(a) => {
                                crate::store::lemma_included_seq_range_eqv(
                                    old(self).store_snapshot.entries@,
                                    namespace.bytes@,
                                    a.range,
                                    part.0,
                                );
                            },
                            _ => {},
                        }
                    }
                }
                assert forall|t: int|
                    pbase <= t < self.state.pending_ranges@.len() implies (#[trigger] self.state.pending_ranges@[t]).0 == our_handle by {
                    if t < pend_at_start.len() {
                        assert(self.state.pending_ranges@[t] == pend_at_start[t]);
                    }
                }
                if is_last {
                    assert(msg_final_marker_eqv(self.outbox@[head_at], *range));
                }
                let c = self.outbox@.skip(head_at);
                let ap_prev = obx_at_start.skip(base);
                let ap_now = self.outbox@.skip(base);
                assert(ap_now =~= ap_prev + c);
                lemma_heads_concat(ap_prev, c);
                assert(c.len() >= 1);
                assert(c[0] == self.outbox@[head_at]);
                assert(is_head_msg(c[0]));
                assert forall|t: int| 1 <= t < c.len() implies !is_head_msg(#[trigger] c[t]) by {
                    assert(c[t] == self.outbox@[head_at + t]);
                }
                lemma_heads_single(c);
                assert(burst_heads(ap_now) =~= burst_heads(ap_prev).push(c[0]));
                assert(burst_heads(ap_now)[done] == c[0]);
                assert(self.state.pending_ranges@.len() == pbase + done + 1);
                assert(self.state.pending_ranges@[pbase + done]
                    == self.state.pending_ranges@.last());
                assert(self.state.pending_ranges@.last().0 == our_handle);
                assert(match c[0] {
                    Message::ReconciliationSendFingerprint(f) => range_eqv(
                        self.state.pending_ranges@[pbase + done].1,
                        f.range,
                    ) && (!is_last ==> f.is_final_reply_for_range is None) && (is_last
                        ==> opt_range_eqv(f.is_final_reply_for_range, Option::Some(*range))),
                    Message::ReconciliationAnnounceEntries(a) => range_eqv(
                        self.state.pending_ranges@[pbase + done].1,
                        a.range,
                    ) && (!is_last ==> a.is_final_reply_for_range is None) && (is_last
                        ==> opt_range_eqv(a.is_final_reply_for_range, Option::Some(*range))),
                    _ => false,
                });
                assert forall|k: int| 0 <= k < done implies burst_heads(ap_now)[k]
                    == burst_heads(ap_prev)[k] && self.state.pending_ranges@[pbase + k]
                    == pend_at_start[pbase + k] by {}
                done = done + 1;
            }
        }
    }

    /// Handles a fingerprint for a range. It succeeds exactly when the
    /// final-reply marker clears against the pending set and the range is
    /// authorised by both handles' capabilities; then a matching
    /// fingerprint is answered with an empty final announcement, an empty
    /// peer fingerprint with our entries for the whole range, and a
    /// mismatch by splitting the range. A failure composes nothing.
    fn on_send_fingerprint(&mut self, message: ReconciliationSendFingerprint) -> (r: Result<
        (),
        Error,
    >)
        requires
            old(self).wf(),
        ensures
            final(self).wf(),
            Coroutine::recv_frame(*old(self), *final(self)),
            final(self).channels.control_send == old(self).channels.control_send,
            final(self).channels.reconciliation_send == old(self).channels.reconciliation_send,
            final(self).store_writer == old(self).store_writer,
            final(self).store_snapshot == old(self).store_snapshot,
            final(self).stashed_entry == old(self).stashed_entry,
            final(self).reveal_sent == old(self).reveal_sent,
            r is Ok <==> can_clear_pending(
                old(self).state.pending_ranges@,
                message.receiver_handle,
                message.is_final_reply_for_range,
            ) && range_authorised(
                old(self).state.our_resources,
                old(self).state.their_resources,
                message.range,
                message.receiver_handle,
                message.sender_handle,
            ),
            r is Err ==> final(self).outbox == old(self).outbox && ({
                let e = r->Err_0;
                &&& (e == Error::InvalidMessageInCurrentState || e == Error::MissingResource || e
                    == Error::Unauthorised)
                &&& (e == Error::InvalidMessageInCurrentState <==> !can_clear_pending(
                    old(self).state.pending_ranges@,
                    message.receiver_handle,
                    message.is_final_reply_for_range,
                ))
            }),
            r is Ok ==> final(self).state.reconciliation_started && ({
                let ns = aoi_namespace(
                    old(self).state.our_resources,
                    message.receiver_handle,
                )->Some_0;
                let inc = included_seq(old(self).store_snapshot.entries@, ns, message.range);
                let cleared = if message.is_final_reply_for_range is Some {
                    1int
                } else {
                    0int
                };
                if message.fingerprint.bytes@ == fp_of_seq(inc) {
                    &&& final(self).state.pending_ranges@.len() == old(
                        self,
                    ).state.pending_ranges@.len() - cleared
                    &&& final(self).outbox@.len() == old(self).outbox@.len() + 1
                    &&& final(self).outbox@.subrange(0, old(self).outbox@.len() as int) == old(self).outbox@
                    &&& is_announce_msg(
                        final(self).outbox@.last(),
                        message.range,
                        0,
                        false,
                        message.receiver_handle,
                        message.sender_handle,
                        Option::Some(message.range),
                    )
                } else if message.fingerprint.bytes@ == fp_zero() {
                    &&& final(self).state.pending_ranges@.len() == old(
                        self,
                    ).state.pending_ranges@.len() - cleared + 1
                    &&& announce_burst(
                        old(self).outbox@,
                        final(self).outbox@,
                        inc,
                        final(self).state.static_tokens.ours.values@,
                        message.range,
                        inc.len() as u64,
                        true,
                        message.receiver_handle,
                        message.sender_handle,
                        Option::Some(message.range),
                    )
                } else {
                    &&& final(self).state.pending_ranges@.len() > old(
                        self,
                    ).state.pending_ranges@.len() - cleared
                    &&& final(self).outbox@.len() > old(self).outbox@.len()
                    &&& final(self).outbox@.subrange(0, old(self).outbox@.len() as int) == old(self).outbox@
                    &&& forall|t: int|
                        old(self).outbox@.len() <= t < final(self).outbox@.len()
                            ==> recon_msg_consistent(
                            #[trigger] final(self).outbox@[t],
                            old(self).store_snapshot.entries@,
                            ns,
                            message.receiver_handle,
                            message.sender_handle,
                            message.range,
                        )
                    &&& exists|t: int|
                        old(self).outbox@.len() <= t < final(self).outbox@.len()
                            && msg_final_marker_eqv(#[trigger] final(self).outbox@[t], message.range)
                }
            }),
    {
        let ReconciliationSendFingerprint {
            range,
            fingerprint: their_fingerprint,
            sender_handle: their_handle,
            receiver_handle: our_handle,
            is_final_reply_for_range,
        } = message;
        self.state.reconciliation_started = true;
        match self.state.clear_pending_range_if_some(our_handle, &is_final_reply_for_range) {
            Result::Ok(_) => {},
            Result::Err(e) => {
                proof {
                    assert(self.state.pending_ranges@ == old(self).state.pending_ranges@);
                    if can_clear_pending(
                        old(self).state.pending_ranges@,
                        our_handle,
                        is_final_reply_for_range,
                    ) {
                        let i = choose|i: int|
                            0 <= i < old(self).state.pending_ranges@.len() && pending_matches(
                                #[trigger] old(self).state.pending_ranges@[i],
                                our_handle,
                                is_final_reply_for_range->Some_0,
                            );
                        assert(pending_matches(
                            self.state.pending_ranges@[i],
                            our_handle,
                            is_final_reply_for_range->Some_0,
                        ));
                        assert(false);
                    }
                }
                return Result::Err(e);
            },
        }
        let namespace = match self.state.range_is_authorised(&range, our_handle, their_handle) {
            Result::Ok(ns) => ns,
            Result::Err(e) => {
                return Result::Err(e);
            },
        };
        let our_fingerprint = self.store_snapshot.fingerprint(&namespace, &range);
        if our_fingerprint.same_fingerprint(&their_fingerprint) {
            let msg = ReconciliationAnnounceEntries {
                range: range.clone(),
                count: 0,
                want_response: false,
                will_sort: false,
                sender_handle: our_handle,
                receiver_handle: their_handle,
                is_final_reply_for_range: Option::Some(range),
            };
            self.outbox.push(Message::ReconciliationAnnounceEntries(msg));
            proof {
                assert(self.outbox@.subrange(0, old(self).outbox@.len() as int) =~= old(self).outbox@);
                match is_final_reply_for_range {
                    Option::None => {},
                    Option::Some(mr) => {
                        let i = choose|i: int|
                            {
                                &&& 0 <= i < old(self).state.pending_ranges@.len()
                                &&& pending_matches(
                                    #[trigger] old(self).state.pending_ranges@[i],
                                    our_handle,
                                    mr,
                                )
                                &&& self.state.pending_ranges@ == old(self).state.pending_ranges@.remove(i)
                            };
                        assert(pending_matches(
                            old(self).state.pending_ranges@[i],
                            our_handle,
                            mr,
                        ));
                        assert(self.state.pending_ranges@ == old(self).state.pending_ranges@.remove(
                            i,
                        ));
                    },
                }
            }
        } else if their_fingerprint.is_empty() {
            let final_range = range.clone();
            self.announce_and_send_entries(
                &namespace,
                &range,
                our_handle,
                their_handle,
                true,
                Option::Some(final_range),
                Option::None,
            );
            proof {
                let ns = aoi_namespace(old(self).state.our_resources, message.receiver_handle)->Some_0;
                let inc = included_seq(old(self).store_snapshot.entries@, ns, message.range);
                assert(announce_burst(
                    old(self).outbox@,
                    self.outbox@,
                    inc,
                    self.state.static_tokens.ours.values@,
                    message.range,
                    inc.len() as u64,
                    true,
                    message.receiver_handle,
                    message.sender_handle,
                    Option::Some(message.range),
                ));
            }
        } else {
            self.split_range_and_send_parts(&namespace, &range, our_handle, their_handle);
        }
        Result::Ok(())
    }

    /// Handles an entry announcement. It succeeds exactly when the
    /// final-reply marker clears, no announcement is already open and the
    /// range is authorised; it then opens the pending-entry count and,
    /// when a response was asked for, answers with our own entries over
    /// the same range, marked final. A failure composes nothing.
    fn on_announce_entries(&mut self, message: ReconciliationAnnounceEntries) -> (r: Result<
        (),
        Error,
    >)
        requires
            old(self).wf(),
        ensures
            final(self).wf(),
            Coroutine::recv_frame(*old(self), *final(self)),
            final(self).channels.control_send == old(self).channels.control_send,
            final(self).channels.reconciliation_send == old(self).channels.reconciliation_send,
            final(self).store_writer == old(self).store_writer,
            final(self).store_snapshot == old(self).store_snapshot,
            final(self).stashed_entry == old(self).stashed_entry,
            final(self).reveal_sent == old(self).reveal_sent,
            final(self).state.reconciliation_started == old(self).state.reconciliation_started,
            r is Ok <==> can_clear_pending(
                old(self).state.pending_ranges@,
                message.receiver_handle,
                message.is_final_reply_for_range,
            ) && old(self).state.pending_entries is None && range_authorised(
                old(self).state.our_resources,
                old(self).state.their_resources,
                message.range,
                message.receiver_handle,
                message.sender_handle,
            ),
            r is Err ==> final(self).outbox == old(self).outbox && final(self).state.pending_entries == old(self).state.pending_entries && ({
                let e = r->Err_0;
                &&& (e == Error::InvalidMessageInCurrentState || e == Error::MissingResource || e
                    == Error::Unauthorised)
                &&& (e == Error::InvalidMessageInCurrentState <==> (!can_clear_pending(
                    old(self).state.pending_ranges@,
                    message.receiver_handle,
                    message.is_final_reply_for_range,
                ) || old(self).state.pending_entries is Some))
            }),
            r is Ok ==> (final(self).state.pending_entries == if message.count > 0 {
                Option::Some(message.count)
            } else {
                Option::<u64>::None
            }),
            r is Ok ==> final(self).state.pending_ranges@.len() == old(
                self,
            ).state.pending_ranges@.len() - (if message.is_final_reply_for_range is Some {
                1int
            } else {
                0int
            }),
            r is Ok && message.want_response ==> ({
                let ns = aoi_namespace(
                    old(self).state.our_resources,
                    message.receiver_handle,
                )->Some_0;
                let inc = included_seq(old(self).store_snapshot.entries@, ns, message.range);
                announce_burst(
                    old(self).outbox@,
                    final(self).outbox@,
                    inc,
                    final(self).state.static_tokens.ours.values@,
                    message.range,
                    inc.len() as u64,
                    false,
                    message.receiver_handle,
                    message.sender_handle,
                    Option::Some(message.range),
                )
            }),
            r is Ok && !message.want_response ==> final(self).outbox == old(self).outbox,
    {
        let ReconciliationAnnounceEntries {
            range,
            count,
            want_response,
            will_sort: _,
            sender_handle: their_handle,
            receiver_handle: our_handle,
            is_final_reply_for_range,
        } = message;
        match self.state.clear_pending_range_if_some(our_handle, &is_final_reply_for_range) {
            Result::Ok(_) => {},
            Result::Err(e) => {
                proof {
                    assert(self.state.pending_ranges@ == old(self).state.pending_ranges@);
                    if can_clear_pending(
                        old(self).state.pending_ranges@,
                        our_handle,
                        is_final_reply_for_range,
                    ) {
                        let i = choose|i: int|
                            0 <= i < old(self).state.pending_ranges@.len() && pending_matches(
                                #[trigger] old(self).state.pending_ranges@[i],
                                our_handle,
                                is_final_reply_for_range->Some_0,
                            );
                        assert(pending_matches(
                            self.state.pending_ranges@[i],
                            our_handle,
                            is_final_reply_for_range->Some_0,
                        ));
                        assert(false);
                    }
                }
                return Result::Err(e);
            },
        }
        if matches!(self.state.pending_entries, Option::Some(_)) {
            return Result::Err(Error::InvalidMessageInCurrentState);
        }
        let namespace = match self.state.range_is_authorised(&range, our_handle, their_handle) {
            Result::Ok(ns) => ns,
            Result::Err(e) => {
                return Result::Err(e);
            },
        };
        if count != 0 {
            self.state.pending_entries = Option::Some(count);
        }
        if want_response {
            let final_range = range.clone();
            self.announce_and_send_entries(
                &namespace,
                &range,
                our_handle,
                their_handle,
                false,
                Option::Some(final_range),
                Option::None,
            );
            proof {
                let ns = aoi_namespace(old(self).state.our_resources, message.receiver_handle)->Some_0;
                let inc = included_seq(old(self).store_snapshot.entries@, ns, message.range);
                assert(announce_burst(
                    old(self).outbox@,
                    self.outbox@,
                    inc,
                    self.state.static_tokens.ours.values@,
                    message.range,
                    inc.len() as u64,
                    false,
                    message.receiver_handle,
                    message.sender_handle,
                    Option::Some(message.range),
                ));
            }
        }
        Result::Ok(())
    }

    /// The peer's static token named by `handle`, if it has arrived.
    fn get_static_token_eventually(&self, handle: u64) -> (r: Option<crate::wgps::StaticToken>)
        ensures
            match r {
                Option::Some(t) => 1 <= handle <= self.state.static_tokens.theirs.values@.len()
                    && crate::meadowcap::cap_eqv(
                    t,
                    self.state.static_tokens.theirs.values@[handle - 1],
                ),
                Option::None => handle == 0 || handle
                    > self.state.static_tokens.theirs.values@.len(),
            },
    {
        match self.state.static_tokens.get_theirs(handle) {
            Option::Some(t) => Option::Some(t.clone()),
            Option::None => Option::None,
        }
    }

    /// Handles one received entry. A missing static token stashes the
    /// message and asks the caller to wait on that handle; otherwise one
    /// pending entry is consumed, the entry is authorised against the
    /// bound token and ingested under the conflict rule. Failures leave
    /// the writer store untouched: `Unauthorised` means the entry or its
    /// tokens do not check out, `InvalidMessageInCurrentState` that no
    /// announced entry was outstanding.
    fn on_send_entry(&mut self, message: ReconciliationSendEntry) -> (r: Result<
        Option<u64>,
        Error,
    >)
        requires
            old(self).wf(),
        ensures
            final(self).wf(),
            Coroutine::recv_frame(*old(self), *final(self)),
            final(self).channels.control_send == old(self).channels.control_send,
            final(self).channels.reconciliation_send == old(self).channels.reconciliation_send,
            final(self).store_snapshot == old(self).store_snapshot,
            final(self).state.reconciliation_started == old(self).state.reconciliation_started,
            final(self).reveal_sent == old(self).reveal_sent,
            match r {
                Result::Ok(opt) => match opt {
                    Option::Some(h) => {
                        &&& h == message.static_token_handle
                        &&& (h == 0 || h > old(self).state.static_tokens.theirs.values@.len())
                        &&& final(self).stashed_entry == Option::Some(message)
                        &&& final(self).state == old(self).state
                        &&& final(self).store_writer == old(self).store_writer
                        &&& final(self).outbox == old(self).outbox
                    },
                    Option::None => {
                        &&& old(self).state.pending_entries matches Option::Some(c) && c > 0
                            && final(self).state.pending_entries == (if c == 1 {
                            Option::<u64>::None
                        } else {
                            Option::Some((c - 1) as u64)
                        })
                        &&& final(self).stashed_entry is None
                        &&& 1 <= message.static_token_handle <= old(self).state.static_tokens.theirs.values@.len()
                        &&& final(self).outbox == old(self).outbox
                        &&& exists|ae: AuthorisedEntry|
                            {
                                &&& ae.wf()
                                &&& ae.entry == message.entry.entry
                                &&& cap_eqv(
                                    ae.token.capability,
                                    old(self).state.static_tokens.theirs.values@[message.static_token_handle
                                        - 1],
                                )
                                &&& ae.token.signature == message.dynamic_token
                                &&& ingest_post(
                                    old(self).store_writer.entries@,
                                    final(self).store_writer.entries@,
                                    ae,
                                )
                            }
                    },
                },
                Result::Err(e) => {
                    &&& final(self).store_writer == old(self).store_writer
                    &&& final(self).outbox == old(self).outbox
                    &&& (e == Error::Unauthorised || e == Error::InvalidMessageInCurrentState)
                    &&& (e == Error::InvalidMessageInCurrentState <==> (message.entry.entry.wf()
                        && 1 <= message.static_token_handle <= old(self).state.static_tokens.theirs.values@.len() && !(old(self).state.pending_entries matches Option::Some(c) && c > 0)))
                    &&& (e == Error::Unauthorised ==> !message.entry.entry.wf() || (1
                        <= message.static_token_handle <= old(self).state.static_tokens.theirs.values@.len() && !crate::meadowcap::authorised_write(
                        message.entry.entry,
                        (crate::meadowcap::MeadowcapAuthorisationToken {
                            capability: old(self).state.static_tokens.theirs.values@[message.static_token_handle - 1],
                            signature: message.dynamic_token,
                        }),
                    )))
                },
            },
            (message.entry.entry.wf() && 1 <= message.static_token_handle <= old(self).state.static_tokens.theirs.values@.len() && (old(self).state.pending_entries matches Option::Some(c) && c > 0) && !crate::meadowcap::authorised_write(
                message.entry.entry,
                (crate::meadowcap::MeadowcapAuthorisationToken {
                    capability: old(self).state.static_tokens.theirs.values@[message.static_token_handle - 1],
                    signature: message.dynamic_token,
                }),
            )) ==> r == Result::<Option<u64>, Error>::Err(Error::Unauthorised),
    {
        if !message.entry.entry.check_wf() {
            return Result::Err(Error::Unauthorised);
        }
        let handle = message.static_token_handle;
        let static_token = match self.get_static_token_eventually(handle) {
            Option::Some(t) => t,
            Option::None => {
                self.stashed_entry = Option::Some(message);
                return Result::Ok(Option::Some(handle));
            },
        };
        match self.state.on_send_entry() {
            Result::Ok(_) => {},
            Result::Err(e) => {
                return Result::Err(e);
            },
        }
        let ReconciliationSendEntry { entry, static_token_handle: _, dynamic_token } = message;
        let authorised_entry = match AuthorisedEntry::try_from_parts(
            entry.entry,
            static_token,
            dynamic_token,
        ) {
            Result::Ok(ae) => ae,
            Result::Err(_) => {
                proof {
                    crate::meadowcap::lemma_authorised_write_eqv_cap(
                        message.entry.entry,
                        static_token,
                        old(self).state.static_tokens.theirs.values@[message.static_token_handle
                            - 1],
                        message.dynamic_token,
                    );
                }
                return Result::Err(Error::Unauthorised);
            },
        };
        self.store_writer.ingest_entry(&authorised_entry);
        self.stashed_entry = Option::None;
        proof {
            crate::meadowcap::lemma_authorised_write_eqv_cap(
                message.entry.entry,
                authorised_entry.token.capability,
                old(self).state.static_tokens.theirs.values@[message.static_token_handle - 1],
                message.dynamic_token,
            );
            assert(authorised_entry.wf() && authorised_entry.entry == message.entry.entry
                && cap_eqv(
                authorised_entry.token.capability,
                old(self).state.static_tokens.theirs.values@[message.static_token_handle - 1],
            ) && authorised_entry.token.signature == message.dynamic_token && ingest_post(
                old(self).store_writer.entries@,
                self.store_writer.entries@,
                authorised_entry,
            ));
        }
        Result::Ok(Option::None)
    }

    /// Runs the Reconciliation driver until its incoming channel would
    /// block, a resource is awaited, or the channel closes. Optionally
    /// initiates over a pair of area-of-interest handles first; after every
    /// processed message, a complete reconciliation closes the send halves.
    pub fn run_reconciliation(&mut self, start_with_aoi: Option<(u64, u64)>) -> (r: Result<
        CoroutineStatus,
        Error,
    >)
        requires
            old(self).wf(),
        ensures
            final(self).wf(),
            final(self).reveal_sent == old(self).reveal_sent,
            start_with_aoi is Some && r is Ok ==> final(self).state.reconciliation_started,
            match r {
                Result::Ok(status) => match status {
                    CoroutineStatus::Done => final(self).channels.reconciliation_recv.closed
                        && final(self).channels.reconciliation_recv.queue@.len() == 0,
                    CoroutineStatus::Suspended(y) => match y {
                        Yield::Pending(Readyness::Channel(c, i)) => c
                            == LogicalChannel::Reconciliation && match i {
                            Interest::Recv => final(self).channels.reconciliation_recv.queue@.len()
                                == 0 && !final(self).channels.reconciliation_recv.closed && ((
                            final(self).state.reconciliation_started && final(self).state.pending_ranges@.len() == 0 && final(self).state.pending_entries
                                is None) ==> final(self).channels.control_send.closed && final(self).channels.reconciliation_send.closed),
                            Interest::Send => final(self).outbox@.len() > 0,
                        },
                        Yield::Pending(Readyness::Resource(rh)) => rh
                            matches ResourceHandle::StaticToken(h) && final(self).stashed_entry
                            matches Option::Some(m) && m.static_token_handle == h && (h == 0 || h
                            > final(self).state.static_tokens.theirs.values@.len()),
                        Yield::StartReconciliation(_) => false,
                    },
                },
                Result::Err(e) => e == Error::MissingResource || e
                    == Error::AreaOfInterestDoesNotOverlap || e == Error::ChannelClosed || e
                    == Error::Unauthorised || e == Error::InvalidMessageInCurrentState || e
                    == Error::UnsupportedMessage,
            },
            (start_with_aoi is None && old(self).stashed_entry is None && old(self).outbox@.len()
                == 0 && old(self).channels.reconciliation_recv.queue@.len() > 0 && message_channel(
                old(self).channels.reconciliation_recv.queue@[0],
            ) == LogicalChannel::Control) ==> r == Result::<CoroutineStatus, Error>::Err(
                Error::UnsupportedMessage,
            ),
    {
        match start_with_aoi {
            Option::Some(pair) => {
                match self.start_reconciliation(pair.0, pair.1) {
                    Result::Ok(_) => {},
                    Result::Err(e) => {
                        return Result::Err(e);
                    },
                }
            },
            Option::None => {},
        }
        match self.flush_outbox() {
            Result::Ok(true) => {},
            Result::Ok(false) => {
                return Result::Ok(
                    CoroutineStatus::Suspended(
                        Yield::Pending(
                            Readyness::Channel(LogicalChannel::Reconciliation, Interest::Send),
                        ),
                    ),
                );
            },
            Result::Err(e) => {
                return Result::Err(e);
            },
        }
        match self.retry_stashed_entry() {
            Result::Ok(Option::None) => {},
            Result::Ok(Option::Some(handle)) => {
                return Result::Ok(
                    CoroutineStatus::Suspended(
                        Yield::Pending(Readyness::Resource(ResourceHandle::StaticToken(handle))),
                    ),
                );
            },
            Result::Err(e) => {
                return Result::Err(e);
            },
        }
        loop
            invariant
                self.wf(),
                self.reveal_sent == old(self).reveal_sent,
                start_with_aoi is Some ==> self.state.reconciliation_started,
                (start_with_aoi is None && old(self).stashed_entry is None && old(self).outbox@.len() == 0 && old(self).channels.reconciliation_recv.queue@.len() > 0 && message_channel(old(self).channels.reconciliation_recv.queue@[0]) == LogicalChannel::Control) ==> self.channels.reconciliation_recv.queue@ == old(self).channels.reconciliation_recv.queue@,
            decreases self.channels.reconciliation_recv.queue@.len(),
        {
            match self.channels.recv_on(LogicalChannel::Reconciliation) {
                ReadOutcome::Closed => {
                    return Result::Ok(CoroutineStatus::Done);
                },
                ReadOutcome::BufferEmpty => {
                    if self.state.reconciliation_started && self.state.reconciliation_is_complete() {
                        self.channels.close_send();
                    }
                    return Result::Ok(
                        CoroutineStatus::Suspended(
                            Yield::Pending(
                                Readyness::Channel(LogicalChannel::Reconciliation, Interest::Recv),
                            ),
                        ),
                    );
                },
                ReadOutcome::Item(message) => {
                    let waiting = match message {
                        Message::ReconciliationSendFingerprint(msg) => {
                            match self.on_send_fingerprint(msg) {
                                Result::Ok(_) => Option::None,
                                Result::Err(e) => {
                                    return Result::Err(e);
                                },
                            }
                        },
                        Message::ReconciliationAnnounceEntries(msg) => {
                            match self.on_announce_entries(msg) {
                                Result::Ok(_) => Option::None,
                                Result::Err(e) => {
                                    return Result::Err(e);
                                },
                            }
                        },
                        Message::ReconciliationSendEntry(msg) => {
                            match self.on_send_entry(msg) {
                                Result::Ok(w) => w,
                                Result::Err(e) => {
                                    return Result::Err(e);
                                },
                            }
                        },
                        _ => {
                            return Result::Err(Error::UnsupportedMessage);
                        },
                    };
                    match self.flush_outbox() {
                        Result::Ok(true) => {},
                        Result::Ok(false) => {
                            return Result::Ok(
                                CoroutineStatus::Suspended(
                                    Yield::Pending(
                                        Readyness::Channel(
                                            LogicalChannel::Reconciliation,
                                            Interest::Send,
                                        ),
                                    ),
                                ),
                            );
                        },
                        Result::Err(e) => {
                            return Result::Err(e);
                        },
                    }
                    match waiting {
                        Option::Some(handle) => {
                            return Result::Ok(
                                CoroutineStatus::Suspended(
                                    Yield::Pending(
                                        Readyness::Resource(ResourceHandle::StaticToken(handle)),
                                    ),
                                ),
                            );
                        },
                        Option::None => {},
                    }
                    if self.state.reconciliation_is_complete() {
                        self.channels.close_send();
                    }
                },
            }
        }
    }

    /// Retries a stashed entry whose static token was missing: with no
    /// stash or a still-missing token nothing changes, and the awaited
    /// handle is reported; once the token has arrived the entry is
    /// processed exactly as a freshly received one.
    fn retry_stashed_entry(&mut self) -> (r: Result<Option<u64>, Error>)
        requires
            old(self).wf(),
        ensures
            final(self).wf(),
            Coroutine::recv_frame(*old(self), *final(self)),
            final(self).channels.control_send == old(self).channels.control_send,
            final(self).channels.reconciliation_send == old(self).channels.reconciliation_send,
            final(self).store_snapshot == old(self).store_snapshot,
            final(self).state.reconciliation_started == old(self).state.reconciliation_started,
            final(self).reveal_sent == old(self).reveal_sent,
            match r {
                Result::Ok(opt) => match opt {
                    Option::Some(h) => old(self).stashed_entry matches Option::Some(m)
                        && m.static_token_handle == h && (h == 0 || h > old(self).state.static_tokens.theirs.values@.len()) && *final(self) == *old(self),
                    Option::None => match old(self).stashed_entry {
                        Option::None => *final(self) == *old(self),
                        Option::Some(m) => {
                            &&& final(self).stashed_entry is None
                            &&& final(self).outbox == old(self).outbox
                            &&& old(self).state.pending_entries matches Option::Some(c) && c > 0
                            &&& 1 <= m.static_token_handle <= old(self).state.static_tokens.theirs.values@.len()
                            &&& exists|ae: AuthorisedEntry|
                                {
                                    &&& ae.wf()
                                    &&& ae.entry == m.entry.entry
                                    &&& ingest_post(
                                        old(self).store_writer.entries@,
                                        final(self).store_writer.entries@,
                                        ae,
                                    )
                                }
                        },
                    },
                },
                Result::Err(e) => final(self).store_writer == old(self).store_writer && final(self).outbox == old(self).outbox && (e == Error::Unauthorised || e
                    == Error::InvalidMessageInCurrentState),
            },
            old(self).stashed_entry is None ==> r == Result::<Option<u64>, Error>::Ok(
                Option::None,
            ) && *final(self) == *old(self),
    {
        let handle = match &self.stashed_entry {
            Option::None => {
                return Result::Ok(Option::None);
            },
            Option::Some(msg) => msg.static_token_handle,
        };
        if !self.state.static_tokens.theirs.has(handle) {
            return Result::Ok(Option::Some(handle));
        }
        let mut taken: Option<ReconciliationSendEntry> = Option::None;
        core::mem::swap(&mut taken, &mut self.stashed_entry);
        let stashed = match taken {
            Option::Some(m) => m,
            Option::None => {
                return Result::Ok(Option::None);
            },
        };
        match self.on_send_entry(stashed) {
            Result::Ok(w) => Result::Ok(w),
            Result::Err(e) => Result::Err(e),
        }
    }

    /// Runs the Control driver: sends our reveal first, then works through
    /// incoming control messages. Processing a peer area-of-interest
    /// binding suspends with a `StartReconciliation` yield so the scheduler
    /// can hand the pair to the Reconciliation driver.
    pub fn run_control(&mut self) -> (r: Result<CoroutineStatus, Error>)
        requires
            old(self).wf(),
        ensures
            final(self).wf(),
            r is Ok ==> final(self).reveal_sent,
            match r {
                Result::Ok(status) => match status {
                    CoroutineStatus::Done => final(self).channels.control_recv.closed && final(self).channels.control_recv.queue@.len() == 0,
                    CoroutineStatus::Suspended(y) => match y {
                        Yield::Pending(Readyness::Channel(c, i)) => c == LogicalChannel::Control
                            && match i {
                            Interest::Recv => final(self).channels.control_recv.queue@.len() == 0
                                && !final(self).channels.control_recv.closed,
                            Interest::Send => final(self).outbox@.len() > 0,
                        },
                        Yield::Pending(Readyness::Resource(_)) => false,
                        Yield::StartReconciliation(start) => match start {
                            Option::Some(p) => final(self).state.role == Role::Alfie && 1 <= p.0
                                && 1 <= p.1,
                            Option::None => true,
                        },
                    },
                },
                Result::Err(e) => e == Error::InvalidMessageInCurrentState || e
                    == Error::ChannelClosed || e == Error::WrongSecretKeyForCapability || e
                    == Error::InvalidCapability || e == Error::Unauthorised || e
                    == Error::MissingResource || e == Error::UnsupportedMessage,
            },
            (!old(self).reveal_sent && old(self).state.our_commitment_revealed) ==> r
                == Result::<CoroutineStatus, Error>::Err(Error::InvalidMessageInCurrentState)
                && *final(self) == *old(self),
            (!old(self).reveal_sent && !old(self).state.our_commitment_revealed && old(self).outbox@.len() == 0 && !old(self).channels.control_send.closed && old(self).channels.control_send.queue@.len() < old(self).channels.control_send.capacity) ==> (final(self).channels.control_send.queue@.len() > old(self).channels.control_send.queue@.len()
                && (match final(self).channels.control_send.queue@[old(self).channels.control_send.queue@.len() as int] {
                Message::CommitmentReveal(m) => m.nonce@ == old(self).state.our_nonce@,
                _ => false,
            })),
            (old(self).reveal_sent && old(self).outbox@.len() == 0 && old(self).channels.control_recv.queue@.len() > 0) ==> match old(self).channels.control_recv.queue@[0] {
                Message::CommitmentReveal(_) => old(self).state.peer_commitment_received ==> r
                    == Result::<CoroutineStatus, Error>::Err(Error::InvalidMessageInCurrentState),
                Message::SetupBindAreaOfInterest(m) => (1 <= m.authorisation <= old(self).state.their_resources.capabilities.values@.len() && crate::meadowcap::cap_includes_area(
                    old(self).state.their_resources.capabilities.values@[m.authorisation - 1],
                    m.area_of_interest.area,
                )) ==> match r {
                    Result::Ok(CoroutineStatus::Suspended(Yield::StartReconciliation(start))) => final(self).state.their_resources.areas_of_interest.values@ == old(self).state.their_resources.areas_of_interest.values@.push(m) && (
                    start is Some <==> (old(self).state.role == Role::Alfie && exists|g: u64|
                        1 <= g <= old(self).state.our_resources.areas_of_interest.values@.len()
                            && #[trigger] aoi_namespace(old(self).state.our_resources, g)
                            == Option::Some(
                            cap_namespace(
                                old(self).state.their_resources.capabilities.values@[m.authorisation
                                    - 1],
                            ),
                        ))),
                    _ => false,
                },
                _ => message_channel(old(self).channels.control_recv.queue@[0])
                    == LogicalChannel::Reconciliation ==> r == Result::<
                    CoroutineStatus,
                    Error,
                >::Err(Error::UnsupportedMessage),
            },
    {
        if !self.reveal_sent {
            let reveal_message = match self.state.commitment_reveal() {
                Result::Ok(m) => m,
                Result::Err(e) => {
                    return Result::Err(e);
                },
            };
            self.outbox.push(Message::CommitmentReveal(reveal_message));
            self.reveal_sent = true;
        }
        let ghost outbox_before_flush = self.outbox@;
        let ghost control_q_before_flush = self.channels.control_send.queue@;
        let ghost recon_q_before_flush = self.channels.reconciliation_send.queue@;
        let flushed = self.flush_outbox();
        proof {
            if !old(self).reveal_sent && old(self).outbox@.len() == 0 && !old(self).channels.control_send.closed && old(self).channels.control_send.queue@.len() < old(self).channels.control_send.capacity {
                let k = choose|k: int|
                    {
                        &&& 0 <= k <= outbox_before_flush.len()
                        &&& self.outbox@ == outbox_before_flush.skip(k)
                        &&& self.channels.control_send.queue@ == control_q_before_flush + msgs_to(
                            #[trigger] outbox_before_flush.take(k),
                            LogicalChannel::Control,
                        )
                        &&& self.channels.reconciliation_send.queue@ == recon_q_before_flush
                            + msgs_to(
                            outbox_before_flush.take(k),
                            LogicalChannel::Reconciliation,
                        )
                    };
                assert(outbox_before_flush.len() == 1);
                if k == 0 {
                    assert(outbox_before_flush.take(0) =~= Seq::<Message>::empty());
                    assert(msgs_to(Seq::<Message>::empty(), LogicalChannel::Control) =~= Seq::<
                        Message,
                    >::empty());
                    assert(self.channels.control_send.queue@ =~= control_q_before_flush);
                    assert(self.outbox@ =~= outbox_before_flush);
                    assert(message_channel(self.outbox@[0]) == LogicalChannel::Control);
                    match flushed {
                        Result::Ok(b) => {
                            assert(!b);
                            assert(self.channels.control_send.queue@.len()
                                >= self.channels.control_send.capacity);
                            assert(false);
                        },
                        Result::Err(_) => {
                            assert(self.channels.control_send.closed);
                            assert(false);
                        },
                    }
                } else {
                    assert(outbox_before_flush.take(1) =~= outbox_before_flush);
                    assert(outbox_before_flush.drop_last() =~= Seq::<Message>::empty());
                    assert(msgs_to(Seq::<Message>::empty(), LogicalChannel::Control) =~= Seq::<
                        Message,
                    >::empty());
                    assert(message_channel(outbox_before_flush.last())
                        == LogicalChannel::Control);
                    assert(msgs_to(outbox_before_flush, LogicalChannel::Control) =~= Seq::<
                        Message,
                    >::empty().push(outbox_before_flush.last()));
                    assert(self.channels.control_send.queue@.len() == control_q_before_flush.len()
                        + 1);
                    assert(self.channels.control_send.queue@[control_q_before_flush.len() as int]
                        == outbox_before_flush.last());
                }
            }
        }
        match flushed {
            Result::Ok(true) => {},
            Result::Ok(false) => {
                return Result::Ok(
                    CoroutineStatus::Suspended(
                        Yield::Pending(
                            Readyness::Channel(LogicalChannel::Control, Interest::Send),
                        ),
                    ),
                );
            },
            Result::Err(e) => {
                return Result::Err(e);
            },
        }
        loop
            invariant
                self.wf(),
                self.reveal_sent,
                !old(self).reveal_sent ==> !old(self).state.our_commitment_revealed,
                (!old(self).reveal_sent && old(self).outbox@.len() == 0 && !old(self).channels.control_send.closed && old(self).channels.control_send.queue@.len() < old(self).channels.control_send.capacity) ==> (self.channels.control_send.queue@.len() > old(self).channels.control_send.queue@.len()
                    && (match self.channels.control_send.queue@[old(self).channels.control_send.queue@.len() as int] {
                    Message::CommitmentReveal(m) => m.nonce@ == old(self).state.our_nonce@,
                    _ => false,
                })),
                (old(self).reveal_sent && old(self).outbox@.len() == 0 && old(self).channels.control_recv.queue@.len() > 0 && control_head_decides(*old(self))) ==> (self.channels.control_recv.queue@ == old(self).channels.control_recv.queue@ && self.state == old(self).state && self.outbox@ == old(self).outbox@),
            decreases self.channels.control_recv.queue@.len(),
        {
            match self.channels.recv_on(LogicalChannel::Control) {
                ReadOutcome::Closed => {
                    return Result::Ok(CoroutineStatus::Done);
                },
                ReadOutcome::BufferEmpty => {
                    return Result::Ok(
                        CoroutineStatus::Suspended(
                            Yield::Pending(
                                Readyness::Channel(LogicalChannel::Control, Interest::Recv),
                            ),
                        ),
                    );
                },
                ReadOutcome::Item(message) => {
                    let mut start_yield: Option<Option<(u64, u64)>> = Option::None;
                    match message {
                        Message::CommitmentReveal(msg) => {
                            match self.state.on_commitment_reveal(&msg) {
                                Result::Ok(_) => {},
                                Result::Err(e) => {
                                    return Result::Err(e);
                                },
                            }
                            if self.setup_done {
                                return Result::Err(Error::InvalidMessageInCurrentState);
                            }
                            self.setup_done = true;
                            match self.setup() {
                                Result::Ok(_) => {},
                                Result::Err(e) => {
                                    return Result::Err(e);
                                },
                            }
                        },
                        Message::SetupBindReadCapability(msg) => {
                            match self.state.on_setup_bind_read_capability(msg) {
                                Result::Ok(_) => {},
                                Result::Err(e) => {
                                    return Result::Err(e);
                                },
                            }
                        },
                        Message::SetupBindStaticToken(msg) => {
                            self.state.on_setup_bind_static_token(msg);
                        },
                        Message::SetupBindAreaOfInterest(msg) => {
                            match self.state.on_setup_bind_area_of_interest(msg) {
                                Result::Ok(start) => {
                                    start_yield = Option::Some(start);
                                },
                                Result::Err(e) => {
                                    return Result::Err(e);
                                },
                            }
                        },
                        Message::ControlFreeHandle(_msg) => {
                            // handle freeing is reserved; nothing is freed
                        },
                        _ => {
                            return Result::Err(Error::UnsupportedMessage);
                        },
                    }
                    match self.flush_outbox() {
                        Result::Ok(true) => {},
                        Result::Ok(false) => {
                            return Result::Ok(
                                CoroutineStatus::Suspended(
                                    Yield::Pending(
                                        Readyness::Channel(LogicalChannel::Control, Interest::Send),
                                    ),
                                ),
                            );
                        },
                        Result::Err(e) => {
                            return Result::Err(e);
                        },
                    }
                    match start_yield {
                        Option::Some(start) => {
                            return Result::Ok(
                                CoroutineStatus::Suspended(Yield::StartReconciliation(start)),
                            );
                        },
                        Option::None => {},
                    }
                },
            }
        }
    }
}

/// Moves as many queued messages as fit from one channel half to another,
/// oldest first: the destination gains exactly a prefix of the source's
/// queue and the source loses it; movement stops only when the source is
/// drained or the destination is closed or full. When the source is closed
/// and drained, the destination is closed too.
fn transfer(src: &mut Channel, dst: &mut Channel)
    ensures
        final(src).closed == old(src).closed,
        final(src).capacity == old(src).capacity,
        final(dst).capacity == old(dst).capacity,
        exists|n: int|
            {
                &&& 0 <= n <= old(src).queue@.len()
                &&& final(src).queue@ == old(src).queue@.skip(n)
                &&& final(dst).queue@ == old(dst).queue@ + #[trigger] old(src).queue@.take(n)
                &&& (n < old(src).queue@.len() ==> old(dst).closed || final(dst).queue@.len()
                    >= old(dst).capacity)
            },
        final(dst).closed == (old(dst).closed || (old(src).closed && final(src).queue@.len()
            == 0)),
{
    let ghost mut n: int = 0;
    proof {
        assert(src.queue@ =~= old(src).queue@.skip(0));
        assert(old(src).queue@.take(0) =~= Seq::<Message>::empty());
        assert(dst.queue@ =~= old(dst).queue@ + old(src).queue@.take(0));
    }
    loop
        invariant
            src.closed == old(src).closed,
            src.capacity == old(src).capacity,
            dst.capacity == old(dst).capacity,
            dst.closed == old(dst).closed,
            0 <= n <= old(src).queue@.len(),
            src.queue@ == old(src).queue@.skip(n),
            dst.queue@ == old(dst).queue@ + old(src).queue@.take(n),
        ensures
            src.queue@.len() == 0 || dst.closed || dst.queue@.len() >= dst.capacity,
        decreases src.queue@.len(),
    {
        if src.len() == 0 {
            break ;
        }
        if dst.is_closed() {
            break ;
        }
        let dst_full = dst.len() >= dst.capacity;
        if dst_full {
            break ;
        }
        match src.recv_message() {
            ReadOutcome::Item(m) => {
                proof {
                    assert(old(src).queue@.skip(n)[0] == old(src).queue@[n]);
                    assert(src.queue@ =~= old(src).queue@.skip(n + 1));
                }
                let out = dst.send_message(m);
                match out {
                    WriteOutcome::Sent => {
                        proof {
                            assert(old(src).queue@.take(n + 1).drop_last() =~= old(
                                src,
                            ).queue@.take(n));
                            assert(old(src).queue@.take(n + 1).last() == old(src).queue@[n]);
                            assert((old(dst).queue@ + old(src).queue@.take(n)).push(m) =~= old(
                                dst,
                            ).queue@ + old(src).queue@.take(n + 1));
                            n = n + 1;
                        }
                    },
                    WriteOutcome::BufferFull => {
                        // excluded by the capacity check above
                        proof {
                            assert(false);
                        }
                        break ;
                    },
                    WriteOutcome::Closed => {
                        // excluded by the closed check above
                        proof {
                            assert(false);
                        }
                        break ;
                    },
                }
            },
            ReadOutcome::Closed => {
                // excluded by the length check above
                proof {
                    assert(false);
                }
                break ;
            },
            ReadOutcome::BufferEmpty => {
                proof {
                    assert(false);
                }
                break ;
            },
        }
    }
    if src.is_closed() && src.len() == 0 {
        dst.close();
    }
}

/// Delivers each peer's outgoing messages to the other: both of `a`'s send
/// queues flow into `b`'s receive queues and vice versa, each pairing as
/// `transfer` moves it.
fn exchange(a: &mut Coroutine, b: &mut Coroutine)
    ensures
        final(a).store_snapshot == old(a).store_snapshot,
        final(a).store_writer == old(a).store_writer,
        final(a).init == old(a).init,
        final(a).state == old(a).state,
        final(a).outbox == old(a).outbox,
        final(a).stashed_entry == old(a).stashed_entry,
        final(a).setup_done == old(a).setup_done,
        final(a).reveal_sent == old(a).reveal_sent,
        final(b).store_snapshot == old(b).store_snapshot,
        final(b).store_writer == old(b).store_writer,
        final(b).init == old(b).init,
        final(b).state == old(b).state,
        final(b).outbox == old(b).outbox,
        final(b).stashed_entry == old(b).stashed_entry,
        final(b).setup_done == old(b).setup_done,
        final(b).reveal_sent == old(b).reveal_sent,
        exists|n: int|
            0 <= n <= old(a).channels.control_send.queue@.len() && final(b).channels.control_recv.queue@ == old(b).channels.control_recv.queue@ + #[trigger] old(a).channels.control_send.queue@.take(n),
        exists|n: int|
            0 <= n <= old(a).channels.reconciliation_send.queue@.len() && final(b).channels.reconciliation_recv.queue@ == old(b).channels.reconciliation_recv.queue@
                + #[trigger] old(a).channels.reconciliation_send.queue@.take(n),
        exists|n: int|
            0 <= n <= old(b).channels.control_send.queue@.len() && final(a).channels.control_recv.queue@ == old(a).channels.control_recv.queue@ + #[trigger] old(b).channels.control_send.queue@.take(n),
        exists|n: int|
            0 <= n <= old(b).channels.reconciliation_send.queue@.len() && final(a).channels.reconciliation_recv.queue@ == old(a).channels.reconciliation_recv.queue@
                + #[trigger] old(b).channels.reconciliation_send.queue@.take(n),
{
    transfer(&mut a.channels.control_send, &mut b.channels.control_recv);
    transfer(&mut a.channels.reconciliation_send, &mut b.channels.reconciliation_recv);
    transfer(&mut b.channels.control_send, &mut a.channels.control_recv);
    transfer(&mut b.channels.reconciliation_send, &mut a.channels.reconciliation_recv);
}

/// Drives a full session between two peers for at most `fuel` scheduling
/// rounds: each round delivers messages both ways, steps both Control
/// drivers, and steps each Reconciliation driver — with the initiation
/// pair when its Control driver just yielded one.
pub fn run_session(alfie: &mut Coroutine, betty: &mut Coroutine, fuel: u64) -> (r: Result<
    (),
    Error,
>)
    requires
        old(alfie).wf(),
        old(betty).wf(),
    ensures
        final(alfie).wf(),
        final(betty).wf(),
        fuel > 0 && r is Ok ==> final(alfie).reveal_sent && final(betty).reveal_sent,
{
    let mut steps: u64 = 0;
    while steps < fuel
        invariant
            alfie.wf(),
            betty.wf(),
            steps <= fuel,
            steps > 0 ==> alfie.reveal_sent && betty.reveal_sent,
        decreases fuel - steps,
    {
        exchange(alfie, betty);
        let status_a = match alfie.run_control() {
            Result::Ok(s) => s,
            Result::Err(e) => {
                return Result::Err(e);
            },
        };
        let start_a = match status_a {
            CoroutineStatus::Suspended(Yield::StartReconciliation(start)) => start,
            _ => Option::None,
        };
        match alfie.run_reconciliation(start_a) {
            Result::Ok(_) => {},
            Result::Err(e) => {
                return Result::Err(e);
            },
        }
        exchange(alfie, betty);
        let status_b = match betty.run_control() {
            Result::Ok(s) => s,
            Result::Err(e) => {
                return Result::Err(e);
            },
        };
        let start_b = match status_b {
            CoroutineStatus::Suspended(Yield::StartReconciliation(start)) => start,
            _ => Option::None,
        };
        match betty.run_reconciliation(start_b) {
            Result::Ok(_) => {},
            Result::Err(e) => {
                return Result::Err(e);
            },
        }
        steps = steps + 1;
    }
    Result::Ok(())
}

} // verus!
