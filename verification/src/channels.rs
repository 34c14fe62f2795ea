//! Bounded, in-memory, message-granular channels. A session owns four
//! halves: a send and a receive channel for each of the Control and
//! Reconciliation channels. Sending reports `Sent`, `BufferFull` or
//! `Closed`; receiving drains queued messages before reporting `Closed`.

use vstd::prelude::*;
use crate::wgps::LogicalChannel;
use crate::wgps::Message;

verus! {

/// The outcome of a send attempt.
#[derive(Debug)]
pub enum WriteOutcome {
    Sent,
    BufferFull,
    Closed,
}

/// The outcome of a receive attempt.
#[derive(Debug)]
pub enum ReadOutcome {
    Item(Message),
    BufferEmpty,
    Closed,
}

/// One direction of a bounded in-memory channel.
#[derive(Debug)]
pub struct Channel {
    pub queue: Vec<Message>,
    pub closed: bool,
    pub capacity: usize,
}

impl Channel {
    /// An open channel that can hold up to `capacity` queued messages.
    pub fn new(capacity: usize) -> (r: Channel)
        ensures
            r.queue@.len() == 0,
            !r.closed,
            r.capacity == capacity,
    {
        Channel { queue: Vec::new(), closed: false, capacity }
    }

    /// Enqueues a message unless the channel is closed or full.
    pub fn send_message(&mut self, msg: Message) -> (r: WriteOutcome)
        ensures
            final(self).closed == old(self).closed,
            final(self).capacity == old(self).capacity,
            match r {
                WriteOutcome::Closed => old(self).closed && final(self).queue@ == old(self).queue@,
                WriteOutcome::BufferFull => !old(self).closed && old(self).queue@.len() >= old(self).capacity && final(self).queue@ == old(self).queue@,
                WriteOutcome::Sent => !old(self).closed && old(self).queue@.len() < old(self).capacity && final(self).queue@ == old(self).queue@.push(msg),
            },
    {
        if self.closed {
            WriteOutcome::Closed
        } else if self.queue.len() >= self.capacity {
            WriteOutcome::BufferFull
        } else {
            self.queue.push(msg);
            WriteOutcome::Sent
        }
    }

    /// Dequeues the oldest message; an empty channel reports `Closed` only
    /// once closed, `BufferEmpty` otherwise.
    pub fn recv_message(&mut self) -> (r: ReadOutcome)
        ensures
            final(self).closed == old(self).closed,
            final(self).capacity == old(self).capacity,
            match r {
                ReadOutcome::Item(m) => old(self).queue@.len() > 0 && m == old(self).queue@[0]
                    && final(self).queue@ == old(self).queue@.skip(1),
                ReadOutcome::Closed => old(self).queue@.len() == 0 && old(self).closed && final(self).queue@ == old(self).queue@,
                ReadOutcome::BufferEmpty => old(self).queue@.len() == 0 && !old(self).closed
                    && final(self).queue@ == old(self).queue@,
            },
    {
        if self.queue.len() > 0 {
            let m = self.queue.remove(0);
            proof {
                assert(self.queue@ =~= old(self).queue@.skip(1));
            }
            ReadOutcome::Item(m)
        } else if self.closed {
            ReadOutcome::Closed
        } else {
            ReadOutcome::BufferEmpty
        }
    }

    /// Closes the channel; idempotent. Queued messages stay readable.
    pub fn close(&mut self)
        ensures
            final(self).closed,
            final(self).queue@ == old(self).queue@,
            final(self).capacity == old(self).capacity,
    {
        self.closed = true;
    }

    /// How many messages are queued.
    pub fn len(&self) -> (r: usize)
        ensures
            r == self.queue@.len(),
    {
        self.queue.len()
    }

    /// Whether the channel is closed.
    pub fn is_closed(&self) -> (r: bool)
        ensures
            r == self.closed,
    {
        self.closed
    }
}

/// The four channel halves a session works with: its outgoing and incoming
/// sides of the Control and Reconciliation channels.
#[derive(Debug)]
pub struct Channels {
    pub control_send: Channel,
    pub control_recv: Channel,
    pub reconciliation_send: Channel,
    pub reconciliation_recv: Channel,
}

impl Channels {
    /// Four open channels of the same capacity.
    pub fn new(capacity: usize) -> (r: Channels)
        ensures
            r.control_send.queue@.len() == 0 && !r.control_send.closed,
            r.control_recv.queue@.len() == 0 && !r.control_recv.closed,
            r.reconciliation_send.queue@.len() == 0 && !r.reconciliation_send.closed,
            r.reconciliation_recv.queue@.len() == 0 && !r.reconciliation_recv.closed,
            r.control_send.capacity == capacity && r.control_recv.capacity == capacity
                && r.reconciliation_send.capacity == capacity && r.reconciliation_recv.capacity
                == capacity,
    {
        Channels {
            control_send: Channel::new(capacity),
            control_recv: Channel::new(capacity),
            reconciliation_send: Channel::new(capacity),
            reconciliation_recv: Channel::new(capacity),
        }
    }

    /// Closes all four halves.
    pub fn close_all(&mut self)
        ensures
            final(self).control_send.closed && final(self).control_recv.closed && final(self).reconciliation_send.closed && final(self).reconciliation_recv.closed,
            final(self).control_send.queue@ == old(self).control_send.queue@,
            final(self).control_recv.queue@ == old(self).control_recv.queue@,
            final(self).reconciliation_send.queue@ == old(self).reconciliation_send.queue@,
            final(self).reconciliation_recv.queue@ == old(self).reconciliation_recv.queue@,
            final(self).control_send.capacity == old(self).control_send.capacity,
            final(self).control_recv.capacity == old(self).control_recv.capacity,
            final(self).reconciliation_send.capacity == old(self).reconciliation_send.capacity,
            final(self).reconciliation_recv.capacity == old(self).reconciliation_recv.capacity,
    {
        self.control_send.close();
        self.control_recv.close();
        self.reconciliation_send.close();
        self.reconciliation_recv.close();
    }

    /// Closes the two send halves.
    pub fn close_send(&mut self)
        ensures
            final(self).control_send.closed && final(self).reconciliation_send.closed,
            final(self).control_recv == old(self).control_recv,
            final(self).reconciliation_recv == old(self).reconciliation_recv,
            final(self).control_send.queue@ == old(self).control_send.queue@,
            final(self).reconciliation_send.queue@ == old(self).reconciliation_send.queue@,
            final(self).control_send.capacity == old(self).control_send.capacity,
            final(self).reconciliation_send.capacity == old(self).reconciliation_send.capacity,
    {
        self.control_send.close();
        self.reconciliation_send.close();
    }

    /// The send half of the given logical channel.
    pub fn sender(&self, channel: LogicalChannel) -> (r: &Channel)
        ensures
            r == if channel == LogicalChannel::Control {
                &self.control_send
            } else {
                &self.reconciliation_send
            },
    {
        match channel {
            LogicalChannel::Control => &self.control_send,
            LogicalChannel::Reconciliation => &self.reconciliation_send,
        }
    }

    /// The receive half of the given logical channel.
    pub fn receiver(&self, channel: LogicalChannel) -> (r: &Channel)
        ensures
            r == if channel == LogicalChannel::Control {
                &self.control_recv
            } else {
                &self.reconciliation_recv
            },
    {
        match channel {
            LogicalChannel::Control => &self.control_recv,
            LogicalChannel::Reconciliation => &self.reconciliation_recv,
        }
    }

    /// Sends on the given logical channel.
    pub fn send_on(&mut self, channel: LogicalChannel, msg: Message) -> (r: WriteOutcome)
        ensures
            channel == LogicalChannel::Control ==> final(self).reconciliation_send == old(self).reconciliation_send,
            channel == LogicalChannel::Reconciliation ==> final(self).control_send == old(self).control_send,
            final(self).control_recv == old(self).control_recv,
            final(self).reconciliation_recv == old(self).reconciliation_recv,
            ({
                let before = if channel == LogicalChannel::Control {
                    old(self).control_send
                } else {
                    old(self).reconciliation_send
                };
                let after = if channel == LogicalChannel::Control {
                    final(self).control_send
                } else {
                    final(self).reconciliation_send
                };
                &&& after.closed == before.closed
                &&& after.capacity == before.capacity
                &&& match r {
                    WriteOutcome::Closed => before.closed && after.queue@ == before.queue@,
                    WriteOutcome::BufferFull => !before.closed && before.queue@.len()
                        >= before.capacity && after.queue@ == before.queue@,
                    WriteOutcome::Sent => !before.closed && before.queue@.len() < before.capacity
                        && after.queue@ == before.queue@.push(msg),
                }
            }),
    {
        match channel {
            LogicalChannel::Control => self.control_send.send_message(msg),
            LogicalChannel::Reconciliation => self.reconciliation_send.send_message(msg),
        }
    }

    /// Receives on the given logical channel.
    pub fn recv_on(&mut self, channel: LogicalChannel) -> (r: ReadOutcome)
        ensures
            channel == LogicalChannel::Control ==> final(self).reconciliation_recv == old(self).reconciliation_recv,
            channel == LogicalChannel::Reconciliation ==> final(self).control_recv == old(self).control_recv,
            final(self).control_send == old(self).control_send,
            final(self).reconciliation_send == old(self).reconciliation_send,
            ({
                let before = if channel == LogicalChannel::Control {
                    old(self).control_recv
                } else {
                    old(self).reconciliation_recv
                };
                let after = if channel == LogicalChannel::Control {
                    final(self).control_recv
                } else {
                    final(self).reconciliation_recv
                };
                &&& after.closed == before.closed
                &&& after.capacity == before.capacity
                &&& match r {
                    ReadOutcome::Item(m) => before.queue@.len() > 0 && m == before.queue@[0]
                        && after.queue@ == before.queue@.skip(1),
                    ReadOutcome::Closed => before.queue@.len() == 0 && before.closed && after.queue@
                        == before.queue@,
                    ReadOutcome::BufferEmpty => before.queue@.len() == 0 && !before.closed
                        && after.queue@ == before.queue@,
                }
            }),
    {
        match channel {
            LogicalChannel::Control => self.control_recv.recv_message(),
            LogicalChannel::Reconciliation => self.reconciliation_recv.recv_message(),
        }
    }
}

} // verus!
