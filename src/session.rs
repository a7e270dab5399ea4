//! One streaming session: the sender that drains frames into packets and
//! the command watcher that asks it to stop.
//!
//! Both run as cooperative tasks around awaits (the next frame, the next
//! inbound message, a transmit). The decisions between those awaits are
//! made here; the caller performs the awaits and reports what came back.
use vstd::prelude::*;
use crate::engine::Data;
use crate::packet::{MAX_FRAME_SAMPLES, MAX_MTU, PACKET_HEADER_LEN, packet_bytes, packet_count, packetize};

verus! {

/// What the sender does with a packet that the channel cannot take now.
#[derive(PartialEq, Eq, Structural, Clone, Copy, Debug)]
pub enum Backpressure {
    /// Try once; drop the packet when the transmit queue is full.
    DropWhenFull,
    /// Wait for credit from the peer and send it then.
    WaitForCredit,
}

/// What became of one transmit.
#[derive(PartialEq, Eq, Structural, Clone, Copy, Debug)]
pub enum TxOutcome {
    /// The channel took the packet.
    Sent,
    /// The transmit queue was full.
    QueueFull,
    /// The peer is gone or the channel was torn down.
    Disconnected,
}

/// What the sender does after a transmit.
#[derive(PartialEq, Eq, Structural, Clone, Copy, Debug)]
pub enum TxDecision {
    /// Go on with the next packet.
    Continue,
    /// Send the same packet again once there is credit.
    Resend,
}

/// A failure that ends the session.
#[derive(PartialEq, Eq, Structural, Clone, Copy, Debug)]
pub enum SessionError {
    /// The channel is gone.
    Disconnected,
}

/// What the sender does at the top of its loop.
#[derive(PartialEq, Eq, Structural, Clone, Copy, Debug)]
pub enum SessionStep {
    /// Await the next frame.
    ReadFrame,
    /// A stop was asked for: release the engine and end the session.
    Finish,
}

/// State shared by the sender and the command watcher of one session.
pub struct SenderSession {
    mtu: usize,
    policy: Backpressure,
    should_stop: bool,
    next_seq: u8,
    sent: u64,
    dropped: u64,
}

/// `x + 1`, held at `u64::MAX`.
pub open spec fn bump(x: u64) -> u64 {
    if x < u64::MAX {
        (x + 1) as u64
    } else {
        x
    }
}

impl SenderSession {
    pub closed spec fn mtu_spec(&self) -> usize {
        self.mtu
    }

    pub closed spec fn policy_spec(&self) -> Backpressure {
        self.policy
    }

    /// Whether a stop was asked for. Once set it stays set.
    pub closed spec fn stop_spec(&self) -> bool {
        self.should_stop
    }

    /// Sequence byte of the next packet.
    pub closed spec fn next_seq_spec(&self) -> u8 {
        self.next_seq
    }

    pub closed spec fn sent_spec(&self) -> u64 {
        self.sent
    }

    pub closed spec fn dropped_spec(&self) -> u64 {
        self.dropped
    }

    /// The MTU fits the header and at least one sample.
    pub closed spec fn wf(&self) -> bool {
        PACKET_HEADER_LEN + 2 <= self.mtu <= MAX_MTU
    }

    /// A session on a channel of `mtu` bytes per packet.
    pub fn new(mtu: usize, policy: Backpressure) -> (r: SenderSession)
        requires
            PACKET_HEADER_LEN + 2 <= mtu <= MAX_MTU,
        ensures
            r.wf(),
            r.mtu_spec() == mtu,
            r.policy_spec() == policy,
            !r.stop_spec(),
            r.next_seq_spec() == 0,
            r.sent_spec() == 0,
            r.dropped_spec() == 0,
    {
        SenderSession { mtu, policy, should_stop: false, next_seq: 0, sent: 0, dropped: 0 }
    }

    /// Whether a stop was asked for.
    pub fn should_stop(&self) -> (r: bool)
        ensures
            r == self.stop_spec(),
    {
        self.should_stop
    }

    /// Packets handed to the channel.
    pub fn sent(&self) -> (r: u64)
        ensures
            r == self.sent_spec(),
    {
        self.sent
    }

    /// Packets dropped on a full transmit queue.
    pub fn dropped(&self) -> (r: u64)
        ensures
            r == self.dropped_spec(),
    {
        self.dropped
    }

    /// The command watcher saw an inbound message: whatever it holds, its
    /// arrival asks the sender to stop.
    pub fn receive_command(&mut self)
        ensures
            final(self).stop_spec(),
            final(self).wf() == old(self).wf(),
            final(self).mtu_spec() == old(self).mtu_spec(),
            final(self).policy_spec() == old(self).policy_spec(),
            final(self).next_seq_spec() == old(self).next_seq_spec(),
            final(self).sent_spec() == old(self).sent_spec(),
            final(self).dropped_spec() == old(self).dropped_spec(),
    {
        self.should_stop = true;
    }

    /// The sender's decision at the top of its loop: finish once a stop was
    /// asked for, else await the next frame.
    pub fn next_step(&self) -> (r: SessionStep)
        ensures
            r == (if self.stop_spec() {
                SessionStep::Finish
            } else {
                SessionStep::ReadFrame
            }),
    {
        if self.should_stop {
            SessionStep::Finish
        } else {
            SessionStep::ReadFrame
        }
    }

    /// The packets to send for a drained frame, numbered on from the
    /// session's sequence byte, which then moves past them (mod 256). After
    /// a stop nothing more is sent: the result is empty and nothing changes.
    pub fn frame_packets(&mut self, frame: &Data) -> (r: Vec<Vec<u8>>)
        requires
            old(self).wf(),
            frame.frames@.len() <= MAX_FRAME_SAMPLES,
        ensures
            final(self).wf(),
            final(self).mtu_spec() == old(self).mtu_spec(),
            final(self).policy_spec() == old(self).policy_spec(),
            final(self).stop_spec() == old(self).stop_spec(),
            final(self).sent_spec() == old(self).sent_spec(),
            final(self).dropped_spec() == old(self).dropped_spec(),
            old(self).stop_spec() ==> r@.len() == 0 && final(self).next_seq_spec()
                == old(self).next_seq_spec(),
            !old(self).stop_spec() ==> {
                &&& r@.len() == packet_count(frame.frames@.len() as int, old(self).mtu_spec() as int)
                &&& forall|i: int|
                    0 <= i < r@.len() ==> #[trigger] r@[i]@ == packet_bytes(
                        frame.frames@,
                        frame.channels as int,
                        old(self).mtu_spec() as int,
                        old(self).next_seq_spec() as int,
                        i,
                    )
                &&& final(self).next_seq_spec() == (old(self).next_seq_spec() + r@.len()) % 256
            },
    {
        if self.should_stop {
            return Vec::new();
        }
        let r = packetize(frame, self.mtu, self.next_seq);
        self.next_seq = ((self.next_seq as usize + r.len() % 256) % 256) as u8;
        r
    }

    /// The decision after a transmit. A sent packet is counted. A full queue
    /// drops the packet under `DropWhenFull` (counted) and asks for a resend
    /// under `WaitForCredit`. A lost channel ends the session.
    pub fn on_tx_result(&mut self, outcome: TxOutcome) -> (r: Result<TxDecision, SessionError>)
        ensures
            final(self).wf() == old(self).wf(),
            final(self).mtu_spec() == old(self).mtu_spec(),
            final(self).policy_spec() == old(self).policy_spec(),
            final(self).stop_spec() == old(self).stop_spec(),
            final(self).next_seq_spec() == old(self).next_seq_spec(),
            outcome == TxOutcome::Sent ==> r is Ok && r->Ok_0 == TxDecision::Continue
                && final(self).sent_spec() == bump(old(self).sent_spec())
                && final(self).dropped_spec() == old(self).dropped_spec(),
            outcome == TxOutcome::QueueFull && old(self).policy_spec() == Backpressure::DropWhenFull
                ==> r is Ok && r->Ok_0 == TxDecision::Continue
                && final(self).dropped_spec() == bump(old(self).dropped_spec())
                && final(self).sent_spec() == old(self).sent_spec(),
            outcome == TxOutcome::QueueFull && old(self).policy_spec() == Backpressure::WaitForCredit
                ==> r is Ok && r->Ok_0 == TxDecision::Resend
                && final(self).dropped_spec() == old(self).dropped_spec()
                && final(self).sent_spec() == old(self).sent_spec(),
            outcome == TxOutcome::Disconnected ==> r is Err && r->Err_0 == SessionError::Disconnected && final(self).dropped_spec() == old(self).dropped_spec()
                && final(self).sent_spec() == old(self).sent_spec(),
    {
        match outcome {
            TxOutcome::Sent => {
                if self.sent < u64::MAX {
                    self.sent = self.sent + 1;
                }
                Ok(TxDecision::Continue)
            },
            TxOutcome::QueueFull => match self.policy {
                Backpressure::DropWhenFull => {
                    if self.dropped < u64::MAX {
                        self.dropped = self.dropped + 1;
                    }
                    Ok(TxDecision::Continue)
                },
                Backpressure::WaitForCredit => Ok(TxDecision::Resend),
            },
            TxOutcome::Disconnected => Err(SessionError::Disconnected),
        }
    }
}

} // verus!
