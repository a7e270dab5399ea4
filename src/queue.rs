//! The bounded queue that carries frames from the interrupt to the task.
//!
//! The queue is an `embassy_sync` channel guarded by a critical section. The
//! producer never blocks: a frame offered to a full queue is rejected and
//! counted as lost.
use vstd::prelude::*;
use embassy_sync::blocking_mutex::raw::CriticalSectionRawMutex;
use embassy_sync::channel::{Channel, TryReceiveError, TrySendError};
use crate::engine::Data;

verus! {

/// Slots of the channel behind every frame queue.
pub const CHANNEL_SLOTS: usize = 16;

/// The `embassy_sync` channel behind a frame queue, guarded by a critical
/// section so that an interrupt may push while a task receives.
#[verifier::external_body]
pub struct FrameChannel {
    inner: Channel<CriticalSectionRawMutex, Data, CHANNEL_SLOTS>,
}

/// The frames that a channel holds, oldest first.
pub uninterp spec fn channel_frames(c: FrameChannel) -> Seq<Data>;

/// Relies on `Channel::new`: a new channel holds nothing.
#[verifier::external_body]
fn channel_new() -> (c: FrameChannel)
    ensures
        channel_frames(c) == Seq::<Data>::empty(),
{
    FrameChannel { inner: Channel::new() }
}

/// Relies on `Channel::try_send`: the frame is appended when fewer than
/// `CHANNEL_SLOTS` frames are held, and handed back otherwise.
#[verifier::external_body]
fn channel_try_send(c: &mut FrameChannel, d: Data) -> (r: Result<(), Data>)
    ensures
        channel_frames(*old(c)).len() < CHANNEL_SLOTS ==> r is Ok && channel_frames(*final(c))
            == channel_frames(*old(c)).push(d),
        channel_frames(*old(c)).len() >= CHANNEL_SLOTS ==> r is Err && r->Err_0 == d
            && channel_frames(*final(c)) == channel_frames(*old(c)),
{
    match c.inner.try_send(d) {
        Ok(()) => Ok(()),
        Err(TrySendError::Full(d)) => Err(d),
    }
}

/// Relies on `Channel::try_receive`: the oldest frame leaves, or nothing
/// when the channel is empty.
#[verifier::external_body]
fn channel_try_receive(c: &mut FrameChannel) -> (r: Option<Data>)
    ensures
        channel_frames(*old(c)).len() == 0 ==> r is None && channel_frames(*final(c))
            == channel_frames(*old(c)),
        channel_frames(*old(c)).len() > 0 ==> r == Some(channel_frames(*old(c))[0])
            && channel_frames(*final(c)) == channel_frames(*old(c)).drop_first(),
{
    match c.inner.try_receive() {
        Ok(d) => Some(d),
        Err(TryReceiveError::Empty) => None,
    }
}

/// Single-producer bounded queue of frames with a count of lost frames.
pub struct FrameQueue {
    channel: FrameChannel,
    len: usize,
    capacity: usize,
    lost: u64,
}

impl View for FrameQueue {
    type V = Seq<Data>;

    /// The frames held, oldest first.
    closed spec fn view(&self) -> Seq<Data> {
        channel_frames(self.channel)
    }
}

/// The queue after offering `d`: appended when there is room.
pub open spec fn offered<T>(q: Seq<T>, capacity: nat, d: T) -> Seq<T> {
    if q.len() < capacity {
        q.push(d)
    } else {
        q
    }
}

impl FrameQueue {
    /// The queue's bookkeeping agrees with its channel.
    pub closed spec fn wf(&self) -> bool {
        &&& self.len == channel_frames(self.channel).len()
        &&& 1 <= self.capacity <= CHANNEL_SLOTS
    }

    /// Slots that the queue was made with.
    pub closed spec fn capacity_spec(&self) -> nat {
        self.capacity as nat
    }

    /// Frames rejected so far because the queue was full.
    pub closed spec fn lost_spec(&self) -> nat {
        self.lost as nat
    }

    /// An empty queue with `capacity` slots, at most `CHANNEL_SLOTS`.
    pub fn new(capacity: usize) -> (q: FrameQueue)
        requires
            1 <= capacity <= CHANNEL_SLOTS,
        ensures
            q.wf(),
            q@ == Seq::<Data>::empty(),
            q.capacity_spec() == capacity,
            q.lost_spec() == 0,
    {
        FrameQueue { channel: channel_new(), len: 0, capacity, lost: 0 }
    }

    /// Number of frames held.
    pub fn len(&self) -> (r: usize)
        requires
            self.wf(),
        ensures
            r == self@.len(),
    {
        self.len
    }

    /// Whether no frame is held.
    pub fn is_empty(&self) -> (r: bool)
        requires
            self.wf(),
        ensures
            r == (self@.len() == 0),
    {
        self.len == 0
    }

    /// Slots that the queue was made with.
    pub fn capacity(&self) -> (r: usize)
        ensures
            r == self.capacity_spec(),
    {
        self.capacity
    }

    /// Frames rejected so far because the queue was full.
    pub fn lost(&self) -> (r: u64)
        ensures
            r == self.lost_spec(),
    {
        self.lost
    }

    /// Offers a frame without blocking. A full queue keeps its frames, drops
    /// the new one and counts the loss (saturating at `u64::MAX`).
    pub fn try_push(&mut self, d: Data) -> (r: bool)
        requires
            old(self).wf(),
        ensures
            final(self).wf(),
            final(self).capacity_spec() == old(self).capacity_spec(),
            r == (old(self)@.len() < old(self).capacity_spec()),
            final(self)@ == offered(old(self)@, old(self).capacity_spec(), d),
            r ==> final(self).lost_spec() == old(self).lost_spec(),
            !r ==> final(self).lost_spec() == if old(self).lost_spec() < u64::MAX {
                old(self).lost_spec() + 1
            } else {
                old(self).lost_spec()
            },
    {
        if self.len < self.capacity {
            let sent = channel_try_send(&mut self.channel, d);
            assert(sent is Ok);
            self.len = self.len + 1;
            true
        } else {
            if self.lost < u64::MAX {
                self.lost = self.lost + 1;
            }
            false
        }
    }

    /// Takes the oldest frame, if any.
    pub fn try_pop(&mut self) -> (r: Option<Data>)
        requires
            old(self).wf(),
        ensures
            final(self).wf(),
            final(self).capacity_spec() == old(self).capacity_spec(),
            final(self).lost_spec() == old(self).lost_spec(),
            old(self)@.len() == 0 ==> r is None && final(self)@ == old(self)@,
            old(self)@.len() > 0 ==> r == Some(old(self)@[0]) && final(self)@ == old(self)@.drop_first(),
    {
        let r = channel_try_receive(&mut self.channel);
        if r.is_some() {
            self.len = self.len - 1;
        }
        r
    }

    /// Removes every frame held, so that a new session starts from an empty
    /// queue. Returns how many were removed.
    pub fn drain(&mut self) -> (n: usize)
        requires
            old(self).wf(),
        ensures
            final(self).wf(),
            final(self)@.len() == 0,
            n == old(self)@.len(),
            final(self).capacity_spec() == old(self).capacity_spec(),
            final(self).lost_spec() == old(self).lost_spec(),
    {
        let mut n: usize = 0;
        while self.len > 0
            invariant
                old(self).wf(),
                self.wf(),
                n + self@.len() == old(self)@.len(),
                self.capacity_spec() == old(self).capacity_spec(),
                self.lost_spec() == old(self).lost_spec(),
            decreases self@.len(),
        {
            let _ = self.try_pop();
            n = n + 1;
        }
        n
    }
}

} // verus!
