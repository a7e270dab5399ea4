//! Ordering of frame delivery over a whole run.
//!
//! A run is a sequence of events: a buffer boundary, where the engine numbers
//! a frame and offers it to the queue ([`crate::engine::SpiBuffers::update`]
//! with [`crate::queue::FrameQueue::try_push`]), or a consumer taking the
//! oldest frame ([`crate::queue::FrameQueue::try_pop`]). Sequence numbers are
//! counted here without wrapping; the engine carries them in a `usize`,
//! so modulo `2^32` on a 32-bit target.
use vstd::prelude::*;
use crate::engine::{Data, frame_offered};
use crate::queue::offered;

verus! {

/// Where the frames of a run have gone.
pub ghost struct DeliveryState {
    /// Sequence number of the next frame.
    pub next: int,
    /// Numbers of the frames waiting in the queue, oldest first.
    pub queued: Seq<int>,
    /// Numbers of the frames handed to consumers, in order.
    pub delivered: Seq<int>,
    /// Frames rejected by a full queue.
    pub drops: int,
}

/// The state after one event: `true` is a buffer boundary, `false` a
/// consumer taking a frame.
pub open spec fn delivery_step(capacity: nat, st: DeliveryState, boundary: bool) -> DeliveryState {
    if boundary {
        DeliveryState {
            next: st.next + 1,
            queued: offered(st.queued, capacity, st.next),
            drops: if st.queued.len() < capacity {
                st.drops
            } else {
                st.drops + 1
            },
            ..st
        }
    } else if st.queued.len() > 0 {
        DeliveryState {
            queued: st.queued.drop_first(),
            delivered: st.delivered.push(st.queued[0]),
            ..st
        }
    } else {
        st
    }
}

/// The state after a run of events from a fresh start.
pub open spec fn delivery_run(capacity: nat, events: Seq<bool>) -> DeliveryState
    decreases events.len(),
{
    if events.len() == 0 {
        DeliveryState { next: 0, queued: Seq::empty(), delivered: Seq::empty(), drops: 0 }
    } else {
        delivery_step(capacity, delivery_run(capacity, events.drop_last()), events.last())
    }
}

/// The sequence numbers of the frames in a queue, oldest first.
pub open spec fn sequence_numbers(q: Seq<Data>) -> Seq<int> {
    q.map_values(|d: Data| d.sequence_number as int)
}

/// A buffer boundary moves the queue's sequence numbers as a boundary event
/// of a run does: the frame's number is offered to the queue.
pub proof fn lemma_boundary_is_delivery_step(
    before: Seq<Data>,
    after: Seq<Data>,
    capacity: nat,
    channels: usize,
    seq: usize,
    samples: Seq<u16>,
)
    requires
        frame_offered(before, after, capacity, channels, seq, samples),
    ensures
        sequence_numbers(after) == offered(sequence_numbers(before), capacity, seq as int),
{
    if before.len() < capacity {
        assert(after =~= before.push(after.last()));
        assert(sequence_numbers(after) =~= sequence_numbers(before).push(seq as int));
    }
}

/// Taking the oldest frame moves the queue's sequence numbers as a consumer
/// event of a run does.
pub proof fn lemma_take_is_delivery_step(before: Seq<Data>)
    requires
        before.len() > 0,
    ensures
        sequence_numbers(before.drop_first()) == sequence_numbers(before).drop_first(),
        sequence_numbers(before)[0] == before[0].sequence_number,
{
    assert(sequence_numbers(before.drop_first()) =~= sequence_numbers(before).drop_first());
}

/// Strictly increasing.
pub open spec fn increasing(s: Seq<int>) -> bool {
    forall|i: int, j: int| 0 <= i < j < s.len() ==> s[i] < s[j]
}

/// Over any run with the engine never stopped, the frames delivered and
/// still queued carry strictly increasing sequence numbers, all of them
/// issued, and the numbers missing among them are exactly as many as the
/// frames a full queue dropped.
pub proof fn lemma_delivery_in_order(capacity: nat, events: Seq<bool>)
    ensures
        ({
            let st = delivery_run(capacity, events);
            &&& increasing(st.delivered + st.queued)
            &&& forall|i: int|
                0 <= i < (st.delivered + st.queued).len() ==> 0 <= #[trigger] (st.delivered
                    + st.queued)[i] < st.next
            &&& st.drops == st.next - (st.delivered + st.queued).len()
            &&& 0 <= st.drops
        }),
    decreases events.len(),
{
    if events.len() > 0 {
        lemma_delivery_in_order(capacity, events.drop_last());
        let st = delivery_run(capacity, events.drop_last());
        let all = st.delivered + st.queued;
        let nx = delivery_step(capacity, st, events.last());
        assert(delivery_run(capacity, events) == nx);
        if events.last() {
            if st.queued.len() < capacity {
                let b = all.push(st.next);
                assert(nx.delivered + nx.queued =~= b);
                assert forall|i: int, j: int| 0 <= i < j < b.len() implies b[i] < b[j] by {
                    if j < all.len() {
                        assert(all[i] < all[j]);
                    } else {
                        assert(b[i] == all[i]);
                        assert(0 <= all[i] < st.next);
                    }
                }
                assert forall|i: int| 0 <= i < b.len() implies 0 <= #[trigger] b[i] < nx.next by {
                    if i < all.len() {
                        assert(b[i] == all[i]);
                        assert(0 <= all[i] < st.next);
                    } else {
                        assert(b[i] == st.next);
                        assert(st.next >= all.len());
                    }
                }
            } else {
                assert(nx.delivered + nx.queued =~= all);
            }
        } else if st.queued.len() > 0 {
            assert(nx.delivered + nx.queued =~= all);
        }
    }
}

} // verus!
