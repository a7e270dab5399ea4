//! Decisions of the dongle side: how a message is cut into USB packets,
//! when a read is complete, whether the host is still listening, and when to
//! ask the brain interface to stop; and the status LED pattern.
use vstd::prelude::*;

verus! {

/// Chunk `k` of a message of `len` bytes cut at `size` bytes per packet.
pub open spec fn chunk_bounds(len: int, size: int, k: int) -> (usize, usize) {
    let lo = k * size;
    let hi = if (k + 1) * size <= len {
        (k + 1) * size
    } else {
        len
    };
    (lo as usize, hi as usize)
}

/// The packets that carry a message of `len` bytes over an endpoint of
/// `size` bytes per packet, as `(start, end)` ranges: full packets, then
/// one short packet that ends the message (empty when `len` is a multiple
/// of `size`, so the host sees where the message ends).
pub fn write_chunks(len: usize, size: usize) -> (r: Vec<(usize, usize)>)
    requires
        1 <= size,
        len + size <= usize::MAX,
    ensures
        r@.len() == len / size + 1,
        forall|k: int| 0 <= k < r@.len() ==> #[trigger] r@[k] == chunk_bounds(len as int, size as int, k),
{
    let mut out: Vec<(usize, usize)> = Vec::new();
    let mut start: usize = 0;
    let ghost mut k: int = 0;
    while start <= len
        invariant
            1 <= size,
            len + size <= usize::MAX,
            start == k * size,
            out@.len() == k,
            k <= len / size + 1,
            start <= len ==> k <= len / size,
            start > len ==> k == len / size + 1,
            forall|j: int| 0 <= j < out@.len() ==> #[trigger] out@[j] == chunk_bounds(len as int, size as int, j),
        decreases len + size - start,
    {
        let end = start + size;
        let hi = if end <= len { end } else { len };
        out.push((start, hi));
        proof {
            assert((k + 1) * size == k * size + size) by (nonlinear_arith);
            let q = len / size;
            if end <= len {
                assert(k + 1 <= q) by (nonlinear_arith)
                    requires
                        (k + 1) * size <= len,
                        q == len / size,
                        size >= 1,
                ;
            } else {
                assert(k == q) by (nonlinear_arith)
                    requires
                        k * size <= len,
                        (k + 1) * size > len,
                        q == len / size,
                        size >= 1,
                ;
            }
            k = k + 1;
        }
        start = end;
    }
    out
}

/// A message read ends with a packet shorter than the endpoint's size.
pub fn read_done(received: usize, size: usize) -> (r: bool)
    ensures
        r == (received < size),
{
    received < size
}

/// Whether the host was active within `timeout` ticks before `now`, given
/// the time of its last activity, if any.
pub fn usb_active(last_activity: Option<u64>, now: u64, timeout: u64) -> (r: bool)
    ensures
        r == (last_activity is Some && last_activity->Some_0 + timeout > now),
{
    match last_activity {
        None => false,
        Some(t) => t > now || now - t < timeout,
    }
}

/// The dongle's side of a connection: it asks the brain interface to stop
/// once, when the host stops listening.
pub struct ConnectionState {
    stopped: bool,
}

impl ConnectionState {
    pub closed spec fn stopped_spec(&self) -> bool {
        self.stopped
    }

    /// A connection that has not asked for a stop.
    pub fn new() -> (r: ConnectionState)
        ensures
            !r.stopped_spec(),
    {
        ConnectionState { stopped: false }
    }

    /// Before each receive: whether to send the stop command now. It is sent
    /// when the host is inactive, and only once per connection.
    pub fn stop_needed(&mut self, host_active: bool) -> (r: bool)
        ensures
            r == (!host_active && !old(self).stopped_spec()),
            final(self).stopped_spec() == (old(self).stopped_spec() || r),
    {
        if !host_active && !self.stopped {
            self.stopped = true;
            true
        } else {
            false
        }
    }
}

/// The status LED at step `step` of its four-step cycle: lit on even steps,
/// and always while the charger reports charging (its pin high).
pub fn led_level(step: u32, charger_high: bool) -> (r: bool)
    ensures
        r == (step % 2 == 0 || charger_high),
{
    step % 2 == 0 || charger_high
}

} // verus!
