//! The double-buffered sampling engine.
//!
//! The engine owns one transmit buffer and two receive buffers. The DMA
//! engine sends the transmit buffer and fills one receive buffer while the
//! other is turned into a frame. Once per buffer boundary the interrupt
//! moves the DMA pointers (through the pointer synchronizer, which the
//! caller runs with the deltas that [`SpiBuffers::pointer_adjustments`]
//! gives) and then calls [`SpiBuffers::update`].
use vstd::prelude::*;
use vstd::wrapping::u32_specs::wrapping_sub;
use vstd::wrapping::usize_specs::wrapping_add;
use crate::commands::{
    EngineConfig, SENTINEL_VALUE, fill_readout_commands, fill_startup_commands, readout_op,
    startup_op,
};
use crate::queue::FrameQueue;

verus! {

/// One buffer's worth of samples from all channels.
#[derive(Debug)]
pub struct Data {
    /// Number of channels.
    pub channels: usize,
    /// Number of the frame; a gap means frames were lost.
    pub sequence_number: usize,
    /// Samples, interleaved: all channels of the first row, then the next.
    pub frames: Vec<u16>,
}

/// State in which the converter is.
#[derive(PartialEq, Eq, Structural, Clone, Copy, Debug)]
pub enum State {
    /// Stopped.
    Off,
    /// Running the startup and calibration sequence.
    Starting,
    /// Receiving into the first buffer.
    Rx1,
    /// Receiving into the second buffer.
    Rx2,
}

/// The state after a buffer boundary.
pub open spec fn next_state(s: State) -> State {
    match s {
        State::Off => State::Off,
        State::Starting => State::Rx1,
        State::Rx1 => State::Rx2,
        State::Rx2 => State::Rx1,
    }
}

/// Bus addresses of the three buffers, as the DMA pointer registers hold them.
#[derive(Clone, Copy, Debug, PartialEq, Eq, Structural)]
pub struct DmaAddresses {
    /// Address of the transmit buffer.
    pub tx: u32,
    /// Address of the first receive buffer.
    pub rx1: u32,
    /// Address of the second receive buffer.
    pub rx2: u32,
}

/// The deltas by which the two DMA pointers move at a buffer boundary.
#[derive(Clone, Copy, Debug, PartialEq, Eq, Structural)]
pub struct PointerAdjustment {
    /// Added to the transmit pointer.
    pub tx_delta: u32,
    /// Added to the receive pointer.
    pub rx_delta: u32,
}

/// What a buffer boundary produced.
#[derive(Clone, Copy, Debug, PartialEq, Eq, Structural)]
pub enum Boundary {
    /// The engine was stopped; nothing changed.
    Idle,
    /// The calibration run ended; the transmit buffer now only reads out.
    Calibrated,
    /// A frame was built from the buffer just filled.
    Frame {
        /// Its sequence number.
        sequence_number: usize,
        /// Whether the queue took it; a full queue drops it.
        queued: bool,
        /// Whether the sentinel register answered as expected.
        responding: bool,
    },
}

/// Byte size of one logical buffer, the distance the pointers move back.
pub open spec fn buffer_bytes(cfg: EngineConfig) -> u32 {
    (2 * cfg.buffer_size()) as u32
}

/// The two bytes of `x` swapped: bus order to native order.
pub open spec fn byte_swap(x: u16) -> u16 {
    ((x % 256) * 256 + x / 256) as u16
}

/// Where sample `j` of a frame lies in a receive buffer: row `j / channels`,
/// column `j % channels`, two words late because each reply arrives two
/// transactions after its command.
pub open spec fn sample_index(cfg: EngineConfig, j: int) -> int {
    (j / cfg.channel_count as int) * cfg.stride + (j % cfg.channel_count as int) + 2
}

/// The samples of the frame built from receive buffer `buf`.
pub open spec fn frame_samples(cfg: EngineConfig, buf: Seq<u16>) -> Seq<u16> {
    Seq::new(
        (cfg.frames_per_buffer * cfg.channel_count) as nat,
        |j: int| byte_swap(buf[sample_index(cfg, j)]),
    )
}

/// Words that arrived past the boundary, given the receive pointer after
/// the adjustment and the start of the buffer it now points into; bounded
/// by the overflow region.
pub open spec fn overflow_words(cfg: EngineConfig, ptr: u32, base: u32) -> int {
    let n = wrapping_sub(ptr, base) / 2;
    if n <= cfg.overflow {
        n as int
    } else {
        cfg.overflow as int
    }
}

/// `dst` with its first `n` words taken from `src` at `from`.
pub open spec fn with_head(dst: Seq<u16>, src: Seq<u16>, from: int, n: int) -> Seq<u16> {
    Seq::new(dst.len(), |i: int| if i < n { src[from + i] } else { dst[i] })
}

/// `after` is `before` with one frame appended (holding `channels`,
/// `seq` and `samples`) when it had fewer than `capacity` frames, and
/// `before` unchanged otherwise.
pub open spec fn frame_offered(
    before: Seq<Data>,
    after: Seq<Data>,
    capacity: nat,
    channels: usize,
    seq: usize,
    samples: Seq<u16>,
) -> bool {
    if before.len() < capacity {
        &&& after.len() == before.len() + 1
        &&& after.drop_last() == before
        &&& after.last().channels == channels
        &&& after.last().sequence_number == seq
        &&& after.last().frames@ == samples
    } else {
        after == before
    }
}

/// The deltas that the pointer synchronizer applies at the next boundary in
/// state `s`: the transmit pointer goes back one buffer; the receive pointer
/// goes back one buffer within the first buffer after calibration, and else
/// moves to the same place in the other buffer.
pub open spec fn adjustment_for(cfg: EngineConfig, a: DmaAddresses, s: State) -> Option<
    PointerAdjustment,
> {
    let back = wrapping_sub(0, buffer_bytes(cfg));
    match s {
        State::Off => None,
        State::Starting => Some(PointerAdjustment { tx_delta: back, rx_delta: back }),
        State::Rx1 => Some(
            PointerAdjustment {
                tx_delta: back,
                rx_delta: wrapping_sub(wrapping_sub(a.rx2, a.rx1), buffer_bytes(cfg)),
            },
        ),
        State::Rx2 => Some(
            PointerAdjustment {
                tx_delta: back,
                rx_delta: wrapping_sub(wrapping_sub(a.rx1, a.rx2), buffer_bytes(cfg)),
            },
        ),
    }
}

/// Swaps the two bytes of `x`.
pub fn swap_bytes(x: u16) -> (r: u16)
    ensures
        r == byte_swap(x),
{
    (x % 256) * 256 + x / 256
}

/// Words past the boundary, from the receive pointer after adjustment.
fn overflow_count(cfg: &EngineConfig, ptr: u32, base: u32) -> (n: usize)
    requires
        cfg.valid(),
    ensures
        n == overflow_words(*cfg, ptr, base),
        n <= cfg.overflow,
{
    let w = (ptr.wrapping_sub(base) / 2) as usize;
    if w <= cfg.overflow {
        w
    } else {
        cfg.overflow
    }
}

/// Copies `src[from..from + n]` to the head of `dst`.
fn copy_head(src: &Vec<u16>, dst: &mut Vec<u16>, from: usize, n: usize)
    requires
        n <= old(dst).len(),
        from + n <= src.len(),
    ensures
        final(dst)@ == with_head(old(dst)@, src@, from as int, n as int),
{
    let mut i: usize = 0;
    while i < n
        invariant
            n <= dst.len() == old(dst).len(),
            from + n <= src.len(),
            i <= n,
            forall|j: int| 0 <= j < i ==> #[trigger] dst[j] == src[from + j],
            forall|j: int| i <= j < dst.len() ==> #[trigger] dst[j] == old(dst)[j],
        decreases n - i,
    {
        dst.set(i, src[from + i]);
        i = i + 1;
    }
    assert(dst@ =~= with_head(old(dst)@, src@, from as int, n as int));
}

/// Copies `v[from..from + n]` to the head of `v`; the two ranges do not
/// overlap.
fn copy_head_within(v: &mut Vec<u16>, from: usize, n: usize)
    requires
        n <= from,
        from + n <= old(v).len(),
    ensures
        final(v)@ == with_head(old(v)@, old(v)@, from as int, n as int),
{
    let mut i: usize = 0;
    while i < n
        invariant
            v.len() == old(v).len(),
            n <= from,
            from + n <= v.len(),
            i <= n,
            forall|j: int| 0 <= j < i ==> #[trigger] v[j] == old(v)[from + j],
            forall|j: int| i <= j < v.len() ==> #[trigger] v[j] == old(v)[j],
        decreases n - i,
    {
        let w = v[from + i];
        v.set(i, w);
        i = i + 1;
    }
    assert(v@ =~= with_head(old(v)@, old(v)@, from as int, n as int));
}

/// Position of a sample in its buffer lies inside the logical buffer.
proof fn lemma_sample_index(cfg: EngineConfig, f: int, c: int)
    requires
        cfg.valid(),
        0 <= f < cfg.frames_per_buffer,
        0 <= c < cfg.channel_count,
    ensures
        sample_index(cfg, f * cfg.channel_count + c) == f * cfg.stride + c + 2,
        f * cfg.stride + c + 2 < cfg.buffer_size(),
        0 <= f * cfg.channel_count + c < cfg.frames_per_buffer * cfg.channel_count,
{
    let cc = cfg.channel_count as int;
    let j = f * cc + c;
    vstd::arithmetic::div_mod::lemma_fundamental_div_mod_converse(j, cc, f, c);
    let fpb = cfg.frames_per_buffer as int;
    let st = cfg.stride as int;
    assert(f * st + c + 2 < fpb * st) by (nonlinear_arith)
        requires
            0 <= f < fpb,
            0 <= c,
            c + 2 < st + 1,
            c < cc,
            st >= cc + 2,
    ;
    assert(0 <= f * cc + c < fpb * cc) by (nonlinear_arith)
        requires
            0 <= f < fpb,
            0 <= c < cc,
    ;
}

/// Builds the samples of a frame from a filled receive buffer.
fn build_frame(cfg: &EngineConfig, buf: &Vec<u16>) -> (r: Vec<u16>)
    requires
        cfg.valid(),
        buf.len() == cfg.total_size(),
    ensures
        r@ == frame_samples(*cfg, buf@),
{
    let cc = cfg.channel_count;
    let mut out: Vec<u16> = Vec::new();
    let mut f: usize = 0;
    while f < cfg.frames_per_buffer
        invariant
            cfg.valid(),
            cc == cfg.channel_count,
            buf.len() == cfg.total_size(),
            f <= cfg.frames_per_buffer,
            out.len() == f * cc,
            forall|j: int| 0 <= j < out.len() ==> #[trigger] out[j] == byte_swap(buf[sample_index(*cfg, j)]),
        decreases cfg.frames_per_buffer - f,
    {
        let mut c: usize = 0;
        while c < cc
            invariant
                cfg.valid(),
                cc == cfg.channel_count,
                buf.len() == cfg.total_size(),
                f < cfg.frames_per_buffer,
                c <= cc,
                out.len() == f * cc + c,
                forall|j: int| 0 <= j < out.len() ==> #[trigger] out[j] == byte_swap(buf[sample_index(*cfg, j)]),
            decreases cc - c,
        {
            proof {
                lemma_sample_index(*cfg, f as int, c as int);
            }
            let k = f * cfg.stride + c + 2;
            out.push(swap_bytes(buf[k]));
            c = c + 1;
        }
        proof {
            assert((f + 1) * cc == f * cc + cc) by (nonlinear_arith);
        }
        f = f + 1;
    }
    proof {
        assert(out.len() == cfg.frames_per_buffer * cc);
    }
    assert(out@ =~= frame_samples(*cfg, buf@));
    out
}

/// Buffer space and state of the engine.
pub struct SpiBuffers {
    config: EngineConfig,
    tx: Vec<u16>,
    rx1: Vec<u16>,
    rx2: Vec<u16>,
    state: State,
    sequence_number: usize,
    addresses: DmaAddresses,
}

impl SpiBuffers {
    /// The buffers have the sizes that the configuration asks for.
    pub open spec fn wf(&self) -> bool {
        &&& self.config_spec().valid()
        &&& self.tx_spec().len() == self.config_spec().total_size()
        &&& self.rx1_spec().len() == self.config_spec().total_size()
        &&& self.rx2_spec().len() == self.config_spec().total_size()
    }

    pub closed spec fn config_spec(&self) -> EngineConfig {
        self.config
    }

    pub closed spec fn state_spec(&self) -> State {
        self.state
    }

    pub closed spec fn sequence_spec(&self) -> usize {
        self.sequence_number
    }

    pub closed spec fn addresses_spec(&self) -> DmaAddresses {
        self.addresses
    }

    pub closed spec fn tx_spec(&self) -> Seq<u16> {
        self.tx@
    }

    pub closed spec fn rx1_spec(&self) -> Seq<u16> {
        self.rx1@
    }

    pub closed spec fn rx2_spec(&self) -> Seq<u16> {
        self.rx2@
    }

    /// Stopped engine with zeroed buffers of the configured size.
    pub fn new(config: EngineConfig) -> (r: SpiBuffers)
        requires
            config.valid(),
        ensures
            r.wf(),
            r.config_spec() == config,
            r.state_spec() == State::Off,
            r.sequence_spec() == 0,
    {
        let n = config.total_words();
        SpiBuffers {
            config,
            tx: vec![0u16; n],
            rx1: vec![0u16; n],
            rx2: vec![0u16; n],
            state: State::Off,
            sequence_number: 0,
            addresses: DmaAddresses { tx: 0, rx1: 0, rx2: 0 },
        }
    }

    /// The configuration the engine runs with.
    pub fn config(&self) -> (r: EngineConfig)
        ensures
            r == self.config_spec(),
    {
        self.config
    }

    /// Current state.
    pub fn state(&self) -> (r: State)
        ensures
            r == self.state_spec(),
    {
        self.state
    }

    /// Sequence number of the next frame.
    pub fn sequence_number(&self) -> (r: usize)
        ensures
            r == self.sequence_spec(),
    {
        self.sequence_number
    }

    /// The transmit buffer, which the DMA engine reads.
    pub fn tx_buffer(&self) -> (r: &Vec<u16>)
        ensures
            r@ == self.tx_spec(),
    {
        &self.tx
    }

    /// The first receive buffer, which the DMA engine fills.
    pub fn rx1_buffer(&self) -> (r: &Vec<u16>)
        ensures
            r@ == self.rx1_spec(),
    {
        &self.rx1
    }

    /// The second receive buffer, which the DMA engine fills.
    pub fn rx2_buffer(&self) -> (r: &Vec<u16>)
        ensures
            r@ == self.rx2_spec(),
    {
        &self.rx2
    }

    /// Stores one received word the way the DMA engine does: into the first
    /// receive buffer when `first`, else into the second. Lets a host drive
    /// the engine without the peripheral.
    pub fn dma_write(&mut self, first: bool, index: usize, word: u16)
        requires
            old(self).wf(),
            index < old(self).config_spec().total_size(),
        ensures
            final(self).wf(),
            final(self).config_spec() == old(self).config_spec(),
            final(self).state_spec() == old(self).state_spec(),
            final(self).sequence_spec() == old(self).sequence_spec(),
            final(self).addresses_spec() == old(self).addresses_spec(),
            final(self).tx_spec() == old(self).tx_spec(),
            first ==> final(self).rx1_spec() == old(self).rx1_spec().update(index as int, word)
                && final(self).rx2_spec() == old(self).rx2_spec(),
            !first ==> final(self).rx2_spec() == old(self).rx2_spec().update(index as int, word)
                && final(self).rx1_spec() == old(self).rx1_spec(),
    {
        if first {
            self.rx1.set(index, word);
        } else {
            self.rx2.set(index, word);
        }
    }

    /// Prepares a start: the first buffer's worth of the transmit buffer gets
    /// the startup sequence, the rest the readout sequence; the engine is
    /// then `Starting` with sequence number 0. The DMA pointers are to be
    /// set to `addresses.tx` and `addresses.rx1`. Starting an engine that
    /// runs is a fault of the caller, so the engine must be `Off`.
    pub fn setup(&mut self, addresses: DmaAddresses)
        requires
            old(self).wf(),
            old(self).state_spec() == State::Off,
        ensures
            final(self).wf(),
            final(self).config_spec() == old(self).config_spec(),
            final(self).state_spec() == State::Starting,
            final(self).sequence_spec() == 0,
            final(self).addresses_spec() == addresses,
            final(self).rx1_spec() == old(self).rx1_spec(),
            final(self).rx2_spec() == old(self).rx2_spec(),
            forall|i: int|
                0 <= i < old(self).config_spec().buffer_size() ==> #[trigger] final(self).tx_spec()[i]
                    == startup_op(old(self).config_spec(), i),
            forall|i: int|
                old(self).config_spec().buffer_size() <= i < old(self).config_spec().total_size()
                    ==> #[trigger] final(self).tx_spec()[i] == readout_op(
                    old(self).config_spec(),
                    i - old(self).config_spec().buffer_size(),
                ),
    {
        let b = self.config.buffer_words();
        let t = self.config.total_words();
        fill_startup_commands(&self.config, &mut self.tx, 0, b);
        fill_readout_commands(&self.config, &mut self.tx, b, t);
        self.state = State::Starting;
        self.sequence_number = 0;
        self.addresses = addresses;
    }
    /// The deltas for the pointer synchronizer at the next boundary, or
    /// `None` when the engine is stopped.
    pub fn pointer_adjustments(&self) -> (r: Option<PointerAdjustment>)
        requires
            self.wf(),
        ensures
            r == adjustment_for(self.config_spec(), self.addresses_spec(), self.state_spec()),
    {
        let bytes = (2 * self.config.buffer_words()) as u32;
        let back = 0u32.wrapping_sub(bytes);
        match self.state {
            State::Off => None,
            State::Starting => Some(PointerAdjustment { tx_delta: back, rx_delta: back }),
            State::Rx1 => Some(
                PointerAdjustment {
                    tx_delta: back,
                    rx_delta: self.addresses.rx2.wrapping_sub(self.addresses.rx1).wrapping_sub(
                        bytes,
                    ),
                },
            ),
            State::Rx2 => Some(
                PointerAdjustment {
                    tx_delta: back,
                    rx_delta: self.addresses.rx1.wrapping_sub(self.addresses.rx2).wrapping_sub(
                        bytes,
                    ),
                },
            ),
        }
    }

    /// Handles a buffer boundary, after the pointers were moved by the
    /// deltas of [`SpiBuffers::pointer_adjustments`]; `rx_pointer` is the
    /// receive pointer's new value.
    ///
    /// - `Off`: nothing changes (an interrupt that raced a stop).
    /// - `Starting`: the startup half of the transmit buffer is overwritten
    ///   with readout commands, the words that arrived past the boundary are
    ///   moved to the head of the first buffer, and the state is `Rx1`.
    /// - `Rx1` / `Rx2`: the words past the boundary move to the head of the
    ///   other buffer, a frame is built from the buffer just filled and
    ///   offered to `queue`, the sequence number advances (wrapping) and the
    ///   state flips.
    pub fn update(&mut self, rx_pointer: u32, queue: &mut FrameQueue) -> (r: Boundary)
        requires
            old(self).wf(),
            old(queue).wf(),
        ensures
            final(self).wf(),
            final(queue).wf(),
            final(queue).capacity_spec() == old(queue).capacity_spec(),
            final(self).config_spec() == old(self).config_spec(),
            final(self).addresses_spec() == old(self).addresses_spec(),
            final(self).state_spec() == next_state(old(self).state_spec()),
            ({
                let cfg = old(self).config_spec();
                let a = old(self).addresses_spec();
                let b = cfg.buffer_size();
                match old(self).state_spec() {
                    State::Off => {
                        &&& r == Boundary::Idle
                        &&& *final(self) == *old(self)
                        &&& final(queue)@ == old(queue)@
                        &&& final(queue).lost_spec() == old(queue).lost_spec()
                    },
                    State::Starting => {
                        &&& r == Boundary::Calibrated
                        &&& final(self).sequence_spec() == old(self).sequence_spec()
                        &&& final(self).tx_spec().len() == old(self).tx_spec().len()
                        &&& (forall|i: int|
                            0 <= i < b ==> #[trigger] final(self).tx_spec()[i] == readout_op(cfg, i))
                        &&& (forall|i: int|
                            b <= i < cfg.total_size() ==> #[trigger] final(self).tx_spec()[i]
                                == old(self).tx_spec()[i])
                        &&& final(self).rx1_spec() == with_head(
                            old(self).rx1_spec(),
                            old(self).rx1_spec(),
                            b,
                            overflow_words(cfg, rx_pointer, a.rx1),
                        )
                        &&& final(self).rx2_spec() == old(self).rx2_spec()
                        &&& final(queue)@ == old(queue)@
                        &&& final(queue).lost_spec() == old(queue).lost_spec()
                    },
                    State::Rx1 => {
                        &&& r == Boundary::Frame {
                            sequence_number: old(self).sequence_spec(),
                            queued: old(queue)@.len() < old(queue).capacity_spec(),
                            responding: byte_swap(old(self).rx1_spec()[0]) == SENTINEL_VALUE,
                        }
                        &&& final(self).sequence_spec() == wrapping_add(old(self).sequence_spec(), 1)
                        &&& final(self).tx_spec() == old(self).tx_spec()
                        &&& final(self).rx1_spec() == old(self).rx1_spec()
                        &&& final(self).rx2_spec() == with_head(
                            old(self).rx2_spec(),
                            old(self).rx1_spec(),
                            b,
                            overflow_words(cfg, rx_pointer, a.rx2),
                        )
                        &&& frame_offered(
                            old(queue)@,
                            final(queue)@,
                            old(queue).capacity_spec(),
                            cfg.channel_count,
                            old(self).sequence_spec(),
                            frame_samples(cfg, old(self).rx1_spec()),
                        )
                    },
                    State::Rx2 => {
                        &&& r == Boundary::Frame {
                            sequence_number: old(self).sequence_spec(),
                            queued: old(queue)@.len() < old(queue).capacity_spec(),
                            responding: byte_swap(old(self).rx2_spec()[0]) == SENTINEL_VALUE,
                        }
                        &&& final(self).sequence_spec() == wrapping_add(old(self).sequence_spec(), 1)
                        &&& final(self).tx_spec() == old(self).tx_spec()
                        &&& final(self).rx2_spec() == old(self).rx2_spec()
                        &&& final(self).rx1_spec() == with_head(
                            old(self).rx1_spec(),
                            old(self).rx2_spec(),
                            b,
                            overflow_words(cfg, rx_pointer, a.rx1),
                        )
                        &&& frame_offered(
                            old(queue)@,
                            final(queue)@,
                            old(queue).capacity_spec(),
                            cfg.channel_count,
                            old(self).sequence_spec(),
                            frame_samples(cfg, old(self).rx2_spec()),
                        )
                    },
                }
            }),
            old(self).state_spec() is Rx1 || old(self).state_spec() is Rx2 ==> {
                if old(queue)@.len() < old(queue).capacity_spec() {
                    final(queue).lost_spec() == old(queue).lost_spec()
                } else {
                    final(queue).lost_spec() == if old(queue).lost_spec() < u64::MAX {
                        old(queue).lost_spec() + 1
                    } else {
                        old(queue).lost_spec()
                    }
                }
            },
    {
        let b = self.config.buffer_words();
        match self.state {
            State::Off => Boundary::Idle,
            State::Starting => {
                self.state = State::Rx1;
                let t = self.config.total_words();
                fill_readout_commands(&self.config, &mut self.tx, 0, b);
                let n = overflow_count(&self.config, rx_pointer, self.addresses.rx1);
                copy_head_within(&mut self.rx1, b, n);
                Boundary::Calibrated
            },
            State::Rx1 => {
                self.state = State::Rx2;
                let n = overflow_count(&self.config, rx_pointer, self.addresses.rx2);
                copy_head(&self.rx1, &mut self.rx2, b, n);
                let responding = swap_bytes(self.rx1[0]) == SENTINEL_VALUE;
                let frames = build_frame(&self.config, &self.rx1);
                self.finish_frame(frames, responding, queue)
            },
            State::Rx2 => {
                self.state = State::Rx1;
                let n = overflow_count(&self.config, rx_pointer, self.addresses.rx1);
                copy_head(&self.rx2, &mut self.rx1, b, n);
                let responding = swap_bytes(self.rx2[0]) == SENTINEL_VALUE;
                let frames = build_frame(&self.config, &self.rx2);
                self.finish_frame(frames, responding, queue)
            },
        }
    }

    /// Numbers the frame, advances the sequence number and offers the frame.
    fn finish_frame(&mut self, frames: Vec<u16>, responding: bool, queue: &mut FrameQueue) -> (r:
        Boundary)
        requires
            old(queue).wf(),
        ensures
            final(queue).wf(),
            final(queue).capacity_spec() == old(queue).capacity_spec(),
            *final(self) == (SpiBuffers {
                sequence_number: wrapping_add(old(self).sequence_number, 1),
                ..*old(self)
            }),
            r == (Boundary::Frame {
                sequence_number: old(self).sequence_number,
                queued: old(queue)@.len() < old(queue).capacity_spec(),
                responding,
            }),
            frame_offered(
                old(queue)@,
                final(queue)@,
                old(queue).capacity_spec(),
                old(self).config.channel_count,
                old(self).sequence_number,
                frames@,
            ),
            old(queue)@.len() < old(queue).capacity_spec() ==> final(queue).lost_spec()
                == old(queue).lost_spec(),
            old(queue)@.len() >= old(queue).capacity_spec() ==> final(queue).lost_spec() == if old(
                queue,
            ).lost_spec() < u64::MAX {
                old(queue).lost_spec() + 1
            } else {
                old(queue).lost_spec()
            },
    {
        let seq = self.sequence_number;
        self.sequence_number = self.sequence_number.wrapping_add(1);
        let d = Data { channels: self.config.channel_count, sequence_number: seq, frames };
        let ghost dg = d;
        let ghost q0 = queue@;
        let queued = queue.try_push(d);
        proof {
            if queued {
                assert(queue@ == q0.push(dg));
                assert(queue@.drop_last() =~= q0);
            }
        }
        Boundary::Frame { sequence_number: seq, queued, responding }
    }

    /// Stops the engine: the state is `Off` and every frame still queued is
    /// dropped, so that the next start begins from an empty queue. The
    /// caller also halts the pacing timer, the interrupt and the
    /// interconnect channels.
    pub fn stop(&mut self, queue: &mut FrameQueue)
        requires
            old(self).wf(),
            old(queue).wf(),
        ensures
            final(self).wf(),
            final(queue).wf(),
            final(self).state_spec() == State::Off,
            final(self).config_spec() == old(self).config_spec(),
            final(self).sequence_spec() == old(self).sequence_spec(),
            final(self).addresses_spec() == old(self).addresses_spec(),
            final(self).tx_spec() == old(self).tx_spec(),
            final(self).rx1_spec() == old(self).rx1_spec(),
            final(self).rx2_spec() == old(self).rx2_spec(),
            final(queue)@.len() == 0,
            final(queue).capacity_spec() == old(queue).capacity_spec(),
            final(queue).lost_spec() == old(queue).lost_spec(),
    {
        self.state = State::Off;
        let _ = queue.drain();
    }
}

} // verus!