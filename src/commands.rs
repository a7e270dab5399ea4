//! Opcodes of the converter and the command buffers built from them.
//!
//! The bus returns the two bytes of each word in reverse, so every opcode is
//! written with the command in its low byte.
use vstd::prelude::*;
use vstd::arithmetic::power2::{pow2, lemma_pow2_unfold, lemma_pow2_adds, lemma_pow2_pos, lemma2_to64};

verus! {

/// Index of the calibration trigger in the startup sequence. It leaves more
/// than 100µs of quiet transactions after the register writes.
pub const CALIBRATION_INDEX: usize = 200;

/// Register that the dummy command reads; it always holds `b'I'`.
pub const SENTINEL_REGISTER: u8 = 40;

/// The value that the sentinel register holds.
pub const SENTINEL_VALUE: u16 = 73;

/// Number of channels that the channel mask registers can name.
pub const MAX_CHANNELS: usize = 32;

/// Timing and channel layout of one acquisition setup.
#[derive(Clone, Copy, Debug)]
pub struct EngineConfig {
    /// Number of channels sampled in each row.
    pub channel_count: usize,
    /// First channel that is sampled.
    pub skip_channels: usize,
    /// Rows read between two buffer boundaries.
    pub frames_per_buffer: usize,
    /// Commands sent per row; at least `channel_count + 2`.
    pub stride: usize,
    /// Words of spare space after each receive buffer.
    pub overflow: usize,
    /// Timer ticks between two transactions.
    pub timer_interval: u32,
    /// Register values 8 to 11: the upper cutoff of the amplifiers.
    pub upper_cutoff: [u8; 4],
    /// Register values 12 and 13: the lower cutoff of the amplifiers.
    pub lower_cutoff: [u8; 2],
}

/// Largest number of words in one receive buffer with its overflow region;
/// its byte size stays well inside the 32-bit pointer registers.
pub const MAX_TOTAL_WORDS: usize = 0x1000_0000;

impl EngineConfig {
    /// Words in one logical buffer.
    pub open spec fn buffer_size(self) -> int {
        self.frames_per_buffer * self.stride
    }

    /// Words in one receive buffer, overflow region included.
    pub open spec fn total_size(self) -> int {
        self.buffer_size() + self.overflow
    }

    /// The layout is consistent: room for the pipeline delay of two words in
    /// each row, a channel mask that fits its registers, a startup sequence
    /// that reaches the calibration trigger, and an overflow region no larger
    /// than the buffer it refills.
    pub open spec fn valid(self) -> bool {
        &&& 1 <= self.channel_count
        &&& self.channel_count + self.skip_channels <= MAX_CHANNELS
        &&& self.stride >= self.channel_count + 2
        &&& 1 <= self.frames_per_buffer
        &&& self.buffer_size() > CALIBRATION_INDEX
        &&& self.overflow <= self.buffer_size()
        &&& self.total_size() <= MAX_TOTAL_WORDS
    }

    /// The layout of the eight-channel brain interface: channels 4 to 11,
    /// 50 rows of 10 commands per buffer, a 1kHz upper and 1Hz lower cutoff.
    pub fn brain_interface() -> (r: EngineConfig)
        ensures
            r.valid(),
            r.channel_count == 8,
            r.skip_channels == 4,
            r.frames_per_buffer == 50,
            r.stride == 10,
            r.overflow == 500,
            r.timer_interval == 640,
            r.upper_cutoff@ == seq![46u8, 2, 30, 3],
            r.lower_cutoff@ == seq![44u8, 6],
    {
        let r = EngineConfig {
            channel_count: 8,
            skip_channels: 4,
            frames_per_buffer: 50,
            stride: 10,
            overflow: 500,
            timer_interval: 640,
            upper_cutoff: [46, 2, 30, 3],
            lower_cutoff: [44, 6],
        };
        assert(r.upper_cutoff@ =~= seq![r.upper_cutoff[0], r.upper_cutoff[1], r.upper_cutoff[2], r.upper_cutoff[3]]);
        assert(r.lower_cutoff@ =~= seq![r.lower_cutoff[0], r.lower_cutoff[1]]);
        r
    }

    /// The layout of the sixteen-channel board: 100 rows of 20 commands per
    /// buffer, a tenth of a buffer of overflow and a 3kHz upper cutoff.
    pub fn sixteen_channels() -> (r: EngineConfig)
        ensures
            r.valid(),
            r.channel_count == 16,
            r.skip_channels == 0,
            r.frames_per_buffer == 100,
            r.stride == 20,
            r.overflow == 200,
            r.timer_interval == 80,
            r.upper_cutoff@ == seq![3u8, 1, 13, 1],
            r.lower_cutoff@ == seq![44u8, 6],
    {
        let r = EngineConfig {
            channel_count: 16,
            skip_channels: 0,
            frames_per_buffer: 100,
            stride: 20,
            overflow: 200,
            timer_interval: 80,
            upper_cutoff: [3, 1, 13, 1],
            lower_cutoff: [44, 6],
        };
        assert(r.upper_cutoff@ =~= seq![r.upper_cutoff[0], r.upper_cutoff[1], r.upper_cutoff[2], r.upper_cutoff[3]]);
        assert(r.lower_cutoff@ =~= seq![r.lower_cutoff[0], r.lower_cutoff[1]]);
        r
    }

    /// Words in one logical buffer.
    pub fn buffer_words(&self) -> (r: usize)
        requires
            self.valid(),
        ensures
            r == self.buffer_size(),
    {
        self.frames_per_buffer * self.stride
    }

    /// Words in one receive buffer, overflow region included.
    pub fn total_words(&self) -> (r: usize)
        requires
            self.valid(),
        ensures
            r == self.total_size(),
    {
        self.frames_per_buffer * self.stride + self.overflow
    }

    /// The active-channel mask: `channel_count` bits from `skip_channels` on.
    pub open spec fn mask_spec(self) -> int {
        (pow2(self.channel_count as nat) - 1) * pow2(self.skip_channels as nat)
    }
}

/// Opcode that converts channel `c`.
pub open spec fn convert_op(c: int) -> u16 {
    c as u16
}

/// Opcode that reads register `r`.
pub open spec fn read_op(r: u8) -> u16 {
    (r as u16) | 0xC0u16
}

/// Opcode that writes `d` to register `r`.
pub open spec fn write_op(r: u8, d: u8) -> u16 {
    (((d as u16) << 8u16) | (r as u16)) | 0x80u16
}

/// Opcode that starts the calibration sequence.
pub open spec fn calibrate_op() -> u16 {
    0x55u16
}

/// Command to convert channel `c`.
pub fn convert_channel(c: u8) -> (r: u16)
    ensures
        r == convert_op(c as int),
        r == c as u16,
{
    c as u16
}

/// Command to read register `r`.
pub fn read_register(r: u8) -> (o: u16)
    ensures
        o == read_op(r),
{
    (r as u16) | 0xC0u16
}

/// Command to write register `r` with value `d`.
pub fn write_register(r: u8, d: u8) -> (o: u16)
    ensures
        o == write_op(r, d),
{
    (((d as u16) << 8u16) | (r as u16)) | 0x80u16
}

/// Command to start the calibration sequence.
pub fn start_calibration() -> (o: u16)
    ensures
        o == calibrate_op(),
{
    0b01010101u16
}

/// Dummy command: reads the sentinel register, which holds `b'I'`.
pub fn dummy_command() -> (o: u16)
    ensures
        o == read_op(SENTINEL_REGISTER),
{
    read_register(SENTINEL_REGISTER)
}

/// Byte `k` (0 to 3) of the active-channel mask.
pub open spec fn mask_byte(cfg: EngineConfig, k: int) -> u8 {
    ((cfg.mask_spec() / byte_weight(k)) % 256) as u8
}

/// Weight of byte `k` (0 to 3) of a 32-bit word.
pub open spec fn byte_weight(k: int) -> int {
    if k == 0 {
        1
    } else if k == 1 {
        0x100
    } else if k == 2 {
        0x1_0000
    } else {
        0x100_0000
    }
}

/// The startup command at position `i` of the startup sequence.
pub open spec fn startup_op(cfg: EngineConfig, i: int) -> u16 {
    if i == 10 {
        write_op(0, 0xDE)
    } else if i == 11 {
        write_op(1, 8)
    } else if i == 12 {
        write_op(2, 32)
    } else if 13 <= i <= 17 {
        write_op((i - 10) as u8, 0)
    } else if 18 <= i <= 21 {
        write_op((i - 10) as u8, cfg.upper_cutoff[i - 18])
    } else if 22 <= i <= 23 {
        write_op((i - 10) as u8, cfg.lower_cutoff[i - 22])
    } else if 24 <= i <= 27 {
        write_op((i - 10) as u8, mask_byte(cfg, i - 24))
    } else if i == CALIBRATION_INDEX {
        calibrate_op()
    } else {
        read_op(SENTINEL_REGISTER)
    }
}

/// The readout command at position `i` of the steady-state sequence.
pub open spec fn readout_op(cfg: EngineConfig, i: int) -> u16 {
    if i % (cfg.stride as int) < cfg.channel_count {
        convert_op(i % (cfg.stride as int) + cfg.skip_channels)
    } else {
        read_op(SENTINEL_REGISTER)
    }
}

/// With rows of ten commands and eight channels, position `i` of the
/// readout sequence converts a channel exactly when `i % 10 < 8`, and is a
/// dummy read otherwise.
pub proof fn lemma_readout_ten_by_eight(cfg: EngineConfig, i: int)
    requires
        cfg.valid(),
        cfg.stride == 10,
        cfg.channel_count == 8,
    ensures
        i % 10 < 8 ==> readout_op(cfg, i) == convert_op(i % 10 + cfg.skip_channels),
        i % 10 >= 8 ==> readout_op(cfg, i) == read_op(SENTINEL_REGISTER),
{
}

/// Two to the power `n`, for `n` up to 32.
fn power_of_two(n: usize) -> (r: u64)
    requires
        n <= 32,
    ensures
        r == pow2(n as nat),
{
    let mut r: u64 = 1;
    let mut k: usize = 0;
    proof {
        lemma2_to64();
    }
    while k < n
        invariant
            k <= n <= 32,
            r == pow2(k as nat),
        decreases n - k,
    {
        proof {
            lemma_pow2_unfold((k + 1) as nat);
            lemma_pow2_adds(k as nat, (32 - k) as nat);
            lemma_pow2_pos((32 - k) as nat);
            lemma2_to64();
            assert(pow2(k as nat) <= pow2(32)) by (nonlinear_arith)
                requires
                    pow2(k as nat) * pow2((32 - k) as nat) == pow2(32),
                    pow2((32 - k) as nat) >= 1,
            ;
        }
        r = r * 2;
        k = k + 1;
    }
    r
}

/// The active-channel mask of `cfg`.
pub fn channel_mask(cfg: &EngineConfig) -> (m: u64)
    requires
        cfg.valid(),
    ensures
        m == cfg.mask_spec(),
        m < 0x1_0000_0000,
{
    let p = power_of_two(cfg.channel_count);
    let q = power_of_two(cfg.skip_channels);
    proof {
        lemma_pow2_adds(cfg.channel_count as nat, cfg.skip_channels as nat);
        lemma_pow2_adds((cfg.channel_count + cfg.skip_channels) as nat,
            (32 - cfg.channel_count - cfg.skip_channels) as nat);
        lemma_pow2_pos((32 - cfg.channel_count - cfg.skip_channels) as nat);
        lemma_pow2_pos(cfg.channel_count as nat);
        lemma2_to64();
        let a = pow2(cfg.channel_count as nat) as int;
        let b = pow2(cfg.skip_channels as nat) as int;
        let c = pow2((32 - cfg.channel_count - cfg.skip_channels) as nat) as int;
        assert((a - 1) * b < 0x1_0000_0000) by (nonlinear_arith)
            requires
                a * b * c == 0x1_0000_0000,
                c >= 1,
                a >= 1,
                b >= 1,
        ;
    }
    (p - 1) * q
}

/// Byte `k` (0 to 3) of a mask below 2^32.
fn mask_byte_of(cfg: &EngineConfig, mask: u64, k: usize) -> (r: u8)
    requires
        cfg.valid(),
        mask == cfg.mask_spec(),
        mask < 0x1_0000_0000,
        k < 4,
    ensures
        r == mask_byte(*cfg, k as int),
{
    let w: u64 = if k == 0 {
        1
    } else if k == 1 {
        0x100
    } else if k == 2 {
        0x1_0000
    } else {
        0x100_0000
    };
    ((mask / w) % 256) as u8
}

/// The startup command at position `i`.
fn startup_command(cfg: &EngineConfig, mask: u64, i: usize) -> (r: u16)
    requires
        cfg.valid(),
        mask == cfg.mask_spec(),
        mask < 0x1_0000_0000,
    ensures
        r == startup_op(*cfg, i as int),
{
    if i == 10 {
        write_register(0, 0b11011110)
    } else if i == 11 {
        write_register(1, 8)
    } else if i == 12 {
        write_register(2, 32)
    } else if 13 <= i && i <= 17 {
        write_register((i - 10) as u8, 0)
    } else if 18 <= i && i <= 21 {
        write_register((i - 10) as u8, cfg.upper_cutoff[i - 18])
    } else if 22 <= i && i <= 23 {
        write_register((i - 10) as u8, cfg.lower_cutoff[i - 22])
    } else if 24 <= i && i <= 27 {
        write_register((i - 10) as u8, mask_byte_of(cfg, mask, i - 24))
    } else if i == CALIBRATION_INDEX {
        start_calibration()
    } else {
        dummy_command()
    }
}

/// The readout command at position `i`.
fn readout_command(cfg: &EngineConfig, i: usize) -> (r: u16)
    requires
        cfg.valid(),
    ensures
        r == readout_op(*cfg, i as int),
{
    let n = i % cfg.stride;
    if n < cfg.channel_count {
        convert_channel((n + cfg.skip_channels) as u8)
    } else {
        dummy_command()
    }
}

/// Writes the startup sequence into `b[lo..hi]`: the register writes that
/// set the filters and the channel mask, the calibration trigger, and dummy
/// reads everywhere else. Position `i` of the range gets
/// `startup_op(cfg, i - lo)`; the rest of `b` is kept.
pub fn fill_startup_commands(cfg: &EngineConfig, b: &mut Vec<u16>, lo: usize, hi: usize)
    requires
        cfg.valid(),
        lo <= hi <= old(b).len(),
    ensures
        final(b).len() == old(b).len(),
        forall|i: int| lo <= i < hi ==> #[trigger] final(b)[i] == startup_op(*cfg, i - lo),
        forall|i: int|
            0 <= i < old(b).len() && !(lo <= i < hi) ==> #[trigger] final(b)[i] == old(b)[i],
{
    let mask = channel_mask(cfg);
    let mut i: usize = lo;
    while i < hi
        invariant
            cfg.valid(),
            mask == cfg.mask_spec(),
            mask < 0x1_0000_0000,
            lo <= i <= hi <= b.len(),
            b.len() == old(b).len(),
            forall|j: int| lo <= j < i ==> #[trigger] b[j] == startup_op(*cfg, j - lo),
            forall|j: int| 0 <= j < b.len() && !(lo <= j < i) ==> #[trigger] b[j] == old(b)[j],
        decreases hi - i,
    {
        let v = startup_command(cfg, mask, i - lo);
        b.set(i, v);
        i = i + 1;
    }
}

/// Writes the steady-state sequence into `b[lo..hi]`: rows of `stride`
/// commands, the first `channel_count` of each converting one channel from
/// `skip_channels` on, the rest dummy reads. Position `i` of the range gets
/// `readout_op(cfg, i - lo)`; the rest of `b` is kept.
pub fn fill_readout_commands(cfg: &EngineConfig, b: &mut Vec<u16>, lo: usize, hi: usize)
    requires
        cfg.valid(),
        lo <= hi <= old(b).len(),
    ensures
        final(b).len() == old(b).len(),
        forall|i: int| lo <= i < hi ==> #[trigger] final(b)[i] == readout_op(*cfg, i - lo),
        forall|i: int|
            0 <= i < old(b).len() && !(lo <= i < hi) ==> #[trigger] final(b)[i] == old(b)[i],
{
    let mut i: usize = lo;
    while i < hi
        invariant
            cfg.valid(),
            lo <= i <= hi <= b.len(),
            b.len() == old(b).len(),
            forall|j: int| lo <= j < i ==> #[trigger] b[j] == readout_op(*cfg, j - lo),
            forall|j: int| 0 <= j < b.len() && !(lo <= j < i) ==> #[trigger] b[j] == old(b)[j],
        decreases hi - i,
    {
        let v = readout_command(cfg, i - lo);
        b.set(i, v);
        i = i + 1;
    }
}

} // verus!
