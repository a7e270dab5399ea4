//! Packets of the data channel and the packetizer that fills them.
//!
//! A packet is at most one MTU long: byte 0 is a running sequence counter
//! (mod 256), byte 1 the channel count, then samples as little-endian pairs.
//! A frame whose samples do not fit one packet is split into consecutive
//! packets, each filled as far as the MTU allows.
use vstd::prelude::*;
use crate::engine::Data;

verus! {

/// Bytes in front of the samples of each packet.
pub const PACKET_HEADER_LEN: usize = 2;

/// A packet with room for `N` bytes.
pub struct BoxPacket<const N: usize> {
    data: Vec<u8>,
}

impl<const N: usize> View for BoxPacket<N> {
    type V = Seq<u8>;

    /// The bytes written so far.
    closed spec fn view(&self) -> Seq<u8> {
        self.data@
    }
}

impl<const N: usize> BoxPacket<N> {
    /// Maximum size of the packet.
    pub fn mtu() -> (r: usize)
        ensures
            r == N,
    {
        N
    }

    /// The packet holds at most `N` bytes.
    pub closed spec fn wf(&self) -> bool {
        self.data@.len() <= N
    }

    /// A new empty packet.
    pub fn new() -> (r: Option<Self>)
        ensures
            r is Some,
            r->Some_0.wf(),
            r->Some_0@ == Seq::<u8>::empty(),
    {
        Some(BoxPacket { data: Vec::new() })
    }

    /// Appends `data`, which must fit in the space left.
    pub fn append(&mut self, data: &[u8])
        requires
            old(self).wf(),
            old(self)@.len() + data@.len() <= N,
        ensures
            final(self).wf(),
            final(self)@ == old(self)@ + data@,
    {
        let mut i: usize = 0;
        while i < data.len()
            invariant
                i <= data@.len(),
                self.data@ == old(self)@ + data@.subrange(0, i as int),
            decreases data@.len() - i,
        {
            self.data.push(data[i]);
            i = i + 1;
            assert(self.data@ =~= old(self)@ + data@.subrange(0, i as int));
        }
        assert(data@.subrange(0, data@.len() as int) =~= data@);
    }

    /// Clears the packet.
    pub fn reset(&mut self)
        ensures
            final(self).wf(),
            final(self)@ == Seq::<u8>::empty(),
    {
        self.data.clear();
    }

    /// Number of bytes written.
    pub fn len(&self) -> (r: usize)
        ensures
            r == self@.len(),
    {
        self.data.len()
    }

    /// The bytes written.
    pub fn as_slice(&self) -> (r: &[u8])
        ensures
            r@ == self@,
    {
        self.data.as_slice()
    }
}

/// Samples that one packet of size `mtu` carries.
pub open spec fn samples_per_packet(mtu: int) -> int {
    (mtu - PACKET_HEADER_LEN) / 2
}

/// Packets that `n` samples take at `mtu` bytes per packet.
pub open spec fn packet_count(n: int, mtu: int) -> int {
    let per = samples_per_packet(mtu);
    (n + per - 1) / per
}

/// Little-endian bytes of `s`, low byte first.
pub open spec fn le_bytes(s: Seq<u16>) -> Seq<u8> {
    Seq::new(
        2 * s.len(),
        |k: int|
            if k % 2 == 0 {
                (s[k / 2] % 256) as u8
            } else {
                (s[k / 2] / 256) as u8
            },
    )
}

/// Samples read back from little-endian pairs; a trailing odd byte is ignored.
pub open spec fn decode_le(b: Seq<u8>) -> Seq<u16> {
    Seq::new(b.len() / 2, |i: int| (b[2 * i] + 256 * b[2 * i + 1]) as u16)
}

/// The samples that packet `i` of a frame carries.
pub open spec fn packet_chunk(samples: Seq<u16>, mtu: int, i: int) -> Seq<u16> {
    let per = samples_per_packet(mtu);
    let lo = i * per;
    let hi = if (i + 1) * per <= samples.len() {
        (i + 1) * per
    } else {
        samples.len() as int
    };
    samples.subrange(lo, hi)
}

/// Packet `i` of a frame: sequence byte, channel byte, then its samples.
pub open spec fn packet_bytes(samples: Seq<u16>, channels: int, mtu: int, seq: int, i: int) -> Seq<
    u8,
> {
    seq![((seq + i) % 256) as u8, (channels % 256) as u8] + le_bytes(packet_chunk(samples, mtu, i))
}

/// The packets a frame is split into.
pub open spec fn packets_of(samples: Seq<u16>, channels: int, mtu: int, seq: int) -> Seq<Seq<u8>> {
    Seq::new(
        packet_count(samples.len() as int, mtu) as nat,
        |i: int| packet_bytes(samples, channels, mtu, seq, i),
    )
}

/// The samples that a list of packets carries, in order: the payloads
/// without their headers, read as little-endian pairs.
pub open spec fn reassembled(packets: Seq<Seq<u8>>) -> Seq<u16>
    decreases packets.len(),
{
    if packets.len() == 0 {
        Seq::empty()
    } else {
        reassembled(packets.drop_last()) + payload_samples(packets.last())
    }
}

/// The samples of one packet: its bytes after the header as little-endian
/// pairs; none when it is shorter than the header.
pub open spec fn payload_samples(p: Seq<u8>) -> Seq<u16> {
    if p.len() >= PACKET_HEADER_LEN {
        decode_le(p.skip(PACKET_HEADER_LEN as int))
    } else {
        Seq::empty()
    }
}

/// Largest MTU accepted; keeps every index of a packet in range.
pub const MAX_MTU: usize = 0x1_0000;

/// Largest frame accepted by the packetizer, in samples.
pub const MAX_FRAME_SAMPLES: usize = 0x100_0000;

/// Splits the samples of `frame` into packets of at most `mtu` bytes. The
/// first packet carries sequence byte `seq`, each next one the byte after
/// it (mod 256); each is filled with as many samples as fit.
pub fn packetize(frame: &Data, mtu: usize, seq: u8) -> (r: Vec<Vec<u8>>)
    requires
        PACKET_HEADER_LEN + 2 <= mtu <= MAX_MTU,
        frame.frames@.len() <= MAX_FRAME_SAMPLES,
    ensures
        r@.len() == packet_count(frame.frames@.len() as int, mtu as int),
        forall|i: int|
            0 <= i < r@.len() ==> #[trigger] r@[i]@ == packet_bytes(
                frame.frames@,
                frame.channels as int,
                mtu as int,
                seq as int,
                i,
            ),
        forall|i: int| 0 <= i < r@.len() ==> (#[trigger] r@[i]@).len() <= mtu,
        r@.map_values(|p: Vec<u8>| p@) == packets_of(
            frame.frames@,
            frame.channels as int,
            mtu as int,
            seq as int,
        ),
{
    let per = (mtu - PACKET_HEADER_LEN) / 2;
    let n = frame.frames.len();
    let ch = (frame.channels % 256) as u8;
    let mut out: Vec<Vec<u8>> = Vec::new();
    let mut lo: usize = 0;
    let mut i: usize = 0;
    proof {
        let pi = per as int;
        let ni = n as int;
        if n == 0 {
            assert((pi - 1) / pi == 0) by (nonlinear_arith)
                requires
                    pi >= 1,
            ;
        } else {
            assert((ni + pi - 1) / pi >= 1) by (nonlinear_arith)
                requires
                    pi >= 1,
                    ni >= 1,
            ;
        }
    }
    while lo < n
        invariant
            per == samples_per_packet(mtu as int),
            1 <= per <= MAX_MTU,
            n == frame.frames@.len() <= MAX_FRAME_SAMPLES,
            ch == (frame.channels % 256) as u8,
            lo <= n,
            lo < n ==> lo == i * per,
            i <= n,
            lo < n ==> i < packet_count(n as int, mtu as int),
            lo >= n ==> i == packet_count(n as int, mtu as int),
            out@.len() == i,
            forall|k: int|
                0 <= k < i ==> #[trigger] out@[k]@ == packet_bytes(
                    frame.frames@,
                    frame.channels as int,
                    mtu as int,
                    seq as int,
                    k,
                ),
            forall|k: int| 0 <= k < i ==> (#[trigger] out@[k]@).len() <= mtu,
        decreases n - lo,
    {
        proof {
            assert(i < n) by (nonlinear_arith)
                requires
                    lo == i * per,
                    lo < n,
                    per >= 1,
            ;
        }
        let hi = if n - lo >= per { lo + per } else { n };
        let mut p: Vec<u8> = Vec::new();
        p.push(((seq as usize + i) % 256) as u8);
        p.push(ch);
        let mut k: usize = lo;
        while k < hi
            invariant
                lo <= k <= hi <= n,
                n == frame.frames@.len(),
                p@.len() == 2 + 2 * (k - lo),
                p@ == seq![((seq + i) % 256) as u8, ch] + le_bytes(frame.frames@.subrange(lo as int, k as int)),
            decreases hi - k,
        {
            let v = frame.frames[k];
            p.push((v % 256) as u8);
            p.push((v / 256) as u8);
            k = k + 1;
            assert(p@ =~= seq![((seq + i) % 256) as u8, ch] + le_bytes(frame.frames@.subrange(lo as int, k as int)));
        }
        proof {
            let pi = per as int;
            let ni = n as int;
            let ii = i as int;
            assert((ii + 1) * pi == ii * pi + pi) by (nonlinear_arith);
            assert(packet_chunk(frame.frames@, mtu as int, ii) == frame.frames@.subrange(lo as int, hi as int));
            assert(p@.len() <= mtu) by (nonlinear_arith)
                requires
                    p@.len() == 2 + 2 * (hi - lo),
                    hi - lo <= pi,
                    pi == (mtu - 2) / 2,
            ;
            let pc = packet_count(ni, mtu as int);
            assert(pc == (ni + pi - 1) / pi);
            if hi < n {
                assert(ii + 1 < pc) by (nonlinear_arith)
                    requires
                        (ii + 1) * pi < ni,
                        pc == (ni + pi - 1) / pi,
                        pi >= 1,
                ;
            } else {
                assert(ii + 1 == pc) by (nonlinear_arith)
                    requires
                        ii * pi < ni,
                        ni <= (ii + 1) * pi,
                        pc == (ni + pi - 1) / pi,
                        pi >= 1,
                ;
            }
        }
        out.push(p);
        lo = hi;
        i = i + 1;
    }
    assert(out@.map_values(|p: Vec<u8>| p@) =~= packets_of(
        frame.frames@,
        frame.channels as int,
        mtu as int,
        seq as int,
    ));
    out
}

/// Reads the samples back out of `packets`, in order, dropping each
/// packet's header.
pub fn reassemble(packets: &Vec<Vec<u8>>) -> (r: Vec<u16>)
    ensures
        r@ == reassembled(packets@.map_values(|p: Vec<u8>| p@)),
{
    let ghost views = packets@.map_values(|p: Vec<u8>| p@);
    let mut out: Vec<u16> = Vec::new();
    let mut i: usize = 0;
    while i < packets.len()
        invariant
            i <= packets@.len(),
            views == packets@.map_values(|p: Vec<u8>| p@),
            out@ == reassembled(views.take(i as int)),
        decreases packets@.len() - i,
    {
        let p = &packets[i];
        let ghost before = out@;
        let len = p.len();
        if len >= PACKET_HEADER_LEN {
            let m = (len - PACKET_HEADER_LEN) / 2;
            let mut k: usize = 0;
            while k < m
                invariant
                    len == p@.len() >= PACKET_HEADER_LEN,
                    m == (p@.len() - PACKET_HEADER_LEN) / 2,
                    k <= m,
                    out@ == before + decode_le(p@.skip(PACKET_HEADER_LEN as int)).take(k as int),
                decreases m - k,
            {
                assert(2 * k + 1 < len - PACKET_HEADER_LEN);
                let lo = p[PACKET_HEADER_LEN + 2 * k] as u16;
                let hi = p[PACKET_HEADER_LEN + 2 * k + 1] as u16;
                out.push(lo + 256 * hi);
                k = k + 1;
                assert(out@ =~= before + decode_le(p@.skip(PACKET_HEADER_LEN as int)).take(k as int));
            }
            assert(decode_le(p@.skip(PACKET_HEADER_LEN as int)).take(m as int)
                =~= decode_le(p@.skip(PACKET_HEADER_LEN as int)));
        } else {
            assert(out@ =~= before + payload_samples(p@));
        }
        assert(views.take(i + 1).drop_last() =~= views.take(i as int));
        i = i + 1;
    }
    assert(views.take(i as int) =~= views);
    out
}

/// Reading the little-endian bytes of `s` gives `s` back.
pub proof fn lemma_decode_le_bytes(s: Seq<u16>)
    ensures
        decode_le(le_bytes(s)) == s,
{
    let b = le_bytes(s);
    assert forall|i: int| 0 <= i < s.len() implies #[trigger] decode_le(b)[i] == s[i] by {
        assert((2 * i) / 2 == i);
        assert((2 * i + 1) / 2 == i);
        assert((2 * i) % 2 == 0);
        assert((2 * i + 1) % 2 == 1);
    }
    assert(decode_le(b) =~= s);
}

/// Shape of every packet of a frame: it holds the header and at least one
/// sample, never exceeds the MTU, carries whole samples, and every packet
/// but the last is filled: it carries as many samples as the MTU allows.
pub proof fn lemma_packet_shape(samples: Seq<u16>, channels: int, mtu: int, seq: int, i: int)
    requires
        mtu >= PACKET_HEADER_LEN + 2,
        0 <= i < packet_count(samples.len() as int, mtu),
    ensures
        ({
            let p = packet_bytes(samples, channels, mtu, seq, i);
            let c = packet_chunk(samples, mtu, i);
            &&& p.len() == PACKET_HEADER_LEN + 2 * c.len()
            &&& PACKET_HEADER_LEN + 2 <= p.len() <= mtu
            &&& (p.len() - PACKET_HEADER_LEN) % 2 == 0
            &&& i < packet_count(samples.len() as int, mtu) - 1 ==> c.len() == samples_per_packet(mtu)
        }),
{
    let per = samples_per_packet(mtu);
    let n = samples.len() as int;
    let pc = packet_count(n, mtu);
    assert(i * per < n) by (nonlinear_arith)
        requires
            0 <= i < pc,
            pc == (n + per - 1) / per,
            per >= 1,
    ;
    assert((i + 1) * per == i * per + per) by (nonlinear_arith);
    if i < pc - 1 {
        assert((i + 1) * per <= n) by (nonlinear_arith)
            requires
                0 <= i + 1 < pc,
                pc == (n + per - 1) / per,
                per >= 1,
        ;
    }
    assert(2 * per <= mtu - PACKET_HEADER_LEN);
}

/// The payload of packet `j` reads back as its chunk of samples.
proof fn lemma_packet_payload(samples: Seq<u16>, channels: int, mtu: int, seq: int, j: int)
    ensures
        payload_samples(packet_bytes(samples, channels, mtu, seq, j)) == packet_chunk(samples, mtu, j),
{
    let chunk = packet_chunk(samples, mtu, j);
    let pb = packet_bytes(samples, channels, mtu, seq, j);
    assert(pb.skip(PACKET_HEADER_LEN as int) =~= le_bytes(chunk));
    lemma_decode_le_bytes(chunk);
}

/// The first `j` chunks followed by chunk `j` are the first `j + 1` chunks.
proof fn lemma_chunk_extends(samples: Seq<u16>, mtu: int, j: int)
    requires
        mtu >= PACKET_HEADER_LEN + 2,
        0 <= j,
        j * samples_per_packet(mtu) < samples.len(),
    ensures
        ({
            let per = samples_per_packet(mtu);
            let k = j + 1;
            samples.take(j * per) + packet_chunk(samples, mtu, j) == samples.take(
                if k * per <= samples.len() {
                    k * per
                } else {
                    samples.len() as int
                },
            )
        }),
{
    let per = samples_per_packet(mtu);
    let n = samples.len() as int;
    assert((j + 1) * per == j * per + per) by (nonlinear_arith);
    let hi = if (j + 1) * per <= n { (j + 1) * per } else { n };
    assert(samples.take(j * per) + packet_chunk(samples, mtu, j) =~= samples.take(hi));
}

/// The first `k` packets of a frame carry its first `k` chunks of samples.
proof fn lemma_round_trip_prefix(samples: Seq<u16>, channels: int, mtu: int, seq: int, k: int)
    requires
        mtu >= PACKET_HEADER_LEN + 2,
        0 <= k <= packet_count(samples.len() as int, mtu),
    ensures
        reassembled(packets_of(samples, channels, mtu, seq).take(k)) == samples.take(
            if k * samples_per_packet(mtu) <= samples.len() {
                k * samples_per_packet(mtu)
            } else {
                samples.len() as int
            },
        ),
    decreases k,
{
    let per = samples_per_packet(mtu);
    let n = samples.len() as int;
    let pc = packet_count(n, mtu);
    let ps = packets_of(samples, channels, mtu, seq);
    if k == 0 {
        assert(ps.take(0) =~= Seq::<Seq<u8>>::empty());
        assert(samples.take(0) =~= Seq::<u16>::empty());
    } else {
        let j = k - 1;
        lemma_round_trip_prefix(samples, channels, mtu, seq, j);
        assert(j * per < n) by (nonlinear_arith)
            requires
                j < pc,
                pc == (n + per - 1) / per,
                per >= 1,
        ;
        assert(ps.take(k).drop_last() =~= ps.take(j));
        assert(ps.take(k).last() == packet_bytes(samples, channels, mtu, seq, j));
        lemma_packet_payload(samples, channels, mtu, seq, j);
        lemma_chunk_extends(samples, mtu, j);
    }
}

/// Packetizing a frame and reassembling the packets, in order and without
/// their headers, gives back exactly the frame's samples, for every MTU that
/// holds the header and one sample.
pub proof fn lemma_packetize_round_trip(samples: Seq<u16>, channels: int, mtu: int, seq: int)
    requires
        mtu >= PACKET_HEADER_LEN + 2,
    ensures
        reassembled(packets_of(samples, channels, mtu, seq)) == samples,
{
    let per = samples_per_packet(mtu);
    let n = samples.len() as int;
    let pc = packet_count(n, mtu);
    let ps = packets_of(samples, channels, mtu, seq);
    assert(pc >= 0 && pc * per >= n) by (nonlinear_arith)
        requires
            pc == (n + per - 1) / per,
            per >= 1,
            n >= 0,
    ;
    lemma_round_trip_prefix(samples, channels, mtu, seq, pc);
    assert(ps.take(pc) =~= ps);
    assert(samples.take(n) =~= samples);
}

} // verus!
