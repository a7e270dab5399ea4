//! The live-view summary: per channel, the smallest and largest sample of a
//! frame, sent as a small notification.
use vstd::prelude::*;
use crate::engine::Data;

verus! {

/// Smaller of two samples.
pub open spec fn min16(a: u16, b: u16) -> u16 {
    if a <= b {
        a
    } else {
        b
    }
}

/// Larger of two samples.
pub open spec fn max16(a: u16, b: u16) -> u16 {
    if a >= b {
        a
    } else {
        b
    }
}

/// Smallest of the first `rows` samples of channel `c` (`u16::MAX` if none).
pub open spec fn column_min(s: Seq<u16>, channels: int, c: int, rows: nat) -> u16
    decreases rows,
{
    if rows == 0 {
        u16::MAX
    } else {
        min16(column_min(s, channels, c, (rows - 1) as nat), s[c + (rows - 1) * channels])
    }
}

/// Largest of the first `rows` samples of channel `c` (0 if none).
pub open spec fn column_max(s: Seq<u16>, channels: int, c: int, rows: nat) -> u16
    decreases rows,
{
    if rows == 0 {
        0
    } else {
        max16(column_max(s, channels, c, (rows - 1) as nat), s[c + (rows - 1) * channels])
    }
}

/// Number of samples of channel `c` in `s`: positions `c`, `c + channels`, ...
pub open spec fn column_rows(len: int, channels: int, c: int) -> nat {
    if c < len {
        ((len - c + channels - 1) / channels) as nat
    } else {
        0
    }
}

/// Byte `k` of the live-view notification for `frame` with counter `counter`:
/// the counter, then for each channel its minimum and maximum, little-endian.
pub open spec fn liveview_byte(counter: u8, s: Seq<u16>, channels: int, k: int) -> u8 {
    if k == 0 {
        counter
    } else {
        let c = (k - 1) / 4;
        let part = (k - 1) % 4;
        let rows = column_rows(s.len() as int, channels, c);
        let v = if part < 2 {
            column_min(s, channels, c, rows)
        } else {
            column_max(s, channels, c, rows)
        };
        if part % 2 == 0 {
            (v % 256) as u8
        } else {
            (v / 256) as u8
        }
    }
}

/// Largest channel count of a live-view notification.
pub const MAX_LIVEVIEW_CHANNELS: usize = 64;

/// The live-view notification for `frame`: `counter`, then the minimum and
/// maximum of each channel's samples as little-endian pairs.
pub fn liveview_packet(counter: u8, frame: &Data) -> (r: Vec<u8>)
    requires
        1 <= frame.channels <= MAX_LIVEVIEW_CHANNELS,
    ensures
        r@.len() == 4 * frame.channels + 1,
        forall|k: int|
            0 <= k < r@.len() ==> #[trigger] r@[k] == liveview_byte(
                counter,
                frame.frames@,
                frame.channels as int,
                k,
            ),
{
    let ch = frame.channels;
    let s = &frame.frames;
    let n = s.len();
    let mut out: Vec<u8> = Vec::new();
    out.push(counter);
    let mut c: usize = 0;
    while c < ch
        invariant
            1 <= ch == frame.channels <= MAX_LIVEVIEW_CHANNELS,
            s@ == frame.frames@,
            n == s@.len(),
            c <= ch,
            out@.len() == 4 * c + 1,
            forall|k: int|
                0 <= k < out@.len() ==> #[trigger] out@[k] == liveview_byte(counter, s@, ch as int, k),
        decreases ch - c,
    {
        let mut lo: u16 = u16::MAX;
        let mut hi: u16 = 0;
        let mut j: usize = c;
        let ghost mut rows: nat = 0;
        proof {
            if c < n {
                let ni = n as int;
                let ci = c as int;
                let chi = ch as int;
                assert((ni - ci + chi - 1) / chi >= 1) by (nonlinear_arith)
                    requires
                        ci < ni,
                        chi >= 1,
                ;
            }
        }
        while j < n
            invariant
                1 <= ch <= MAX_LIVEVIEW_CHANNELS,
                c < ch,
                n == s@.len(),
                j < n ==> j == c + rows * ch,
                lo == column_min(s@, ch as int, c as int, rows),
                hi == column_max(s@, ch as int, c as int, rows),
                rows <= column_rows(n as int, ch as int, c as int),
                j < n ==> rows < column_rows(n as int, ch as int, c as int),
                j >= n ==> rows == column_rows(n as int, ch as int, c as int),
            decreases n - j,
        {
            let v = s[j];
            if v < lo {
                lo = v;
            }
            if v > hi {
                hi = v;
            }
            proof {
                let r1 = rows + 1;
                assert(j + ch == c + r1 * ch) by (nonlinear_arith)
                    requires
                        j == c + rows * ch,
                        r1 == rows + 1,
                ;
                let cr = column_rows(n as int, ch as int, c as int);
                let ni = n as int;
                let ci = c as int;
                let chi = ch as int;
                assert(cr == (ni - ci + chi - 1) / chi);
                if j + ch < n {
                    assert(r1 < cr) by (nonlinear_arith)
                        requires
                            ci + r1 * chi < ni,
                            cr == (ni - ci + chi - 1) / chi,
                            chi >= 1,
                    ;
                } else {
                    assert(r1 == cr) by (nonlinear_arith)
                        requires
                            ci + rows * chi < ni,
                            ci + r1 * chi >= ni,
                            r1 == rows + 1,
                            cr == (ni - ci + chi - 1) / chi,
                            chi >= 1,
                    ;
                }
                rows = r1;
            }
            if n - j <= ch {
                j = n;
            } else {
                j = j + ch;
            }
        }
        proof {
            if c >= n {
                assert(rows == 0);
            }
        }
        let ghost before = out@;
        out.push((lo % 256) as u8);
        out.push((lo / 256) as u8);
        out.push((hi % 256) as u8);
        out.push((hi / 256) as u8);
        proof {
            assert forall|k: int| 0 <= k < out@.len() implies #[trigger] out@[k] == liveview_byte(counter, s@, ch as int, k) by {
                if k >= 4 * c + 1 {
                    let ki = k - 1;
                    assert(ki / 4 == c as int);
                    assert(ki % 4 == k - 1 - 4 * c);
                } else {
                    assert(out@[k] == before[k]);
                }
            }
        }
        c = c + 1;
    }
    out
}

} // verus!
