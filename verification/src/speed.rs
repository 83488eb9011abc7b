//! Transfer-rate smoothing and the human-readable rate and duration strings.

use vstd::prelude::*;

use crate::strutil::{dec_digits, digit_char, is_digit, lemma_dec_digits_are_digits, u64_string};

verus! {

/// The unit ladder index for a rate: the largest power of 1024 that fits.
pub open spec fn speed_unit_index(b: u64) -> int {
    if b >= 1073741824 {
        3
    } else if b >= 1048576 {
        2
    } else if b >= 1024 {
        1
    } else {
        0
    }
}

/// The divisor that belongs to a unit ladder index.
pub open spec fn speed_scale(k: int) -> int {
    if k == 0 {
        1
    } else if k == 1 {
        1024
    } else if k == 2 {
        1048576
    } else {
        1073741824
    }
}

/// The display suffix that belongs to a unit ladder index.
pub open spec fn unit_suffix(k: int) -> Seq<char> {
    if k == 0 {
        "B/s"@
    } else if k == 1 {
        "KB/s"@
    } else if k == 2 {
        "MB/s"@
    } else {
        "GB/s"@
    }
}

/// The scaled rate in tenths, rounded half up.
pub open spec fn speed_tenths(b: u64) -> int {
    (b * 10 + speed_scale(speed_unit_index(b)) / 2) / speed_scale(speed_unit_index(b))
}

/// The rate string: the scaled value at one fractional digit, a space, and the unit.
pub open spec fn spec_format_speed(b: u64) -> Seq<char> {
    dec_digits((speed_tenths(b) / 10) as nat) + seq!['.', digit_char((speed_tenths(b) % 10) as nat), ' ']
        + unit_suffix(speed_unit_index(b))
}

/// Formats a rate in bytes per second for display.
pub fn format_speed(bytes_per_sec: u64) -> (r: String)
    ensures
        r@ == spec_format_speed(bytes_per_sec),
{
    let (scale, suffix): (u64, &'static str) = if bytes_per_sec >= 1073741824 {
        (1073741824, "GB/s")
    } else if bytes_per_sec >= 1048576 {
        (1048576, "MB/s")
    } else if bytes_per_sec >= 1024 {
        (1024, "KB/s")
    } else {
        (1, "B/s")
    };
    proof {
        reveal_strlit("B/s");
        reveal_strlit("KB/s");
        reveal_strlit("MB/s");
        reveal_strlit("GB/s");
        reveal_strlit(".");
        reveal_strlit(" ");
        assert(scale == speed_scale(speed_unit_index(bytes_per_sec)));
        assert(suffix@ == unit_suffix(speed_unit_index(bytes_per_sec)));
    }
    let tenths_total: u128 = ((bytes_per_sec as u128) * 10 + (scale as u128) / 2) / (
    scale as u128);
    proof {
        assert(tenths_total == speed_tenths(bytes_per_sec));
        if scale == 1 {
            assert(tenths_total == bytes_per_sec * 10);
        } else {
            assert(tenths_total <= (bytes_per_sec * 10 + scale / 2) / 1024) by (nonlinear_arith)
                requires
                    scale >= 1024,
                    tenths_total == (bytes_per_sec * 10 + scale as int / 2) / scale as int,
                    bytes_per_sec >= 0,
            ;
        }
        assert(tenths_total / 10 <= 0xffff_ffff_ffff_ffffu64);
    }
    let whole: u64 = (tenths_total / 10) as u64;
    let tenth: u64 = (tenths_total % 10) as u64;
    let mut r = u64_string(whole);
    r.append(".");
    let d = u64_string(tenth);
    r.append(d.as_str());
    r.append(" ");
    r.append(suffix);
    proof {
        assert(dec_digits(tenth as nat) =~= seq![digit_char(tenth as nat)]);
        assert(r@ =~= spec_format_speed(bytes_per_sec));
    }
    r
}

/// The rate string is digits, a point, one digit, a space, and the unit; the
/// unit is the largest whose scaled value is at least one.
pub proof fn lemma_speed_string_shape(b: u64)
    ensures
        ({
            let k = speed_unit_index(b);
            let whole = dec_digits((speed_tenths(b) / 10) as nat);
            &&& spec_format_speed(b) == whole + seq![
                '.',
                digit_char((speed_tenths(b) % 10) as nat),
                ' ',
            ] + unit_suffix(k)
            &&& whole.len() >= 1
            &&& forall|i: int| 0 <= i < whole.len() ==> is_digit(#[trigger] whole[i])
            &&& is_digit(digit_char((speed_tenths(b) % 10) as nat))
            &&& 0 <= k <= 3
            &&& b >= speed_scale(k) || k == 0
            &&& (k < 3 ==> b < speed_scale(k + 1))
        }),
{
    assert(speed_tenths(b) >= 0) by (nonlinear_arith)
        requires
            speed_scale(speed_unit_index(b)) >= 1,
    ;
    crate::strutil::lemma_dec_digits_len((speed_tenths(b) / 10) as nat);
    lemma_dec_digits_are_digits((speed_tenths(b) / 10) as nat);
    assert(is_digit(digit_char((speed_tenths(b) % 10) as nat)));
}

/// The duration string: hours, minutes and seconds, the leading zero fields left off.
pub open spec fn spec_format_duration(s: u64) -> Seq<char> {
    let h = s / 3600;
    let m = (s % 3600) / 60;
    let sec = s % 60;
    if h > 0 {
        dec_digits(h as nat) + "h "@ + dec_digits(m as nat) + "m "@ + dec_digits(sec as nat) + "s"@
    } else if m > 0 {
        dec_digits(m as nat) + "m "@ + dec_digits(sec as nat) + "s"@
    } else {
        dec_digits(sec as nat) + "s"@
    }
}

/// Formats a number of seconds as an estimated time remaining.
pub fn format_duration(seconds: u64) -> (r: String)
    ensures
        r@ == spec_format_duration(seconds),
{
    proof {
        reveal_strlit("h ");
        reveal_strlit("m ");
        reveal_strlit("s");
    }
    let hours = seconds / 3600;
    let minutes = (seconds % 3600) / 60;
    let secs = seconds % 60;
    if hours > 0 {
        let mut r = u64_string(hours);
        r.append("h ");
        let m = u64_string(minutes);
        r.append(m.as_str());
        r.append("m ");
        let s = u64_string(secs);
        r.append(s.as_str());
        r.append("s");
        proof {
            assert(r@ =~= spec_format_duration(seconds));
        }
        r
    } else if minutes > 0 {
        let mut r = u64_string(minutes);
        r.append("m ");
        let s = u64_string(secs);
        r.append(s.as_str());
        r.append("s");
        proof {
            assert(r@ =~= spec_format_duration(seconds));
        }
        r
    } else {
        let mut r = u64_string(secs);
        r.append("s");
        proof {
            assert(r@ =~= spec_format_duration(seconds));
        }
        r
    }
}

/// The sum of a sequence of samples.
pub open spec fn sum_seq(s: Seq<u64>) -> int
    decreases s.len(),
{
    if s.len() == 0 {
        0
    } else {
        sum_seq(s.drop_last()) + s.last()
    }
}

/// A sliding window of instantaneous rate samples, averaged for display.
pub struct SpeedTracker {
    pub samples: Vec<u64>,
    pub cap: usize,
}

impl SpeedTracker {
    /// How many samples the window keeps.
    pub open spec fn wf(self) -> bool {
        self.cap >= 1 && self.samples@.len() <= self.cap
    }

    /// An empty window keeping at most `cap` samples.
    pub fn new(cap: usize) -> (t: Self)
        requires
            cap >= 1,
        ensures
            t.wf(),
            t.cap == cap,
            t.samples@ =~= Seq::<u64>::empty(),
    {
        SpeedTracker { samples: Vec::new(), cap }
    }

    /// Records one sample, dropping the oldest once the window is full.
    pub fn push(&mut self, sample: u64)
        requires
            old(self).wf(),
        ensures
            final(self).wf(),
            final(self).cap == old(self).cap,
            final(self).samples@ == if old(self).samples@.len() < old(self).cap {
                old(self).samples@.push(sample)
            } else {
                old(self).samples@.skip(1).push(sample)
            },
    {
        if self.samples.len() == self.cap {
            self.samples.remove(0);
        }
        self.samples.push(sample);
        proof {
            if old(self).samples@.len() >= old(self).cap {
                assert(final(self).samples@ =~= old(self).samples@.skip(1).push(sample));
            }
        }
    }

    /// The smoothed rate: the mean of the kept samples, zero when none exist.
    pub fn average(&self) -> (r: u64)
        ensures
            self.samples@.len() == 0 ==> r == 0,
            self.samples@.len() > 0 ==> r == sum_seq(self.samples@) / self.samples@.len() as int,
    {
        let n = self.samples.len();
        if n == 0 {
            return 0;
        }
        let mut sum: u128 = 0;
        let mut i: usize = 0;
        while i < n
            invariant
                n == self.samples@.len(),
                i <= n,
                sum == sum_seq(self.samples@.take(i as int)),
                sum <= i * 0xffff_ffff_ffff_ffffu64,
            decreases n - i,
        {
            proof {
                assert(self.samples@.take(i + 1).drop_last() =~= self.samples@.take(i as int));
                assert(sum + self.samples@[i as int] <= (i + 1) * 0xffff_ffff_ffff_ffffu64)
                    by (nonlinear_arith)
                    requires
                        sum <= i * 0xffff_ffff_ffff_ffffu64,
                        self.samples@[i as int] <= 0xffff_ffff_ffff_ffffu64,
                ;
            }
            sum = sum + self.samples[i] as u128;
            i += 1;
        }
        proof {
            assert(self.samples@.take(n as int) =~= self.samples@);
            assert(sum / (n as u128) <= 0xffff_ffff_ffff_ffffu64 as u128) by (nonlinear_arith)
                requires
                    n >= 1,
                    sum <= n * 0xffff_ffff_ffff_ffffu64,
            ;
        }
        (sum / (n as u128)) as u64
    }
}

/// The instantaneous rate over a measured interval, in bytes per second,
/// saturating at the largest representable rate.
pub fn instantaneous_speed(delta_bytes: u64, elapsed_ms: u64) -> (r: u64)
    ensures
        elapsed_ms == 0 ==> r == 0,
        elapsed_ms > 0 ==> r == if delta_bytes * 1000 / elapsed_ms as int
            > 0xffff_ffff_ffff_ffffu64 {
            0xffff_ffff_ffff_ffffu64 as int
        } else {
            delta_bytes * 1000 / elapsed_ms as int
        },
{
    if elapsed_ms == 0 {
        0
    } else {
        let wide: u128 = (delta_bytes as u128) * 1000 / (elapsed_ms as u128);
        if wide > 0xffff_ffff_ffff_ffffu128 {
            0xffff_ffff_ffff_ffffu64
        } else {
            wide as u64
        }
    }
}

} // verus!
