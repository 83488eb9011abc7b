//! The range-parallel downloader's configuration, control signals, probe
//! interpretation and progress reporting.

use vstd::prelude::*;

use crate::speed::{format_duration, format_speed, spec_format_duration, spec_format_speed};
use crate::strutil::{contains_sub, is_digit, spec_contains_sub};
use crate::task::{progress_percent, spec_percent};

verus! {

/// Tuning of the range-parallel downloader.
#[derive(Clone, Copy, Debug)]
pub struct MultiThreadConfig {
    /// Concurrent connections for one download.
    pub max_connections: usize,
    /// The smallest chunk worth a connection of its own, in bytes.
    pub min_chunk_size: u64,
    /// Attempts per chunk before it fails.
    pub max_retries: u32,
    /// Per-request timeout in seconds.
    pub timeout_seconds: u64,
}

impl Default for MultiThreadConfig {
    /// Eight connections, one-mebibyte chunks, five retries, thirty seconds.
    fn default() -> (c: Self)
        ensures
            c.max_connections == 8,
            c.min_chunk_size == 1048576,
            c.max_retries == 5,
            c.timeout_seconds == 30,
    {
        MultiThreadConfig {
            max_connections: 8,
            min_chunk_size: 1048576,
            max_retries: 5,
            timeout_seconds: 30,
        }
    }
}

/// A control signal broadcast to every worker of one range-parallel download.
#[derive(Clone, Copy, Debug, PartialEq, Eq, Structural)]
pub enum DownloadControl {
    Pause,
    Cancel,
    Resume,
}

/// One progress report of the aggregator.
pub struct DownloadProgress {
    pub task_id: String,
    pub total_size: u64,
    pub downloaded_size: u64,
    /// Integer percentage of `downloaded_size` against `total_size`.
    pub progress: u8,
    pub speed: String,
    pub active_connections: usize,
    pub eta: Option<String>,
}

/// Validates a custom configuration: between one and thirty-two connections,
/// chunks of at least one kibibyte; retries and timeout take their defaults.
pub fn validate_custom_config(max_connections: usize, min_chunk_size: u64) -> (r: Result<
    MultiThreadConfig,
    &'static str,
>)
    ensures
        match r {
            Ok(c) => {
                &&& 1 <= max_connections <= 32
                &&& min_chunk_size >= 1024
                &&& c == (MultiThreadConfig {
                    max_connections,
                    min_chunk_size,
                    max_retries: 5,
                    timeout_seconds: 30,
                })
            },
            Err(_) => max_connections == 0 || max_connections > 32 || min_chunk_size < 1024,
        },
{
    if max_connections == 0 || max_connections > 32 {
        Err("the number of connections must be between 1 and 32")
    } else if min_chunk_size < 1024 {
        Err("the minimum chunk size cannot be below 1 KB")
    } else {
        Ok(MultiThreadConfig { max_connections, min_chunk_size, max_retries: 5, timeout_seconds: 30 })
    }
}

/// How many workers run: one per connection up to the number of chunks, and
/// a single one when the server takes no range requests.
pub fn worker_count(supports_range: bool, n_chunks: usize, max_connections: usize) -> (r: usize)
    ensures
        r == if supports_range {
            if max_connections <= n_chunks {
                max_connections as int
            } else {
                n_chunks as int
            }
        } else {
            1int
        },
{
    if supports_range {
        if max_connections <= n_chunks {
            max_connections
        } else {
            n_chunks
        }
    } else {
        1
    }
}

/// Whether an `Accept-Ranges` header value advertises byte ranges.
pub fn accept_ranges_supported(value: &str) -> (r: bool)
    ensures
        r == spec_contains_sub(value@, "bytes"@),
{
    contains_sub(value, "bytes")
}

/// Whether a polled control signal stops a chunk worker: pauses and cancels
/// end the inner read loop, a resume lets it go on.
pub fn control_stops_worker(c: &DownloadControl) -> (r: bool)
    ensures
        r == (c is Pause || c is Cancel),
{
    matches!(c, DownloadControl::Pause | DownloadControl::Cancel)
}

/// Whether the in-memory buffer of a chunk writer is due to reach the disk:
/// it flushes at eight kibibytes.
pub fn buffer_should_flush(buffered: usize) -> (r: bool)
    ensures
        r == (buffered >= 8192),
{
    buffered >= 8192
}

/// The numeric value of a decimal digit string.
pub open spec fn dec_value(s: Seq<char>) -> int
    decreases s.len(),
{
    if s.len() == 0 {
        0
    } else {
        dec_value(s.drop_last()) * 10 + (s.last() as int - '0' as int)
    }
}

/// Whether every character is a decimal digit.
pub open spec fn all_digits(s: Seq<char>) -> bool {
    forall|i: int| 0 <= i < s.len() ==> is_digit(#[trigger] s[i])
}

/// The value of a digit string never shrinks as digits are appended.
proof fn lemma_dec_value_prefix(s: Seq<char>, k: int)
    requires
        all_digits(s),
        0 <= k <= s.len(),
    ensures
        0 <= dec_value(s.take(k)) <= dec_value(s),
    decreases s.len() - k,
{
    if k == s.len() {
        assert(s.take(k) =~= s);
        lemma_dec_value_nonneg(s);
    } else {
        lemma_dec_value_prefix(s, k + 1);
        assert(s.take(k + 1).drop_last() =~= s.take(k));
        assert(s.take(k + 1).last() == s[k]);
        lemma_dec_value_nonneg(s.take(k));
        assert(dec_value(s.take(k)) * 10 >= dec_value(s.take(k))) by (nonlinear_arith)
            requires
                dec_value(s.take(k)) >= 0,
        ;
        assert(is_digit(s[k]));
    }
}

/// Digit strings have non-negative values.
proof fn lemma_dec_value_nonneg(s: Seq<char>)
    requires
        all_digits(s),
    ensures
        dec_value(s) >= 0,
    decreases s.len(),
{
    if s.len() > 0 {
        assert(all_digits(s.drop_last())) by {
            assert(forall|i: int|
                0 <= i < s.drop_last().len() ==> s.drop_last()[i] == #[trigger] s[i]);
        }
        lemma_dec_value_nonneg(s.drop_last());
        assert(is_digit(s.last()));
        assert(dec_value(s.drop_last()) * 10 >= 0) by (nonlinear_arith)
            requires
                dec_value(s.drop_last()) >= 0,
        ;
    }
}

/// Parses a `Content-Length` header value: a non-empty string of decimal
/// digits whose value fits an unsigned 64-bit count, and nothing else.
pub fn parse_content_length(value: &str) -> (r: Option<u64>)
    ensures
        match r {
            Some(n) => value@.len() > 0 && all_digits(value@) && n == dec_value(value@),
            None => !(value@.len() > 0 && all_digits(value@) && dec_value(value@)
                <= 0xffff_ffff_ffff_ffffu64),
        },
{
    let len = value.unicode_len();
    if len == 0 {
        return None;
    }
    let mut n: u64 = 0;
    let mut i: usize = 0;
    while i < len
        invariant
            len == value@.len(),
            0 < len,
            i <= len,
            all_digits(value@.take(i as int)),
            n == dec_value(value@.take(i as int)),
        decreases len - i,
    {
        let c = value.get_char(i);
        if !(c >= '0' && c <= '9') {
            proof {
                assert(!is_digit(value@[i as int]));
            }
            return None;
        }
        let d: u64 = (c as u32 as u64) - 48;
        proof {
            assert(value@.take(i + 1).drop_last() =~= value@.take(i as int));
            assert(value@.take(i + 1).last() == value@[i as int]);
            lemma_dec_value_nonneg(value@.take(i as int));
        }
        if n > (0xffff_ffff_ffff_ffffu64 - d) / 10 {
            proof {
                let pre = value@.take(i + 1);
                assert(dec_value(pre) == n * 10 + d);
                assert(n * 10 + d > 0xffff_ffff_ffff_ffffu64) by (nonlinear_arith)
                    requires
                        n > (0xffff_ffff_ffff_ffffu64 - d) / 10,
                        0 <= d <= 9,
                        n >= 0,
                ;
                if all_digits(value@) {
                    lemma_dec_value_prefix(value@, i + 1);
                }
            }
            return None;
        }
        proof {
            assert(n * 10 + d <= 0xffff_ffff_ffff_ffffu64) by (nonlinear_arith)
                requires
                    n <= (0xffff_ffff_ffff_ffffu64 - d) / 10,
                    0 <= d <= 9,
                    n >= 0,
            ;
        }
        n = n * 10 + d;
        i += 1;
    }
    proof {
        assert(value@.take(len as int) =~= value@);
    }
    Some(n)
}

/// The estimated time remaining: the missing bytes over the smoothed rate,
/// or nothing while the rate is zero.
pub fn eta_string(total_size: u64, downloaded: u64, avg_speed: u64) -> (r: Option<String>)
    requires
        downloaded <= total_size,
    ensures
        match r {
            Some(s) => avg_speed > 0 && s@ == spec_format_duration(
                (((total_size - downloaded) as u64) / avg_speed) as u64,
            ),
            None => avg_speed == 0,
        },
{
    if avg_speed > 0 {
        Some(format_duration((total_size - downloaded) / avg_speed))
    } else {
        None
    }
}

/// One aggregator tick: the snapshot the UI sees, with the integer
/// percentage, the formatted smoothed rate and the estimated time remaining.
pub fn progress_report(
    task_id: String,
    total_size: u64,
    downloaded: u64,
    active_connections: usize,
    avg_speed: u64,
) -> (r: DownloadProgress)
    requires
        total_size > 0 ==> downloaded <= total_size,
    ensures
        r.task_id == task_id,
        r.total_size == total_size,
        r.downloaded_size == downloaded,
        r.progress == spec_percent(downloaded, total_size),
        r.speed@ == spec_format_speed(avg_speed),
        r.active_connections == active_connections,
        match r.eta {
            Some(s) => avg_speed > 0 && total_size > 0 && s@ == spec_format_duration(
                (((total_size - downloaded) as u64) / avg_speed) as u64,
            ),
            None => avg_speed == 0 || total_size == 0,
        },
{
    let eta: Option<String> = if total_size > 0 {
        eta_string(total_size, downloaded, avg_speed)
    } else {
        None
    };
    DownloadProgress {
        task_id,
        total_size,
        downloaded_size: downloaded,
        progress: progress_percent(downloaded, total_size),
        speed: format_speed(avg_speed),
        active_connections,
        eta,
    }
}

} // verus!
