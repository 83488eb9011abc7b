//! The range-parallel chunk planner and scheduler: partitioning a file into
//! contiguous byte ranges, claiming work, and accounting for written bytes.

use vstd::prelude::*;

use crate::strutil::{dec_digits, u64_string};

verus! {

/// State of one byte range of the target file.
#[derive(Clone, Copy, Debug, PartialEq, Eq, Structural)]
pub enum ChunkStatus {
    Pending,
    Downloading,
    Completed,
    Failed,
}

/// One contiguous byte range of the target file, assigned to one connection.
/// `start` and `end` are inclusive offsets.
#[derive(Clone, Copy, Debug)]
pub struct DownloadChunk {
    pub index: usize,
    pub start: u64,
    pub end: u64,
    pub downloaded: u64,
    pub status: ChunkStatus,
    pub retries: u32,
}

/// The number of bytes a chunk covers.
pub open spec fn chunk_len(c: DownloadChunk) -> int {
    c.end - c.start + 1
}

/// Well-formedness of one chunk: a non-empty range, never overfilled, and
/// full exactly when it reports completion.
pub open spec fn chunk_wf(c: DownloadChunk) -> bool {
    &&& c.start <= c.end
    &&& chunk_len(c) <= 0xffff_ffff_ffff_ffffu64
    &&& c.downloaded <= chunk_len(c)
    &&& (c.status is Completed ==> c.downloaded == chunk_len(c))
}

/// The chunks cover `[0, total)` contiguously, disjointly and in order.
pub open spec fn chunks_partition(cs: Seq<DownloadChunk>, total: u64) -> bool {
    &&& total >= 1
    &&& cs.len() >= 1
    &&& cs[0].start == 0
    &&& cs[cs.len() - 1].end == total - 1
    &&& forall|i: int|
        #![trigger cs[i], cs[i + 1]]
        0 <= i && i + 1 < cs.len() ==> cs[i + 1].start == cs[i].end + 1
    &&& forall|i: int| 0 <= i < cs.len() ==> (#[trigger] cs[i]).index == i
}

/// Well-formedness of a chunk list for a file of `total` bytes.
pub open spec fn chunks_wf(cs: Seq<DownloadChunk>, total: u64) -> bool {
    &&& chunks_partition(cs, total)
    &&& forall|i: int| 0 <= i < cs.len() ==> chunk_wf(#[trigger] cs[i])
}

/// The chunk size the planner aims at: an even split over the connections,
/// but never below the configured minimum.
pub open spec fn spec_chunk_size(total: u64, max_connections: usize, min_chunk_size: u64) -> int {
    if total < min_chunk_size {
        total as int
    } else if total as int / max_connections as int > min_chunk_size {
        total as int / max_connections as int
    } else {
        min_chunk_size as int
    }
}

/// Partitions a file of `total` bytes into contiguous chunks: one chunk when
/// the file is below the minimum chunk size, otherwise ranges of
/// `max(total / max_connections, min_chunk_size)` bytes with a short tail.
pub fn calculate_chunks(total: u64, max_connections: usize, min_chunk_size: u64) -> (cs: Vec<
    DownloadChunk,
>)
    requires
        total >= 1,
        max_connections >= 1,
        min_chunk_size >= 1,
    ensures
        chunks_wf(cs@, total),
        forall|i: int|
            0 <= i < cs@.len() - 1 ==> chunk_len(#[trigger] cs@[i]) == spec_chunk_size(
                total,
                max_connections,
                min_chunk_size,
            ),
        chunk_len(cs@[cs@.len() - 1]) <= spec_chunk_size(total, max_connections, min_chunk_size),
        cs@.len() == (total + spec_chunk_size(total, max_connections, min_chunk_size) - 1)
            / spec_chunk_size(total, max_connections, min_chunk_size),
        forall|i: int|
            0 <= i < cs@.len() ==> (#[trigger] cs@[i]).status is Pending && cs@[i].downloaded == 0
                && cs@[i].retries == 0,
{
    let chunk_size: u64 = if total < min_chunk_size {
        total
    } else {
        let even: u64 = total / (max_connections as u64);
        if even > min_chunk_size {
            even
        } else {
            min_chunk_size
        }
    };
    proof {
        assert(chunk_size == spec_chunk_size(total, max_connections, min_chunk_size));
        assert(total as int / max_connections as int <= total) by (nonlinear_arith)
            requires
                max_connections >= 1,
                total >= 0,
        ;
        assert(1 <= chunk_size <= total);
    }
    let ghost csz = chunk_size as int;
    let mut cs: Vec<DownloadChunk> = Vec::new();
    let mut start: u64 = 0;
    while start < total
        invariant
            1 <= chunk_size <= total,
            csz == chunk_size,
            start <= total,
            cs@.len() >= 1 ==> cs@[0].start == 0 && start == cs@[cs@.len() - 1].end + 1,
            cs@.len() == 0 ==> start == 0,
            forall|i: int|
                #![trigger cs@[i], cs@[i + 1]]
                0 <= i && i + 1 < cs@.len() ==> cs@[i + 1].start == cs@[i].end + 1,
            forall|i: int| 0 <= i < cs@.len() ==> (#[trigger] cs@[i]).index == i,
            forall|i: int| 0 <= i < cs@.len() ==> chunk_wf(#[trigger] cs@[i]),
            forall|i: int|
                0 <= i < cs@.len() ==> ((#[trigger] cs@[i]).status is Pending && cs@[i].downloaded
                    == 0 && cs@[i].retries == 0),
            forall|i: int| 0 <= i < cs@.len() ==> chunk_len(#[trigger] cs@[i]) <= csz,
            start < total ==> (forall|i: int|
                0 <= i < cs@.len() ==> chunk_len(#[trigger] cs@[i]) == csz),
            forall|i: int| 0 <= i < cs@.len() - 1 ==> chunk_len(#[trigger] cs@[i]) == csz,
            start < total ==> start == cs@.len() * csz,
            start == total ==> (cs@.len() - 1) * csz < total <= cs@.len() * csz,
        decreases total - start,
    {
        let end: u64 = if chunk_size - 1 > (total - 1) - start {
            total - 1
        } else {
            start + (chunk_size - 1)
        };
        let ghost old_len = cs@.len() as int;
        let idx = cs.len();
        cs.push(DownloadChunk {
            index: idx,
            start,
            end,
            downloaded: 0,
            status: ChunkStatus::Pending,
            retries: 0,
        });
        proof {
            assert(start == old_len * csz);
            assert((old_len + 1) * csz == old_len * csz + csz) by (nonlinear_arith);
            assert(cs@.len() == old_len + 1);
            assert(end + 1 <= total);
            assert(end + 1 <= start + csz);
            if end + 1 < total {
                assert(end == start + chunk_size - 1);
                assert(chunk_len(cs@[old_len]) == csz);
            }
        }
        start = end + 1;
    }
    proof {
        let n = cs@.len() as int;
        assert(n == (total + csz - 1) / csz) by (nonlinear_arith)
            requires
                csz >= 1,
                (n - 1) * csz < total <= n * csz,
                n >= 1,
        ;
    }
    cs
}

/// Claims the first pending chunk, marking it as downloading; returns its
/// index and a snapshot for the worker, or nothing when no work remains.
pub fn claim_next_pending(cs: &mut Vec<DownloadChunk>) -> (r: Option<(usize, DownloadChunk)>)
    ensures
        match r {
            Some((i, c)) => {
                &&& i < old(cs)@.len()
                &&& old(cs)@[i as int].status is Pending
                &&& forall|j: int| 0 <= j < i ==> !((#[trigger] old(cs)@[j]).status is Pending)
                &&& c == final(cs)@[i as int]
                &&& final(cs)@ == old(cs)@.update(
                    i as int,
                    DownloadChunk { status: ChunkStatus::Downloading, ..old(cs)@[i as int] },
                )
            },
            None => {
                &&& final(cs)@ == old(cs)@
                &&& forall|j: int|
                    0 <= j < old(cs)@.len() ==> !((#[trigger] old(cs)@[j]).status is Pending)
            },
        },
{
    let n = cs.len();
    let mut i: usize = 0;
    while i < n
        invariant
            n == cs@.len(),
            i <= n,
            cs@ == old(cs)@,
            forall|j: int| 0 <= j < i ==> !((#[trigger] cs@[j]).status is Pending),
        decreases n - i,
    {
        if matches!(cs[i].status, ChunkStatus::Pending) {
            let updated = DownloadChunk { status: ChunkStatus::Downloading, ..cs[i] };
            cs.set(i, updated);
            return Some((i, updated));
        }
        i += 1;
    }
    None
}

/// Accounts for `n` bytes streamed into a chunk.
pub fn record_chunk_bytes(c: &mut DownloadChunk, n: u64)
    requires
        chunk_wf(*old(c)),
        old(c).downloaded + n <= chunk_len(*old(c)),
    ensures
        chunk_wf(*final(c)),
        *final(c) == (DownloadChunk { downloaded: (old(c).downloaded + n) as u64, ..*old(c) }),
{
    c.downloaded = c.downloaded + n;
}

/// Marks a fully written chunk as completed.
pub fn finish_chunk(c: &mut DownloadChunk)
    requires
        chunk_wf(*old(c)),
        old(c).downloaded == chunk_len(*old(c)),
    ensures
        chunk_wf(*final(c)),
        *final(c) == (DownloadChunk { status: ChunkStatus::Completed, ..*old(c) }),
{
    c.status = ChunkStatus::Completed;
}

/// Marks a chunk as failed after `retries` attempts.
pub fn fail_chunk(c: &mut DownloadChunk, retries: u32)
    requires
        chunk_wf(*old(c)),
    ensures
        chunk_wf(*final(c)),
        *final(c) == (DownloadChunk { status: ChunkStatus::Failed, retries, ..*old(c) }),
{
    c.status = ChunkStatus::Failed;
    c.retries = retries;
}

/// The byte offset the next range request for this chunk starts at.
pub fn chunk_range_start(c: &DownloadChunk) -> (r: u64)
    requires
        chunk_wf(*c),
        c.downloaded < chunk_len(*c),
    ensures
        r == c.start + c.downloaded,
{
    c.start + c.downloaded
}

/// The value of a `Range` request header covering `[s, e]` inclusive.
pub fn range_header_value(s: u64, e: u64) -> (r: String)
    ensures
        r@ == "bytes="@ + dec_digits(s as nat) + "-"@ + dec_digits(e as nat),
{
    proof {
        reveal_strlit("bytes=");
        reveal_strlit("-");
    }
    let mut r = String::from_str("bytes=");
    let sd = u64_string(s);
    r.append(sd.as_str());
    r.append("-");
    let ed = u64_string(e);
    r.append(ed.as_str());
    proof {
        assert(r@ =~= "bytes="@ + dec_digits(s as nat) + "-"@ + dec_digits(e as nat));
    }
    r
}

/// Later chunks lie strictly after earlier ones.
proof fn lemma_chunks_ordered(cs: Seq<DownloadChunk>, i: int, j: int)
    requires
        forall|k: int|
            #![trigger cs[k], cs[k + 1]]
            0 <= k && k + 1 < cs.len() ==> cs[k + 1].start == cs[k].end + 1,
        forall|k: int| 0 <= k < cs.len() ==> (#[trigger] cs[k]).start <= cs[k].end,
        0 <= i < j < cs.len(),
    ensures
        cs[i].end < cs[j].start,
    decreases j - i,
{
    if j == i + 1 {
        assert(cs[i + 1].start == cs[i].end + 1);
    } else {
        lemma_chunks_ordered(cs, i, j - 1);
        assert(cs[(j - 1) + 1].start == cs[j - 1].end + 1);
    }
}

/// Chunk ranges are pairwise disjoint: two workers never write the same byte
/// offset, so the final file content does not depend on completion order.
pub proof fn lemma_chunks_disjoint(cs: Seq<DownloadChunk>, total: u64, i: int, j: int)
    requires
        chunks_wf(cs, total),
        0 <= i < cs.len(),
        0 <= j < cs.len(),
        i != j,
    ensures
        cs[i].end < cs[j].start || cs[j].end < cs[i].start,
{
    assert forall|k: int| 0 <= k < cs.len() implies (#[trigger] cs[k]).start <= cs[k].end by {
        assert(chunk_wf(cs[k]));
    }
    if i < j {
        lemma_chunks_ordered(cs, i, j);
    } else {
        lemma_chunks_ordered(cs, j, i);
    }
}

/// The chunks cover the whole file: every byte offset below the total lies
/// in some chunk's range.
pub proof fn lemma_chunks_cover(cs: Seq<DownloadChunk>, total: u64, off: int)
    requires
        chunks_wf(cs, total),
        0 <= off < total,
    ensures
        exists|k: int|
            0 <= k < cs.len() && (#[trigger] cs[k]).start <= off && off <= cs[k].end,
{
    lemma_chunks_cover_prefix(cs, total, off, cs.len() - 1);
}

/// Any offset up to the end of chunk `j` lies in one of the first `j + 1`
/// chunks.
proof fn lemma_chunks_cover_prefix(cs: Seq<DownloadChunk>, total: u64, off: int, j: int)
    requires
        chunks_wf(cs, total),
        0 <= j < cs.len(),
        0 <= off <= cs[j].end,
    ensures
        exists|k: int|
            0 <= k < cs.len() && (#[trigger] cs[k]).start <= off && off <= cs[k].end,
    decreases j,
{
    assert(chunk_wf(cs[j]));
    if off >= cs[j].start {
        assert(cs[j].start <= off && off <= cs[j].end);
    } else {
        assert(j > 0) by {
            if j == 0 {
                assert(cs[0].start == 0);
            }
        }
        assert(cs[(j - 1) + 1].start == cs[j - 1].end + 1);
        lemma_chunks_cover_prefix(cs, total, off, j - 1);
    }
}

/// The bytes the chunks have written so far, summed in order.
pub open spec fn sum_downloaded(cs: Seq<DownloadChunk>) -> int
    decreases cs.len(),
{
    if cs.len() == 0 {
        0
    } else {
        sum_downloaded(cs.drop_last()) + cs.last().downloaded
    }
}

/// The bytes the chunks cover, summed in order.
pub open spec fn sum_len(cs: Seq<DownloadChunk>) -> int
    decreases cs.len(),
{
    if cs.len() == 0 {
        0
    } else {
        sum_len(cs.drop_last()) + chunk_len(cs.last())
    }
}

/// A contiguous run of chunks covers exactly the span between its first
/// start and its last end.
pub proof fn lemma_contiguous_sum(cs: Seq<DownloadChunk>)
    requires
        cs.len() >= 1,
        forall|i: int|
            #![trigger cs[i], cs[i + 1]]
            0 <= i && i + 1 < cs.len() ==> cs[i + 1].start == cs[i].end + 1,
        forall|i: int| 0 <= i < cs.len() ==> (#[trigger] cs[i]).start <= cs[i].end,
    ensures
        sum_len(cs) == cs.last().end + 1 - cs[0].start,
{
    lemma_contiguous_sum_prefix(cs, cs.len() as int);
    assert(cs.take(cs.len() as int) =~= cs);
}

proof fn lemma_contiguous_sum_prefix(cs: Seq<DownloadChunk>, k: int)
    requires
        1 <= k <= cs.len(),
        forall|i: int|
            #![trigger cs[i], cs[i + 1]]
            0 <= i && i + 1 < cs.len() ==> cs[i + 1].start == cs[i].end + 1,
        forall|i: int| 0 <= i < cs.len() ==> (#[trigger] cs[i]).start <= cs[i].end,
    ensures
        sum_len(cs.take(k)) == cs[k - 1].end + 1 - cs[0].start,
    decreases k,
{
    assert(cs.take(k).len() == k);
    assert(sum_len(cs.take(k)) == sum_len(cs.take(k).drop_last()) + chunk_len(cs.take(k).last()));
    if k == 1 {
        assert(cs.take(1).drop_last() =~= Seq::<DownloadChunk>::empty());
        assert(sum_len(cs.take(1).drop_last()) == 0);
        assert(cs.take(1).last() == cs[0]);
    } else {
        lemma_contiguous_sum_prefix(cs, k - 1);
        assert(cs.take(k).drop_last() =~= cs.take(k - 1));
        assert(sum_len(cs.take(k).drop_last()) == sum_len(cs.take(k - 1)));
        assert(cs.take(k).last() == cs[k - 1]);
        assert(cs[(k - 2) + 1].start == cs[k - 2].end + 1);
    }
}

/// A partition of `[0, total)` covers `total` bytes in all.
pub proof fn lemma_partition_total(cs: Seq<DownloadChunk>, total: u64)
    requires
        chunks_wf(cs, total),
    ensures
        sum_len(cs) == total,
{
    assert forall|i: int| 0 <= i < cs.len() implies (#[trigger] cs[i]).start <= cs[i].end by {
        assert(chunk_wf(cs[i]));
    }
    lemma_contiguous_sum(cs);
}

/// No chunk list ever accounts for more bytes than it covers.
pub proof fn lemma_sum_downloaded_le(cs: Seq<DownloadChunk>)
    requires
        forall|i: int| 0 <= i < cs.len() ==> chunk_wf(#[trigger] cs[i]),
    ensures
        sum_downloaded(cs) <= sum_len(cs),
    decreases cs.len(),
{
    if cs.len() > 0 {
        lemma_sum_downloaded_le(cs.drop_last());
        assert(chunk_wf(cs.last()));
    }
}

/// When every chunk is completed, the written bytes are exactly the file:
/// the final size of a finished range-parallel download equals `total`.
pub proof fn lemma_all_completed_sum(cs: Seq<DownloadChunk>, total: u64)
    requires
        chunks_wf(cs, total),
        forall|i: int| 0 <= i < cs.len() ==> (#[trigger] cs[i]).status is Completed,
    ensures
        sum_downloaded(cs) == total,
{
    lemma_partition_total(cs, total);
    lemma_sum_eq_when_completed(cs);
}

proof fn lemma_sum_eq_when_completed(cs: Seq<DownloadChunk>)
    requires
        forall|i: int| 0 <= i < cs.len() ==> chunk_wf(#[trigger] cs[i]),
        forall|i: int| 0 <= i < cs.len() ==> (#[trigger] cs[i]).status is Completed,
    ensures
        sum_downloaded(cs) == sum_len(cs),
    decreases cs.len(),
{
    if cs.len() > 0 {
        lemma_sum_eq_when_completed(cs.drop_last());
        assert(chunk_wf(cs.last()));
    }
}

/// Sums the bytes written across all chunks.
pub fn total_downloaded(cs: &Vec<DownloadChunk>, total: u64) -> (r: u64)
    requires
        chunks_wf(cs@, total),
    ensures
        r == sum_downloaded(cs@),
        r <= total,
{
    proof {
        lemma_partition_total(cs@, total);
        lemma_sum_downloaded_le(cs@);
    }
    let n = cs.len();
    let mut sum: u64 = 0;
    let mut i: usize = 0;
    while i < n
        invariant
            n == cs@.len(),
            i <= n,
            chunks_wf(cs@, total),
            sum == sum_downloaded(cs@.take(i as int)),
            sum <= total,
        decreases n - i,
    {
        proof {
            assert(cs@.take(i + 1).drop_last() =~= cs@.take(i as int));
            lemma_prefix_sum_le(cs@, i + 1, total);
        }
        sum = sum + cs[i].downloaded;
        i += 1;
    }
    proof {
        assert(cs@.take(n as int) =~= cs@);
    }
    sum
}

/// A prefix never accounts for more than the whole file.
proof fn lemma_prefix_sum_le(cs: Seq<DownloadChunk>, k: int, total: u64)
    requires
        chunks_wf(cs, total),
        0 <= k <= cs.len(),
    ensures
        sum_downloaded(cs.take(k)) <= total,
    decreases cs.len() - k,
{
    if k == cs.len() {
        assert(cs.take(k) =~= cs);
        lemma_partition_total(cs, total);
        lemma_sum_downloaded_le(cs);
    } else {
        lemma_prefix_sum_le(cs, k + 1, total);
        assert(cs.take(k + 1).drop_last() =~= cs.take(k));
        assert(chunk_wf(cs[k]));
    }
}

/// Counts the chunks a worker is actively streaming.
pub fn active_connections(cs: &Vec<DownloadChunk>) -> (r: usize)
    ensures
        r <= cs@.len(),
        r == count_downloading(cs@),
{
    let n = cs.len();
    let mut count: usize = 0;
    let mut i: usize = 0;
    while i < n
        invariant
            n == cs@.len(),
            i <= n,
            count == count_downloading(cs@.take(i as int)),
            count <= i,
        decreases n - i,
    {
        proof {
            assert(cs@.take(i + 1).drop_last() =~= cs@.take(i as int));
        }
        if matches!(cs[i].status, ChunkStatus::Downloading) {
            count += 1;
        }
        i += 1;
    }
    proof {
        assert(cs@.take(n as int) =~= cs@);
    }
    count
}

/// How many chunks are currently downloading.
pub open spec fn count_downloading(cs: Seq<DownloadChunk>) -> int
    decreases cs.len(),
{
    if cs.len() == 0 {
        0
    } else {
        count_downloading(cs.drop_last()) + if cs.last().status is Downloading {
            1int
        } else {
            0int
        }
    }
}

/// Whether every chunk has completed.
pub fn all_completed(cs: &Vec<DownloadChunk>) -> (r: bool)
    ensures
        r == forall|i: int| 0 <= i < cs@.len() ==> (#[trigger] cs@[i]).status is Completed,
{
    let n = cs.len();
    let mut i: usize = 0;
    while i < n
        invariant
            n == cs@.len(),
            i <= n,
            forall|j: int| 0 <= j < i ==> (#[trigger] cs@[j]).status is Completed,
        decreases n - i,
    {
        if !matches!(cs[i].status, ChunkStatus::Completed) {
            return false;
        }
        i += 1;
    }
    true
}

} // verus!
