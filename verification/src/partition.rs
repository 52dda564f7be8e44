//! Partitioning a port range into contiguous worker chunks.

use vstd::prelude::*;

verus! {

/// A contiguous, inclusive sub-range of ports assigned to one worker.
#[derive(Clone, Copy, PartialEq, Eq, Structural, Debug)]
pub struct Chunk {
    pub start: u16,
    pub end: u16,
}

impl Chunk {
    /// A well-formed chunk is non-empty.
    pub open spec fn wf(self) -> bool {
        self.start <= self.end
    }

    /// Number of ports in the chunk.
    pub open spec fn len(self) -> int {
        self.end - self.start + 1
    }

    /// Whether a port lies in the chunk.
    pub open spec fn spec_contains(self, p: u16) -> bool {
        self.start <= p <= self.end
    }
}

/// The chunks tile the inclusive range `[start, end]`: the list is non-empty,
/// every chunk is non-empty, the first chunk begins at `start`, the last ends
/// at `end`, and each chunk begins right after its predecessor ends.
pub open spec fn is_chunk_cover(chunks: Seq<Chunk>, start: u16, end: u16) -> bool {
    &&& chunks.len() >= 1
    &&& chunks[0].start == start
    &&& chunks[chunks.len() - 1].end == end
    &&& forall|i: int| 0 <= i < chunks.len() ==> (#[trigger] chunks[i]).wf()
    &&& forall|i: int|
        0 <= i < chunks.len() - 1 ==> (#[trigger] chunks[i + 1]).start == chunks[i].end + 1
}

/// Whether some chunk of the list contains the port.
pub open spec fn cover_contains(chunks: Seq<Chunk>, p: u16) -> bool {
    exists|i: int| 0 <= i < chunks.len() && (#[trigger] chunks[i]).spec_contains(p)
}

/// In a chunk cover, an earlier chunk ends strictly before a later one begins.
proof fn lemma_cover_monotone(chunks: Seq<Chunk>, start: u16, end: u16, i: int, j: int)
    requires
        is_chunk_cover(chunks, start, end),
        0 <= i < j < chunks.len(),
    ensures
        chunks[i].end < chunks[j].start,
    decreases j - i,
{
    if j == i + 1 {
        assert(chunks[i + 1].start == chunks[i].end + 1);
    } else {
        lemma_cover_monotone(chunks, start, end, i, j - 1);
        assert(chunks[(j - 1) + 1].start == chunks[j - 1].end + 1);
        assert(chunks[j - 1].wf());
    }
}

/// A port at or after some chunk's start is contained in that chunk or a
/// later one.
proof fn lemma_cover_find(chunks: Seq<Chunk>, start: u16, end: u16, p: u16, i: int)
    requires
        is_chunk_cover(chunks, start, end),
        0 <= i < chunks.len(),
        chunks[i].start <= p <= end,
    ensures
        exists|j: int| i <= j < chunks.len() && (#[trigger] chunks[j]).spec_contains(p),
    decreases chunks.len() - i,
{
    if p <= chunks[i].end {
        assert(chunks[i].spec_contains(p));
    } else {
        assert(i < chunks.len() - 1);
        lemma_cover_find(chunks, start, end, p, i + 1);
    }
}

/// Partition completeness: in a chunk cover of `[start, end]`, every port of
/// the range lies in some chunk, no port lies in two chunks, and no chunk
/// reaches outside the range — the union of the chunk port-sets is exactly
/// the requested range, with no overlaps and no gaps.
pub proof fn lemma_chunk_cover_partitions(chunks: Seq<Chunk>, start: u16, end: u16)
    requires
        is_chunk_cover(chunks, start, end),
    ensures
        forall|p: u16| start <= p <= end ==> #[trigger] cover_contains(chunks, p),
        forall|i: int, j: int, p: u16|
            #![trigger chunks[i].spec_contains(p), chunks[j].spec_contains(p)]
            0 <= i < chunks.len() && 0 <= j < chunks.len() && i != j
                && chunks[i].spec_contains(p) ==> !chunks[j].spec_contains(p),
        forall|i: int, p: u16|
            0 <= i < chunks.len() && #[trigger] chunks[i].spec_contains(p) ==> start <= p <= end,
{
    assert forall|p: u16| start <= p <= end implies #[trigger] cover_contains(chunks, p) by {
        lemma_cover_find(chunks, start, end, p, 0);
    }
    assert forall|i: int, j: int, p: u16|
        #![trigger chunks[i].spec_contains(p), chunks[j].spec_contains(p)]
        0 <= i < chunks.len() && 0 <= j < chunks.len() && i != j
            && chunks[i].spec_contains(p) implies !chunks[j].spec_contains(p) by {
        if i < j {
            lemma_cover_monotone(chunks, start, end, i, j);
        } else {
            lemma_cover_monotone(chunks, start, end, j, i);
        }
    }
    assert forall|i: int, p: u16|
        0 <= i < chunks.len() && #[trigger] chunks[i].spec_contains(p) implies start <= p
        <= end by {
        if i > 0 {
            lemma_cover_monotone(chunks, start, end, 0, i);
        }
        if i < chunks.len() - 1 {
            lemma_cover_monotone(chunks, start, end, i, chunks.len() - 1);
        }
    }
}

/// Ports per chunk: the range length divided by the worker count, but at
/// least one.
pub open spec fn spec_chunk_size(range_len: int, workers: int) -> int {
    if range_len / workers == 0 {
        1
    } else {
        range_len / workers
    }
}

/// Number of chunks the range is split into: as many whole chunks as fit;
/// the remainder of the division extends the last chunk.
pub open spec fn spec_chunk_count(range_len: int, workers: int) -> int {
    range_len / spec_chunk_size(range_len, workers)
}

/// Split the inclusive range `[start, end]` into contiguous chunks, one per
/// worker: each chunk but the last holds exactly `max(1, range_len / workers)`
/// ports, and the remainder of the division is assigned to the last chunk,
/// never dropped.
pub fn partition(start: u16, end: u16, workers: u16) -> (chunks: Vec<Chunk>)
    requires
        start <= end,
        workers >= 1,
    ensures
        is_chunk_cover(chunks@, start, end),
        chunks@.len() == spec_chunk_count(end - start + 1, workers as int),
        forall|i: int|
            0 <= i < chunks@.len() - 1 ==> (#[trigger] chunks@[i]).len() == spec_chunk_size(
                end - start + 1,
                workers as int,
            ),
{
    let len: usize = (end - start) as usize + 1;
    let mut cs: usize = len / (workers as usize);
    if cs == 0 {
        cs = 1;
    }
    let n: usize = len / cs;
    proof {
        assert(cs == spec_chunk_size(end - start + 1, workers as int));
        assert(n == spec_chunk_count(end - start + 1, workers as int));
        assert(cs <= len);
        assert(n >= 1) by (nonlinear_arith)
            requires 1 <= cs <= len, n == len / cs;
        assert(n * cs <= len) by (nonlinear_arith)
            requires cs >= 1, n == len / cs;
        assert(n <= len) by (nonlinear_arith)
            requires cs >= 1, n == len / cs, len >= 1;
    }
    let mut chunks: Vec<Chunk> = Vec::new();
    let mut cur: usize = start as usize;
    let mut i: usize = 0;
    while i < n
        invariant
            1 <= cs,
            1 <= n,
            n * cs <= len,
            len == end - start + 1,
            start <= end,
            0 <= i <= n,
            cur == start + i * cs,
            chunks@.len() == i,
            i < n ==> cur + cs <= start + len,
            forall|k: int| 0 <= k < i ==> (#[trigger] chunks@[k]).wf(),
            i >= 1 ==> chunks@[0].start == start,
            forall|k: int|
                0 <= k < i - 1 ==> (#[trigger] chunks@[k + 1]).start == chunks@[k].end + 1,
            forall|k: int| 0 <= k < i && k < n - 1 ==> (#[trigger] chunks@[k]).len() == cs,
            i >= 1 && i < n ==> chunks@[i - 1].end + 1 == cur,
            i == n && i >= 1 ==> chunks@[i - 1].end == end,
        decreases n - i,
    {
        proof {
            assert((i + 1) * cs == i * cs + cs) by (nonlinear_arith);
            assert(i * cs + cs <= n * cs) by (nonlinear_arith)
                requires i + 1 <= n, cs >= 1, (i + 1) * cs == i * cs + cs;
            if i == 0 {
                assert(i * cs == 0) by (nonlinear_arith)
                    requires i == 0;
            }
            assert(cur + cs <= start + len);
            assert(cur <= 65535);
        }
        let c_start: u16 = cur as u16;
        let c_end: u16 = if i == n - 1 {
            end
        } else {
            (cur + cs - 1) as u16
        };
        chunks.push(Chunk { start: c_start, end: c_end });
        cur = cur + cs;
        i = i + 1;
        proof {
            assert(i * cs == (i - 1) * cs + cs) by (nonlinear_arith);
            if i < n {
                assert((i + 1) * cs <= n * cs) by (nonlinear_arith)
                    requires i + 1 <= n, cs >= 1;
                assert((i + 1) * cs == i * cs + cs) by (nonlinear_arith);
            }
        }
    }
    chunks
}

/// The ports of a chunk, in ascending order: the sequence a worker probes.
pub fn chunk_ports(chunk: &Chunk) -> (ports: Vec<u16>)
    requires
        chunk.wf(),
    ensures
        ports@.len() == chunk.len(),
        forall|i: int| 0 <= i < ports@.len() ==> ports@[i] == chunk.start + i,
{
    let len: usize = (chunk.end - chunk.start) as usize + 1;
    let mut ports: Vec<u16> = Vec::new();
    let mut i: usize = 0;
    while i < len
        invariant
            len == chunk.len(),
            chunk.wf(),
            0 <= i <= len,
            ports@.len() == i,
            forall|k: int| 0 <= k < i ==> ports@[k] == chunk.start + k,
        decreases len - i,
    {
        ports.push(chunk.start + (i as u16));
        i = i + 1;
    }
    ports
}

} // verus!
