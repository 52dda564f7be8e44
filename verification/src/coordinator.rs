//! The scan coordinator's pure core: from a validated request and the
//! observed probe outcomes to the final ordered report.

use vstd::prelude::*;

use crate::partition::{is_chunk_cover, lemma_chunk_cover_partitions, partition};
use crate::probe::{assemble_chunk_results, spec_make_result, PortResult, ProbeOutcome};
use crate::report::{assemble_report, flatten_results, sorted_by_port, ScanReport};
use crate::request::ScanRequest;

verus! {

/// The results a scan of `req` must produce, given the probe outcomes in
/// ascending port order: for each offset `i`, the gated record for port
/// `start_port + i`.
pub open spec fn expected_results(req: ScanRequest, outcomes: Seq<ProbeOutcome>) -> Seq<PortResult> {
    Seq::new(
        outcomes.len(),
        |i: int| spec_make_result((req.start_port + i) as u16, outcomes[i], req.banner_enabled),
    )
}

/// In a sequence with strictly increasing ports, the port at `k` is at least
/// `k` above the first port.
proof fn lemma_strict_ports_lower(x: Seq<PortResult>, k: int)
    requires
        forall|a: int, b: int| 0 <= a < b < x.len() ==> x[a].port < x[b].port,
        0 <= k < x.len(),
    ensures
        x[k].port >= x[0].port + k,
    decreases k,
{
    if k > 0 {
        lemma_strict_ports_lower(x, k - 1);
    }
}

/// In a sequence with strictly increasing ports, the port at `k` is at least
/// `len - 1 - k` below the last port.
proof fn lemma_strict_ports_upper(x: Seq<PortResult>, k: int)
    requires
        forall|a: int, b: int| 0 <= a < b < x.len() ==> x[a].port < x[b].port,
        0 <= k < x.len(),
    ensures
        x[k].port + (x.len() - 1 - k) <= x[x.len() - 1].port,
    decreases x.len() - k,
{
    if k < x.len() - 1 {
        lemma_strict_ports_upper(x, k + 1);
    }
}

/// Coverage and ordering, combined: a port-sorted sequence that holds exactly
/// the same results (as a multiset) as a sequence with one result per
/// consecutive port is that sequence itself. Sorting the collected worker
/// results can therefore neither drop, duplicate, nor reorder ports: the
/// report lists exactly one result per port, in ascending order.
pub proof fn lemma_sorted_cover_pins(x: Seq<PortResult>, y: Seq<PortResult>, start: u16)
    requires
        sorted_by_port(x),
        x.to_multiset() == y.to_multiset(),
        forall|i: int| 0 <= i < y.len() ==> (#[trigger] y[i]).port == start + i,
        start + y.len() <= 65536,
    ensures
        x == y,
{
    broadcast use vstd::seq_lib::group_to_multiset_ensures;

    assert(x.len() == x.to_multiset().len());
    assert(y.len() == y.to_multiset().len());
    assert(x.len() == y.len());
    let n = x.len();
    assert(y.no_duplicates()) by {
        assert forall|i: int, j: int|
            0 <= i < n && 0 <= j < n && i != j implies y[i] != y[j] by {
            assert(y[i].port == start + i);
            assert(y[j].port == start + j);
        }
    }
    y.lemma_multiset_has_no_duplicates();
    x.lemma_multiset_has_no_duplicates_conv();
    assert forall|k: int| 0 <= k < n implies exists|j: int|
        0 <= j < n && y[j] == #[trigger] x[k] by {
        assert(x.contains(x[k]));
        assert(x.to_multiset().count(x[k]) > 0);
        assert(y.contains(x[k]));
    }
    assert forall|k: int, l: int|
        0 <= k < n && 0 <= l < n && k != l implies #[trigger] x[k].port != #[trigger] x[l].port by {
        if x[k].port == x[l].port {
            let jk = choose|j: int| 0 <= j < n && y[j] == x[k];
            let jl = choose|j: int| 0 <= j < n && y[j] == x[l];
            assert(y[jk].port == start + jk);
            assert(y[jl].port == start + jl);
            assert(jk == jl);
            assert(x[k] == x[l]);
            assert(x.no_duplicates());
        }
    }
    assert forall|a: int, b: int| 0 <= a < b < n implies x[a].port < x[b].port by {
        assert(x[a].port <= x[b].port);
    }
    assert forall|k: int| 0 <= k < n implies start <= #[trigger] x[k].port < start + n by {
        let j = choose|j: int| 0 <= j < n && y[j] == x[k];
        assert(y[j].port == start + j);
    }
    assert forall|k: int| 0 <= k < n implies #[trigger] x[k].port == start + k by {
        lemma_strict_ports_lower(x, k);
        lemma_strict_ports_upper(x, k);
        assert(x[0].port >= start);
        assert(x[n - 1].port < start + n);
    }
    assert forall|k: int| 0 <= k < n implies #[trigger] x[k] == y[k] by {
        let j = choose|j: int| 0 <= j < n && y[j] == x[k];
        assert(y[j].port == start + j);
        assert(x[k].port == start + k);
        assert(j == k);
    }
    assert(x =~= y);
}

/// Run the pure part of a whole scan: partition the range as the workers do,
/// assemble each chunk's results from the outcomes observed on it, and
/// aggregate the sorted report. The report holds exactly one result per
/// requested port, in ascending port order, each reflecting its outcome with
/// the banner gate enforced.
pub fn run_scan(req: &ScanRequest, outcomes: Vec<ProbeOutcome>, elapsed_millis: u64) -> (report: ScanReport)
    requires
        req.wf(),
        outcomes@.len() == req.range_len(),
    ensures
        report.results@ == expected_results(*req, outcomes@),
        report.results@.len() == req.range_len(),
        forall|i: int|
            0 <= i < report.results@.len() ==> #[trigger] report.results@[i] == spec_make_result(
                (req.start_port + i) as u16,
                outcomes@[i],
                req.banner_enabled,
            ),
        forall|i: int|
            0 <= i < report.results@.len() ==> (#[trigger] report.results@[i]).port
                == req.start_port + i,
        forall|i: int, j: int|
            0 <= i < j < report.results@.len() ==> report.results@[i].port
                < report.results@[j].port,
        forall|i: int| 0 <= i < report.results@.len() ==> (#[trigger] report.results@[i]).banner_gated(),
        forall|i: int|
            0 <= i < report.results@.len() && (#[trigger] report.results@[i]).banner is Some
                ==> req.banner_enabled,
        report.elapsed_millis == elapsed_millis,
{
    let ghost all_outcomes = outcomes@;
    let ghost expected = expected_results(*req, outcomes@);
    let start = req.start_port;
    let end = req.end_port;
    let chunks = partition(start, end, req.worker_count);
    proof {
        lemma_chunk_cover_partitions(chunks@, start, end);
    }
    let mut chunk_results: Vec<Vec<PortResult>> = Vec::new();
    let mut rest = outcomes;
    let mut k: usize = 0;
    let mut idx: usize = 0;
    proof {
        assert(flatten_results(chunk_results@) =~= expected.take(0));
    }
    while k < chunks.len()
        invariant
            is_chunk_cover(chunks@, start, end),
            start == req.start_port,
            end == req.end_port,
            req.wf(),
            all_outcomes.len() == req.range_len(),
            expected == expected_results(*req, all_outcomes),
            0 <= k <= chunks@.len(),
            k < chunks@.len() ==> idx == chunks@[k as int].start - start,
            k == chunks@.len() ==> idx == all_outcomes.len(),
            idx <= all_outcomes.len(),
            rest@ == all_outcomes.skip(idx as int),
            chunk_results@.len() == k,
            flatten_results(chunk_results@) == expected.take(idx as int),
            forall|i: int, j: int, p: u16|
                #![trigger chunks@[i].spec_contains(p), chunks@[j].spec_contains(p)]
                0 <= i < chunks@.len() && 0 <= j < chunks@.len() && i != j
                    && chunks@[i].spec_contains(p) ==> !chunks@[j].spec_contains(p),
            forall|i: int, p: u16|
                0 <= i < chunks@.len() && #[trigger] chunks@[i].spec_contains(p) ==> start <= p
                    <= end,
        decreases chunks@.len() - k,
    {
        let chunk = chunks[k];
        proof {
            assert(chunk.wf());
            assert(chunk.spec_contains(chunk.end));
            assert(chunk.end <= end);
            if k + 1 < chunks@.len() {
                assert(chunks@[k as int + 1].start == chunks@[k as int].end + 1);
            }
        }
        let cl: usize = (chunk.end - chunk.start) as usize + 1;
        let ghost rest0 = rest@;
        let tail = rest.split_off(cl);
        proof {
            assert(rest@ =~= all_outcomes.subrange(idx as int, idx + cl));
            assert(tail@ =~= all_outcomes.skip(idx + cl));
        }
        let results = assemble_chunk_results(&chunk, rest, req.banner_enabled);
        let ghost cr0 = chunk_results@;
        chunk_results.push(results);
        proof {
            let f = |v: Vec<PortResult>| v@;
            assert(chunk_results@ =~= cr0.push(results));
            assert(chunk_results@.map_values(f) =~= cr0.map_values(f) + seq![results@]);
            vstd::seq_lib::lemma_flatten_concat(cr0.map_values(f), seq![results@]);
            assert(seq![results@].drop_first() =~= Seq::<Seq<PortResult>>::empty());
            assert(Seq::<Seq<PortResult>>::empty().flatten() =~= Seq::<PortResult>::empty());
            assert(seq![results@].flatten() =~= results@);
            assert(flatten_results(chunk_results@) =~= flatten_results(cr0) + results@);
            assert forall|j: int| 0 <= j < results@.len() implies results@[j] == expected[idx
                + j] by {
                assert(results@[j] == spec_make_result(
                    (chunk.start + j) as u16,
                    all_outcomes[idx + j],
                    req.banner_enabled,
                ));
                assert(chunk.start == start + idx);
            }
            assert(flatten_results(chunk_results@) =~= expected.take(idx + cl));
        }
        rest = tail;
        idx = idx + cl;
        k = k + 1;
        proof {
            if k < chunks@.len() {
                assert(chunks@[k as int].start == chunks@[k as int - 1].end + 1);
            } else {
                assert(chunks@[chunks@.len() - 1].end == end);
            }
        }
    }
    let report = assemble_report(chunk_results, elapsed_millis);
    proof {
        assert(flatten_results(chunk_results@) =~= expected);
        assert forall|i: int| 0 <= i < expected.len() implies (#[trigger] expected[i]).port == start
            + i by {
            assert(expected[i] == spec_make_result(
                (start + i) as u16,
                all_outcomes[i],
                req.banner_enabled,
            ));
        }
        lemma_sorted_cover_pins(report.results@, expected, start);
    }
    report
}

/// Split a scan duration into its displayed parts: whole minutes, the
/// seconds within the minute, and the total millisecond count.
pub fn split_elapsed(elapsed_secs: u64, elapsed_millis: u64) -> (parts: (u64, u64, u64))
    ensures
        parts.0 == elapsed_secs / 60,
        parts.1 == elapsed_secs % 60,
        parts.2 == elapsed_millis,
{
    (elapsed_secs / 60, elapsed_secs % 60, elapsed_millis)
}

} // verus!
