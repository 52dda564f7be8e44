//! Report aggregation: collecting worker results into one ordered report.

use vstd::prelude::*;

use crate::probe::PortResult;

verus! {

/// The final output of a scan run: one result per scanned port, in ascending
/// port order, with the wall-clock duration of the whole scan.
pub struct ScanReport {
    pub results: Vec<PortResult>,
    pub elapsed_millis: u64,
}

/// Results are in (non-strictly) ascending port order.
pub open spec fn sorted_by_port(s: Seq<PortResult>) -> bool {
    forall|i: int, j: int| 0 <= i < j < s.len() ==> s[i].port <= s[j].port
}

/// All worker result lists, laid end to end in the order they were handed in.
pub open spec fn flatten_results(chunk_results: Seq<Vec<PortResult>>) -> Seq<PortResult> {
    chunk_results.map_values(|v: Vec<PortResult>| v@).flatten()
}

/// Insert one result into a port-sorted list, keeping it sorted.
fn insert_by_port(v: &mut Vec<PortResult>, x: PortResult)
    requires
        sorted_by_port(old(v)@),
    ensures
        sorted_by_port(final(v)@),
        final(v)@.to_multiset() == old(v)@.to_multiset().insert(x),
        final(v)@.len() == old(v)@.len() + 1,
{
    let mut j: usize = 0;
    while j < v.len() && v[j].port <= x.port
        invariant
            v@ == old(v)@,
            sorted_by_port(v@),
            0 <= j <= v@.len(),
            forall|k: int| 0 <= k < j ==> v@[k].port <= x.port,
        decreases v@.len() - j,
    {
        j = j + 1;
    }
    proof {
        assert(forall|k: int| j <= k < v@.len() ==> x.port < v@[k].port);
    }
    let ghost before = v@;
    v.insert(j, x);
    proof {
        broadcast use vstd::seq_lib::to_multiset_insert;

        assert(v@ == before.insert(j as int, x));
        assert forall|a: int, b: int| 0 <= a < b < v@.len() implies v@[a].port <= v@[b].port by {
            if a < j && b < j {
            } else if a == j || b == j {
            } else {
            }
        }
    }
}

/// Sort a result list by port number. The output is a reordering of the
/// input: the same results, as a multiset, in ascending port order.
pub fn sort_results(input: Vec<PortResult>) -> (sorted: Vec<PortResult>)
    ensures
        sorted_by_port(sorted@),
        sorted@.to_multiset() == input@.to_multiset(),
        sorted@.len() == input@.len(),
{
    let ghost all = input@;
    let mut out: Vec<PortResult> = Vec::new();
    let mut rest = input;
    proof {
        broadcast use vstd::multiset::group_multiset_axioms;
        broadcast use vstd::seq_lib::group_to_multiset_ensures;

        assert(out@.to_multiset().len() == 0);
        assert(out@.to_multiset().add(rest@.to_multiset()) =~= all.to_multiset());
    }
    while rest.len() > 0
        invariant
            sorted_by_port(out@),
            out@.to_multiset().add(rest@.to_multiset()) == all.to_multiset(),
            out@.len() + rest@.len() == all.len(),
        decreases rest@.len(),
    {
        let ghost rest0 = rest@;
        let ghost out0 = out@;
        let x = rest.remove(0);
        proof {
            broadcast use vstd::seq_lib::group_to_multiset_ensures;

            assert(rest@ == rest0.remove(0));
            assert(rest@.to_multiset() == rest0.to_multiset().remove(x));
            assert(rest0.contains(x));
            assert(rest0.to_multiset().count(x) > 0);
        }
        insert_by_port(&mut out, x);
        proof {
            broadcast use vstd::multiset::group_multiset_axioms;

            assert(out@.to_multiset() == out0.to_multiset().insert(x));
            assert(out@.to_multiset().add(rest@.to_multiset()) =~= all.to_multiset());
        }
    }
    proof {
        broadcast use vstd::multiset::group_multiset_axioms;
        broadcast use vstd::seq_lib::group_to_multiset_ensures;

        assert(rest@.to_multiset().len() == 0);
        assert(out@.to_multiset() =~= out@.to_multiset().add(rest@.to_multiset()));
    }
    out
}

/// Lay the worker result lists end to end, in the order handed in.
fn concat_results(chunk_results: Vec<Vec<PortResult>>) -> (all: Vec<PortResult>)
    ensures
        all@ == flatten_results(chunk_results@),
{
    let ghost crs = chunk_results@;
    let mut all: Vec<PortResult> = Vec::new();
    let mut rest = chunk_results;
    while rest.len() > 0
        invariant
            all@ + flatten_results(rest@) == flatten_results(crs),
        decreases rest@.len(),
    {
        let ghost rest0 = rest@;
        let ghost all0 = all@;
        let mut c = rest.remove(0);
        let ghost c0 = c@;
        all.append(&mut c);
        proof {
            let f = |v: Vec<PortResult>| v@;
            assert(rest@ =~= rest0.drop_first());
            assert(rest0.map_values(f).drop_first() =~= rest@.map_values(f));
            assert(rest0.map_values(f).first() == c0);
            assert(flatten_results(rest0) == c0 + flatten_results(rest@));
            assert(all@ + flatten_results(rest@) =~= (all0 + c0) + flatten_results(rest@));
            assert((all0 + c0) + flatten_results(rest@) =~= all0 + (c0 + flatten_results(rest@)));
        }
    }
    proof {
        let f = |v: Vec<PortResult>| v@;
        assert(rest@.map_values(f).len() == 0);
        assert(flatten_results(rest@) =~= Seq::<PortResult>::empty());
        assert(all@ =~= all@ + flatten_results(rest@));
    }
    all
}

/// Aggregate the workers' result lists, in whatever order they completed,
/// into the final report: an explicit sort by port number makes the report's
/// order independent of worker scheduling. Nothing is dropped and nothing is
/// duplicated: the report holds exactly the results the workers handed in.
pub fn assemble_report(chunk_results: Vec<Vec<PortResult>>, elapsed_millis: u64) -> (report: ScanReport)
    ensures
        sorted_by_port(report.results@),
        report.results@.to_multiset() == flatten_results(chunk_results@).to_multiset(),
        report.results@.len() == flatten_results(chunk_results@).len(),
        report.elapsed_millis == elapsed_millis,
{
    let all = concat_results(chunk_results);
    let results = sort_results(all);
    ScanReport { results, elapsed_millis }
}

} // verus!
