//! Per-port results: what one probe yields and how a worker records it.

use vstd::prelude::*;

use crate::partition::Chunk;
use crate::ports::is_service_port;

verus! {

/// What the application observed when probing one port: whether the TCP
/// connect succeeded, and the banner its fetch returned, if any. A failed or
/// skipped banner fetch is an absent banner, never an error.
pub struct ProbeOutcome {
    pub is_open: bool,
    pub banner: Option<String>,
}

/// The engine's record for one scanned port. `banner` is present only when
/// the port was open, banner fetching was enabled, and the port is a
/// recognized service.
#[derive(Debug)]
pub struct PortResult {
    pub port: u16,
    pub is_open: bool,
    pub banner: Option<String>,
}

impl PortResult {
    /// Banner gating: a present banner implies an open, recognized service
    /// port.
    pub open spec fn banner_gated(self) -> bool {
        self.banner is Some ==> self.is_open && is_service_port(self.port)
    }
}

/// The result recorded for a port, given the probe's outcome: the open flag
/// is taken as observed, and the banner is kept only when the port was open,
/// fetching was enabled, and the port is a recognized service.
pub open spec fn spec_make_result(port: u16, outcome: ProbeOutcome, banner_enabled: bool) -> PortResult {
    PortResult {
        port,
        is_open: outcome.is_open,
        banner: if outcome.is_open && banner_enabled && is_service_port(port) {
            outcome.banner
        } else {
            None
        },
    }
}

/// Record the result for one probed port, enforcing the banner gate: a closed
/// port, a disabled banner flag, or an unrecognized port all yield an absent
/// banner, whatever the fetch returned.
pub fn make_result(port: u16, outcome: ProbeOutcome, banner_enabled: bool) -> (r: PortResult)
    ensures
        r == spec_make_result(port, outcome, banner_enabled),
        r.banner_gated(),
        r.banner is Some ==> banner_enabled,
        !r.is_open ==> r.banner is None,
{
    let is_open = outcome.is_open;
    let banner = if is_open && banner_enabled && (port == crate::ports::HTTP_PORT || port
        == crate::ports::HTTPS_PORT || port == crate::ports::SSH_PORT) {
        outcome.banner
    } else {
        None
    };
    PortResult { port, is_open, banner }
}

/// Assemble one worker's result list from the outcomes it observed on its
/// chunk: one result per port of the chunk, in ascending port order, each
/// with the banner gate enforced.
pub fn assemble_chunk_results(chunk: &Chunk, outcomes: Vec<ProbeOutcome>, banner_enabled: bool) -> (results: Vec<PortResult>)
    requires
        chunk.wf(),
        outcomes@.len() == chunk.len(),
    ensures
        results@.len() == outcomes@.len(),
        forall|i: int|
            0 <= i < results@.len() ==> results@[i] == spec_make_result(
                (chunk.start + i) as u16,
                outcomes@[i],
                banner_enabled,
            ),
        forall|i: int| 0 <= i < results@.len() ==> (#[trigger] results@[i]).banner_gated(),
        forall|i: int|
            0 <= i < results@.len() && (#[trigger] results@[i]).banner is Some ==> banner_enabled,
{
    let ghost all = outcomes@;
    let mut results: Vec<PortResult> = Vec::new();
    let mut rest = outcomes;
    let mut i: usize = 0;
    while rest.len() > 0
        invariant
            chunk.wf(),
            all.len() == chunk.len(),
            i + rest@.len() == all.len(),
            rest@ == all.skip(i as int),
            results@.len() == i,
            forall|k: int|
                0 <= k < i ==> results@[k] == spec_make_result(
                    (chunk.start + k) as u16,
                    all[k],
                    banner_enabled,
                ),
        decreases rest@.len(),
    {
        let o = rest.remove(0);
        proof {
            assert(o == all[i as int]);
            assert(rest@ =~= all.skip(i + 1));
            assert(chunk.start + i <= chunk.end);
        }
        let port: u16 = chunk.start + (i as u16);
        let r = make_result(port, o, banner_enabled);
        results.push(r);
        i = i + 1;
    }
    results
}

} // verus!
