//! Scan requests: the validated input of a scan run.

use vstd::prelude::*;

verus! {

/// Number of concurrent workers a scan is partitioned across.
pub const DEFAULT_WORKER_COUNT: u16 = 5;

/// An IPv4 scan target, held as its four octets.
#[derive(Clone, Copy, PartialEq, Eq, Structural, Debug)]
pub struct HostAddr {
    pub o0: u8,
    pub o1: u8,
    pub o2: u8,
    pub o3: u8,
}

/// Why a scan request was rejected before any probing began.
#[derive(Clone, Copy, PartialEq, Eq, Structural, Debug)]
pub enum ScanError {
    /// The requested range had `start_port > end_port`.
    EmptyRange,
}

/// A validated, immutable description of one scan run.
#[derive(Clone, Copy, PartialEq, Eq, Structural, Debug)]
pub struct ScanRequest {
    pub host: HostAddr,
    pub start_port: u16,
    pub end_port: u16,
    pub banner_enabled: bool,
    pub worker_count: u16,
}

impl ScanRequest {
    /// A well-formed request has a non-empty inclusive port range and at
    /// least one worker.
    pub open spec fn wf(self) -> bool {
        self.start_port <= self.end_port && self.worker_count >= 1
    }

    /// Number of ports in the inclusive range `[start_port, end_port]`.
    pub open spec fn range_len(self) -> int {
        self.end_port - self.start_port + 1
    }

    /// Validate the inputs of a scan and build the request, with the default
    /// worker count. Rejects exactly the ranges with `start_port > end_port`,
    /// before any probing can take place.
    pub fn new(host: HostAddr, start_port: u16, end_port: u16, banner_enabled: bool) -> (r: Result<
        ScanRequest,
        ScanError,
    >)
        ensures
            start_port <= end_port ==> r == Ok::<ScanRequest, ScanError>(
                ScanRequest {
                    host,
                    start_port,
                    end_port,
                    banner_enabled,
                    worker_count: DEFAULT_WORKER_COUNT,
                },
            ),
            start_port > end_port ==> r == Err::<ScanRequest, ScanError>(ScanError::EmptyRange),
            r is Ok <==> start_port <= end_port,
    {
        ScanRequest::with_worker_count(host, start_port, end_port, banner_enabled, DEFAULT_WORKER_COUNT)
    }

    /// As [`ScanRequest::new`], but with an explicit positive worker count.
    pub fn with_worker_count(
        host: HostAddr,
        start_port: u16,
        end_port: u16,
        banner_enabled: bool,
        worker_count: u16,
    ) -> (r: Result<ScanRequest, ScanError>)
        requires
            worker_count >= 1,
        ensures
            start_port <= end_port ==> r == Ok::<ScanRequest, ScanError>(
                ScanRequest { host, start_port, end_port, banner_enabled, worker_count },
            ),
            start_port > end_port ==> r == Err::<ScanRequest, ScanError>(ScanError::EmptyRange),
            r is Ok <==> start_port <= end_port,
            r matches Ok(req) ==> req.wf(),
    {
        if start_port <= end_port {
            Ok(ScanRequest { host, start_port, end_port, banner_enabled, worker_count })
        } else {
            Err(ScanError::EmptyRange)
        }
    }
}

} // verus!
