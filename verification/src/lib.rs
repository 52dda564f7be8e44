//! A verified TCP port-scanning engine.
//!
//! The library holds the pure core of a port scanner: request validation,
//! partitioning of a port range into worker chunks, banner-protocol dispatch,
//! per-chunk result assembly, and ordered report aggregation. The network
//! probes themselves are performed by the surrounding application, which feeds
//! their outcomes back into the verified engine.

pub mod coordinator;
pub mod partition;
pub mod ports;
pub mod probe;
pub mod report;
pub mod request;
