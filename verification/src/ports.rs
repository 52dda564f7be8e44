//! Well-known service ports and banner-protocol dispatch.

use vstd::prelude::*;

verus! {

/// Port on which a plain-HTTP banner fetch is attempted.
pub const HTTP_PORT: u16 = 80;

/// Port on which a TLS-wrapped HTTP banner fetch is attempted.
pub const HTTPS_PORT: u16 = 443;

/// Port on which the SSH identification line is read as the banner.
pub const SSH_PORT: u16 = 22;

/// A port qualifies for a banner fetch only if it is one of the three
/// recognized services.
pub open spec fn is_service_port(port: u16) -> bool {
    port == HTTP_PORT || port == HTTPS_PORT || port == SSH_PORT
}

/// Which protocol-specific banner fetch, if any, to run against a port.
#[derive(Clone, Copy, PartialEq, Eq, Structural, Debug)]
pub enum BannerProtocol {
    /// Plain HTTP GET against the root path.
    Http,
    /// HTTPS GET against the root path, certificate validation disabled.
    Https,
    /// Read the SSH server's initial identification line.
    Ssh,
    /// No banner fetch is attempted.
    NoFetch,
}

/// The banner fetch that a scanned port calls for: a protocol-specific fetch
/// exactly when the connect succeeded, banner fetching is enabled, and the
/// port is a recognized service.
pub open spec fn spec_banner_protocol(port: u16, is_open: bool, banner_enabled: bool) -> BannerProtocol {
    if is_open && banner_enabled && port == HTTP_PORT {
        BannerProtocol::Http
    } else if is_open && banner_enabled && port == HTTPS_PORT {
        BannerProtocol::Https
    } else if is_open && banner_enabled && port == SSH_PORT {
        BannerProtocol::Ssh
    } else {
        BannerProtocol::NoFetch
    }
}

/// Decide which banner fetch to run for a probed port. A closed port, a
/// disabled banner flag, or an unrecognized port all yield `NoFetch`.
pub fn banner_protocol(port: u16, is_open: bool, banner_enabled: bool) -> (p: BannerProtocol)
    ensures
        p == spec_banner_protocol(port, is_open, banner_enabled),
        p != BannerProtocol::NoFetch ==> is_open && banner_enabled && is_service_port(port),
{
    if is_open && banner_enabled && port == HTTP_PORT {
        BannerProtocol::Http
    } else if is_open && banner_enabled && port == HTTPS_PORT {
        BannerProtocol::Https
    } else if is_open && banner_enabled && port == SSH_PORT {
        BannerProtocol::Ssh
    } else {
        BannerProtocol::NoFetch
    }
}

} // verus!
