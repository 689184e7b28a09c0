//! Network classification of the client address, and the decision record of
//! the adaptive bitrate controller.
use vstd::prelude::*;

verus! {

/// An IP address as its octets (IPv4) or 16-bit segments (IPv6).
#[derive(Debug, Clone, Copy)]
pub enum IpAddress {
    V4([u8; 4]),
    V6([u16; 8]),
}

/// Private IPv4 ranges: 10.0.0.0/8, 172.16.0.0/12 and 192.168.0.0/16.
pub open spec fn is_private_v4(o: [u8; 4]) -> bool {
    o[0] == 10 || (o[0] == 172 && 16 <= o[1] < 32) || (o[0] == 192 && o[1] == 168)
}

/// Loopback IPv4 range 127.0.0.0/8.
pub open spec fn is_loopback_v4(o: [u8; 4]) -> bool {
    o[0] == 127
}

/// Link-local IPv4 range 169.254.0.0/16.
pub open spec fn is_link_local_v4(o: [u8; 4]) -> bool {
    o[0] == 169 && o[1] == 254
}

/// The IPv6 loopback address `::1`.
pub open spec fn is_loopback_v6(s: [u16; 8]) -> bool {
    s[0] == 0 && s[1] == 0 && s[2] == 0 && s[3] == 0 && s[4] == 0 && s[5] == 0 && s[6] == 0 && s[7] == 1
}

/// Unicast link-local IPv6 range fe80::/10.
pub open spec fn is_link_local_v6(s: [u16; 8]) -> bool {
    s[0] & 0xffc0 == 0xfe80
}

/// Whether a client address belongs to a private or local network.
pub open spec fn is_private_spec(addr: IpAddress) -> bool {
    match addr {
        IpAddress::V4(o) => is_private_v4(o) || is_loopback_v4(o) || is_link_local_v4(o),
        IpAddress::V6(s) => is_loopback_v6(s) || is_link_local_v6(s),
    }
}

/// Determine if an IP address belongs to a private/local network: IPv4
/// private, loopback or link-local ranges, the IPv6 loopback address, or
/// IPv6 link-local unicast (fe80::/10).
pub fn is_private_ip(addr: IpAddress) -> (r: bool)
    ensures
        r == is_private_spec(addr),
{
    match addr {
        IpAddress::V4(o) => {
            let private = o[0] == 10 || (o[0] == 172 && 16 <= o[1] && o[1] < 32) || (o[0] == 192
                && o[1] == 168);
            private || o[0] == 127 || (o[0] == 169 && o[1] == 254)
        },
        IpAddress::V6(s) => {
            let loopback = s[0] == 0 && s[1] == 0 && s[2] == 0 && s[3] == 0 && s[4] == 0 && s[5] == 0
                && s[6] == 0 && s[7] == 1;
            loopback || (s[0] & 0xffc0) == 0xfe80
        },
    }
}

/// Decision output from BitrateController.
#[derive(Debug, Clone, Copy, PartialEq, Eq, Structural)]
pub struct AdaptiveDecision {
    pub bitrate_bps: u32,
    pub fps: u32,
}

} // verus!
