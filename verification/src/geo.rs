//! Which peers a country is looked up for.

use vstd::prelude::*;

verus! {

/// An IP address: the four octets of an IPv4 address or the eight
/// segments of an IPv6 address.
#[derive(Debug, Clone, Copy)]
pub enum IpAddress {
    V4 { a: u8, b: u8, c: u8, d: u8 },
    V6 { segments: [u16; 8] },
}

/// An address that never gets a country: an IPv4 address that is private
/// (10.0.0.0/8, 172.16.0.0/12, 192.168.0.0/16), loopback (127.0.0.0/8),
/// link-local (169.254.0.0/16), multicast (224.0.0.0/4) or the broadcast
/// address, and an IPv6 address that is the loopback address `::1`,
/// unique local (fc00::/7), link-local (fe80::/10) or multicast (ff00::/8).
pub open spec fn private_ip(ip: IpAddress) -> bool {
    match ip {
        IpAddress::V4 { a, b, c, d } => {
            ||| a == 10
            ||| (a == 172 && 16 <= b <= 31)
            ||| (a == 192 && b == 168)
            ||| a == 127
            ||| (a == 169 && b == 254)
            ||| 224 <= a <= 239
            ||| (a == 255 && b == 255 && c == 255 && d == 255)
        },
        IpAddress::V6 { segments } => {
            ||| (segments[0] == 0 && segments[1] == 0 && segments[2] == 0 && segments[3] == 0
                && segments[4] == 0 && segments[5] == 0 && segments[6] == 0 && segments[7] == 1)
            ||| 0xfc00 <= segments[0] <= 0xfdff
            ||| 0xfe80 <= segments[0] <= 0xfebf
            ||| segments[0] >= 0xff00
        },
    }
}

/// Tells whether an address never gets a country.
pub fn is_private_ip(ip: &IpAddress) -> (r: bool)
    ensures
        r == private_ip(*ip),
{
    match ip {
        IpAddress::V4 { a, b, c, d } => {
            *a == 10 || (*a == 172 && 16 <= *b && *b <= 31) || (*a == 192 && *b == 168) || *a
                == 127 || (*a == 169 && *b == 254) || (224 <= *a && *a <= 239) || (*a == 255 && *b
                == 255 && *c == 255 && *d == 255)
        },
        IpAddress::V6 { segments } => {
            (segments[0] == 0 && segments[1] == 0 && segments[2] == 0 && segments[3] == 0
                && segments[4] == 0 && segments[5] == 0 && segments[6] == 0 && segments[7] == 1)
                || (0xfc00 <= segments[0] && segments[0] <= 0xfdff) || (0xfe80 <= segments[0]
                && segments[0] <= 0xfebf) || segments[0] >= 0xff00
        },
    }
}

} // verus!
