//! Internet addresses and the classes a listener or a peer is judged by.

use vstd::prelude::*;

verus! {

/// An internet address.
#[derive(Debug, Clone, Copy, PartialEq, Eq, Structural)]
pub enum IpAddr {
    /// A version 4 address, its four octets from the most significant one.
    V4(u32),
    /// A version 6 address, its eight groups from the most significant one.
    V6(u128),
}

/// An address and a port.
#[derive(Debug, Clone, Copy, PartialEq, Eq, Structural)]
pub struct SocketAddr {
    /// The address.
    pub ip: IpAddr,
    /// The port.
    pub port: u16,
}

/// The first octet of a version 4 address.
pub open spec fn octet0(bits: u32) -> int {
    bits as int / 0x100_0000
}

/// The second octet of a version 4 address.
pub open spec fn octet1(bits: u32) -> int {
    (bits as int / 0x1_0000) % 0x100
}

/// The first group of a version 6 address.
pub open spec fn group0(bits: u128) -> int {
    bits as int / 0x1_0000_0000_0000_0000_0000_0000_0000
}

impl IpAddr {
    /// `0.0.0.0` or `::`.
    pub open spec fn unspecified(self) -> bool {
        match self {
            IpAddr::V4(bits) => bits == 0,
            IpAddr::V6(bits) => bits == 0,
        }
    }

    /// `224.0.0.0/4` or `ff00::/8`.
    pub open spec fn multicast(self) -> bool {
        match self {
            IpAddr::V4(bits) => 224 <= octet0(bits) <= 239,
            IpAddr::V6(bits) => group0(bits) / 0x100 == 0xff,
        }
    }

    /// `127.0.0.0/8` or `::1`.
    pub open spec fn loopback(self) -> bool {
        match self {
            IpAddr::V4(bits) => octet0(bits) == 127,
            IpAddr::V6(bits) => bits == 1,
        }
    }

    /// `10.0.0.0/8`, `172.16.0.0/12`, `192.168.0.0/16` or `169.254.0.0/16`;
    /// `fe80::/10` or `fc00::/7`.
    pub open spec fn private_or_link_local(self) -> bool {
        match self {
            IpAddr::V4(bits) => {
                ||| octet0(bits) == 10
                ||| octet0(bits) == 172 && 16 <= octet1(bits) <= 31
                ||| octet0(bits) == 192 && octet1(bits) == 168
                ||| octet0(bits) == 169 && octet1(bits) == 254
            },
            IpAddr::V6(bits) => {
                ||| 0xfe80 <= group0(bits) <= 0xfebf
                ||| 0xfc00 <= group0(bits) <= 0xfdff
            },
        }
    }

    /// Whether the address is unspecified.
    pub fn is_unspecified(&self) -> (holds: bool)
        ensures
            holds == self.unspecified(),
    {
        match *self {
            IpAddr::V4(bits) => bits == 0,
            IpAddr::V6(bits) => bits == 0,
        }
    }

    /// Whether the address is a multicast address.
    pub fn is_multicast(&self) -> (holds: bool)
        ensures
            holds == self.multicast(),
    {
        match *self {
            IpAddr::V4(bits) => {
                let first: u32 = bits / 0x100_0000;
                224 <= first && first <= 239
            },
            IpAddr::V6(bits) => {
                let group: u128 = bits / 0x1_0000_0000_0000_0000_0000_0000_0000;
                group / 0x100 == 0xff
            },
        }
    }

    /// Whether the address is a loopback address.
    pub fn is_loopback(&self) -> (holds: bool)
        ensures
            holds == self.loopback(),
    {
        match *self {
            IpAddr::V4(bits) => bits / 0x100_0000 == 127,
            IpAddr::V6(bits) => bits == 1,
        }
    }

    /// Whether the address is private or link-local.
    pub fn is_private_or_link_local(&self) -> (holds: bool)
        ensures
            holds == self.private_or_link_local(),
    {
        match *self {
            IpAddr::V4(bits) => {
                let first: u32 = bits / 0x100_0000;
                let second: u32 = (bits / 0x1_0000) % 0x100;
                first == 10 || (first == 172 && 16 <= second && second <= 31) || (first == 192
                    && second == 168) || (first == 169 && second == 254)
            },
            IpAddr::V6(bits) => {
                let group: u128 = bits / 0x1_0000_0000_0000_0000_0000_0000_0000;
                (0xfe80 <= group && group <= 0xfebf) || (0xfc00 <= group && group <= 0xfdff)
            },
        }
    }
}

/// The four classes never overlap where a decision depends on their order: a
/// loopback address is neither private nor link-local, and an unspecified or
/// multicast address is in none of the others.
pub proof fn law_address_classes_are_disjoint(ip: IpAddr)
    ensures
        ip.loopback() ==> !ip.private_or_link_local(),
        ip.unspecified() || ip.multicast() ==> !ip.loopback() && !ip.private_or_link_local(),
{
}

/// The classes of addresses, as ranges: those of version 4 by their first octets, those of
/// version 6 by their first group.
pub proof fn law_address_classes_are_ranges(bits: u32, wide: u128)
    ensures
        IpAddr::V4(bits).unspecified() <==> bits == 0,
        IpAddr::V4(bits).loopback() <==> 0x7f00_0000 <= bits <= 0x7fff_ffff,
        IpAddr::V4(bits).multicast() <==> 0xe000_0000 <= bits <= 0xefff_ffff,
        IpAddr::V4(bits).private_or_link_local() <==> {
            ||| 0x0a00_0000 <= bits <= 0x0aff_ffff
            ||| 0xac10_0000 <= bits <= 0xac1f_ffff
            ||| 0xc0a8_0000 <= bits <= 0xc0a8_ffff
            ||| 0xa9fe_0000 <= bits <= 0xa9fe_ffff
        },
        IpAddr::V6(wide).unspecified() <==> wide == 0,
        IpAddr::V6(wide).loopback() <==> wide == 1,
        IpAddr::V6(wide).multicast() <==> wide
            >= 0xff00_0000_0000_0000_0000_0000_0000_0000,
        IpAddr::V6(wide).private_or_link_local() <==> {
            ||| 0xfe80_0000_0000_0000_0000_0000_0000_0000 <= wide
                <= 0xfebf_ffff_ffff_ffff_ffff_ffff_ffff_ffff
            ||| 0xfc00_0000_0000_0000_0000_0000_0000_0000 <= wide
                <= 0xfdff_ffff_ffff_ffff_ffff_ffff_ffff_ffff
        },
{
}

} // verus!
