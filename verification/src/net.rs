//! IP addresses and CIDR networks, held as plain integers.
//!
//! Prefix arithmetic (`contains`) and network construction are delegated to
//! the `ipnetwork` crate through the trusted wrappers at the end of the file.

use vstd::prelude::*;
use vstd::arithmetic::power2::pow2;

verus! {

/// An IPv4 or IPv6 address, as its big-endian integer value.
#[derive(Debug, Clone, Copy, PartialEq, Eq, Structural)]
pub enum IpAddress {
    /// IPv4 address
    V4(u32),
    /// IPv6 address
    V6(u128),
}

/// Number of bits of an address of the given family.
pub open spec fn address_bits(a: IpAddress) -> nat {
    match a {
        IpAddress::V4(_) => 32,
        IpAddress::V6(_) => 128,
    }
}

/// Integer value of an address.
pub open spec fn address_value(a: IpAddress) -> nat {
    match a {
        IpAddress::V4(v) => v as nat,
        IpAddress::V6(v) => v as nat,
    }
}

/// Whether two addresses belong to the same family.
pub open spec fn same_family(a: IpAddress, b: IpAddress) -> bool {
    (a is V4 && b is V4) || (a is V6 && b is V6)
}

impl IpAddress {
    /// Builds an IPv4 address from its four octets.
    pub fn v4(a: u8, b: u8, c: u8, d: u8) -> (r: IpAddress)
        ensures
            r is V4,
            address_value(r) == a * 0x100_0000 + b * 0x1_0000 + c * 0x100 + d,
    {
        IpAddress::V4((a as u32) * 0x100_0000 + (b as u32) * 0x1_0000 + (c as u32) * 0x100 + (d as u32))
    }

    /// Whether this is an IPv4 address.
    pub fn is_ipv4(&self) -> (r: bool)
        ensures
            r == (*self is V4),
    {
        match self {
            IpAddress::V4(_) => true,
            IpAddress::V6(_) => false,
        }
    }

    /// Whether this is an IPv6 address.
    pub fn is_ipv6(&self) -> (r: bool)
        ensures
            r == (*self is V6),
    {
        match self {
            IpAddress::V4(_) => false,
            IpAddress::V6(_) => true,
        }
    }
}

/// A network: an address and a prefix length no longer than the address.
#[derive(Debug, Clone, Copy, PartialEq, Eq, Structural)]
pub struct Cidr {
    addr: IpAddress,
    prefix: u8,
}

/// Whether `prefix` is a valid prefix length for the family of `addr`.
pub open spec fn valid_prefix(addr: IpAddress, prefix: u8) -> bool {
    prefix as nat <= address_bits(addr)
}

/// Membership of an address in a network: same family, and the leading
/// `prefix` bits of both addresses agree.
pub open spec fn cidr_contains(net: Cidr, ip: IpAddress) -> bool {
    same_family(net.spec_ip(), ip) && {
        let host_bits = (address_bits(ip) - net.spec_prefix()) as nat;
        address_value(net.spec_ip()) / pow2(host_bits) == address_value(ip) / pow2(host_bits)
    }
}

impl Cidr {
    #[verifier::type_invariant]
    spec fn well_formed(self) -> bool {
        valid_prefix(self.addr, self.prefix)
    }

    /// The address part of the network.
    pub closed spec fn spec_ip(self) -> IpAddress {
        self.addr
    }

    /// The prefix length of the network.
    pub closed spec fn spec_prefix(self) -> nat {
        self.prefix as nat
    }

    /// Builds a network; `None` when the prefix is longer than the address.
    pub fn new(addr: IpAddress, prefix: u8) -> (r: Option<Cidr>)
        ensures
            r is Some <==> valid_prefix(addr, prefix),
            r matches Some(c) ==> c.spec_ip() == addr && c.spec_prefix() == prefix as nat,
    {
        match ipnetwork_new(addr, prefix) {
            Ok(c) => Some(c),
            Err(_) => None,
        }
    }

    /// The address part of the network.
    pub fn ip(&self) -> (r: IpAddress)
        ensures
            r == self.spec_ip(),
    {
        self.addr
    }

    /// The prefix length of the network.
    pub fn prefix(&self) -> (r: u8)
        ensures
            r as nat == self.spec_prefix(),
    {
        self.prefix
    }

    /// Whether the network is an IPv4 network.
    pub fn is_ipv4(&self) -> (r: bool)
        ensures
            r == (self.spec_ip() is V4),
    {
        self.addr.is_ipv4()
    }

    /// Whether the network is an IPv6 network.
    pub fn is_ipv6(&self) -> (r: bool)
        ensures
            r == (self.spec_ip() is V6),
    {
        self.addr.is_ipv6()
    }

    /// Whether `ip` lies inside the network.
    pub fn contains(&self, ip: IpAddress) -> (r: bool)
        ensures
            r == cidr_contains(*self, ip),
    {
        ipnetwork_contains(self, ip)
    }
}

#[verifier::external_type_specification]
#[verifier::external_body]
pub struct ExIpNetworkError(ipnetwork::IpNetworkError);

/// Calls `ipnetwork::IpNetwork::new`, which accepts a prefix no longer than
/// the address family (32 or 128 bits) and keeps the address and prefix as
/// given; longer prefixes are refused with an error.
#[verifier::external_body]
fn ipnetwork_new(addr: IpAddress, prefix: u8) -> (r: core::result::Result<Cidr, ipnetwork::IpNetworkError>)
    ensures
        r is Ok <==> valid_prefix(addr, prefix),
        r matches Ok(c) ==> c.spec_ip() == addr && c.spec_prefix() == prefix as nat,
{
    let ip = match addr {
        IpAddress::V4(v) => core::net::IpAddr::V4(core::net::Ipv4Addr::from(v)),
        IpAddress::V6(v) => core::net::IpAddr::V6(core::net::Ipv6Addr::from(v)),
    };
    let net = ipnetwork::IpNetwork::new(ip, prefix)?;
    let addr = match net.ip() {
        core::net::IpAddr::V4(v) => IpAddress::V4(u32::from(v)),
        core::net::IpAddr::V6(v) => IpAddress::V6(u128::from(v)),
    };
    Ok(Cidr { addr, prefix: net.prefix() })
}

/// Calls `ipnetwork::IpNetwork::contains`: an address of the other family is
/// never contained; otherwise the leading `prefix` bits are compared under
/// the network mask.
#[verifier::external_body]
fn ipnetwork_contains(net: &Cidr, ip: IpAddress) -> (r: bool)
    ensures
        r == cidr_contains(*net, ip),
{
    let addr = match net.addr {
        IpAddress::V4(v) => core::net::IpAddr::V4(core::net::Ipv4Addr::from(v)),
        IpAddress::V6(v) => core::net::IpAddr::V6(core::net::Ipv6Addr::from(v)),
    };
    let probe = match ip {
        IpAddress::V4(v) => core::net::IpAddr::V4(core::net::Ipv4Addr::from(v)),
        IpAddress::V6(v) => core::net::IpAddr::V6(core::net::Ipv6Addr::from(v)),
    };
    match ipnetwork::IpNetwork::new(addr, net.prefix) {
        Ok(n) => n.contains(probe),
        Err(_) => false,
    }
}

} // verus!
