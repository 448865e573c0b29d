use vstd::prelude::*;
use crate::error::Error;

verus! {

/// The address family of an IP address or of a socket.
#[derive(Copy, Clone, PartialEq, Eq, Debug, Structural)]
pub enum AddrFamily {
    Ipv4,
    Ipv6,
}

/// An IPv4 address: four octets, the first one leading.
#[derive(Copy, Clone, PartialEq, Eq, Debug, Hash)]
pub struct Ipv4Addr {
    pub octets: [u8; 4],
}

impl Ipv4Addr {
    pub fn new(a: u8, b: u8, c: u8, d: u8) -> (r: Ipv4Addr)
        ensures
            r.octets@ == seq![a, b, c, d],
    {
        Ipv4Addr { octets: [a, b, c, d] }
    }

    pub fn octets(&self) -> (r: [u8; 4])
        ensures
            r == self.octets,
    {
        self.octets
    }
}

/// An IPv6 address: eight 16-bit segments, the first one leading.
#[derive(Copy, Clone, PartialEq, Eq, Debug, Hash)]
pub struct Ipv6Addr {
    pub segments: [u16; 8],
}

impl Ipv6Addr {
    pub fn new(a: u16, b: u16, c: u16, d: u16, e: u16, f: u16, g: u16, h: u16) -> (r: Ipv6Addr)
        ensures
            r.segments@ == seq![a, b, c, d, e, f, g, h],
    {
        Ipv6Addr { segments: [a, b, c, d, e, f, g, h] }
    }

    pub fn segments(&self) -> (r: [u16; 8])
        ensures
            r == self.segments,
    {
        self.segments
    }
}

/// An IPv4 address with a port.
#[derive(Copy, Clone, PartialEq, Eq, Debug, Hash)]
pub struct SocketAddrV4 {
    pub ip: Ipv4Addr,
    pub port: u16,
}

impl SocketAddrV4 {
    pub fn new(ip: Ipv4Addr, port: u16) -> (r: SocketAddrV4)
        ensures
            r == (SocketAddrV4 { ip, port }),
    {
        SocketAddrV4 { ip, port }
    }

    pub fn ip(&self) -> (r: Ipv4Addr)
        ensures
            r == self.ip,
    {
        self.ip
    }

    pub fn port(&self) -> (r: u16)
        ensures
            r == self.port,
    {
        self.port
    }
}

/// An IPv6 address with a port, a flow label and a scope.
#[derive(Copy, Clone, PartialEq, Eq, Debug, Hash)]
pub struct SocketAddrV6 {
    pub ip: Ipv6Addr,
    pub port: u16,
    pub flowinfo: u32,
    pub scope_id: u32,
}

impl SocketAddrV6 {
    pub fn new(ip: Ipv6Addr, port: u16, flowinfo: u32, scope_id: u32) -> (r: SocketAddrV6)
        ensures
            r == (SocketAddrV6 { ip, port, flowinfo, scope_id }),
    {
        SocketAddrV6 { ip, port, flowinfo, scope_id }
    }

    pub fn ip(&self) -> (r: Ipv6Addr)
        ensures
            r == self.ip,
    {
        self.ip
    }

    pub fn port(&self) -> (r: u16)
        ensures
            r == self.port,
    {
        self.port
    }
}

/// An IP address of either family.
#[derive(Copy, Clone, PartialEq, Eq, Debug, Hash)]
pub enum IpAddr {
    V4(Ipv4Addr),
    V6(Ipv6Addr),
}

impl IpAddr {
    /// The family of an address, as a mathematical value.
    pub open spec fn spec_family(self) -> AddrFamily {
        match self {
            IpAddr::V4(_) => AddrFamily::Ipv4,
            IpAddr::V6(_) => AddrFamily::Ipv6,
        }
    }

    pub fn family(&self) -> (r: AddrFamily)
        ensures
            r == self.spec_family(),
    {
        match *self {
            IpAddr::V4(_) => AddrFamily::Ipv4,
            IpAddr::V6(_) => AddrFamily::Ipv6,
        }
    }
}

/// The address of a socket: an IP address of either family with a port. A
/// V6 address made by `new` has flow label 0 and scope 0.
#[derive(Copy, Clone, PartialEq, Eq, Debug, Hash)]
pub enum SocketAddr {
    V4(SocketAddrV4),
    V6(SocketAddrV6),
}

impl SocketAddr {
    /// The socket address that `new` makes of an IP address and a port.
    pub open spec fn spec_new(ip: IpAddr, port: u16) -> SocketAddr {
        match ip {
            IpAddr::V4(a) => SocketAddr::V4(SocketAddrV4 { ip: a, port }),
            IpAddr::V6(a) => SocketAddr::V6(SocketAddrV6 { ip: a, port, flowinfo: 0, scope_id: 0 }),
        }
    }

    pub open spec fn spec_ip(self) -> IpAddr {
        match self {
            SocketAddr::V4(a) => IpAddr::V4(a.ip),
            SocketAddr::V6(a) => IpAddr::V6(a.ip),
        }
    }

    pub open spec fn spec_port(self) -> u16 {
        match self {
            SocketAddr::V4(a) => a.port,
            SocketAddr::V6(a) => a.port,
        }
    }

    pub open spec fn spec_family(self) -> AddrFamily {
        match self {
            SocketAddr::V4(_) => AddrFamily::Ipv4,
            SocketAddr::V6(_) => AddrFamily::Ipv6,
        }
    }

    /// Whether this is the address of its family with every bit zero.
    pub open spec fn is_unspecified(self) -> bool {
        match self {
            SocketAddr::V4(a) => a.port == 0 && a.ip.octets@ == seq![0u8, 0u8, 0u8, 0u8],
            SocketAddr::V6(a) => a.port == 0 && a.flowinfo == 0 && a.scope_id == 0
                && a.ip.segments@ == seq![0u16, 0u16, 0u16, 0u16, 0u16, 0u16, 0u16, 0u16],
        }
    }

    pub fn new(ip: IpAddr, port: u16) -> (r: SocketAddr)
        ensures
            r == Self::spec_new(ip, port),
            r.spec_ip() == ip,
            r.spec_port() == port,
            r.spec_family() == ip.spec_family(),
    {
        match ip {
            IpAddr::V4(a) => SocketAddr::V4(SocketAddrV4::new(a, port)),
            IpAddr::V6(a) => SocketAddr::V6(SocketAddrV6::new(a, port, 0, 0)),
        }
    }

    pub fn new_unspecified(family: AddrFamily) -> (r: SocketAddr)
        ensures
            r.spec_family() == family,
            r.is_unspecified(),
    {
        match family {
            AddrFamily::Ipv4 => SocketAddr::V4(
                SocketAddrV4::new(Ipv4Addr::new(0, 0, 0, 0), 0),
            ),
            AddrFamily::Ipv6 => SocketAddr::V6(
                SocketAddrV6::new(Ipv6Addr::new(0, 0, 0, 0, 0, 0, 0, 0), 0, 0, 0),
            ),
        }
    }

    pub fn ip(&self) -> (r: IpAddr)
        ensures
            r == self.spec_ip(),
    {
        match *self {
            SocketAddr::V4(a) => IpAddr::V4(a.ip()),
            SocketAddr::V6(a) => IpAddr::V6(a.ip()),
        }
    }

    pub fn port(&self) -> (r: u16)
        ensures
            r == self.spec_port(),
    {
        match *self {
            SocketAddr::V4(a) => a.port(),
            SocketAddr::V6(a) => a.port(),
        }
    }

    pub fn family(&self) -> (r: AddrFamily)
        ensures
            r == self.spec_family(),
    {
        match *self {
            SocketAddr::V4(_) => AddrFamily::Ipv4,
            SocketAddr::V6(_) => AddrFamily::Ipv6,
        }
    }

    /// The socket addresses that this value stands for: itself, and no
    /// other.
    pub fn to_socket_addrs(&self) -> (r: Result<Vec<SocketAddr>, Error>)
        ensures
            r is Ok,
            r->Ok_0@ == seq![*self],
    {
        let mut addrs: Vec<SocketAddr> = Vec::new();
        addrs.push(*self);
        assert(addrs@ =~= seq![*self]);
        Ok(addrs)
    }
}

} // verus!
