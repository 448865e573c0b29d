use vstd::prelude::*;

verus! {

/// An IPv4 address as its four octets.
#[derive(Copy, Clone, Debug, PartialEq, Eq)]
pub struct IpAddrV4 {
    octets: [u8; 4],
}

impl IpAddrV4 {
    /// The four octets, the first one leading.
    pub closed spec fn spec_octets(&self) -> Seq<u8> {
        self.octets@
    }

    pub fn octets(&self) -> (r: &[u8; 4])
        ensures
            r@ == self.spec_octets(),
    {
        &self.octets
    }

    pub fn new_from_octets(o1: u8, o2: u8, o3: u8, o4: u8) -> (r: IpAddrV4)
        ensures
            r.spec_octets() == seq![o1, o2, o3, o4],
    {
        IpAddrV4 { octets: [o1, o2, o3, o4] }
    }

    /// The address with every octet zero.
    pub fn new_unspecified() -> (r: IpAddrV4)
        ensures
            r.spec_octets() == seq![0u8, 0u8, 0u8, 0u8],
    {
        IpAddrV4 { octets: [0, 0, 0, 0] }
    }
}

/// An IPv4 address with a port.
#[derive(Copy, Clone, Debug, PartialEq, Eq)]
pub struct EndpointV4 {
    address: IpAddrV4,
    port: u16,
}

impl EndpointV4 {
    pub closed spec fn spec_address(&self) -> IpAddrV4 {
        self.address
    }

    pub closed spec fn spec_port(&self) -> u16 {
        self.port
    }

    pub fn address(&self) -> (r: &IpAddrV4)
        ensures
            *r == self.spec_address(),
    {
        &self.address
    }

    pub fn port(&self) -> (r: u16)
        ensures
            r == self.spec_port(),
    {
        self.port
    }

    pub fn new(address: IpAddrV4, port: u16) -> (r: EndpointV4)
        ensures
            r.spec_address() == address,
            r.spec_port() == port,
    {
        EndpointV4 { address, port }
    }
}

/// An endpoint of a connection.
#[derive(Copy, Clone, Debug, PartialEq, Eq)]
pub enum Endpoint {
    V4(EndpointV4),
}

impl Endpoint {
    pub fn new_v4(address: IpAddrV4, port: u16) -> (r: Endpoint)
        ensures
            r matches Endpoint::V4(e) && e.spec_address() == address && e.spec_port() == port,
    {
        Endpoint::V4(EndpointV4::new(address, port))
    }
}

} // verus!
