use vstd::prelude::*;
use crate::net::addr::{Ipv4Addr, Ipv6Addr, SocketAddr, SocketAddrV4, SocketAddrV6, IpAddr};

verus! {

/// The socket handle that stands for "no socket".
pub const INVALID_SOCKET: usize = usize::MAX;

/// The longest backlog a listening socket can ask for.
pub const SOMAXCONN: i32 = 0x7fffffff;

pub const AF_INET: i32 = 2;

pub const AF_INET6: i32 = 23;

pub const SOCK_STREAM: i32 = 1;

pub const IPPROTO_TCP: i32 = 6;

/// The port handle that asks for a fresh completion port.
pub const INVALID_HANDLE_VALUE: usize = usize::MAX;

pub const NULL_HANDLE: usize = 0;

/// The timeout that means "wait without end".
pub const INFINITE: u32 = 0xFFFFFFFF;

pub const ERROR_INSUFFICIENT_BUFFER: i32 = 122;

/// The code that says "accepted; the completion will arrive later".
pub const ERROR_IO_PENDING: i32 = 997;

pub const FORMAT_MESSAGE_FROM_SYSTEM: u32 = 0x00001000;

pub const FORMAT_MESSAGE_IGNORE_INSERTS: u32 = 0x00000200;

pub const FORMAT_MESSAGE_MAX_WIDTH_MASK: u32 = 0x000000FF;

/// Padding that follows each address in the scratch block of an accept.
pub const SOCKADDR_STORAGE_EXTRA_BYTES: usize = 16;

/// Size of the longest wire address.
pub const SOCKADDR_MAX_BYTES: usize = 28;

/// Size of the wire form of an IPv4 socket address.
pub const SOCKADDR_IN_BYTES: usize = 16;

/// Size of the wire form of an IPv6 socket address.
pub const SOCKADDR_IN6_BYTES: usize = 28;

/// Size of the storage that can hold an address of any family.
pub const SOCKADDR_STORAGE_BYTES: usize = 128;

pub const SIO_GET_EXTENSION_FUNCTION_POINTER: u32 = 0xc8000006;

/// What one call into the operating system gave: the value it returned,
/// as a machine word, and the error code that the thread held right after
/// the call. The code means something only where the value reports a
/// failure.
#[derive(Clone, Copy, Debug, PartialEq, Eq, Structural)]
pub struct Outcome {
    pub value: usize,
    pub code: i32,
}

/// The value of a 16-bit word with its two bytes exchanged.
pub open spec fn swap_16(n: u16) -> u16 {
    ((n & 0xff) << 8) | ((n & 0xff00) >> 8)
}

/// Converts a 16-bit word between host order and network order on a
/// little-endian host: the two bytes change places.
pub fn net_16(n: u16) -> (r: u16)
    ensures
        r == swap_16(n),
        r / 256 == n % 256,
        r % 256 == n / 256,
{
    let lo: u16 = n & 0xff;
    let hi: u16 = (n & 0xff00) >> 8;
    assert(((n & 0xff) << 8) | ((n & 0xff00) >> 8) == ((n & 0xff) << 8) + ((n & 0xff00) >> 8))
        by (bit_vector);
    assert((n & 0xff) << 8 <= 0xff00) by (bit_vector);
    assert((n & 0xff00) >> 8 <= 0xff) by (bit_vector);
    assert((((n & 0xff) << 8) | ((n & 0xff00) >> 8)) / 256 == n % 256) by (bit_vector);
    assert((((n & 0xff) << 8) | ((n & 0xff00) >> 8)) % 256 == n / 256) by (bit_vector);
    (lo << 8) + hi
}

/// Exchanging the bytes twice gives the word back.
pub proof fn lemma_swap_16_involution(n: u16)
    ensures
        swap_16(swap_16(n)) == n,
{
    assert(((((n & 0xff) << 8) | ((n & 0xff00) >> 8)) & 0xff) << 8 | (((((n & 0xff) << 8) | ((n
        & 0xff00) >> 8)) & 0xff00) >> 8) == n) by (bit_vector);
}

/// The high byte of a 16-bit word.
pub open spec fn hi_byte(n: u16) -> u8 {
    (n / 256) as u8
}

/// The low byte of a 16-bit word.
pub open spec fn lo_byte(n: u16) -> u8 {
    (n % 256) as u8
}

/// The 16-bit word whose high byte is `hi` and whose low byte is `lo`.
pub open spec fn word_of(hi: u8, lo: u8) -> u16 {
    (hi as int * 256 + lo as int) as u16
}

/// The wire form of an IPv4 socket address: the family, the port in
/// network order, the four octets, and eight zero bytes.
pub open spec fn wire_v4(addr: SocketAddrV4) -> Seq<u8> {
    seq![
        2u8, 0u8,
        hi_byte(addr.port), lo_byte(addr.port),
        addr.ip.octets@[0], addr.ip.octets@[1], addr.ip.octets@[2], addr.ip.octets@[3],
        0u8, 0u8, 0u8, 0u8, 0u8, 0u8, 0u8, 0u8,
    ]
}

/// The wire form of an IPv6 socket address: the family, the port in
/// network order, a zero flow label, the eight segments in network order,
/// and a zero scope.
pub open spec fn wire_v6(addr: SocketAddrV6) -> Seq<u8> {
    let s = addr.ip.segments@;
    seq![
        23u8, 0u8,
        hi_byte(addr.port), lo_byte(addr.port),
        0u8, 0u8, 0u8, 0u8,
        hi_byte(s[0]), lo_byte(s[0]), hi_byte(s[1]), lo_byte(s[1]),
        hi_byte(s[2]), lo_byte(s[2]), hi_byte(s[3]), lo_byte(s[3]),
        hi_byte(s[4]), lo_byte(s[4]), hi_byte(s[5]), lo_byte(s[5]),
        hi_byte(s[6]), lo_byte(s[6]), hi_byte(s[7]), lo_byte(s[7]),
        0u8, 0u8, 0u8, 0u8,
    ]
}

/// The wire form of a socket address of either family.
pub open spec fn wire(addr: SocketAddr) -> Seq<u8> {
    match addr {
        SocketAddr::V4(a) => wire_v4(a),
        SocketAddr::V6(a) => wire_v6(a),
    }
}

/// The socket address that a block of bytes holds in wire form, if its
/// family is one of the two known ones. The block is at least as long as
/// the longest wire address.
pub open spec fn decode(bytes: Seq<u8>) -> Option<SocketAddr> {
    let family = word_of(bytes[1], bytes[0]);
    let port = word_of(bytes[2], bytes[3]);
    if family == 2 {
        Some(SocketAddr::V4(SocketAddrV4 { ip: decode_ip4(bytes), port }))
    } else if family == 23 {
        Some(SocketAddr::V6(SocketAddrV6 { ip: decode_ip6(bytes), port, flowinfo: 0, scope_id: 0 }))
    } else {
        None
    }
}

/// The IPv4 address whose octets stand at offset 4 of a wire address.
pub open spec fn decode_ip4(bytes: Seq<u8>) -> Ipv4Addr {
    choose|ip: Ipv4Addr| ip.octets@ == seq![bytes[4], bytes[5], bytes[6], bytes[7]]
}

/// The IPv6 address whose segments stand, in network order, at offset 8
/// of a wire address.
pub open spec fn decode_ip6(bytes: Seq<u8>) -> Ipv6Addr {
    choose|ip: Ipv6Addr| ip.segments@ == seq![
        word_of(bytes[8], bytes[9]), word_of(bytes[10], bytes[11]),
        word_of(bytes[12], bytes[13]), word_of(bytes[14], bytes[15]),
        word_of(bytes[16], bytes[17]), word_of(bytes[18], bytes[19]),
        word_of(bytes[20], bytes[21]), word_of(bytes[22], bytes[23]),
    ]
}

/// An IPv4 address is the only one with its octets.
pub proof fn lemma_ip4_by_octets(a: Ipv4Addr, b: Ipv4Addr)
    requires
        a.octets@ == b.octets@,
    ensures
        a == b,
{
    assert(a.octets@ =~= b.octets@);
    assert(a.octets == b.octets);
}

/// An IPv6 address is the only one with its segments.
pub proof fn lemma_ip6_by_segments(a: Ipv6Addr, b: Ipv6Addr)
    requires
        a.segments@ == b.segments@,
    ensures
        a == b,
{
    assert(a.segments@ =~= b.segments@);
    assert(a.segments == b.segments);
}

/// The IPv4 socket address as the host lays it out: the port field holds
/// the port with its bytes exchanged, so that in memory the high byte
/// comes first.
#[allow(non_camel_case_types)]
#[derive(Debug)]
pub struct sockaddr_in {
    pub sin_family: i16,
    pub sin_port: u16,
    pub sin_addr: [u8; 4],
    pub sa_zero: [u8; 8],
}

impl sockaddr_in {
    /// The bytes of the record in memory, on a little-endian host.
    pub open spec fn spec_bytes(self) -> Seq<u8> {
        seq![
            lo_byte(self.sin_family as u16), hi_byte(self.sin_family as u16),
            lo_byte(self.sin_port), hi_byte(self.sin_port),
            self.sin_addr@[0], self.sin_addr@[1], self.sin_addr@[2], self.sin_addr@[3],
            self.sa_zero@[0], self.sa_zero@[1], self.sa_zero@[2], self.sa_zero@[3],
            self.sa_zero@[4], self.sa_zero@[5], self.sa_zero@[6], self.sa_zero@[7],
        ]
    }

    pub fn from_addr(addr: SocketAddrV4) -> (r: sockaddr_in)
        ensures
            r.sin_family == 2,
            r.sin_port == swap_16(addr.port),
            r.sin_addr == addr.ip.octets,
            r.sa_zero@ == seq![0u8, 0u8, 0u8, 0u8, 0u8, 0u8, 0u8, 0u8],
            r.spec_bytes() == wire_v4(addr),
    {
        let r = sockaddr_in {
            sin_family: 2,
            sin_port: net_16(addr.port()),
            sin_addr: addr.ip().octets(),
            sa_zero: [0, 0, 0, 0, 0, 0, 0, 0],
        };
        assert(r.spec_bytes() =~= wire_v4(addr));
        r
    }
}

/// The IPv6 socket address as the host lays it out: the port and each
/// segment are held with their bytes exchanged.
#[allow(non_camel_case_types)]
#[derive(Debug)]
pub struct sockaddr_in6 {
    pub sin6_family: i16,
    pub sin6_port: u16,
    pub sin6_flowinfo: u32,
    pub sin6_addr: [u16; 8],
    pub sin6_scope_id: u32,
}

/// The four bytes of a 32-bit word in memory, on a little-endian host.
pub open spec fn bytes_of_u32(n: u32) -> Seq<u8> {
    seq![
        (n % 256) as u8,
        ((n / 256) % 256) as u8,
        ((n / 65536) % 256) as u8,
        (n / 16777216) as u8,
    ]
}

impl sockaddr_in6 {
    /// The bytes of the record in memory, on a little-endian host.
    pub open spec fn spec_bytes(self) -> Seq<u8> {
        let a = self.sin6_addr@;
        seq![lo_byte(self.sin6_family as u16), hi_byte(self.sin6_family as u16),
            lo_byte(self.sin6_port), hi_byte(self.sin6_port)]
            + bytes_of_u32(self.sin6_flowinfo)
            + seq![
                lo_byte(a[0]), hi_byte(a[0]), lo_byte(a[1]), hi_byte(a[1]),
                lo_byte(a[2]), hi_byte(a[2]), lo_byte(a[3]), hi_byte(a[3]),
                lo_byte(a[4]), hi_byte(a[4]), lo_byte(a[5]), hi_byte(a[5]),
                lo_byte(a[6]), hi_byte(a[6]), lo_byte(a[7]), hi_byte(a[7]),
            ]
            + bytes_of_u32(self.sin6_scope_id)
    }

    pub fn from_addr(addr: SocketAddrV6) -> (r: sockaddr_in6)
        ensures
            r.sin6_family == 23,
            r.sin6_port == swap_16(addr.port),
            r.sin6_flowinfo == 0,
            r.sin6_scope_id == 0,
            forall|i: int| 0 <= i < 8 ==> r.sin6_addr@[i] == swap_16(#[trigger] addr.ip.segments@[i]),
            r.spec_bytes() == wire_v6(addr),
    {
        let segments = addr.ip().segments();
        let r = sockaddr_in6 {
            sin6_family: 23,
            sin6_port: net_16(addr.port()),
            sin6_flowinfo: 0,
            sin6_addr: [
                net_16(segments[0]),
                net_16(segments[1]),
                net_16(segments[2]),
                net_16(segments[3]),
                net_16(segments[4]),
                net_16(segments[5]),
                net_16(segments[6]),
                net_16(segments[7]),
            ],
            sin6_scope_id: 0,
        };
        assert(r.spec_bytes() =~= wire_v6(addr));
        r
    }
}

/// Storage large enough for the wire form of an address of any family,
/// as the system fills it in.
#[allow(non_camel_case_types)]
#[derive(Debug)]
pub struct sockaddr_storage {
    pub bytes: [u8; 128],
}

impl sockaddr_storage {
    /// Storage with every byte zero.
    pub fn new() -> (r: sockaddr_storage)
        ensures
            forall|i: int| 0 <= i < 128 ==> r.bytes@[i] == 0,
    {
        sockaddr_storage { bytes: [0u8; 128] }
    }

    /// The address that the storage holds: `None` where the family is
    /// neither of the two known ones.
    pub fn get_addr(&self) -> (r: Option<SocketAddr>)
        ensures
            r == decode(self.bytes@),
    {
        let b = &self.bytes;
        let family: u16 = (b[1] as u16) * 256 + (b[0] as u16);
        let port: u16 = net_16((b[3] as u16) * 256 + (b[2] as u16));
        if family == 2 {
            let ip = Ipv4Addr::new(b[4], b[5], b[6], b[7]);
            proof {
                lemma_ip4_by_octets(ip, decode_ip4(self.bytes@));
            }
            Some(SocketAddr::new(IpAddr::V4(ip), port))
        } else if family == 23 {
            let ip = Ipv6Addr::new(
                net_16((b[9] as u16) * 256 + (b[8] as u16)),
                net_16((b[11] as u16) * 256 + (b[10] as u16)),
                net_16((b[13] as u16) * 256 + (b[12] as u16)),
                net_16((b[15] as u16) * 256 + (b[14] as u16)),
                net_16((b[17] as u16) * 256 + (b[16] as u16)),
                net_16((b[19] as u16) * 256 + (b[18] as u16)),
                net_16((b[21] as u16) * 256 + (b[20] as u16)),
                net_16((b[23] as u16) * 256 + (b[22] as u16)),
            );
            proof {
                lemma_word_of_parts();
                lemma_ip6_by_segments(ip, decode_ip6(self.bytes@));
            }
            Some(SocketAddr::new(IpAddr::V6(ip), port))
        } else {
            None
        }
    }
}

/// A 16-bit word is made of its two bytes, and of no others.
pub proof fn lemma_word_of_parts()
    ensures
        forall|hi: u8, lo: u8| #[trigger] word_of(hi, lo) as int == hi as int * 256 + lo as int,
        forall|n: u16| word_of(#[trigger] hi_byte(n), lo_byte(n)) == n,
        forall|hi: u8, lo: u8| hi_byte(#[trigger] word_of(hi, lo)) == hi && lo_byte(word_of(hi, lo)) == lo,
{
}

/// Whether the wire form keeps every field of the address: an IPv6
/// address goes out with flow label 0 and scope 0, whatever it holds.
pub open spec fn wire_exact(addr: SocketAddr) -> bool {
    match addr {
        SocketAddr::V4(_) => true,
        SocketAddr::V6(a) => a.flowinfo == 0 && a.scope_id == 0,
    }
}

/// Writing an address in wire form and reading the bytes back gives the
/// address again, whatever follows the wire form in the block.
pub proof fn lemma_wire_round_trip(addr: SocketAddr, bytes: Seq<u8>)
    requires
        wire_exact(addr),
        bytes.len() >= wire(addr).len(),
        bytes.subrange(0, wire(addr).len() as int) == wire(addr),
    ensures
        decode(bytes) == Some(addr),
{
    lemma_word_of_parts();
    let w = wire(addr);
    assert(forall|i: int| 0 <= i < w.len() ==> bytes[i] == bytes.subrange(0, w.len() as int)[i]);
    match addr {
        SocketAddr::V4(a) => {
            assert(w.len() == 16);
            assert(bytes[0] == w[0] && bytes[1] == w[1] && bytes[2] == w[2] && bytes[3] == w[3]);
            assert(bytes[4] == w[4] && bytes[5] == w[5] && bytes[6] == w[6] && bytes[7] == w[7]);
            assert(a.ip.octets@ =~= seq![bytes[4], bytes[5], bytes[6], bytes[7]]);
            lemma_ip4_by_octets(a.ip, decode_ip4(bytes));
        },
        SocketAddr::V6(a) => {
            assert(w.len() == 28);
            assert(bytes[0] == w[0] && bytes[1] == w[1] && bytes[2] == w[2] && bytes[3] == w[3]);
            assert(bytes[8] == w[8] && bytes[9] == w[9] && bytes[10] == w[10] && bytes[11] == w[11]);
            assert(bytes[12] == w[12] && bytes[13] == w[13] && bytes[14] == w[14] && bytes[15] == w[15]);
            assert(bytes[16] == w[16] && bytes[17] == w[17] && bytes[18] == w[18] && bytes[19] == w[19]);
            assert(bytes[20] == w[20] && bytes[21] == w[21] && bytes[22] == w[22] && bytes[23] == w[23]);
            let s = a.ip.segments@;
            assert(s =~= seq![
                word_of(bytes[8], bytes[9]), word_of(bytes[10], bytes[11]),
                word_of(bytes[12], bytes[13]), word_of(bytes[14], bytes[15]),
                word_of(bytes[16], bytes[17]), word_of(bytes[18], bytes[19]),
                word_of(bytes[20], bytes[21]), word_of(bytes[22], bytes[23]),
            ]);
            lemma_ip6_by_segments(a.ip, decode_ip6(bytes));
        },
    }
}

/// The completion header that goes with every submitted operation: five
/// words, all zero when the operation is submitted.
#[allow(non_snake_case)]
#[derive(Clone, Copy, Debug, PartialEq, Eq, Structural)]
pub struct OVERLAPPED {
    pub Internal: usize,
    pub InternalHigh: usize,
    pub Offset: u32,
    pub OffsetHigh: u32,
    pub hEvent: usize,
}

impl OVERLAPPED {
    /// Whether every word of the header is zero.
    pub open spec fn is_zero(self) -> bool {
        self.Internal == 0 && self.InternalHigh == 0 && self.Offset == 0 && self.OffsetHigh == 0
            && self.hEvent == 0
    }

    /// The header with every word zero.
    pub open spec fn new_zero() -> OVERLAPPED {
        OVERLAPPED { Internal: 0, InternalHigh: 0, Offset: 0, OffsetHigh: 0, hEvent: 0 }
    }

    /// One header has every word zero.
    pub proof fn lemma_zero(h: OVERLAPPED)
        requires
            h.is_zero(),
        ensures
            h == Self::new_zero(),
    {
    }

    pub fn new() -> (r: OVERLAPPED)
        ensures
            r.is_zero(),
            r == Self::new_zero(),
    {
        OVERLAPPED { Internal: 0, InternalHigh: 0, Offset: 0, OffsetHigh: 0, hEvent: 0 }
    }
}

/// A scatter-gather descriptor of one buffer: the length that the system
/// is told, which is the buffer's length cut to 32 bits.
#[derive(Clone, Copy, Debug, PartialEq, Eq, Structural)]
pub struct WSABUF {
    pub len: u32,
}

impl WSABUF {
    pub fn new(buffer: &[u8]) -> (r: WSABUF)
        ensures
            r.len as int == buffer@.len() % 0x1_0000_0000,
            buffer@.len() <= u32::MAX ==> r.len as int == buffer@.len(),
    {
        let n: usize = buffer.len();
        assert((n as u32) as int == (n as int) % 0x1_0000_0000) by (bit_vector);
        WSABUF { len: n as u32 }
    }
}

/// The name of an extension function of the socket layer.
#[allow(non_snake_case)]
#[derive(Clone, Copy, Debug, PartialEq, Eq)]
pub struct GUID {
    pub Data1: u32,
    pub Data2: u16,
    pub Data3: u16,
    pub Data4: [u8; 8],
}

/// The name of the extension function that accepts a connection.
pub fn wsaid_acceptex() -> (r: GUID)
    ensures
        r.Data1 == 0xb5367df1 && r.Data2 == 0xcbac && r.Data3 == 0x11cf,
        r.Data4@ == seq![0x95u8, 0xcau8, 0x00u8, 0x80u8, 0x5fu8, 0x48u8, 0xa1u8, 0x92u8],
{
    GUID {
        Data1: 0xb5367df1,
        Data2: 0xcbac,
        Data3: 0x11cf,
        Data4: [0x95, 0xca, 0x00, 0x80, 0x5f, 0x48, 0xa1, 0x92],
    }
}

/// The name of the extension function that connects a socket.
pub fn wsaid_connectex() -> (r: GUID)
    ensures
        r.Data1 == 0x25a207b9 && r.Data2 == 0xddf3 && r.Data3 == 0x4660,
        r.Data4@ == seq![0x8eu8, 0xe9u8, 0x76u8, 0xe5u8, 0x8cu8, 0x74u8, 0x06u8, 0x3eu8],
{
    GUID {
        Data1: 0x25a207b9,
        Data2: 0xddf3,
        Data3: 0x4660,
        Data4: [0x8e, 0xe9, 0x76, 0xe5, 0x8c, 0x74, 0x06, 0x3e],
    }
}

/// An extension function of the socket layer, looked up once and then
/// remembered: `value` is its address, or 0 while it is not known.
pub struct WsaExtFn {
    pub guid: GUID,
    pub value: usize,
}

impl WsaExtFn {
    /// An extension function that has not been looked up yet.
    pub fn new(guid: GUID) -> (r: WsaExtFn)
        ensures
            r.guid == guid,
            r.value == 0,
    {
        WsaExtFn { guid, value: 0 }
    }

    /// The remembered address, if the function has been looked up.
    pub fn cached(&self) -> (r: Option<usize>)
        ensures
            r == (if self.value != 0 { Some(self.value) } else { None::<usize> }),
    {
        if self.value != 0 {
            Some(self.value)
        } else {
            None
        }
    }

    /// The function's address. A remembered address wins; otherwise
    /// `lookup`, the address that the socket layer gave for `guid`, is
    /// remembered and returned.
    pub fn get(&mut self, lookup: Option<usize>) -> (r: usize)
        requires
            old(self).value == 0 ==> lookup.is_some(),
        ensures
            r == (if old(self).value != 0 { old(self).value } else { lookup.unwrap() }),
            final(self).value == r,
            final(self).guid == old(self).guid,
    {
        if self.value != 0 {
            return self.value;
        }
        let value: usize = lookup.unwrap();
        self.value = value;
        value
    }
}

/// What the socket layer reports of itself when it starts.
#[allow(non_snake_case)]
pub struct WSAData {
    pub wVersion: u16,
    pub wHighVersion: u16,
    pub szDescription: [u8; 257],
    pub szSystemStatus: [u8; 129],
    pub iMaxSockets: u16,
    pub iMaxUdpDg: u16,
    pub lpVendorInfo: usize,
}

impl WSAData {
    /// A report with every field zero, for the socket layer to fill in.
    pub fn new() -> (r: WSAData)
        ensures
            r.wVersion == 0 && r.wHighVersion == 0 && r.iMaxSockets == 0 && r.iMaxUdpDg == 0
                && r.lpVendorInfo == 0,
            forall|i: int| 0 <= i < 257 ==> r.szDescription@[i] == 0,
            forall|i: int| 0 <= i < 129 ==> r.szSystemStatus@[i] == 0,
    {
        WSAData {
            wVersion: 0,
            wHighVersion: 0,
            szDescription: [0u8; 257],
            szSystemStatus: [0u8; 129],
            iMaxSockets: 0,
            iMaxUdpDg: 0,
            lpVendorInfo: 0,
        }
    }
}

} // verus!
