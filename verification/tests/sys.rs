use ioq::net::addr::{IpAddr, Ipv4Addr, Ipv6Addr, SocketAddr, SocketAddrV4, SocketAddrV6};
use ioq::net::socket::Socket;
use ioq::sys::{
    net_16, sockaddr_in, sockaddr_in6, sockaddr_storage, wsaid_acceptex, wsaid_connectex, WSAData,
    WsaExtFn, ERROR_IO_PENDING, INVALID_SOCKET, OVERLAPPED, SOCKADDR_MAX_BYTES, WSABUF,
};

fn storage_of(addr: SocketAddr) -> sockaddr_storage {
    let mut wire = [0u8; SOCKADDR_MAX_BYTES];
    let len = Socket::sockaddr_from_addr(addr, &mut wire) as usize;
    let mut storage = sockaddr_storage::new();
    storage.bytes[..len].copy_from_slice(&wire[..len]);
    storage
}

#[test]
fn net_16_exchanges_the_bytes() {
    assert_eq!(net_16(0x1234), 0x3412);
    assert_eq!(net_16(0x00ff), 0xff00);
    assert_eq!(net_16(0), 0);
    assert_eq!(net_16(0xffff), 0xffff);
    assert_eq!(net_16(3000), 0xb80b);
}

#[test]
fn net_16_twice_is_identity() {
    for n in [0u16, 1, 80, 255, 256, 3000, 0x8000, 65535] {
        assert_eq!(net_16(net_16(n)), n);
    }
}

#[test]
fn sockaddr_in_holds_port_in_network_order() {
    let addr = SocketAddrV4::new(Ipv4Addr::new(127, 0, 0, 1), 3000);
    let rec = sockaddr_in::from_addr(addr);
    assert_eq!(rec.sin_family, 2);
    assert_eq!(rec.sin_port, 0xb80b);
    assert_eq!(rec.sin_addr, [127, 0, 0, 1]);
    assert_eq!(rec.sa_zero, [0u8; 8]);
}

#[test]
fn sockaddr_in6_exchanges_each_segment() {
    let ip = Ipv6Addr::new(0x2001, 0x0db8, 0, 0, 0, 0, 0, 1);
    let rec = sockaddr_in6::from_addr(SocketAddrV6::new(ip, 443, 7, 9));
    assert_eq!(rec.sin6_family, 23);
    assert_eq!(rec.sin6_port, 0xbb01);
    assert_eq!(rec.sin6_flowinfo, 0);
    assert_eq!(rec.sin6_scope_id, 0);
    assert_eq!(rec.sin6_addr, [0x0120, 0xb80d, 0, 0, 0, 0, 0, 0x0100]);
}

#[test]
fn wire_form_of_v4_is_bit_exact() {
    let addr = SocketAddr::new(IpAddr::V4(Ipv4Addr::new(1, 2, 3, 4)), 65535);
    let mut buffer = [0xaau8; 28];
    let len = Socket::sockaddr_from_addr(addr, &mut buffer);
    assert_eq!(len, 16);
    assert_eq!(&buffer[..16], &[2, 0, 0xff, 0xff, 1, 2, 3, 4, 0, 0, 0, 0, 0, 0, 0, 0]);
    assert_eq!(&buffer[16..], &[0xaau8; 12]);
}

#[test]
fn wire_form_of_v6_is_bit_exact() {
    let ip = Ipv6Addr::new(0x2001, 0x0db8, 0, 0, 0, 0, 0xabcd, 1);
    let addr = SocketAddr::new(IpAddr::V6(ip), 8080);
    let mut buffer = [0xaau8; 28];
    let len = Socket::sockaddr_from_addr(addr, &mut buffer);
    assert_eq!(len, 28);
    assert_eq!(
        buffer,
        [
            23, 0, 0x1f, 0x90, 0, 0, 0, 0, 0x20, 0x01, 0x0d, 0xb8, 0, 0, 0, 0, 0, 0, 0, 0,
            0xab, 0xcd, 0, 1, 0, 0, 0, 0
        ]
    );
}

#[test]
fn storage_reads_back_v4() {
    let addr = SocketAddr::new(IpAddr::V4(Ipv4Addr::new(127, 0, 0, 1)), 3000);
    assert_eq!(storage_of(addr).get_addr(), Some(addr));
}

#[test]
fn storage_reads_back_v6() {
    let ip = Ipv6Addr::new(0xfe80, 0, 0, 0, 0x0202, 0xb3ff, 0xfe1e, 0x8329);
    let addr = SocketAddr::new(IpAddr::V6(ip), 51234);
    assert_eq!(storage_of(addr).get_addr(), Some(addr));
}

#[test]
fn storage_drops_flow_label_and_scope() {
    let ip = Ipv6Addr::new(0, 0, 0, 0, 0, 0, 0, 1);
    let addr = SocketAddr::V6(SocketAddrV6::new(ip, 9, 5, 6));
    let back = storage_of(addr).get_addr();
    assert_eq!(back, Some(SocketAddr::V6(SocketAddrV6::new(ip, 9, 0, 0))));
}

#[test]
fn storage_of_unknown_family_has_no_address() {
    let storage = sockaddr_storage::new();
    assert_eq!(storage.get_addr(), None);
    let mut other = sockaddr_storage::new();
    other.bytes[0] = 2;
    other.bytes[1] = 1;
    assert_eq!(other.get_addr(), None);
}

#[test]
fn storage_reads_family_and_port_bytes() {
    let mut storage = sockaddr_storage::new();
    storage.bytes[0] = 2;
    storage.bytes[2] = 0x0b;
    storage.bytes[3] = 0xb8;
    storage.bytes[4] = 10;
    storage.bytes[7] = 9;
    let expected = SocketAddr::new(IpAddr::V4(Ipv4Addr::new(10, 0, 0, 9)), 3000);
    assert_eq!(storage.get_addr(), Some(expected));
}

#[test]
fn overlapped_starts_zeroed() {
    let header = OVERLAPPED::new();
    assert_eq!(
        header,
        OVERLAPPED { Internal: 0, InternalHigh: 0, Offset: 0, OffsetHigh: 0, hEvent: 0 }
    );
}

#[test]
fn wsabuf_takes_the_buffer_length() {
    assert_eq!(WSABUF::new(&[0u8; 1024]).len, 1024);
    assert_eq!(WSABUF::new(&[]).len, 0);
    assert_eq!(WSABUF::new(b"GET /\r\n").len, 7);
}

#[test]
fn extension_function_is_looked_up_once() {
    let mut ext = WsaExtFn::new(wsaid_acceptex());
    assert_eq!(ext.cached(), None);
    assert_eq!(ext.get(Some(0x7000)), 0x7000);
    assert_eq!(ext.cached(), Some(0x7000));
    assert_eq!(ext.get(Some(0x9000)), 0x7000);
    assert_eq!(ext.get(None), 0x7000);
    assert_eq!(ext.guid, wsaid_acceptex());
}

#[test]
fn extension_function_names() {
    let a = wsaid_acceptex();
    assert_eq!((a.Data1, a.Data2, a.Data3), (0xb5367df1, 0xcbac, 0x11cf));
    assert_eq!(a.Data4, [0x95, 0xca, 0x00, 0x80, 0x5f, 0x48, 0xa1, 0x92]);
    let c = wsaid_connectex();
    assert_eq!((c.Data1, c.Data2, c.Data3), (0x25a207b9, 0xddf3, 0x4660));
    assert_eq!(c.Data4, [0x8e, 0xe9, 0x76, 0xe5, 0x8c, 0x74, 0x06, 0x3e]);
}

#[test]
fn startup_report_starts_zeroed() {
    let data = WSAData::new();
    assert_eq!(data.wVersion, 0);
    assert_eq!(data.wHighVersion, 0);
    assert!(data.szDescription.iter().all(|b| *b == 0));
    assert!(data.szSystemStatus.iter().all(|b| *b == 0));
    assert_eq!(data.szDescription.len(), 257);
    assert_eq!(data.szSystemStatus.len(), 129);
    assert_eq!(data.lpVendorInfo, 0);
}

#[test]
fn well_known_numbers() {
    assert_eq!(ERROR_IO_PENDING, 997);
    assert_eq!(INVALID_SOCKET, usize::MAX);
}
