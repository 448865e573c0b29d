use ioq::handle::Handle;
use ioq::net::addr::AddrFamily;
use ioq::net::socket::Socket;
use ioq::queue::{associate, Queue};
use ioq::sys::{Outcome, AF_INET, AF_INET6, INVALID_SOCKET};

fn ok(value: usize) -> Outcome {
    Outcome { value, code: 0 }
}

fn failed(value: usize, code: i32) -> Outcome {
    Outcome { value, code }
}

#[test]
fn socket_from_a_good_answer() {
    let s = Socket::new_v4(ok(0x1c4)).unwrap();
    assert!(s.is_valid());
    assert_eq!(s.to_raw(), 0x1c4);
    assert_eq!(s.handle(), Handle::from_raw(0x1c4));
    assert_eq!(s.family(), AddrFamily::Ipv4);
    let t = Socket::new_v6(ok(8)).unwrap();
    assert_eq!(t.family(), AddrFamily::Ipv6);
    let u = Socket::new_from_family(AddrFamily::Ipv6, ok(12)).unwrap();
    assert_eq!(u.family(), AddrFamily::Ipv6);
    assert_eq!(u.to_raw(), 12);
    let v = Socket::new(AddrFamily::Ipv4, ok(16)).unwrap();
    assert_eq!(v.family(), AddrFamily::Ipv4);
}

#[test]
fn socket_from_the_invalid_handle_is_the_systems_error() {
    let e = Socket::new_v4(failed(INVALID_SOCKET, 10024)).unwrap_err();
    assert_eq!(e.os_error_code(), Some(10024));
    let e = Socket::new_from_family(AddrFamily::Ipv6, failed(INVALID_SOCKET, 10047)).unwrap_err();
    assert_eq!(e.os_error_code(), Some(10047));
}

#[test]
fn socket_domain_numbers() {
    assert_eq!(Socket::domain(AddrFamily::Ipv4), AF_INET);
    assert_eq!(Socket::domain(AddrFamily::Ipv4), 2);
    assert_eq!(Socket::domain(AddrFamily::Ipv6), AF_INET6);
    assert_eq!(Socket::domain(AddrFamily::Ipv6), 23);
}

#[test]
fn bind_and_listen_read_the_status() {
    let s = Socket::new_v4(ok(7)).unwrap();
    assert!(s.bind(ok(0)).is_ok());
    assert_eq!(s.bind(failed(usize::MAX, 10048)).unwrap_err().os_error_code(), Some(10048));
    assert!(s.listen(ok(0)).is_ok());
    assert_eq!(s.listen(failed(usize::MAX, 10022)).unwrap_err().os_error_code(), Some(10022));
}

#[test]
fn close_is_idempotent() {
    let mut s = Socket::new_v4(ok(7)).unwrap();
    assert_eq!(s.close(), Some(Handle::from_raw(7)));
    assert!(!s.is_valid());
    assert_eq!(s.to_raw(), INVALID_SOCKET);
    assert_eq!(s.close(), None);
    assert!(!s.is_valid());
    assert_eq!(s.to_raw(), INVALID_SOCKET);
}

#[test]
fn last_error_wraps_the_code() {
    assert_eq!(Socket::last_error(10054).os_error_code(), Some(10054));
}

#[test]
fn queue_from_a_null_port_is_the_systems_error() {
    let e = Queue::new(failed(0, 8));
    assert_eq!(e.err().unwrap().os_error_code(), Some(8));
}

#[test]
fn new_queue_holds_nothing() {
    let mut q = Queue::new(ok(0x40)).unwrap();
    assert_eq!(q.handle(), Handle::from_raw(0x40));
    assert_eq!(q.waiting(), 0);
    assert_eq!(q.in_flight_count(), 0);
    assert!(q.is_drained());
    assert_eq!(q.next_token(), 0);
    assert!(!q.in_flight(0));
    assert!(q.take_released().is_empty());
}

#[test]
fn nothing_is_taken_from_an_empty_queue() {
    let mut q = Queue::new(ok(0x40)).unwrap();
    assert!(q.try_dequeue().is_none());
    assert_eq!(q.waiting(), 0);
    assert!(q.is_drained());
}

#[test]
fn associate_succeeds_when_the_port_comes_back() {
    let q = Queue::new(ok(0x40)).unwrap();
    let h = Handle::from_raw(0x1c4);
    assert!(associate(&q, h, ok(0x40)).is_ok());
    assert!(associate(&q, h, ok(0x40)).is_ok());
    let e = associate(&q, h, failed(0, 87)).unwrap_err();
    assert_eq!(e.os_error_code(), Some(87));
    let e = associate(&q, h, failed(0x44, 87)).unwrap_err();
    assert_eq!(e.os_error_code(), Some(87));
}

#[test]
fn released_sockets_are_handed_over_once() {
    let mut q = Queue::new(ok(0x40)).unwrap();
    q.release(Socket::new_v4(ok(5)).unwrap());
    q.release(Socket::new_v4(ok(6)).unwrap());
    let mut closed = Socket::new_v4(ok(9)).unwrap();
    closed.close();
    q.release(closed);
    assert_eq!(q.take_released(), vec![Handle::from_raw(5), Handle::from_raw(6)]);
    assert!(q.take_released().is_empty());
}
