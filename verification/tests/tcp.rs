use ioq::error::ErrorKind;
use ioq::handle::Handle;
use ioq::net::addr::{IpAddr, Ipv4Addr, Ipv6Addr, SocketAddr};
use ioq::net::socket::Socket;
use ioq::net::tcp::{AddrBuffers, TcpListener, TcpStream};
use ioq::queue::{Completion, Context, State};
use ioq::sys::Outcome;
use ioq::{Custom, Event, Queue};
use std::cell::{Cell, RefCell};
use std::rc::Rc;

const PORT: usize = 0x40;
const PENDING: i32 = 997;

fn ok(value: usize) -> Outcome {
    Outcome { value, code: 0 }
}

fn failed(value: usize, code: i32) -> Outcome {
    Outcome { value, code }
}

fn v4(a: u8, b: u8, c: u8, d: u8, port: u16) -> SocketAddr {
    SocketAddr::new(IpAddr::V4(Ipv4Addr::new(a, b, c, d)), port)
}

fn queue() -> Queue {
    Queue::new(ok(PORT)).unwrap()
}

fn listener(q: &mut Queue, addr: SocketAddr, socket: usize) -> TcpListener {
    TcpListener::new(addr, q, ok(socket), ok(0), ok(0), ok(PORT)).unwrap()
}

fn stream(q: &mut Queue, local: SocketAddr, socket: usize) -> TcpStream {
    TcpStream::new(local, q, ok(socket), ok(0), ok(PORT)).unwrap()
}

fn done(token: usize, bytes: u32, written: Vec<u8>) -> Completion {
    Completion {
        success: true,
        bytes,
        overlapped: Some(token),
        code: 0,
        written,
        associated: ok(PORT),
    }
}

fn broken(token: usize, code: i32) -> Completion {
    Completion {
        success: false,
        bytes: 0,
        overlapped: Some(token),
        code,
        written: Vec::new(),
        associated: ok(0),
    }
}

fn scratch(local: SocketAddr, remote: SocketAddr) -> Vec<u8> {
    let mut block = vec![0u8; 288];
    let mut wire = [0u8; 28];
    let len = Socket::sockaddr_from_addr(local, &mut wire) as usize;
    block[..len].copy_from_slice(&wire[..len]);
    let mut wire = [0u8; 28];
    let len = Socket::sockaddr_from_addr(remote, &mut wire) as usize;
    block[144..144 + len].copy_from_slice(&wire[..len]);
    block
}

struct SetFlag {
    flag: Rc<Cell<u32>>,
}

impl Custom for SetFlag {
    fn execute(self: Box<Self>) {
        self.flag.set(self.flag.get() + 1);
    }
}

struct Note {
    name: char,
    log: Rc<RefCell<Vec<char>>>,
}

impl Custom for Note {
    fn execute(self: Box<Self>) {
        self.log.borrow_mut().push(self.name);
    }
}

#[test]
fn custom_round_trip_sets_the_flag_once() {
    let mut q = queue();
    let flag = Rc::new(Cell::new(0));
    q.enqueue(Box::new(SetFlag { flag: flag.clone() }), ok(1)).unwrap();
    assert_eq!(flag.get(), 0);
    assert_eq!(q.waiting(), 1);
    assert!(!q.is_drained());
    assert!(matches!(q.dequeue().unwrap(), Event::Custom));
    assert_eq!(flag.get(), 1);
    assert!(q.try_dequeue().is_none());
    assert_eq!(flag.get(), 1);
    assert!(q.is_drained());
}

#[test]
fn refused_post_queues_nothing_and_runs_nothing() {
    let mut q = queue();
    let flag = Rc::new(Cell::new(0));
    let e = q.enqueue(Box::new(SetFlag { flag: flag.clone() }), failed(0, 1816)).unwrap_err();
    assert_eq!(e.os_error_code(), Some(1816));
    assert_eq!(q.waiting(), 0);
    assert!(q.is_drained());
    assert!(q.try_dequeue().is_none());
    assert_eq!(flag.get(), 0);
    assert_eq!(Rc::strong_count(&flag), 1);
}

#[test]
fn refused_post_between_two_taken_ones() {
    let mut q = queue();
    let log = Rc::new(RefCell::new(Vec::new()));
    q.enqueue(Box::new(Note { name: 'A', log: log.clone() }), ok(1)).unwrap();
    assert!(q.enqueue(Box::new(Note { name: 'X', log: log.clone() }), failed(0, 8)).is_err());
    q.enqueue(Box::new(Note { name: 'B', log: log.clone() }), ok(1)).unwrap();
    assert_eq!(q.waiting(), 2);
    assert!(matches!(q.dequeue().unwrap(), Event::Custom));
    assert!(matches!(q.dequeue().unwrap(), Event::Custom));
    assert!(q.try_dequeue().is_none());
    assert_eq!(*log.borrow(), vec!['A', 'B']);
}

#[test]
fn custom_events_arrive_in_posting_order() {
    let mut q = queue();
    let log = Rc::new(RefCell::new(Vec::new()));
    q.enqueue(Box::new(Note { name: 'A', log: log.clone() }), ok(1)).unwrap();
    q.enqueue(Box::new(Note { name: 'B', log: log.clone() }), ok(1)).unwrap();
    assert!(matches!(q.dequeue().unwrap(), Event::Custom));
    assert_eq!(*log.borrow(), vec!['A']);
    assert!(matches!(q.dequeue().unwrap(), Event::Custom));
    assert_eq!(*log.borrow(), vec!['A', 'B']);
}

#[test]
fn custom_event_runs_on_a_failed_completion_too() {
    let mut q = queue();
    let flag = Rc::new(Cell::new(0));
    let custom: Box<dyn Custom> = Box::new(SetFlag { flag: flag.clone() });
    let token = q.submit(Context::Custom(custom), true, 0).unwrap();
    q.post(broken(token, 995));
    assert!(matches!(q.dequeue().unwrap(), Event::Custom));
    assert_eq!(flag.get(), 1);
}

#[test]
fn listen_and_accept_loop() {
    let mut q = queue();
    let addr = v4(0, 0, 0, 0, 3000);
    let l = listener(&mut q, addr, 100);
    assert_eq!(l.addr(), addr);
    assert_eq!(l.socket, Handle::from_raw(100));
    assert_eq!(l.queue, Handle::from_raw(PORT));

    let token = q.next_token();
    l.accept(&mut q, ok(101), failed(0, PENDING)).unwrap();
    assert!(q.in_flight(token));
    assert_eq!(q.in_flight_count(), 1);

    q.post(done(token, 0, scratch(v4(127, 0, 0, 1, 3000), v4(127, 0, 0, 1, 50123))));
    assert!(!q.in_flight(token));
    match q.dequeue().unwrap() {
        Event::TcpAccept(from, Ok(s)) => {
            assert_eq!(from, l);
            assert_eq!(s.addr_remote().ip(), IpAddr::V4(Ipv4Addr::new(127, 0, 0, 1)));
            assert_eq!(s.addr_remote().port(), 50123);
            assert_eq!(s.addr_local(), v4(127, 0, 0, 1, 3000));
            assert_eq!(s.socket, Handle::from_raw(101));
            assert_eq!(s.queue, Handle::from_raw(PORT));
        }
        _ => panic!("expected an accepted stream"),
    }
    assert!(q.take_released().is_empty());
    assert!(q.try_dequeue().is_none());
    assert_eq!(q.in_flight_count(), 0);

    let token = q.next_token();
    l.accept(&mut q, ok(102), ok(1)).unwrap();
    q.post(done(token, 0, scratch(v4(127, 0, 0, 1, 3000), v4(127, 0, 0, 1, 50124))));
    match q.dequeue().unwrap() {
        Event::TcpAccept(from, Ok(s)) => {
            assert_eq!(from, l);
            assert_eq!(s.addr_remote(), v4(127, 0, 0, 1, 50124));
            assert_eq!(s.socket, Handle::from_raw(102));
        }
        _ => panic!("expected a second accepted stream"),
    }
    assert!(q.try_dequeue().is_none());
    assert!(q.is_drained());
}

#[test]
fn accept_of_a_v6_connection() {
    let mut q = queue();
    let any = SocketAddr::new(IpAddr::V6(Ipv6Addr::new(0, 0, 0, 0, 0, 0, 0, 0)), 3000);
    let l = listener(&mut q, any, 100);
    let token = q.next_token();
    l.accept(&mut q, ok(101), failed(0, PENDING)).unwrap();
    let local = SocketAddr::new(IpAddr::V6(Ipv6Addr::new(0, 0, 0, 0, 0, 0, 0, 1)), 3000);
    let remote = SocketAddr::new(IpAddr::V6(Ipv6Addr::new(0xfe80, 0, 0, 0, 1, 2, 3, 4)), 40000);
    q.post(done(token, 0, scratch(local, remote)));
    match q.dequeue().unwrap() {
        Event::TcpAccept(_, Ok(s)) => {
            assert_eq!(s.addr_local(), local);
            assert_eq!(s.addr_remote(), remote);
        }
        _ => panic!("expected an accepted stream"),
    }
}

#[test]
fn echo() {
    let mut q = queue();
    let s = stream(&mut q, v4(0, 0, 0, 0, 0), 200);

    let token = q.next_token();
    s.receive(&mut q, vec![0u8; 1024], failed(usize::MAX, PENDING)).unwrap();
    q.post(done(token, 2, b"hi".to_vec()));
    match q.dequeue().unwrap() {
        Event::TcpReceive(from, buf, Ok(count)) => {
            assert_eq!(from, s);
            assert_eq!(count, 2);
            assert_eq!(buf.len(), 1024);
            assert_eq!(&buf[0..2], b"hi");
            assert!(buf[2..].iter().all(|b| *b == 0));
        }
        _ => panic!("expected a receive"),
    }

    let response = b"hi".to_vec();
    let token = q.next_token();
    s.send(&mut q, response.clone(), ok(0)).unwrap();
    q.post(done(token, 2, Vec::new()));
    match q.dequeue().unwrap() {
        Event::TcpSend(from, buf, Ok(())) => {
            assert_eq!(from, s);
            assert_eq!(buf, response);
        }
        _ => panic!("expected a send"),
    }
    assert!(q.is_drained());
}

#[test]
fn buffers_come_back_in_the_same_allocation() {
    let mut q = queue();
    let s = stream(&mut q, v4(0, 0, 0, 0, 0), 200);
    let out = vec![7u8; 64];
    let out_at = out.as_ptr();
    let into = vec![0u8; 64];
    let into_at = into.as_ptr();
    let t1 = q.next_token();
    s.send(&mut q, out, ok(0)).unwrap();
    let t2 = q.next_token();
    s.receive(&mut q, into, ok(0)).unwrap();
    assert_ne!(t1, t2);
    q.post(done(t2, 3, vec![1, 2, 3]));
    q.post(done(t1, 64, Vec::new()));
    match q.dequeue().unwrap() {
        Event::TcpReceive(_, buf, Ok(3)) => {
            assert_eq!(buf.as_ptr(), into_at);
            assert_eq!(&buf[..4], &[1, 2, 3, 0]);
        }
        _ => panic!("expected the receive first"),
    }
    match q.dequeue().unwrap() {
        Event::TcpSend(_, buf, Ok(())) => {
            assert_eq!(buf.as_ptr(), out_at);
            assert_eq!(buf, vec![7u8; 64]);
        }
        _ => panic!("expected the send"),
    }
}

#[test]
fn receive_keeps_what_is_behind_the_count() {
    let mut q = queue();
    let s = stream(&mut q, v4(0, 0, 0, 0, 0), 200);
    let token = q.next_token();
    s.receive(&mut q, vec![9u8; 4], ok(0)).unwrap();
    q.post(done(token, 2, vec![1, 2, 3, 4, 5, 6]));
    match q.dequeue().unwrap() {
        Event::TcpReceive(_, buf, Ok(2)) => assert_eq!(buf, vec![1, 2, 9, 9]),
        _ => panic!("expected a receive of two bytes"),
    }
}

#[test]
fn graceful_close() {
    let mut q = queue();
    let s = stream(&mut q, v4(0, 0, 0, 0, 0), 200);
    let token = q.next_token();
    s.receive(&mut q, vec![5u8; 16], failed(usize::MAX, PENDING)).unwrap();
    q.post(done(token, 0, Vec::new()));
    match q.dequeue().unwrap() {
        Event::TcpReceive(from, buf, Ok(0)) => {
            assert_eq!(from, s);
            assert_eq!(buf, vec![5u8; 16]);
        }
        _ => panic!("expected an empty receive"),
    }
    assert!(q.is_drained());
    assert_eq!(q.waiting(), 0);
}

#[test]
fn connect_and_fetch() {
    let mut q = queue();
    let local = v4(0, 0, 0, 0, 0);
    let server = v4(93, 184, 216, 34, 80);
    let s = stream(&mut q, local, 300);
    assert_eq!(s.addr_local(), local);
    assert_eq!(s.addr_remote(), v4(0, 0, 0, 0, 0));

    let token = q.next_token();
    s.connect(&mut q, server, failed(0, PENDING)).unwrap();
    q.post(done(token, 0, Vec::new()));
    let s = match q.dequeue().unwrap() {
        Event::TcpConnect(s, Ok(())) => s,
        _ => panic!("expected a connect"),
    };
    assert_eq!(s.addr_remote(), server);
    assert_eq!(s.addr_local(), local);
    assert_eq!(s.socket, Handle::from_raw(300));

    let token = q.next_token();
    s.send(&mut q, b"GET /\r\n".to_vec(), ok(0)).unwrap();
    q.post(done(token, 7, Vec::new()));
    assert!(matches!(q.dequeue().unwrap(), Event::TcpSend(_, _, Ok(()))));

    let mut kinds = vec!["connect", "send"];
    let page: Vec<Vec<u8>> = vec![b"<html>".to_vec(), b"</html>".to_vec(), Vec::new()];
    let mut body = Vec::new();
    for part in page {
        let token = q.next_token();
        s.receive(&mut q, vec![0u8; 512 * 1024], failed(usize::MAX, PENDING)).unwrap();
        q.post(done(token, part.len() as u32, part));
        match q.dequeue().unwrap() {
            Event::TcpReceive(_, buf, Ok(count)) => {
                assert_eq!(buf.len(), 512 * 1024);
                kinds.push("receive");
                body.extend_from_slice(&buf[..count]);
                if count == 0 {
                    break;
                }
            }
            _ => panic!("expected a receive"),
        }
    }
    assert_eq!(kinds, vec!["connect", "send", "receive", "receive", "receive"]);
    assert_eq!(body, b"<html></html>".to_vec());
    assert!(q.is_drained());
}

#[test]
fn submission_failure_path() {
    let mut q = queue();
    let r = TcpListener::new(v4(1, 2, 3, 4, 65535), &mut q, ok(100), failed(usize::MAX, 10049), ok(0), ok(PORT));
    assert_eq!(r.unwrap_err().os_error_code(), Some(10049));
    assert!(q.try_dequeue().is_none());
    assert_eq!(q.waiting(), 0);
    assert_eq!(q.in_flight_count(), 0);
    assert!(q.is_drained());
    assert_eq!(q.take_released(), vec![Handle::from_raw(100)]);
}

#[test]
fn listener_setup_reports_the_first_failure() {
    let addr = v4(0, 0, 0, 0, 3000);
    let mut q = queue();
    let r = TcpListener::new(addr, &mut q, failed(usize::MAX, 1), failed(1, 2), failed(1, 3), failed(0, 4));
    assert_eq!(r.unwrap_err().os_error_code(), Some(1));
    assert!(q.take_released().is_empty());
    let r = TcpListener::new(addr, &mut q, ok(100), ok(0), failed(usize::MAX, 3), failed(0, 4));
    assert_eq!(r.unwrap_err().os_error_code(), Some(3));
    assert_eq!(q.take_released(), vec![Handle::from_raw(100)]);
    let r = TcpListener::new(addr, &mut q, ok(100), ok(0), ok(0), failed(0, 4));
    assert_eq!(r.unwrap_err().os_error_code(), Some(4));
    assert_eq!(q.take_released(), vec![Handle::from_raw(100)]);
}

#[test]
fn stream_setup_reports_the_first_failure() {
    let local = v4(0, 0, 0, 0, 0);
    let mut q = queue();
    let r = TcpStream::new(local, &mut q, failed(usize::MAX, 1), failed(1, 2), failed(0, 4));
    assert_eq!(r.unwrap_err().os_error_code(), Some(1));
    assert!(q.take_released().is_empty());
    let r = TcpStream::new(local, &mut q, ok(200), failed(usize::MAX, 2), failed(0, 4));
    assert_eq!(r.unwrap_err().os_error_code(), Some(2));
    assert_eq!(q.take_released(), vec![Handle::from_raw(200)]);
    let r = TcpStream::new(local, &mut q, ok(200), ok(0), failed(0, 4));
    assert_eq!(r.unwrap_err().os_error_code(), Some(4));
    assert_eq!(q.take_released(), vec![Handle::from_raw(200)]);
}

#[test]
fn refused_submission_leaves_nothing_in_flight() {
    let mut q = queue();
    let s = stream(&mut q, v4(0, 0, 0, 0, 0), 200);
    let e = s.send(&mut q, vec![1, 2, 3], failed(usize::MAX, 10057)).unwrap_err();
    assert_eq!(e.os_error_code(), Some(10057));
    let e = s.receive(&mut q, vec![0; 8], failed(usize::MAX, 10057)).unwrap_err();
    assert_eq!(e.os_error_code(), Some(10057));
    let e = s.connect(&mut q, v4(10, 0, 0, 1, 80), failed(0, 10061)).unwrap_err();
    assert_eq!(e.os_error_code(), Some(10061));
    assert_eq!(q.in_flight_count(), 0);
    assert!(q.is_drained());
    assert!(q.try_dequeue().is_none());
}

#[test]
fn refused_accept_closes_the_new_socket() {
    let mut q = queue();
    let l = listener(&mut q, v4(0, 0, 0, 0, 3000), 100);
    let e = l.accept(&mut q, ok(101), failed(0, 10022)).unwrap_err();
    assert_eq!(e.os_error_code(), Some(10022));
    assert_eq!(q.in_flight_count(), 0);
    assert_eq!(q.take_released(), vec![Handle::from_raw(101)]);
    let e = l.accept(&mut q, failed(usize::MAX, 10024), ok(1)).unwrap_err();
    assert_eq!(e.os_error_code(), Some(10024));
    assert!(q.take_released().is_empty());
    assert!(q.is_drained());
}

#[test]
fn failed_accept_closes_the_new_socket() {
    let mut q = queue();
    let l = listener(&mut q, v4(0, 0, 0, 0, 3000), 100);
    let token = q.next_token();
    l.accept(&mut q, ok(101), failed(0, PENDING)).unwrap();
    q.post(broken(token, 64));
    match q.dequeue().unwrap() {
        Event::TcpAccept(from, Err(e)) => {
            assert_eq!(from, l);
            assert_eq!(e.os_error_code(), Some(64));
        }
        _ => panic!("expected a failed accept"),
    }
    assert_eq!(q.take_released(), vec![Handle::from_raw(101)]);
    assert!(q.is_drained());
}

#[test]
fn accept_that_cannot_be_associated_fails_and_closes() {
    let mut q = queue();
    let l = listener(&mut q, v4(0, 0, 0, 0, 3000), 100);
    let token = q.next_token();
    l.accept(&mut q, ok(101), ok(1)).unwrap();
    let mut c = done(token, 0, scratch(v4(127, 0, 0, 1, 3000), v4(127, 0, 0, 1, 50123)));
    c.associated = failed(0, 87);
    q.post(c);
    match q.dequeue().unwrap() {
        Event::TcpAccept(_, Err(e)) => assert_eq!(e.os_error_code(), Some(87)),
        _ => panic!("expected a failed accept"),
    }
    assert_eq!(q.take_released(), vec![Handle::from_raw(101)]);
}

#[test]
fn accept_with_unreadable_addresses_fails_and_closes() {
    let mut q = queue();
    let l = listener(&mut q, v4(0, 0, 0, 0, 3000), 100);
    let token = q.next_token();
    l.accept(&mut q, ok(101), ok(1)).unwrap();
    q.post(done(token, 0, vec![0u8; 288]));
    match q.dequeue().unwrap() {
        Event::TcpAccept(_, Err(e)) => assert_eq!(e.kind(), Some(ErrorKind::Unknown)),
        _ => panic!("expected a failed accept"),
    }
    assert_eq!(q.take_released(), vec![Handle::from_raw(101)]);
}

#[test]
fn failed_completions_carry_the_systems_code() {
    let mut q = queue();
    let s = stream(&mut q, v4(0, 0, 0, 0, 0), 200);
    let t1 = q.next_token();
    s.send(&mut q, vec![1, 2], ok(0)).unwrap();
    let t2 = q.next_token();
    s.receive(&mut q, vec![3, 4], ok(0)).unwrap();
    let t3 = q.next_token();
    s.connect(&mut q, v4(10, 0, 0, 1, 80), ok(1)).unwrap();
    q.post(broken(t1, 10054));
    q.post(broken(t2, 10053));
    q.post(broken(t3, 10060));
    match q.dequeue().unwrap() {
        Event::TcpSend(_, buf, Err(e)) => {
            assert_eq!(buf, vec![1, 2]);
            assert_eq!(e.os_error_code(), Some(10054));
        }
        _ => panic!("expected a failed send"),
    }
    match q.dequeue().unwrap() {
        Event::TcpReceive(_, buf, Err(e)) => {
            assert_eq!(buf, vec![3, 4]);
            assert_eq!(e.os_error_code(), Some(10053));
        }
        _ => panic!("expected a failed receive"),
    }
    match q.dequeue().unwrap() {
        Event::TcpConnect(to, Err(e)) => {
            assert_eq!(to.addr_remote(), v4(10, 0, 0, 1, 80));
            assert_eq!(e.os_error_code(), Some(10060));
        }
        _ => panic!("expected a failed connect"),
    }
    assert!(q.is_drained());
}

#[test]
fn completion_without_a_block_is_the_systems_error() {
    let mut q = queue();
    q.post(Completion {
        success: false,
        bytes: 0,
        overlapped: None,
        code: 735,
        written: Vec::new(),
        associated: ok(0),
    });
    assert_eq!(q.dequeue().unwrap_err().os_error_code(), Some(735));
    q.post(Completion {
        success: true,
        bytes: 0,
        overlapped: None,
        code: 6,
        written: Vec::new(),
        associated: ok(0),
    });
    assert_eq!(q.dequeue().unwrap_err().os_error_code(), Some(6));
}

#[test]
fn tokens_are_reused_after_completion() {
    let mut q = queue();
    let s = stream(&mut q, v4(0, 0, 0, 0, 0), 200);
    assert_eq!(q.next_token(), 0);
    s.send(&mut q, vec![1], ok(0)).unwrap();
    assert_eq!(q.next_token(), 1);
    s.send(&mut q, vec![2], ok(0)).unwrap();
    assert_eq!(q.next_token(), 2);
    assert_eq!(q.in_flight_count(), 2);
    q.post(done(0, 1, Vec::new()));
    assert_eq!(q.next_token(), 0);
    assert_eq!(q.in_flight_count(), 1);
    assert!(!q.is_drained());
    s.send(&mut q, vec![3], ok(0)).unwrap();
    assert_eq!(q.next_token(), 2);
    assert!(q.in_flight(0) && q.in_flight(1) && !q.in_flight(2));
}

#[test]
fn state_block_starts_with_a_zero_header() {
    let flag = Rc::new(Cell::new(0));
    let custom: Box<dyn Custom> = Box::new(SetFlag { flag: flag.clone() });
    let state = State::new(Context::Custom(custom));
    let header = state.overlapped();
    assert_eq!((header.Internal, header.InternalHigh, header.Offset), (0, 0, 0));
    assert_eq!((header.OffsetHigh, header.hEvent), (0, 0));
    assert!(matches!(state.into_context(), Context::Custom(_)));
    assert_eq!(flag.get(), 0);
}

#[test]
fn scratch_block_takes_in_what_was_written() {
    let mut addrs = AddrBuffers::new();
    let mut written = vec![0u8; 150];
    for (i, b) in written.iter_mut().enumerate() {
        *b = i as u8;
    }
    addrs.fill(&written);
    assert_eq!(addrs.local.addr.bytes[0], 0);
    assert_eq!(addrs.local.addr.bytes[127], 127);
    assert_eq!(addrs.local.extra[0], 128);
    assert_eq!(addrs.local.extra[15], 143);
    assert_eq!(addrs.remote.addr.bytes[0], 144);
    assert_eq!(addrs.remote.addr.bytes[5], 149);
    assert_eq!(addrs.remote.addr.bytes[6], 0);
    assert_eq!(addrs.remote.extra, [0u8; 16]);
}

#[test]
fn every_accepted_submission_gives_exactly_one_event() {
    let mut q = queue();
    let s = stream(&mut q, v4(0, 0, 0, 0, 0), 200);
    let mut tokens = Vec::new();
    for i in 0..5u8 {
        tokens.push(q.next_token());
        s.send(&mut q, vec![i], if i % 2 == 0 { ok(0) } else { failed(usize::MAX, PENDING) }).unwrap();
    }
    assert_eq!(tokens, vec![0, 1, 2, 3, 4]);
    assert_eq!(q.in_flight_count(), 5);
    for token in tokens.iter().rev() {
        q.post(done(*token, 1, Vec::new()));
        assert!(!q.in_flight(*token));
    }
    assert_eq!(q.in_flight_count(), 0);
    assert_eq!(q.waiting(), 5);
    let mut seen = Vec::new();
    while let Some(Ok(event)) = q.try_dequeue() {
        match event {
            Event::TcpSend(_, buf, Ok(())) => seen.push(buf[0]),
            _ => panic!("expected a send"),
        }
    }
    assert_eq!(seen, vec![4, 3, 2, 1, 0]);
    assert!(q.is_drained());
}

#[test]
fn interleaved_operations_are_each_delivered_once() {
    let mut q = queue();
    let l = listener(&mut q, v4(0, 0, 0, 0, 3000), 100);
    let s = stream(&mut q, v4(0, 0, 0, 0, 0), 200);
    let flag = Rc::new(Cell::new(0));

    let t_send = q.next_token();
    s.send(&mut q, vec![1, 1], ok(0)).unwrap();
    assert!(s.receive(&mut q, vec![0; 4], failed(usize::MAX, 10057)).is_err());
    let t_accept = q.next_token();
    l.accept(&mut q, ok(101), failed(0, PENDING)).unwrap();
    q.enqueue(Box::new(SetFlag { flag: flag.clone() }), ok(1)).unwrap();
    let t_receive = q.next_token();
    s.receive(&mut q, vec![0; 4], failed(usize::MAX, PENDING)).unwrap();
    assert!(q.enqueue(Box::new(SetFlag { flag: flag.clone() }), failed(0, 8)).is_err());
    let t_connect = q.next_token();
    s.connect(&mut q, v4(10, 0, 0, 1, 80), ok(1)).unwrap();
    assert_eq!(vec![t_send, t_accept, t_receive, t_connect], vec![0, 1, 2, 3]);
    assert_eq!(q.in_flight_count(), 4);
    assert_eq!(q.waiting(), 1);

    q.post(done(t_receive, 2, vec![8, 9]));
    q.post(done(t_send, 2, Vec::new()));
    assert!(matches!(q.dequeue().unwrap(), Event::Custom));
    assert_eq!(flag.get(), 1);
    assert!(q.in_flight(t_connect) && q.in_flight(t_accept));
    q.post(broken(t_connect, 10061));
    q.post(done(t_accept, 0, scratch(v4(127, 0, 0, 1, 3000), v4(127, 0, 0, 1, 50000))));
    assert_eq!(q.in_flight_count(), 0);

    let mut seen = Vec::new();
    while let Some(event) = q.try_dequeue() {
        seen.push(match event.unwrap() {
            Event::Custom => "custom",
            Event::TcpAccept(_, Ok(_)) => "accept",
            Event::TcpConnect(_, Err(_)) => "connect failed",
            Event::TcpReceive(_, buf, Ok(2)) if buf == vec![8, 9, 0, 0] => "receive",
            Event::TcpSend(_, buf, Ok(())) if buf == vec![1, 1] => "send",
            _ => "other",
        });
    }
    assert_eq!(seen, vec!["receive", "send", "connect failed", "accept"]);
    assert_eq!(flag.get(), 1);
    assert!(q.is_drained());
    assert!(q.take_released().is_empty());
}
