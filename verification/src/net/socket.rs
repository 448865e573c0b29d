use vstd::prelude::*;
use crate::error::{Error, ErrorView};
use crate::handle::Handle;
use crate::net::addr::{AddrFamily, SocketAddr};
use crate::sys::{self, Outcome};

verus! {

/// A socket of the operating system, owned by exactly one value of this
/// type. A socket that has been closed holds the invalid handle.
#[derive(Debug)]
pub struct Socket {
    handle: Handle,
    family: AddrFamily,
}

impl Socket {
    /// The socket's handle.
    pub closed spec fn spec_handle(&self) -> Handle {
        self.handle
    }

    /// The number of the socket's handle.
    pub open spec fn spec_raw(&self) -> usize {
        self.spec_handle()@
    }

    /// The family that the socket was made for.
    pub closed spec fn spec_family(&self) -> AddrFamily {
        self.family
    }

    /// Whether the socket has not been closed.
    pub open spec fn spec_is_valid(&self) -> bool {
        self.spec_raw() != sys::INVALID_SOCKET
    }

    pub fn handle(&self) -> (r: Handle)
        ensures
            r == self.spec_handle(),
    {
        self.handle
    }

    pub fn to_raw(&self) -> (r: usize)
        ensures
            r == self.spec_raw(),
    {
        self.handle.to_raw()
    }

    pub fn family(&self) -> (r: AddrFamily)
        ensures
            r == self.spec_family(),
    {
        self.family
    }

    pub fn is_valid(&self) -> (r: bool)
        ensures
            r == self.spec_is_valid(),
    {
        self.handle.to_raw() != sys::INVALID_SOCKET
    }

    /// Whether the system's answer to a request for a socket is a socket.
    pub fn made(created: Outcome) -> (r: bool)
        ensures
            r == (created.value != sys::INVALID_SOCKET),
    {
        created.value != sys::INVALID_SOCKET
    }

    /// Whether the system's answer to a request that returns a status
    /// reports success.
    pub fn done(status: Outcome) -> (r: bool)
        ensures
            r == (status.value == 0),
    {
        status.value == 0
    }

    /// The address family number that the system is asked for.
    pub fn domain(family: AddrFamily) -> (r: i32)
        ensures
            r == (match family {
                AddrFamily::Ipv4 => sys::AF_INET,
                AddrFamily::Ipv6 => sys::AF_INET6,
            }),
    {
        match family {
            AddrFamily::Ipv4 => sys::AF_INET,
            AddrFamily::Ipv6 => sys::AF_INET6,
        }
    }

    /// What `created` says of a request for a stream socket of the given
    /// family: the socket, or the system's error where it returned the
    /// invalid handle.
    pub open spec fn spec_new(family: AddrFamily, created: Outcome, r: Result<Socket, Error>) -> bool {
        if created.value == sys::INVALID_SOCKET {
            r is Err && r->Err_0@ == ErrorView::Os(created.code)
        } else {
            r is Ok && r->Ok_0.spec_handle() == Handle::spec_from_raw(created.value)
                && r->Ok_0.spec_raw() == created.value && r->Ok_0.spec_family() == family
                && r->Ok_0.spec_is_valid()
        }
    }

    pub fn new_from_family(family: AddrFamily, created: Outcome) -> (r: Result<Socket, Error>)
        ensures
            Self::spec_new(family, created, r),
    {
        match family {
            AddrFamily::Ipv4 => Socket::new_v4(created),
            AddrFamily::Ipv6 => Socket::new_v6(created),
        }
    }

    pub fn new_v4(created: Outcome) -> (r: Result<Socket, Error>)
        ensures
            Self::spec_new(AddrFamily::Ipv4, created, r),
    {
        Socket::new(AddrFamily::Ipv4, created)
    }

    pub fn new_v6(created: Outcome) -> (r: Result<Socket, Error>)
        ensures
            Self::spec_new(AddrFamily::Ipv6, created, r),
    {
        Socket::new(AddrFamily::Ipv6, created)
    }

    pub fn new(family: AddrFamily, created: Outcome) -> (r: Result<Socket, Error>)
        ensures
            Self::spec_new(family, created, r),
    {
        if !Socket::made(created) {
            Err(Socket::last_error(created.code))
        } else {
            Ok(Socket { handle: Handle::from_raw(created.value), family })
        }
    }

    /// What the system's answer to a request to bind the socket means:
    /// success where it returned 0, else its error.
    pub fn bind(&self, bound: Outcome) -> (r: Result<(), Error>)
        ensures
            bound.value == 0 ==> r is Ok,
            bound.value != 0 ==> r is Err && r->Err_0@ == ErrorView::Os(bound.code),
    {
        if Socket::done(bound) {
            Ok(())
        } else {
            Err(Socket::last_error(bound.code))
        }
    }

    /// What the system's answer to a request to listen on the socket
    /// means: success where it returned 0, else its error.
    pub fn listen(&self, listening: Outcome) -> (r: Result<(), Error>)
        ensures
            listening.value == 0 ==> r is Ok,
            listening.value != 0 ==> r is Err && r->Err_0@ == ErrorView::Os(listening.code),
    {
        if Socket::done(listening) {
            Ok(())
        } else {
            Err(Socket::last_error(listening.code))
        }
    }

    /// Gives the socket up. The handle that the system has to close is
    /// returned, once: a socket that is closed already gives nothing.
    pub fn close(&mut self) -> (r: Option<Handle>)
        ensures
            !final(self).spec_is_valid(),
            final(self).spec_family() == old(self).spec_family(),
            old(self).spec_is_valid() ==> r == Some(old(self).spec_handle()),
            !old(self).spec_is_valid() ==> r is None,
    {
        if self.is_valid() {
            let handle = self.handle;
            self.handle = Handle::from_raw(sys::INVALID_SOCKET);
            Some(handle)
        } else {
            None
        }
    }

    /// Writes the wire form of `addr` at the start of `buffer` and returns
    /// its length; the bytes behind it stay as they were.
    pub fn sockaddr_from_addr(addr: SocketAddr, buffer: &mut [u8; 28]) -> (len: i32)
        ensures
            len as int == sys::wire(addr).len(),
            len == (match addr {
                SocketAddr::V4(_) => 16i32,
                SocketAddr::V6(_) => 28i32,
            }),
            final(buffer)@.subrange(0, len as int) == sys::wire(addr),
            final(buffer)@.subrange(len as int, 28) == old(buffer)@.subrange(len as int, 28),
    {
        let ghost before = buffer@;
        match addr {
            SocketAddr::V4(a) => {
                let rec = sys::sockaddr_in::from_addr(a);
                let fam: u16 = rec.sin_family as u16;
                buffer[0] = (fam % 256) as u8;
                buffer[1] = (fam / 256) as u8;
                buffer[2] = (rec.sin_port % 256) as u8;
                buffer[3] = (rec.sin_port / 256) as u8;
                buffer[4] = rec.sin_addr[0];
                buffer[5] = rec.sin_addr[1];
                buffer[6] = rec.sin_addr[2];
                buffer[7] = rec.sin_addr[3];
                buffer[8] = rec.sa_zero[0];
                buffer[9] = rec.sa_zero[1];
                buffer[10] = rec.sa_zero[2];
                buffer[11] = rec.sa_zero[3];
                buffer[12] = rec.sa_zero[4];
                buffer[13] = rec.sa_zero[5];
                buffer[14] = rec.sa_zero[6];
                buffer[15] = rec.sa_zero[7];
                assert(buffer@.subrange(0, 16) =~= rec.spec_bytes());
                assert(buffer@.subrange(16, 28) =~= before.subrange(16, 28));
                16
            },
            SocketAddr::V6(a) => {
                let rec = sys::sockaddr_in6::from_addr(a);
                let fam: u16 = rec.sin6_family as u16;
                buffer[0] = (fam % 256) as u8;
                buffer[1] = (fam / 256) as u8;
                buffer[2] = (rec.sin6_port % 256) as u8;
                buffer[3] = (rec.sin6_port / 256) as u8;
                buffer[4] = 0;
                buffer[5] = 0;
                buffer[6] = 0;
                buffer[7] = 0;
                let w0: u16 = rec.sin6_addr[0];
                buffer[8] = (w0 % 256) as u8;
                buffer[9] = (w0 / 256) as u8;
                let w1: u16 = rec.sin6_addr[1];
                buffer[10] = (w1 % 256) as u8;
                buffer[11] = (w1 / 256) as u8;
                let w2: u16 = rec.sin6_addr[2];
                buffer[12] = (w2 % 256) as u8;
                buffer[13] = (w2 / 256) as u8;
                let w3: u16 = rec.sin6_addr[3];
                buffer[14] = (w3 % 256) as u8;
                buffer[15] = (w3 / 256) as u8;
                let w4: u16 = rec.sin6_addr[4];
                buffer[16] = (w4 % 256) as u8;
                buffer[17] = (w4 / 256) as u8;
                let w5: u16 = rec.sin6_addr[5];
                buffer[18] = (w5 % 256) as u8;
                buffer[19] = (w5 / 256) as u8;
                let w6: u16 = rec.sin6_addr[6];
                buffer[20] = (w6 % 256) as u8;
                buffer[21] = (w6 / 256) as u8;
                let w7: u16 = rec.sin6_addr[7];
                buffer[22] = (w7 % 256) as u8;
                buffer[23] = (w7 / 256) as u8;
                buffer[24] = 0;
                buffer[25] = 0;
                buffer[26] = 0;
                buffer[27] = 0;
                assert(buffer@.subrange(0, 28) =~= rec.spec_bytes());
                assert(buffer@.subrange(28, 28) =~= before.subrange(28, 28));
                28
            },
        }
    }

    /// The error for a code that the socket layer reported.
    pub fn last_error(code: i32) -> (r: Error)
        ensures
            r@ == ErrorView::Os(code),
    {
        Error::from_os_error_code(code)
    }
}

} // verus!
