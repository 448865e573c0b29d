use vstd::prelude::*;
use crate::error::{Error, ErrorKind, ErrorView};
use crate::handle::Handle;
use crate::net::addr::SocketAddr;
use crate::net::socket::Socket;
use crate::queue::{associate, taken, Completion, Context, Event, EventView, Queue, QueueView, State};
use crate::sys::{self, Outcome};

verus! {

/// A listening TCP socket that delivers its accepted connections through
/// a completion queue. The value names the socket; copies name the same
/// one.
#[derive(Clone, Copy, Debug, PartialEq, Eq)]
pub struct TcpListener {
    /// The port of the queue that the listener is associated with.
    pub queue: Handle,
    /// The listener's socket.
    pub socket: Handle,
    /// The address that the listener was bound to.
    pub addr: SocketAddr,
}

/// The error of the first step that failed when a socket was made,
/// bound, set to listen where `listens` says so, and associated with the
/// port; `None` where every step succeeded. The answers of the steps
/// behind a failed one are not read.
pub open spec fn setup_error(
    port: Handle,
    listens: bool,
    created: Outcome,
    bound: Outcome,
    listening: Outcome,
    associated: Outcome,
) -> Option<ErrorView> {
    if created.value == sys::INVALID_SOCKET {
        Some(ErrorView::Os(created.code))
    } else if bound.value != 0 {
        Some(ErrorView::Os(bound.code))
    } else if listens && listening.value != 0 {
        Some(ErrorView::Os(listening.code))
    } else if associated.value != port@ {
        Some(ErrorView::Os(associated.code))
    } else {
        None
    }
}

/// The socket that a failed setup gives up: the one that was made, where
/// a later step failed.
pub open spec fn setup_gives_up(
    port: Handle,
    listens: bool,
    created: Outcome,
    bound: Outcome,
    listening: Outcome,
    associated: Outcome,
) -> Option<Handle> {
    if created.value != sys::INVALID_SOCKET && setup_error(
        port,
        listens,
        created,
        bound,
        listening,
        associated,
    ) is Some {
        Some(Handle::spec_from_raw(created.value))
    } else {
        None
    }
}

impl TcpListener {
    /// A listener on `addr` that delivers through `queue`. The system was
    /// asked, in this order, for a socket of the address's family, to
    /// bind it to `addr`, to listen on it, and to associate it with the
    /// queue's port; the four answers decide. The first failure is
    /// returned, and the socket, if it was made, is given up.
    pub fn new(
        addr: SocketAddr,
        queue: &mut Queue,
        created: Outcome,
        bound: Outcome,
        listening: Outcome,
        associated: Outcome,
    ) -> (r: Result<TcpListener, Error>)
        ensures
            final(queue)@ == (QueueView {
                released: released_with(
                    old(queue)@.released,
                    setup_gives_up(old(queue)@.handle, true, created, bound, listening, associated),
                ),
                ..old(queue)@
            }),
            match setup_error(old(queue)@.handle, true, created, bound, listening, associated) {
                Some(error) => r is Err && r->Err_0@ == error,
                None => r == Ok::<TcpListener, Error>(
                    TcpListener {
                        queue: old(queue)@.handle,
                        socket: Handle::spec_from_raw(created.value),
                        addr,
                    },
                ),
            },
    {
        let socket = match Socket::new_from_family(addr.family(), created) {
            Ok(socket) => socket,
            Err(error) => {
                return Err(error);
            },
        };
        if let Err(error) = socket.bind(bound) {
            queue.release(socket);
            return Err(error);
        }
        if let Err(error) = socket.listen(listening) {
            queue.release(socket);
            return Err(error);
        }
        match associate(queue, socket.handle(), associated) {
            Ok(_) => Ok(TcpListener { queue: queue.handle(), socket: socket.handle(), addr }),
            Err(error) => {
                queue.release(socket);
                Err(error)
            },
        }
    }

    pub fn addr(&self) -> (r: SocketAddr)
        ensures
            r == self.addr,
    {
        self.addr
    }

    /// Whether `state` is the block of an accept that this listener has
    /// just submitted with a socket whose handle has the number `raw`: a
    /// zero header, the listener, the valid socket, and a scratch block
    /// of zeros.
    pub open spec fn accept_block(self, state: State, raw: usize) -> bool {
        &&& state.overlapped.is_zero()
        &&& state.context is Accept
        &&& state.context->Accept_0.listener == self
        &&& state.context->Accept_0.socket.spec_handle() == Handle::spec_from_raw(raw)
        &&& state.context->Accept_0.socket.spec_is_valid()
        &&& state.context->Accept_0.socket.spec_family() == self.addr.spec_family()
        &&& forall|i: int| 0 <= i < 128 ==> state.context->Accept_0.addrs.local.addr.bytes@[i] == 0
        &&& forall|i: int| 0 <= i < 16 ==> state.context->Accept_0.addrs.local.extra@[i] == 0
        &&& forall|i: int| 0 <= i < 128 ==> state.context->Accept_0.addrs.remote.addr.bytes@[i] == 0
        &&& forall|i: int| 0 <= i < 16 ==> state.context->Accept_0.addrs.remote.extra@[i] == 0
    }

    /// Submits one accept. The system was asked for a socket of the
    /// listener's family (`created`) and then to accept a connection on
    /// it, with the token that `queue.next_token()` gave (`submitted`; a
    /// nonzero value is success). Where no socket was made, its error is
    /// returned and nothing else happens. Where the system refused the
    /// accept with anything but "pending", the socket is given up and the
    /// error returned. Otherwise the accept is in flight.
    pub fn accept(&self, queue: &mut Queue, created: Outcome, submitted: Outcome) -> (r: Result<
        (),
        Error,
    >)
        ensures
            final(queue)@.handle == old(queue)@.handle,
            final(queue)@.posted == old(queue)@.posted,
            created.value == sys::INVALID_SOCKET ==> {
                &&& r is Err
                &&& r->Err_0@ == ErrorView::Os(created.code)
                &&& final(queue)@ == old(queue)@
            },
            created.value != sys::INVALID_SOCKET && !taken(submitted.value != 0, submitted.code) ==> {
                &&& r is Err
                &&& r->Err_0@ == ErrorView::Os(submitted.code)
                &&& final(queue)@.blocks == old(queue)@.blocks
                &&& final(queue)@.released == old(queue)@.released.push(
                    Handle::spec_from_raw(created.value),
                )
            },
            created.value != sys::INVALID_SOCKET && taken(submitted.value != 0, submitted.code) ==> {
                &&& r is Ok
                &&& final(queue)@.released == old(queue)@.released
                &&& table_with(old(queue)@.blocks, final(queue)@.blocks, old(queue)@.next_token())
                &&& self.accept_block(
                    final(queue)@.blocks[old(queue)@.next_token()]->Some_0,
                    created.value,
                )
                &&& final(queue)@ == old(queue)@.submit(
                    final(queue)@.blocks[old(queue)@.next_token()]->Some_0.context,
                    submitted.value != 0,
                    submitted.code,
                )
            },
    {
        let socket = match Socket::new_from_family(self.addr.family(), created) {
            Ok(socket) => socket,
            Err(error) => {
                return Err(error);
            },
        };
        let context = AcceptContext { listener: *self, socket, addrs: AddrBuffers::new() };
        match queue.submit(Context::Accept(context), submitted.value != 0, submitted.code) {
            Ok(_) => Ok(()),
            Err(error) => Err(error),
        }
    }
}

/// Whether `after` is the table `before` with one block more, in slot
/// `t`: every other slot is as it was.
pub open spec fn table_with(before: Seq<Option<State>>, after: Seq<Option<State>>, t: int) -> bool {
    &&& 0 <= t <= before.len()
    &&& after.len() == (if t < before.len() { before.len() } else { before.len() + 1 })
    &&& after[t] is Some
    &&& forall|k: int| 0 <= k < before.len() && k != t ==> after[k] == before[k]
}

/// A TCP connection, or a socket that is about to become one, that
/// delivers its completions through a completion queue. The value names
/// the socket; copies name the same one.
#[derive(Clone, Copy, Debug, PartialEq, Eq)]
pub struct TcpStream {
    /// The port of the queue that the stream is associated with.
    pub queue: Handle,
    /// The stream's socket.
    pub socket: Handle,
    /// The address of the stream's own end.
    pub local: SocketAddr,
    /// The address of the other end.
    pub remote: SocketAddr,
}

impl TcpStream {
    /// A stream whose own end is `local` and that delivers through
    /// `queue`; the other end is not known yet. The system was asked, in
    /// this order, for a socket of the address's family, to bind it to
    /// `local`, and to associate it with the queue's port; the three
    /// answers decide. The first failure is returned, and the socket, if
    /// it was made, is given up.
    pub fn new(
        local: SocketAddr,
        queue: &mut Queue,
        created: Outcome,
        bound: Outcome,
        associated: Outcome,
    ) -> (r: Result<TcpStream, Error>)
        ensures
            final(queue)@ == (QueueView {
                released: released_with(
                    old(queue)@.released,
                    setup_gives_up(old(queue)@.handle, false, created, bound, bound, associated),
                ),
                ..old(queue)@
            }),
            match setup_error(old(queue)@.handle, false, created, bound, bound, associated) {
                Some(error) => r is Err && r->Err_0@ == error,
                None => {
                    &&& r is Ok
                    &&& r->Ok_0.queue == old(queue)@.handle
                    &&& r->Ok_0.socket == Handle::spec_from_raw(created.value)
                    &&& r->Ok_0.local == local
                    &&& r->Ok_0.remote.is_unspecified()
                    &&& r->Ok_0.remote.spec_family() == local.spec_family()
                },
            },
    {
        let socket = match Socket::new_from_family(local.family(), created) {
            Ok(socket) => socket,
            Err(error) => {
                return Err(error);
            },
        };
        if let Err(error) = socket.bind(bound) {
            queue.release(socket);
            return Err(error);
        }
        match associate(queue, socket.handle(), associated) {
            Ok(_) => Ok(
                TcpStream {
                    queue: queue.handle(),
                    socket: socket.handle(),
                    local,
                    remote: SocketAddr::new_unspecified(local.family()),
                },
            ),
            Err(error) => {
                queue.release(socket);
                Err(error)
            },
        }
    }

    /// Submits a connect to `remote`, which becomes the stream's other
    /// end. The system was asked to connect the socket, with the token
    /// that `queue.next_token()` gave (`submitted`; a nonzero value is
    /// success). Where it refused with anything but "pending", the error
    /// is returned and nothing is in flight. Otherwise the connect is in
    /// flight, and owns the stream.
    pub fn connect(self, queue: &mut Queue, remote: SocketAddr, submitted: Outcome) -> (r: Result<
        (),
        Error,
    >)
        ensures
            final(queue)@ == old(queue)@.submit(
                Context::Connect(ConnectContext { stream: TcpStream { remote, ..self } }),
                submitted.value != 0,
                submitted.code,
            ),
            taken(submitted.value != 0, submitted.code) ==> r is Ok,
            !taken(submitted.value != 0, submitted.code) ==> r is Err && r->Err_0@ == ErrorView::Os(
                submitted.code,
            ),
    {
        let stream = TcpStream { queue: self.queue, socket: self.socket, local: self.local, remote };
        let context = ConnectContext { stream };
        match queue.submit(Context::Connect(context), submitted.value != 0, submitted.code) {
            Ok(_) => Ok(()),
            Err(error) => Err(error),
        }
    }

    /// Submits a receive into `buffer`, which the operation owns until
    /// its event gives it back. The system was asked to receive, with the
    /// token that `queue.next_token()` gave (`submitted`; the value 0 is
    /// success). Where it refused with anything but "pending", the error
    /// is returned and nothing is in flight.
    pub fn receive(&self, queue: &mut Queue, buffer: Vec<u8>, submitted: Outcome) -> (r: Result<
        (),
        Error,
    >)
        ensures
            final(queue)@ == old(queue)@.submit(
                Context::Receive(ReceiveContext { stream: *self, buffer }),
                submitted.value == 0,
                submitted.code,
            ),
            taken(submitted.value == 0, submitted.code) ==> r is Ok,
            !taken(submitted.value == 0, submitted.code) ==> r is Err && r->Err_0@ == ErrorView::Os(
                submitted.code,
            ),
    {
        let context = ReceiveContext { stream: *self, buffer };
        match queue.submit(Context::Receive(context), submitted.value == 0, submitted.code) {
            Ok(_) => Ok(()),
            Err(error) => Err(error),
        }
    }

    /// Submits a send of `buffer`, which the operation owns until its
    /// event gives it back. The system was asked to send, with the token
    /// that `queue.next_token()` gave (`submitted`; the value 0 is
    /// success). Where it refused with anything but "pending", the error
    /// is returned and nothing is in flight.
    pub fn send(&self, queue: &mut Queue, buffer: Vec<u8>, submitted: Outcome) -> (r: Result<
        (),
        Error,
    >)
        ensures
            final(queue)@ == old(queue)@.submit(
                Context::Send(SendContext { stream: *self, buffer }),
                submitted.value == 0,
                submitted.code,
            ),
            taken(submitted.value == 0, submitted.code) ==> r is Ok,
            !taken(submitted.value == 0, submitted.code) ==> r is Err && r->Err_0@ == ErrorView::Os(
                submitted.code,
            ),
    {
        let context = SendContext { stream: *self, buffer };
        match queue.submit(Context::Send(context), submitted.value == 0, submitted.code) {
            Ok(_) => Ok(()),
            Err(error) => Err(error),
        }
    }

    pub fn addr_local(&self) -> (r: SocketAddr)
        ensures
            r == self.local,
    {
        self.local
    }

    pub fn addr_remote(&self) -> (r: SocketAddr)
        ensures
            r == self.remote,
    {
        self.remote
    }
}

/// The bytes that a copy of `n` bytes out of `src`, starting at `from`,
/// leaves in a block that held `before`: where `src` ends early, the rest
/// of the block keeps what it held.
pub open spec fn window(src: Seq<u8>, from: int, n: int, before: Seq<u8>) -> Seq<u8> {
    Seq::new(n as nat, |i: int| if from + i < src.len() { src[from + i] } else { before[i] })
}

/// Copies into `dst` the bytes of `src` that start at `from`, as far as
/// `src` has them.
pub fn copy_window<const N: usize>(dst: &mut [u8; N], src: &[u8], from: usize)
    requires
        from + N <= usize::MAX,
    ensures
        final(dst)@ == window(src@, from as int, N as int, old(dst)@),
{
    let ghost before = dst@;
    let mut i: usize = 0;
    while i < N
        invariant
            0 <= i <= N,
            from + N <= usize::MAX,
            dst@.len() == N,
            before.len() == N,
            forall|k: int| 0 <= k < i ==> dst@[k] == window(src@, from as int, N as int, before)[k],
            forall|k: int| i <= k < N ==> dst@[k] == before[k],
        decreases N - i,
    {
        if from + i < src.len() {
            dst[i] = src[from + i];
        }
        i = i + 1;
    }
    assert(dst@ =~= window(src@, from as int, N as int, before));
}

/// Room for one address as the system writes it when it accepts a
/// connection: the storage of the address, and the padding behind it.
#[derive(Debug)]
pub struct AddrBuffer {
    pub addr: sys::sockaddr_storage,
    pub extra: [u8; 16],
}

impl AddrBuffer {
    /// Room with every byte zero.
    pub fn new() -> (r: AddrBuffer)
        ensures
            forall|i: int| 0 <= i < 128 ==> r.addr.bytes@[i] == 0,
            forall|i: int| 0 <= i < 16 ==> r.extra@[i] == 0,
    {
        AddrBuffer { addr: sys::sockaddr_storage::new(), extra: [0u8; 16] }
    }
}

/// The scratch block of an accept: room for the local address, then room
/// for the remote one.
#[derive(Debug)]
pub struct AddrBuffers {
    pub local: AddrBuffer,
    pub remote: AddrBuffer,
}

/// Size of the room for one address in the scratch block of an accept.
pub const ADDR_BUFFER_BYTES: usize = 144;

impl AddrBuffers {
    /// A scratch block with every byte zero.
    pub fn new() -> (r: AddrBuffers)
        ensures
            forall|i: int| 0 <= i < 128 ==> r.local.addr.bytes@[i] == 0,
            forall|i: int| 0 <= i < 16 ==> r.local.extra@[i] == 0,
            forall|i: int| 0 <= i < 128 ==> r.remote.addr.bytes@[i] == 0,
            forall|i: int| 0 <= i < 16 ==> r.remote.extra@[i] == 0,
    {
        AddrBuffers { local: AddrBuffer::new(), remote: AddrBuffer::new() }
    }

    /// Takes in what the system wrote into the block: `written` holds the
    /// block's bytes from its start, and bytes that it does not reach
    /// stay as they were.
    pub fn fill(&mut self, written: &[u8])
        ensures
            final(self).local.addr.bytes@ == window(written@, 0, 128, old(self).local.addr.bytes@),
            final(self).local.extra@ == window(written@, 128, 16, old(self).local.extra@),
            final(self).remote.addr.bytes@ == window(written@, 144, 128, old(self).remote.addr.bytes@),
            final(self).remote.extra@ == window(written@, 272, 16, old(self).remote.extra@),
    {
        copy_window(&mut self.local.addr.bytes, written, 0);
        copy_window(&mut self.local.extra, written, 128);
        copy_window(&mut self.remote.addr.bytes, written, 144);
        copy_window(&mut self.remote.extra, written, 272);
    }
}

/// What an accept in flight owns: the listener, the socket made for the
/// connection to come, and the scratch block for the two addresses.
#[derive(Debug)]
pub struct AcceptContext {
    pub listener: TcpListener,
    pub socket: Socket,
    pub addrs: AddrBuffers,
}

/// What a connect in flight owns: the stream that is being connected.
#[derive(Debug)]
pub struct ConnectContext {
    pub stream: TcpStream,
}

/// What a receive in flight owns: the stream and the buffer to fill.
#[derive(Debug)]
pub struct ReceiveContext {
    pub stream: TcpStream,
    pub buffer: Vec<u8>,
}

/// What a send in flight owns: the stream and the buffer to send.
#[derive(Debug)]
pub struct SendContext {
    pub stream: TcpStream,
    pub buffer: Vec<u8>,
}

/// The handles given up so far, with one more where `given` names one.
pub open spec fn released_with(before: Seq<Handle>, given: Option<Handle>) -> Seq<Handle> {
    match given {
        Some(h) => before.push(h),
        None => before,
    }
}

/// Closes a socket that its owner no longer needs, and notes its handle
/// among those that the system has to close.
pub fn release(socket: Socket, released: &mut Vec<Handle>)
    ensures
        final(released)@ == released_with(
            old(released)@,
            if socket.spec_is_valid() { Some(socket.spec_handle()) } else { None },
        ),
{
    let mut socket = socket;
    match socket.close() {
        Some(handle) => {
            released.push(handle);
        },
        None => {},
    }
}

impl AcceptContext {
    /// The local address that the scratch block holds once the system's
    /// bytes are taken in.
    pub open spec fn spec_local(self, written: Seq<u8>) -> Option<SocketAddr> {
        sys::decode(window(written, 0, 128, self.addrs.local.addr.bytes@))
    }

    /// The remote address that the scratch block holds once the system's
    /// bytes are taken in.
    pub open spec fn spec_remote(self, written: Seq<u8>) -> Option<SocketAddr> {
        sys::decode(window(written, 144, 128, self.addrs.remote.addr.bytes@))
    }

    /// Whether a successful completion yields a stream: the new socket
    /// was associated with the listener's queue, and both addresses can
    /// be read.
    pub open spec fn spec_accepts(self, c: Completion) -> bool {
        c.associated.value == self.listener.queue@ && self.spec_local(c.written@) is Some
            && self.spec_remote(c.written@) is Some
    }

    /// The event of a successful completion.
    pub open spec fn spec_event(self, c: Completion) -> EventView {
        if c.associated.value != self.listener.queue@ {
            EventView::TcpAccept(self.listener, Err(ErrorView::Os(c.associated.code)))
        } else if !self.spec_accepts(c) {
            EventView::TcpAccept(
                self.listener,
                Err(ErrorView::Custom(ErrorKind::Unknown, "Unknown error"@)),
            )
        } else {
            EventView::TcpAccept(
                self.listener,
                Ok(
                    TcpStream {
                        queue: self.listener.queue,
                        socket: self.socket.spec_handle(),
                        local: self.spec_local(c.written@)->Some_0,
                        remote: self.spec_remote(c.written@)->Some_0,
                    },
                ),
            )
        }
    }

    /// The socket that a successful completion gives up: none where the
    /// stream takes it over.
    pub open spec fn spec_event_gives_up(self, c: Completion) -> Option<Handle> {
        if !self.spec_accepts(c) && self.socket.spec_is_valid() {
            Some(self.socket.spec_handle())
        } else {
            None
        }
    }

    /// The event of a failed completion.
    pub open spec fn spec_error(self, c: Completion) -> EventView {
        EventView::TcpAccept(self.listener, Err(ErrorView::Os(c.code)))
    }

    /// The socket that a failed completion gives up.
    pub open spec fn spec_error_gives_up(self, c: Completion) -> Option<Handle> {
        if self.socket.spec_is_valid() {
            Some(self.socket.spec_handle())
        } else {
            None
        }
    }

    /// Turns a successful completion into its event. The new socket
    /// becomes a stream with the two addresses that the system wrote;
    /// where it cannot, the event carries the error and the socket is
    /// closed.
    pub fn into_event(self, c: &Completion, released: &mut Vec<Handle>) -> (r: Event)
        ensures
            r@ == self.spec_event(*c),
            final(released)@ == released_with(old(released)@, self.spec_event_gives_up(*c)),
    {
        let AcceptContext { listener, socket, addrs } = self;
        if c.associated.value != listener.queue.to_raw() {
            release(socket, released);
            return Event::TcpAccept(listener, Err(Error::from_os_error_code(c.associated.code)));
        }
        let mut addrs = addrs;
        addrs.fill(c.written.as_slice());
        let local = addrs.local.addr.get_addr();
        let remote = addrs.remote.addr.get_addr();
        match (local, remote) {
            (Some(local), Some(remote)) => {
                let stream = TcpStream {
                    queue: listener.queue,
                    socket: socket.handle(),
                    local,
                    remote,
                };
                Event::TcpAccept(listener, Ok(stream))
            },
            _ => {
                release(socket, released);
                Event::TcpAccept(listener, Err(Error::unknown()))
            },
        }
    }

    /// Turns a failed completion into its event, and closes the socket
    /// that was made for the connection.
    pub fn into_error(self, c: &Completion, released: &mut Vec<Handle>) -> (r: Event)
        ensures
            r@ == self.spec_error(*c),
            final(released)@ == released_with(old(released)@, self.spec_error_gives_up(*c)),
    {
        let AcceptContext { listener, socket, addrs: _ } = self;
        release(socket, released);
        Event::TcpAccept(listener, Err(Socket::last_error(c.code)))
    }
}

impl ConnectContext {
    /// The event of a successful completion.
    pub open spec fn spec_event(self, c: Completion) -> EventView {
        EventView::TcpConnect(self.stream, Ok(()))
    }

    /// The event of a failed completion.
    pub open spec fn spec_error(self, c: Completion) -> EventView {
        EventView::TcpConnect(self.stream, Err(ErrorView::Os(c.code)))
    }

    pub fn into_event(self, c: &Completion, released: &mut Vec<Handle>) -> (r: Event)
        ensures
            r@ == self.spec_event(*c),
            final(released)@ == old(released)@,
    {
        Event::TcpConnect(self.stream, Ok(()))
    }

    pub fn into_error(self, c: &Completion, released: &mut Vec<Handle>) -> (r: Event)
        ensures
            r@ == self.spec_error(*c),
            final(released)@ == old(released)@,
    {
        Event::TcpConnect(self.stream, Err(Socket::last_error(c.code)))
    }
}

/// A buffer after the system received `bytes` bytes into it: the bytes
/// that it wrote stand at the start, and the rest is as it was.
pub open spec fn received(buffer: Seq<u8>, written: Seq<u8>, bytes: int) -> Seq<u8> {
    Seq::new(
        buffer.len(),
        |i: int| if i < bytes && i < written.len() { written[i] } else { buffer[i] },
    )
}

impl ReceiveContext {
    /// The event of a successful completion: the buffer with what was
    /// received in it, and the number of bytes received.
    pub open spec fn spec_event(self, c: Completion) -> EventView {
        EventView::TcpReceive(
            self.stream,
            received(self.buffer@, c.written@, c.bytes as int),
            Ok(c.bytes as usize),
        )
    }

    /// The event of a failed completion: the buffer as it was given.
    pub open spec fn spec_error(self, c: Completion) -> EventView {
        EventView::TcpReceive(self.stream, self.buffer@, Err(ErrorView::Os(c.code)))
    }

    pub fn into_event(self, c: &Completion, released: &mut Vec<Handle>) -> (r: Event)
        ensures
            r@ == self.spec_event(*c),
            final(released)@ == old(released)@,
    {
        let ReceiveContext { stream, buffer } = self;
        let ghost before = buffer@;
        let mut buffer = buffer;
        let count: usize = c.bytes as usize;
        assert(count as int == c.bytes as int);
        let mut i: usize = 0;
        while i < buffer.len() && i < count && i < c.written.len()
            invariant
                buffer@.len() == before.len(),
                count as int == c.bytes as int,
                0 <= i <= buffer@.len(),
                i <= count,
                i <= c.written@.len(),
                forall|k: int| 0 <= k < i ==> buffer@[k] == c.written@[k],
                forall|k: int| i <= k < buffer@.len() ==> buffer@[k] == before[k],
            decreases buffer@.len() - i,
        {
            buffer.set(i, c.written[i]);
            i = i + 1;
        }
        assert(buffer@ =~= received(before, c.written@, c.bytes as int));
        assert(count == c.bytes as usize);
        Event::TcpReceive(stream, buffer, Ok(count))
    }

    pub fn into_error(self, c: &Completion, released: &mut Vec<Handle>) -> (r: Event)
        ensures
            r@ == self.spec_error(*c),
            final(released)@ == old(released)@,
    {
        Event::TcpReceive(self.stream, self.buffer, Err(Socket::last_error(c.code)))
    }
}

impl SendContext {
    /// The event of a successful completion: the buffer as it was given.
    pub open spec fn spec_event(self, c: Completion) -> EventView {
        EventView::TcpSend(self.stream, self.buffer@, Ok(()))
    }

    /// The event of a failed completion: the buffer as it was given.
    pub open spec fn spec_error(self, c: Completion) -> EventView {
        EventView::TcpSend(self.stream, self.buffer@, Err(ErrorView::Os(c.code)))
    }

    pub fn into_event(self, c: &Completion, released: &mut Vec<Handle>) -> (r: Event)
        ensures
            r@ == self.spec_event(*c),
            final(released)@ == old(released)@,
    {
        Event::TcpSend(self.stream, self.buffer, Ok(()))
    }

    pub fn into_error(self, c: &Completion, released: &mut Vec<Handle>) -> (r: Event)
        ensures
            r@ == self.spec_error(*c),
            final(released)@ == old(released)@,
    {
        Event::TcpSend(self.stream, self.buffer, Err(Socket::last_error(c.code)))
    }
}

} // verus!
