use vstd::prelude::*;
use crate::error::{Error, ErrorView};
use crate::handle::Handle;
use crate::net::socket::Socket;
use crate::net::tcp::{release, released_with, AcceptContext, ConnectContext, ReceiveContext, SendContext, TcpListener, TcpStream};
use crate::sys::{self, Outcome, OVERLAPPED};

verus! {

/// An event of the user's own: whatever `execute` does is done when the
/// event is taken from the queue.
pub trait Custom {
    fn execute(self: Box<Self>);
}

/// What `dequeue` delivers: a custom event, or the completion of one TCP
/// operation with the values that the operation owned.
#[derive(Debug)]
pub enum Event {
    Custom,
    TcpAccept(TcpListener, Result<TcpStream, Error>),
    TcpConnect(TcpStream, Result<(), Error>),
    TcpReceive(TcpStream, Vec<u8>, Result<usize, Error>),
    TcpSend(TcpStream, Vec<u8>, Result<(), Error>),
}

/// An event as a mathematical value.
pub enum EventView {
    Custom,
    TcpAccept(TcpListener, Result<TcpStream, ErrorView>),
    TcpConnect(TcpStream, Result<(), ErrorView>),
    TcpReceive(TcpStream, Seq<u8>, Result<usize, ErrorView>),
    TcpSend(TcpStream, Seq<u8>, Result<(), ErrorView>),
}

impl View for Event {
    type V = EventView;

    open spec fn view(&self) -> EventView {
        match *self {
            Event::Custom => EventView::Custom,
            Event::TcpAccept(l, r) => EventView::TcpAccept(
                l,
                match r {
                    Ok(s) => Ok(s),
                    Err(e) => Err(e@),
                },
            ),
            Event::TcpConnect(s, r) => EventView::TcpConnect(
                s,
                match r {
                    Ok(u) => Ok(u),
                    Err(e) => Err(e@),
                },
            ),
            Event::TcpReceive(s, b, r) => EventView::TcpReceive(
                s,
                b@,
                match r {
                    Ok(n) => Ok(n),
                    Err(e) => Err(e@),
                },
            ),
            Event::TcpSend(s, b, r) => EventView::TcpSend(
                s,
                b@,
                match r {
                    Ok(u) => Ok(u),
                    Err(e) => Err(e@),
                },
            ),
        }
    }
}

/// What an operation in flight owns, and with it what is to be done when
/// the operation completes.
pub enum Context {
    Custom(Box<dyn Custom>),
    Accept(AcceptContext),
    Connect(ConnectContext),
    Send(SendContext),
    Receive(ReceiveContext),
}

impl Context {
    /// The event that a successful completion of the operation gives.
    pub open spec fn spec_event(self, c: Completion) -> EventView {
        match self {
            Context::Custom(_) => EventView::Custom,
            Context::Accept(x) => x.spec_event(c),
            Context::Connect(x) => x.spec_event(c),
            Context::Send(x) => x.spec_event(c),
            Context::Receive(x) => x.spec_event(c),
        }
    }

    /// The event that a failed completion of the operation gives.
    pub open spec fn spec_error(self, c: Completion) -> EventView {
        match self {
            Context::Custom(_) => EventView::Custom,
            Context::Accept(x) => x.spec_error(c),
            Context::Connect(x) => x.spec_error(c),
            Context::Send(x) => x.spec_error(c),
            Context::Receive(x) => x.spec_error(c),
        }
    }

    /// The socket that the operation's successful completion gives up.
    pub open spec fn spec_event_gives_up(self, c: Completion) -> Option<Handle> {
        match self {
            Context::Accept(x) => x.spec_event_gives_up(c),
            _ => None,
        }
    }

    /// The socket that the operation's failed completion gives up.
    pub open spec fn spec_error_gives_up(self, c: Completion) -> Option<Handle> {
        match self {
            Context::Accept(x) => x.spec_error_gives_up(c),
            _ => None,
        }
    }

    /// The socket that is given up where the operation is dropped before
    /// the system took it.
    pub open spec fn spec_discard_gives_up(self) -> Option<Handle> {
        match self {
            Context::Accept(x) => if x.socket.spec_is_valid() {
                Some(x.socket.spec_handle())
            } else {
                None
            },
            _ => None,
        }
    }

    /// Turns a successful completion into its event. A custom event is
    /// executed here, before the event is handed out.
    pub fn into_event(self, c: &Completion, released: &mut Vec<Handle>) -> (r: Event)
        ensures
            r@ == self.spec_event(*c),
            final(released)@ == released_with(old(released)@, self.spec_event_gives_up(*c)),
    {
        match self {
            Context::Custom(custom) => {
                custom.execute();
                Event::Custom
            },
            Context::Accept(x) => x.into_event(c, released),
            Context::Connect(x) => x.into_event(c, released),
            Context::Send(x) => x.into_event(c, released),
            Context::Receive(x) => x.into_event(c, released),
        }
    }

    /// Turns a failed completion into its event. A custom event is
    /// executed here, before the event is handed out.
    pub fn into_error(self, c: &Completion, released: &mut Vec<Handle>) -> (r: Event)
        ensures
            r@ == self.spec_error(*c),
            final(released)@ == released_with(old(released)@, self.spec_error_gives_up(*c)),
    {
        match self {
            Context::Custom(custom) => {
                custom.execute();
                Event::Custom
            },
            Context::Accept(x) => x.into_error(c, released),
            Context::Connect(x) => x.into_error(c, released),
            Context::Send(x) => x.into_error(c, released),
            Context::Receive(x) => x.into_error(c, released),
        }
    }

    /// Drops an operation that the system did not take, and closes the
    /// socket that an accept had made.
    pub fn discard(self, released: &mut Vec<Handle>)
        ensures
            final(released)@ == released_with(old(released)@, self.spec_discard_gives_up()),
    {
        match self {
            Context::Accept(x) => {
                let AcceptContext { listener: _, socket, addrs: _ } = x;
                release(socket, released);
            },
            _ => {},
        }
    }
}

/// The state block of one operation in flight: the completion header that
/// the system is given, and behind it what the operation owns.
pub struct State {
    pub overlapped: OVERLAPPED,
    pub context: Context,
}

impl State {
    /// A block for a new operation, its header zero.
    pub fn new(context: Context) -> (r: State)
        ensures
            r.overlapped.is_zero(),
            r.context == context,
    {
        State { overlapped: OVERLAPPED::new(), context }
    }

    /// Takes the block apart and gives what the operation owned.
    pub fn into_context(self) -> (r: Context)
        ensures
            r == self.context,
    {
        self.context
    }

    /// The completion header of the block.
    pub fn overlapped(&self) -> (r: OVERLAPPED)
        ensures
            r == self.overlapped,
    {
        self.overlapped
    }
}

/// What the system reports of one completed operation.
pub struct Completion {
    /// Whether the operation succeeded.
    pub success: bool,
    /// The number of bytes that were transferred.
    pub bytes: u32,
    /// The token of the operation's state block, if the system named one.
    pub overlapped: Option<usize>,
    /// The error code that the thread held after the wait.
    pub code: i32,
    /// What the system wrote into the memory that the operation gave it,
    /// from that memory's start: the bytes received, or the scratch block
    /// of an accept.
    pub written: Vec<u8>,
    /// What the system answered when the socket of an accepted connection
    /// was associated with the queue's port. It is read for a successful
    /// accept only.
    pub associated: Outcome,
}

/// A completion that waits in the queue, with the state block of its
/// operation where the system named one.
pub struct Posted {
    pub completion: Completion,
    pub state: Option<State>,
}

impl Posted {
    /// What `dequeue` returns for this completion: the operation's event
    /// where there is a state block, else the system's error.
    pub open spec fn spec_deliver(self) -> Result<EventView, ErrorView> {
        match self.state {
            Some(state) => if self.completion.success {
                Ok(state.context.spec_event(self.completion))
            } else {
                Ok(state.context.spec_error(self.completion))
            },
            None => Err(ErrorView::Os(self.completion.code)),
        }
    }

    /// The socket that is given up when this completion is delivered.
    pub open spec fn spec_gives_up(self) -> Option<Handle> {
        match self.state {
            Some(state) => if self.completion.success {
                state.context.spec_event_gives_up(self.completion)
            } else {
                state.context.spec_error_gives_up(self.completion)
            },
            None => None,
        }
    }
}

/// Whether `t` is the first slot of the table that holds no block; it is
/// the table's length where every slot holds one.
pub open spec fn is_first_free(blocks: Seq<Option<State>>, t: int) -> bool {
    &&& 0 <= t <= blocks.len()
    &&& forall|k: int| 0 <= k < t ==> (#[trigger] blocks[k]) is Some
    &&& t < blocks.len() ==> blocks[t] is None
}

/// The first slot of the table that holds no block.
pub open spec fn first_free(blocks: Seq<Option<State>>) -> int {
    choose|t: int| is_first_free(blocks, t)
}

/// A table has one first free slot.
pub proof fn lemma_first_free(blocks: Seq<Option<State>>, t: int)
    requires
        is_first_free(blocks, t),
    ensures
        first_free(blocks) == t,
{
    let u = first_free(blocks);
    assert(is_first_free(blocks, u));
    if u < t {
        assert(blocks[u] is Some);
    }
    if t < u {
        assert(blocks[t] is Some);
    }
}

/// The table with `state` put into slot `t`, which is a slot of the
/// table or the one behind its last.
pub open spec fn with_block(blocks: Seq<Option<State>>, t: int, state: State) -> Seq<Option<State>> {
    if t < blocks.len() {
        blocks.update(t, Some(state))
    } else {
        blocks.push(Some(state))
    }
}

/// Whether the system took an operation whose submitting call reported
/// `accepted` and left the error code `code`: it did where the call
/// succeeded, and where it said that the completion is pending.
pub open spec fn taken(accepted: bool, code: i32) -> bool {
    accepted || code == sys::ERROR_IO_PENDING
}

/// The state block of a new operation: a zero header, and what the
/// operation owns.
pub open spec fn fresh(context: Context) -> State {
    State { overlapped: OVERLAPPED::new_zero(), context }
}

/// A completion queue as a mathematical value.
pub struct QueueView {
    /// The handle of the queue's completion port.
    pub handle: Handle,
    /// The table of state blocks: slot `t` holds the block of the
    /// operation whose token is `t`, while the system holds it.
    pub blocks: Seq<Option<State>>,
    /// The completions that wait to be taken, the oldest first, each
    /// with the state block of its operation.
    pub posted: Seq<Posted>,
    /// The sockets that were given up and are still to be closed.
    pub released: Seq<Handle>,
}

impl QueueView {
    /// Whether the system holds the operation with this token.
    pub open spec fn in_flight(self, token: usize) -> bool {
        token < self.blocks.len() && self.blocks[token as int] is Some
    }

    /// Whether the system holds no operation of this queue.
    pub open spec fn nothing_in_flight(self) -> bool {
        forall|k: int| 0 <= k < self.blocks.len() ==> (#[trigger] self.blocks[k]) is None
    }

    /// The token that the next operation gets.
    pub open spec fn next_token(self) -> int {
        first_free(self.blocks)
    }

    /// The queue after the submission of an operation. Where the system
    /// took it, its block stands in the first free slot. Where it did
    /// not, the operation is dropped, and a socket that it owned is
    /// given up.
    pub open spec fn submit(self, context: Context, accepted: bool, code: i32) -> QueueView {
        if taken(accepted, code) {
            QueueView { blocks: with_block(self.blocks, self.next_token(), fresh(context)), ..self }
        } else {
            QueueView {
                released: released_with(self.released, context.spec_discard_gives_up()),
                ..self
            }
        }
    }

    /// Whether a completion is the one of a custom event: a success with
    /// no bytes, which names no block of the table and carries nothing.
    pub open spec fn is_local(completion: Completion) -> bool {
        &&& completion.success
        &&& completion.bytes == 0
        &&& completion.overlapped is None
        &&& completion.code == 0
        &&& completion.written@.len() == 0
        &&& completion.associated == (Outcome { value: 0, code: 0 })
    }

    /// The queue with one custom event more, whose completion waits
    /// behind all others with the block of the event.
    pub open spec fn with_custom(self, context: Context, completion: Completion) -> QueueView {
        QueueView {
            posted: self.posted.push(Posted { completion, state: Some(fresh(context)) }),
            ..self
        }
    }

    /// Whether `after` is the queue with one custom event more: its
    /// completion, a success with no bytes, waits behind all others with
    /// the block of the event, which owns `context`.
    pub open spec fn enqueued(self, context: Context, after: QueueView) -> bool {
        &&& context is Custom
        &&& after.posted.len() == self.posted.len() + 1
        &&& after.posted.drop_last() == self.posted
        &&& after.posted.last().state == Some(fresh(context))
        &&& Self::is_local(after.posted.last().completion)
        &&& after == self.with_custom(context, after.posted.last().completion)
    }

    /// The queue after a completion that the system reported was taken
    /// in: the completion waits behind all others, and the block that it
    /// names has left the table to wait with it.
    pub open spec fn post(self, completion: Completion) -> QueueView {
        match completion.overlapped {
            Some(token) => QueueView {
                blocks: self.blocks.update(token as int, None),
                posted: self.posted.push(Posted { completion, state: self.blocks[token as int] }),
                ..self
            },
            None => QueueView {
                posted: self.posted.push(Posted { completion, state: None }),
                ..self
            },
        }
    }

    /// What the next `dequeue` returns: the event or error of the oldest
    /// completion.
    pub open spec fn delivered(self) -> Result<EventView, ErrorView>
        recommends
            self.posted.len() > 0,
    {
        self.posted[0].spec_deliver()
    }

    /// The queue after the next `dequeue`: the oldest completion is gone,
    /// with its block, and a socket that its delivery gave up is noted.
    /// A queue in which nothing waits stays as it is.
    pub open spec fn dequeue(self) -> QueueView {
        if self.posted.len() == 0 {
            self
        } else {
            QueueView {
                posted: self.posted.drop_first(),
                released: released_with(self.released, self.posted[0].spec_gives_up()),
                ..self
            }
        }
    }

    /// The queue after a socket was given up.
    pub open spec fn release(self, socket: Socket) -> QueueView {
        QueueView {
            released: released_with(
                self.released,
                if socket.spec_is_valid() {
                    Some(socket.spec_handle())
                } else {
                    None
                },
            ),
            ..self
        }
    }

    /// The number of state blocks that the queue holds: those of the
    /// operations that the system holds, and those that wait with their
    /// completions.
    pub open spec fn allocated(self) -> nat {
        count_blocks(self.blocks) + count_posted(self.posted)
    }
}

/// The number of slots of a table that hold a block.
pub open spec fn count_blocks(blocks: Seq<Option<State>>) -> nat
    decreases blocks.len(),
{
    if blocks.len() == 0 {
        0
    } else {
        count_blocks(blocks.drop_last()) + (if blocks.last() is Some { 1nat } else { 0nat })
    }
}

/// The number of waiting completions that have a state block.
pub open spec fn count_posted(posted: Seq<Posted>) -> nat
    decreases posted.len(),
{
    if posted.len() == 0 {
        0
    } else {
        count_posted(posted.drop_last()) + (if posted.last().state is Some { 1nat } else { 0nat })
    }
}

/// The first completions of a queue count no more blocks than all of
/// them.
pub proof fn lemma_count_prefix(posted: Seq<Posted>, n: int)
    requires
        0 <= n <= posted.len(),
    ensures
        count_posted(posted.subrange(0, n)) <= count_posted(posted),
    decreases posted.len(),
{
    if n == posted.len() {
        assert(posted.subrange(0, n) =~= posted);
    } else {
        assert(posted.drop_last().subrange(0, n) =~= posted.subrange(0, n));
        lemma_count_prefix(posted.drop_last(), n);
    }
}

/// A completion queue: the state blocks of the operations that the system
/// holds, the completions that wait to be taken, in the order in which
/// they came, and the sockets that were given up and are still to be
/// closed.
pub struct Queue {
    handle: Handle,
    blocks: Vec<Option<State>>,
    posted: Vec<Posted>,
    released: Vec<Handle>,
}

impl View for Queue {
    type V = QueueView;

    closed spec fn view(&self) -> QueueView {
        QueueView {
            handle: self.handle,
            blocks: self.blocks@,
            posted: self.posted@,
            released: self.released@,
        }
    }
}

impl Queue {
    /// A queue on the completion port that the system made: `created` is
    /// its answer to the request for a fresh port, and a null handle
    /// means that it failed. The new queue holds nothing.
    pub fn new(created: Outcome) -> (r: Result<Queue, Error>)
        ensures
            created.value == sys::NULL_HANDLE ==> r is Err && r->Err_0@ == ErrorView::Os(
                created.code,
            ),
            created.value != sys::NULL_HANDLE ==> r is Ok && r->Ok_0@ == (QueueView {
                handle: Handle::spec_from_raw(created.value),
                blocks: Seq::empty(),
                posted: Seq::empty(),
                released: Seq::empty(),
            }) && r->Ok_0@.handle@ == created.value,
    {
        if created.value == sys::NULL_HANDLE {
            Err(Error::os_error(created.code))
        } else {
            let queue = Queue {
                handle: Handle::from_raw(created.value),
                blocks: Vec::new(),
                posted: Vec::new(),
                released: Vec::new(),
            };
            assert(queue@.blocks =~= Seq::empty());
            assert(queue@.posted =~= Seq::empty());
            assert(queue@.released =~= Seq::empty());
            Ok(queue)
        }
    }

    pub fn handle(&self) -> (r: Handle)
        ensures
            r == self@.handle,
    {
        self.handle
    }

    /// The token that the next operation gets: the system is given it
    /// with the call that submits the operation.
    pub fn next_token(&self) -> (r: usize)
        ensures
            r as int == self@.next_token(),
            is_first_free(self@.blocks, r as int),
    {
        let mut i: usize = 0;
        while i < self.blocks.len() && self.blocks[i].is_some()
            invariant
                0 <= i <= self.blocks@.len(),
                forall|k: int| 0 <= k < i ==> (#[trigger] self.blocks@[k]) is Some,
            decreases self.blocks@.len() - i,
        {
            i = i + 1;
        }
        proof {
            lemma_first_free(self.blocks@, i as int);
        }
        i
    }

    /// Whether the system holds the operation with this token.
    pub fn in_flight(&self, token: usize) -> (r: bool)
        ensures
            r == self@.in_flight(token),
    {
        token < self.blocks.len() && self.blocks[token].is_some()
    }

    /// Puts a block into the first free slot of the table.
    fn allocate(&mut self, state: State) -> (token: usize)
        ensures
            token as int == old(self)@.next_token(),
            is_first_free(old(self)@.blocks, token as int),
            final(self)@ == (QueueView {
                blocks: with_block(old(self)@.blocks, token as int, state),
                ..old(self)@
            }),
    {
        let token = self.next_token();
        if token < self.blocks.len() {
            self.blocks.set(token, Some(state));
        } else {
            self.blocks.push(Some(state));
        }
        token
    }

    /// Takes the block of an operation out of the table.
    fn reclaim(&mut self, token: usize) -> (state: State)
        requires
            old(self)@.in_flight(token),
        ensures
            Some(state) == old(self)@.blocks[token as int],
            final(self)@ == (QueueView {
                blocks: old(self)@.blocks.update(token as int, None),
                ..old(self)@
            }),
    {
        let mut slot: Option<State> = None;
        core::mem::swap(&mut self.blocks[token], &mut slot);
        slot.unwrap()
    }

    /// Records an operation that was handed to the system. The call that
    /// submitted it was made with the token that `next_token` gave, and
    /// `accepted` says whether that call reported success, `code` the
    /// error code after it. A failure other than "pending" drops the
    /// operation: nothing is in flight, and the error is returned.
    /// Otherwise the operation is in flight under the token, which is
    /// returned.
    pub fn submit(&mut self, context: Context, accepted: bool, code: i32) -> (r: Result<
        usize,
        Error,
    >)
        ensures
            final(self)@ == old(self)@.submit(context, accepted, code),
            taken(accepted, code) ==> r is Ok && r->Ok_0 as int == old(self)@.next_token()
                && is_first_free(old(self)@.blocks, r->Ok_0 as int) && final(self)@.in_flight(
                r->Ok_0,
            ),
            !taken(accepted, code) ==> r is Err && r->Err_0@ == ErrorView::Os(code),
    {
        let state = State::new(context);
        proof {
            OVERLAPPED::lemma_zero(state.overlapped);
        }
        if !accepted {
            if code != sys::ERROR_IO_PENDING {
                state.into_context().discard(&mut self.released);
                return Err(Error::from_os_error_code(code));
            }
        }
        let token = self.allocate(state);
        Ok(token)
    }

    /// Posts a custom event. The system was asked to post a completion to
    /// the queue's port, and `posted` is its answer: zero means that it
    /// refused. Where it refused, its error is returned, the callable is
    /// dropped without having run, and the queue is as it was. Otherwise
    /// the event completes at once, with success and no bytes, and waits
    /// behind the completions that are in the queue.
    pub fn enqueue(&mut self, custom: Box<dyn Custom>, posted: Outcome) -> (r: Result<(), Error>)
        ensures
            posted.value != 0 ==> r is Ok && old(self)@.enqueued(
                Context::Custom(custom),
                final(self)@,
            ),
            posted.value == 0 ==> r is Err && r->Err_0@ == ErrorView::Os(posted.code)
                && final(self)@ == old(self)@,
    {
        let state = State::new(Context::Custom(custom));
        proof {
            OVERLAPPED::lemma_zero(state.overlapped);
        }
        if posted.value == 0 {
            return Err(Error::os_error(posted.code));
        }
        let completion = Completion {
            success: true,
            bytes: 0,
            overlapped: None,
            code: 0,
            written: Vec::new(),
            associated: Outcome { value: 0, code: 0 },
        };
        let ghost before = self@;
        self.posted.push(Posted { completion, state: Some(state) });
        assert(self@.posted.drop_last() =~= before.posted);
        Ok(())
    }

    /// Takes in a completion that the system reported. Where it names a
    /// state block, the operation leaves the table and waits in the queue
    /// with its completion: it cannot complete a second time.
    pub fn post(&mut self, completion: Completion)
        requires
            completion.overlapped is Some ==> old(self)@.in_flight(completion.overlapped->Some_0),
        ensures
            final(self)@ == old(self)@.post(completion),
    {
        let state = match completion.overlapped {
            Some(token) => Some(self.reclaim(token)),
            None => None,
        };
        self.posted.push(Posted { completion, state });
    }

    /// Takes the oldest completion from the queue and turns it into its
    /// event. A completion without a state block gives the system's
    /// error. Something has to wait in the queue: the caller waits on the
    /// port, and takes in what it reports, before it asks for an event.
    pub fn dequeue(&mut self) -> (r: Result<Event, Error>)
        requires
            old(self)@.posted.len() > 0,
        ensures
            final(self)@ == old(self)@.dequeue(),
            match old(self)@.delivered() {
                Ok(event) => r is Ok && r->Ok_0@ == event,
                Err(error) => r is Err && r->Err_0@ == error,
            },
    {
        let ghost before = self.posted@;
        let Posted { completion, state } = self.posted.remove(0);
        assert(self.posted@ =~= before.drop_first());
        match state {
            Some(state) => {
                let context = state.into_context();
                if completion.success {
                    Ok(context.into_event(&completion, &mut self.released))
                } else {
                    Ok(context.into_error(&completion, &mut self.released))
                }
            },
            None => Err(Error::os_error(completion.code)),
        }
    }

    /// What `dequeue` gives where a completion waits, and `None`, with
    /// the queue as it was, where none does.
    pub fn try_dequeue(&mut self) -> (r: Option<Result<Event, Error>>)
        ensures
            final(self)@ == old(self)@.dequeue(),
            old(self)@.posted.len() == 0 ==> r is None,
            old(self)@.posted.len() > 0 ==> r is Some && (match old(self)@.delivered() {
                Ok(event) => r->Some_0 is Ok && r->Some_0->Ok_0@ == event,
                Err(error) => r->Some_0 is Err && r->Some_0->Err_0@ == error,
            }),
    {
        if self.posted.len() == 0 {
            None
        } else {
            Some(self.dequeue())
        }
    }

    /// Closes a socket that its owner gives up: its handle is noted among
    /// those that the system has to close.
    pub fn release(&mut self, socket: Socket)
        ensures
            final(self)@ == old(self)@.release(socket),
    {
        release(socket, &mut self.released);
    }

    /// Hands over the sockets that were given up, for the system to
    /// close, and forgets them.
    pub fn take_released(&mut self) -> (r: Vec<Handle>)
        ensures
            r@ == old(self)@.released,
            final(self)@ == (QueueView { released: Seq::empty(), ..old(self)@ }),
    {
        let mut r: Vec<Handle> = Vec::new();
        core::mem::swap(&mut self.released, &mut r);
        assert(self.released@ =~= Seq::empty());
        r
    }

    /// The number of operations that the system holds.
    pub fn in_flight_count(&self) -> (r: usize)
        ensures
            r == count_blocks(self@.blocks),
    {
        let mut count: usize = 0;
        let mut i: usize = 0;
        while i < self.blocks.len()
            invariant
                0 <= i <= self.blocks@.len(),
                count <= i,
                count == count_blocks(self.blocks@.subrange(0, i as int)),
            decreases self.blocks@.len() - i,
        {
            assert(self.blocks@.subrange(0, i + 1).drop_last() =~= self.blocks@.subrange(0, i as int));
            if self.blocks[i].is_some() {
                count = count + 1;
            }
            i = i + 1;
        }
        assert(self.blocks@.subrange(0, i as int) =~= self.blocks@);
        count
    }

    /// Whether the queue holds no state block at all: nothing is in
    /// flight, and no completion waits with a block.
    pub fn is_drained(&self) -> (r: bool)
        ensures
            r == (self@.allocated() == 0),
    {
        if self.in_flight_count() != 0 {
            return false;
        }
        let mut i: usize = 0;
        while i < self.posted.len()
            invariant
                0 <= i <= self.posted@.len(),
                count_posted(self.posted@.subrange(0, i as int)) == 0,
            decreases self.posted@.len() - i,
        {
            assert(self.posted@.subrange(0, i + 1).drop_last() =~= self.posted@.subrange(0, i as int));
            if self.posted[i].state.is_some() {
                proof {
                    lemma_count_prefix(self.posted@, i + 1);
                }
                return false;
            }
            i = i + 1;
        }
        assert(self.posted@.subrange(0, i as int) =~= self.posted@);
        true
    }

    /// The number of completions that wait to be taken.
    pub fn waiting(&self) -> (r: usize)
        ensures
            r == self@.posted.len(),
    {
        self.posted.len()
    }
}

/// What the system's answer to a request to associate a handle with a
/// port means: it succeeded where the system returned the port.
pub open spec fn spec_associated(port: Handle, associated: Outcome) -> Result<(), ErrorView> {
    if associated.value == port@ {
        Ok(())
    } else {
        Err(ErrorView::Os(associated.code))
    }
}

/// Associates a handle with the queue, so that the completions of its
/// operations come to this queue: `associated` is the system's answer to
/// the request.
pub fn associate(queue: &Queue, handle: Handle, associated: Outcome) -> (r: Result<(), Error>)
    ensures
        match spec_associated(queue@.handle, associated) {
            Ok(_) => r is Ok,
            Err(error) => r is Err && r->Err_0@ == error,
        },
{
    if associated.value == queue.handle().to_raw() {
        Ok(())
    } else {
        Err(Error::os_error(associated.code))
    }
}

} // verus!
