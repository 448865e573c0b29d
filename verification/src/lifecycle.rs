use vstd::multiset::Multiset;
use vstd::prelude::*;
use crate::error::ErrorView;
use crate::handle::Handle;
use crate::net::tcp::{
    received, released_with, AcceptContext, ConnectContext, ReceiveContext, SendContext, TcpStream,
};
use crate::queue::{
    count_blocks, count_posted, first_free, fresh, is_first_free, taken, Completion, Context,
    EventView, Posted, QueueView, State,
};
use crate::sys::Outcome;

verus! {

/// The first slot from `from` on that holds no block, or the table's
/// length.
pub open spec fn scan_free(blocks: Seq<Option<State>>, from: int) -> int
    decreases blocks.len() - from,
{
    if from < 0 || from >= blocks.len() {
        blocks.len() as int
    } else if blocks[from] is None {
        from
    } else {
        scan_free(blocks, from + 1)
    }
}

proof fn lemma_scan_free(blocks: Seq<Option<State>>, from: int)
    requires
        0 <= from <= blocks.len(),
    ensures
        from <= scan_free(blocks, from) <= blocks.len(),
        forall|k: int| from <= k < scan_free(blocks, from) ==> (#[trigger] blocks[k]) is Some,
        scan_free(blocks, from) < blocks.len() ==> blocks[scan_free(blocks, from)] is None,
    decreases blocks.len() - from,
{
    if from < blocks.len() && blocks[from] is Some {
        lemma_scan_free(blocks, from + 1);
    }
}

/// Every table has a first free slot, so every submission has a token.
pub proof fn lemma_first_free_exists(blocks: Seq<Option<State>>)
    ensures
        is_first_free(blocks, first_free(blocks)),
        0 <= first_free(blocks) <= blocks.len(),
{
    lemma_scan_free(blocks, 0);
    assert(is_first_free(blocks, scan_free(blocks, 0)));
}

/// Putting something into a slot changes the number of blocks by what
/// went out and what came in.
pub proof fn lemma_count_update(blocks: Seq<Option<State>>, t: int, slot: Option<State>)
    requires
        0 <= t < blocks.len(),
    ensures
        count_blocks(blocks.update(t, slot)) + (if blocks[t] is Some { 1nat } else { 0nat })
            == count_blocks(blocks) + (if slot is Some { 1nat } else { 0nat }),
    decreases blocks.len(),
{
    let after = blocks.update(t, slot);
    if t == blocks.len() - 1 {
        assert(after.drop_last() =~= blocks.drop_last());
    } else {
        assert(after.drop_last() =~= blocks.drop_last().update(t, slot));
        lemma_count_update(blocks.drop_last(), t, slot);
    }
}

/// A table without a block in any slot counts no block, and the other
/// way round.
pub proof fn lemma_count_none(blocks: Seq<Option<State>>)
    ensures
        count_blocks(blocks) == 0 <==> (forall|k: int| 0 <= k < blocks.len() ==> (#[trigger] blocks[k]) is None),
    decreases blocks.len(),
{
    if blocks.len() > 0 {
        lemma_count_none(blocks.drop_last());
        let front = blocks.drop_last();
        if count_blocks(blocks) == 0 {
            assert forall|k: int| 0 <= k < blocks.len() implies (#[trigger] blocks[k]) is None by {
                if k < blocks.len() - 1 {
                    assert(front[k] is None);
                }
            }
        }
        if forall|k: int| 0 <= k < blocks.len() ==> (#[trigger] blocks[k]) is None {
            assert forall|k: int| 0 <= k < front.len() implies (#[trigger] front[k]) is None by {
                assert(blocks[k] is None);
            }
            assert(blocks.last() is None);
        }
    }
}

/// Taking the oldest waiting completion away lowers the count by one
/// where it had a block.
pub proof fn lemma_count_drop_first(posted: Seq<Posted>)
    requires
        posted.len() > 0,
    ensures
        count_posted(posted) == count_posted(posted.drop_first()) + (if posted[0].state is Some {
            1nat
        } else {
            0nat
        }),
    decreases posted.len(),
{
    if posted.len() == 1 {
        assert(posted.drop_last() =~= Seq::<Posted>::empty());
        assert(posted.drop_first() =~= Seq::<Posted>::empty());
    } else {
        lemma_count_drop_first(posted.drop_last());
        assert(posted.drop_first().drop_last() =~= posted.drop_last().drop_first());
    }
}

/// A submission that the system took allocates one state block, under
/// the token that was handed to the system; one that it refused
/// allocates none and leaves the table as it was.
pub proof fn lemma_submit_allocates(q: QueueView, context: Context, accepted: bool, code: i32)
    ensures
        taken(accepted, code) ==> q.submit(context, accepted, code).allocated() == q.allocated() + 1
            && q.submit(context, accepted, code).blocks[q.next_token()] == Some(fresh(context)),
        !taken(accepted, code) ==> q.submit(context, accepted, code).allocated() == q.allocated()
            && q.submit(context, accepted, code).blocks == q.blocks,
        q.submit(context, accepted, code).posted == q.posted,
{
    lemma_first_free_exists(q.blocks);
    let t = q.next_token();
    if taken(accepted, code) {
        if t < q.blocks.len() {
            lemma_count_update(q.blocks, t, Some(fresh(context)));
        } else {
            let after = q.blocks.push(Some(fresh(context)));
            assert(after.drop_last() =~= q.blocks);
        }
    }
}

/// Posting a custom event allocates one state block.
pub proof fn lemma_enqueue_allocates(q: QueueView, context: Context, after: QueueView)
    requires
        q.enqueued(context, after),
    ensures
        after.allocated() == q.allocated() + 1,
{
    assert(after.posted.drop_last() =~= q.posted);
}

/// Taking in a completion neither allocates nor frees a block: the block
/// that the completion names moves from the table into the queue, so the
/// operation is in flight no longer and cannot complete again.
pub proof fn lemma_post_moves(q: QueueView, completion: Completion)
    requires
        completion.overlapped is Some ==> q.in_flight(completion.overlapped->Some_0),
    ensures
        q.post(completion).allocated() == q.allocated(),
        completion.overlapped is Some ==> !q.post(completion).in_flight(
            completion.overlapped->Some_0,
        ) && q.post(completion).posted.last().state == q.blocks[completion.overlapped->Some_0 as int],
        q.post(completion).posted.drop_last() == q.posted,
        q.post(completion).posted.last().completion == completion,
{
    let after = q.post(completion);
    assert(after.posted.drop_last() =~= q.posted);
    match completion.overlapped {
        Some(token) => {
            lemma_count_update(q.blocks, token as int, None);
        },
        None => {},
    }
}

/// A dequeue from a queue that is not empty takes exactly the oldest
/// completion away. It returns an event, and frees one state block,
/// exactly where that completion had one; the table is not touched.
pub proof fn lemma_dequeue_frees(q: QueueView)
    requires
        q.posted.len() > 0,
    ensures
        q.dequeue().posted == q.posted.drop_first(),
        q.dequeue().blocks == q.blocks,
        q.delivered() is Ok <==> q.posted[0].state is Some,
        q.allocated() == q.dequeue().allocated() + (if q.posted[0].state is Some {
            1nat
        } else {
            0nat
        }),
{
    lemma_count_drop_first(q.posted);
}

/// A queue in which nothing waits and nothing is in flight holds no state
/// block; and a queue that holds none has nothing in flight and no block
/// waiting.
pub proof fn lemma_no_leak(q: QueueView)
    ensures
        q.posted.len() == 0 && q.nothing_in_flight() ==> q.allocated() == 0,
        q.allocated() == 0 ==> q.nothing_in_flight() && (forall|t: usize| !q.in_flight(t)),
{
    lemma_count_none(q.blocks);
    if q.allocated() == 0 {
        assert forall|t: usize| !q.in_flight(t) by {
            if t < q.blocks.len() {
                assert(q.blocks[t as int] is None);
            }
        }
    }
}

/// The queue after `n` dequeues.
pub open spec fn dequeue_n(q: QueueView, n: nat) -> QueueView
    decreases n,
{
    if n == 0 {
        q
    } else {
        dequeue_n(q, (n - 1) as nat).dequeue()
    }
}

/// Dequeues take the waiting completions in the order in which they came:
/// after `n` of them the first `n` are gone and the others wait as they
/// did. The table is not touched.
pub proof fn lemma_dequeue_n(q: QueueView, n: nat)
    requires
        n <= q.posted.len(),
    ensures
        dequeue_n(q, n).posted == q.posted.skip(n as int),
        dequeue_n(q, n).blocks == q.blocks,
        dequeue_n(q, n).handle == q.handle,
        n < q.posted.len() ==> dequeue_n(q, n).delivered() == q.posted[n as int].spec_deliver(),
    decreases n,
{
    if n == 0 {
        assert(q.posted.skip(0) =~= q.posted);
    } else {
        lemma_dequeue_n(q, (n - 1) as nat);
        let before = dequeue_n(q, (n - 1) as nat);
        assert(before.posted.drop_first() =~= q.posted.skip(n as int));
    }
}

/// Every operation that the system took is delivered exactly once. From
/// its submission on it is in flight under its token. When its completion
/// is taken in, it leaves the table and waits behind the `n` completions
/// that were in the queue, so that no second completion can be taken in
/// for it. The dequeue that follows `n` others returns its event, and
/// after that dequeue the operation's block is neither in the table nor
/// in the queue.
pub proof fn lemma_pairing(q: QueueView, context: Context, accepted: bool, code: i32, completion: Completion)
    requires
        taken(accepted, code),
        completion.overlapped == Some(q.next_token() as usize),
        q.next_token() <= usize::MAX,
    ensures
        ({
            let token = q.next_token() as usize;
            let n = q.posted.len();
            let submitted = q.submit(context, accepted, code);
            let posted = submitted.post(completion);
            &&& submitted.in_flight(token)
            &&& submitted.allocated() == q.allocated() + 1
            &&& !posted.in_flight(token)
            &&& posted.posted == q.posted.push(Posted { completion, state: Some(fresh(context)) })
            &&& dequeue_n(posted, n).delivered() == Ok::<EventView, ErrorView>(
                if completion.success {
                    context.spec_event(completion)
                } else {
                    context.spec_error(completion)
                },
            )
            &&& dequeue_n(posted, n + 1).posted.len() == 0
            &&& !dequeue_n(posted, n + 1).in_flight(token)
            &&& dequeue_n(posted, n + 1).allocated() == q.allocated() - count_posted(q.posted)
        }),
{
    lemma_first_free_exists(q.blocks);
    lemma_submit_allocates(q, context, accepted, code);
    let token = q.next_token() as usize;
    let n = q.posted.len();
    let submitted = q.submit(context, accepted, code);
    assert(submitted.in_flight(token));
    lemma_post_moves(submitted, completion);
    let posted = submitted.post(completion);
    assert(posted.posted =~= q.posted.push(Posted { completion, state: Some(fresh(context)) }));
    lemma_dequeue_n(posted, n);
    lemma_dequeue_n(posted, n + 1);
    assert(posted.posted.skip(n + 1 as int) =~= Seq::<Posted>::empty());
    let last = dequeue_n(posted, n + 1);
    assert(last.blocks == posted.blocks);
    assert(count_posted(last.posted) == 0);
    assert(posted.posted.drop_last() =~= q.posted);
    lemma_count_update(submitted.blocks, token as int, None);
    assert(posted.blocks =~= submitted.blocks.update(token as int, None));
    if (token as int) < q.blocks.len() {
        assert(posted.blocks =~= q.blocks);
    } else {
        assert(posted.blocks.drop_last() =~= q.blocks);
    }
}

/// Two custom events posted one after the other are delivered in that
/// order: behind the `n` completions that were in the queue, the first
/// dequeue returns the first event's `Custom`, from the block that owns
/// the first callable, and the next dequeue returns the second's.
pub proof fn lemma_custom_order(q: QueueView, a: Context, b: Context, one: QueueView, two: QueueView)
    requires
        q.enqueued(a, one),
        one.enqueued(b, two),
    ensures
        ({
            let n = q.posted.len();
            &&& dequeue_n(two, n).posted.len() == 2
            &&& dequeue_n(two, n).posted[0].state == Some(fresh(a))
            &&& dequeue_n(two, n).delivered() == Ok::<EventView, ErrorView>(EventView::Custom)
            &&& dequeue_n(two, n + 1).posted.len() == 1
            &&& dequeue_n(two, n + 1).posted[0].state == Some(fresh(b))
            &&& dequeue_n(two, n + 1).delivered() == Ok::<EventView, ErrorView>(EventView::Custom)
            &&& dequeue_n(two, n + 2).posted.len() == 0
        }),
{
    let n = q.posted.len();
    assert(two.posted.len() == n + 2);
    assert(two.posted[n as int] == one.posted.last()) by {
        assert(two.posted.drop_last()[n as int] == two.posted[n as int]);
    }
    lemma_dequeue_n(two, n);
    lemma_dequeue_n(two, n + 1);
    lemma_dequeue_n(two, n + 2);
}

/// A custom event is delivered as `Custom`, whether its completion
/// reports success or failure, and gives up no socket.
pub proof fn lemma_custom_delivery(posted: Posted)
    requires
        posted.state is Some,
        posted.state->Some_0.context is Custom,
    ensures
        posted.spec_deliver() == Ok::<EventView, ErrorView>(EventView::Custom),
        posted.spec_gives_up() is None,
{
}

/// An accept that completes with an error closes the socket that was made
/// for the connection: the dequeue delivers the error with the listener,
/// and the socket's handle is noted for the system to close.
pub proof fn lemma_failed_accept_closes(q: QueueView, context: AcceptContext)
    requires
        q.posted.len() > 0,
        q.posted[0].state is Some,
        q.posted[0].state->Some_0.context == Context::Accept(context),
        !q.posted[0].completion.success,
        context.socket.spec_is_valid(),
    ensures
        q.delivered() == Ok::<EventView, ErrorView>(
            EventView::TcpAccept(context.listener, Err(ErrorView::Os(q.posted[0].completion.code))),
        ),
        q.dequeue().released == q.released.push(context.socket.spec_handle()),
{
}

/// A successful accept that yields no stream closes the socket too; one
/// that yields a stream hands the socket to the stream and gives up
/// nothing.
pub proof fn lemma_accept_socket(context: AcceptContext, completion: Completion)
    requires
        context.socket.spec_is_valid(),
    ensures
        context.spec_event(completion) matches EventView::TcpAccept(_, Ok(stream))
            ==> stream.socket == context.socket.spec_handle() && context.spec_event_gives_up(
            completion,
        ) is None,
        context.spec_event(completion) matches EventView::TcpAccept(_, Err(_))
            ==> context.spec_event_gives_up(completion) == Some(context.socket.spec_handle()),
{
}

/// The event of a send gives back the buffer that was handed in, byte
/// for byte, whether the send succeeded or failed.
pub proof fn lemma_send_returns_buffer(context: SendContext, completion: Completion)
    ensures
        context.spec_event(completion) == EventView::TcpSend(context.stream, context.buffer@, Ok(())),
        context.spec_error(completion) == EventView::TcpSend(
            context.stream,
            context.buffer@,
            Err(ErrorView::Os(completion.code)),
        ),
{
}

/// The event of a receive gives back the buffer that was handed in. After
/// a failure it is unchanged. After a success it has its length, its
/// first `bytes` bytes are what the system wrote, and the bytes behind
/// them are unchanged.
pub proof fn lemma_receive_returns_buffer(context: ReceiveContext, completion: Completion)
    ensures
        context.spec_error(completion) == EventView::TcpReceive(
            context.stream,
            context.buffer@,
            Err(ErrorView::Os(completion.code)),
        ),
        context.spec_event(completion) matches EventView::TcpReceive(stream, buffer, count) && {
            &&& stream == context.stream
            &&& count == Ok::<usize, ErrorView>(completion.bytes as usize)
            &&& buffer.len() == context.buffer@.len()
            &&& forall|i: int|
                0 <= i < buffer.len() && i < completion.bytes && i < completion.written@.len()
                    ==> buffer[i] == completion.written@[i]
            &&& forall|i: int|
                0 <= i < buffer.len() && i >= completion.bytes ==> buffer[i] == context.buffer@[i]
        },
{
}

/// The blocks, if any, that an optional block stands for.
pub open spec fn one_or_none(slot: Option<State>) -> Multiset<State> {
    match slot {
        Some(state) => Multiset::singleton(state),
        None => Multiset::empty(),
    }
}

/// The state blocks that a table holds, each as often as it occurs.
pub open spec fn table_held(blocks: Seq<Option<State>>) -> Multiset<State>
    decreases blocks.len(),
{
    if blocks.len() == 0 {
        Multiset::empty()
    } else {
        table_held(blocks.drop_last()).add(one_or_none(blocks.last()))
    }
}

/// The state blocks that wait with their completions, each as often as
/// it occurs.
pub open spec fn queue_held(posted: Seq<Posted>) -> Multiset<State>
    decreases posted.len(),
{
    if posted.len() == 0 {
        Multiset::empty()
    } else {
        queue_held(posted.drop_last()).add(one_or_none(posted.last().state))
    }
}

/// The state blocks that a queue holds: those in the table and those
/// that wait.
pub open spec fn held(q: QueueView) -> Multiset<State> {
    table_held(q.blocks).add(queue_held(q.posted))
}

/// Putting something into a slot of the table exchanges what the slot
/// held for what came in.
pub proof fn lemma_held_update(blocks: Seq<Option<State>>, t: int, slot: Option<State>)
    requires
        0 <= t < blocks.len(),
    ensures
        table_held(blocks.update(t, slot)).add(one_or_none(blocks[t])) =~= table_held(blocks).add(
            one_or_none(slot),
        ),
    decreases blocks.len(),
{
    let after = blocks.update(t, slot);
    let front = blocks.drop_last();
    if t == blocks.len() - 1 {
        assert(after.drop_last() =~= front);
    } else {
        assert(after.drop_last() =~= front.update(t, slot));
        lemma_held_update(front, t, slot);
        let left = table_held(front.update(t, slot)).add(one_or_none(front[t]));
        let right = table_held(front).add(one_or_none(slot));
        assert forall|v: State|
            table_held(after).add(one_or_none(blocks[t])).count(v) == table_held(blocks).add(
                one_or_none(slot),
            ).count(v) by {
            assert(left.count(v) == right.count(v));
        }
    }
}

/// The oldest waiting completion holds its block, and the others hold
/// the rest.
pub proof fn lemma_held_drop_first(posted: Seq<Posted>)
    requires
        posted.len() > 0,
    ensures
        queue_held(posted) =~= queue_held(posted.drop_first()).add(one_or_none(posted[0].state)),
    decreases posted.len(),
{
    if posted.len() == 1 {
        assert(posted.drop_last() =~= Seq::<Posted>::empty());
        assert(posted.drop_first() =~= Seq::<Posted>::empty());
    } else {
        lemma_held_drop_first(posted.drop_last());
        assert(posted.drop_first().drop_last() =~= posted.drop_last().drop_first());
    }
}

/// The number of blocks that a queue holds is the number that it has
/// allocated.
pub proof fn lemma_held_counts(q: QueueView)
    ensures
        held(q).len() == q.allocated(),
{
    lemma_table_counts(q.blocks);
    lemma_queue_counts(q.posted);
}

proof fn lemma_table_counts(blocks: Seq<Option<State>>)
    ensures
        table_held(blocks).len() == count_blocks(blocks),
    decreases blocks.len(),
{
    if blocks.len() > 0 {
        lemma_table_counts(blocks.drop_last());
    }
}

proof fn lemma_queue_counts(posted: Seq<Posted>)
    ensures
        queue_held(posted).len() == count_posted(posted),
    decreases posted.len(),
{
    if posted.len() > 0 {
        lemma_queue_counts(posted.drop_last());
    }
}

/// One thing that happens to a queue.
pub enum Step {
    /// An operation with this context was submitted, and the system
    /// answered the submitting call as said.
    Submit { context: Context, accepted: bool, code: i32 },
    /// A custom event with this context was posted; `posted` is the
    /// system's answer, and `completion` the completion that the event
    /// waits with where the system took the post.
    Custom { context: Context, posted: Outcome, completion: Completion },
    /// A completion that the system reported was taken in.
    Post { completion: Completion },
    /// The oldest waiting completion was taken from the queue.
    Dequeue,
    /// A socket was given up, or none where `given` is `None`.
    Release { given: Option<Handle> },
    /// The sockets that were given up were handed over to be closed.
    Collect,
}

/// Whether the step can happen to the queue: a completion that is taken
/// in names an operation in flight or none, and a dequeue finds
/// something waiting.
pub open spec fn step_valid(q: QueueView, step: Step) -> bool {
    match step {
        Step::Submit { .. } => true,
        Step::Custom { context, posted, completion } => context is Custom && QueueView::is_local(
            completion,
        ),
        Step::Post { completion } => completion.overlapped is Some ==> q.in_flight(
            completion.overlapped->Some_0,
        ),
        Step::Dequeue => q.posted.len() > 0,
        Step::Release { .. } => true,
        Step::Collect => true,
    }
}

/// The queue after the step.
pub open spec fn step_apply(q: QueueView, step: Step) -> QueueView {
    match step {
        Step::Submit { context, accepted, code } => q.submit(context, accepted, code),
        Step::Custom { context, posted, completion } => if posted.value != 0 {
            q.with_custom(context, completion)
        } else {
            q
        },
        Step::Post { completion } => q.post(completion),
        Step::Dequeue => q.dequeue(),
        Step::Release { given } => QueueView { released: released_with(q.released, given), ..q },
        Step::Collect => QueueView { released: Seq::empty(), ..q },
    }
}

/// The queue after the steps, the first one first.
pub open spec fn run(q: QueueView, steps: Seq<Step>) -> QueueView
    decreases steps.len(),
{
    if steps.len() == 0 {
        q
    } else {
        step_apply(run(q, steps.drop_last()), steps.last())
    }
}

/// Whether each of the steps can happen when its turn comes.
pub open spec fn valid(q: QueueView, steps: Seq<Step>) -> bool
    decreases steps.len(),
{
    if steps.len() == 0 {
        true
    } else {
        valid(q, steps.drop_last()) && step_valid(run(q, steps.drop_last()), steps.last())
    }
}

/// The block that the step allocates: that of a submission, or of a
/// custom event, which the system took.
pub open spec fn step_submits(step: Step) -> Multiset<State> {
    match step {
        Step::Submit { context, accepted, code } => if taken(accepted, code) {
            Multiset::singleton(fresh(context))
        } else {
            Multiset::empty()
        },
        Step::Custom { context, posted, completion } => if posted.value != 0 {
            Multiset::singleton(fresh(context))
        } else {
            Multiset::empty()
        },
        _ => Multiset::empty(),
    }
}

/// The block whose event the step delivers: that of the oldest waiting
/// completion where the step is a dequeue and the completion has one.
pub open spec fn step_delivers(q: QueueView, step: Step) -> Multiset<State> {
    match step {
        Step::Dequeue => if q.posted.len() > 0 {
            one_or_none(q.posted[0].state)
        } else {
            Multiset::empty()
        },
        _ => Multiset::empty(),
    }
}

/// The blocks of all operations and custom events among the steps that
/// the system took, each as often as it was taken.
pub open spec fn submitted(steps: Seq<Step>) -> Multiset<State>
    decreases steps.len(),
{
    if steps.len() == 0 {
        Multiset::empty()
    } else {
        submitted(steps.drop_last()).add(step_submits(steps.last()))
    }
}

/// The blocks whose events the dequeues among the steps delivered, each
/// as often as it was delivered.
pub open spec fn delivered(q: QueueView, steps: Seq<Step>) -> Multiset<State>
    decreases steps.len(),
{
    if steps.len() == 0 {
        Multiset::empty()
    } else {
        delivered(q, steps.drop_last()).add(step_delivers(run(q, steps.drop_last()), steps.last()))
    }
}

/// A dequeue returns an event exactly where it delivers a block, and the
/// event is the one that the block's operation makes of the completion.
pub proof fn lemma_dequeue_delivers(q: QueueView)
    requires
        q.posted.len() > 0,
    ensures
        q.delivered() is Ok <==> step_delivers(q, Step::Dequeue).len() == 1,
        q.delivered() is Err <==> step_delivers(q, Step::Dequeue).len() == 0,
        q.posted[0].state matches Some(state) ==> step_delivers(q, Step::Dequeue)
            == Multiset::singleton(state) && q.delivered() == Ok::<EventView, ErrorView>(
            if q.posted[0].completion.success {
                state.context.spec_event(q.posted[0].completion)
            } else {
                state.context.spec_error(q.posted[0].completion)
            },
        ),
{
}

/// One step keeps the books: the blocks that the queue held, with the
/// one that the step allocated, are the blocks that it holds afterwards,
/// with the one that the step delivered.
pub proof fn lemma_step_balance(q: QueueView, step: Step)
    requires
        step_valid(q, step),
    ensures
        held(q).add(step_submits(step)) =~= held(step_apply(q, step)).add(step_delivers(q, step)),
{
    let after = step_apply(q, step);
    match step {
        Step::Submit { context, accepted, code } => {
            lemma_first_free_exists(q.blocks);
            let t = q.next_token();
            if taken(accepted, code) {
                if t < q.blocks.len() {
                    lemma_held_update(q.blocks, t, Some(fresh(context)));
                } else {
                    assert(after.blocks.drop_last() =~= q.blocks);
                }
            }
        },
        Step::Custom { context, posted, completion } => {
            if posted.value != 0 {
                assert(after.posted.drop_last() =~= q.posted);
            }
        },
        Step::Post { completion } => {
            assert(after.posted.drop_last() =~= q.posted);
            match completion.overlapped {
                Some(token) => {
                    lemma_held_update(q.blocks, token as int, None);
                },
                None => {},
            }
        },
        Step::Dequeue => {
            lemma_held_drop_first(q.posted);
        },
        Step::Release { .. } => {},
        Step::Collect => {},
    }
    assert forall|v: State|
        held(q).add(step_submits(step)).count(v) == held(after).add(step_delivers(q, step)).count(
            v,
        ) by {
        match step {
            Step::Submit { context, accepted, code } => {
                let t = q.next_token();
                if taken(accepted, code) && t < q.blocks.len() {
                    let left = table_held(q.blocks.update(t, Some(fresh(context)))).add(
                        one_or_none(q.blocks[t]),
                    );
                    let right = table_held(q.blocks).add(one_or_none(Some(fresh(context))));
                    assert(left.count(v) == right.count(v));
                }
            },
            Step::Post { completion } => {
                match completion.overlapped {
                    Some(token) => {
                        let left = table_held(q.blocks.update(token as int, None)).add(
                            one_or_none(q.blocks[token as int]),
                        );
                        let right = table_held(q.blocks).add(one_or_none(None));
                        assert(left.count(v) == right.count(v));
                    },
                    None => {},
                }
            },
            _ => {},
        }
    }
}

/// The books balance over any steps, however they interleave: the blocks
/// that the queue held at first, with all that the steps allocated, are
/// the blocks that it holds in the end, with all whose events the steps
/// delivered. Nothing is delivered that was not allocated, nothing is
/// delivered more often than it was allocated, and what was allocated
/// and not delivered is still held.
pub proof fn lemma_balance(q: QueueView, steps: Seq<Step>)
    requires
        valid(q, steps),
    ensures
        held(q).add(submitted(steps)) =~= held(run(q, steps)).add(delivered(q, steps)),
        q.allocated() + submitted(steps).len() == run(q, steps).allocated() + delivered(
            q,
            steps,
        ).len(),
        forall|state: State| #[trigger]
            delivered(q, steps).count(state) <= held(q).count(state) + submitted(steps).count(
                state,
            ),
    decreases steps.len(),
{
    lemma_held_counts(q);
    lemma_held_counts(run(q, steps));
    if steps.len() > 0 {
        let front = steps.drop_last();
        let mid = run(q, front);
        lemma_balance(q, front);
        lemma_step_balance(mid, steps.last());
        assert forall|v: State|
            held(q).add(submitted(steps)).count(v) == held(run(q, steps)).add(
                delivered(q, steps),
            ).count(v) by {
            assert(held(q).add(submitted(front)).count(v) == held(mid).add(
                delivered(q, front),
            ).count(v));
            assert(held(mid).add(step_submits(steps.last())).count(v) == held(run(q, steps)).add(
                step_delivers(mid, steps.last()),
            ).count(v));
        }
    }
    assert(held(q).add(submitted(steps)) =~= held(run(q, steps)).add(delivered(q, steps)));
    assert forall|state: State| #[trigger]
        delivered(q, steps).count(state) <= held(q).count(state) + submitted(steps).count(
            state,
        ) by {
        assert(held(q).add(submitted(steps)).count(state) == held(run(q, steps)).add(
            delivered(q, steps),
        ).count(state));
    }
    assert(held(q).add(submitted(steps)).len() == held(q).len() + submitted(steps).len());
    assert(held(run(q, steps)).add(delivered(q, steps)).len() == held(run(q, steps)).len()
        + delivered(q, steps).len());
}

/// On a queue that held nothing at first and holds nothing in the end,
/// every operation and custom event that the system took was delivered
/// exactly once, and nothing else was delivered: the delivered blocks
/// are the submitted ones, each as often.
pub proof fn lemma_all_delivered_once(q: QueueView, steps: Seq<Step>)
    requires
        valid(q, steps),
        q.allocated() == 0,
        run(q, steps).allocated() == 0,
    ensures
        delivered(q, steps) =~= submitted(steps),
{
    lemma_balance(q, steps);
    lemma_held_counts(q);
    lemma_held_counts(run(q, steps));
    assert(held(q) =~= Multiset::empty());
    assert(held(run(q, steps)) =~= Multiset::empty());
    assert forall|v: State| delivered(q, steps).count(v) == submitted(steps).count(v) by {
        assert(held(q).add(submitted(steps)).count(v) == held(run(q, steps)).add(
            delivered(q, steps),
        ).count(v));
    }
}

/// Whether the step takes in a completion that names the operation with
/// this token.
pub open spec fn step_posts(step: Step, token: usize) -> bool {
    match step {
        Step::Post { completion } => completion.overlapped == Some(token),
        _ => false,
    }
}

/// Whether one of the steps takes in a completion that names the
/// operation with this token.
pub open spec fn posts(steps: Seq<Step>, token: usize) -> bool {
    exists|i: int| 0 <= i < steps.len() && step_posts(#[trigger] steps[i], token)
}

/// The number of dequeues among the steps.
pub open spec fn dequeues(steps: Seq<Step>) -> nat
    decreases steps.len(),
{
    if steps.len() == 0 {
        0
    } else {
        dequeues(steps.drop_last()) + (if steps.last() is Dequeue { 1nat } else { 0nat })
    }
}

/// An operation stays in flight, with its block, until its own completion
/// is taken in: whatever else is submitted, posted, completed or
/// dequeued meanwhile leaves its slot alone.
pub proof fn lemma_in_flight_stays(q: QueueView, steps: Seq<Step>, token: usize, state: State)
    requires
        valid(q, steps),
        token < q.blocks.len(),
        q.blocks[token as int] == Some(state),
        !posts(steps, token),
    ensures
        token < run(q, steps).blocks.len(),
        run(q, steps).blocks[token as int] == Some(state),
        run(q, steps).in_flight(token),
    decreases steps.len(),
{
    if steps.len() > 0 {
        let front = steps.drop_last();
        let mid = run(q, front);
        if posts(front, token) {
            let i = choose|i: int| 0 <= i < front.len() && step_posts(#[trigger] front[i], token);
            assert(steps[i] == front[i]);
        }
        lemma_in_flight_stays(q, front, token, state);
        match steps.last() {
            Step::Submit { context, accepted, code } => {
                lemma_first_free_exists(mid.blocks);
            },
            Step::Post { completion } => {
                assert(!step_posts(steps[steps.len() - 1], token));
            },
            _ => {},
        }
    }
}

/// Completions are taken from the queue in the order in which they came:
/// a completion that waits with `k` others before it still waits, with
/// the same block, after any steps of which at most `k` are dequeues,
/// and each of those dequeues has moved it one place forward.
pub proof fn lemma_waits_in_order(q: QueueView, steps: Seq<Step>, k: int)
    requires
        valid(q, steps),
        0 <= k < q.posted.len(),
        dequeues(steps) <= k,
    ensures
        k - dequeues(steps) < run(q, steps).posted.len(),
        run(q, steps).posted[k - dequeues(steps)] == q.posted[k],
    decreases steps.len(),
{
    if steps.len() > 0 {
        let front = steps.drop_last();
        lemma_waits_in_order(q, front, k);
    }
}

/// An operation that the system took is delivered exactly once, whatever
/// else happens to the queue in between. While other steps go on it
/// stays in flight, so that its completion can be taken in when it
/// comes; from then on it is in flight no longer, and waits behind the
/// completions that were in the queue; and when as many dequeues as
/// there were such completions have been made, among any other steps,
/// the next dequeue returns the event that the operation makes of its
/// completion.
pub proof fn lemma_delivered_among_others(
    q: QueueView,
    context: Context,
    accepted: bool,
    code: i32,
    between: Seq<Step>,
    completion: Completion,
    after: Seq<Step>,
)
    requires
        taken(accepted, code),
        q.next_token() <= usize::MAX,
        valid(q.submit(context, accepted, code), between),
        !posts(between, q.next_token() as usize),
        completion.overlapped == Some(q.next_token() as usize),
        valid(run(q.submit(context, accepted, code), between).post(completion), after),
        dequeues(after) == run(q.submit(context, accepted, code), between).posted.len(),
    ensures
        ({
            let token = q.next_token() as usize;
            let arrived = run(q.submit(context, accepted, code), between);
            let taken_in = arrived.post(completion);
            let at_front = run(taken_in, after);
            &&& arrived.in_flight(token)
            &&& !taken_in.in_flight(token)
            &&& at_front.posted.len() > 0
            &&& at_front.posted[0] == (Posted { completion, state: Some(fresh(context)) })
            &&& at_front.delivered() == Ok::<EventView, ErrorView>(
                if completion.success {
                    context.spec_event(completion)
                } else {
                    context.spec_error(completion)
                },
            )
            &&& step_delivers(at_front, Step::Dequeue) == Multiset::singleton(fresh(context))
        }),
{
    lemma_first_free_exists(q.blocks);
    let token = q.next_token() as usize;
    let first = q.submit(context, accepted, code);
    assert(first.blocks[token as int] == Some(fresh(context)));
    lemma_in_flight_stays(first, between, token, fresh(context));
    let arrived = run(first, between);
    let taken_in = arrived.post(completion);
    let k = arrived.posted.len() as int;
    assert(taken_in.posted[k] == (Posted { completion, state: Some(fresh(context)) }));
    lemma_waits_in_order(taken_in, after, k);
}

/// Posting a custom event that the system took is one step, and one
/// that can always happen.
pub proof fn lemma_enqueue_is_step(q: QueueView, context: Context, posted: Outcome, after: QueueView)
    requires
        posted.value != 0,
        q.enqueued(context, after),
    ensures
        ({
            let step = Step::Custom { context, posted, completion: after.posted.last().completion };
            step_valid(q, step) && after == step_apply(q, step) && step_submits(step)
                == Multiset::singleton(fresh(context))
        }),
{
}

/// Whether an operation with this context is submitted on `q` and taken
/// by the system, other steps go on until its completion is taken in,
/// and then, among other steps, as many dequeues are made as there were
/// completions waiting before it.
pub open spec fn delivery(
    q: QueueView,
    context: Context,
    accepted: bool,
    code: i32,
    between: Seq<Step>,
    completion: Completion,
    after: Seq<Step>,
) -> bool {
    &&& taken(accepted, code)
    &&& q.next_token() <= usize::MAX
    &&& valid(q.submit(context, accepted, code), between)
    &&& !posts(between, q.next_token() as usize)
    &&& completion.overlapped == Some(q.next_token() as usize)
    &&& valid(run(q.submit(context, accepted, code), between).post(completion), after)
    &&& dequeues(after) == run(q.submit(context, accepted, code), between).posted.len()
}

/// The queue at the moment at which the operation of a `delivery` is the
/// oldest that waits.
pub open spec fn at_front(
    q: QueueView,
    context: Context,
    accepted: bool,
    code: i32,
    between: Seq<Step>,
    completion: Completion,
    after: Seq<Step>,
) -> QueueView {
    run(run(q.submit(context, accepted, code), between).post(completion), after)
}

/// A send that the system took gives exactly one `TcpSend`, with its
/// stream and with the bytes of the buffer that was handed in, whatever
/// else happens to the queue in between: `Ok` where the system completed
/// it, else the system's error.
pub proof fn lemma_send_delivered(
    q: QueueView,
    context: SendContext,
    accepted: bool,
    code: i32,
    between: Seq<Step>,
    completion: Completion,
    after: Seq<Step>,
)
    requires
        delivery(q, Context::Send(context), accepted, code, between, completion, after),
    ensures
        at_front(q, Context::Send(context), accepted, code, between, completion, after).delivered()
            == Ok::<EventView, ErrorView>(
            EventView::TcpSend(
                context.stream,
                context.buffer@,
                if completion.success {
                    Ok(())
                } else {
                    Err(ErrorView::Os(completion.code))
                },
            ),
        ),
{
    lemma_delivered_among_others(q, Context::Send(context), accepted, code, between, completion, after);
}

/// A receive that the system took gives exactly one `TcpReceive`, with
/// its stream and the buffer that was handed in, whatever else happens
/// to the queue in between. Where the system completed it, the buffer
/// holds what was received and the event carries the count, which is 0
/// where the other end has closed; else the buffer is as it was and the
/// event carries the system's error.
pub proof fn lemma_receive_delivered(
    q: QueueView,
    context: ReceiveContext,
    accepted: bool,
    code: i32,
    between: Seq<Step>,
    completion: Completion,
    after: Seq<Step>,
)
    requires
        delivery(q, Context::Receive(context), accepted, code, between, completion, after),
    ensures
        at_front(q, Context::Receive(context), accepted, code, between, completion, after).delivered()
            == Ok::<EventView, ErrorView>(
            if completion.success {
                EventView::TcpReceive(
                    context.stream,
                    received(context.buffer@, completion.written@, completion.bytes as int),
                    Ok(completion.bytes as usize),
                )
            } else {
                EventView::TcpReceive(
                    context.stream,
                    context.buffer@,
                    Err(ErrorView::Os(completion.code)),
                )
            },
        ),
{
    lemma_delivered_among_others(
        q,
        Context::Receive(context),
        accepted,
        code,
        between,
        completion,
        after,
    );
}

/// A connect that the system took gives exactly one `TcpConnect`, with
/// the stream whose other end is the address that was asked for,
/// whatever else happens to the queue in between.
pub proof fn lemma_connect_delivered(
    q: QueueView,
    context: ConnectContext,
    accepted: bool,
    code: i32,
    between: Seq<Step>,
    completion: Completion,
    after: Seq<Step>,
)
    requires
        delivery(q, Context::Connect(context), accepted, code, between, completion, after),
    ensures
        at_front(q, Context::Connect(context), accepted, code, between, completion, after).delivered()
            == Ok::<EventView, ErrorView>(
            EventView::TcpConnect(
                context.stream,
                if completion.success {
                    Ok(())
                } else {
                    Err(ErrorView::Os(completion.code))
                },
            ),
        ),
{
    lemma_delivered_among_others(
        q,
        Context::Connect(context),
        accepted,
        code,
        between,
        completion,
        after,
    );
}

/// An accept that the system took gives exactly one `TcpAccept` with its
/// listener, whatever else happens to the queue in between; and where it
/// gives no stream, the socket that was made for the connection is
/// given up by the dequeue that delivers the event.
pub proof fn lemma_accept_delivered(
    q: QueueView,
    context: AcceptContext,
    accepted: bool,
    code: i32,
    between: Seq<Step>,
    completion: Completion,
    after: Seq<Step>,
)
    requires
        delivery(q, Context::Accept(context), accepted, code, between, completion, after),
        context.socket.spec_is_valid(),
    ensures
        ({
            let front = at_front(q, Context::Accept(context), accepted, code, between, completion, after);
            &&& front.delivered() matches Ok(EventView::TcpAccept(listener, result))
            &&& listener == context.listener
            &&& result is Ok ==> completion.success && result->Ok_0.socket
                == context.socket.spec_handle() && front.dequeue().released == front.released
            &&& result is Err ==> front.dequeue().released == front.released.push(
                context.socket.spec_handle(),
            )
            &&& !completion.success ==> result == Err::<TcpStream, ErrorView>(
                ErrorView::Os(completion.code),
            )
        }),
{
    lemma_delivered_among_others(
        q,
        Context::Accept(context),
        accepted,
        code,
        between,
        completion,
        after,
    );
}

} // verus!
