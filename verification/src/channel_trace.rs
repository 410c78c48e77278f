//! What holds of a channel over any run of operations: nothing is lost,
//! doubled or reordered, the queue stays within its capacity, and `Closed` is
//! answered only once the queue is drained.

use crate::channel::{ChannelState, Delivery};
use vstd::prelude::*;

verus! {

/// One call on the channel.
pub enum ChannelOp {
    Send(Seq<u8>),
    Receive,
    CloseSender,
    CloseReceiver,
}

impl ChannelState {
    /// The channel after one call.
    pub open spec fn step(self, op: ChannelOp) -> ChannelState {
        match op {
            ChannelOp::Send(chunk) => self.after_send(chunk),
            ChannelOp::Receive => self.after_receive(),
            ChannelOp::CloseSender => self.after_close_sender(),
            ChannelOp::CloseReceiver => self.after_close_receiver(),
        }
    }

    /// The chunk that one call puts into the queue, if it puts one.
    pub open spec fn taken_by(self, op: ChannelOp) -> Seq<Seq<u8>> {
        match op {
            ChannelOp::Send(chunk) if self.accepts() => seq![chunk],
            _ => Seq::empty(),
        }
    }

    /// The chunk that one call hands to the consumer, if it hands one.
    pub open spec fn handed_by(self, op: ChannelOp) -> Seq<Seq<u8>> {
        match op {
            ChannelOp::Receive if self.queue.len() > 0 => seq![self.queue[0]],
            _ => Seq::empty(),
        }
    }

    /// The channel after the calls of `ops`, first to last.
    pub open spec fn run(self, ops: Seq<ChannelOp>) -> ChannelState
        decreases ops.len(),
    {
        if ops.len() == 0 {
            self
        } else {
            self.step(ops[0]).run(ops.drop_first())
        }
    }

    /// The chunks that the sends of `ops` got into the queue, in the order
    /// of the sends. A refused send adds nothing.
    pub open spec fn accepted(self, ops: Seq<ChannelOp>) -> Seq<Seq<u8>>
        decreases ops.len(),
    {
        if ops.len() == 0 {
            Seq::empty()
        } else {
            self.taken_by(ops[0]) + self.step(ops[0]).accepted(ops.drop_first())
        }
    }

    /// The chunks that the receives of `ops` handed out, in the order of the
    /// receives.
    pub open spec fn delivered(self, ops: Seq<ChannelOp>) -> Seq<Seq<u8>>
        decreases ops.len(),
    {
        if ops.len() == 0 {
            Seq::empty()
        } else {
            self.handed_by(ops[0]) + self.step(ops[0]).delivered(ops.drop_first())
        }
    }
}

/// `n` receives in a row.
pub open spec fn receives(n: nat) -> Seq<ChannelOp> {
    Seq::new(n, |i: int| ChannelOp::Receive)
}

/// One send for each chunk of `chunks`, in their order.
pub open spec fn sends(chunks: Seq<Seq<u8>>) -> Seq<ChannelOp> {
    Seq::new(chunks.len(), |i: int| ChannelOp::Send(chunks[i]))
}

/// First in, first out, one time each: over any run of sends, receives and
/// closes, what was queued at the start followed by what the sends got in is
/// exactly what the receives handed out followed by what still waits. So the
/// consumer sees a prefix of what the producer got in, in the producer's
/// order, and the rest is in the queue.
pub proof fn lemma_fifo_conservation(start: ChannelState, ops: Seq<ChannelOp>)
    ensures
        start.queue + start.accepted(ops) == start.delivered(ops) + start.run(ops).queue,
    decreases ops.len(),
{
    if ops.len() == 0 {
        assert(start.queue + start.accepted(ops) =~= start.delivered(ops) + start.run(ops).queue);
    } else {
        let next = start.step(ops[0]);
        let rest = ops.drop_first();
        lemma_fifo_conservation(next, rest);
        assert(start.queue + start.taken_by(ops[0]) =~= start.handed_by(ops[0]) + next.queue);
        assert(start.queue + start.accepted(ops) =~= (start.queue + start.taken_by(ops[0]))
            + next.accepted(rest));
        assert(start.delivered(ops) + start.run(ops).queue =~= start.handed_by(ops[0]) + (
        next.delivered(rest) + next.run(rest).queue));
        assert(start.handed_by(ops[0]) + (next.queue + next.accepted(rest)) =~= (
        start.handed_by(ops[0]) + next.queue) + next.accepted(rest));
    }
}

/// The queue stays within its capacity, and the capacity stays what it was,
/// whatever is called.
pub proof fn lemma_run_stays_bounded(start: ChannelState, ops: Seq<ChannelOp>)
    requires
        start.wf(),
    ensures
        start.run(ops).wf(),
        start.run(ops).capacity == start.capacity,
    decreases ops.len(),
{
    if ops.len() > 0 {
        lemma_run_stays_bounded(start.step(ops[0]), ops.drop_first());
    }
}

/// A side that has gone stays gone.
pub proof fn lemma_closed_is_final(start: ChannelState, ops: Seq<ChannelOp>)
    ensures
        !start.sender_open ==> !start.run(ops).sender_open,
        !start.receiver_open ==> !start.run(ops).receiver_open,
        start.is_closed() ==> start.accepted(ops) == Seq::<Seq<u8>>::empty(),
    decreases ops.len(),
{
    if ops.len() > 0 {
        lemma_closed_is_final(start.step(ops[0]), ops.drop_first());
        assert(start.is_closed() ==> start.taken_by(ops[0]) + Seq::<Seq<u8>>::empty()
            =~= Seq::<Seq<u8>>::empty());
    }
}

/// Into a channel with room for all of them, every chunk of `chunks` is
/// taken, and the queue grows by exactly these chunks in their order.
pub proof fn lemma_sends_with_room(start: ChannelState, chunks: Seq<Seq<u8>>)
    requires
        !start.is_closed(),
        start.queue.len() + chunks.len() <= start.capacity,
    ensures
        start.accepted(sends(chunks)) == chunks,
        start.delivered(sends(chunks)) == Seq::<Seq<u8>>::empty(),
        start.run(sends(chunks)) == (ChannelState { queue: start.queue + chunks, ..start }),
    decreases chunks.len(),
{
    let ops = sends(chunks);
    if chunks.len() == 0 {
        assert(start.queue + chunks =~= start.queue);
        assert(start.accepted(ops) =~= chunks);
    } else {
        let next = start.step(ops[0]);
        let rest = chunks.drop_first();
        assert(ops.drop_first() =~= sends(rest));
        lemma_sends_with_room(next, rest);
        assert(next.queue + rest =~= start.queue + chunks);
        assert(seq![chunks[0]] + rest =~= chunks);
        assert(start.handed_by(ops[0]) + Seq::<Seq<u8>>::empty() =~= Seq::<Seq<u8>>::empty());
    }
}

/// `n` receives on a queue that holds at least `n` chunks hand out its first
/// `n` chunks, oldest first, and leave the others.
pub proof fn lemma_receives_take_front(start: ChannelState, n: nat)
    requires
        n <= start.queue.len(),
    ensures
        start.delivered(receives(n)) == start.queue.take(n as int),
        start.accepted(receives(n)) == Seq::<Seq<u8>>::empty(),
        start.run(receives(n)) == (ChannelState { queue: start.queue.skip(n as int), ..start }),
    decreases n,
{
    let ops = receives(n);
    if n == 0 {
        assert(start.queue.skip(0) =~= start.queue);
        assert(start.delivered(ops) =~= start.queue.take(0));
    } else {
        let next = start.step(ops[0]);
        assert(ops.drop_first() =~= receives((n - 1) as nat));
        lemma_receives_take_front(next, (n - 1) as nat);
        assert(next.queue.skip(n - 1) =~= start.queue.skip(n as int));
        assert(seq![start.queue[0]] + next.queue.take(n - 1) =~= start.queue.take(n as int));
        assert(start.taken_by(ops[0]) + Seq::<Seq<u8>>::empty() =~= Seq::<Seq<u8>>::empty());
    }
}

/// What goes in comes out: chunks sent into an empty channel with room for
/// them, then received one by one, come out as they went in, each once.
pub proof fn lemma_sent_chunks_arrive_in_order(capacity: nat, chunks: Seq<Seq<u8>>)
    requires
        chunks.len() <= capacity,
    ensures
        ChannelState::empty(capacity).run(sends(chunks)).delivered(receives(chunks.len()))
            == chunks,
        ChannelState::empty(capacity).run(sends(chunks)).run(receives(chunks.len()))
            == ChannelState::empty(capacity),
{
    let start = ChannelState::empty(capacity);
    lemma_sends_with_room(start, chunks);
    let filled = start.run(sends(chunks));
    assert(filled.queue =~= chunks);
    lemma_receives_take_front(filled, chunks.len());
    assert(chunks.take(chunks.len() as int) =~= chunks);
    assert(chunks.skip(chunks.len() as int) =~= Seq::<Seq<u8>>::empty());
}

/// Once the producer has gone, the consumer still gets every queued chunk:
/// the receive after `n` others answers `Closed` exactly when these `n` have
/// drained the queue, and a chunk before that.
pub proof fn lemma_closed_only_after_drain(start: ChannelState, n: nat)
    requires
        !start.sender_open,
        n <= start.queue.len(),
    ensures
        start.delivered(receives(n)) == start.queue.take(n as int),
        n < start.queue.len() ==> start.run(receives(n)).next_delivery() == Delivery::Chunk(
            start.queue[n as int],
        ),
        n == start.queue.len() <==> start.run(receives(n)).next_delivery() == Delivery::Closed,
{
    lemma_receives_take_front(start, n);
}

} // verus!
