//! A bounded first-in first-out queue of byte chunks between one producer and
//! one consumer.
//!
//! The queue never waits: where a blocking channel would suspend the caller,
//! `send` hands the chunk back as `Full` and `receive` answers `Empty`, and the
//! caller waits before it asks again. Nothing is dropped and nothing overtakes.

use std::collections::VecDeque;
use vstd::prelude::*;

verus! {

/// What the channel is, as mathematics: the chunks that wait, oldest first,
/// the most it may hold, and which of its two sides are still there.
pub struct ChannelState {
    pub queue: Seq<Seq<u8>>,
    pub capacity: nat,
    pub sender_open: bool,
    pub receiver_open: bool,
}

/// What one `receive` hands out.
pub enum Delivery {
    /// The oldest waiting chunk.
    Chunk(Seq<u8>),
    /// Nothing waits, and both sides are still there.
    Empty,
    /// Nothing waits, and nothing will come.
    Closed,
}

impl ChannelState {
    /// A fresh channel: nothing queued, both sides open.
    pub open spec fn empty(capacity: nat) -> ChannelState {
        ChannelState { queue: Seq::empty(), capacity, sender_open: true, receiver_open: true }
    }

    /// The queue holds no more than its capacity. A new channel is so, and
    /// no operation ends it.
    pub open spec fn wf(self) -> bool {
        self.queue.len() <= self.capacity
    }

    /// A side has gone.
    pub open spec fn is_closed(self) -> bool {
        !self.sender_open || !self.receiver_open
    }

    pub open spec fn is_full(self) -> bool {
        self.queue.len() >= self.capacity
    }

    /// A chunk sent now would be taken.
    pub open spec fn accepts(self) -> bool {
        !self.is_closed() && !self.is_full()
    }

    /// The channel after a `send` of `chunk`: one longer at the back where
    /// the chunk is taken, untouched where it is refused.
    pub open spec fn after_send(self, chunk: Seq<u8>) -> ChannelState {
        if self.accepts() {
            ChannelState { queue: self.queue.push(chunk), ..self }
        } else {
            self
        }
    }

    /// What a `receive` hands out now.
    pub open spec fn next_delivery(self) -> Delivery {
        if self.queue.len() > 0 {
            Delivery::Chunk(self.queue[0])
        } else if self.is_closed() {
            Delivery::Closed
        } else {
            Delivery::Empty
        }
    }

    /// The channel after a `receive`: the oldest chunk has left.
    pub open spec fn after_receive(self) -> ChannelState {
        if self.queue.len() > 0 {
            ChannelState { queue: self.queue.drop_first(), ..self }
        } else {
            self
        }
    }

    pub open spec fn after_close_sender(self) -> ChannelState {
        ChannelState { sender_open: false, ..self }
    }

    pub open spec fn after_close_receiver(self) -> ChannelState {
        ChannelState { receiver_open: false, ..self }
    }

    /// The bytes that wait in the queue, all chunks together.
    pub open spec fn buffered(self) -> nat {
        total_len(self.queue)
    }
}

/// The lengths of the chunks of `chunks`, added up.
pub open spec fn total_len(chunks: Seq<Seq<u8>>) -> nat
    decreases chunks.len(),
{
    if chunks.len() == 0 {
        0
    } else {
        total_len(chunks.drop_last()) + chunks.last().len()
    }
}

/// Why a chunk was not taken. Either way the chunk comes back unchanged.
#[derive(Clone, Debug, PartialEq, Eq)]
pub enum SendError {
    /// The queue is at capacity: wait until the consumer has taken a chunk,
    /// then send again.
    Full(Vec<u8>),
    /// A side of the channel has gone: the chunk can never be delivered.
    Closed(Vec<u8>),
}

/// What `receive` returned.
#[derive(Clone, Debug, PartialEq, Eq)]
pub enum Received {
    /// The oldest waiting chunk, now out of the queue.
    Chunk(Vec<u8>),
    /// Nothing waits yet: wait until the producer has sent, then ask again.
    Empty,
    /// The queue is drained and a side has gone: nothing will ever come.
    Closed,
}

impl Received {
    pub open spec fn view(&self) -> Delivery {
        match *self {
            Received::Chunk(chunk) => Delivery::Chunk(chunk@),
            Received::Empty => Delivery::Empty,
            Received::Closed => Delivery::Closed,
        }
    }
}

/// The bounded queue of chunks between the serial reader and playback.
pub struct ByteChannel {
    queue: VecDeque<Vec<u8>>,
    capacity: usize,
    sender_open: bool,
    receiver_open: bool,
}

impl ByteChannel {
    pub closed spec fn view(&self) -> ChannelState {
        ChannelState {
            queue: Seq::new(self.queue@.len(), |i: int| self.queue@[i]@),
            capacity: self.capacity as nat,
            sender_open: self.sender_open,
            receiver_open: self.receiver_open,
        }
    }

    /// A channel that holds at most `capacity` chunks. With a capacity of 0
    /// every `send` is answered `Full`.
    pub fn new(capacity: usize) -> (channel: ByteChannel)
        ensures
            channel@ == ChannelState::empty(capacity as nat),
            channel@.wf(),
    {
        let channel = ByteChannel {
            queue: VecDeque::new(),
            capacity,
            sender_open: true,
            receiver_open: true,
        };
        assert(channel@.queue =~= Seq::<Seq<u8>>::empty());
        channel
    }

    /// Puts `chunk` at the back of the queue, or hands it back: as `Closed`
    /// where a side has gone, else as `Full` where the queue is at capacity.
    /// A refused chunk leaves the channel as it was.
    pub fn send(&mut self, chunk: Vec<u8>) -> (sent: Result<(), SendError>)
        ensures
            final(self)@ == old(self)@.after_send(chunk@),
            match sent {
                Ok(()) => old(self)@.accepts(),
                Err(SendError::Closed(back)) => old(self)@.is_closed() && back == chunk,
                Err(SendError::Full(back)) => {
                    &&& !old(self)@.is_closed()
                    &&& old(self)@.is_full()
                    &&& back == chunk
                },
            },
            old(self)@.wf() ==> final(self)@.wf(),
    {
        if !self.sender_open || !self.receiver_open {
            return Err(SendError::Closed(chunk));
        }
        if self.queue.len() >= self.capacity {
            return Err(SendError::Full(chunk));
        }
        let ghost before = self@;
        let ghost bytes = chunk@;
        self.queue.push_back(chunk);
        assert(self@.queue =~= before.queue.push(bytes));
        Ok(())
    }

    /// Takes the oldest chunk out of the queue. With nothing queued the
    /// answer is `Closed` once a side has gone, and `Empty` until then.
    pub fn receive(&mut self) -> (received: Received)
        ensures
            final(self)@ == old(self)@.after_receive(),
            received@ == old(self)@.next_delivery(),
            old(self)@.wf() ==> final(self)@.wf(),
    {
        let ghost before = self@;
        match self.queue.pop_front() {
            Some(chunk) => {
                assert(self@.queue =~= before.queue.drop_first());
                Received::Chunk(chunk)
            },
            None => {
                assert(self@.queue =~= before.queue);
                if !self.sender_open || !self.receiver_open {
                    Received::Closed
                } else {
                    Received::Empty
                }
            },
        }
    }

    /// The producer has gone. What is queued stays for the consumer.
    pub fn close_sender(&mut self)
        ensures
            final(self)@ == old(self)@.after_close_sender(),
    {
        self.sender_open = false;
    }

    /// The consumer has gone. From now on every `send` is refused.
    pub fn close_receiver(&mut self)
        ensures
            final(self)@ == old(self)@.after_close_receiver(),
    {
        self.receiver_open = false;
    }

    /// The number of chunks that wait.
    pub fn len(&self) -> (n: usize)
        ensures
            n == self@.queue.len(),
    {
        self.queue.len()
    }

    /// The most chunks the queue may hold.
    pub fn capacity(&self) -> (n: usize)
        ensures
            n == self@.capacity,
    {
        self.capacity
    }

    pub fn is_empty(&self) -> (empty: bool)
        ensures
            empty == (self@.queue.len() == 0),
    {
        self.queue.len() == 0
    }

    pub fn is_full(&self) -> (full: bool)
        ensures
            full == self@.is_full(),
    {
        self.queue.len() >= self.capacity
    }

    pub fn is_closed(&self) -> (closed: bool)
        ensures
            closed == self@.is_closed(),
    {
        !self.sender_open || !self.receiver_open
    }

    pub fn is_sender_open(&self) -> (open: bool)
        ensures
            open == self@.sender_open,
    {
        self.sender_open
    }

    pub fn is_receiver_open(&self) -> (open: bool)
        ensures
            open == self@.receiver_open,
    {
        self.receiver_open
    }

    /// The bytes that wait in the queue, for the status line. A total that
    /// does not fit is reported as `usize::MAX`.
    pub fn buffered_bytes(&self) -> (total: usize)
        ensures
            total == if self@.buffered() <= usize::MAX {
                self@.buffered()
            } else {
                usize::MAX as nat
            },
    {
        let ghost chunks = self@.queue;
        let mut total: usize = 0;
        let mut i: usize = 0;
        while i < self.queue.len()
            invariant
                i <= self.queue@.len(),
                chunks == self@.queue,
                total == total_len(chunks.take(i as int)),
            decreases self.queue@.len() - i,
        {
            let n = self.queue[i].len();
            proof {
                assert(chunks.take(i + 1).drop_last() =~= chunks.take(i as int));
                assert(chunks.take(i + 1).last() == chunks[i as int]);
            }
            if n > usize::MAX - total {
                proof {
                    lemma_total_len_prefix(chunks, i + 1);
                }
                return usize::MAX;
            }
            total = total + n;
            i = i + 1;
        }
        assert(chunks.take(i as int) =~= chunks);
        total
    }
}

/// A prefix of a queue holds no more bytes than the whole queue.
pub proof fn lemma_total_len_prefix(chunks: Seq<Seq<u8>>, n: int)
    requires
        0 <= n <= chunks.len(),
    ensures
        total_len(chunks.take(n)) <= total_len(chunks),
    decreases chunks.len() - n,
{
    if n < chunks.len() {
        assert(chunks.take(n + 1).drop_last() =~= chunks.take(n));
        lemma_total_len_prefix(chunks, n + 1);
    } else {
        assert(chunks.take(n) =~= chunks);
    }
}

} // verus!
