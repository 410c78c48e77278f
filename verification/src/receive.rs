//! The receive pump: blocks read from the serial link go into the channel as
//! chunks, exactly as long as they were read.

use crate::bytes::copy_prefix;
use crate::channel::{ByteChannel, ChannelState, Delivery, SendError};
use crate::channel_trace::{lemma_closed_only_after_drain, receives};
use vstd::prelude::*;

verus! {

/// The size of the block that each read asks for, in bytes.
pub const READ_BLOCK_SIZE: usize = 500;

/// How long the pump waits after a read that found no data yet, in
/// milliseconds.
pub const RETRY_DELAY_MS: u64 = 10;

/// What one read on the serial link came back with.
#[derive(Clone, Copy, Debug, PartialEq, Eq, Structural)]
pub enum ReadOutcome {
    /// The read put this many bytes at the start of the buffer.
    Bytes(usize),
    /// Nothing has arrived yet.
    WouldBlock,
    /// The link failed in any other way.
    Failed,
}

/// What a read means to the pump.
pub enum ReadEvent {
    /// Bytes arrived: they are one chunk.
    Chunk(Seq<u8>),
    /// The read succeeded with no bytes.
    Nothing,
    /// Nothing has arrived yet.
    NoData,
    /// The link is lost.
    Fatal,
}

/// The meaning of a read into `buffer`. A count of bytes beyond the buffer
/// is no read at all, and counts as a failed link.
pub open spec fn read_event(buffer: Seq<u8>, outcome: ReadOutcome) -> ReadEvent {
    match outcome {
        ReadOutcome::Bytes(count) => {
            if count == 0 {
                ReadEvent::Nothing
            } else if count <= buffer.len() {
                ReadEvent::Chunk(buffer.take(count as int))
            } else {
                ReadEvent::Fatal
            }
        },
        ReadOutcome::WouldBlock => ReadEvent::NoData,
        ReadOutcome::Failed => ReadEvent::Fatal,
    }
}

/// What the pump asks of its caller after one read.
#[derive(Clone, Debug, PartialEq, Eq)]
pub enum ReceiveAction {
    /// Read the next block.
    ReadNext,
    /// Wait `delay_ms`, then read again.
    RetryAfter { delay_ms: u64 },
    /// The channel is full and the chunk is handed back: wait until the
    /// consumer has taken a chunk, then `offer` this one again.
    AwaitSpace(Vec<u8>),
    /// The pump has ended and its side of the channel is closed.
    Stop,
}

/// A `ReceiveAction` as mathematics.
pub enum ReceiveStep {
    ReadNext,
    RetryAfter { delay_ms: nat },
    AwaitSpace(Seq<u8>),
    Stop,
}

impl ReceiveAction {
    pub open spec fn view(&self) -> ReceiveStep {
        match *self {
            ReceiveAction::ReadNext => ReceiveStep::ReadNext,
            ReceiveAction::RetryAfter { delay_ms } => ReceiveStep::RetryAfter {
                delay_ms: delay_ms as nat,
            },
            ReceiveAction::AwaitSpace(chunk) => ReceiveStep::AwaitSpace(chunk@),
            ReceiveAction::Stop => ReceiveStep::Stop,
        }
    }
}

/// Whether the event ends a running pump: the link is lost, or a chunk finds
/// the channel closed.
pub open spec fn ends_pump(channel: ChannelState, event: ReadEvent) -> bool {
    match event {
        ReadEvent::Fatal => true,
        ReadEvent::Chunk(_) => channel.is_closed(),
        _ => false,
    }
}

/// What the pump asks for after an event. A pump that has ended asks for
/// nothing but `Stop`.
pub open spec fn receive_step(running: bool, channel: ChannelState, event: ReadEvent)
    -> ReceiveStep {
    if !running || ends_pump(channel, event) {
        ReceiveStep::Stop
    } else {
        match event {
            ReadEvent::Chunk(chunk) => if channel.is_full() {
                ReceiveStep::AwaitSpace(chunk)
            } else {
                ReceiveStep::ReadNext
            },
            ReadEvent::NoData => ReceiveStep::RetryAfter { delay_ms: RETRY_DELAY_MS as nat },
            _ => ReceiveStep::ReadNext,
        }
    }
}

/// The channel after an event: a chunk goes to the back of the queue where
/// there is room, and a pump that ends closes the sending side. Nothing else
/// touches the channel.
pub open spec fn channel_after(running: bool, channel: ChannelState, event: ReadEvent)
    -> ChannelState {
    if !running {
        channel
    } else if ends_pump(channel, event) {
        channel.after_close_sender()
    } else {
        match event {
            ReadEvent::Chunk(chunk) => channel.after_send(chunk),
            _ => channel,
        }
    }
}

/// Whether the pump still runs after an event.
pub open spec fn running_after(running: bool, channel: ChannelState, event: ReadEvent) -> bool {
    running && !ends_pump(channel, event)
}

/// The pump between the serial link and the channel.
pub struct ReceivePump {
    running: bool,
}

impl ReceivePump {
    /// Whether the pump still runs.
    pub closed spec fn view(&self) -> bool {
        self.running
    }

    /// A running pump.
    pub fn new() -> (pump: ReceivePump)
        ensures
            pump@,
    {
        ReceivePump { running: true }
    }

    pub fn is_running(&self) -> (running: bool)
        ensures
            running == self@,
    {
        self.running
    }

    /// Ends the pump and closes its side of the channel, so that the
    /// consumer sees `Closed` once it has drained the queue.
    pub fn stop(&mut self, channel: &mut ByteChannel)
        ensures
            !final(self)@,
            final(channel)@ == channel_after(old(self)@, old(channel)@, ReadEvent::Fatal),
    {
        if self.running {
            self.running = false;
            channel.close_sender();
        }
    }

    /// Offers one chunk to the channel. Where the chunk is taken the pump
    /// reads on. Where the channel is full the chunk comes back in
    /// `AwaitSpace`, to be offered again. Where the channel is closed the
    /// pump ends.
    pub fn offer(&mut self, chunk: Vec<u8>, channel: &mut ByteChannel) -> (action: ReceiveAction)
        ensures
            action@ == receive_step(old(self)@, old(channel)@, ReadEvent::Chunk(chunk@)),
            final(channel)@ == channel_after(old(self)@, old(channel)@, ReadEvent::Chunk(chunk@)),
            final(self)@ == running_after(old(self)@, old(channel)@, ReadEvent::Chunk(chunk@)),
    {
        if !self.running {
            return ReceiveAction::Stop;
        }
        match channel.send(chunk) {
            Ok(()) => ReceiveAction::ReadNext,
            Err(SendError::Full(back)) => ReceiveAction::AwaitSpace(back),
            Err(SendError::Closed(_)) => {
                self.stop(channel);
                ReceiveAction::Stop
            },
        }
    }

    /// Takes what one read into `buffer` came back with. Bytes that arrived
    /// are offered to the channel as one chunk, exactly as many as were
    /// read. A read that found no data yet puts nothing into the channel and
    /// asks for a retry after `RETRY_DELAY_MS`. A failed link ends the pump
    /// and closes its side of the channel.
    pub fn handle_read(
        &mut self,
        buffer: &[u8],
        outcome: ReadOutcome,
        channel: &mut ByteChannel,
    ) -> (action: ReceiveAction)
        ensures
            action@ == receive_step(old(self)@, old(channel)@, read_event(buffer@, outcome)),
            final(channel)@ == channel_after(
                old(self)@,
                old(channel)@,
                read_event(buffer@, outcome),
            ),
            final(self)@ == running_after(old(self)@, old(channel)@, read_event(buffer@, outcome)),
    {
        if !self.running {
            return ReceiveAction::Stop;
        }
        match outcome {
            ReadOutcome::Bytes(count) => {
                if count == 0 {
                    ReceiveAction::ReadNext
                } else if count <= buffer.len() {
                    let chunk = copy_prefix(buffer, count);
                    self.offer(chunk, channel)
                } else {
                    self.stop(channel);
                    ReceiveAction::Stop
                }
            },
            ReadOutcome::WouldBlock => ReceiveAction::RetryAfter { delay_ms: RETRY_DELAY_MS },
            ReadOutcome::Failed => {
                self.stop(channel);
                ReceiveAction::Stop
            },
        }
    }
}

/// A read that found no data yet puts no chunk into the channel, whatever
/// the channel holds, and the pump asks for one retry after the fixed delay.
pub proof fn lemma_would_block_enqueues_nothing(buffer: Seq<u8>, channel: ChannelState)
    ensures
        channel_after(true, channel, read_event(buffer, ReadOutcome::WouldBlock)) == channel,
        receive_step(true, channel, read_event(buffer, ReadOutcome::WouldBlock))
            == (ReceiveStep::RetryAfter { delay_ms: RETRY_DELAY_MS as nat }),
        running_after(true, channel, read_event(buffer, ReadOutcome::WouldBlock)),
{
}

/// A failed link ends the pump, and the consumer then gets every chunk that
/// still waits, each once and in order, and `Closed` right after the last.
pub proof fn lemma_failed_link_closes_channel(buffer: Seq<u8>, channel: ChannelState)
    ensures
        receive_step(true, channel, read_event(buffer, ReadOutcome::Failed)) == ReceiveStep::Stop,
        !running_after(true, channel, read_event(buffer, ReadOutcome::Failed)),
        ({
            let left = channel_after(true, channel, read_event(buffer, ReadOutcome::Failed));
            let waiting = channel.queue.len();
            &&& left.queue == channel.queue
            &&& left.delivered(receives(waiting)) == channel.queue
            &&& left.run(receives(waiting)).next_delivery() == Delivery::Closed
        }),
{
    let left = channel_after(true, channel, read_event(buffer, ReadOutcome::Failed));
    lemma_closed_only_after_drain(left, channel.queue.len());
    assert(channel.queue.take(channel.queue.len() as int) =~= channel.queue);
}

} // verus!
