//! The playback pump: chunks come out of the channel, are decoded, and are
//! handed on for playback in the order in which they came.

use crate::channel::{ByteChannel, ChannelState, Delivery, Received};
use crate::decode::{
    check_wav_header, decode_chunk, decoding_view, rodio_decoded, wav_fault, DecodeError,
    DecodeFailure, DecodedAudio,
};
use vstd::prelude::*;

verus! {

/// The fewest bytes worth handing to the decoder.
pub const MIN_DECODE_SIZE: usize = 2;

/// Counts the times playback was starved. It only ever grows, and stands
/// still at `u64::MAX`.
pub struct UnderrunCounter {
    count: u64,
}

/// One more than `count`, but for the largest count, which stays.
pub open spec fn bumped(count: u64) -> u64 {
    if count < u64::MAX {
        (count + 1) as u64
    } else {
        count
    }
}

impl UnderrunCounter {
    pub closed spec fn view(&self) -> u64 {
        self.count
    }

    pub fn new() -> (counter: UnderrunCounter)
        ensures
            counter@ == 0,
    {
        UnderrunCounter { count: 0 }
    }

    /// Counts one starvation event.
    pub fn record(&mut self)
        ensures
            final(self)@ == bumped(old(self)@),
            final(self)@ >= old(self)@,
    {
        if self.count < u64::MAX {
            self.count = self.count + 1;
        }
    }

    pub fn count(&self) -> (count: u64)
        ensures
            count == self@,
    {
        self.count
    }
}

/// What the pump asks of its caller after one turn.
#[derive(Clone, Debug, PartialEq, Eq)]
pub enum PlaybackAction {
    /// The channel is closed and drained: the pump has ended.
    Stop,
    /// Nothing is queued yet: wait for the producer, then take another turn.
    AwaitChunk,
    /// The chunk was too short to decode and was skipped. `count` is the
    /// number of underruns so far, this one included.
    Underrun { count: u64 },
    /// The chunk decoded: hand the audio to the output.
    Play(DecodedAudio),
    /// The chunk gave no audio and is dropped; the pump goes on.
    DropChunk { reason: DecodeError },
}

/// A `PlaybackAction` as mathematics.
pub enum PlaybackStep {
    Stop,
    AwaitChunk,
    Underrun { count: u64 },
    Play { channels: u16, sample_rate: u32, samples: Seq<u32> },
    DropChunk { reason: DecodeFailure },
}

impl PlaybackAction {
    pub open spec fn view(&self) -> PlaybackStep {
        match *self {
            PlaybackAction::Stop => PlaybackStep::Stop,
            PlaybackAction::AwaitChunk => PlaybackStep::AwaitChunk,
            PlaybackAction::Underrun { count } => PlaybackStep::Underrun { count },
            PlaybackAction::Play(audio) => PlaybackStep::Play {
                channels: audio.channels,
                sample_rate: audio.sample_rate,
                samples: audio.samples@,
            },
            PlaybackAction::DropChunk { reason } => PlaybackStep::DropChunk { reason: reason@ },
        }
    }
}

/// The pump's state: whether it still runs, and its underruns so far.
pub struct PlaybackState {
    pub running: bool,
    pub underruns: u64,
}

/// What becomes of a decoding: decoded audio is played, a rejected chunk is
/// dropped with the text of the decoder's error.
pub open spec fn step_for_decoding(decoding: Result<(u16, u32, Seq<u32>), Seq<char>>)
    -> PlaybackStep {
    match decoding {
        Ok((channels, sample_rate, samples)) => PlaybackStep::Play {
            channels,
            sample_rate,
            samples,
        },
        Err(reason) => PlaybackStep::DropChunk { reason: DecodeFailure::Rejected(reason) },
    }
}

/// What becomes of a chunk that is long enough to decode: one that is no
/// plain PCM WAV stream is dropped with the fault found in its header, and
/// any other gets what its decoding calls for.
pub open spec fn step_for_payload(chunk: Seq<u8>) -> PlaybackStep {
    match wav_fault(chunk) {
        Some(fault) => PlaybackStep::DropChunk { reason: DecodeFailure::Unsupported(fault) },
        None => step_for_decoding(rodio_decoded(chunk)),
    }
}

/// A chunk under the decodable minimum is starvation.
pub open spec fn is_degenerate(chunk: Seq<u8>) -> bool {
    chunk.len() < MIN_DECODE_SIZE
}

impl PlaybackState {
    pub open spec fn fresh() -> PlaybackState {
        PlaybackState { running: true, underruns: 0 }
    }

    /// The step that a chunk gets: an underrun where it is too short to
    /// decode, else what `step_for_payload` says.
    pub open spec fn step_for_chunk(self, chunk: Seq<u8>) -> PlaybackStep {
        if is_degenerate(chunk) {
            PlaybackStep::Underrun { count: bumped(self.underruns) }
        } else {
            step_for_payload(chunk)
        }
    }

    /// The state after a chunk: a short one is counted, and no chunk stops
    /// the pump.
    pub open spec fn after_chunk(self, chunk: Seq<u8>) -> PlaybackState {
        if is_degenerate(chunk) {
            PlaybackState { underruns: bumped(self.underruns), ..self }
        } else {
            self
        }
    }

    /// The step for what the channel handed out. A pump that has ended
    /// answers `Stop` to everything.
    pub open spec fn step_for(self, delivery: Delivery) -> PlaybackStep {
        if !self.running {
            PlaybackStep::Stop
        } else {
            match delivery {
                Delivery::Closed => PlaybackStep::Stop,
                Delivery::Empty => PlaybackStep::AwaitChunk,
                Delivery::Chunk(chunk) => self.step_for_chunk(chunk),
            }
        }
    }

    /// The state after what the channel handed out: `Closed` ends the pump.
    pub open spec fn after(self, delivery: Delivery) -> PlaybackState {
        if !self.running {
            self
        } else {
            match delivery {
                Delivery::Closed => PlaybackState { running: false, ..self },
                Delivery::Empty => self,
                Delivery::Chunk(chunk) => self.after_chunk(chunk),
            }
        }
    }
}

/// The pump between the channel and the audio output.
pub struct PlaybackPump {
    underruns: UnderrunCounter,
    running: bool,
}

impl PlaybackPump {
    pub closed spec fn view(&self) -> PlaybackState {
        PlaybackState { running: self.running, underruns: self.underruns@ }
    }

    /// A running pump that has seen no underrun.
    pub fn new() -> (pump: PlaybackPump)
        ensures
            pump@ == PlaybackState::fresh(),
    {
        PlaybackPump { underruns: UnderrunCounter::new(), running: true }
    }

    /// The underruns so far.
    pub fn underruns(&self) -> (count: u64)
        ensures
            count == self@.underruns,
    {
        self.underruns.count()
    }

    /// Whether the pump has not yet seen the channel closed.
    pub fn is_running(&self) -> (running: bool)
        ensures
            running == self@.running,
    {
        self.running
    }

    /// What becomes of a decoding: `Play` for decoded audio, `DropChunk`
    /// with the text of the decoder's error for a rejected chunk.
    pub fn handle_decoded(decoded: Result<DecodedAudio, String>) -> (action: PlaybackAction)
        ensures
            action@ == step_for_decoding(decoding_view(decoded)),
    {
        match decoded {
            Ok(audio) => PlaybackAction::Play(audio),
            Err(text) => PlaybackAction::DropChunk { reason: DecodeError::Rejected(text) },
        }
    }

    /// Takes one chunk. A chunk of fewer than `MIN_DECODE_SIZE` bytes counts
    /// as an underrun and never reaches the decoder. Nor does a chunk whose
    /// header is not that of a plain PCM WAV stream: it is dropped with the
    /// fault found. Any other chunk is decoded: its audio is to be played,
    /// or, where the decoder rejects it, the chunk is dropped. No chunk ends
    /// the pump.
    pub fn handle_chunk(&mut self, chunk: &Vec<u8>) -> (action: PlaybackAction)
        ensures
            action@ == old(self)@.step_for_chunk(chunk@),
            final(self)@ == old(self)@.after_chunk(chunk@),
    {
        if chunk.len() < MIN_DECODE_SIZE {
            self.underruns.record();
            PlaybackAction::Underrun { count: self.underruns.count() }
        } else {
            match check_wav_header(chunk.as_slice()) {
                Some(fault) => PlaybackAction::DropChunk { reason: DecodeError::Unsupported(fault) },
                None => PlaybackPump::handle_decoded(decode_chunk(chunk)),
            }
        }
    }

    /// Takes what the channel handed out: `Closed` ends the pump, `Empty`
    /// asks the caller to wait, and a chunk is handled as `handle_chunk`
    /// says. A pump that has ended answers `Stop`.
    pub fn handle_received(&mut self, received: Received) -> (action: PlaybackAction)
        ensures
            action@ == old(self)@.step_for(received@),
            final(self)@ == old(self)@.after(received@),
    {
        if !self.running {
            return PlaybackAction::Stop;
        }
        match received {
            Received::Closed => {
                self.running = false;
                PlaybackAction::Stop
            },
            Received::Empty => PlaybackAction::AwaitChunk,
            Received::Chunk(chunk) => self.handle_chunk(&chunk),
        }
    }

    /// One turn of the pump: takes the oldest chunk out of the channel and
    /// handles it. A pump that has ended leaves the channel alone.
    pub fn step(&mut self, channel: &mut ByteChannel) -> (action: PlaybackAction)
        ensures
            action@ == old(self)@.step_for(old(channel)@.next_delivery()),
            final(self)@ == old(self)@.after(old(channel)@.next_delivery()),
            final(channel)@ == pump_takes(old(self)@, old(channel)@),
    {
        if !self.running {
            return PlaybackAction::Stop;
        }
        let received = channel.receive();
        self.handle_received(received)
    }
}

/// The channel after one turn of the pump: a running pump takes the oldest
/// chunk, a pump that has ended takes nothing.
pub open spec fn pump_takes(pump: PlaybackState, channel: ChannelState) -> ChannelState {
    if pump.running {
        channel.after_receive()
    } else {
        channel
    }
}

/// A chunk too short to decode is counted as one underrun and is answered
/// without regard to what the decoder would make of it; the pump runs on.
pub proof fn lemma_short_chunk_is_one_underrun(pump: PlaybackState, chunk: Seq<u8>)
    requires
        pump.running,
        chunk.len() < MIN_DECODE_SIZE,
        pump.underruns < u64::MAX,
    ensures
        pump.step_for(Delivery::Chunk(chunk)) == (PlaybackStep::Underrun {
            count: (pump.underruns + 1) as u64,
        }),
        pump.after(Delivery::Chunk(chunk)).underruns == pump.underruns + 1,
        pump.after(Delivery::Chunk(chunk)).running,
{
}

/// A chunk that gives no audio, be it that its header is at fault or that
/// the decoder rejects it, is dropped and changes nothing: the pump runs on,
/// and whatever comes next is handled as if the chunk had never come.
pub proof fn lemma_rejected_chunk_is_skipped(pump: PlaybackState, chunk: Seq<u8>, next: Delivery)
    requires
        pump.running,
        chunk.len() >= MIN_DECODE_SIZE,
        wav_fault(chunk) is Some || rodio_decoded(chunk) is Err,
    ensures
        pump.step_for(Delivery::Chunk(chunk)) is DropChunk,
        pump.after(Delivery::Chunk(chunk)) == pump,
        pump.after(Delivery::Chunk(chunk)).step_for(next) == pump.step_for(next),
{
}

impl PlaybackState {
    /// The pump's steps over a run of deliveries, first to last.
    pub open spec fn steps_over(self, deliveries: Seq<Delivery>) -> Seq<PlaybackStep>
        decreases deliveries.len(),
    {
        if deliveries.len() == 0 {
            Seq::empty()
        } else {
            seq![self.step_for(deliveries[0])] + self.after(deliveries[0]).steps_over(
                deliveries.drop_first(),
            )
        }
    }

    /// The pump's state after a run of deliveries.
    pub open spec fn after_all(self, deliveries: Seq<Delivery>) -> PlaybackState
        decreases deliveries.len(),
    {
        if deliveries.len() == 0 {
            self
        } else {
            self.after(deliveries[0]).after_all(deliveries.drop_first())
        }
    }
}

/// The deliveries that hand out the chunks of `chunks`, one after the other.
pub open spec fn deliveries_of(chunks: Seq<Seq<u8>>) -> Seq<Delivery> {
    Seq::new(chunks.len(), |i: int| Delivery::Chunk(chunks[i]))
}

/// Chunks are handled in the order in which they come, each by one step: a
/// chunk long enough to decode gets what its own bytes call for, whatever
/// came before it, and a shorter one gets an underrun. No chunk is skipped
/// and none ends the pump.
pub proof fn lemma_chunks_are_handled_in_order(pump: PlaybackState, chunks: Seq<Seq<u8>>)
    requires
        pump.running,
    ensures
        pump.steps_over(deliveries_of(chunks)).len() == chunks.len(),
        forall|i: int|
            0 <= i < chunks.len() && !is_degenerate(chunks[i]) ==> #[trigger] pump.steps_over(
                deliveries_of(chunks),
            )[i] == step_for_payload(chunks[i]),
        forall|i: int|
            0 <= i < chunks.len() && is_degenerate(chunks[i]) ==> #[trigger] pump.steps_over(
                deliveries_of(chunks),
            )[i] is Underrun,
        pump.after_all(deliveries_of(chunks)).running,
        pump.after_all(deliveries_of(chunks)).underruns >= pump.underruns,
    decreases chunks.len(),
{
    let deliveries = deliveries_of(chunks);
    if chunks.len() > 0 {
        let next = pump.after(deliveries[0]);
        let rest = chunks.drop_first();
        assert(deliveries.drop_first() =~= deliveries_of(rest));
        lemma_chunks_are_handled_in_order(next, rest);
        let steps = pump.steps_over(deliveries);
        let later = next.steps_over(deliveries_of(rest));
        assert(steps =~= seq![pump.step_for(deliveries[0])] + later);
        assert forall|i: int| 0 <= i < chunks.len() && !is_degenerate(chunks[i]) implies steps[i]
            == step_for_payload(chunks[i]) by {
            if i > 0 {
                assert(steps[i] == later[i - 1]);
                assert(rest[i - 1] == chunks[i]);
            }
        }
        assert forall|i: int| 0 <= i < chunks.len() && is_degenerate(chunks[i]) implies steps[i]
            is Underrun by {
            if i > 0 {
                assert(steps[i] == later[i - 1]);
                assert(rest[i - 1] == chunks[i]);
            }
        }
    }
}

/// The underrun count never goes down, and only `Closed` ends the pump.
pub proof fn lemma_playback_is_monotone(pump: PlaybackState, delivery: Delivery)
    ensures
        pump.after(delivery).underruns >= pump.underruns,
        pump.running && !(delivery is Closed) ==> pump.after(delivery).running,
        !pump.running ==> pump.after(delivery) == pump,
{
}

} // verus!
