//! The transmit gate: captured microphone buffers go out over the serial link
//! only while they carry signal, and the far end is told when to switch
//! between transmitting and receiving.

use crate::bytes::copy_prefix;
use vstd::prelude::*;

verus! {

/// The digitized zero of 8-bit unsigned audio.
pub const SILENCE_LEVEL: u8 = 128;

/// The pause after the last active buffer before the far end is told to go
/// back to receiving, in milliseconds.
pub const SETTLE_DELAY_MS: u64 = 100;

/// How long the device is given after the serial link is opened before
/// streaming is enabled, in milliseconds.
pub const DEVICE_SETTLE_MS: u64 = 3000;

/// The bytes that tell the far end to start transmitting: `UA1;TX0;`.
pub open spec fn transmit_mode_bytes() -> Seq<u8> {
    seq![0x55u8, 0x41, 0x31, 0x3b, 0x54, 0x58, 0x30, 0x3b]
}

/// The bytes that tell the far end to go back to receiving: `;RX;`.
pub open spec fn receive_mode_bytes() -> Seq<u8> {
    seq![0x3bu8, 0x52, 0x58, 0x3b]
}

/// The bytes that enable audio streaming, sent once at startup: `UA1;`.
pub open spec fn enable_streaming_bytes() -> Seq<u8> {
    seq![0x55u8, 0x41, 0x31, 0x3b]
}

/// A buffer is silent when every sample sits exactly on the centre value.
/// The empty buffer is silent.
pub open spec fn is_silent(samples: Seq<u8>) -> bool {
    forall|i: int| 0 <= i < samples.len() ==> samples[i] == SILENCE_LEVEL
}

/// Any sample off the centre value makes the buffer active.
pub open spec fn is_active(samples: Seq<u8>) -> bool {
    !is_silent(samples)
}

/// `low` and `high` are the least and the greatest sample of `samples`, and
/// both are the centre value where there is no sample.
pub open spec fn are_extremes(samples: Seq<u8>, low: u8, high: u8) -> bool {
    if samples.len() == 0 {
        low == SILENCE_LEVEL && high == SILENCE_LEVEL
    } else {
        &&& forall|i: int|
            0 <= i < samples.len() ==> low <= #[trigger] samples[i] && samples[i] <= high
        &&& exists|i: int| 0 <= i < samples.len() && samples[i] == low
        &&& exists|i: int| 0 <= i < samples.len() && samples[i] == high
    }
}

/// What the transmit gate asks of the serial link for one captured buffer.
#[derive(Clone, Debug, PartialEq, Eq)]
pub enum GateAction {
    /// Silence while idle: nothing is written.
    Idle,
    /// Signal after silence: write the mode sequence, then the buffer.
    BeginTransmit { mode_sequence: Vec<u8>, payload: Vec<u8> },
    /// Signal while transmitting: write the buffer alone.
    Forward { payload: Vec<u8> },
    /// Silence after signal: wait `settle_ms`, then write the mode sequence.
    EndTransmit { settle_ms: u64, mode_sequence: Vec<u8> },
}

/// A `GateAction` as mathematics.
pub enum GateStep {
    Idle,
    BeginTransmit { mode_sequence: Seq<u8>, payload: Seq<u8> },
    Forward { payload: Seq<u8> },
    EndTransmit { settle_ms: nat, mode_sequence: Seq<u8> },
}

impl GateAction {
    pub open spec fn view(&self) -> GateStep {
        match *self {
            GateAction::Idle => GateStep::Idle,
            GateAction::BeginTransmit { mode_sequence, payload } => GateStep::BeginTransmit {
                mode_sequence: mode_sequence@,
                payload: payload@,
            },
            GateAction::Forward { payload } => GateStep::Forward { payload: payload@ },
            GateAction::EndTransmit { settle_ms, mode_sequence } => GateStep::EndTransmit {
                settle_ms: settle_ms as nat,
                mode_sequence: mode_sequence@,
            },
        }
    }
}

impl GateStep {
    /// The serial writes that the step asks for, in their order.
    pub open spec fn writes(self) -> Seq<Seq<u8>> {
        match self {
            GateStep::Idle => Seq::empty(),
            GateStep::BeginTransmit { mode_sequence, payload } => seq![mode_sequence, payload],
            GateStep::Forward { payload } => seq![payload],
            GateStep::EndTransmit { mode_sequence, .. } => seq![mode_sequence],
        }
    }

    /// How many transmit-mode sequences the step sends: one or none.
    pub open spec fn transmit_switches(self) -> nat {
        if self is BeginTransmit {
            1
        } else {
            0
        }
    }

    /// How many receive-mode sequences the step sends: one or none.
    pub open spec fn receive_switches(self) -> nat {
        if self is EndTransmit {
            1
        } else {
            0
        }
    }
}

/// What the transmit gate does with one buffer, given whether it was transmitting.
pub open spec fn gate_step(transmitting: bool, samples: Seq<u8>) -> GateStep {
    if is_active(samples) {
        if transmitting {
            GateStep::Forward { payload: samples }
        } else {
            GateStep::BeginTransmit { mode_sequence: transmit_mode_bytes(), payload: samples }
        }
    } else {
        if transmitting {
            GateStep::EndTransmit {
                settle_ms: SETTLE_DELAY_MS as nat,
                mode_sequence: receive_mode_bytes(),
            }
        } else {
            GateStep::Idle
        }
    }
}

/// The least and the greatest sample of a buffer; both are the centre value
/// where the buffer is empty.
pub fn sample_extremes(samples: &[u8]) -> (extremes: (u8, u8))
    ensures
        are_extremes(samples@, extremes.0, extremes.1),
{
    if samples.len() == 0 {
        return (SILENCE_LEVEL, SILENCE_LEVEL);
    }
    let mut low: u8 = samples[0];
    let mut high: u8 = samples[0];
    let mut i: usize = 1;
    while i < samples.len()
        invariant
            1 <= i <= samples.len(),
            forall|j: int| 0 <= j < i ==> low <= #[trigger] samples@[j] && samples@[j] <= high,
            exists|j: int| 0 <= j < i && samples@[j] == low,
            exists|j: int| 0 <= j < i && samples@[j] == high,
        decreases samples.len() - i,
    {
        let sample = samples[i];
        if sample < low {
            low = sample;
        }
        if sample > high {
            high = sample;
        }
        i += 1;
    }
    (low, high)
}

/// A buffer is silent exactly when its least and its greatest sample are both
/// the centre value.
pub proof fn lemma_silent_iff_extremes_centred(samples: Seq<u8>, low: u8, high: u8)
    requires
        are_extremes(samples, low, high),
    ensures
        is_silent(samples) <==> (low == SILENCE_LEVEL && high == SILENCE_LEVEL),
{
    if samples.len() > 0 {
        let at_low = choose|i: int| 0 <= i < samples.len() && samples[i] == low;
        let at_high = choose|i: int| 0 <= i < samples.len() && samples[i] == high;
        assert(samples[at_low] == low && samples[at_high] == high);
    }
}

/// Tells whether a captured buffer carries signal: whether its least or its
/// greatest sample is off the centre value.
pub fn detect_activity(samples: &[u8]) -> (active: bool)
    ensures
        active == is_active(samples@),
{
    let (low, high) = sample_extremes(samples);
    proof {
        lemma_silent_iff_extremes_centred(samples@, low, high);
    }
    low != SILENCE_LEVEL || high != SILENCE_LEVEL
}

/// The transmit-mode sequence.
pub fn transmit_mode_sequence() -> (bytes: Vec<u8>)
    ensures
        bytes@ == transmit_mode_bytes(),
{
    let bytes: Vec<u8> = vec![0x55u8, 0x41, 0x31, 0x3b, 0x54, 0x58, 0x30, 0x3b];
    assert(bytes@ =~= transmit_mode_bytes());
    bytes
}

/// The receive-mode sequence.
pub fn receive_mode_sequence() -> (bytes: Vec<u8>)
    ensures
        bytes@ == receive_mode_bytes(),
{
    let bytes: Vec<u8> = vec![0x3bu8, 0x52, 0x58, 0x3b];
    assert(bytes@ =~= receive_mode_bytes());
    bytes
}

/// The sequence that enables streaming, to be written once at startup after
/// `DEVICE_SETTLE_MS`.
pub fn enable_streaming_sequence() -> (bytes: Vec<u8>)
    ensures
        bytes@ == enable_streaming_bytes(),
{
    let bytes: Vec<u8> = vec![0x55u8, 0x41, 0x31, 0x3b];
    assert(bytes@ =~= enable_streaming_bytes());
    bytes
}

/// The state of the transmit gate.
pub struct GateState {
    /// Whether the far end was last told to transmit.
    pub transmitting: bool,
    /// Whether the serial link still takes writes. A failed write ends it
    /// for good.
    pub running: bool,
}

impl GateState {
    /// A running gate that is not transmitting.
    pub open spec fn fresh() -> GateState {
        GateState { transmitting: false, running: true }
    }

    /// What is asked for one buffer. A gate that has ended asks for nothing.
    pub open spec fn step(self, samples: Seq<u8>) -> GateStep {
        if self.running {
            gate_step(self.transmitting, samples)
        } else {
            GateStep::Idle
        }
    }

    /// The state after one buffer: a running gate is "transmitting" exactly
    /// if the buffer carried signal, and a gate that has ended stays as it
    /// is.
    pub open spec fn after(self, samples: Seq<u8>) -> GateState {
        if self.running {
            GateState { transmitting: is_active(samples), ..self }
        } else {
            self
        }
    }

    /// The state after a write came back: a failed write ends transmission,
    /// and no later one revives it.
    pub open spec fn after_write(self, ok: bool) -> GateState {
        GateState { running: self.running && ok, ..self }
    }

    /// What is asked over a run of buffers, one step for each buffer.
    pub open spec fn run(self, trace: Seq<Seq<u8>>) -> Seq<GateStep> {
        if self.running {
            gate_run(self.transmitting, trace)
        } else {
            Seq::new(trace.len(), |i: int| GateStep::Idle)
        }
    }

    /// The state after a run of buffers.
    pub open spec fn after_run(self, trace: Seq<Seq<u8>>) -> GateState {
        if self.running {
            GateState {
                transmitting: active_before(self.transmitting, trace, trace.len() as int),
                ..self
            }
        } else {
            self
        }
    }
}

/// The transmit gate: whether the far end was last told to transmit, and
/// whether the serial link still takes writes.
pub struct TransmitGate {
    transmitting: bool,
    running: bool,
}

impl TransmitGate {
    pub closed spec fn view(&self) -> GateState {
        GateState { transmitting: self.transmitting, running: self.running }
    }

    /// A running gate that is not transmitting.
    pub fn new() -> (gate: TransmitGate)
        ensures
            gate@ == GateState::fresh(),
    {
        TransmitGate { transmitting: false, running: true }
    }

    /// Whether the far end was last told to transmit. Only `process` and
    /// `process_trace` change it.
    pub fn is_transmitting(&self) -> (transmitting: bool)
        ensures
            transmitting == self@.transmitting,
    {
        self.transmitting
    }

    /// Whether no write has failed yet.
    pub fn is_running(&self) -> (running: bool)
        ensures
            running == self@.running,
    {
        self.running
    }

    /// Takes what the writes of the last action came back with: `ok` says
    /// that all of them succeeded. A failed write ends transmission: from
    /// then on no write at all is asked for. Says whether transmission goes
    /// on.
    pub fn after_write(&mut self, ok: bool) -> (running: bool)
        ensures
            final(self)@ == old(self)@.after_write(ok),
            running == (old(self)@.running && ok),
    {
        if !ok {
            self.running = false;
        }
        self.running
    }

    /// Takes one captured buffer and says what to write. A mode sequence is
    /// asked for only where the state changes: the transmit sequence on the
    /// step from silence to signal, the receive sequence on the step back.
    /// Afterwards the state is "transmitting" exactly if the buffer carried
    /// signal. A gate that has ended answers `Idle` and stays as it is.
    pub fn process(&mut self, samples: &[u8]) -> (action: GateAction)
        ensures
            action@ == old(self)@.step(samples@),
            final(self)@ == old(self)@.after(samples@),
    {
        if !self.running {
            return GateAction::Idle;
        }
        let active = detect_activity(samples);
        if active {
            let payload = copy_prefix(samples, samples.len());
            assert(payload@ =~= samples@);
            if self.transmitting {
                GateAction::Forward { payload }
            } else {
                self.transmitting = true;
                GateAction::BeginTransmit { mode_sequence: transmit_mode_sequence(), payload }
            }
        } else {
            if self.transmitting {
                self.transmitting = false;
                GateAction::EndTransmit {
                    settle_ms: SETTLE_DELAY_MS,
                    mode_sequence: receive_mode_sequence(),
                }
            } else {
                GateAction::Idle
            }
        }
    }

    /// Takes a run of captured buffers, oldest first, and says what to write
    /// for each of them.
    pub fn process_trace(&mut self, buffers: &Vec<Vec<u8>>) -> (actions: Vec<GateAction>)
        ensures
            steps_of(actions@) == old(self)@.run(trace_of(buffers@)),
            final(self)@ == old(self)@.after_run(trace_of(buffers@)),
    {
        let ghost start = self@;
        let ghost trace = trace_of(buffers@);
        let mut actions: Vec<GateAction> = Vec::new();
        let mut i: usize = 0;
        while i < buffers.len()
            invariant
                i <= buffers.len(),
                trace == trace_of(buffers@),
                self@ == start.after_run(trace.take(i as int)),
                steps_of(actions@) == start.run(trace).take(i as int),
            decreases buffers.len() - i,
        {
            let ghost before = steps_of(actions@);
            let action = self.process(buffers[i].as_slice());
            actions.push(action);
            proof {
                let sofar = trace.take(i as int);
                let next = trace.take(i + 1);
                assert(sofar.len() == i && next.len() == i + 1);
                assert(next[i as int] == trace[i as int]);
                assert(i > 0 ==> sofar[i - 1] == trace[i - 1]);
                assert(steps_of(actions@) =~= before.push(action@));
                assert(start.run(trace).take(i + 1) =~= start.run(trace).take(i as int).push(
                    start.run(trace)[i as int],
                ));
            }
            i += 1;
        }
        assert(trace.take(i as int) =~= trace);
        assert(start.run(trace).take(i as int) =~= start.run(trace));
        actions
    }
}

/// A run of captured buffers as mathematics.
pub open spec fn trace_of(buffers: Seq<Vec<u8>>) -> Seq<Seq<u8>> {
    Seq::new(buffers.len(), |i: int| buffers[i]@)
}

/// A run of actions as mathematics.
pub open spec fn steps_of(actions: Seq<GateAction>) -> Seq<GateStep> {
    Seq::new(actions.len(), |i: int| actions[i]@)
}

/// Whether the state is "transmitting" when buffer `i` of `trace` arrives:
/// as at the start, for the first buffer; after that, exactly if the buffer
/// before carried signal.
pub open spec fn active_before(start: bool, trace: Seq<Seq<u8>>, i: int) -> bool {
    if i <= 0 {
        start
    } else {
        is_active(trace[i - 1])
    }
}

/// What the transmit gate does over a run of buffers, one step for each buffer.
pub open spec fn gate_run(start: bool, trace: Seq<Seq<u8>>) -> Seq<GateStep> {
    Seq::new(trace.len(), |i: int| gate_step(active_before(start, trace, i), trace[i]))
}

} // verus!
