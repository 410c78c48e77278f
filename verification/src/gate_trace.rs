//! What holds of the transmit gate over any run of captured buffers: a mode
//! sequence goes out once for each change between silence and signal, never
//! on a repeat, and silence alone writes nothing.

use crate::gate::{active_before, gate_run, is_active, is_silent, GateState, GateStep};
use vstd::prelude::*;

verus! {

/// `term(0) + ... + term(n - 1)`.
pub open spec fn total(n: int, term: spec_fn(int) -> nat) -> nat
    decreases n,
{
    if n <= 0 {
        0
    } else {
        total(n - 1, term) + term(n - 1)
    }
}

/// Buffer `i` carries signal and the one before it did not.
pub open spec fn is_rising(start: bool, trace: Seq<Seq<u8>>, i: int) -> bool {
    !active_before(start, trace, i) && is_active(trace[i])
}

/// Buffer `i` is silent and the one before it was not.
pub open spec fn is_falling(start: bool, trace: Seq<Seq<u8>>, i: int) -> bool {
    active_before(start, trace, i) && !is_active(trace[i])
}

/// How often the trace goes from silence to signal.
pub open spec fn rising_edges(start: bool, trace: Seq<Seq<u8>>) -> nat {
    total(
        trace.len() as int,
        |i: int|
            if is_rising(start, trace, i) {
                1nat
            } else {
                0nat
            },
    )
}

/// How often the trace goes from signal to silence.
pub open spec fn falling_edges(start: bool, trace: Seq<Seq<u8>>) -> nat {
    total(
        trace.len() as int,
        |i: int|
            if is_falling(start, trace, i) {
                1nat
            } else {
                0nat
            },
    )
}

/// How often "carries signal" changes its value along the trace.
pub open spec fn sign_changes(start: bool, trace: Seq<Seq<u8>>) -> nat {
    total(
        trace.len() as int,
        |i: int|
            if active_before(start, trace, i) != is_active(trace[i]) {
                1nat
            } else {
                0nat
            },
    )
}

/// The transmit-mode sequences that a run of steps sends.
pub open spec fn transmit_switches_sent(steps: Seq<GateStep>) -> nat {
    total(steps.len() as int, |i: int| steps[i].transmit_switches())
}

/// The receive-mode sequences that a run of steps sends.
pub open spec fn receive_switches_sent(steps: Seq<GateStep>) -> nat {
    total(steps.len() as int, |i: int| steps[i].receive_switches())
}

/// The serial writes that a run of steps asks for.
pub open spec fn writes_issued(steps: Seq<GateStep>) -> nat {
    total(steps.len() as int, |i: int| steps[i].writes().len())
}

/// Sums of terms that agree below `n` agree.
pub proof fn lemma_total_agrees(n: int, left: spec_fn(int) -> nat, right: spec_fn(int) -> nat)
    requires
        forall|i: int| 0 <= i < n ==> #[trigger] left(i) == right(i),
    ensures
        total(n, left) == total(n, right),
    decreases n,
{
    if n > 0 {
        lemma_total_agrees(n - 1, left, right);
    }
}

/// A sum of sums is the sum of the two sums.
pub proof fn lemma_total_splits(
    n: int,
    whole: spec_fn(int) -> nat,
    left: spec_fn(int) -> nat,
    right: spec_fn(int) -> nat,
)
    requires
        forall|i: int| 0 <= i < n ==> #[trigger] whole(i) == left(i) + right(i),
    ensures
        total(n, whole) == total(n, left) + total(n, right),
    decreases n,
{
    if n > 0 {
        lemma_total_splits(n - 1, whole, left, right);
    }
}

/// A sum of zeros is zero.
pub proof fn lemma_total_of_zeros(n: int, term: spec_fn(int) -> nat)
    requires
        forall|i: int| 0 <= i < n ==> #[trigger] term(i) == 0,
    ensures
        total(n, term) == 0,
    decreases n,
{
    if n > 0 {
        lemma_total_of_zeros(n - 1, term);
    }
}

/// The transmit-mode sequence goes out once for each step of the trace from
/// silence to signal, the receive-mode sequence once for each step from
/// signal to silence, and so as many mode sequences as "carries signal"
/// changes its value along the trace. Repeats of one state send none.
pub proof fn lemma_mode_switches_match_edges(start: bool, trace: Seq<Seq<u8>>)
    ensures
        transmit_switches_sent(gate_run(start, trace)) == rising_edges(start, trace),
        receive_switches_sent(gate_run(start, trace)) == falling_edges(start, trace),
        transmit_switches_sent(gate_run(start, trace)) + receive_switches_sent(
            gate_run(start, trace),
        ) == sign_changes(start, trace),
{
    let steps = gate_run(start, trace);
    let n = trace.len() as int;
    let sent_tx = |i: int| steps[i].transmit_switches();
    let sent_rx = |i: int| steps[i].receive_switches();
    let rising = |i: int|
        if is_rising(start, trace, i) {
            1nat
        } else {
            0nat
        };
    let falling = |i: int|
        if is_falling(start, trace, i) {
            1nat
        } else {
            0nat
        };
    let changes = |i: int|
        if active_before(start, trace, i) != is_active(trace[i]) {
            1nat
        } else {
            0nat
        };
    lemma_total_agrees(n, sent_tx, rising);
    lemma_total_agrees(n, sent_rx, falling);
    lemma_total_splits(n, changes, rising, falling);
}

/// While one state lasts, no mode sequence is sent: a buffer that carries
/// signal as the one before it did, or is silent as the one before it was,
/// makes a step without one.
pub proof fn lemma_no_switch_on_repeat(start: bool, trace: Seq<Seq<u8>>, i: int)
    requires
        0 <= i < trace.len(),
        active_before(start, trace, i) == is_active(trace[i]),
    ensures
        gate_run(start, trace)[i].transmit_switches() == 0,
        gate_run(start, trace)[i].receive_switches() == 0,
{
}

/// A gate that is not transmitting and hears only silence writes nothing:
/// every step is `Idle`, and at the end it is still not transmitting.
pub proof fn lemma_silence_writes_nothing(trace: Seq<Seq<u8>>)
    requires
        forall|i: int| 0 <= i < trace.len() ==> is_silent(#[trigger] trace[i]),
    ensures
        forall|i: int|
            0 <= i < trace.len() ==> #[trigger] gate_run(false, trace)[i] == GateStep::Idle,
        writes_issued(gate_run(false, trace)) == 0,
        !active_before(false, trace, trace.len() as int),
{
    let steps = gate_run(false, trace);
    assert forall|i: int| 0 <= i < trace.len() implies #[trigger] steps[i] == GateStep::Idle by {
        if i > 0 {
            assert(is_silent(trace[i - 1]));
        }
        assert(is_silent(trace[i]));
    }
    assert forall|i: int| 0 <= i < trace.len() implies steps[i].writes().len() == 0 by {
        assert(steps[i] == GateStep::Idle);
    }
    lemma_total_of_zeros(trace.len() as int, |i: int| steps[i].writes().len());
    if trace.len() > 0 {
        assert(is_silent(trace[trace.len() - 1]));
    }
}

/// A failed write ends transmission for good: whatever is heard afterwards,
/// no write is asked for, the state stays as it is, and a later write that
/// succeeds revives nothing.
pub proof fn lemma_failed_write_ends_the_gate(before: GateState, trace: Seq<Seq<u8>>)
    ensures
        !before.after_write(false).running,
        forall|i: int|
            0 <= i < trace.len() ==> #[trigger] before.after_write(false).run(trace)[i]
                == GateStep::Idle,
        writes_issued(before.after_write(false).run(trace)) == 0,
        before.after_write(false).after_run(trace) == before.after_write(false),
        before.after_write(false).after_write(true) == before.after_write(false),
{
    let steps = before.after_write(false).run(trace);
    assert forall|i: int| 0 <= i < trace.len() implies steps[i].writes().len() == 0 by {
        assert(steps[i] == GateStep::Idle);
    }
    lemma_total_of_zeros(trace.len() as int, |i: int| steps[i].writes().len());
}

/// While every write succeeds transmission goes on, and a run of buffers is
/// answered as `gate_run` says from the state at its start.
pub proof fn lemma_successful_writes_keep_the_gate(before: GateState, trace: Seq<Seq<u8>>)
    requires
        before.running,
    ensures
        before.after_write(true) == before,
        before.run(trace) == gate_run(before.transmitting, trace),
        before.after_run(trace).running,
{
}

} // verus!
