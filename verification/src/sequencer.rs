//! The start sequencer's decision core: recognizing the readiness marker in
//! the service log and driving the bounded wait for the confirmation
//! signal, one tick at a time.
//!
//! The surrounding runtime performs the outside work — issuing the start
//! action, following the log, sleeping between ticks — and feeds each
//! observation back in as a plain value.  Whatever the wait's outcome, the
//! sequencer decides no action against the started process itself: a
//! timeout only abandons the watcher, never the service.

use vstd::prelude::*;

use crate::scan::contains_pattern;
use crate::scan::slice_contains_pattern;

verus! {

/// The fixed substring of a log line taken as proof that the service
/// finished starting.
pub open spec fn ready_marker() -> Seq<u8> {
    seq![']' as u8, ':' as u8, ' ' as u8, 'D' as u8, 'o' as u8, 'n' as u8, 'e' as u8]
}

/// The readiness marker as bytes.
fn ready_marker_bytes() -> (r: Vec<u8>)
    ensures
        r@ == ready_marker(),
{
    let mut v: Vec<u8> = Vec::new();
    v.push(']' as u8);
    v.push(':' as u8);
    v.push(' ' as u8);
    v.push('D' as u8);
    v.push('o' as u8);
    v.push('n' as u8);
    v.push('e' as u8);
    assert(v@ =~= ready_marker());
    v
}

/// Whether one line of the followed log carries the readiness marker.
pub fn line_confirms_ready(line: &[u8]) -> (r: bool)
    ensures
        r == contains_pattern(line@, ready_marker()),
{
    let marker = ready_marker_bytes();
    slice_contains_pattern(line, marker.as_slice())
}

/// Outcome of a whole start sequence.
#[derive(PartialEq, Eq, Structural, Clone, Copy, Debug)]
pub enum StartOutcome {
    /// The watcher observed the readiness marker within the bound.
    Confirmed,
    /// The bound elapsed first; the watcher is abandoned, the started
    /// process is left running.
    TimedOut,
}

/// What one tick of the bounded wait decides.
#[derive(PartialEq, Eq, Structural, Clone, Copy, Debug)]
pub enum TickStep {
    /// The completion signal arrived: the sequence is confirmed.
    Confirmed,
    /// No signal yet and ticks remain: keep waiting.
    KeepWaiting,
    /// No signal and the bound is used up: report a timeout.
    TimedOut,
}

/// The decision taken on one tick, given how many ticks were already spent,
/// the bound, and whether the completion signal was observed on this tick.
pub open spec fn tick_step(ticks: int, bound: int, ready: bool) -> TickStep {
    if ready {
        TickStep::Confirmed
    } else if ticks + 1 >= bound {
        TickStep::TimedOut
    } else {
        TickStep::KeepWaiting
    }
}

/// The bounded wait of one start sequence: after the start action is
/// issued, the caller polls the completion signal once per tick and feeds
/// the result to `on_tick` until the step is `Confirmed` or `TimedOut`.
pub struct StartSequencer {
    /// How many ticks the wait may spend in all.
    pub bound: u32,
    /// How many ticks were spent so far.
    pub ticks: u32,
}

impl StartSequencer {
    /// A wait that may spend `bound` ticks.
    pub fn new(bound: u32) -> (r: Self)
        ensures
            r.bound == bound,
            r.ticks == 0,
    {
        StartSequencer { bound, ticks: 0 }
    }

    /// Spend one tick: `ready` says whether the completion signal was
    /// observed since the last tick.
    pub fn on_tick(&mut self, ready: bool) -> (r: TickStep)
        requires
            old(self).ticks < old(self).bound,
        ensures
            final(self).bound == old(self).bound,
            final(self).ticks == old(self).ticks + 1,
            r == tick_step(old(self).ticks as int, old(self).bound as int, ready),
    {
        self.ticks = self.ticks + 1;
        if ready {
            TickStep::Confirmed
        } else if self.ticks == self.bound {
            TickStep::TimedOut
        } else {
            TickStep::KeepWaiting
        }
    }
}

/// The outcome of running the wait from tick `t` on, when tick `i` observes
/// the signal `signals[i]`.
pub open spec fn wait_outcome_from(signals: Seq<bool>, bound: int, t: int) -> StartOutcome
    decreases bound - t when 0 <= t <= bound <= signals.len()
{
    if t >= bound {
        StartOutcome::TimedOut
    } else {
        match tick_step(t, bound, signals[t]) {
            TickStep::Confirmed => StartOutcome::Confirmed,
            TickStep::TimedOut => StartOutcome::TimedOut,
            TickStep::KeepWaiting => wait_outcome_from(signals, bound, t + 1),
        }
    }
}

/// The outcome of a whole bounded wait over the per-tick signals.
pub open spec fn wait_outcome(signals: Seq<bool>, bound: int) -> StartOutcome {
    wait_outcome_from(signals, bound, 0)
}

/// The wait from tick `t` confirms exactly when some remaining tick within
/// the bound observes the signal.
pub proof fn lemma_wait_outcome_from(signals: Seq<bool>, bound: int, t: int)
    requires
        0 <= t <= bound <= signals.len(),
    ensures
        wait_outcome_from(signals, bound, t) == StartOutcome::Confirmed <==> exists|i: int|
            t <= i < bound && signals[i],
    decreases bound - t,
{
    if t < bound {
        if signals[t] {
            assert(t <= t < bound && signals[t]);
        } else if t + 1 >= bound {
            assert(forall|i: int| t <= i < bound ==> !signals[i]);
        } else {
            lemma_wait_outcome_from(signals, bound, t + 1);
            if exists|i: int| t <= i < bound && signals[i] {
                let i = choose|i: int| t <= i < bound && signals[i];
                assert(t + 1 <= i < bound && signals[i]);
            }
        }
    }
}

/// Law: the bounded wait confirms exactly when the watcher signals
/// readiness within the bound, and times out otherwise.
pub proof fn lemma_wait_confirms_iff_signal_within_bound(signals: Seq<bool>, bound: int)
    requires
        0 <= bound <= signals.len(),
    ensures
        wait_outcome(signals, bound) == StartOutcome::Confirmed <==> exists|i: int|
            0 <= i < bound && signals[i],
        wait_outcome(signals, bound) == StartOutcome::TimedOut <==> forall|i: int|
            0 <= i < bound ==> !(#[trigger] signals[i]),
{
    lemma_wait_outcome_from(signals, bound, 0);
    assert(wait_outcome(signals, bound) is Confirmed || wait_outcome(signals, bound) is TimedOut);
}

} // verus!
