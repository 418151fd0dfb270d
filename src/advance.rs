//! The auto-advance controller: decides, once per UI tick, when a finished
//! track should give way to the next one.
//!
//! A track counts as finished when its latest sample reports `elapsed >=
//! total` for a known total while playback is not paused. Samples are
//! clamped to the total slightly before the sink drains, so the controller
//! waits out a debounce window before it commands the advance.

use vstd::prelude::*;

verus! {

/// Milliseconds the end condition must hold before an advance is commanded.
pub const DEBOUNCE_MS: u64 = 700;

/// Where the controller stands.
#[derive(Clone, Copy, Debug, PartialEq, Eq, Structural)]
pub enum Phase {
    /// No advance pending.
    Playing,
    /// The end condition has held since `since_ms`.
    EndObserved { since_ms: u64 },
}

/// What the UI loop hands the controller on one tick: the latest sample and
/// the coordinator's pause flag, read at `now_ms`.
#[derive(Clone, Copy, Debug, PartialEq, Eq, Structural)]
pub struct Tick {
    pub elapsed: u64,
    pub total: u64,
    pub paused: bool,
    pub now_ms: u64,
}

/// Whether a tick shows a finished track: known length, played to its end,
/// not paused.
pub open spec fn at_end(t: Tick) -> bool {
    t.total > 0 && t.elapsed >= t.total && !t.paused
}

/// The phase after tick `t` from phase `p`, and whether an advance is commanded.
pub open spec fn ticked(p: Phase, t: Tick) -> (Phase, bool) {
    if !at_end(t) {
        (Phase::Playing, false)
    } else {
        match p {
            Phase::Playing => (Phase::EndObserved { since_ms: t.now_ms }, false),
            Phase::EndObserved { since_ms } => if t.now_ms - since_ms > DEBOUNCE_MS {
                (Phase::Playing, true)
            } else {
                (p, false)
            },
        }
    }
}

/// The phase after a run of ticks.
pub open spec fn phase_after(p: Phase, ts: Seq<Tick>) -> Phase
    decreases ts.len(),
{
    if ts.len() == 0 {
        p
    } else {
        ticked(phase_after(p, ts.drop_last()), ts.last()).0
    }
}

/// How many advances a run of ticks commands.
pub open spec fn advances(p: Phase, ts: Seq<Tick>) -> nat
    decreases ts.len(),
{
    if ts.len() == 0 {
        0
    } else {
        advances(p, ts.drop_last()) + if ticked(phase_after(p, ts.drop_last()), ts.last()).1 {
            1nat
        } else {
            0nat
        }
    }
}

/// The controller, owned by the UI loop.
pub struct AutoAdvance {
    pub phase: Phase,
}

impl AutoAdvance {
    pub fn new() -> (r: AutoAdvance)
        ensures
            r.phase == Phase::Playing,
    {
        AutoAdvance { phase: Phase::Playing }
    }

    /// Takes one tick: the latest `elapsed`/`total`, whether playback is
    /// `paused`, and the clock. Returns whether to select and play the next
    /// track now.
    pub fn tick(&mut self, elapsed: u64, total: u64, paused: bool, now_ms: u64) -> (advance: bool)
        ensures
            (final(self).phase, advance) == ticked(
                old(self).phase,
                Tick { elapsed, total, paused, now_ms },
            ),
    {
        if total == 0 || elapsed < total || paused {
            self.phase = Phase::Playing;
            return false;
        }
        match self.phase {
            Phase::Playing => {
                self.phase = Phase::EndObserved { since_ms: now_ms };
                false
            },
            Phase::EndObserved { since_ms } => {
                if now_ms >= since_ms && now_ms - since_ms > DEBOUNCE_MS {
                    self.phase = Phase::Playing;
                    true
                } else {
                    false
                }
            },
        }
    }
}

/// Debounce, first half: from `Playing`, over ticks that all show the end and
/// come no later than the debounce window after the first, no advance is
/// commanded and the end stays observed from the first tick on.
pub proof fn lemma_no_early_advance(ts: Seq<Tick>)
    requires
        ts.len() > 0,
        forall|i: int| 0 <= i < ts.len() ==> at_end(#[trigger] ts[i]),
        forall|i: int| 0 <= i < ts.len() ==> (#[trigger] ts[i]).now_ms <= ts[0].now_ms + DEBOUNCE_MS,
    ensures
        advances(Phase::Playing, ts) == 0,
        phase_after(Phase::Playing, ts) == (Phase::EndObserved { since_ms: ts[0].now_ms }),
    decreases ts.len(),
{
    if ts.len() == 1 {
        assert(advances(Phase::Playing, ts.drop_last()) == 0);
        assert(phase_after(Phase::Playing, ts.drop_last()) == Phase::Playing);
    } else {
        let pre = ts.drop_last();
        assert(pre[0] == ts[0]);
        assert forall|i: int| 0 <= i < pre.len() implies at_end(#[trigger] pre[i]) by {
            assert(pre[i] == ts[i]);
        }
        assert forall|i: int| 0 <= i < pre.len() implies (#[trigger] pre[i]).now_ms <= pre[0].now_ms + DEBOUNCE_MS by {
            assert(pre[i] == ts[i]);
        }
        lemma_no_early_advance(pre);
        assert(at_end(ts[ts.len() - 1]));
        assert(ts[ts.len() - 1].now_ms <= ts[0].now_ms + DEBOUNCE_MS);
    }
}

/// Debounce, second half: when the end has held from `Playing` through the
/// debounce window and still holds on the first tick past it, exactly one
/// advance is commanded, on that tick, and the controller is back to `Playing`.
pub proof fn lemma_one_advance_after_window(ts: Seq<Tick>, last: Tick)
    requires
        ts.len() > 0,
        forall|i: int| 0 <= i < ts.len() ==> at_end(#[trigger] ts[i]),
        forall|i: int| 0 <= i < ts.len() ==> (#[trigger] ts[i]).now_ms <= ts[0].now_ms + DEBOUNCE_MS,
        at_end(last),
        last.now_ms > ts[0].now_ms + DEBOUNCE_MS,
    ensures
        advances(Phase::Playing, ts.push(last)) == 1,
        phase_after(Phase::Playing, ts.push(last)) == Phase::Playing,
{
    lemma_no_early_advance(ts);
    assert(ts.push(last).drop_last() == ts);
    assert(ts.push(last).last() == last);
}

/// Unknown length: ticks that all report an unknown total never lead to an
/// observed end, and never command an advance, from any phase.
pub proof fn lemma_unknown_length_never_advances(p: Phase, ts: Seq<Tick>)
    requires
        forall|i: int| 0 <= i < ts.len() ==> (#[trigger] ts[i]).total == 0,
    ensures
        advances(p, ts) == 0,
        ts.len() > 0 ==> phase_after(p, ts) == Phase::Playing,
    decreases ts.len(),
{
    if ts.len() > 0 {
        let pre = ts.drop_last();
        assert forall|i: int| 0 <= i < pre.len() implies (#[trigger] pre[i]).total == 0 by {
            assert(pre[i] == ts[i]);
        }
        lemma_unknown_length_never_advances(p, pre);
        assert(ts[ts.len() - 1].total == 0);
    }
}

} // verus!
