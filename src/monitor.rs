//! The progress monitor: one per session, polled at a fixed cadence, it turns
//! clock readings and what the sink reports into progress samples.
//!
//! Times are milliseconds on one monotonic clock; the caller reads the clock.

use crate::sink::sink_reports_paused;
use rodio::Sink;
use vstd::prelude::*;

verus! {

/// Milliseconds between two polls of a session's sink.
pub const SAMPLE_INTERVAL_MS: u64 = 500;

/// A progress sample: whole seconds played and total seconds (0 when the
/// length is unknown), tagged with the session it is about.
#[derive(Clone, Copy, Debug, PartialEq, Eq, Structural)]
pub struct Sample {
    pub session: u64,
    pub elapsed: u64,
    pub total: u64,
}

/// What one poll asks of the caller.
#[derive(Clone, Copy, Debug, PartialEq, Eq, Structural)]
pub enum MonitorAction {
    /// Send the sample and poll again after the interval.
    Emit(Sample),
    /// The sink is empty: send this last sample and stop polling.
    Finish(Sample),
}

impl MonitorAction {
    pub open spec fn sample(self) -> Sample {
        match self {
            MonitorAction::Emit(s) => s,
            MonitorAction::Finish(s) => s,
        }
    }
}

pub open spec fn sat_sub(a: u64, b: u64) -> u64 {
    if a >= b {
        (a - b) as u64
    } else {
        0
    }
}

pub open spec fn sat_add(a: u64, b: u64) -> u64 {
    if a + b <= u64::MAX {
        (a + b) as u64
    } else {
        u64::MAX
    }
}

/// Whole seconds played after `since_start_ms` on the clock of which
/// `paused_ms` were spent paused, clamped to `total` when it is known.
pub open spec fn elapsed_seconds(since_start_ms: u64, paused_ms: u64, total: u64) -> u64 {
    let e = sat_sub(since_start_ms, paused_ms) / 1000;
    if total > 0 && e > total {
        total
    } else {
        e
    }
}

/// The monitor of one session.
pub struct ProgressMonitor {
    pub session: u64,
    pub total: u64,
    /// When playback began.
    pub start_ms: u64,
    /// When the sink was last polled.
    pub last_check_ms: u64,
    /// Time found paused so far.
    pub paused_ms: u64,
    pub finished: bool,
}

/// One poll at `now` that found the sink `empty` or not, `paused` or not.
pub open spec fn polled(m: ProgressMonitor, now: u64, empty: bool, paused: bool) -> (ProgressMonitor, MonitorAction) {
    if empty {
        (
            ProgressMonitor { finished: true, ..m },
            MonitorAction::Finish(Sample { session: m.session, elapsed: m.total, total: m.total }),
        )
    } else {
        let p = if paused {
            sat_add(m.paused_ms, sat_sub(now, m.last_check_ms))
        } else {
            m.paused_ms
        };
        (
            ProgressMonitor { paused_ms: p, last_check_ms: now, ..m },
            MonitorAction::Emit(
                Sample {
                    session: m.session,
                    elapsed: elapsed_seconds(sat_sub(now, m.start_ms), p, m.total),
                    total: m.total,
                },
            ),
        )
    }
}

/// The monitor after a run of polls of a sink that stayed non-empty, each a
/// clock reading and whether the sink was paused.
pub open spec fn polled_all(m: ProgressMonitor, obs: Seq<(u64, bool)>) -> ProgressMonitor
    decreases obs.len(),
{
    if obs.len() == 0 {
        m
    } else {
        polled(polled_all(m, obs.drop_last()), obs.last().0, false, obs.last().1).0
    }
}

impl ProgressMonitor {
    /// A monitor for a session that began playing at `start_ms`.
    pub fn new(session: u64, total: u64, start_ms: u64) -> (r: ProgressMonitor)
        ensures
            r == (ProgressMonitor {
                session,
                total,
                start_ms,
                last_check_ms: start_ms,
                paused_ms: 0,
                finished: false,
            }),
    {
        ProgressMonitor { session, total, start_ms, last_check_ms: start_ms, paused_ms: 0, finished: false }
    }

    /// One poll at `now_ms`, given what the sink reported. While the sink
    /// plays, the sample reports the time played less the time paused; once
    /// it is empty, the last sample reports the total.
    pub fn step(&mut self, now_ms: u64, sink_empty: bool, sink_paused: bool) -> (r: MonitorAction)
        ensures
            (*final(self), r) == polled(*old(self), now_ms, sink_empty, sink_paused),
            r.sample().total > 0 ==> r.sample().elapsed <= r.sample().total,
            final(self).paused_ms >= old(self).paused_ms,
    {
        if sink_empty {
            self.finished = true;
            return MonitorAction::Finish(Sample { session: self.session, elapsed: self.total, total: self.total });
        }
        if sink_paused {
            let since_last = now_ms.saturating_sub(self.last_check_ms);
            self.paused_ms = self.paused_ms.saturating_add(since_last);
        }
        self.last_check_ms = now_ms;
        let played = now_ms.saturating_sub(self.start_ms).saturating_sub(self.paused_ms) / 1000;
        let elapsed = if self.total > 0 && played > self.total {
            self.total
        } else {
            played
        };
        MonitorAction::Emit(Sample { session: self.session, elapsed, total: self.total })
    }

    /// Polls `sink` at `now_ms`: asks whether it is empty and whether it is
    /// paused, then takes the step those answers call for.
    pub fn poll(&mut self, sink: &Sink, now_ms: u64) -> (r: MonitorAction)
        ensures
            exists|empty: bool, paused: bool|
                (*final(self), r) == polled(*old(self), now_ms, empty, paused),
            r.sample().total > 0 ==> r.sample().elapsed <= r.sample().total,
    {
        let empty = sink.empty();
        let paused = sink_reports_paused(sink);
        self.step(now_ms, empty, paused)
    }
}

/// Clamping: a sample of a session of known length never reports more
/// seconds played than the length.
pub proof fn lemma_sample_within_total(m: ProgressMonitor, now: u64, empty: bool, paused: bool)
    ensures
        polled(m, now, empty, paused).1.sample().total > 0 ==> polled(m, now, empty, paused).1.sample().elapsed
            <= polled(m, now, empty, paused).1.sample().total,
{
}

/// Pause accounting: over polls that all find the sink paused, at
/// non-decreasing times, the whole span from the poll before the first one to
/// the last one is added to the time paused.
pub proof fn lemma_pause_accounting(m: ProgressMonitor, obs: Seq<(u64, bool)>)
    requires
        obs.len() > 0,
        forall|i: int| 0 <= i < obs.len() ==> #[trigger] obs[i].1,
        m.last_check_ms <= obs[0].0,
        forall|i: int, j: int| 0 <= i <= j < obs.len() ==> obs[i].0 <= obs[j].0,
        m.paused_ms + (obs.last().0 - m.last_check_ms) <= u64::MAX,
    ensures
        polled_all(m, obs).paused_ms == m.paused_ms + (obs.last().0 - m.last_check_ms),
        polled_all(m, obs).last_check_ms == obs.last().0,
        polled_all(m, obs).start_ms == m.start_ms,
        polled_all(m, obs).total == m.total,
    decreases obs.len(),
{
    if obs.len() == 1 {
        assert(polled_all(m, obs.drop_last()) == m);
    } else {
        let pre = obs.drop_last();
        assert(pre[0] == obs[0]);
        assert(pre.last() == obs[obs.len() - 2]);
        lemma_pause_accounting(m, pre);
    }
}

/// Pause delays completion: once a sample of a session of known length
/// reports the end, at least the length plus all the time found paused has
/// passed since playback began.
pub proof fn lemma_completion_waits_for_pauses(m: ProgressMonitor, now: u64, paused: bool)
    requires
        m.total > 0,
        polled(m, now, false, paused).1.sample().elapsed >= m.total,
    ensures
        now >= m.start_ms + 1000 * m.total + polled(m, now, false, paused).0.paused_ms,
{
    let p = polled(m, now, false, paused).0.paused_ms;
    let x = sat_sub(sat_sub(now, m.start_ms), p);
    assert(x / 1000 >= m.total);
    assert(x >= 1000 * m.total) by (nonlinear_arith)
        requires x / 1000 >= m.total;
}

/// Pausing delays the end: after polls that found the sink paused over a
/// span, a later poll can report a session of known length finished only
/// once the length plus that span plus any earlier pauses have passed since
/// playback began.
pub proof fn lemma_pause_delays_completion(m: ProgressMonitor, obs: Seq<(u64, bool)>, now: u64, paused: bool)
    requires
        obs.len() > 0,
        forall|i: int| 0 <= i < obs.len() ==> #[trigger] obs[i].1,
        m.last_check_ms <= obs[0].0,
        forall|i: int, j: int| 0 <= i <= j < obs.len() ==> obs[i].0 <= obs[j].0,
        m.paused_ms + (obs.last().0 - m.last_check_ms) <= u64::MAX,
        m.total > 0,
        polled(polled_all(m, obs), now, false, paused).1.sample().elapsed >= m.total,
    ensures
        now >= m.start_ms + 1000 * m.total + m.paused_ms + (obs.last().0 - m.last_check_ms),
{
    lemma_pause_accounting(m, obs);
    lemma_completion_waits_for_pauses(polled_all(m, obs), now, paused);
}

} // verus!
