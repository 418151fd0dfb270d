use empitrio::monitor::{MonitorAction, ProgressMonitor, Sample, SAMPLE_INTERVAL_MS};
use rodio::Sink;

fn emitted(a: MonitorAction) -> Sample {
    match a {
        MonitorAction::Emit(s) => s,
        MonitorAction::Finish(s) => panic!("unexpected finish {:?}", s),
    }
}

#[test]
fn elapsed_counts_whole_seconds() {
    let mut m = ProgressMonitor::new(3, 10, 1_000);
    assert_eq!(emitted(m.step(1_500, false, false)), Sample { session: 3, elapsed: 0, total: 10 });
    assert_eq!(emitted(m.step(2_999, false, false)).elapsed, 1);
    assert_eq!(emitted(m.step(4_000, false, false)).elapsed, 3);
}

#[test]
fn elapsed_is_clamped_to_a_known_total() {
    let mut m = ProgressMonitor::new(1, 10, 0);
    assert_eq!(emitted(m.step(10_500, false, false)).elapsed, 10);
    assert_eq!(emitted(m.step(60_000, false, false)), Sample { session: 1, elapsed: 10, total: 10 });
}

#[test]
fn unknown_total_is_not_clamped() {
    let mut m = ProgressMonitor::new(1, 0, 0);
    assert_eq!(emitted(m.step(60_000, false, false)), Sample { session: 1, elapsed: 60, total: 0 });
}

#[test]
fn paused_time_is_not_counted() {
    let mut m = ProgressMonitor::new(1, 10, 0);
    assert_eq!(emitted(m.step(SAMPLE_INTERVAL_MS, false, false)).elapsed, 0);
    assert_eq!(emitted(m.step(2_000, false, false)).elapsed, 2);
    // paused from 2 s to 5 s
    for t in [2_500u64, 3_000, 3_500, 4_000, 4_500, 5_000] {
        assert_eq!(emitted(m.step(t, false, true)).elapsed, 2);
    }
    assert_eq!(m.paused_ms, 3_000);
    assert_eq!(emitted(m.step(9_000, false, false)).elapsed, 6);
    // ten seconds of play are reached only at 13 s
    assert_eq!(emitted(m.step(12_999, false, false)).elapsed, 9);
    assert_eq!(emitted(m.step(13_000, false, false)).elapsed, 10);
}

#[test]
fn empty_sink_finishes_with_the_total() {
    let mut m = ProgressMonitor::new(2, 42, 0);
    assert_eq!(m.step(1_000, true, false), MonitorAction::Finish(Sample { session: 2, elapsed: 42, total: 42 }));
    assert!(m.finished);
}

#[test]
fn poll_of_an_idle_sink_finishes() {
    let (sink, _queue) = Sink::new();
    let mut m = ProgressMonitor::new(7, 30, 0);
    assert_eq!(m.poll(&sink, 500), MonitorAction::Finish(Sample { session: 7, elapsed: 30, total: 30 }));
}

#[test]
fn no_sample_exceeds_the_total() {
    for total in 1..20u64 {
        let mut m = ProgressMonitor::new(1, total, 0);
        let mut t = 0u64;
        while t < 40_000 {
            let paused = (t / 3_000) % 2 == 1;
            let s = emitted(m.step(t, false, paused));
            assert!(s.elapsed <= total);
            t += SAMPLE_INTERVAL_MS;
        }
    }
}
