use empitrio::advance::{AutoAdvance, Phase, DEBOUNCE_MS};

#[test]
fn end_of_track_advances_once_after_the_debounce() {
    let mut c = AutoAdvance::new();
    assert!(!c.tick(3, 10, false, 0));
    assert_eq!(c.phase, Phase::Playing);
    assert!(!c.tick(9, 10, false, 250));
    assert_eq!(c.phase, Phase::Playing);
    assert!(!c.tick(10, 10, false, 500));
    assert_eq!(c.phase, Phase::EndObserved { since_ms: 500 });
    assert!(!c.tick(10, 10, false, 750));
    assert_eq!(c.phase, Phase::EndObserved { since_ms: 500 });
    assert!(!c.tick(10, 10, false, 1_000));
    assert!(c.tick(10, 10, false, 1_250));
    assert_eq!(c.phase, Phase::Playing);
}

#[test]
fn no_advance_at_exactly_the_debounce_window() {
    let mut c = AutoAdvance::new();
    assert!(!c.tick(10, 10, false, 1_000));
    assert!(!c.tick(10, 10, false, 1_000 + DEBOUNCE_MS));
    assert!(c.tick(10, 10, false, 1_001 + DEBOUNCE_MS));
}

#[test]
fn pause_suppresses_the_end() {
    let mut c = AutoAdvance::new();
    assert!(!c.tick(10, 10, false, 0));
    assert!(!c.tick(10, 10, true, 300));
    assert_eq!(c.phase, Phase::Playing);
    assert!(!c.tick(10, 10, true, 5_000));
    assert_eq!(c.phase, Phase::Playing);
    assert!(!c.tick(10, 10, false, 5_250));
    assert_eq!(c.phase, Phase::EndObserved { since_ms: 5_250 });
}

#[test]
fn unknown_length_never_ends() {
    let mut c = AutoAdvance::new();
    for t in 0..100u64 {
        assert!(!c.tick(t, 0, false, t * 250));
        assert_eq!(c.phase, Phase::Playing);
    }
}

#[test]
fn leaving_the_end_resets_the_window() {
    let mut c = AutoAdvance::new();
    assert!(!c.tick(10, 10, false, 0));
    assert!(!c.tick(2, 10, false, 500));
    assert_eq!(c.phase, Phase::Playing);
    assert!(!c.tick(10, 10, false, 800));
    assert!(!c.tick(10, 10, false, 1_400));
    assert!(c.tick(10, 10, false, 1_501));
}
