use std::sync::Arc;

use empitrio::advance::{AutoAdvance, Phase};
use empitrio::app_state::{App, OpenAction, Status};
use empitrio::listing::{listing, DirEntry, EntryKind};
use empitrio::monitor::Sample;
use empitrio::slot::PlaybackSlot;
use rodio::Sink;

fn entry(name: &str, kind: EntryKind) -> DirEntry {
    DirEntry { name: name.to_string(), kind }
}

fn app(names: &[&str], has_parent: bool) -> App {
    let entries: Vec<DirEntry> = names.iter().map(|n| entry(n, EntryKind::Track)).collect();
    App::new_at_dir(&entries, has_parent)
}

#[test]
fn listing_puts_folders_first_then_sorts_ignoring_case() {
    let entries = vec![
        entry("b.mp3", EntryKind::Track),
        entry("notes.txt", EntryKind::Other),
        entry("Zeta", EntryKind::Folder),
        entry("A.mp3", EntryKind::Track),
        entry("alpha", EntryKind::Folder),
        entry("c.MP3", EntryKind::Track),
    ];
    assert_eq!(listing(&entries), vec!["alpha/", "Zeta/", "A.mp3", "b.mp3", "c.MP3"]);
}

#[test]
fn listing_of_nothing_is_empty() {
    assert!(listing(&Vec::new()).is_empty());
    assert!(listing(&vec![entry("x.txt", EntryKind::Other)]).is_empty());
}

#[test]
fn new_at_dir_lists_parent_first() {
    let entries = vec![entry("song.mp3", EntryKind::Track), entry("Music", EntryKind::Folder)];
    let a = App::new_at_dir(&entries, true);
    assert_eq!(a.files, vec!["...", "Music/", "song.mp3"]);
    assert_eq!(a.selected, 0);
    assert_eq!(a.status, Status::Welcome);
    assert_eq!((a.current_time, a.total_time, a.songs_played), (0, 0, 0));

    let root = App::new_at_dir(&entries, false);
    assert_eq!(root.files, vec!["Music/", "song.mp3"]);
}

#[test]
fn next_and_previous_wrap() {
    let mut a = app(&["a.mp3", "b.mp3", "c.mp3"], false);
    a.previous();
    assert_eq!(a.selected, 2);
    a.next();
    assert_eq!(a.selected, 0);
    a.next();
    assert_eq!(a.selected, 1);
    a.previous();
    assert_eq!(a.selected, 0);

    let mut empty = app(&[], false);
    empty.next();
    empty.previous();
    assert_eq!(empty.selected, 0);
}

#[test]
fn open_selected_tells_what_to_do() {
    let entries = vec![entry("Music", EntryKind::Folder), entry("song.mp3", EntryKind::Track)];
    let mut a = App::new_at_dir(&entries, true);
    assert_eq!(a.open_selected(), OpenAction::GoUp);
    assert_eq!(a.status, Status::Welcome);
    a.next();
    assert_eq!(a.open_selected(), OpenAction::EnterFolder("Music".to_string()));
    a.next();
    assert_eq!(a.open_selected(), OpenAction::PlayFile("song.mp3".to_string()));
    assert_eq!(a.status, Status::Playing("song.mp3".to_string()));

    let mut empty = app(&[], false);
    assert_eq!(empty.open_selected(), OpenAction::Nothing);
    assert_eq!(empty.status, Status::NoEntries);
}

#[test]
fn poll_progress_keeps_the_latest_sample_of_the_active_session() {
    let mut a = app(&["a.mp3"], false);
    let samples = vec![
        Sample { session: 2, elapsed: 3, total: 10 },
        Sample { session: 2, elapsed: 4, total: 10 },
        Sample { session: 1, elapsed: 99, total: 100 },
    ];
    a.poll_progress(&samples, Some(2));
    assert_eq!((a.current_time, a.total_time), (4, 10));

    a.poll_progress(&vec![Sample { session: 1, elapsed: 7, total: 8 }], Some(2));
    assert_eq!((a.current_time, a.total_time), (4, 10));

    a.poll_progress(&Vec::new(), Some(2));
    assert_eq!((a.current_time, a.total_time), (4, 10));

    a.poll_progress(&samples, None);
    assert_eq!((a.current_time, a.total_time), (4, 10));
}

#[test]
fn next_track_skips_folders_and_stops_at_the_end() {
    let entries = vec![
        entry("one.mp3", EntryKind::Track),
        entry("Sub", EntryKind::Folder),
        entry("two.mp3", EntryKind::Track),
    ];
    let mut a = App::new_at_dir(&entries, true);
    assert_eq!(a.files, vec!["...", "Sub/", "one.mp3", "two.mp3"]);
    assert!(a.next_track());
    assert_eq!(a.selected, 2);
    assert!(a.next_track());
    assert_eq!(a.selected, 3);
    assert!(!a.next_track());
    assert_eq!(a.selected, 3);
}

#[test]
fn pause_shows_paused_then_playing() {
    let mut a = app(&["a.mp3", "b.mp3"], false);
    let mut slot = PlaybackSlot::new();
    let (sink, _queue) = Sink::new();
    let session = slot.begin_session(Arc::new(sink), 10);
    slot.evict_and_install(session);

    a.next();
    a.pause(&mut slot);
    assert_eq!(a.status, Status::Paused);
    a.pause(&mut slot);
    assert_eq!(a.status, Status::Playing("b.mp3".to_string()));
}

#[test]
fn pause_with_nothing_playing_shows_the_selection() {
    let mut a = app(&["a.mp3"], false);
    let mut slot = PlaybackSlot::new();
    a.pause(&mut slot);
    assert_eq!(a.status, Status::Playing("a.mp3".to_string()));

    let mut empty = app(&[], false);
    empty.pause(&mut slot);
    assert_eq!(empty.status, Status::Cleared);
}

#[test]
fn auto_advance_plays_the_next_track_after_the_end() {
    let mut a = app(&["a.mp3", "b.mp3"], false);
    let mut c = AutoAdvance::new();
    let samples = vec![
        Sample { session: 1, elapsed: 3, total: 10 },
        Sample { session: 1, elapsed: 9, total: 10 },
    ];
    a.poll_progress(&samples, Some(1));
    assert_eq!(a.auto_advance(&mut c, false, 0), OpenAction::Nothing);
    a.poll_progress(&vec![Sample { session: 1, elapsed: 10, total: 10 }], Some(1));
    assert_eq!(a.auto_advance(&mut c, false, 250), OpenAction::Nothing);
    assert_eq!(c.phase, Phase::EndObserved { since_ms: 250 });
    a.poll_progress(&vec![Sample { session: 1, elapsed: 10, total: 10 }], Some(1));
    assert_eq!(a.auto_advance(&mut c, false, 750), OpenAction::Nothing);
    assert_eq!(a.auto_advance(&mut c, false, 1_000), OpenAction::PlayFile("b.mp3".to_string()));
    assert_eq!(a.selected, 1);
    assert_eq!(a.songs_played, 1);
    assert_eq!(a.status, Status::Playing("b.mp3".to_string()));
}

#[test]
fn auto_advance_at_the_last_track_plays_nothing() {
    let mut a = app(&["a.mp3"], false);
    let mut c = AutoAdvance::new();
    a.poll_progress(&vec![Sample { session: 4, elapsed: 5, total: 5 }], Some(4));
    assert_eq!(a.auto_advance(&mut c, false, 0), OpenAction::Nothing);
    assert_eq!(a.auto_advance(&mut c, false, 701), OpenAction::Nothing);
    assert_eq!(a.songs_played, 1);
    assert_eq!(a.selected, 0);
    assert_eq!(c.phase, Phase::Playing);
}
