//! What the UI shows and decides: the directory listing with its selection,
//! the status line, the latest progress and the count of tracks completed.
//!
//! Reading directories, starting playback and drawing stay with the caller;
//! this state tells it what to do and records what it reported.

use crate::advance::AutoAdvance;
use crate::listing::{listed, listed_before, listing, DirEntry};
use crate::monitor::Sample;
use crate::slot::{is_paused, slot_paused, toggle_pause, PlaybackSlot};
use vstd::prelude::*;
use vstd::string::StrSliceExecFns;

verus! {

/// The entry that leads to the parent directory.
pub open spec fn up_entry() -> Seq<char> {
    seq!['.', '.', '.']
}

/// A folder is listed with a trailing `/`.
pub open spec fn is_folder_entry(s: Seq<char>) -> bool {
    s.len() > 0 && s.last() == '/'
}

/// An entry that names a track: neither the parent entry nor a folder.
pub open spec fn is_track_entry(s: Seq<char>) -> bool {
    s != up_entry() && !is_folder_entry(s)
}

/// `s` without its trailing `/` characters.
pub open spec fn without_trailing_slashes(s: Seq<char>) -> Seq<char>
    decreases s.len(),
{
    if s.len() > 0 && s.last() == '/' {
        without_trailing_slashes(s.drop_last())
    } else {
        s
    }
}

/// The line shown in the status bar.
#[derive(Debug, PartialEq, Eq)]
pub enum Status {
    /// The prompt shown on a fresh listing.
    Welcome,
    NoEntries,
    AtRoot,
    MovedUp,
    EnteredFolder,
    FolderNotFound(String),
    Playing(String),
    Paused,
    /// An empty status line.
    Cleared,
    Error(String),
}

/// What opening the selected entry asks the caller to do.
#[derive(Debug, PartialEq, Eq)]
pub enum OpenAction {
    /// Nothing to open.
    Nothing,
    /// List the parent directory, if there is one.
    GoUp,
    /// List the named folder of the current directory, if it is one.
    EnterFolder(String),
    /// Play the named file of the current directory.
    PlayFile(String),
}

/// The state of the application shown by the UI.
pub struct App {
    /// Entries listed: the parent entry first when there is a parent, then
    /// folders (with a trailing `/`) and tracks.
    pub files: Vec<String>,
    /// Index of the highlighted entry.
    pub selected: usize,
    pub status: Status,
    /// Seconds played of the current track.
    pub current_time: u64,
    /// Length of the current track in seconds; 0 when unknown.
    pub total_time: u64,
    /// Tracks completed since the application started.
    pub songs_played: usize,
}

/// The latest of `samples` that belongs to `session`; samples of other
/// sessions are stale and ignored.
pub open spec fn latest_for(samples: Seq<Sample>, session: Option<u64>) -> Option<Sample>
    decreases samples.len(),
{
    if samples.len() == 0 {
        None
    } else if session == Some(samples.last().session) {
        Some(samples.last())
    } else {
        latest_for(samples.drop_last(), session)
    }
}

/// The parent entry.
fn up_entry_string() -> (r: String)
    ensures
        r@ == up_entry(),
{
    let r = "...".to_owned();
    proof {
        reveal_strlit("...");
    }
    r
}

/// Whether `s` is the parent entry.
fn is_up(s: &str) -> (r: bool)
    ensures
        r == (s@ == up_entry()),
{
    if s.unicode_len() != 3 {
        return false;
    }
    let r = s.get_char(0) == '.' && s.get_char(1) == '.' && s.get_char(2) == '.';
    if r {
        assert(s@ =~= up_entry());
    }
    r
}

/// Whether `s` names a folder.
fn is_folder(s: &str) -> (r: bool)
    ensures
        r == is_folder_entry(s@),
{
    let n = s.unicode_len();
    n > 0 && s.get_char(n - 1) == '/'
}

/// `s` without its trailing `/` characters.
fn trim_trailing_slashes(s: &str) -> (r: String)
    ensures
        r@ == without_trailing_slashes(s@),
{
    let n = s.unicode_len();
    let mut k: usize = n;
    assert(s@.take(n as int) =~= s@);
    while k > 0 && s.get_char(k - 1) == '/'
        invariant
            k <= n,
            n == s@.len(),
            without_trailing_slashes(s@.take(k as int)) == without_trailing_slashes(s@),
        decreases k,
    {
        assert(s@.take(k as int).drop_last() =~= s@.take(k - 1));
        assert(s@.take(k as int).last() == s@[k - 1]);
        k = k - 1;
    }
    let r = s.substring_char(0, k).to_owned();
    assert(s@.subrange(0, k as int) =~= s@.take(k as int));
    r
}

impl App {
    /// Every index handed out is a valid one: the selection points into a
    /// non-empty listing, or is 0 on an empty one.
    pub open spec fn wf(&self) -> bool {
        if self.files@.len() == 0 {
            self.selected == 0
        } else {
            self.selected < self.files@.len()
        }
    }

    /// A fresh state for a directory with `entries`: the parent entry first
    /// when the directory `has_parent`, then the entries' listing, in
    /// listing order.
    pub fn new_at_dir(entries: &Vec<DirEntry>, has_parent: bool) -> (r: App)
        ensures
            r.wf(),
            has_parent ==> r.files@.len() > 0 && r.files@[0]@ == up_entry(),
            ({
                let shown = if has_parent {
                    r.files@.skip(1)
                } else {
                    r.files@
                };
                &&& shown.map_values(|s: String| s@).to_multiset() == listed(entries@).to_multiset()
                &&& forall|i: int, j: int|
                    0 <= i < j < shown.len() ==> listed_before(shown[i]@, shown[j]@)
            }),
            r.selected == 0,
            r.status == Status::Welcome,
            r.current_time == 0,
            r.total_time == 0,
            r.songs_played == 0,
    {
        let names = listing(entries);
        let r = App::with_listing(names, has_parent);
        proof {
            let shown = if has_parent {
                r.files@.skip(1)
            } else {
                r.files@
            };
            let fv = r.files@.map_values(|s: String| s@);
            if has_parent {
                assert(fv.len() == r.files@.len());
                assert(fv == seq![up_entry()] + names@.map_values(|s: String| s@));
                assert(fv[0] == up_entry());
                assert(fv[0] == r.files@[0]@);
                assert(fv.skip(1) =~= names@.map_values(|s: String| s@));
                assert(shown.map_values(|s: String| s@) =~= fv.skip(1));
            } else {
                assert(shown.map_values(|s: String| s@) =~= fv);
            }
            assert forall|i: int, j: int| 0 <= i < j < shown.len() implies listed_before(shown[i]@, shown[j]@) by {
                assert(shown[i]@ == shown.map_values(|s: String| s@)[i]);
                assert(shown[j]@ == shown.map_values(|s: String| s@)[j]);
            }
        }
        r
    }

    /// A fresh state listing `entries` as given, after the parent entry when
    /// the directory `has_parent`.
    fn with_listing(entries: Vec<String>, has_parent: bool) -> (r: App)
        ensures
            r.wf(),
            r.files@.map_values(|s: String| s@) == if has_parent {
                seq![up_entry()] + entries@.map_values(|s: String| s@)
            } else {
                entries@.map_values(|s: String| s@)
            },
            r.selected == 0,
            r.status == Status::Welcome,
            r.current_time == 0,
            r.total_time == 0,
            r.songs_played == 0,
    {
        let mut files: Vec<String> = Vec::new();
        if has_parent {
            files.push(up_entry_string());
        }
        let ghost start = files@;
        let mut i: usize = 0;
        while i < entries.len()
            invariant
                i <= entries@.len(),
                files@ == start + entries@.take(i as int),
            decreases entries@.len() - i,
        {
            files.push(entries[i].clone());
            assert(entries@.take(i + 1) =~= entries@.take(i as int).push(entries@[i as int]));
            i = i + 1;
        }
        assert(entries@.take(i as int) =~= entries@);
        let ghost views = if has_parent {
            seq![up_entry()] + entries@.map_values(|s: String| s@)
        } else {
            entries@.map_values(|s: String| s@)
        };
        assert(files@.map_values(|s: String| s@) =~= views);
        App {
            files,
            selected: 0,
            status: Status::Welcome,
            current_time: 0,
            total_time: 0,
            songs_played: 0,
        }
    }

    /// Moves the selection one entry down, wrapping to the first.
    pub fn next(&mut self)
        requires
            old(self).wf(),
        ensures
            final(self).wf(),
            final(self).selected == if old(self).files@.len() == 0 {
                old(self).selected as int
            } else {
                (old(self).selected + 1) % (old(self).files@.len() as int)
            },
            final(self).files == old(self).files,
            final(self).status == old(self).status,
            final(self).current_time == old(self).current_time,
            final(self).total_time == old(self).total_time,
            final(self).songs_played == old(self).songs_played,
    {
        if self.files.len() > 0 {
            self.selected = (self.selected + 1) % self.files.len();
        }
    }

    /// Moves the selection one entry up, wrapping to the last.
    pub fn previous(&mut self)
        requires
            old(self).wf(),
        ensures
            final(self).wf(),
            final(self).selected == if old(self).files@.len() == 0 {
                old(self).selected as int
            } else if old(self).selected == 0 {
                old(self).files@.len() - 1
            } else {
                old(self).selected - 1
            },
            final(self).files == old(self).files,
            final(self).status == old(self).status,
            final(self).current_time == old(self).current_time,
            final(self).total_time == old(self).total_time,
            final(self).songs_played == old(self).songs_played,
    {
        if self.files.len() > 0 {
            if self.selected == 0 {
                self.selected = self.files.len() - 1;
            } else {
                self.selected = self.selected - 1;
            }
        }
    }

    /// Opens the selected entry: on an empty listing reports so and asks for
    /// nothing; otherwise asks to go up for the parent entry, to enter a
    /// folder (named without its trailing `/`), or to play a track, and shows
    /// the track as playing.
    pub fn open_selected(&mut self) -> (r: OpenAction)
        requires
            old(self).wf(),
        ensures
            final(self).wf(),
            final(self).files == old(self).files,
            final(self).selected == old(self).selected,
            final(self).current_time == old(self).current_time,
            final(self).total_time == old(self).total_time,
            final(self).songs_played == old(self).songs_played,
            old(self).files@.len() == 0 ==> r == OpenAction::Nothing && final(self).status == Status::NoEntries,
            old(self).files@.len() > 0 ==> {
                let e = old(self).files@[old(self).selected as int]@;
                match r {
                    OpenAction::Nothing => false,
                    OpenAction::GoUp => e == up_entry() && final(self).status == old(self).status,
                    OpenAction::EnterFolder(name) => e != up_entry() && is_folder_entry(e)
                        && name@ == without_trailing_slashes(e) && final(self).status == old(self).status,
                    OpenAction::PlayFile(name) => is_track_entry(e) && name@ == e
                        && match final(self).status {
                            Status::Playing(shown) => shown@ == e,
                            _ => false,
                        },
                }
            },
    {
        if self.files.len() == 0 {
            self.status = Status::NoEntries;
            return OpenAction::Nothing;
        }
        let entry = self.files[self.selected].as_str();
        if is_up(entry) {
            OpenAction::GoUp
        } else if is_folder(entry) {
            OpenAction::EnterFolder(trim_trailing_slashes(entry))
        } else {
            self.status = Status::Playing(entry.to_owned());
            OpenAction::PlayFile(entry.to_owned())
        }
    }

    /// Takes in the samples drained from the progress channel, oldest first:
    /// the latest one of the `active` session, if any, becomes the progress
    /// shown; the others are stale and change nothing.
    pub fn poll_progress(&mut self, samples: &Vec<Sample>, active: Option<u64>)
        ensures
            match latest_for(samples@, active) {
                Some(s) => final(self).current_time == s.elapsed && final(self).total_time == s.total,
                None => final(self).current_time == old(self).current_time
                    && final(self).total_time == old(self).total_time,
            },
            final(self).files == old(self).files,
            final(self).selected == old(self).selected,
            final(self).status == old(self).status,
            final(self).songs_played == old(self).songs_played,
    {
        let mut latest: Option<Sample> = None;
        let mut i: usize = 0;
        while i < samples.len()
            invariant
                i <= samples@.len(),
                latest == latest_for(samples@.take(i as int), active),
            decreases samples@.len() - i,
        {
            let s = samples[i];
            assert(samples@.take(i + 1).drop_last() =~= samples@.take(i as int));
            assert(samples@.take(i + 1).last() == s);
            if active == Some(s.session) {
                latest = Some(s);
            }
            i = i + 1;
        }
        assert(samples@.take(i as int) =~= samples@);
        if let Some(s) = latest {
            self.current_time = s.elapsed;
            self.total_time = s.total;
        }
    }

    /// Moves the selection to the first track after it, if there is one.
    pub fn next_track(&mut self) -> (found: bool)
        requires
            old(self).wf(),
        ensures
            final(self).wf(),
            found ==> old(self).selected < final(self).selected
                && is_track_entry(final(self).files@[final(self).selected as int]@)
                && forall|j: int| old(self).selected < j < final(self).selected
                    ==> !is_track_entry(#[trigger] old(self).files@[j]@),
            !found ==> final(self).selected == old(self).selected
                && forall|j: int| old(self).selected < j < old(self).files@.len()
                    ==> !is_track_entry(#[trigger] old(self).files@[j]@),
            final(self).files == old(self).files,
            final(self).status == old(self).status,
            final(self).current_time == old(self).current_time,
            final(self).total_time == old(self).total_time,
            final(self).songs_played == old(self).songs_played,
    {
        let n = self.files.len();
        if n == 0 {
            return false;
        }
        let start = self.selected;
        let mut i: usize = start + 1;
        let mut hit = false;
        while !hit && i < n
            invariant
                n == self.files@.len(),
                start == self.selected,
                start < i <= n,
                hit ==> i < n && is_track_entry(self.files@[i as int]@),
                forall|j: int| start < j < i ==> !is_track_entry(#[trigger] self.files@[j]@),
            decreases n - i, if hit { 0int } else { 1int },
        {
            let e = self.files[i].as_str();
            if !is_up(e) && !is_folder(e) {
                hit = true;
            } else {
                i = i + 1;
            }
        }
        if hit {
            self.selected = i;
            true
        } else {
            false
        }
    }

    /// Toggles pause on the coordinator and shows the outcome: paused, or
    /// the selected entry as playing (an empty line when there is none).
    pub fn pause(&mut self, slot: &mut PlaybackSlot)
        requires
            old(self).wf(),
        ensures
            final(self).wf(),
            final(slot)@.issued == old(slot)@.issued,
            match old(slot)@.current {
                Some(s) => final(slot)@.current == Some(
                    crate::slot::SessionState { paused: !s.paused, ..s },
                ),
                None => final(slot)@.current == None::<crate::slot::SessionState>,
            },
            old(slot).wf() ==> final(slot).wf(),
            final(self).status == if slot_paused(final(slot)@) {
                Status::Paused
            } else if old(self).selected < old(self).files@.len() {
                Status::Playing(old(self).files@[old(self).selected as int])
            } else {
                Status::Cleared
            },
            final(self).files == old(self).files,
            final(self).selected == old(self).selected,
            final(self).current_time == old(self).current_time,
            final(self).total_time == old(self).total_time,
            final(self).songs_played == old(self).songs_played,
    {
        toggle_pause(slot);
        if is_paused(slot) {
            self.status = Status::Paused;
        } else if self.selected < self.files.len() {
            self.status = Status::Playing(self.files[self.selected].clone());
        } else {
            self.status = Status::Cleared;
        }
    }

    /// One UI tick of auto-advance, after the progress was polled: feeds the
    /// controller the progress shown and the pause flag; when it commands an
    /// advance, counts the track as completed and opens the next track, if
    /// there is one.
    pub fn auto_advance(&mut self, ctrl: &mut AutoAdvance, paused: bool, now_ms: u64) -> (r: OpenAction)
        requires
            old(self).wf(),
        ensures
            final(self).wf(),
            ({
                let (phase, adv) = crate::advance::ticked(
                    old(ctrl).phase,
                    crate::advance::Tick {
                        elapsed: old(self).current_time,
                        total: old(self).total_time,
                        paused,
                        now_ms,
                    },
                );
                &&& final(ctrl).phase == phase
                &&& final(self).songs_played == if adv && old(self).songs_played < usize::MAX {
                    old(self).songs_played + 1
                } else {
                    old(self).songs_played as int
                }
                &&& !adv ==> r == OpenAction::Nothing && final(self).selected == old(self).selected
                    && final(self).status == old(self).status
                &&& adv ==> match r {
                    OpenAction::PlayFile(name) => old(self).selected < final(self).selected
                        && name@ == final(self).files@[final(self).selected as int]@
                        && is_track_entry(name@)
                        && forall|j: int| old(self).selected < j < final(self).selected
                            ==> !is_track_entry(#[trigger] old(self).files@[j]@),
                    OpenAction::Nothing => final(self).selected == old(self).selected
                        && forall|j: int| old(self).selected < j < old(self).files@.len()
                            ==> !is_track_entry(#[trigger] old(self).files@[j]@),
                    _ => false,
                }
            }),
            final(self).files == old(self).files,
            final(self).current_time == old(self).current_time,
            final(self).total_time == old(self).total_time,
    {
        let advance = ctrl.tick(self.current_time, self.total_time, paused, now_ms);
        if !advance {
            return OpenAction::Nothing;
        }
        self.songs_played = self.songs_played.saturating_add(1);
        if self.next_track() {
            self.open_selected()
        } else {
            OpenAction::Nothing
        }
    }
}

} // verus!
