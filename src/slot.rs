//! The playback coordinator: a single slot holding at most one live session.
//!
//! Installing a session stops the one it replaces in the same step, so two
//! sessions never play at once. The coordinator is the only party that pauses
//! or resumes the sinks it holds, so the pause flag it keeps is the sink's own;
//! the progress monitor reads the sink directly.

use std::sync::Arc;
use rodio::Sink;
use vstd::prelude::*;

verus! {

/// What a session is, as far as the coordinator's contracts are concerned.
pub struct SessionState {
    pub id: u64,
    pub total: u64,
    pub paused: bool,
    pub stopped: bool,
}

/// One playback attempt: a sink, its identifier and its total length in
/// whole seconds (0 when unknown).
pub struct Session {
    id: u64,
    total: u64,
    paused: bool,
    stopped: bool,
    sink: Arc<Sink>,
}

impl Session {
    /// Starts a session on `sink`; the sink is set playing, so the session
    /// begins unpaused.
    pub fn new(id: u64, sink: Arc<Sink>, total: u64) -> (r: Session)
        ensures
            r@ == (SessionState { id, total, paused: false, stopped: false }),
    {
        sink.play();
        Session { id, total, paused: false, stopped: false, sink }
    }

    pub closed spec fn view(&self) -> SessionState {
        SessionState { id: self.id, total: self.total, paused: self.paused, stopped: self.stopped }
    }

    pub fn id(&self) -> (r: u64)
        ensures
            r == self@.id,
    {
        self.id
    }

    pub fn total_seconds(&self) -> (r: u64)
        ensures
            r == self@.total,
    {
        self.total
    }

    pub fn is_paused(&self) -> (r: bool)
        ensures
            r == self@.paused,
    {
        self.paused
    }

    pub fn is_stopped(&self) -> (r: bool)
        ensures
            r == self@.stopped,
    {
        self.stopped
    }

    /// Stops the sink for good. A stopped session never plays again.
    fn stop(&mut self)
        ensures
            final(self)@ == (SessionState { stopped: true, ..old(self)@ }),
    {
        self.sink.stop();
        self.stopped = true;
    }
}

/// Total length in whole seconds from what the decoder knows: 0 stands for
/// an unknown length.
pub fn total_seconds(known: Option<u64>) -> (r: u64)
    ensures
        r == match known {
            Some(t) => t,
            None => 0u64,
        },
{
    match known {
        Some(t) => t,
        None => 0,
    }
}

/// What the coordinator holds: the installed session, if any, and how many
/// session identifiers it has handed out.
pub struct SlotState {
    pub current: Option<SessionState>,
    pub issued: u64,
}

/// The session that installing over `st` evicts, as it is once stopped.
pub open spec fn evicted_from(st: SlotState) -> Option<SessionState> {
    match st.current {
        Some(s) => Some(SessionState { stopped: true, ..s }),
        None => None,
    }
}

/// The coordinator's state once `s` is installed over `st`.
pub open spec fn installed(st: SlotState, s: SessionState) -> SlotState {
    SlotState { current: Some(s), issued: st.issued }
}

/// Whether the installed session is paused; `false` when the slot is empty.
pub open spec fn slot_paused(st: SlotState) -> bool {
    match st.current {
        Some(s) => s.paused,
        None => false,
    }
}

/// The coordinator's state after a run of installs, in order.
pub open spec fn installed_all(st: SlotState, ss: Seq<SessionState>) -> SlotState
    decreases ss.len(),
{
    if ss.len() == 0 {
        st
    } else {
        installed(installed_all(st, ss.drop_last()), ss.last())
    }
}

/// The playback coordinator. It is owned by the application root and shared
/// under a lock by every task that starts, pauses or queries playback.
pub struct PlaybackSlot {
    current: Option<Session>,
    issued: u64,
}

impl PlaybackSlot {
    pub closed spec fn view(&self) -> SlotState {
        SlotState {
            current: match self.current {
                Some(s) => Some(s@),
                None => None,
            },
            issued: self.issued,
        }
    }

    /// An installed session is never a stopped one, and its identifier was
    /// handed out by this coordinator.
    pub open spec fn wf(&self) -> bool {
        match self@.current {
            Some(s) => !s.stopped && 0 < s.id <= self@.issued,
            None => true,
        }
    }

    pub fn new() -> (r: PlaybackSlot)
        ensures
            r@ == (SlotState { current: None, issued: 0 }),
            r.wf(),
    {
        PlaybackSlot { current: None, issued: 0 }
    }

    /// How many session identifiers have been handed out.
    pub fn sessions_issued(&self) -> (r: u64)
        ensures
            r == self@.issued,
    {
        self.issued
    }

    /// The identifier of the installed session, if any.
    pub fn active_session(&self) -> (r: Option<u64>)
        ensures
            r == match self@.current {
                Some(s) => Some(s.id),
                None => None::<u64>,
            },
    {
        match &self.current {
            Some(s) => Some(s.id),
            None => None,
        }
    }

    /// Starts a fresh session on `sink` under the next identifier. The new
    /// session is not installed yet.
    pub fn begin_session(&mut self, sink: Arc<Sink>, total: u64) -> (r: Session)
        requires
            old(self)@.issued < u64::MAX,
        ensures
            r@ == (SessionState { id: (old(self)@.issued + 1) as u64, total, paused: false, stopped: false }),
            final(self)@ == (SlotState { issued: (old(self)@.issued + 1) as u64, ..old(self)@ }),
            old(self).wf() ==> final(self).wf(),
    {
        self.issued = self.issued + 1;
        Session::new(self.issued, sink, total)
    }

    /// Takes the installed session out and stops it, leaving the slot empty.
    pub fn evict(&mut self) -> (r: Option<Session>)
        ensures
            final(self)@ == (SlotState { current: None, ..old(self)@ }),
            final(self).wf(),
            match r {
                Some(s) => evicted_from(old(self)@) == Some(s@),
                None => evicted_from(old(self)@) == None::<SessionState>,
            },
    {
        match self.current.take() {
            Some(mut s) => {
                s.stop();
                Some(s)
            },
            None => None,
        }
    }

    /// In one step, stops and takes out the installed session and installs
    /// `session` in its place. The evicted session, stopped, is handed back.
    pub fn evict_and_install(&mut self, session: Session) -> (r: Option<Session>)
        requires
            old(self).wf(),
            !session@.stopped,
            0 < session@.id <= old(self)@.issued,
        ensures
            final(self)@ == installed(old(self)@, session@),
            final(self).wf(),
            match r {
                Some(s) => evicted_from(old(self)@) == Some(s@),
                None => evicted_from(old(self)@) == None::<SessionState>,
            },
    {
        let old_session = self.evict();
        self.current = Some(session);
        old_session
    }
}

/// Pauses the installed session if it plays, resumes it if it is paused;
/// does nothing on an empty slot. Which session is installed never changes.
pub fn toggle_pause(slot: &mut PlaybackSlot)
    ensures
        final(slot)@.issued == old(slot)@.issued,
        match old(slot)@.current {
            Some(s) => final(slot)@.current == Some(SessionState { paused: !s.paused, ..s }),
            None => final(slot)@.current == None::<SessionState>,
        },
        old(slot).wf() ==> final(slot).wf(),
{
    if let Some(s) = &mut slot.current {
        if s.paused {
            s.sink.play();
            s.paused = false;
        } else {
            s.sink.pause();
            s.paused = true;
        }
    }
}

/// Whether the installed session is paused; `false` when nothing is installed.
pub fn is_paused(slot: &PlaybackSlot) -> (r: bool)
    ensures
        r == slot_paused(slot@),
{
    match &slot.current {
        Some(s) => s.paused,
        None => false,
    }
}

/// After a run of installs, the last session installed is the only one in
/// the slot, and the pause flag read from the slot is that session's own.
pub proof fn lemma_last_install_wins(st: SlotState, ss: Seq<SessionState>)
    requires
        ss.len() > 0,
    ensures
        installed_all(st, ss).current == Some(ss.last()),
        slot_paused(installed_all(st, ss)) == ss.last().paused,
        installed_all(st, ss).issued == st.issued,
    decreases ss.len(),
{
    if ss.len() > 1 {
        lemma_last_install_wins(st, ss.drop_last());
    } else {
        assert(installed_all(st, ss.drop_last()) == st);
    }
}

/// Single flight: however fast sessions are installed one over another, the
/// slot never holds more than the one last installed; every install but the
/// first evicts, stopped, exactly the session installed just before it; and
/// `is_paused` then reads the last session's flag alone.
pub proof fn lemma_single_flight(st: SlotState, ss: Seq<SessionState>)
    requires
        ss.len() > 0,
    ensures
        installed_all(st, ss).current == Some(ss.last()),
        slot_paused(installed_all(st, ss)) == ss.last().paused,
        evicted_from(st) == match st.current {
            Some(s) => Some(SessionState { stopped: true, ..s }),
            None => None::<SessionState>,
        },
        forall|i: int|
            1 <= i < ss.len() ==> evicted_from(#[trigger] installed_all(st, ss.take(i)))
                == Some(SessionState { stopped: true, ..ss[i - 1] }),
{
    lemma_last_install_wins(st, ss);
    assert forall|i: int|
        1 <= i < ss.len() implies evicted_from(#[trigger] installed_all(st, ss.take(i)))
            == Some(SessionState { stopped: true, ..ss[i - 1] }) by {
        lemma_last_install_wins(st, ss.take(i));
    }
}

} // verus!
