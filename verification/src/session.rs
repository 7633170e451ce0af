//! What the monitor reports: active sessions, reports on them, snapshots.

use crate::clock;
use crate::clock::UnixTime;
use crate::text;
use vstd::prelude::*;

verus! {

/// A session that is considered active.
#[derive(Debug, Clone, PartialEq, Eq)]
pub struct ActiveSession {
    pub session_id: String,
    pub thread_id: Option<String>,
    pub turn_id: Option<String>,
    pub cwd: Option<String>,
    pub last_response: Option<String>,
    pub updated_at: Option<String>,
    pub rollout_path: String,
}

/// An active session by its characters.
#[verifier::ext_equal]
pub struct ActiveSessionView {
    pub session_id: Seq<char>,
    pub thread_id: Option<Seq<char>>,
    pub turn_id: Option<Seq<char>>,
    pub cwd: Option<Seq<char>>,
    pub last_response: Option<Seq<char>>,
    pub updated_at: Option<Seq<char>>,
    pub rollout_path: Seq<char>,
}

impl View for ActiveSession {
    type V = ActiveSessionView;

    open spec fn view(&self) -> ActiveSessionView {
        ActiveSessionView {
            session_id: self.session_id@,
            thread_id: text::chars_of(self.thread_id),
            turn_id: text::chars_of(self.turn_id),
            cwd: text::chars_of(self.cwd),
            last_response: text::chars_of(self.last_response),
            updated_at: text::chars_of(self.updated_at),
            rollout_path: self.rollout_path@,
        }
    }
}

/// Whether an active session is being worked in right now.
#[derive(Debug, Clone, Copy, PartialEq, Eq, Structural)]
pub enum SessionStatus {
    /// Its rollout was modified within the working window.
    Working,
    /// It is active, but nothing was written recently.
    Idle,
}

impl SessionStatus {
    /// The word for a status.
    pub open spec fn word(self) -> Seq<char> {
        match self {
            SessionStatus::Working => "working"@,
            SessionStatus::Idle => "idle"@,
        }
    }

    /// The word that stands for the status in a report.
    pub fn name(self) -> (name: String)
        ensures
            name@ == self.word(),
            self is Working ==> name@ == "working"@,
            self is Idle ==> name@ == "idle"@,
    {
        match self {
            SessionStatus::Working => "working".to_string(),
            SessionStatus::Idle => "idle".to_string(),
        }
    }
}

/// An active session with the recency of its rollout file.
#[derive(Debug, Clone, PartialEq, Eq)]
pub struct SessionReport {
    pub session: ActiveSession,
    /// When the rollout file was modified, in Unix milliseconds.
    pub last_modified_ms: Option<i128>,
    pub status: SessionStatus,
}

/// A report by its characters and numbers.
#[verifier::ext_equal]
pub struct SessionReportView {
    pub session: ActiveSessionView,
    pub last_modified_ms: Option<int>,
    pub status: SessionStatus,
}

/// An optional number of milliseconds.
pub open spec fn millis_of(ms: Option<i128>) -> Option<int> {
    match ms {
        Some(m) => Some(m as int),
        None => None,
    }
}

impl View for SessionReport {
    type V = SessionReportView;

    open spec fn view(&self) -> SessionReportView {
        SessionReportView {
            session: self.session@,
            last_modified_ms: millis_of(self.last_modified_ms),
            status: self.status,
        }
    }
}

/// All active sessions at one scan.
#[derive(Debug, Clone, PartialEq, Eq)]
pub struct SessionSnapshot {
    pub sessions: Vec<SessionReport>,
}

/// Reports by their characters and numbers.
pub open spec fn reports_of(sessions: Seq<SessionReport>) -> Seq<SessionReportView> {
    sessions.map_values(|r: SessionReport| r@)
}

impl View for SessionSnapshot {
    type V = Seq<SessionReportView>;

    open spec fn view(&self) -> Seq<SessionReportView> {
        reports_of(self.sessions@)
    }
}

/// Two sessions look alike exactly if all their fields hold the same characters.
pub proof fn session_view_tells_every_field(a: ActiveSession, b: ActiveSession)
    ensures
        a@ == b@ <==> {
            &&& a.session_id@ == b.session_id@
            &&& text::chars_of(a.thread_id) == text::chars_of(b.thread_id)
            &&& text::chars_of(a.turn_id) == text::chars_of(b.turn_id)
            &&& text::chars_of(a.cwd) == text::chars_of(b.cwd)
            &&& text::chars_of(a.last_response) == text::chars_of(b.last_response)
            &&& text::chars_of(a.updated_at) == text::chars_of(b.updated_at)
            &&& a.rollout_path@ == b.rollout_path@
        },
        a@.session_id == a.session_id@,
        a@.rollout_path == a.rollout_path@,
        a@.thread_id is Some <==> a.thread_id is Some,
        a.thread_id matches Some(t) ==> a@.thread_id == Some(t@),
        a@.turn_id is Some <==> a.turn_id is Some,
        a.turn_id matches Some(t) ==> a@.turn_id == Some(t@),
        a@.cwd is Some <==> a.cwd is Some,
        a.cwd matches Some(t) ==> a@.cwd == Some(t@),
        a@.last_response is Some <==> a.last_response is Some,
        a.last_response matches Some(t) ==> a@.last_response == Some(t@),
        a@.updated_at is Some <==> a.updated_at is Some,
        a.updated_at matches Some(t) ==> a@.updated_at == Some(t@),
{
}

/// Two reports look alike exactly if their sessions do and they agree in the rest.
pub proof fn report_view_tells_every_field(a: SessionReport, b: SessionReport)
    ensures
        a@ == b@ <==> {
            &&& a.session@ == b.session@
            &&& a.last_modified_ms == b.last_modified_ms
            &&& a.status == b.status
        },
        a@.session == a.session@,
        a@.status == a.status,
        a@.last_modified_ms is Some <==> a.last_modified_ms is Some,
        a.last_modified_ms matches Some(ms) ==> a@.last_modified_ms == Some(ms as int),
{
}

/// A snapshot is known by all its reports, in their order.
pub proof fn snapshot_view_tells_every_report(snapshot: SessionSnapshot)
    ensures
        snapshot@.len() == snapshot.sessions@.len(),
        forall|i: int|
            0 <= i < snapshot.sessions@.len() ==> #[trigger] snapshot@[i]
                == snapshot.sessions@[i]@,
{
}

/// The report on a session: working exactly if its rollout was modified within
/// the working window.
pub open spec fn report_on(
    session: ActiveSessionView,
    modified: Option<int>,
    now: int,
    working_window_seconds: nat,
) -> SessionReportView {
    SessionReportView {
        session,
        last_modified_ms: match modified {
            Some(m) => Some(m / clock::NANOS_PER_MILLI as int),
            None => None,
        },
        status: if clock::is_recent(modified, now, working_window_seconds) {
            SessionStatus::Working
        } else {
            SessionStatus::Idle
        },
    }
}

impl ActiveSession {
    /// Reports on the session at the time `now`.
    pub fn report(
        self,
        modified: Option<UnixTime>,
        now: UnixTime,
        working_window_seconds: u64,
    ) -> (report: SessionReport)
        ensures
            report@ == report_on(
                self@,
                clock::nanos_of(modified),
                now@,
                working_window_seconds as nat,
            ),
            report.session == self,
            report.last_modified_ms is Some <==> modified is Some,
            modified matches Some(m) ==> (report.last_modified_ms matches Some(ms) && ms * 1_000_000
                <= m.nanos < (ms + 1) * 1_000_000),
            report.status is Working <==> (modified matches Some(m) && m.nanos <= now.nanos
                && now.nanos - m.nanos <= working_window_seconds * 1_000_000_000),
    {
        let last_modified_ms: Option<i128> = match modified {
            Some(m) => Some(m.millis()),
            None => None,
        };
        let status = if clock::modified_within(modified, now, working_window_seconds) {
            SessionStatus::Working
        } else {
            SessionStatus::Idle
        };
        SessionReport { session: self, last_modified_ms, status }
    }

    /// Whether two sessions agree in every field.
    pub fn same(&self, other: &ActiveSession) -> (same: bool)
        ensures
            same == (self@ == other@),
    {
        self.session_id == other.session_id && text::same_text(&self.thread_id, &other.thread_id)
            && text::same_text(&self.turn_id, &other.turn_id) && text::same_text(
            &self.cwd,
            &other.cwd,
        ) && text::same_text(&self.last_response, &other.last_response) && text::same_text(
            &self.updated_at,
            &other.updated_at,
        ) && self.rollout_path == other.rollout_path
    }

    /// A copy of the session.
    pub fn copy(&self) -> (copy: ActiveSession)
        ensures
            copy@ == self@,
    {
        ActiveSession {
            session_id: self.session_id.clone(),
            thread_id: text::copy_text(&self.thread_id),
            turn_id: text::copy_text(&self.turn_id),
            cwd: text::copy_text(&self.cwd),
            last_response: text::copy_text(&self.last_response),
            updated_at: text::copy_text(&self.updated_at),
            rollout_path: self.rollout_path.clone(),
        }
    }
}

impl SessionReport {
    /// Whether two reports agree in every field.
    pub fn same(&self, other: &SessionReport) -> (same: bool)
        ensures
            same == (self@ == other@),
    {
        let same_time: bool = match (self.last_modified_ms, other.last_modified_ms) {
            (Some(a), Some(b)) => a == b,
            (None, None) => true,
            _ => false,
        };
        same_time && self.status == other.status && self.session.same(&other.session)
    }

    /// A copy of the report.
    pub fn copy(&self) -> (copy: SessionReport)
        ensures
            copy@ == self@,
    {
        SessionReport {
            session: self.session.copy(),
            last_modified_ms: self.last_modified_ms,
            status: self.status,
        }
    }
}

impl SessionSnapshot {
    /// The snapshot in which no session is active.
    pub fn empty() -> (snapshot: SessionSnapshot)
        ensures
            snapshot@ == Seq::<SessionReportView>::empty(),
    {
        let snapshot = SessionSnapshot { sessions: Vec::new() };
        assert(snapshot@ =~= Seq::<SessionReportView>::empty());
        snapshot
    }

    /// Whether two snapshots hold the same reports in the same order.
    pub fn same(&self, other: &SessionSnapshot) -> (same: bool)
        ensures
            same == (self@ == other@),
    {
        if self.sessions.len() != other.sessions.len() {
            assert(self@.len() != other@.len());
            return false;
        }
        let mut i: usize = 0;
        while i < self.sessions.len()
            invariant
                i <= self.sessions@.len(),
                self.sessions@.len() == other.sessions@.len(),
                forall|j: int| 0 <= j < i ==> self@[j] == other@[j],
            decreases self.sessions@.len() - i,
        {
            if !self.sessions[i].same(&other.sessions[i]) {
                assert(self@[i as int] != other@[i as int]);
                return false;
            }
            i = i + 1;
        }
        assert(self@ =~= other@);
        true
    }

    /// A copy of the snapshot.
    pub fn copy(&self) -> (copy: SessionSnapshot)
        ensures
            copy@ == self@,
    {
        let mut sessions: Vec<SessionReport> = Vec::new();
        let mut i: usize = 0;
        while i < self.sessions.len()
            invariant
                i <= self.sessions@.len(),
                sessions@.len() == i,
                forall|j: int| 0 <= j < i ==> (#[trigger] sessions@[j])@ == self@[j],
            decreases self.sessions@.len() - i,
        {
            sessions.push(self.sessions[i].copy());
            i = i + 1;
        }
        let copy = SessionSnapshot { sessions };
        assert(copy@ =~= self@);
        copy
    }
}

} // verus!
