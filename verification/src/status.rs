//! The status of a session from all the lines of its rollout file.

use crate::clock;
use crate::clock::UnixTime;
use crate::rollout::RolloutLine;
use crate::session;
use crate::session::{ActiveSession, SessionReport, SessionReportView};
use crate::tracker;
use crate::tracker::{RolloutStatusTracker, TrackerView};
use vstd::prelude::*;

verus! {

/// What the lines of a rollout file say of its session. A line that could not
/// be read is `None`.
pub open spec fn told_by(
    path: Seq<char>,
    lines: Seq<Option<RolloutLine>>,
    modified: Option<int>,
    active_window_seconds: nat,
) -> TrackerView {
    TrackerView::fresh(path, modified, active_window_seconds).after_lines(lines)
}

/// The characters of an optional report.
pub open spec fn report_of(report: Option<SessionReport>) -> Option<SessionReportView> {
    match report {
        Some(r) => Some(r@),
        None => None,
    }
}

/// The report on what the lines say, at the time `now`: none unless the session
/// counts as active.
pub open spec fn reported(
    told: TrackerView,
    now: int,
    working_window_seconds: nat,
) -> Option<SessionReportView> {
    match told.outcome(now) {
        Some(s) => Some(session::report_on(s, told.modified, now, working_window_seconds)),
        None => None,
    }
}

/// An optional report is known by whether it is there and by what it says.
pub proof fn report_of_tells_all(report: Option<SessionReport>)
    ensures
        report_of(report) is Some <==> report is Some,
        report matches Some(r) ==> report_of(report) == Some(r@),
{
}

/// There is a report exactly on the sessions that count as active, and it is on
/// the very session that counts.
pub proof fn reported_exactly_if_active(told: TrackerView, now: int, working_window_seconds: nat)
    ensures
        reported(told, now, working_window_seconds) is Some <==> told.outcome(now) is Some,
        reported(told, now, working_window_seconds) matches Some(report) ==> told.outcome(now)
            == Some(report.session),
{
}

/// Feeds all lines that could be read to a fresh tracker, in order.
fn track(
    path: &str,
    lines: Vec<Option<RolloutLine>>,
    modified: Option<UnixTime>,
    active_window_seconds: u64,
) -> (tracker: RolloutStatusTracker)
    ensures
        tracker@ == told_by(
            path@,
            lines@,
            clock::nanos_of(modified),
            active_window_seconds as nat,
        ),
{
    let mut tracker = RolloutStatusTracker::new(path, modified, active_window_seconds);
    let ghost fresh = tracker@;
    let ghost all = lines@;
    for line in it: lines
        invariant
            it.seq() == all,
            tracker@ == fresh.after_lines(all.take(it.index() as int)),
    {
        proof {
            let i = it.index() as int;
            assert(all.take(i + 1).drop_last() =~= all.take(i));
            assert(all.take(i + 1).last() == all[i]);
        }
        if let Some(entry) = line {
            tracker.apply_line(entry);
        }
    }
    proof {
        assert(all.take(all.len() as int) =~= all);
    }
    tracker
}

/// The session that the lines tell of, if a task is still running in it. How
/// recently the file was modified is left out of account.
pub fn status_from_lines(path: &str, lines: Vec<Option<RolloutLine>>) -> (session: Option<
    ActiveSession,
>)
    ensures
        ({
            let told = told_by(path@, lines@, None, 0);
            tracker::session_of(session) == if told.active {
                Some(told.session())
            } else {
                None
            }
        }),
        forall|now: int|
            tracker::session_of(session) == #[trigger] told_by(path@, lines@, None, 0).outcome(
                now,
            ),
        forall|now: int|
            session matches Some(s) ==> #[trigger] told_by(path@, lines@, None, 0).outcome(now)
                == Some(s@),
{
    proof {
        TrackerView::fresh(path@, None, 0).lines_keep_the_file(lines@);
    }
    status_from_lines_with_window(path, lines, None, 0)
}

/// The session that the lines tell of, if it counts as active now.
pub fn status_from_lines_with_window(
    path: &str,
    lines: Vec<Option<RolloutLine>>,
    modified: Option<UnixTime>,
    active_window_seconds: u64,
) -> (session: Option<ActiveSession>)
    ensures
        ({
            let told = told_by(
                path@,
                lines@,
                clock::nanos_of(modified),
                active_window_seconds as nat,
            );
            &&& exists|now: UnixTime|
                told.outcome(#[trigger] now@) == tracker::session_of(session)
            &&& session matches Some(s) ==> exists|now: UnixTime|
                told.outcome(#[trigger] now@) == Some(s@)
            &&& session is None ==> exists|now: UnixTime| told.outcome(#[trigger] now@) is None
            &&& told.active ==> tracker::session_of(session) == Some(told.session())
            &&& !told.active && told.saw_completion ==> session is None
            &&& !told.active && modified is None ==> session is None
        }),
{
    proof {
        TrackerView::fresh(
            path@,
            clock::nanos_of(modified),
            active_window_seconds as nat,
        ).lines_keep_the_file(lines@);
    }
    let tracker = track(path, lines, modified, active_window_seconds);
    tracker.finish()
}

/// The session that the lines tell of, if it counts as active at the time `now`.
pub fn status_from_lines_at(
    path: &str,
    lines: Vec<Option<RolloutLine>>,
    modified: Option<UnixTime>,
    active_window_seconds: u64,
    now: UnixTime,
) -> (session: Option<ActiveSession>)
    ensures
        tracker::session_of(session) == told_by(
            path@,
            lines@,
            clock::nanos_of(modified),
            active_window_seconds as nat,
        ).outcome(now@),
        ({
            let outcome = told_by(
                path@,
                lines@,
                clock::nanos_of(modified),
                active_window_seconds as nat,
            ).outcome(now@);
            &&& session is Some <==> outcome is Some
            &&& session matches Some(s) ==> outcome == Some(s@)
        }),
{
    let tracker = track(path, lines, modified, active_window_seconds);
    tracker.finish_at(now)
}

/// The report on the session that the lines tell of, at the time `now`.
pub fn report_from_lines_at(
    path: &str,
    lines: Vec<Option<RolloutLine>>,
    modified: Option<UnixTime>,
    active_window_seconds: u64,
    working_window_seconds: u64,
    now: UnixTime,
) -> (report: Option<SessionReport>)
    ensures
        report_of(report) == reported(
            told_by(path@, lines@, clock::nanos_of(modified), active_window_seconds as nat),
            now@,
            working_window_seconds as nat,
        ),
        ({
            let outcome = told_by(
                path@,
                lines@,
                clock::nanos_of(modified),
                active_window_seconds as nat,
            ).outcome(now@);
            &&& report is Some <==> outcome is Some
            &&& report matches Some(r) ==> {
                &&& outcome == Some(r.session@)
                &&& r.last_modified_ms is Some <==> modified is Some
                &&& modified matches Some(m) ==> (r.last_modified_ms matches Some(ms) && ms
                    * 1_000_000 <= m.nanos < (ms + 1) * 1_000_000)
                &&& r.status is Working <==> (modified matches Some(m) && m.nanos <= now.nanos
                    && now.nanos - m.nanos <= working_window_seconds * 1_000_000_000)
            }
        }),
{
    proof {
        TrackerView::fresh(
            path@,
            clock::nanos_of(modified),
            active_window_seconds as nat,
        ).lines_keep_the_file(lines@);
    }
    match status_from_lines_at(path, lines, modified, active_window_seconds, now) {
        Some(session) => Some(session.report(modified, now, working_window_seconds)),
        None => None,
    }
}

/// The report on the session that the lines tell of, now.
pub fn report_from_lines(
    path: &str,
    lines: Vec<Option<RolloutLine>>,
    modified: Option<UnixTime>,
    active_window_seconds: u64,
    working_window_seconds: u64,
) -> (report: Option<SessionReport>)
    ensures
        ({
            let told = told_by(
                path@,
                lines@,
                clock::nanos_of(modified),
                active_window_seconds as nat,
            );
            &&& exists|now: UnixTime|
                reported(told, #[trigger] now@, working_window_seconds as nat) == report_of(report)
            &&& report matches Some(r) ==> exists|now: UnixTime| {
                &&& told.outcome(#[trigger] now@) == Some(r.session@)
                &&& r.status is Working <==> (modified matches Some(m) && m.nanos <= now.nanos
                    && now.nanos - m.nanos <= working_window_seconds * 1_000_000_000)
            }
            &&& report is None ==> exists|now: UnixTime| told.outcome(#[trigger] now@) is None
            &&& told.active ==> (report matches Some(r) && r@.session == told.session())
            &&& !told.active && told.saw_completion ==> report is None
            &&& !told.active && modified is None ==> report is None
        }),
{
    let now = UnixTime::from_epoch_distance(clock::system_clock());
    let ghost told = told_by(
        path@,
        lines@,
        clock::nanos_of(modified),
        active_window_seconds as nat,
    );
    let report = report_from_lines_at(
        path,
        lines,
        modified,
        active_window_seconds,
        working_window_seconds,
        now,
    );
    proof {
        TrackerView::fresh(
            path@,
            clock::nanos_of(modified),
            active_window_seconds as nat,
        ).lines_keep_the_file(lines@);
        assert(told.outcome(now@) is Some <==> report is Some);
    }
    report
}

} // verus!
