//! A scan over all sessions: page by page, rollout by rollout.
//!
//! Listing sessions and reading rollouts is done by the caller. A `Scan` says
//! what to do next, takes in what came of it, and ends with a snapshot.

use crate::order;
use crate::session;
use crate::session::{SessionReport, SessionReportView, SessionSnapshot};
use crate::status;
use vstd::prelude::*;
use vstd::string::*;

verus! {

/// How many sessions are listed at a time.
pub const PAGE_SIZE: usize = 200;

/// A scan in progress, over rollouts at places of type `P`, in a listing that
/// goes on from cursors of type `C`.
#[derive(Debug)]
pub struct Scan<P, C> {
    collected: Vec<SessionReport>,
    pending: Vec<P>,
    cursor: Option<C>,
}

/// A scan by its contents.
#[verifier::ext_equal]
pub struct ScanView<P, C> {
    /// The reports so far, in the order in which the rollouts were read.
    pub collected: Seq<SessionReportView>,
    /// The rollouts of this page that are still to be read.
    pub pending: Seq<P>,
    /// Where the listing goes on after this page.
    pub cursor: Option<C>,
}

/// What came of the last thing to do.
#[derive(Debug)]
pub enum ScanEvent<P, C, E> {
    /// A page was listed; without a next cursor it is the last one.
    Listed { paths: Vec<P>, next_cursor: Option<C> },
    /// The listing failed.
    ListFailed(E),
    /// A rollout was read; its session is active only if there is a report.
    Read(Option<SessionReport>),
    /// The rollout shown as `path` could not be read.
    ReadFailed { path: String, error: E },
}

/// Why a scan failed.
#[derive(Debug)]
pub enum ScanError<E> {
    List(E),
    Read { path: String, error: E },
}

impl<E> ScanError<E> {
    /// The words for an error.
    pub open spec fn words(self) -> Seq<char> {
        match self {
            ScanError::List(_) => "failed to list conversations"@,
            ScanError::Read { path, .. } => "failed to read rollout "@ + path@,
        }
    }

    /// Says what failed; why it failed, the error inside says itself.
    pub fn message(&self) -> (message: String)
        ensures
            message@ == self.words(),
            self is List ==> message@ == "failed to list conversations"@,
            self matches ScanError::Read { path, .. } ==> message@ == "failed to read rollout "@
                + path@,
    {
        match self {
            ScanError::List(_) => "failed to list conversations".to_string(),
            ScanError::Read { path, .. } => {
                let mut message = "failed to read rollout ".to_string();
                message.append(path.as_str());
                message
            },
        }
    }
}

/// What is to be done next.
#[derive(Debug)]
pub enum ScanStep<P, C, E> {
    /// List the page at the cursor, or the first page if there is none.
    List { scan: Scan<P, C>, cursor: Option<C> },
    /// Read the rollout at the path.
    Read { scan: Scan<P, C>, path: P },
    /// Nothing: this is the snapshot.
    Done(SessionSnapshot),
    /// Nothing: the scan failed.
    Failed(ScanError<E>),
}

impl<P, C> View for Scan<P, C> {
    type V = ScanView<P, C>;

    closed spec fn view(&self) -> ScanView<P, C> {
        ScanView {
            collected: session::reports_of(self.collected@),
            pending: self.pending@,
            cursor: self.cursor,
        }
    }
}

impl<P, C> ScanView<P, C> {
    /// A scan that has listed nothing yet.
    pub open spec fn fresh() -> ScanView<P, C> {
        ScanView { collected: Seq::empty(), pending: Seq::empty(), cursor: None }
    }

    /// With one more page listed.
    pub open spec fn listed(self, paths: Seq<P>, next_cursor: Option<C>) -> ScanView<P, C> {
        ScanView { pending: self.pending + paths, cursor: next_cursor, ..self }
    }

    /// With one more rollout read. A session that is not active is left out.
    pub open spec fn read(self, report: Option<SessionReportView>) -> ScanView<P, C> {
        match report {
            Some(r) => ScanView { collected: self.collected.push(r), ..self },
            None => self,
        }
    }

    /// Without the rollout that is read next.
    pub open spec fn reading_next(self) -> ScanView<P, C> {
        ScanView { pending: self.pending.drop_first(), ..self }
    }

    /// Without the cursor at which the listing goes on.
    pub open spec fn listing_next(self) -> ScanView<P, C> {
        ScanView { cursor: None, ..self }
    }
}

impl<P, C, E> ScanStep<P, C, E> {
    /// The step that follows from a scan: read what is pending, in order; then
    /// list on while there is a cursor; then arrange what was collected.
    pub open spec fn follows(self, scan: ScanView<P, C>) -> bool {
        if scan.pending.len() > 0 {
            self matches ScanStep::Read { scan: next, path } && path == scan.pending[0] && next@
                == scan.reading_next()
        } else if scan.cursor is Some {
            self matches ScanStep::List { scan: next, cursor } && cursor == scan.cursor && next@
                == scan.listing_next()
        } else {
            self matches ScanStep::Done(snapshot) && order::arranges(snapshot@, scan.collected)
        }
    }
}

impl<P, C> Scan<P, C> {
    /// Starts a scan, with the listing of the first page.
    pub fn start<E>() -> (step: ScanStep<P, C, E>)
        ensures
            step matches ScanStep::List { scan, cursor } && cursor is None && scan@
                == ScanView::<P, C>::fresh(),
    {
        let scan = Scan { collected: Vec::new(), pending: Vec::new(), cursor: None };
        assert(scan@ =~= ScanView::<P, C>::fresh());
        ScanStep::List { scan, cursor: None }
    }

    /// Takes in what came of the last thing to do, and says what is next. A
    /// failure ends the scan.
    pub fn step<E>(self, event: ScanEvent<P, C, E>) -> (step: ScanStep<P, C, E>)
        ensures
            match event {
                ScanEvent::Listed { paths, next_cursor } => step.follows(
                    self@.listed(paths@, next_cursor),
                ),
                ScanEvent::Read(report) => {
                    &&& step.follows(self@.read(status::report_of(report)))
                    &&& report matches Some(r) ==> step.follows(self@.read(Some(r@)))
                    &&& report is None ==> step.follows(self@.read(None))
                },
                ScanEvent::ListFailed(error) => step == ScanStep::<P, C, E>::Failed(
                    ScanError::List(error),
                ),
                ScanEvent::ReadFailed { path, error } => step == ScanStep::<P, C, E>::Failed(
                    ScanError::Read { path, error },
                ),
            },
    {
        let mut scan = self;
        match event {
            ScanEvent::Listed { paths, next_cursor } => {
                let mut paths = paths;
                scan.pending.append(&mut paths);
                scan.cursor = next_cursor;
                scan.next()
            },
            ScanEvent::Read(report) => {
                if let Some(report) = report {
                    proof {
                        assert(session::reports_of(scan.collected@.push(report))
                            =~= session::reports_of(scan.collected@).push(report@));
                    }
                    scan.collected.push(report);
                }
                scan.next()
            },
            ScanEvent::ListFailed(error) => ScanStep::Failed(ScanError::List(error)),
            ScanEvent::ReadFailed { path, error } => ScanStep::Failed(
                ScanError::Read { path, error },
            ),
        }
    }

    /// The step that follows from here.
    fn next<E>(self) -> (step: ScanStep<P, C, E>)
        ensures
            step.follows(self@),
    {
        let mut scan = self;
        if scan.pending.len() > 0 {
            let path = scan.pending.remove(0);
            assert(scan.pending@ =~= self.pending@.drop_first());
            ScanStep::Read { scan, path }
        } else {
            let cursor = scan.cursor.take();
            if cursor.is_some() {
                ScanStep::List { scan, cursor }
            } else {
                ScanStep::Done(
                    SessionSnapshot { sessions: order::sort_newest_first(scan.collected) },
                )
            }
        }
    }
}

/// The reports on the active ones among the rollouts at the given places.
pub open spec fn active_among<P>(
    paths: Seq<P>,
    status: spec_fn(P) -> Option<SessionReportView>,
) -> Seq<SessionReportView>
    decreases paths.len(),
{
    if paths.len() == 0 {
        Seq::empty()
    } else {
        let rest = active_among(paths.drop_first(), status);
        match status(paths[0]) {
            Some(r) => seq![r] + rest,
            None => rest,
        }
    }
}

/// The rollouts of all pages, in order.
pub open spec fn all_paths<P, C>(pages: Seq<(Seq<P>, Option<C>)>) -> Seq<P>
    decreases pages.len(),
{
    if pages.len() == 0 {
        Seq::empty()
    } else {
        pages[0].0 + all_paths(pages.drop_first())
    }
}

/// What a scan has collected when it is done, if the listing goes on with the
/// given pages and every rollout has the given status.
pub open spec fn collected_by<P, C>(
    scan: ScanView<P, C>,
    pages: Seq<(Seq<P>, Option<C>)>,
    status: spec_fn(P) -> Option<SessionReportView>,
) -> Seq<SessionReportView>
    decreases pages.len(), scan.pending.len(),
{
    if scan.pending.len() > 0 {
        collected_by(scan.reading_next().read(status(scan.pending[0])), pages, status)
    } else if scan.cursor is Some && pages.len() > 0 {
        collected_by(
            scan.listing_next().listed(pages[0].0, pages[0].1),
            pages.drop_first(),
            status,
        )
    } else {
        scan.collected
    }
}

/// A listing that goes on from the given cursor: every page but the last says
/// where the next one is, and the last one does not.
pub open spec fn is_listing<P, C>(cursor: Option<C>, pages: Seq<(Seq<P>, Option<C>)>) -> bool
    decreases pages.len(),
{
    (cursor is Some <==> pages.len() > 0) && (pages.len() > 0 ==> is_listing(
        pages[0].1,
        pages.drop_first(),
    ))
}

/// From any point on, a scan adds the active ones among what is still pending
/// and still to be listed, in that order.
proof fn scan_adds_active_sessions<P, C>(
    scan: ScanView<P, C>,
    pages: Seq<(Seq<P>, Option<C>)>,
    status: spec_fn(P) -> Option<SessionReportView>,
)
    requires
        is_listing(scan.cursor, pages),
    ensures
        collected_by(scan, pages, status) == scan.collected + active_among(
            scan.pending + all_paths(pages),
            status,
        ),
    decreases pages.len(), scan.pending.len(),
{
    let left = scan.pending + all_paths(pages);
    if scan.pending.len() > 0 {
        let next = scan.reading_next().read(status(scan.pending[0]));
        scan_adds_active_sessions(next, pages, status);
        assert(left.drop_first() =~= next.pending + all_paths(pages));
        assert(left[0] == scan.pending[0]);
        assert(next.collected + active_among(left.drop_first(), status) =~= scan.collected
            + active_among(left, status));
    } else if pages.len() > 0 {
        let next = scan.listing_next().listed(pages[0].0, pages[0].1);
        scan_adds_active_sessions(next, pages.drop_first(), status);
        assert(next.pending + all_paths(pages.drop_first()) =~= left);
    } else {
        assert(left =~= Seq::empty());
        assert(scan.collected + active_among(left, status) =~= scan.collected);
    }
}

/// A scan over a whole listing collects exactly the active sessions: the reports
/// on all rollouts of all pages that have one, in the order of the listing.
pub proof fn scan_reports_active_sessions<P, C>(
    pages: Seq<(Seq<P>, Option<C>)>,
    status: spec_fn(P) -> Option<SessionReportView>,
)
    requires
        pages.len() > 0,
        is_listing(pages[0].1, pages.drop_first()),
    ensures
        collected_by(
            ScanView::fresh().listed(pages[0].0, pages[0].1),
            pages.drop_first(),
            status,
        ) == active_among(all_paths(pages), status),
{
    let scan = ScanView::<P, C>::fresh().listed(pages[0].0, pages[0].1);
    scan_adds_active_sessions(scan, pages.drop_first(), status);
    assert(scan.pending + all_paths(pages.drop_first()) =~= all_paths(pages));
    assert(Seq::empty() + active_among(all_paths(pages), status) =~= active_among(
        all_paths(pages),
        status,
    ));
}

/// Every step of a scan leads to the same end: done as it says, on the next page
/// and with the status of the rollout it names, what is collected in the end
/// stays the same, and the snapshot it ends with arranges just that. A scan over
/// a whole listing never fails by itself, and lists no page too many or too few.
pub proof fn every_step_leads_to_the_same_snapshot<P, C, E>(
    step: ScanStep<P, C, E>,
    scan: ScanView<P, C>,
    pages: Seq<(Seq<P>, Option<C>)>,
    status: spec_fn(P) -> Option<SessionReportView>,
)
    requires
        is_listing(scan.cursor, pages),
        step.follows(scan),
    ensures
        match step {
            ScanStep::Read { scan: next, path } => {
                &&& is_listing(next@.cursor, pages)
                &&& collected_by(next@.read(status(path)), pages, status) == collected_by(
                    scan,
                    pages,
                    status,
                )
            },
            ScanStep::List { scan: next, cursor } => {
                &&& pages.len() > 0
                &&& is_listing(pages[0].1, pages.drop_first())
                &&& collected_by(
                    next@.listed(pages[0].0, pages[0].1),
                    pages.drop_first(),
                    status,
                ) == collected_by(scan, pages, status)
            },
            ScanStep::Done(snapshot) => {
                &&& pages.len() == 0
                &&& order::arranges(snapshot@, collected_by(scan, pages, status))
            },
            ScanStep::Failed(_) => false,
        },
{
}

/// How the listing is cut into pages makes no difference to what is reported.
pub proof fn paging_does_not_matter<P, C>(
    pages: Seq<(Seq<P>, Option<C>)>,
    others: Seq<(Seq<P>, Option<C>)>,
    status: spec_fn(P) -> Option<SessionReportView>,
)
    requires
        pages.len() > 0,
        is_listing(pages[0].1, pages.drop_first()),
        others.len() > 0,
        is_listing(others[0].1, others.drop_first()),
        all_paths(pages) == all_paths(others),
    ensures
        collected_by(
            ScanView::fresh().listed(pages[0].0, pages[0].1),
            pages.drop_first(),
            status,
        ) == collected_by(
            ScanView::fresh().listed(others[0].0, others[0].1),
            others.drop_first(),
            status,
        ),
{
    scan_reports_active_sessions(pages, status);
    scan_reports_active_sessions(others, status);
}

/// A snapshot holds a report exactly if it is the report on one of the rollouts.
pub proof fn snapshot_holds_only_active<P>(
    snapshot: Seq<SessionReportView>,
    paths: Seq<P>,
    status: spec_fn(P) -> Option<SessionReportView>,
    report: SessionReportView,
)
    requires
        order::arranges(snapshot, active_among(paths, status)),
    ensures
        snapshot.contains(report) <==> exists|i: int|
            0 <= i < paths.len() && status(#[trigger] paths[i]) == Some(report),
{
    order::arrangement_keeps_reports(snapshot, active_among(paths, status), report);
    active_among_contains(paths, status, report);
}

/// When no session is active, the snapshot is empty.
pub proof fn snapshot_empty_without_active<P>(
    snapshot: Seq<SessionReportView>,
    paths: Seq<P>,
    status: spec_fn(P) -> Option<SessionReportView>,
)
    requires
        order::arranges(snapshot, active_among(paths, status)),
        forall|i: int| 0 <= i < paths.len() ==> status(#[trigger] paths[i]) is None,
    ensures
        snapshot == Seq::<SessionReportView>::empty(),
{
    if snapshot.len() > 0 {
        assert(snapshot.contains(snapshot[0]));
        snapshot_holds_only_active(snapshot, paths, status, snapshot[0]);
    }
    assert(snapshot =~= Seq::empty());
}

/// The active ones are the reports on the rollouts.
proof fn active_among_contains<P>(
    paths: Seq<P>,
    status: spec_fn(P) -> Option<SessionReportView>,
    report: SessionReportView,
)
    ensures
        active_among(paths, status).contains(report) <==> exists|i: int|
            0 <= i < paths.len() && status(#[trigger] paths[i]) == Some(report),
    decreases paths.len(),
{
    if paths.len() > 0 {
        let rest = paths.drop_first();
        active_among_contains(rest, status, report);
        let found = active_among(paths, status);
        let later = active_among(rest, status);
        let skipped: int = if status(paths[0]) is Some { 1 } else { 0 };
        if found.contains(report) {
            let k = choose|k: int| 0 <= k < found.len() && found[k] == report;
            if k >= skipped {
                assert(later[k - skipped] == report);
                assert(later.contains(report));
                let i = choose|i: int| 0 <= i < rest.len() && status(#[trigger] rest[i]) == Some(report);
                assert(paths[i + 1] == rest[i]);
            } else {
                assert(status(paths[0]) == Some(report));
            }
        }
        if exists|i: int| 0 <= i < paths.len() && status(#[trigger] paths[i]) == Some(report) {
            let i = choose|i: int|
                0 <= i < paths.len() && status(#[trigger] paths[i]) == Some(report);
            if i == 0 {
                assert(found[0] == report);
            } else {
                assert(rest[i - 1] == paths[i]);
                let k = choose|k: int| 0 <= k < later.len() && later[k] == report;
                assert(found[k + skipped] == report);
            }
        }
    }
}

} // verus!
