//! When a snapshot is published: whenever it differs from the last one.

use crate::session::{SessionReportView, SessionSnapshot};
use vstd::prelude::*;

verus! {

/// A snapshot by its reports, if there is one.
pub open spec fn snapshot_of(snapshot: Option<SessionSnapshot>) -> Option<Seq<SessionReportView>> {
    match snapshot {
        Some(s) => Some(s@),
        None => None,
    }
}

/// An optional snapshot is known by whether it is there and by its reports.
pub proof fn snapshot_of_tells_all(snapshot: Option<SessionSnapshot>)
    ensures
        snapshot_of(snapshot) is Some <==> snapshot is Some,
        snapshot matches Some(s) ==> snapshot_of(snapshot) == Some(s@),
{
}

/// What is to be done after a scan.
#[derive(Debug)]
pub enum PublishAction<E> {
    /// Publish this snapshot.
    Publish(SessionSnapshot),
    /// Nothing has changed, so nothing is published.
    Keep,
    /// The scan failed with this error, which is to be told.
    Complain(E),
}

impl<E> PublishAction<E> {
    /// What the action publishes.
    pub open spec fn sent(self) -> Seq<Seq<SessionReportView>> {
        match self {
            PublishAction::Publish(snapshot) => seq![snapshot@],
            _ => Seq::empty(),
        }
    }
}

/// A scan by the reports it came to, `None` if it failed.
pub open spec fn scan_of<E>(outcome: Result<SessionSnapshot, E>) -> Option<
    Seq<SessionReportView>,
> {
    match outcome {
        Ok(snapshot) => Some(snapshot@),
        Err(_) => None,
    }
}

/// Remembers the last snapshot that was published.
#[derive(Debug)]
pub struct Publisher {
    last: Option<SessionSnapshot>,
}

impl View for Publisher {
    type V = Option<Seq<SessionReportView>>;

    closed spec fn view(&self) -> Option<Seq<SessionReportView>> {
        snapshot_of(self.last)
    }
}

impl Publisher {
    /// A publisher that has published nothing yet.
    pub fn new() -> (publisher: Publisher)
        ensures
            publisher@ is None,
    {
        Publisher { last: None }
    }

    /// Takes in the outcome of a scan. A snapshot is published exactly if it
    /// differs from the last one, and is the last one from then on. A failed
    /// scan changes nothing. So scan after scan, what is sent is `published`, and
    /// what is remembered is `last_after`.
    pub fn on_scan<E>(&mut self, outcome: Result<SessionSnapshot, E>) -> (action: PublishAction<E>)
        ensures
            match outcome {
                Ok(snapshot) => {
                    &&& final(self)@ == Some(snapshot@)
                    &&& old(self)@ == Some(snapshot@) ==> action is Keep
                    &&& old(self)@ != Some(snapshot@) ==> action == PublishAction::<E>::Publish(
                        snapshot,
                    )
                },
                Err(error) => {
                    &&& final(self)@ == old(self)@
                    &&& action == PublishAction::<E>::Complain(error)
                },
            },
            forall|rest: Seq<Option<Seq<SessionReportView>>>| #[trigger]
                published(old(self)@, seq![scan_of(outcome)] + rest) == action.sent() + published(
                    final(self)@,
                    rest,
                ),
            forall|rest: Seq<Option<Seq<SessionReportView>>>| #[trigger]
                last_after(old(self)@, seq![scan_of(outcome)] + rest) == last_after(
                    final(self)@,
                    rest,
                ),
    {
        proof {
            assert forall|rest: Seq<Option<Seq<SessionReportView>>>| #[trigger]
                (seq![scan_of(outcome)] + rest).drop_first() == rest by {
                assert((seq![scan_of(outcome)] + rest).drop_first() =~= rest);
            }
            assert forall|sent: Seq<Seq<SessionReportView>>| #[trigger]
                (Seq::empty() + sent) == sent by {
                assert(Seq::empty() + sent =~= sent);
            }
        }
        match outcome {
            Ok(snapshot) => {
                let changed = match &self.last {
                    Some(last) => !last.same(&snapshot),
                    None => true,
                };
                if changed {
                    self.last = Some(snapshot.copy());
                    PublishAction::Publish(snapshot)
                } else {
                    PublishAction::Keep
                }
            },
            Err(error) => PublishAction::Complain(error),
        }
    }
}

/// The snapshots that are published for a row of scans, of which `None` failed.
pub open spec fn published(
    last: Option<Seq<SessionReportView>>,
    scans: Seq<Option<Seq<SessionReportView>>>,
) -> Seq<Seq<SessionReportView>>
    decreases scans.len(),
{
    if scans.len() == 0 {
        Seq::empty()
    } else {
        match scans[0] {
            Some(snapshot) => if last == Some(snapshot) {
                published(last, scans.drop_first())
            } else {
                seq![snapshot] + published(Some(snapshot), scans.drop_first())
            },
            None => published(last, scans.drop_first()),
        }
    }
}

/// The last snapshot after a row of scans.
pub open spec fn last_after(
    last: Option<Seq<SessionReportView>>,
    scans: Seq<Option<Seq<SessionReportView>>>,
) -> Option<Seq<SessionReportView>>
    decreases scans.len(),
{
    if scans.len() == 0 {
        last
    } else {
        match scans[0] {
            Some(snapshot) => last_after(Some(snapshot), scans.drop_first()),
            None => last_after(last, scans.drop_first()),
        }
    }
}

/// No snapshot is published twice in a row, nor is the one published before.
pub proof fn never_published_twice_in_a_row(
    last: Option<Seq<SessionReportView>>,
    scans: Seq<Option<Seq<SessionReportView>>>,
)
    ensures
        published(last, scans).len() > 0 ==> Some(published(last, scans)[0]) != last,
        forall|i: int|
            0 < i < published(last, scans).len() ==> #[trigger] published(last, scans)[i]
                != published(last, scans)[i - 1],
    decreases scans.len(),
{
    if scans.len() > 0 {
        let rest = scans.drop_first();
        match scans[0] {
            Some(snapshot) => {
                if last == Some(snapshot) {
                    never_published_twice_in_a_row(last, rest);
                } else {
                    never_published_twice_in_a_row(Some(snapshot), rest);
                    let later = published(Some(snapshot), rest);
                    let all = published(last, scans);
                    assert forall|i: int| 0 < i < all.len() implies #[trigger] all[i] != all[i
                        - 1] by {
                        assert(all[i] == later[i - 1]);
                        if i > 1 {
                            assert(all[i - 1] == later[i - 2]);
                        }
                    }
                }
            },
            None => {
                never_published_twice_in_a_row(last, rest);
            },
        }
    }
}

/// Whoever keeps the newest published snapshot has the newest one there is.
pub proof fn newest_is_published(
    last: Option<Seq<SessionReportView>>,
    scans: Seq<Option<Seq<SessionReportView>>>,
)
    ensures
        last_after(last, scans) == if published(last, scans).len() > 0 {
            Some(published(last, scans).last())
        } else {
            last
        },
    decreases scans.len(),
{
    if scans.len() > 0 {
        let rest = scans.drop_first();
        match scans[0] {
            Some(snapshot) => {
                newest_is_published(Some(snapshot), rest);
            },
            None => {
                newest_is_published(last, rest);
            },
        }
    }
}

} // verus!
