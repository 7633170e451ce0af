//! The order of reports in a snapshot: the most recently updated first.

use crate::session;
use crate::session::{SessionReport, SessionReportView};
use crate::text;
use vstd::prelude::*;

verus! {

/// Whether one date is strictly newer than another. Dates are compared as
/// strings, and any date is newer than none.
pub open spec fn is_newer(a: Option<Seq<char>>, b: Option<Seq<char>>) -> bool {
    match (a, b) {
        (Some(x), Some(y)) => text::text_before(y, x),
        (Some(_), None) => true,
        (None, _) => false,
    }
}

/// The date that a report is ordered by.
pub open spec fn dated(report: SessionReportView) -> Option<Seq<char>> {
    report.session.updated_at
}

/// No report is newer than one that stands before it.
pub open spec fn newest_first(reports: Seq<SessionReportView>) -> bool {
    forall|i: int, j: int|
        0 <= i < j < reports.len() ==> !is_newer(
            dated(#[trigger] reports[j]),
            dated(#[trigger] reports[i]),
        )
}

/// The reports with the given date, in their order.
pub open spec fn with_date(reports: Seq<SessionReportView>, date: Option<Seq<char>>) -> Seq<
    SessionReportView,
> {
    reports.filter(|r: SessionReportView| dated(r) == date)
}

/// `ordered` holds the reports of `given`, newest first, and reports with the
/// same date stand in the order in which they were given.
pub open spec fn arranges(ordered: Seq<SessionReportView>, given: Seq<SessionReportView>) -> bool {
    &&& newest_first(ordered)
    &&& forall|date: Option<Seq<char>>| #[trigger]
        with_date(ordered, date) == with_date(given, date)
    &&& ordered.to_multiset() == given.to_multiset()
}

/// Dates are totally ordered.
pub proof fn is_newer_is_total_order(
    a: Option<Seq<char>>,
    b: Option<Seq<char>>,
    c: Option<Seq<char>>,
)
    ensures
        !is_newer(a, a),
        is_newer(a, b) && is_newer(b, c) ==> is_newer(a, c),
        a == b || is_newer(a, b) || is_newer(b, a),
{
    let empty = Seq::<char>::empty();
    let x = a.unwrap_or(empty);
    let y = b.unwrap_or(empty);
    let z = c.unwrap_or(empty);
    text::text_before_is_total_order(x, y, z);
    text::text_before_is_total_order(z, y, x);
}

/// Whether one date is strictly newer than another.
pub fn newer(a: &Option<String>, b: &Option<String>) -> (newer: bool)
    ensures
        newer == is_newer(text::chars_of(*a), text::chars_of(*b)),
        match (a, b) {
            (Some(x), Some(y)) => newer <==> exists|k: int| #[trigger]
                text::lower_first_at(
                    vstd::utf8::encode_utf8(y@),
                    vstd::utf8::encode_utf8(x@),
                    k,
                ),
            (Some(_), None) => newer,
            (None, _) => !newer,
        },
{
    match (a, b) {
        (Some(x), Some(y)) => text::comes_before(y.as_str(), x.as_str()),
        (Some(_), None) => true,
        (None, _) => false,
    }
}

/// A date is newer than another exactly if the bytes of the other come before its
/// own, and newer than none; none is newer than nothing.
pub proof fn newer_is_later_in_bytes(x: Seq<char>, y: Seq<char>, date: Option<Seq<char>>)
    ensures
        is_newer(Some(x), Some(y)) <==> exists|k: int| #[trigger]
            text::lower_first_at(vstd::utf8::encode_utf8(y), vstd::utf8::encode_utf8(x), k),
        is_newer(Some(x), None),
        !is_newer(None, date),
{
    text::bytes_before_is_lexicographic(
        vstd::utf8::encode_utf8(y),
        vstd::utf8::encode_utf8(x),
    );
}

/// Among arranged reports, a dated one never stands behind an undated one, nor
/// behind one whose date comes before its own in bytes.
pub proof fn arranged_from_late_to_early(
    ordered: Seq<SessionReportView>,
    given: Seq<SessionReportView>,
    i: int,
    j: int,
)
    requires
        arranges(ordered, given),
        0 <= i < j < ordered.len(),
    ensures
        match (ordered[i].session.updated_at, ordered[j].session.updated_at) {
            (Some(x), Some(y)) => !exists|k: int| #[trigger]
                text::lower_first_at(vstd::utf8::encode_utf8(x), vstd::utf8::encode_utf8(y), k),
            (None, Some(_)) => false,
            (_, None) => true,
        },
{
    let a = ordered[i].session.updated_at;
    let b = ordered[j].session.updated_at;
    assert(!is_newer(dated(ordered[j]), dated(ordered[i])));
    newer_is_later_in_bytes(
        b.unwrap_or(Seq::empty()),
        a.unwrap_or(Seq::empty()),
        None,
    );
}

/// Reports that were updated at the same time stay in the order they were given.
pub proof fn arranged_reports_of_a_date_keep_their_order(
    ordered: Seq<SessionReportView>,
    given: Seq<SessionReportView>,
    date: Option<Seq<char>>,
)
    requires
        arranges(ordered, given),
    ensures
        ordered.filter(|r: SessionReportView| r.session.updated_at == date) == given.filter(
            |r: SessionReportView| r.session.updated_at == date,
        ),
{
    let here = |r: SessionReportView| r.session.updated_at == date;
    let same = |r: SessionReportView| dated(r) == date;
    assert(here =~= same);
    assert(with_date(ordered, date) == with_date(given, date));
}

/// A report goes behind those that are not older, and before the rest.
proof fn insertion_arranges(done: Seq<SessionReportView>, at: int, report: SessionReportView)
    requires
        newest_first(done),
        0 <= at <= done.len(),
        forall|i: int| 0 <= i < at ==> !is_newer(dated(report), dated(#[trigger] done[i])),
        at < done.len() ==> is_newer(dated(report), dated(done[at])),
    ensures
        arranges(done.insert(at, report), done.push(report)),
{
    let next = done.insert(at, report);
    done.insert_ensures(at, report);
    // Whatever stands behind the report is older than it.
    assert forall|i: int| at <= i < done.len() implies is_newer(
        dated(report),
        dated(#[trigger] done[i]),
    ) by {
        is_newer_is_total_order(dated(report), dated(done[at]), dated(done[i]));
        is_newer_is_total_order(dated(done[at]), dated(done[i]), dated(done[at]));
    }
    assert forall|i: int, j: int| 0 <= i < j < next.len() implies !is_newer(
        dated(#[trigger] next[j]),
        dated(#[trigger] next[i]),
    ) by {
        let a = if i < at { i } else { i - 1 };
        let b = if j < at { j } else { j - 1 };
        if i == at {
            assert(next[j] == done[b]);
            is_newer_is_total_order(dated(report), dated(done[b]), dated(report));
        } else if j == at {
            assert(next[i] == done[a]);
        } else {
            assert(next[i] == done[a]);
            assert(next[j] == done[b]);
        }
    }
    let front = done.subrange(0, at);
    let back = done.subrange(at, done.len() as int);
    assert forall|date: Option<Seq<char>>| #[trigger]
        with_date(next, date) == with_date(done.push(report), date) by {
        let here = |r: SessionReportView| dated(r) == date;
        let one = seq![report];
        assert(next =~= (front + one) + back);
        assert(done.push(report) =~= (front + back) + one);
        Seq::filter_distributes_over_add(front + one, back, here);
        Seq::filter_distributes_over_add(front, one, here);
        Seq::filter_distributes_over_add(front + back, one, here);
        Seq::filter_distributes_over_add(front, back, here);
        if dated(report) == date {
            assert forall|i: int| 0 <= i < back.len() implies !here(#[trigger] back[i]) by {
                assert(back[i] == done[at + i]);
                is_newer_is_total_order(date, dated(back[i]), date);
            }
            back.lemma_all_neg_filter_empty(here);
        } else {
            one.lemma_all_neg_filter_empty(here);
        }
        assert(next.filter(here) =~= done.push(report).filter(here));
    }
    assert(next.to_multiset() =~= done.push(report).to_multiset()) by {
        assert(next.remove(at) =~= done);
        vstd::seq_lib::to_multiset_remove(next, at);
        vstd::seq_lib::to_multiset_build(done, report);
        next.to_multiset_ensures();
        assert(next.contains(next[at]));
    }
}

/// Arranging what is arranged, with one more report given, arranges the whole.
proof fn arranges_one_more(
    next: Seq<SessionReportView>,
    done: Seq<SessionReportView>,
    given: Seq<SessionReportView>,
    report: SessionReportView,
)
    requires
        arranges(done, given),
        arranges(next, done.push(report)),
    ensures
        arranges(next, given.push(report)),
{
    assert forall|date: Option<Seq<char>>| #[trigger]
        with_date(next, date) == with_date(given.push(report), date) by {
        let here = |r: SessionReportView| dated(r) == date;
        assert(with_date(next, date) == with_date(done.push(report), date));
        assert(with_date(done, date) == with_date(given, date));
        done.lemma_filter_push(report, here);
        given.lemma_filter_push(report, here);
    }
    vstd::seq_lib::to_multiset_build(done, report);
    vstd::seq_lib::to_multiset_build(given, report);
}

/// Orders reports newest first, keeping the order of those with the same date.
pub fn sort_newest_first(sessions: Vec<SessionReport>) -> (ordered: Vec<SessionReport>)
    ensures
        arranges(session::reports_of(ordered@), session::reports_of(sessions@)),
        ordered@.len() == sessions@.len(),
        ordered@.map_values(|r: SessionReport| r@).to_multiset() == sessions@.map_values(
            |r: SessionReport| r@,
        ).to_multiset(),
        forall|i: int, j: int|
            #![trigger ordered@[i], ordered@[j]]
            0 <= i < j < ordered@.len() ==> match (
                ordered@[i].session.updated_at,
                ordered@[j].session.updated_at,
            ) {
                (Some(x), Some(y)) => !exists|k: int| #[trigger]
                    text::lower_first_at(
                        vstd::utf8::encode_utf8(x@),
                        vstd::utf8::encode_utf8(y@),
                        k,
                    ),
                (None, Some(_)) => false,
                (_, None) => true,
            },
{
    let ghost all = sessions@;
    let mut ordered: Vec<SessionReport> = Vec::new();
    proof {
        assert(session::reports_of(ordered@) =~= session::reports_of(all.take(0)));
    }
    for report in it: sessions
        invariant
            it.seq() == all,
            arranges(
                session::reports_of(ordered@),
                session::reports_of(all.take(it.index() as int)),
            ),
    {
        let ghost taken = it.index() as int;
        let ghost done = session::reports_of(ordered@);
        let mut at: usize = 0;
        while at < ordered.len() && !newer(
            &report.session.updated_at,
            &ordered[at].session.updated_at,
        )
            invariant
                at <= ordered@.len(),
                done == session::reports_of(ordered@),
                forall|i: int|
                    0 <= i < at ==> !is_newer(dated(report@), dated(#[trigger] done[i])),
            decreases ordered@.len() - at,
        {
            at = at + 1;
        }
        proof {
            insertion_arranges(done, at as int, report@);
            arranges_one_more(
                done.insert(at as int, report@),
                done,
                session::reports_of(all.take(taken)),
                report@,
            );
            assert(session::reports_of(ordered@.insert(at as int, report)) =~= done.insert(
                at as int,
                report@,
            ));
            assert(session::reports_of(all.take(taken)).push(report@) =~= session::reports_of(
                all.take(taken + 1),
            ));
        }
        ordered.insert(at, report);
    }
    proof {
        assert(all.take(all.len() as int) =~= all);
        let views = session::reports_of(ordered@);
        let given = session::reports_of(all);
        arrangement_keeps_reports(views, given, arbitrary());
        assert forall|i: int, j: int|
            #![trigger ordered@[i], ordered@[j]]
            0 <= i < j < ordered@.len() implies match (
            ordered@[i].session.updated_at,
            ordered@[j].session.updated_at,
        ) {
            (Some(x), Some(y)) => !exists|k: int| #[trigger]
                text::lower_first_at(
                    vstd::utf8::encode_utf8(x@),
                    vstd::utf8::encode_utf8(y@),
                    k,
                ),
            (None, Some(_)) => false,
            (_, None) => true,
        } by {
            arranged_from_late_to_early(views, given, i, j);
            assert(views[i] == ordered@[i]@ && views[j] == ordered@[j]@);
        }
    }
    ordered
}

/// What the reports of a date are, told from the first report on.
proof fn with_date_from_front(reports: Seq<SessionReportView>, date: Option<Seq<char>>)
    requires
        reports.len() > 0,
    ensures
        with_date(reports, date) == (if dated(reports[0]) == date {
            seq![reports[0]]
        } else {
            Seq::empty()
        }) + with_date(reports.drop_first(), date),
{
    let here = |r: SessionReportView| dated(r) == date;
    let one = seq![reports[0]];
    assert(reports =~= one + reports.drop_first());
    Seq::filter_distributes_over_add(one, reports.drop_first(), here);
    if dated(reports[0]) == date {
        assert(one =~= Seq::empty().push(reports[0]));
        Seq::empty().lemma_filter_push(reports[0], here);
        Seq::<SessionReportView>::empty().lemma_all_neg_filter_empty(here);
        assert(one.filter(here) =~= one);
    } else {
        one.lemma_all_neg_filter_empty(here);
        assert(one.filter(here) =~= Seq::empty());
    }
}

/// If two sequences hold the same reports of every date and one is ordered, the
/// first report of the other is not newer than the first of the ordered one.
proof fn first_is_not_newer(a: Seq<SessionReportView>, b: Seq<SessionReportView>)
    requires
        a.len() > 0,
        b.len() > 0,
        newest_first(b),
        forall|date: Option<Seq<char>>| #[trigger] with_date(a, date) == with_date(b, date),
    ensures
        !is_newer(dated(a[0]), dated(b[0])),
{
    let date = dated(a[0]);
    let here = |r: SessionReportView| dated(r) == date;
    with_date_from_front(a, date);
    assert(with_date(a, date) == with_date(b, date));
    let found = b.filter(here);
    assert(found.len() > 0);
    b.lemma_filter_pred(here, 0);
    assert(b.contains(found[0])) by {
        broadcast use Seq::lemma_filter_contains_rev;

        assert(found.contains(found[0]));
    }
    let i = choose|i: int| 0 <= i < b.len() && b[i] == found[0];
    assert(dated(b[i]) == date);
    is_newer_is_total_order(date, dated(b[0]), date);
    if i > 0 {
        assert(!is_newer(dated(b[i]), dated(b[0])));
    }
}

/// Two ordered sequences with the same reports of every date are equal.
proof fn ordered_alike(a: Seq<SessionReportView>, b: Seq<SessionReportView>)
    requires
        newest_first(a),
        newest_first(b),
        forall|date: Option<Seq<char>>| #[trigger] with_date(a, date) == with_date(b, date),
    ensures
        a == b,
    decreases a.len(),
{
    if a.len() == 0 {
        if b.len() > 0 {
            let date = dated(b[0]);
            with_date_from_front(b, date);
            assert(with_date(a, date) == with_date(b, date));
            a.lemma_filter_len(|r: SessionReportView| dated(r) == date);
        }
        assert(a =~= b);
    } else if b.len() == 0 {
        let date = dated(a[0]);
        with_date_from_front(a, date);
        assert(with_date(a, date) == with_date(b, date));
        b.lemma_filter_len(|r: SessionReportView| dated(r) == date);
    } else {
        first_is_not_newer(a, b);
        first_is_not_newer(b, a);
        let date = dated(a[0]);
        is_newer_is_total_order(date, dated(b[0]), date);
        with_date_from_front(a, date);
        with_date_from_front(b, date);
        assert(with_date(a, date) == with_date(b, date));
        assert(with_date(a, date)[0] == a[0]);
        assert(with_date(b, date)[0] == b[0]);
        let x = a.drop_first();
        let y = b.drop_first();
        assert forall|d: Option<Seq<char>>| #[trigger] with_date(x, d) == with_date(y, d) by {
            with_date_from_front(a, d);
            with_date_from_front(b, d);
            assert(with_date(a, d) == with_date(b, d));
            let skipped: int = if d == date { 1 } else { 0 };
            assert(with_date(x, d) =~= with_date(a, d).skip(skipped));
            assert(with_date(y, d) =~= with_date(b, d).skip(skipped));
        }
        assert forall|i: int, j: int| 0 <= i < j < x.len() implies !is_newer(
            dated(#[trigger] x[j]),
            dated(#[trigger] x[i]),
        ) by {
            assert(x[j] == a[j + 1] && x[i] == a[i + 1]);
        }
        assert forall|i: int, j: int| 0 <= i < j < y.len() implies !is_newer(
            dated(#[trigger] y[j]),
            dated(#[trigger] y[i]),
        ) by {
            assert(y[j] == b[j + 1] && y[i] == b[i + 1]);
        }
        ordered_alike(x, y);
        assert(a =~= seq![a[0]] + x);
        assert(b =~= seq![b[0]] + y);
    }
}

/// There is only one way to arrange the given reports.
pub proof fn arrangement_is_unique(
    a: Seq<SessionReportView>,
    b: Seq<SessionReportView>,
    given: Seq<SessionReportView>,
)
    requires
        arranges(a, given),
        arranges(b, given),
    ensures
        a == b,
{
    assert forall|date: Option<Seq<char>>| #[trigger] with_date(a, date) == with_date(b, date) by {
        assert(with_date(a, date) == with_date(given, date));
        assert(with_date(b, date) == with_date(given, date));
    }
    ordered_alike(a, b);
}

/// Arranging neither loses, adds nor repeats a report.
pub proof fn arrangement_keeps_reports(
    ordered: Seq<SessionReportView>,
    given: Seq<SessionReportView>,
    report: SessionReportView,
)
    requires
        arranges(ordered, given),
    ensures
        ordered.len() == given.len(),
        ordered.contains(report) <==> given.contains(report),
{
    ordered.to_multiset_ensures();
    given.to_multiset_ensures();
    assert(ordered.to_multiset().count(report) == given.to_multiset().count(report));
}

} // verus!
