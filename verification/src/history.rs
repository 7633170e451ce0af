//! What holds of the status that a whole rollout leads to.

use crate::clock;
use crate::rollout::{
    AgentMessageContent, AgentMessageContentDeltaEvent, AgentMessageDeltaEvent, ContentItem,
    EventMsg, ResponseItem, RolloutItem, RolloutLine, TurnItem,
};
use crate::status;
use crate::tracker::TrackerView;
use vstd::prelude::*;

verus! {

/// The newest thing that lines tell, if each tells what `told` says it does.
pub open spec fn last_told(
    lines: Seq<Option<RolloutLine>>,
    told: spec_fn(RolloutLine) -> Option<Seq<char>>,
) -> Option<Seq<char>>
    decreases lines.len(),
{
    if lines.len() == 0 {
        None
    } else {
        match lines.last() {
            Some(line) => match told(line) {
                Some(t) => Some(t),
                None => last_told(lines.drop_last(), told),
            },
            None => last_told(lines.drop_last(), told),
        }
    }
}

/// The timestamp of a line.
pub open spec fn timestamp_told(line: RolloutLine) -> Option<Seq<char>> {
    Some(line.timestamp@)
}

/// The session id that a line tells: only an opening record does.
pub open spec fn session_id_told(line: RolloutLine) -> Option<Seq<char>> {
    match line.item {
        RolloutItem::SessionMeta(meta) => Some(meta.meta.id@),
        _ => None,
    }
}

/// The working directory that a line tells.
pub open spec fn cwd_told(line: RolloutLine) -> Option<Seq<char>> {
    match line.item {
        RolloutItem::SessionMeta(meta) => Some(meta.meta.cwd@),
        RolloutItem::TurnContext(context) => Some(context.cwd@),
        _ => None,
    }
}

/// The thread that a line of a running task tells.
pub open spec fn thread_told(line: RolloutLine) -> Option<Seq<char>> {
    match line.item {
        RolloutItem::EventMsg(EventMsg::AgentMessageContentDelta(e)) => Some(e.thread_id@),
        RolloutItem::EventMsg(EventMsg::ItemStarted(e)) => Some(e.thread_id@),
        RolloutItem::EventMsg(EventMsg::ItemCompleted(e)) => Some(e.thread_id@),
        _ => None,
    }
}

/// The turn that a line of a running task tells.
pub open spec fn turn_told(line: RolloutLine) -> Option<Seq<char>> {
    match line.item {
        RolloutItem::EventMsg(EventMsg::AgentMessageContentDelta(e)) => Some(e.turn_id@),
        RolloutItem::EventMsg(EventMsg::ItemStarted(e)) => Some(e.turn_id@),
        RolloutItem::EventMsg(EventMsg::ItemCompleted(e)) => Some(e.turn_id@),
        _ => None,
    }
}

/// Whether a line tells that a task began.
pub open spec fn starts_task(line: Option<RolloutLine>) -> bool {
    line matches Some(l) && l.item matches RolloutItem::EventMsg(e) && e is TaskStarted
}

/// Whether a line tells that a task completed or was aborted.
pub open spec fn ends_task(line: Option<RolloutLine>) -> bool {
    line matches Some(l) && l.item matches RolloutItem::EventMsg(e) && (e is TaskComplete
        || e is TurnAborted)
}

/// Whether some task began at the given line and nothing ended after it.
pub open spec fn task_live_since(lines: Seq<Option<RolloutLine>>, i: int) -> bool {
    &&& 0 <= i < lines.len()
    &&& starts_task(lines[i])
    &&& forall|j: int| i < j < lines.len() ==> !ends_task(#[trigger] lines[j])
}

/// Whether a task began and has not ended since.
pub open spec fn has_live_task(lines: Seq<Option<RolloutLine>>) -> bool {
    exists|i: int| #[trigger] task_live_since(lines, i)
}

/// Whether any task has ended.
pub open spec fn has_ended_task(lines: Seq<Option<RolloutLine>>) -> bool {
    exists|i: int| 0 <= i < lines.len() && ends_task(#[trigger] lines[i])
}

/// The text that a line adds to the stream of a running task.
pub open spec fn delta_told(line: Option<RolloutLine>) -> Seq<char> {
    match line {
        Some(l) => match l.item {
            RolloutItem::EventMsg(EventMsg::AgentMessageDelta(e)) => e.delta@,
            RolloutItem::EventMsg(EventMsg::AgentMessageContentDelta(e)) => e.delta@,
            _ => Seq::empty(),
        },
        None => Seq::empty(),
    }
}

/// A message, unless it is empty.
pub open spec fn if_any(message: Seq<char>) -> Option<Seq<char>> {
    if message.len() > 0 {
        Some(message)
    } else {
        None
    }
}

/// The whole message of the assistant that a line tells: an agent message, or a
/// message of the assistant or a completed item that is not empty.
pub open spec fn whole_told(line: RolloutLine) -> Option<Seq<char>> {
    match line.item {
        RolloutItem::EventMsg(EventMsg::AgentMessage(e)) => Some(e.message@),
        RolloutItem::EventMsg(EventMsg::ItemCompleted(e)) => match e.item {
            TurnItem::AgentMessage(item) => if_any(AgentMessageContent::joined(item.content@)),
            TurnItem::Other => None,
        },
        RolloutItem::ResponseItem(ResponseItem::Message { role, content }) => if role@
            == "assistant"@ {
            if_any(ContentItem::joined_output(content@))
        } else {
            None
        },
        _ => None,
    }
}

/// The response that a line makes stand: a whole message, or the summary that
/// replaced an earlier part of the conversation.
pub open spec fn stands_told(line: RolloutLine) -> Option<Seq<char>> {
    match line.item {
        RolloutItem::Compacted(compacted) => Some(compacted.message@),
        _ => whole_told(line),
    }
}

/// What the assistant has said in the lines of a running task: the last whole
/// message, and all text that was streamed after it.
pub open spec fn said_since(lines: Seq<Option<RolloutLine>>) -> Seq<char>
    decreases lines.len(),
{
    if lines.len() == 0 {
        Seq::empty()
    } else {
        let before = said_since(lines.drop_last());
        match lines.last() {
            Some(line) => match whole_told(line) {
                Some(message) => message,
                None => before + delta_told(Some(line)),
            },
            None => before,
        }
    }
}

/// The response after the lines of a running task: what the assistant has said,
/// or, where that is empty, what was last made to stand.
pub open spec fn response_since(lines: Seq<Option<RolloutLine>>) -> Option<Seq<char>> {
    if said_since(lines).len() > 0 {
        Some(said_since(lines))
    } else {
        last_told(lines, |line: RolloutLine| stands_told(line))
    }
}

/// Whether no line tells that a task began or ended.
pub open spec fn no_task_lines(lines: Seq<Option<RolloutLine>>) -> bool {
    forall|i: int|
        0 <= i < lines.len() ==> !starts_task(#[trigger] lines[i]) && !ends_task(lines[i])
}

/// The text that lines stream, in order.
pub open spec fn streamed_by(lines: Seq<Option<RolloutLine>>) -> Seq<char> {
    lines.map_values(|line: Option<RolloutLine>| delta_told(line)).flatten()
}

/// A stream is there exactly while a task runs, whatever lines are read.
pub proof fn stays_well_formed(start: TrackerView, lines: Seq<Option<RolloutLine>>)
    requires
        start.well_formed(),
    ensures
        start.after_lines(lines).well_formed(),
    decreases lines.len(),
{
    if lines.len() > 0 {
        stays_well_formed(start, lines.drop_last());
    }
}

/// Reading lines in two pieces is reading them at once.
pub proof fn lines_in_pieces(
    start: TrackerView,
    first: Seq<Option<RolloutLine>>,
    second: Seq<Option<RolloutLine>>,
)
    ensures
        start.after_lines(first + second) == start.after_lines(first).after_lines(second),
    decreases second.len(),
{
    if second.len() == 0 {
        assert(first + second =~= first);
    } else {
        lines_in_pieces(start, first, second.drop_last());
        assert((first + second).drop_last() =~= first + second.drop_last());
    }
}

/// Lines that could not be read change nothing.
pub proof fn unreadable_lines_do_not_count(start: TrackerView, lines: Seq<Option<RolloutLine>>)
    ensures
        start.after_lines(lines) == start.after_lines(
            lines.filter(|line: Option<RolloutLine>| line is Some),
        ),
    decreases lines.len(),
{
    reveal(Seq::filter);
    let readable = |line: Option<RolloutLine>| line is Some;
    if lines.len() > 0 {
        unreadable_lines_do_not_count(start, lines.drop_last());
        let kept = lines.drop_last().filter(readable);
        if lines.last() is Some {
            assert(kept.push(lines.last()).drop_last() =~= kept);
        }
    }
}

/// What a session is called, where it works and when it was last updated is what
/// the newest line says that tells it. In particular the update time is the
/// timestamp of the last line that could be read.
pub proof fn newest_line_counts(
    path: Seq<char>,
    modified: Option<int>,
    window: nat,
    lines: Seq<Option<RolloutLine>>,
)
    ensures
        ({
            let told = status::told_by(path, lines, modified, window);
            &&& told.updated_at == last_told(lines, |line: RolloutLine| timestamp_told(line))
            &&& told.session_id == last_told(lines, |line: RolloutLine| session_id_told(line))
            &&& told.cwd == last_told(lines, |line: RolloutLine| cwd_told(line))
        }),
    decreases lines.len(),
{
    if lines.len() > 0 {
        newest_line_counts(path, modified, window, lines.drop_last());
    }
}

/// A task is running exactly if one began and has not ended since, and a
/// completion was seen exactly if there was one.
pub proof fn active_while_task_is_live(
    path: Seq<char>,
    modified: Option<int>,
    window: nat,
    lines: Seq<Option<RolloutLine>>,
)
    ensures
        status::told_by(path, lines, modified, window).active <==> has_live_task(lines),
        status::told_by(path, lines, modified, window).saw_completion <==> has_ended_task(lines),
    decreases lines.len(),
{
    if lines.len() > 0 {
        let before = lines.drop_last();
        let last = lines.len() - 1;
        active_while_task_is_live(path, modified, window, before);
        // A live task in the shorter row is live in the longer one unless ended.
        if has_live_task(before) && !ends_task(lines[last]) {
            let i = choose|i: int| #[trigger] task_live_since(before, i);
            assert forall|j: int| i < j < lines.len() implies !ends_task(
                #[trigger] lines[j],
            ) by {
                if j < last {
                    assert(lines[j] == before[j]);
                }
            }
            assert(task_live_since(lines, i));
        }
        if starts_task(lines[last]) {
            assert(task_live_since(lines, last));
        }
        if has_live_task(lines) {
            let i = choose|i: int| #[trigger] task_live_since(lines, i);
            if i < last {
                assert(!ends_task(lines[last]));
                assert forall|j: int| i < j < before.len() implies !ends_task(
                    #[trigger] before[j],
                ) by {
                    assert(lines[j] == before[j]);
                }
                assert(task_live_since(before, i));
            }
        }
        if has_ended_task(before) {
            let i = choose|i: int| 0 <= i < before.len() && ends_task(#[trigger] before[i]);
            assert(lines[i] == before[i]);
        }
        if has_ended_task(lines) {
            let i = choose|i: int| 0 <= i < lines.len() && ends_task(#[trigger] lines[i]);
            if i < last {
                assert(before[i] == lines[i]);
            }
        }
    }
}

/// What active means: a session counts as active exactly if a task began and has
/// not ended since, or if no task has ended and the file was modified recently.
pub proof fn what_active_means(
    path: Seq<char>,
    modified: Option<int>,
    window: nat,
    lines: Seq<Option<RolloutLine>>,
    now: int,
)
    ensures
        status::told_by(path, lines, modified, window).outcome(now) is Some <==> (has_live_task(
            lines,
        ) || (!has_ended_task(lines) && clock::is_recent(modified, now, window))),
        status::told_by(path, lines, modified, window).outcome(now) is Some <==> (has_live_task(
            lines,
        ) || (!has_ended_task(lines) && (modified matches Some(m) && m <= now && now - m <= window
            * 1_000_000_000))),
{
    active_while_task_is_live(path, modified, window, lines);
    TrackerView::fresh(path, modified, window).lines_keep_the_file(lines);
}

/// When the file was modified and how wide the window is changes nothing else
/// that lines tell.
proof fn lines_do_not_see_the_window(
    path: Seq<char>,
    modified: Option<int>,
    window: nat,
    other_modified: Option<int>,
    other_window: nat,
    lines: Seq<Option<RolloutLine>>,
)
    ensures
        status::told_by(path, lines, other_modified, other_window) == (TrackerView {
            modified: other_modified,
            active_window_seconds: other_window,
            ..status::told_by(path, lines, modified, window)
        }),
    decreases lines.len(),
{
    if lines.len() > 0 {
        lines_do_not_see_the_window(
            path,
            modified,
            window,
            other_modified,
            other_window,
            lines.drop_last(),
        );
    }
}

/// A session in which a task runs is active, and the same session is reported,
/// whatever the clock says, whenever its file was modified and however wide the
/// window is.
pub proof fn running_task_needs_no_recent_write(
    path: Seq<char>,
    lines: Seq<Option<RolloutLine>>,
    modified: Option<int>,
    window: nat,
    now: int,
    other_modified: Option<int>,
    other_window: nat,
    other_now: int,
)
    requires
        has_live_task(lines),
    ensures
        status::told_by(path, lines, modified, window).outcome(now) is Some,
        status::told_by(path, lines, modified, window).outcome(now) == status::told_by(
            path,
            lines,
            other_modified,
            other_window,
        ).outcome(other_now),
{
    active_while_task_is_live(path, modified, window, lines);
    lines_do_not_see_the_window(path, modified, window, other_modified, other_window, lines);
}

/// Once a task has ended, and until another begins, the session is not active,
/// however recently its file was modified.
pub proof fn ended_task_is_not_revived_by_writes(
    path: Seq<char>,
    modified: Option<int>,
    window: nat,
    lines: Seq<Option<RolloutLine>>,
    end: int,
    now: int,
)
    requires
        0 <= end < lines.len(),
        ends_task(lines[end]),
        forall|j: int| end < j < lines.len() ==> !starts_task(#[trigger] lines[j]),
    ensures
        status::told_by(path, lines, modified, window).outcome(now) is None,
{
    what_active_means(path, modified, window, lines, now);
    if has_live_task(lines) {
        let i = choose|i: int| #[trigger] task_live_since(lines, i);
        assert(starts_task(lines[i]));
        assert(ends_task(lines[end]));
    }
}

/// A wider window never makes an active session inactive.
pub proof fn wider_window_keeps_active(
    path: Seq<char>,
    modified: Option<int>,
    window: nat,
    wider: nat,
    lines: Seq<Option<RolloutLine>>,
    now: int,
)
    requires
        window <= wider,
        status::told_by(path, lines, modified, window).outcome(now) is Some,
    ensures
        status::told_by(path, lines, modified, wider).outcome(now) is Some,
{
    what_active_means(path, modified, window, lines, now);
    what_active_means(path, modified, wider, lines, now);
}

/// While a task runs, the session's thread and turn are the newest ones told
/// since the task began.
pub proof fn place_is_newest_since_task_began(
    start: TrackerView,
    begin: RolloutLine,
    later: Seq<Option<RolloutLine>>,
)
    requires
        starts_task(Some(begin)),
        no_task_lines(later),
    ensures
        start.after_line(begin).after_lines(later).active,
        start.after_line(begin).after_lines(later).thread_id == last_told(
            later,
            |line: RolloutLine| thread_told(line),
        ),
        start.after_line(begin).after_lines(later).turn_id == last_told(
            later,
            |line: RolloutLine| turn_told(line),
        ),
    decreases later.len(),
{
    if later.len() > 0 {
        let before = later.drop_last();
        assert forall|i: int| 0 <= i < before.len() implies !starts_task(#[trigger] before[i])
            && !ends_task(before[i]) by {
            assert(before[i] == later[i]);
        }
        place_is_newest_since_task_began(start, begin, before);
        assert(!starts_task(later[later.len() - 1]));
    }
}

/// What a running task leaves behind line by line.
proof fn task_accumulates(start: TrackerView, later: Seq<Option<RolloutLine>>)
    requires
        start.active,
        start.streaming_response == Some(Seq::<char>::empty()),
        start.last_response is None,
        no_task_lines(later),
    ensures
        start.after_lines(later).active,
        start.after_lines(later).streaming_response == Some(said_since(later)),
        start.after_lines(later).last_response == last_told(
            later,
            |line: RolloutLine| stands_told(line),
        ),
    decreases later.len(),
{
    if later.len() > 0 {
        let before = later.drop_last();
        assert forall|i: int| 0 <= i < before.len() implies !starts_task(#[trigger] before[i])
            && !ends_task(before[i]) by {
            assert(before[i] == later[i]);
        }
        task_accumulates(start, before);
        assert(!starts_task(later[later.len() - 1]));
        assert(said_since(before) + Seq::empty() =~= said_since(before));
    }
}

/// While a task runs, the response is the newest text of the assistant: the last
/// whole message since the task began with the text streamed after it. As long
/// as nothing was said, it is the summary of a compaction or an empty message,
/// and before that there is none.
pub proof fn response_is_newest_since_task_began(
    start: TrackerView,
    begin: RolloutLine,
    later: Seq<Option<RolloutLine>>,
)
    requires
        starts_task(Some(begin)),
        no_task_lines(later),
    ensures
        start.after_line(begin).after_lines(later).newest_response() == response_since(later),
{
    task_accumulates(start.after_line(begin), later);
}

/// What is reported of a session in which a task runs is the newest text of the
/// assistant since the last task began, whatever lines came before that.
pub proof fn reported_response_is_newest(
    path: Seq<char>,
    modified: Option<int>,
    window: nat,
    lines: Seq<Option<RolloutLine>>,
    begin: int,
    now: int,
)
    requires
        0 <= begin < lines.len(),
        starts_task(lines[begin]),
        no_task_lines(lines.skip(begin + 1)),
    ensures
        status::told_by(path, lines, modified, window).outcome(now) matches Some(session)
            && session.last_response == response_since(lines.skip(begin + 1)),
{
    let fresh = TrackerView::fresh(path, modified, window);
    let earlier = lines.take(begin);
    let later = lines.skip(begin + 1);
    let line = lines[begin]->0;
    assert(lines =~= lines.take(begin + 1) + later);
    lines_in_pieces(fresh, lines.take(begin + 1), later);
    assert(lines.take(begin + 1).drop_last() =~= earlier);
    let before = fresh.after_lines(earlier);
    assert(fresh.after_lines(lines.take(begin + 1)) == before.after_line(line));
    response_is_newest_since_task_began(before, line, later);
    task_accumulates(before.after_line(line), later);
}

/// Where no task has begun or ended yet, the response is the last whole message
/// or summary; text that is streamed does not count.
pub proof fn response_without_a_task(
    path: Seq<char>,
    modified: Option<int>,
    window: nat,
    lines: Seq<Option<RolloutLine>>,
)
    requires
        no_task_lines(lines),
    ensures
        status::told_by(path, lines, modified, window).newest_response() == last_told(
            lines,
            |line: RolloutLine| stands_told(line),
        ),
        !status::told_by(path, lines, modified, window).active,
        status::told_by(path, lines, modified, window).streaming_response is None,
    decreases lines.len(),
{
    if lines.len() > 0 {
        let before = lines.drop_last();
        assert forall|i: int| 0 <= i < before.len() implies !starts_task(#[trigger] before[i])
            && !ends_task(before[i]) by {
            assert(before[i] == lines[i]);
        }
        response_without_a_task(path, modified, window, before);
        assert(!starts_task(lines[lines.len() - 1]));
    }
}

/// While a task streams its first message, the response is the text streamed
/// since the task began, and none before the first text.
pub proof fn response_is_partial_while_streaming(
    start: TrackerView,
    begin: RolloutLine,
    later: Seq<Option<RolloutLine>>,
)
    requires
        starts_task(Some(begin)),
        no_task_lines(later),
        last_told(later, |line: RolloutLine| stands_told(line)) is None,
    ensures
        start.after_line(begin).after_lines(later).newest_response() == if streamed_by(later).len()
            > 0 {
            Some(streamed_by(later))
        } else {
            None
        },
{
    response_is_newest_since_task_began(start, begin, later);
    said_is_streamed(later);
}

/// Without a whole message, what was said is what was streamed.
proof fn said_is_streamed(lines: Seq<Option<RolloutLine>>)
    requires
        last_told(lines, |line: RolloutLine| stands_told(line)) is None,
    ensures
        said_since(lines) == streamed_by(lines),
    decreases lines.len(),
{
    let deltas = lines.map_values(|line: Option<RolloutLine>| delta_told(line));
    if lines.len() == 0 {
        assert(deltas =~= Seq::empty());
    } else {
        let before = lines.drop_last();
        said_is_streamed(before);
        let earlier = before.map_values(|line: Option<RolloutLine>| delta_told(line));
        assert(deltas =~= earlier.push(delta_told(lines.last())));
        earlier.lemma_flatten_push(delta_told(lines.last()));
        assert(said_since(lines) =~= streamed_by(lines));
    }
}

/// A whole message of the assistant is the newest response at once, streaming or
/// not.
pub proof fn whole_message_is_newest(state: TrackerView, message: Seq<char>)
    requires
        state.well_formed(),
    ensures
        state.heard(message).newest_response() == Some(message),
{
}

/// The end of a task loses no text: the response that stands is the closing
/// message, or else the one that was newest before.
pub proof fn end_keeps_newest_response(state: TrackerView, closing: Option<Seq<char>>)
    ensures
        state.ended(closing).newest_response() == match closing {
            Some(message) => Some(message),
            None => state.newest_response(),
        },
        state.ended(closing).ended(None) == state.ended(closing),
{
}

/// A task that begins forgets what was said before and where.
pub proof fn start_forgets(state: TrackerView)
    ensures
        state.started().newest_response() is None,
        state.started().thread_id is None,
        state.started().turn_id is None,
        state.started().session_id == state.session_id,
        state.started().cwd == state.cwd,
{
}

/// Streamed text outside of a task is ignored.
pub proof fn stray_deltas_are_ignored(
    state: TrackerView,
    delta: AgentMessageDeltaEvent,
    placed: AgentMessageContentDeltaEvent,
)
    requires
        !state.active,
    ensures
        state.after_message_delta(delta) == state,
        state.after_message_content_delta(placed) == state,
{
}

/// What anyone but the assistant said changes nothing.
pub proof fn only_the_assistant_is_heard(state: TrackerView, item: ResponseItem)
    requires
        item matches ResponseItem::Message { role, .. } ==> role@ != "assistant"@,
    ensures
        state.after_response_item(item) == state,
{
}

/// A report says working exactly if the file was modified within the working
/// window, and then tells when that was.
pub proof fn working_means_recent(told: TrackerView, now: int, working_window: nat)
    requires
        told.outcome(now) is Some,
    ensures
        status::reported(told, now, working_window) matches Some(report) && {
            &&& report.session == told.session()
            &&& report.status is Working <==> clock::is_recent(told.modified, now, working_window)
            &&& report.status is Working ==> report.last_modified_ms is Some
            &&& report.status is Working <==> (told.modified matches Some(m) && m <= now && now - m
                <= working_window * 1_000_000_000)
            &&& told.modified is Some <==> report.last_modified_ms is Some
            &&& told.modified matches Some(m) ==> report.last_modified_ms.unwrap() * 1_000_000 <= m
                < (report.last_modified_ms.unwrap() + 1) * 1_000_000
        },
{
}

/// As time passes without a write, a working session becomes idle and never
/// working again.
pub proof fn idle_stays_idle_without_writes(
    told: TrackerView,
    now: int,
    later: int,
    working_window: nat,
)
    requires
        told.modified matches Some(m) && m <= now,
        now <= later,
        told.outcome(now) is Some,
        told.outcome(later) is Some,
        status::reported(told, now, working_window).unwrap().status is Idle,
    ensures
        status::reported(told, later, working_window).unwrap().status is Idle,
{
}

/// If the last line that tells anything is the one at `i`, that is what is told.
proof fn last_told_at(
    lines: Seq<Option<RolloutLine>>,
    told: spec_fn(RolloutLine) -> Option<Seq<char>>,
    i: int,
)
    requires
        0 <= i < lines.len(),
        lines[i] matches Some(line) && told(line) is Some,
        forall|j: int|
            i < j < lines.len() ==> (#[trigger] lines[j] matches Some(later) ==> told(later) is None),
    ensures
        last_told(lines, told) == told(lines[i]->0),
    decreases lines.len(),
{
    let before = lines.drop_last();
    if i < before.len() {
        assert(lines[lines.len() - 1] == lines.last());
        assert forall|j: int| i < j < before.len() implies (#[trigger] before[j] matches Some(
            later,
        ) ==> told(later) is None) by {
            assert(before[j] == lines[j]);
        }
        last_told_at(before, told, i);
    }
}

/// If no line tells anything, nothing is told.
proof fn last_told_nowhere(
    lines: Seq<Option<RolloutLine>>,
    told: spec_fn(RolloutLine) -> Option<Seq<char>>,
)
    requires
        forall|j: int|
            0 <= j < lines.len() ==> (#[trigger] lines[j] matches Some(line) ==> told(line) is None),
    ensures
        last_told(lines, told) is None,
    decreases lines.len(),
{
    if lines.len() > 0 {
        let before = lines.drop_last();
        assert(lines[lines.len() - 1] == lines.last());
        assert forall|j: int| 0 <= j < before.len() implies (#[trigger] before[j] matches Some(
            line,
        ) ==> told(line) is None) by {
            assert(before[j] == lines[j]);
        }
        last_told_nowhere(before, told);
    }
}

/// The session that is reported carries the path of its file, the timestamp of the
/// last line that could be read, the working directory last told, and the session
/// id last told. Without a session id it goes by its thread's, and is unknown
/// without either.
pub proof fn reported_session_is_as_last_told(
    path: Seq<char>,
    modified: Option<int>,
    window: nat,
    lines: Seq<Option<RolloutLine>>,
    now: int,
)
    requires
        status::told_by(path, lines, modified, window).outcome(now) is Some,
    ensures
        ({
            let session = status::told_by(path, lines, modified, window).outcome(now).unwrap();
            let id = last_told(lines, |line: RolloutLine| session_id_told(line));
            &&& session.rollout_path == path
            &&& session.updated_at == last_told(lines, |line: RolloutLine| timestamp_told(line))
            &&& session.cwd == last_told(lines, |line: RolloutLine| cwd_told(line))
            &&& id matches Some(i) ==> session.session_id == i
            &&& id is None ==> (session.thread_id matches Some(t) ==> session.session_id == t)
            &&& id is None && session.thread_id is None ==> session.session_id == "unknown"@
        }),
{
    newest_line_counts(path, modified, window, lines);
    TrackerView::fresh(path, modified, window).lines_keep_the_file(lines);
}

/// The update time that is reported is the timestamp of the last line that could
/// be read, and none if there is no such line.
pub proof fn reported_update_time_is_of_the_last_line(
    path: Seq<char>,
    modified: Option<int>,
    window: nat,
    lines: Seq<Option<RolloutLine>>,
    i: int,
    now: int,
)
    requires
        status::told_by(path, lines, modified, window).outcome(now) is Some,
        -1 <= i < lines.len(),
        i >= 0 ==> lines[i] is Some,
        forall|j: int| i < j < lines.len() ==> #[trigger] lines[j] is None,
    ensures
        status::told_by(path, lines, modified, window).outcome(now).unwrap().updated_at == if i
            >= 0 {
            Some(lines[i]->0.timestamp@)
        } else {
            None
        },
{
    reported_session_is_as_last_told(path, modified, window, lines, now);
    let told = |line: RolloutLine| timestamp_told(line);
    if i >= 0 {
        last_told_at(lines, told, i);
    } else {
        last_told_nowhere(lines, told);
    }
}

/// The working directory that is reported is the one of the last opening record or
/// turn, and none if there is neither.
pub proof fn reported_cwd_is_of_the_last_turn(
    path: Seq<char>,
    modified: Option<int>,
    window: nat,
    lines: Seq<Option<RolloutLine>>,
    i: int,
    now: int,
)
    requires
        status::told_by(path, lines, modified, window).outcome(now) is Some,
        -1 <= i < lines.len(),
        i >= 0 ==> (lines[i] matches Some(l) && (l.item is SessionMeta || l.item is TurnContext)),
        forall|j: int|
            i < j < lines.len() ==> (#[trigger] lines[j] matches Some(l) ==> !(l.item is SessionMeta)
                && !(l.item is TurnContext)),
    ensures
        ({
            let cwd = status::told_by(path, lines, modified, window).outcome(now).unwrap().cwd;
            &&& i < 0 ==> cwd is None
            &&& i >= 0 ==> match lines[i]->0.item {
                RolloutItem::SessionMeta(meta) => cwd == Some(meta.meta.cwd@),
                RolloutItem::TurnContext(context) => cwd == Some(context.cwd@),
                _ => false,
            }
        }),
{
    reported_session_is_as_last_told(path, modified, window, lines, now);
    let told = |line: RolloutLine| cwd_told(line);
    if i >= 0 {
        last_told_at(lines, told, i);
    } else {
        last_told_nowhere(lines, told);
    }
}

/// The session is called by the id in its last opening record.
pub proof fn reported_id_is_of_the_last_opening_record(
    path: Seq<char>,
    modified: Option<int>,
    window: nat,
    lines: Seq<Option<RolloutLine>>,
    i: int,
    now: int,
)
    requires
        status::told_by(path, lines, modified, window).outcome(now) is Some,
        -1 <= i < lines.len(),
        i >= 0 ==> (lines[i] matches Some(l) && l.item is SessionMeta),
        forall|j: int|
            i < j < lines.len() ==> (#[trigger] lines[j] matches Some(l) ==> !(
            l.item is SessionMeta)),
    ensures
        ({
            let session = status::told_by(path, lines, modified, window).outcome(now).unwrap();
            &&& i >= 0 ==> (lines[i]->0.item matches RolloutItem::SessionMeta(meta)
                && session.session_id == meta.meta.id@)
            &&& i < 0 ==> match session.thread_id {
                Some(thread) => session.session_id == thread,
                None => session.session_id == "unknown"@,
            }
        }),
{
    reported_session_is_as_last_told(path, modified, window, lines, now);
    let told = |line: RolloutLine| session_id_told(line);
    if i >= 0 {
        last_told_at(lines, told, i);
    } else {
        last_told_nowhere(lines, told);
    }
}

/// Every session that is reported is of one of two kinds: a task runs in it, with
/// no task beginning or ending since, or no task ever began or ended in it.
pub proof fn reported_sessions_run_or_never_ran(
    path: Seq<char>,
    modified: Option<int>,
    window: nat,
    lines: Seq<Option<RolloutLine>>,
    now: int,
) -> (begin: int)
    requires
        status::told_by(path, lines, modified, window).outcome(now) is Some,
    ensures
        begin >= 0 ==> {
            &&& begin < lines.len()
            &&& starts_task(lines[begin])
            &&& no_task_lines(lines.skip(begin + 1))
        },
        begin < 0 ==> no_task_lines(lines),
{
    what_active_means(path, modified, window, lines, now);
    let last = last_start(lines);
    if last >= 0 {
        if has_live_task(lines) {
            let i = choose|i: int| #[trigger] task_live_since(lines, i);
            assert(starts_task(lines[i]));
            assert(i <= last);
        }
        let later = lines.skip(last + 1);
        assert forall|j: int| 0 <= j < later.len() implies !starts_task(#[trigger] later[j])
            && !ends_task(later[j]) by {
            assert(later[j] == lines[last + 1 + j]);
        }
    }
    last
}

/// The last line at which a task begins, -1 if there is none.
proof fn last_start(lines: Seq<Option<RolloutLine>>) -> (last: int)
    ensures
        -1 <= last < lines.len(),
        last >= 0 ==> starts_task(lines[last]),
        forall|j: int| last < j < lines.len() ==> !starts_task(#[trigger] lines[j]),
    decreases lines.len(),
{
    if lines.len() == 0 {
        -1
    } else if starts_task(lines.last()) {
        lines.len() - 1
    } else {
        let before = lines.drop_last();
        let last = last_start(before);
        assert forall|j: int| last < j < lines.len() implies !starts_task(#[trigger] lines[j]) by {
            if j < before.len() {
                assert(before[j] == lines[j]);
            }
        }
        assert(last >= 0 ==> before[last] == lines[last]);
        last
    }
}

/// The thread and turn that are reported while a task runs are those of the last
/// item or placed text since the task began, and none before the first.
pub proof fn reported_place_of_a_running_task(
    path: Seq<char>,
    modified: Option<int>,
    window: nat,
    lines: Seq<Option<RolloutLine>>,
    begin: int,
    i: int,
    now: int,
)
    requires
        0 <= begin < lines.len(),
        starts_task(lines[begin]),
        no_task_lines(lines.skip(begin + 1)),
        begin <= i < lines.len(),
        i > begin ==> (lines[i] matches Some(l) && l.item matches RolloutItem::EventMsg(e) && (
        e is AgentMessageContentDelta || e is ItemStarted || e is ItemCompleted)),
        forall|j: int|
            i < j < lines.len() ==> (#[trigger] lines[j] matches Some(l) ==> (
            l.item matches RolloutItem::EventMsg(e) ==> !(e is AgentMessageContentDelta) && !(
            e is ItemStarted) && !(e is ItemCompleted))),
    ensures
        status::told_by(path, lines, modified, window).outcome(now) matches Some(session) && {
            &&& i == begin ==> session.thread_id is None && session.turn_id is None
            &&& i > begin ==> match lines[i]->0.item {
                RolloutItem::EventMsg(EventMsg::AgentMessageContentDelta(e)) => session.thread_id
                    == Some(e.thread_id@) && session.turn_id == Some(e.turn_id@),
                RolloutItem::EventMsg(EventMsg::ItemStarted(e)) => session.thread_id == Some(
                    e.thread_id@,
                ) && session.turn_id == Some(e.turn_id@),
                RolloutItem::EventMsg(EventMsg::ItemCompleted(e)) => session.thread_id == Some(
                    e.thread_id@,
                ) && session.turn_id == Some(e.turn_id@),
                _ => false,
            }
        },
{
    let fresh = TrackerView::fresh(path, modified, window);
    let later = lines.skip(begin + 1);
    let line = lines[begin]->0;
    assert(lines =~= lines.take(begin + 1) + later);
    lines_in_pieces(fresh, lines.take(begin + 1), later);
    assert(lines.take(begin + 1).drop_last() =~= lines.take(begin));
    place_is_newest_since_task_began(fresh.after_lines(lines.take(begin)), line, later);
    let thread = |l: RolloutLine| thread_told(l);
    let turn = |l: RolloutLine| turn_told(l);
    assert forall|j: int| i - begin - 1 < j < later.len() implies (#[trigger] later[j] matches Some(
        l,
    ) ==> thread(l) is None && turn(l) is None) by {
        assert(later[j] == lines[begin + 1 + j]);
    }
    if i > begin {
        assert(later[i - begin - 1] == lines[i]);
        last_told_at(later, thread, i - begin - 1);
        last_told_at(later, turn, i - begin - 1);
    } else {
        last_told_nowhere(later, thread);
        last_told_nowhere(later, turn);
    }
}

/// The thread that a line tells where no task runs: only items do.
pub open spec fn item_thread_told(line: RolloutLine) -> Option<Seq<char>> {
    match line.item {
        RolloutItem::EventMsg(EventMsg::ItemStarted(e)) => Some(e.thread_id@),
        RolloutItem::EventMsg(EventMsg::ItemCompleted(e)) => Some(e.thread_id@),
        _ => None,
    }
}

/// The turn that a line tells where no task runs: only items do.
pub open spec fn item_turn_told(line: RolloutLine) -> Option<Seq<char>> {
    match line.item {
        RolloutItem::EventMsg(EventMsg::ItemStarted(e)) => Some(e.turn_id@),
        RolloutItem::EventMsg(EventMsg::ItemCompleted(e)) => Some(e.turn_id@),
        _ => None,
    }
}

/// Where no task ever began or ended, the session is reported with the last whole
/// message or summary for its response, and in the thread and turn of its last
/// item.
pub proof fn reported_session_without_a_task(
    path: Seq<char>,
    modified: Option<int>,
    window: nat,
    lines: Seq<Option<RolloutLine>>,
    now: int,
)
    requires
        no_task_lines(lines),
    ensures
        status::told_by(path, lines, modified, window).outcome(now) is Some <==> (
        modified matches Some(m) && m <= now && now - m <= window * 1_000_000_000),
        status::told_by(path, lines, modified, window).outcome(now) matches Some(session) ==> {
            &&& session.last_response == last_told(lines, |line: RolloutLine| stands_told(line))
            &&& session.thread_id == last_told(lines, |line: RolloutLine| item_thread_told(line))
            &&& session.turn_id == last_told(lines, |line: RolloutLine| item_turn_told(line))
        },
{
    response_without_a_task(path, modified, window, lines);
    place_without_a_task(path, modified, window, lines);
    what_active_means(path, modified, window, lines, now);
    if has_live_task(lines) {
        let i = choose|i: int| #[trigger] task_live_since(lines, i);
        assert(starts_task(lines[i]));
    }
    if has_ended_task(lines) {
        let i = choose|i: int| 0 <= i < lines.len() && ends_task(#[trigger] lines[i]);
        assert(ends_task(lines[i]));
    }
}

/// Where no task has begun or ended, thread and turn are those of the last item.
proof fn place_without_a_task(
    path: Seq<char>,
    modified: Option<int>,
    window: nat,
    lines: Seq<Option<RolloutLine>>,
)
    requires
        no_task_lines(lines),
    ensures
        ({
            let told = status::told_by(path, lines, modified, window);
            &&& !told.active
            &&& told.thread_id == last_told(lines, |line: RolloutLine| item_thread_told(line))
            &&& told.turn_id == last_told(lines, |line: RolloutLine| item_turn_told(line))
        }),
    decreases lines.len(),
{
    if lines.len() > 0 {
        let before = lines.drop_last();
        assert forall|i: int| 0 <= i < before.len() implies !starts_task(#[trigger] before[i])
            && !ends_task(before[i]) by {
            assert(before[i] == lines[i]);
        }
        place_without_a_task(path, modified, window, before);
        assert(!starts_task(lines[lines.len() - 1]));
    }
}

/// What one more line does to whether a session is reported, whatever was read
/// before: the beginning of a task makes it reported at any time, the end of one
/// keeps it from being reported at any time, and an unreadable line does nothing.
pub proof fn one_more_line_and_activity(
    path: Seq<char>,
    modified: Option<int>,
    window: nat,
    lines: Seq<Option<RolloutLine>>,
    line: RolloutLine,
    now: int,
)
    ensures
        ({
            let before = status::told_by(path, lines, modified, window).outcome(now);
            let after = status::told_by(path, lines.push(Some(line)), modified, window).outcome(
                now,
            );
            let unread = status::told_by(path, lines.push(None), modified, window).outcome(now);
            &&& unread == before
            &&& match line.item {
                RolloutItem::EventMsg(EventMsg::TaskStarted) => after is Some,
                RolloutItem::EventMsg(EventMsg::TaskComplete(_)) => after is None,
                RolloutItem::EventMsg(EventMsg::TurnAborted) => after is None,
                _ => after is Some <==> before is Some,
            }
        }),
{
    assert(lines.push(Some(line)).drop_last() =~= lines);
    assert(lines.push(None).drop_last() =~= lines);
}

/// What one more line does to a session that is reported before and after it:
/// besides the update time, just what the line tells changes.
pub proof fn one_more_line_changes_what_it_tells(
    path: Seq<char>,
    modified: Option<int>,
    window: nat,
    lines: Seq<Option<RolloutLine>>,
    line: RolloutLine,
    now: int,
)
    requires
        status::told_by(path, lines, modified, window).outcome(now) is Some,
        status::told_by(path, lines.push(Some(line)), modified, window).outcome(now) is Some,
    ensures
        ({
            let a = status::told_by(path, lines, modified, window).outcome(now).unwrap();
            let b = status::told_by(
                path,
                lines.push(Some(line)),
                modified,
                window,
            ).outcome(now).unwrap();
            let same_place = a.thread_id == b.thread_id && a.turn_id == b.turn_id;
            let same_response = a.last_response == b.last_response;
            let same_cwd = a.cwd == b.cwd;
            let live = has_live_task(lines);
            &&& b.updated_at == Some(line.timestamp@)
            &&& b.rollout_path == a.rollout_path
            &&& match line.item {
                RolloutItem::SessionMeta(meta) => same_place && same_response && b.cwd == Some(
                    meta.meta.cwd@,
                ) && b.session_id == meta.meta.id@,
                RolloutItem::TurnContext(context) => same_place && same_response && b.cwd == Some(
                    context.cwd@,
                ) && b.session_id == a.session_id,
                RolloutItem::Compacted(compacted) => same_place && same_cwd && b.session_id
                    == a.session_id && (b.last_response == Some(compacted.message@) || (
                same_response && live)),
                RolloutItem::ResponseItem(ResponseItem::Message { role, content }) => same_place
                    && same_cwd && b.session_id == a.session_id && if role@ == "assistant"@
                    && ContentItem::joined_output(content@).len() > 0 {
                    b.last_response == Some(ContentItem::joined_output(content@))
                } else {
                    same_response
                },
                RolloutItem::ResponseItem(ResponseItem::Other) => same_place && same_cwd
                    && same_response && b.session_id == a.session_id,
                RolloutItem::EventMsg(EventMsg::Other) => same_place && same_cwd && same_response
                    && b.session_id == a.session_id,
                RolloutItem::EventMsg(EventMsg::AgentMessage(e)) => same_place && same_cwd
                    && b.session_id == a.session_id && b.last_response == Some(e.message@),
                RolloutItem::EventMsg(EventMsg::AgentMessageDelta(e)) => same_place && same_cwd
                    && b.session_id == a.session_id && if live && e.delta@.len() > 0 {
                    b.last_response == Some(e.delta@) || (a.last_response matches Some(t)
                        && b.last_response == Some(t + e.delta@))
                } else {
                    same_response
                },
                RolloutItem::EventMsg(EventMsg::AgentMessageContentDelta(e)) => same_cwd && (if live
                    && e.delta@.len() > 0 {
                    b.last_response == Some(e.delta@) || (a.last_response matches Some(t)
                        && b.last_response == Some(t + e.delta@))
                } else {
                    same_response
                }) && if live {
                    b.thread_id == Some(e.thread_id@) && b.turn_id == Some(e.turn_id@)
                } else {
                    same_place
                },
                RolloutItem::EventMsg(EventMsg::ItemStarted(e)) => same_cwd && same_response
                    && b.thread_id == Some(e.thread_id@) && b.turn_id == Some(e.turn_id@),
                RolloutItem::EventMsg(EventMsg::ItemCompleted(e)) => same_cwd && b.thread_id
                    == Some(e.thread_id@) && b.turn_id == Some(e.turn_id@) && match e.item {
                    TurnItem::AgentMessage(item) => if AgentMessageContent::joined(
                        item.content@,
                    ).len() > 0 {
                        b.last_response == Some(AgentMessageContent::joined(item.content@))
                    } else {
                        same_response
                    },
                    TurnItem::Other => same_response,
                },
                RolloutItem::EventMsg(EventMsg::TaskStarted) => same_cwd && b.last_response is None
                    && b.thread_id is None && b.turn_id is None,
                RolloutItem::EventMsg(EventMsg::TaskComplete(_)) => false,
                RolloutItem::EventMsg(EventMsg::TurnAborted) => false,
            }
        }),
{
    assert(lines.push(Some(line)).drop_last() =~= lines);
    let told = status::told_by(path, lines, modified, window);
    stays_well_formed(TrackerView::fresh(path, modified, window), lines);
    active_while_task_is_live(path, modified, window, lines);
    match line.item {
        RolloutItem::EventMsg(EventMsg::AgentMessageDelta(e)) => {
            assert(told.streamed() + e.delta@ =~= if told.streamed().len() > 0 {
                told.streamed() + e.delta@
            } else {
                e.delta@
            });
            assert(e.delta@.len() == 0 ==> told.streamed() + e.delta@ =~= told.streamed());
        },
        RolloutItem::EventMsg(EventMsg::AgentMessageContentDelta(e)) => {
            assert(told.streamed() + e.delta@ =~= if told.streamed().len() > 0 {
                told.streamed() + e.delta@
            } else {
                e.delta@
            });
            assert(e.delta@.len() == 0 ==> told.streamed() + e.delta@ =~= told.streamed());
        },
        _ => {},
    }
}

/// Streamed text goes to the end of what a task has said: behind a whole message,
/// behind text streamed before, and alone behind the beginning of the task.
pub proof fn streamed_text_goes_to_the_end(
    path: Seq<char>,
    modified: Option<int>,
    window: nat,
    lines: Seq<Option<RolloutLine>>,
    first: RolloutLine,
    second: RolloutLine,
    now: int,
)
    requires
        has_live_task(lines.push(Some(first))),
        second.item matches RolloutItem::EventMsg(e) && (e is AgentMessageDelta
            || e is AgentMessageContentDelta),
        delta_told(Some(second)).len() > 0,
    ensures
        ({
            let delta = match second.item {
                RolloutItem::EventMsg(EventMsg::AgentMessageDelta(e)) => e.delta@,
                RolloutItem::EventMsg(EventMsg::AgentMessageContentDelta(e)) => e.delta@,
                _ => Seq::empty(),
            };
            let a = status::told_by(
                path,
                lines.push(Some(first)),
                modified,
                window,
            ).outcome(now).unwrap();
            let b = status::told_by(
                path,
                lines.push(Some(first)).push(Some(second)),
                modified,
                window,
            ).outcome(now).unwrap();
            match first.item {
                RolloutItem::EventMsg(EventMsg::TaskStarted) => b.last_response == Some(delta),
                RolloutItem::EventMsg(EventMsg::AgentMessage(e)) => b.last_response == Some(
                    e.message@ + delta,
                ),
                RolloutItem::EventMsg(EventMsg::AgentMessageDelta(e)) => e.delta@.len() > 0
                    ==> a.last_response is Some && b.last_response == Some(
                    a.last_response.unwrap() + delta,
                ),
                RolloutItem::EventMsg(EventMsg::AgentMessageContentDelta(e)) => e.delta@.len() > 0
                    ==> a.last_response is Some && b.last_response == Some(
                    a.last_response.unwrap() + delta,
                ),
                _ => true,
            }
        }),
{
    let once = lines.push(Some(first));
    let twice = once.push(Some(second));
    assert(once.drop_last() =~= lines);
    assert(twice.drop_last() =~= once);
    stays_well_formed(TrackerView::fresh(path, modified, window), lines);
    stays_well_formed(TrackerView::fresh(path, modified, window), once);
    active_while_task_is_live(path, modified, window, once);
    let delta = delta_told(Some(second));
    assert(Seq::empty() + delta =~= delta);
}

} // verus!
