use std::time::{Duration, SystemTime};

use codex_monitor::clock::UnixTime;
use codex_monitor::rollout::{
    AgentMessageContent, AgentMessageContentDeltaEvent, AgentMessageDeltaEvent, AgentMessageEvent,
    AgentMessageItem, CompactedItem, ContentItem, EventMsg, ItemCompletedEvent, ItemStartedEvent,
    ResponseItem, RolloutItem, RolloutLine, SessionMeta, SessionMetaLine, TaskCompleteEvent,
    TurnContextItem, TurnItem,
};
use codex_monitor::session::{ActiveSession, SessionStatus};
use codex_monitor::status::{
    report_from_lines, report_from_lines_at, status_from_lines, status_from_lines_at,
    status_from_lines_with_window,
};
use codex_monitor::tracker::RolloutStatusTracker;

const CONVERSATION_ID: &str = "0199a213-81c0-7800-8aa1-bbab2a035a53";

const SECOND: i128 = 1_000_000_000;

fn rollout_line(timestamp: &str, item: RolloutItem) -> Option<RolloutLine> {
    Some(RolloutLine {
        timestamp: timestamp.to_string(),
        item,
    })
}

fn event(timestamp: &str, event: EventMsg) -> Option<RolloutLine> {
    rollout_line(timestamp, RolloutItem::EventMsg(event))
}

fn session_meta() -> RolloutItem {
    RolloutItem::SessionMeta(SessionMetaLine {
        meta: SessionMeta {
            id: CONVERSATION_ID.to_string(),
            timestamp: "2025-01-01T00:00:00Z".to_string(),
            cwd: "/tmp".to_string(),
            originator: "codex_cli_rs".to_string(),
            cli_version: "0.0.0".to_string(),
        },
    })
}

fn task_started() -> EventMsg {
    EventMsg::TaskStarted
}

fn task_complete(last_agent_message: Option<&str>) -> EventMsg {
    EventMsg::TaskComplete(TaskCompleteEvent {
        last_agent_message: last_agent_message.map(|m| m.to_string()),
    })
}

fn delta(text: &str) -> EventMsg {
    EventMsg::AgentMessageDelta(AgentMessageDeltaEvent {
        delta: text.to_string(),
    })
}

fn content_delta(text: &str) -> EventMsg {
    EventMsg::AgentMessageContentDelta(AgentMessageContentDeltaEvent {
        thread_id: CONVERSATION_ID.to_string(),
        turn_id: "turn-1".to_string(),
        item_id: "item-1".to_string(),
        delta: text.to_string(),
    })
}

fn agent_message(text: &str) -> EventMsg {
    EventMsg::AgentMessage(AgentMessageEvent {
        message: text.to_string(),
    })
}

fn assistant_says(role: &str, pieces: Vec<ContentItem>) -> RolloutItem {
    RolloutItem::ResponseItem(ResponseItem::Message {
        role: role.to_string(),
        content: pieces,
    })
}

fn output(text: &str) -> ContentItem {
    ContentItem::OutputText {
        text: text.to_string(),
    }
}

fn agent_item(id: &str, pieces: &[&str]) -> TurnItem {
    TurnItem::AgentMessage(AgentMessageItem {
        id: id.to_string(),
        content: pieces
            .iter()
            .map(|p| AgentMessageContent::Text {
                text: p.to_string(),
            })
            .collect(),
    })
}

fn unix(time: SystemTime) -> UnixTime {
    UnixTime::from_epoch_distance(
        time.duration_since(SystemTime::UNIX_EPOCH)
            .map(|after| after.as_nanos())
            .map_err(|before| before.duration().as_nanos()),
    )
}

fn at(nanos: i128) -> UnixTime {
    UnixTime { nanos }
}

#[test]
fn status_from_lines_reports_active_with_latest_response() {
    let lines = vec![
        rollout_line("2025-01-01T00:00:00Z", session_meta()),
        event("2025-01-01T00:00:01Z", task_started()),
        event(
            "2025-01-01T00:00:02Z",
            EventMsg::ItemStarted(ItemStartedEvent {
                thread_id: CONVERSATION_ID.to_string(),
                turn_id: "turn-1".to_string(),
                item: agent_item("item-1", &["Hello"]),
            }),
        ),
        event("2025-01-01T00:00:03Z", content_delta("Hello")),
        event("2025-01-01T00:00:04Z", content_delta(" world")),
    ];

    let status = status_from_lines("/rollout.jsonl", lines).expect("expected active session");

    assert_eq!(
        status,
        ActiveSession {
            session_id: CONVERSATION_ID.to_string(),
            thread_id: Some(CONVERSATION_ID.to_string()),
            turn_id: Some("turn-1".to_string()),
            cwd: Some("/tmp".to_string()),
            last_response: Some("Hello world".to_string()),
            updated_at: Some("2025-01-01T00:00:04Z".to_string()),
            rollout_path: "/rollout.jsonl".to_string(),
        }
    );
}

#[test]
fn status_from_lines_ignores_completed_turns() {
    let lines = vec![
        event("2025-01-01T00:00:00Z", task_started()),
        event("2025-01-01T00:00:01Z", task_complete(Some("done"))),
        event(
            "2025-01-01T00:00:02Z",
            EventMsg::ItemCompleted(ItemCompletedEvent {
                thread_id: CONVERSATION_ID.to_string(),
                turn_id: "turn-2".to_string(),
                item: agent_item("item-2", &["done"]),
            }),
        ),
    ];

    let status = status_from_lines("/rollout.jsonl", lines);
    assert_eq!(status, None);
}

#[test]
fn status_from_lines_marks_recent_activity_as_active() {
    let lines = vec![rollout_line("2025-01-01T00:00:00Z", session_meta())];
    let status = status_from_lines_with_window(
        "/rollout.jsonl",
        lines,
        Some(unix(SystemTime::now())),
        120,
    )
    .expect("expected active session");

    assert_eq!(status.session_id, CONVERSATION_ID.to_string());
    assert_eq!(status.cwd, Some("/tmp".to_string()));
}

#[test]
fn status_from_lines_recent_activity_prefers_active_flag() {
    let lines = vec![
        rollout_line("2025-01-01T00:00:00Z", session_meta()),
        event("2025-01-01T00:00:01Z", task_started()),
    ];

    let old_time = SystemTime::now()
        .checked_sub(Duration::from_secs(10_000))
        .expect("old time");
    let status =
        status_from_lines_with_window("/rollout.jsonl", lines, Some(unix(old_time)), 120)
            .expect("expected active session");

    assert_eq!(status.session_id, CONVERSATION_ID.to_string());
}

#[test]
fn status_from_lines_recent_activity_skips_completed_sessions() {
    let lines = vec![
        event("2025-01-01T00:00:00Z", task_started()),
        event("2025-01-01T00:00:01Z", task_complete(Some("done"))),
        rollout_line("2025-01-01T00:00:02Z", session_meta()),
    ];

    let status = status_from_lines_with_window(
        "/rollout.jsonl",
        lines,
        Some(unix(SystemTime::now())),
        120,
    );

    assert_eq!(status, None);
}

#[test]
fn status_from_lines_recent_activity_skips_aborted_sessions() {
    let lines = vec![
        event("2025-01-01T00:00:00Z", task_started()),
        event("2025-01-01T00:00:01Z", EventMsg::TurnAborted),
        rollout_line("2025-01-01T00:00:02Z", session_meta()),
    ];

    let status = status_from_lines_with_window(
        "/rollout.jsonl",
        lines,
        Some(unix(SystemTime::now())),
        120,
    );

    assert_eq!(status, None);
}

#[test]
fn status_from_lines_recent_activity_ignores_old_sessions() {
    let lines = vec![rollout_line("2025-01-01T00:00:00Z", session_meta())];

    let old_time = SystemTime::now()
        .checked_sub(Duration::from_secs(10_000))
        .expect("old time");
    let status =
        status_from_lines_with_window("/rollout.jsonl", lines, Some(unix(old_time)), 120);

    assert_eq!(status, None);
}

#[test]
fn a_file_modified_in_the_future_is_not_recent() {
    let later = SystemTime::now() + Duration::from_secs(10_000);
    let status = status_from_lines_with_window(
        "/rollout.jsonl",
        vec![rollout_line("t", session_meta())],
        Some(unix(later)),
        120,
    );
    assert_eq!(status, None);
}

#[test]
fn no_lines_and_no_modification_time_tell_of_nothing() {
    assert_eq!(status_from_lines("/r", vec![]), None);
    assert_eq!(status_from_lines_with_window("/r", vec![], None, 120), None);
}

#[test]
fn a_recent_file_without_any_record_is_an_unknown_session() {
    let session = status_from_lines_at("/r", vec![], Some(at(0)), 120, at(120 * SECOND));
    assert_eq!(
        session,
        Some(ActiveSession {
            session_id: "unknown".to_string(),
            thread_id: None,
            turn_id: None,
            cwd: None,
            last_response: None,
            updated_at: None,
            rollout_path: "/r".to_string(),
        })
    );
}

#[test]
fn the_active_window_ends_to_the_nanosecond() {
    let edge = 120 * SECOND;
    assert!(status_from_lines_at("/r", vec![], Some(at(0)), 120, at(edge)).is_some());
    assert!(status_from_lines_at("/r", vec![], Some(at(0)), 120, at(edge + 1)).is_none());
    assert!(status_from_lines_at("/r", vec![], Some(at(1)), 120, at(0)).is_none());
    assert!(status_from_lines_at("/r", vec![], Some(at(0)), 0, at(0)).is_some());
}

#[test]
fn a_wider_window_keeps_a_session_active() {
    let now = at(100 * SECOND);
    for window in [100, 101, 5000, u64::MAX] {
        assert!(status_from_lines_at("/r", vec![], Some(at(0)), window, now).is_some());
    }
    assert!(status_from_lines_at("/r", vec![], Some(at(0)), 99, now).is_none());
}

#[test]
fn unreadable_lines_are_passed_over() {
    let readable = || {
        vec![
            rollout_line("1", session_meta()),
            event("2", task_started()),
            event("3", delta("text")),
        ]
    };
    let mut broken = vec![None];
    for line in readable() {
        broken.push(line);
        broken.push(None);
    }
    let status = status_from_lines("/r", broken);
    assert_eq!(status, status_from_lines("/r", readable()));
    assert_eq!(
        status.and_then(|s| s.updated_at),
        Some("3".to_string())
    );
}

#[test]
fn a_second_task_makes_an_ended_session_active_again() {
    let lines = vec![
        event("1", task_started()),
        event("2", task_complete(Some("done"))),
        event("3", task_started()),
    ];
    let status = status_from_lines("/r", lines).expect("active");
    assert_eq!(status.last_response, None);
    assert_eq!(status.updated_at, Some("3".to_string()));
}

#[test]
fn a_started_task_forgets_thread_turn_and_response() {
    let lines = vec![
        event(
            "1",
            EventMsg::ItemStarted(ItemStartedEvent {
                thread_id: "thread-0".to_string(),
                turn_id: "turn-0".to_string(),
                item: TurnItem::Other,
            }),
        ),
        event("2", agent_message("before")),
        event("3", task_started()),
    ];
    let status = status_from_lines("/r", lines).expect("active");
    assert_eq!(status.thread_id, None);
    assert_eq!(status.turn_id, None);
    assert_eq!(status.last_response, None);
    assert_eq!(status.session_id, "unknown".to_string());
}

#[test]
fn the_thread_names_a_session_without_an_opening_record() {
    let lines = vec![
        event("1", task_started()),
        event("2", content_delta("Hi")),
    ];
    let status = status_from_lines("/r", lines).expect("active");
    assert_eq!(status.session_id, CONVERSATION_ID.to_string());
    assert_eq!(status.last_response, Some("Hi".to_string()));
}

#[test]
fn deltas_accumulate_after_a_whole_message() {
    let lines = vec![
        event("1", task_started()),
        event("2", delta("lost")),
        event("3", agent_message("one")),
        event("4", delta(" two")),
        event("5", EventMsg::Other),
    ];
    let status = status_from_lines("/r", lines).expect("active");
    assert_eq!(status.last_response, Some("one two".to_string()));
    assert_eq!(status.updated_at, Some("5".to_string()));
}

#[test]
fn assistant_messages_are_joined_and_others_ignored() {
    let lines = vec![
        event("1", task_started()),
        rollout_line(
            "2",
            assistant_says("assistant", vec![output("a"), ContentItem::Other, output("b")]),
        ),
        rollout_line("3", assistant_says("user", vec![output("question")])),
        rollout_line("4", assistant_says("assistant", vec![ContentItem::Other])),
        rollout_line("5", RolloutItem::ResponseItem(ResponseItem::Other)),
    ];
    let status = status_from_lines("/r", lines).expect("active");
    assert_eq!(status.last_response, Some("ab".to_string()));
}

#[test]
fn a_prompt_does_not_hide_what_is_streamed() {
    let lines = vec![
        event("0", agent_message("earlier task")),
        event("1", task_started()),
        rollout_line("2", assistant_says("user", vec![output("question")])),
        event("3", delta("first")),
        rollout_line("4", assistant_says("assistant", vec![output("whole")])),
        rollout_line("5", assistant_says("system", vec![output("note")])),
        None,
        event("6", content_delta(" and")),
        event("7", delta(" more")),
    ];
    let status = status_from_lines("/r", lines).expect("active");
    assert_eq!(status.last_response, Some("whole and more".to_string()));
}

#[test]
fn without_a_task_the_last_message_stands() {
    let lines = vec![
        event("1", agent_message("one")),
        rollout_line("2", assistant_says("assistant", vec![output("two")])),
        event("3", delta("stray")),
        rollout_line("4", assistant_says("user", vec![output("question")])),
    ];
    let session = status_from_lines_at("/r", lines, Some(at(0)), 120, at(0)).expect("recent");
    assert_eq!(session.last_response, Some("two".to_string()));
}

#[test]
fn a_running_task_is_reported_alike_at_any_time() {
    let lines = || vec![event("1", task_started()), event("2", delta("text"))];
    let expected = status_from_lines("/r", lines());
    assert!(expected.is_some());
    for (modified, window, now) in [
        (None, 0, 0),
        (Some(at(0)), 1, 100 * SECOND),
        (Some(at(5)), u64::MAX, 0),
    ] {
        assert_eq!(
            status_from_lines_at("/r", lines(), modified, window, at(now)),
            expected
        );
    }
}

#[test]
fn a_completed_item_is_heard_and_located() {
    let lines = vec![
        event("1", task_started()),
        event(
            "2",
            EventMsg::ItemCompleted(ItemCompletedEvent {
                thread_id: "thread-1".to_string(),
                turn_id: "turn-1".to_string(),
                item: agent_item("item-1", &["x", "", "y"]),
            }),
        ),
        event(
            "3",
            EventMsg::ItemCompleted(ItemCompletedEvent {
                thread_id: "thread-2".to_string(),
                turn_id: "turn-2".to_string(),
                item: TurnItem::Other,
            }),
        ),
    ];
    let status = status_from_lines("/r", lines).expect("active");
    assert_eq!(status.last_response, Some("xy".to_string()));
    assert_eq!(status.thread_id, Some("thread-2".to_string()));
    assert_eq!(status.turn_id, Some("turn-2".to_string()));
}

#[test]
fn a_turn_context_moves_the_session() {
    let lines = vec![
        rollout_line("1", session_meta()),
        rollout_line(
            "2",
            RolloutItem::TurnContext(TurnContextItem {
                cwd: "/work".to_string(),
            }),
        ),
        event("3", task_started()),
    ];
    let status = status_from_lines("/r", lines).expect("active");
    assert_eq!(status.cwd, Some("/work".to_string()));
}

#[test]
fn a_compaction_is_the_response_until_text_is_streamed() {
    let compacted = || {
        rollout_line(
            "2",
            RolloutItem::Compacted(CompactedItem {
                message: "summary".to_string(),
            }),
        )
    };
    let quiet = vec![event("1", task_started()), compacted()];
    assert_eq!(
        status_from_lines("/r", quiet).expect("active").last_response,
        Some("summary".to_string())
    );
    let streaming = vec![
        event("1", task_started()),
        event("2", delta("text")),
        compacted(),
    ];
    assert_eq!(
        status_from_lines("/r", streaming)
            .expect("active")
            .last_response,
        Some("text".to_string())
    );
}

#[test]
fn deltas_outside_of_a_task_are_ignored() {
    let lines = vec![
        event("1", delta("stray")),
        event("2", content_delta("stray")),
    ];
    let session = status_from_lines_at("/r", lines, Some(at(0)), 120, at(0)).expect("recent");
    assert_eq!(session.last_response, None);
    assert_eq!(session.thread_id, None);
    assert_eq!(session.updated_at, Some("2".to_string()));
}

#[test]
fn an_aborted_turn_ends_the_task() {
    let started = || {
        let mut tracker = RolloutStatusTracker::new("/r", Some(at(0)), 120);
        tracker.apply_task_started();
        tracker.apply_message_delta(AgentMessageDeltaEvent {
            delta: "partial".to_string(),
        });
        tracker
    };
    assert_eq!(
        started().finish().and_then(|s| s.last_response),
        Some("partial".to_string())
    );
    let mut aborted = started();
    aborted.apply_turn_aborted();
    assert_eq!(aborted.finish_at(at(0)), None);
}

#[test]
fn lines_may_be_applied_one_by_one() {
    let mut tracker = RolloutStatusTracker::new("/rollout.jsonl", Some(at(0)), 120);
    for line in [
        rollout_line("1", session_meta()),
        event("2", task_started()),
        event("3", content_delta("Hello")),
    ]
    .into_iter()
    .flatten()
    {
        tracker.apply_line(line);
    }
    let whole = status_from_lines(
        "/rollout.jsonl",
        vec![
            rollout_line("1", session_meta()),
            event("2", task_started()),
            event("3", content_delta("Hello")),
        ],
    );
    assert_eq!(tracker.finish_at(at(1_000_000 * SECOND)), whole);
}

#[test]
fn a_report_is_working_within_the_working_window_only() {
    let lines = || vec![event("1", task_started())];
    let modified = Some(at(1_735_689_604_000 * 1_000_000));
    let report = |seconds: i128| {
        let now = at((1_735_689_604 + seconds) * SECOND);
        report_from_lines_at("/r", lines(), modified, 120, 15, now).expect("active")
    };
    assert_eq!(report(0).status, SessionStatus::Working);
    assert_eq!(report(15).status, SessionStatus::Working);
    assert_eq!(report(16).status, SessionStatus::Idle);
    assert_eq!(report(-1).status, SessionStatus::Idle);
    assert_eq!(report(100_000).last_modified_ms, Some(1_735_689_604_000));
    assert_eq!(report(0).session.session_id, "unknown".to_string());
}

#[test]
fn a_report_without_modification_time_is_idle() {
    let report = report_from_lines("/r", vec![event("1", task_started())], None, 120, 15)
        .expect("active");
    assert_eq!(report.status, SessionStatus::Idle);
    assert_eq!(report.last_modified_ms, None);
}

#[test]
fn reports_are_made_on_active_sessions_only() {
    let now = Some(unix(SystemTime::now()));
    let ended = vec![event("1", task_started()), event("2", task_complete(None))];
    assert_eq!(report_from_lines("/r", ended, now, 120, 15), None);
    let fresh = report_from_lines("/r", vec![], now, 120, 15).expect("recent");
    assert_eq!(fresh.status, SessionStatus::Working);
}
