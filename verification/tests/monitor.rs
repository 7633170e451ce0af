use codex_monitor::clock::{modified_within, UnixTime};
use codex_monitor::command::{
    accept_socket_addr, build_socket_addr, validate_active_window, validate_poll_interval, validate_working_window,
    CommandError, MonitorCommand,
};
use codex_monitor::config::{on_config_loaded, on_home_found, ConfigStep, MonitorConfig};
use codex_monitor::order::sort_newest_first;
use codex_monitor::publish::{PublishAction, Publisher};
use codex_monitor::scan::{Scan, ScanError, ScanEvent, ScanStep};
use codex_monitor::session::{ActiveSession, SessionReport, SessionSnapshot, SessionStatus};
use codex_monitor::socket::{SocketAction, SocketEvent, SocketSession};
use codex_monitor::text::{comes_before, copy_text, decimal, same_text};

fn report(id: &str, updated_at: Option<&str>) -> SessionReport {
    SessionReport {
        session: ActiveSession {
            session_id: id.to_string(),
            thread_id: None,
            turn_id: None,
            cwd: None,
            last_response: None,
            updated_at: updated_at.map(|t| t.to_string()),
            rollout_path: format!("/{id}"),
        },
        last_modified_ms: Some(7),
        status: SessionStatus::Idle,
    }
}

fn ids(sessions: &[SessionReport]) -> Vec<String> {
    sessions
        .iter()
        .map(|r| r.session.session_id.clone())
        .collect()
}

fn snapshot(names: &[&str]) -> SessionSnapshot {
    SessionSnapshot {
        sessions: names.iter().map(|id| report(id, None)).collect(),
    }
}

#[test]
fn reports_are_ordered_newest_first_and_stably() {
    let ordered = sort_newest_first(vec![
        report("none-1", None),
        report("b", Some("2025-01-02")),
        report("a-1", Some("2025-01-03")),
        report("c", Some("2025-01-01")),
        report("a-2", Some("2025-01-03")),
        report("none-2", None),
    ]);
    assert_eq!(ids(&ordered), ["a-1", "a-2", "b", "c", "none-1", "none-2"]);
}

#[test]
fn the_order_is_the_one_of_a_stable_sort() {
    let dates = [
        None,
        Some("b"),
        Some(""),
        Some("ab"),
        Some("a"),
        Some("\u{e9}"),
        Some("z"),
        Some("ab"),
        Some("\u{1f600}"),
        Some("\u{ffff}"),
        None,
    ];
    let reports: Vec<SessionReport> = dates
        .iter()
        .enumerate()
        .map(|(i, date)| report(&format!("{i}"), *date))
        .collect();
    let mut expected = reports.clone();
    expected.sort_by(|a, b| b.session.updated_at.cmp(&a.session.updated_at));
    assert_eq!(sort_newest_first(reports), expected);
}

#[test]
fn strings_are_compared_by_bytes() {
    for a in ["", "a", "ab", "b", "\u{e9}", "\u{1f600}", "\u{ffff}"] {
        for b in ["", "a", "ab", "b", "\u{e9}", "\u{1f600}", "\u{ffff}"] {
            assert_eq!(comes_before(a, b), a < b);
        }
    }
}

#[test]
fn optional_texts_are_copied_and_compared() {
    let text = Some("x".to_string());
    assert!(same_text(&copy_text(&text), &text));
    assert!(same_text(&copy_text(&None), &None));
    assert!(!same_text(&text, &None));
    assert!(!same_text(&None, &text));
    assert!(!same_text(&text, &Some("y".to_string())));
}

#[test]
fn numbers_are_written_in_decimal() {
    for n in [0, 7, 10, 80, 8787, 65535, u32::MAX] {
        assert_eq!(decimal(n), n.to_string());
    }
}

#[test]
fn a_scan_reads_every_page_and_orders_what_is_active() {
    let mut step: ScanStep<String, u32, String> = Scan::start();
    let mut listed = Vec::new();
    let mut read = Vec::new();
    let done = loop {
        step = match step {
            ScanStep::List { scan, cursor } => {
                listed.push(cursor);
                let (paths, next_cursor) = match cursor {
                    None => (vec!["old", "idle"], Some(1)),
                    Some(1) => (vec![], Some(2)),
                    Some(_) => (vec!["new"], None),
                };
                scan.step(ScanEvent::Listed {
                    paths: paths.iter().map(|p| p.to_string()).collect(),
                    next_cursor,
                })
            }
            ScanStep::Read { scan, path } => {
                read.push(path.clone());
                scan.step(ScanEvent::Read(match path.as_str() {
                    "old" => Some(report("old", Some("1"))),
                    "new" => Some(report("new", Some("2"))),
                    _ => None,
                }))
            }
            ScanStep::Done(snapshot) => break snapshot,
            ScanStep::Failed(error) => panic!("{error:?}"),
        };
    };
    assert_eq!(listed, [None, Some(1), Some(2)]);
    assert_eq!(read, ["old", "idle", "new"]);
    assert_eq!(ids(&done.sessions), ["new", "old"]);
}

fn scan_of(pages: &[&[&str]]) -> SessionSnapshot {
    let mut step: ScanStep<String, usize, String> = Scan::start();
    loop {
        step = match step {
            ScanStep::List { scan, cursor } => {
                let page = cursor.unwrap_or(0);
                scan.step(ScanEvent::Listed {
                    paths: pages[page].iter().map(|p| p.to_string()).collect(),
                    next_cursor: Some(page + 1).filter(|next| *next < pages.len()),
                })
            }
            ScanStep::Read { scan, path } => {
                let date = path.len().to_string();
                scan.step(ScanEvent::Read(Some(report(&path, Some(&date)))))
            }
            ScanStep::Done(snapshot) => return snapshot,
            ScanStep::Failed(error) => panic!("{error:?}"),
        };
    }
}

#[test]
fn the_cut_into_pages_makes_no_difference() {
    let whole = scan_of(&[&["a", "bb", "c", "dd"]]);
    assert_eq!(ids(&whole.sessions), ["bb", "dd", "a", "c"]);
    assert_eq!(scan_of(&[&["a"], &["bb", "c"], &[], &["dd"]]), whole);
}

#[test]
fn a_scan_without_active_sessions_is_empty() {
    let step: ScanStep<String, u32, String> = Scan::start();
    let step: ScanStep<String, u32, String> = match step {
        ScanStep::List { scan, cursor: None } => scan.step(ScanEvent::Listed {
            paths: vec!["only".to_string()],
            next_cursor: None,
        }),
        other => panic!("{other:?}"),
    };
    let step: ScanStep<String, u32, String> = match step {
        ScanStep::Read { scan, .. } => scan.step(ScanEvent::Read(None)),
        other => panic!("{other:?}"),
    };
    match step {
        ScanStep::Done(snapshot) => assert_eq!(snapshot, SessionSnapshot::empty()),
        other => panic!("{other:?}"),
    }
}

#[test]
fn a_scan_ends_with_the_first_failure() {
    let step: ScanStep<String, u32, String> = Scan::start();
    let scan = match step {
        ScanStep::List { scan, .. } => scan,
        other => panic!("{other:?}"),
    };
    match scan.step(ScanEvent::ListFailed("no home".to_string())) {
        ScanStep::Failed(failure) => {
            assert_eq!(failure.message(), "failed to list conversations");
            assert!(matches!(failure, ScanError::List(error) if error == "no home"));
        }
        other => panic!("{other:?}"),
    }

    let step: ScanStep<String, u32, String> = Scan::start();
    let scan = match step {
        ScanStep::List { scan, .. } => scan,
        other => panic!("{other:?}"),
    };
    match scan.step(ScanEvent::ReadFailed {
        path: "/p".to_string(),
        error: "gone".to_string(),
    }) {
        ScanStep::Failed(failure) => {
            assert_eq!(failure.message(), "failed to read rollout /p");
            assert!(matches!(failure, ScanError::Read { error, .. } if error == "gone"));
        }
        other => panic!("{other:?}"),
    }
}

#[test]
fn only_changed_snapshots_are_published() {
    let mut publisher = Publisher::new();
    let mut sent = Vec::new();
    let scans: Vec<Result<SessionSnapshot, String>> = vec![
        Ok(snapshot(&[])),
        Ok(snapshot(&[])),
        Ok(snapshot(&["a"])),
        Err("disk".to_string()),
        Ok(snapshot(&["a"])),
        Ok(snapshot(&["a", "b"])),
        Ok(snapshot(&["b", "a"])),
        Ok(snapshot(&["a"])),
    ];
    let mut complaints = Vec::new();
    for scan in scans {
        match publisher.on_scan(scan) {
            PublishAction::Publish(snapshot) => sent.push(ids(&snapshot.sessions).join(",")),
            PublishAction::Keep => {}
            PublishAction::Complain(error) => complaints.push(error),
        }
    }
    assert_eq!(sent, ["", "a", "a,b", "b,a", "a"]);
    assert_eq!(complaints, ["disk"]);
}

#[test]
fn any_field_makes_a_difference() {
    let base = report("a", Some("1"));
    let mut changed = Vec::new();
    for field in 0..9 {
        let mut other = base.copy();
        match field {
            0 => other.session.session_id = "b".to_string(),
            1 => other.session.thread_id = Some("t".to_string()),
            2 => other.session.turn_id = Some("t".to_string()),
            3 => other.session.cwd = Some("/".to_string()),
            4 => other.session.last_response = Some(String::new()),
            5 => other.session.updated_at = None,
            6 => other.session.rollout_path = "/other".to_string(),
            7 => other.last_modified_ms = None,
            _ => other.status = SessionStatus::Working,
        }
        changed.push(other);
    }
    assert!(base.same(&base.copy()));
    for other in changed {
        assert!(!base.same(&other));
        assert_ne!(base, other);
    }
}

#[test]
fn a_client_is_greeted_and_then_kept_up_to_date() {
    let mut session = SocketSession::new();
    match session.on_event(SocketEvent::Connected {
        latest: Some(snapshot(&["a"])),
    }) {
        SocketAction::Send(sent) => assert_eq!(sent, snapshot(&["a"])),
        other => panic!("{other:?}"),
    }
    assert!(matches!(
        session.on_event(SocketEvent::Sent),
        SocketAction::Subscribe
    ));
    match session.on_event(SocketEvent::Update(snapshot(&["b"]))) {
        SocketAction::Send(sent) => assert_eq!(sent, snapshot(&["b"])),
        other => panic!("{other:?}"),
    }
    for quiet in [
        SocketEvent::Sent,
        SocketEvent::Lagged,
        SocketEvent::PeerMessage,
    ] {
        assert!(matches!(session.on_event(quiet), SocketAction::Wait));
    }
    for end in [
        SocketEvent::SendFailed,
        SocketEvent::UpdatesEnded,
        SocketEvent::PeerClosed,
        SocketEvent::PeerFailed,
    ] {
        assert!(matches!(session.on_event(end), SocketAction::Close));
    }
}

#[test]
fn a_client_is_sent_every_update_once_until_the_end() {
    let mut session = SocketSession::new();
    let mut sent = Vec::new();
    for event in [
        SocketEvent::Connected { latest: None },
        SocketEvent::Sent,
        SocketEvent::PeerMessage,
        SocketEvent::Update(snapshot(&["a"])),
        SocketEvent::Sent,
        SocketEvent::Lagged,
        SocketEvent::Update(snapshot(&["a", "b"])),
        SocketEvent::PeerClosed,
        SocketEvent::Update(snapshot(&["late"])),
    ] {
        match session.on_event(event) {
            SocketAction::Send(snapshot) => sent.push(ids(&snapshot.sessions).join(",")),
            SocketAction::Close => break,
            SocketAction::Subscribe | SocketAction::Wait => {}
        }
    }
    assert_eq!(sent, ["", "a", "a,b"]);
}

#[test]
fn a_client_that_comes_before_any_scan_gets_the_empty_snapshot() {
    let mut session = SocketSession::new();
    match session.on_event(SocketEvent::Connected { latest: None }) {
        SocketAction::Send(sent) => assert_eq!(sent, SessionSnapshot::empty()),
        other => panic!("{other:?}"),
    }
}

#[test]
fn intervals_and_windows_must_be_positive() {
    assert_eq!(validate_poll_interval(1), Ok(1));
    assert_eq!(validate_poll_interval(i64::MAX), Ok(i64::MAX as u64));
    assert_eq!(validate_poll_interval(0), Err(CommandError::PollInterval));
    assert_eq!(
        validate_active_window(i64::MIN),
        Err(CommandError::ActiveWindow)
    );
    assert_eq!(validate_active_window(120), Ok(120));
    assert_eq!(
        validate_working_window(-1),
        Err(CommandError::WorkingWindow)
    );
    assert_eq!(validate_working_window(15), Ok(15));
}

#[test]
fn a_socket_address_needs_a_port() {
    assert_eq!(
        build_socket_addr("127.0.0.1", 8787),
        Ok("127.0.0.1:8787".to_string())
    );
    assert_eq!(build_socket_addr("[::1]", 1), Ok("[::1]:1".to_string()));
    assert_eq!(
        build_socket_addr("0.0.0.0", 65535),
        Ok("0.0.0.0:65535".to_string())
    );
    for port in [0, -1, 65536, i32::MAX, i32::MIN] {
        assert_eq!(build_socket_addr("127.0.0.1", port), Err(CommandError::Port));
        assert_eq!(build_socket_addr("localhost", port), Err(CommandError::Port));
    }
}

#[test]
fn a_socket_address_needs_an_address_for_a_host() {
    for host in ["localhost", "h", "", "::1", "127.0.0.1:1", "256.0.0.1", " 127.0.0.1"] {
        assert_eq!(build_socket_addr(host, 8787), Err(CommandError::Host));
    }
}

#[test]
fn an_address_is_accepted_if_it_parses() {
    assert_eq!(
        accept_socket_addr("any".to_string(), true),
        Ok("any".to_string())
    );
    assert_eq!(
        accept_socket_addr("any".to_string(), false),
        Err(CommandError::Host)
    );
}

#[test]
fn errors_say_what_is_wrong() {
    assert_eq!(
        CommandError::Port.message(),
        "port must be between 1 and 65535"
    );
    assert_eq!(
        CommandError::PollInterval.message(),
        "poll interval must be > 0"
    );
    assert_eq!(
        CommandError::ActiveWindow.message(),
        "active window must be > 0"
    );
    assert_eq!(
        CommandError::WorkingWindow.message(),
        "working window must be > 0"
    );
    assert_eq!(CommandError::Host.message(), "invalid host or port");
}

#[test]
fn the_default_command_is_accepted() {
    let settings = MonitorCommand::default().validate().expect("valid");
    assert_eq!(settings.addr, "127.0.0.1:8787");
    assert_eq!(settings.poll_interval_ms, 1000);
    assert_eq!(settings.active_window_seconds, 120);
    assert_eq!(settings.working_window_seconds, 15);
}

#[test]
fn the_first_fault_of_a_command_counts() {
    let mut command = MonitorCommand {
        host: "h".to_string(),
        port: 0,
        poll_interval_ms: 0,
        active_window_seconds: 0,
        working_window_seconds: 0,
    };
    assert_eq!(command.validate().err(), Some(CommandError::PollInterval));
    command.poll_interval_ms = 5;
    assert_eq!(command.validate().err(), Some(CommandError::ActiveWindow));
    command.active_window_seconds = 5;
    assert_eq!(command.validate().err(), Some(CommandError::WorkingWindow));
    command.working_window_seconds = 5;
    assert_eq!(command.validate().err(), Some(CommandError::Port));
    command.port = 5;
    assert_eq!(command.validate().err(), Some(CommandError::Host));
    command.host = "10.0.0.1".to_string();
    assert_eq!(
        command.validate().map(|s| s.addr),
        Ok("10.0.0.1:5".to_string())
    );
}

#[test]
fn the_configuration_is_used_if_there_is_one() {
    let loaded: Result<MonitorConfig<&str>, &str> = Ok(MonitorConfig {
        codex_home: "/home",
        default_provider: "local".to_string(),
    });
    match on_config_loaded(loaded) {
        ConfigStep::Use(config) => {
            assert_eq!(config.codex_home, "/home");
            assert_eq!(config.default_provider, "local");
        }
        ConfigStep::FallBack(error) => panic!("{error}"),
    }
    let failed: Result<MonitorConfig<&str>, &str> = Err("broken");
    match on_config_loaded(failed) {
        ConfigStep::Use(config) => panic!("{config:?}"),
        ConfigStep::FallBack(error) => assert_eq!(error, "broken"),
    }
}

#[test]
fn the_home_directory_alone_will_do() {
    let home: Result<&str, &str> = Ok("/home");
    let config = on_home_found(home).expect("home");
    assert_eq!(config.codex_home, "/home");
    assert_eq!(config.default_provider, "openai");
    let lost: Result<&str, &str> = Err("no home");
    let error = on_home_found(lost).err().expect("error");
    assert_eq!(error.error, "no home");
    assert_eq!(error.message(), "failed to resolve CODEX_HOME");
}

#[test]
fn times_are_counted_from_the_epoch() {
    assert_eq!(UnixTime::from_epoch_distance(Ok(5)).nanos, 5);
    assert_eq!(UnixTime::from_epoch_distance(Err(5)).nanos, -5);
    assert_eq!(
        UnixTime::from_epoch_distance(Ok(u128::MAX)).nanos,
        i128::MAX
    );
    assert_eq!(
        UnixTime::from_epoch_distance(Err(u128::MAX)).nanos,
        i128::MIN
    );
    for nanos in [0, 1, 999_999, 1_000_000, -1, -1_000_000, -1_000_001, i128::MIN, i128::MAX] {
        assert_eq!(UnixTime { nanos }.millis(), nanos.div_euclid(1_000_000));
    }
}

#[test]
fn far_apart_times_are_not_recent() {
    let first = UnixTime { nanos: i128::MIN };
    let last = UnixTime { nanos: i128::MAX };
    assert!(!modified_within(Some(first), last, u64::MAX));
    assert!(modified_within(Some(first), first, 0));
    assert!(!modified_within(None, first, u64::MAX));
}

#[test]
fn statuses_have_their_words() {
    assert_eq!(SessionStatus::Working.name(), "working");
    assert_eq!(SessionStatus::Idle.name(), "idle");
}
