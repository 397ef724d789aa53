use poshanka::feed::command::{activate, check_output, close, input, run_command, CommandError};
use poshanka::feed::exec::{map_command_err, next_backoff_secs, signal_for_message};
use poshanka::feed::list::{frame_list_output, items_of_message, ListFrame};
use poshanka::feed::{
    decode_line, frame_line, parse_urgency, FeedEvent, FeedMessage, FeedSignal, FeedSignalKind,
    NotificationState, ParseFeedError, ProviderSpec, RawEvent, RawIcon, RawLine, RawNotification,
};
use poshanka::model::{NotificationView, Urgency};

fn wire(id: u32, app: &str, summary: &str, body: &str, urgency: &str) -> RawNotification {
    RawNotification {
        id,
        app_id: app.to_string(),
        summary: summary.to_string(),
        body: body.to_string(),
        urgency: urgency.to_string(),
        timeout_ms: None,
        has_actions: false,
        icon: None,
        progress: None,
        category: None,
        desktop_entry: None,
        body_markup: false,
    }
}

fn items_line(items: Vec<RawNotification>) -> RawLine {
    RawLine {
        msg_type: Some("items".to_string()),
        items: Some(items),
        event: None,
    }
}

fn event_line(kind: &str, items: Vec<RawNotification>) -> RawLine {
    RawLine {
        msg_type: Some("event".to_string()),
        items: None,
        event: Some(RawEvent {
            kind: kind.to_string(),
            items,
        }),
    }
}

/// The first notification of the feed fixtures.
fn fixture_first() -> RawNotification {
    let mut n = wire(1, "firefox", "Hello", "World", "normal");
    n.timeout_ms = Some(10_000);
    n
}

fn sample_notification() -> NotificationView {
    NotificationView {
        id: 1,
        app_id: "firefox".into(),
        summary: "Hello".into(),
        body: "World".into(),
        urgency: Urgency::Normal,
        timeout_ms: Some(10_000),
        has_actions: false,
        icon: None,
        progress: None,
        category: None,
        desktop_entry: None,
        body_markup: false,
    }
}

fn sample(id: u32) -> NotificationView {
    NotificationView {
        id,
        app_id: "app".into(),
        summary: "s".into(),
        body: "b".into(),
        urgency: Urgency::Normal,
        timeout_ms: None,
        has_actions: false,
        icon: None,
        progress: None,
        category: None,
        desktop_entry: None,
        body_markup: false,
    }
}

fn parse_fixture(lines: Vec<RawLine>) -> Vec<FeedMessage> {
    lines
        .into_iter()
        .filter_map(|line| decode_line(line).expect("fixture line must parse"))
        .collect()
}

// ── feed lines ─────────────────────────────────────────────────────────────

#[test]
fn parses_list_fixture() {
    let mut second = wire(2, "thunderbird", "Mail", "New message", "critical");
    second.has_actions = true;
    let messages = parse_fixture(vec![items_line(vec![fixture_first(), second])]);
    assert_eq!(messages.len(), 1);
    let FeedMessage::Items(items) = &messages[0] else {
        panic!("expected items response");
    };
    assert_eq!(items.len(), 2);
    assert_eq!(items[0].id, 1);
    assert_eq!(items[0].app_id, "firefox");
    assert_eq!(items[0].summary, "Hello");
    assert_eq!(items[0].body, "World");
    assert_eq!(items[0].urgency, Urgency::Normal);
    assert_eq!(items[0].timeout_ms, Some(10_000));
    assert!(!items[0].has_actions);
    assert_eq!(items[1].urgency, Urgency::Critical);
    assert!(items[1].has_actions);
}

#[test]
fn parses_subscribe_update_fixture() {
    let messages = parse_fixture(vec![event_line("update", vec![fixture_first()])]);
    assert_eq!(messages.len(), 1);
    let FeedMessage::Event(FeedEvent::Update { items }) = &messages[0] else {
        panic!("expected update event");
    };
    assert_eq!(items.len(), 1);
    assert_eq!(items[0], sample_notification());
}

#[test]
fn parses_subscribe_reload_fixture() {
    let messages = parse_fixture(vec![event_line("reload", vec![])]);
    assert_eq!(messages.len(), 1);
    assert!(matches!(messages[0], FeedMessage::Event(FeedEvent::Reload)));
}

#[test]
fn parses_raw_icon_shape() {
    let mut n = wire(1, "telegram", "Hi", "", "normal");
    n.timeout_ms = Some(-1);
    n.icon = Some(RawIcon {
        name: None,
        path: None,
        width: Some(2),
        height: Some(1),
        rowstride: Some(8),
        has_alpha: true,
        bits_per_sample: Some(8),
        channels: Some(4),
        data: Some("AAAAAA==".to_string()),
    });
    let Some(FeedMessage::Items(items)) = decode_line(items_line(vec![n])).unwrap() else {
        panic!("expected items response");
    };
    let raw = items[0].icon.as_ref().and_then(|i| i.raw.as_ref());
    let raw = raw.expect("icon.raw should be populated");
    assert_eq!(raw.width, 2);
    assert_eq!(raw.height, 1);
    assert_eq!(raw.rowstride, 8);
    assert!(raw.has_alpha);
    assert_eq!(raw.channels, 4);
    assert_eq!(raw.data_base64, "AAAAAA==");
}

#[test]
fn ignores_subscribe_handshake_line() {
    // `{"v":1,"cmd":"subscribe"}` carries no `type`.
    let line = RawLine {
        msg_type: None,
        items: None,
        event: None,
    };
    assert!(decode_line(line).unwrap().is_none());
}

#[test]
fn empty_line_is_ignored() {
    assert!(frame_line("").is_none());
    assert!(frame_line("   ").is_none());
}

#[test]
fn frame_line_trims_the_text() {
    assert_eq!(frame_line("  {\"v\":1}\r\n").as_deref(), Some("{\"v\":1}"));
}

#[test]
fn rejects_unknown_message_type() {
    let line = RawLine {
        msg_type: Some("pong".to_string()),
        items: None,
        event: None,
    };
    let err = decode_line(line).unwrap_err();
    assert_eq!(err, ParseFeedError::UnknownType("pong".to_string()));
}

#[test]
fn rejects_unknown_urgency() {
    let line = items_line(vec![wire(1, "x", "s", "", "urgent")]);
    let err = decode_line(line).unwrap_err();
    assert_eq!(err, ParseFeedError::UnknownUrgency("urgent".to_string()));
}

#[test]
fn rejects_unknown_event_kind() {
    let err = decode_line(event_line("exploded", vec![])).unwrap_err();
    assert_eq!(err, ParseFeedError::UnknownEventKind("exploded".to_string()));
}

#[test]
fn event_line_without_event_is_missing_field() {
    let line = RawLine {
        msg_type: Some("event".to_string()),
        items: None,
        event: None,
    };
    assert_eq!(
        decode_line(line).unwrap_err(),
        ParseFeedError::MissingField {
            field: "event".to_string()
        }
    );
}

#[test]
fn items_line_without_items_is_empty_snapshot() {
    let line = RawLine {
        msg_type: Some("items".to_string()),
        items: None,
        event: None,
    };
    assert_eq!(decode_line(line).unwrap(), Some(FeedMessage::Items(vec![])));
}

#[test]
fn history_changed_event_decodes() {
    assert_eq!(
        decode_line(event_line("history_changed", vec![])).unwrap(),
        Some(FeedMessage::Event(FeedEvent::HistoryChanged))
    );
}

#[test]
fn out_of_range_progress_is_dropped() {
    let mut a = wire(1, "a", "s", "", "low");
    a.progress = Some(150);
    let mut b = wire(2, "b", "s", "", "low");
    b.progress = Some(42);
    let Some(FeedMessage::Items(items)) = decode_line(items_line(vec![a, b])).unwrap() else {
        panic!("expected items response");
    };
    assert_eq!(items[0].progress, None);
    assert_eq!(items[1].progress, Some(42));
    assert_eq!(items[0].urgency, Urgency::Low);
}

#[test]
fn incomplete_raw_icon_keeps_name_only() {
    let mut n = wire(1, "a", "s", "", "normal");
    n.icon = Some(RawIcon {
        name: Some("bell".to_string()),
        path: None,
        width: Some(2),
        height: None,
        rowstride: Some(8),
        has_alpha: true,
        bits_per_sample: None,
        channels: Some(4),
        data: Some("AAAA".to_string()),
    });
    let Some(FeedMessage::Items(items)) = decode_line(items_line(vec![n])).unwrap() else {
        panic!("expected items response");
    };
    let icon = items[0].icon.as_ref().unwrap();
    assert_eq!(icon.name.as_deref(), Some("bell"));
    assert!(icon.raw.is_none());
}

#[test]
fn parse_urgency_words() {
    assert_eq!(parse_urgency("low".to_string()), Ok(Urgency::Low));
    assert_eq!(parse_urgency("normal".to_string()), Ok(Urgency::Normal));
    assert_eq!(parse_urgency("critical".to_string()), Ok(Urgency::Critical));
    assert_eq!(
        parse_urgency("Normal".to_string()),
        Err(ParseFeedError::UnknownUrgency("Normal".to_string()))
    );
}

// ── list output ────────────────────────────────────────────────────────────

#[test]
fn empty_stdout_is_empty_list() {
    assert_eq!(frame_list_output(""), ListFrame::Empty);
    assert_eq!(frame_list_output(" \n\t"), ListFrame::Empty);
}

#[test]
fn list_output_array_and_line_are_told_apart() {
    assert_eq!(
        frame_list_output("  [ {\"id\":1} ]\n"),
        ListFrame::Array("[ {\"id\":1} ]".to_string())
    );
    assert_eq!(
        frame_list_output("{\"v\":1,\"type\":\"items\"}\n"),
        ListFrame::Line("{\"v\":1,\"type\":\"items\"}".to_string())
    );
}

#[test]
fn items_of_message_takes_only_snapshots() {
    assert_eq!(
        items_of_message(Some(FeedMessage::Items(vec![sample(3)]))),
        vec![sample(3)]
    );
    assert!(items_of_message(Some(FeedMessage::Event(FeedEvent::Reload))).is_empty());
    assert!(items_of_message(None).is_empty());
}

// ── state ──────────────────────────────────────────────────────────────────

#[test]
fn apply_items_replaces_snapshot() {
    let mut state = NotificationState::default();
    let kind = state.apply_signal(FeedSignal::Items(vec![sample(1), sample(2)]));
    assert_eq!(kind, FeedSignalKind::Items);
    assert_eq!(state.len(), 2);
}

#[test]
fn reload_signal_does_not_change_items() {
    let mut state = NotificationState::default();
    state.replace(vec![sample(1)]);
    let kind = state.apply_signal(FeedSignal::Reload);
    assert_eq!(kind, FeedSignalKind::Reload);
    assert_eq!(state.len(), 1);
}

#[test]
fn replace_then_items_reads_back_the_snapshot() {
    let mut state = NotificationState::new();
    assert!(state.is_empty());
    state.replace(vec![sample(7), sample(8)]);
    assert_eq!(state.items(), &[sample(7), sample(8)][..]);
    state.replace(vec![]);
    assert!(state.is_empty());
}

// ── signals and backoff ────────────────────────────────────────────────────

#[test]
fn messages_become_signals() {
    assert_eq!(
        signal_for_message(FeedMessage::Items(vec![sample(1)])),
        Some(FeedSignal::Items(vec![sample(1)]))
    );
    assert_eq!(
        signal_for_message(FeedMessage::Event(FeedEvent::Update {
            items: vec![sample(2)]
        })),
        Some(FeedSignal::Items(vec![sample(2)]))
    );
    assert_eq!(
        signal_for_message(FeedMessage::Event(FeedEvent::Reload)),
        Some(FeedSignal::Reload)
    );
    assert_eq!(
        signal_for_message(FeedMessage::Event(FeedEvent::HistoryChanged)),
        None
    );
}

#[test]
fn backoff_doubles_up_to_the_cap() {
    assert_eq!(next_backoff_secs(1), 2);
    assert_eq!(next_backoff_secs(8), 16);
    assert_eq!(next_backoff_secs(15), 30);
    assert_eq!(next_backoff_secs(16), 30);
    assert_eq!(next_backoff_secs(u64::MAX), 30);
}

// ── one-shot commands ──────────────────────────────────────────────────────

fn spec_with(command: Option<&str>, socket: Option<&str>) -> ProviderSpec {
    ProviderSpec {
        feed_exec: None,
        command: command.map(|s| s.to_string()),
        socket: socket.map(|s| s.to_string()),
    }
}

#[test]
fn run_command_requires_binary() {
    let spec = ProviderSpec::default();
    let err = run_command(&spec, vec!["list".to_string()]).unwrap_err();
    assert!(matches!(err, CommandError::NoCommand));
}

#[test]
fn run_command_passes_socket_flag() {
    let spec = spec_with(Some("mockctl"), Some("/tmp/test.sock"));
    let line = run_command(&spec, vec!["list".to_string()]).expect("mock list");
    assert_eq!(line.program, "mockctl");
    assert_eq!(line.args, vec!["--socket", "/tmp/test.sock", "list"]);
}

#[test]
fn close_activate_input_build_subcommands() {
    let spec = spec_with(Some("ctl"), None);
    assert_eq!(close(&spec, 42).unwrap().args, vec!["close", "42"]);
    assert_eq!(activate(&spec, 0, None).unwrap().args, vec!["activate", "0"]);
    assert_eq!(
        activate(&spec, 7, Some("reply")).unwrap().args,
        vec!["activate", "7", "reply"]
    );
    assert_eq!(
        input(&spec, 4294967295, "button_left").unwrap().args,
        vec!["input", "4294967295", "button_left"]
    );
    assert_eq!(close(&spec_with(None, None), 1), Err(CommandError::NoCommand));
}

#[test]
fn check_output_reads_status_and_stderr() {
    assert_eq!(
        check_output(true, Ok("[]\n".to_string()), "", "0".to_string()),
        Ok("[]\n".to_string())
    );
    assert_eq!(
        check_output(true, Err("bad utf-8".to_string()), "", "0".to_string()),
        Err(CommandError::Io("bad utf-8".to_string()))
    );
    assert_eq!(
        check_output(false, Ok(String::new()), "  no such id\n", "exit status: 2".to_string()),
        Err(CommandError::Status {
            status: "exit status: 2".to_string(),
            stderr: "no such id".to_string()
        })
    );
}

#[test]
fn command_errors_map_to_provider_errors() {
    assert_eq!(
        map_command_err(CommandError::NoCommand),
        ParseFeedError::Provider("provider command not configured".to_string())
    );
    assert_eq!(
        map_command_err(CommandError::Status {
            status: "exit status: 1".to_string(),
            stderr: "boom".to_string()
        }),
        ParseFeedError::Provider("exit exit status: 1: boom".to_string())
    );
    assert_eq!(
        map_command_err(CommandError::Spawn("nope".to_string())),
        ParseFeedError::Provider("spawn: nope".to_string())
    );
    assert_eq!(
        map_command_err(CommandError::Io("eof".to_string())),
        ParseFeedError::Provider("io: eof".to_string())
    );
}

#[test]
fn a_batch_of_signals_keeps_the_last_snapshot_and_counts_reloads() {
    let mut state = NotificationState::new();
    state.replace(vec![sample(1)]);
    let outcome = state.apply_signals(vec![
        FeedSignal::Items(vec![sample(2), sample(3)]),
        FeedSignal::Reload,
        FeedSignal::Items(vec![sample(4)]),
        FeedSignal::Reload,
    ]);
    assert_eq!(state.items(), &[sample(4)][..]);
    assert_eq!(outcome.reloads, 2);
    assert!(outcome.changed);
    let quiet = state.apply_signals(vec![]);
    assert_eq!((quiet.reloads, quiet.changed), (0, false));
    assert_eq!(state.items(), &[sample(4)][..]);
}
