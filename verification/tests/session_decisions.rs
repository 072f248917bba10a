use ts_query_client::datastructures::{
    FromQueryString, QueryError, QueryResult, SchandlerId, TransmissionCommand,
};
use ts_query_client::session::{
    DEFAULT_SERVER_TAB, IDLE_CHECK_INTERVAL, SessionState, TRANSMISSION_DEADLINE,
    extract_notifications, input_intent, on_command, on_loop_exit, on_transport_error,
    resolve_server_id, timer_tick,
};

#[test]
fn idle_timer_enqueues_one_keepalive() {
    let now: u64 = 1_000_000;
    let last: u64 = now - 181;
    let mut queue: Vec<TransmissionCommand> = Vec::new();
    if let Some(cmd) = timer_tick(now, last, TRANSMISSION_DEADLINE) {
        queue.push(cmd);
    }
    assert_eq!(queue.len(), 1);
    assert!(matches!(queue[0], TransmissionCommand::KeepAlive));
}

#[test]
fn idle_timer_quiet_before_deadline() {
    let now: u64 = 1_000_000;
    assert!(timer_tick(now, now - 180, TRANSMISSION_DEADLINE).is_none());
    assert!(timer_tick(now, now, TRANSMISSION_DEADLINE).is_none());
}

#[test]
fn idle_interval_is_five_seconds() {
    assert_eq!(IDLE_CHECK_INTERVAL, 5);
}

#[test]
fn terminate_intent_moves_session_towards_its_end() {
    let s = on_command(SessionState::Running, &TransmissionCommand::Terminate);
    assert_eq!(s, SessionState::Terminating);
    assert_eq!(on_loop_exit(s), SessionState::Terminated);
}

#[test]
fn data_and_keepalive_keep_session_running() {
    let s = on_command(
        SessionState::Running,
        &TransmissionCommand::Data(String::from("hi")),
    );
    assert_eq!(s, SessionState::Running);
    assert_eq!(on_command(s, &TransmissionCommand::KeepAlive), SessionState::Running);
}

#[test]
fn transport_error_ends_session_from_any_state() {
    assert_eq!(on_transport_error(SessionState::Running), SessionState::Terminated);
    assert_eq!(on_transport_error(SessionState::Terminating), SessionState::Terminated);
}

#[test]
fn resolve_server_id_uses_looked_up_tab() {
    let tab: QueryResult<SchandlerId> = Ok(SchandlerId::from_query("schandlerid=7").unwrap());
    assert_eq!(resolve_server_id(&tab), 7);
}

#[test]
fn resolve_server_id_falls_back_on_failure() {
    let tab: QueryResult<SchandlerId> = Err(QueryError::decode_error("x"));
    assert_eq!(resolve_server_id(&tab), DEFAULT_SERVER_TAB);
}

#[test]
fn input_intent_skips_empty_line() {
    assert!(input_intent("").is_none());
}

#[test]
fn input_intent_trims_and_wraps() {
    match input_intent("  hi there  ") {
        Some(TransmissionCommand::Data(s)) => assert_eq!(s, "hi there"),
        _ => panic!("expected a send intent"),
    }
}

#[test]
fn extract_notifications_reads_one() {
    let r = extract_notifications(
        "notifytextmessage targetmode=2 msg=hello\\sthere invokername=bob\n\r",
    )
    .unwrap();
    assert_eq!(r.len(), 1);
    assert_eq!(r[0].msg(), "hello there");
    assert_eq!(r[0].invoker_name(), "bob");
}

#[test]
fn extract_notifications_ignores_other_lines() {
    let r = extract_notifications("foo\nnotifytextmessage msg=a invokername=b\nbar\n\r").unwrap();
    assert_eq!(r.len(), 1);
    assert_eq!(r[0].msg(), "a");
}

#[test]
fn extract_notifications_empty_frame() {
    assert!(extract_notifications("").unwrap().is_empty());
    assert!(extract_notifications("\n\r").unwrap().is_empty());
}

#[test]
fn extract_notifications_undecodable_line_fails() {
    let e = extract_notifications("notifytextmessage invokername=b\n\r").unwrap_err();
    assert_eq!(e.code(), -3);
}
