use codex_monitor::handshake::{
    advance, build_initialize_params, initialize_event, SessionAction, SessionEvent, SessionPhase,
    INITIALIZE_TIMEOUT_SECS, PROBE_TIMEOUT_SECS,
};
use codex_monitor::pending::{PendingCalls, Resolution};
use codex_monitor::reader::{
    build_parse_error, connected_event, handle_stdout_line, interpret_line, LineEffect,
    LineOutcome,
};
use codex_monitor::session::{
    canceled_text, notification_line, request_line, response_line, Session,
};
use codex_monitor::workspace::WorkspaceEntry;
use serde_json::Value;
use tokio::sync::oneshot::error::TryRecvError;

fn doc(text: &str) -> Value {
    serde_json::from_str(text).unwrap()
}

fn session() -> Session {
    Session::new(WorkspaceEntry::main(
        "ws-1".to_string(),
        "repo".to_string(),
        "/repo".to_string(),
        None,
    ))
}

#[test]
fn request_ids_start_at_one_and_increase() {
    let mut s = session();
    let mut last = 0;
    for expected in 1..=50u64 {
        let out = s.begin_request("model/list", doc("{}"));
        assert_eq!(out.id, expected);
        assert!(out.id > last);
        last = out.id;
    }
    assert_eq!(s.pending_len(), 50);
    let fresh = session();
    assert_eq!(fresh.pending_len(), 0);
    let mut fresh = fresh;
    assert_eq!(fresh.begin_request("m", Value::Null).id, 1);
}

#[test]
fn id_counter_wraps_after_the_largest_id() {
    let mut pending = PendingCalls::new();
    assert_eq!(pending.peek_id(), 1);
    assert_eq!(pending.allocate_id(), 1);
    assert_eq!(pending.allocate_id(), 2);
    assert_eq!(pending.peek_id(), 3);
    assert_eq!(pending.len(), 0);
}

#[test]
fn begin_request_frames_the_request() {
    let mut s = session();
    let out = s.begin_request("thread/resume", doc(r#"{"threadId":"t1"}"#));
    let line = out.line.unwrap();
    assert!(line.ends_with('\n'));
    assert_eq!(
        doc(&line),
        doc(r#"{"id":1,"method":"thread/resume","params":{"threadId":"t1"}}"#)
    );
    assert_eq!(
        doc(&request_line(9, "m", Value::Null).unwrap()),
        doc(r#"{"id":9,"method":"m","params":null}"#)
    );
    assert_eq!(notification_line("initialized", None).unwrap(), "{\"method\":\"initialized\"}\n");
    assert_eq!(
        doc(&response_line(4, doc("true")).unwrap()),
        doc(r#"{"id":4,"result":true}"#)
    );
}

#[test]
fn reply_resolves_the_waiting_caller() {
    let mut s = session();
    let mut out = s.begin_request("thread/list", doc("{}"));
    assert!(matches!(out.waiter.try_recv(), Err(TryRecvError::Empty)));
    let outcome = s.handle_stdout_line(r#"{"id":1,"result":{"data":[]}}"#);
    assert!(matches!(
        outcome,
        LineOutcome::Resolved { id: 1, resolution: Resolution::Fulfilled }
    ));
    assert_eq!(out.waiter.try_recv().unwrap(), doc(r#"{"id":1,"result":{"data":[]}}"#));
    assert_eq!(s.pending_len(), 0);
}

#[test]
fn error_reply_is_delivered_in_full() {
    let mut s = session();
    let mut out = s.begin_request("turn/start", doc("{}"));
    s.handle_stdout_line(r#"{"id":1,"error":{"code":-32000,"message":"no"}}"#);
    let reply = out.waiter.try_recv().unwrap();
    assert_eq!(reply["error"]["message"], "no");
}

#[test]
fn unknown_reply_is_dropped_without_touching_pending_calls() {
    let mut s = session();
    let mut first = s.begin_request("a", Value::Null);
    let mut second = s.begin_request("b", Value::Null);
    let outcome = s.handle_stdout_line(r#"{"id":99,"result":1}"#);
    assert!(matches!(
        outcome,
        LineOutcome::Resolved { id: 99, resolution: Resolution::Unmatched }
    ));
    assert_eq!(s.pending_len(), 2);
    assert!(matches!(first.waiter.try_recv(), Err(TryRecvError::Empty)));
    assert!(matches!(second.waiter.try_recv(), Err(TryRecvError::Empty)));
    s.handle_stdout_line(r#"{"id":2,"result":"two"}"#);
    assert_eq!(second.waiter.try_recv().unwrap()["result"], "two");
    assert!(matches!(first.waiter.try_recv(), Err(TryRecvError::Empty)));
    let again = s.handle_stdout_line(r#"{"id":2,"result":"dup"}"#);
    assert!(matches!(
        again,
        LineOutcome::Resolved { id: 2, resolution: Resolution::Unmatched }
    ));
}

#[test]
fn reply_to_a_caller_that_left_is_abandoned() {
    let mut s = session();
    let out = s.begin_request("a", Value::Null);
    drop(out.waiter);
    let outcome = s.handle_stdout_line(r#"{"id":1,"result":1}"#);
    assert!(matches!(
        outcome,
        LineOutcome::Resolved { id: 1, resolution: Resolution::Abandoned }
    ));
}

#[test]
fn killing_a_session_cancels_every_pending_call() {
    let mut s = session();
    assert_eq!(s.on_event(SessionEvent::Launched), SessionAction::StartReadersAndInitialize);
    assert_eq!(s.on_event(SessionEvent::InitializeAccepted), SessionAction::Announce);
    let mut waiters = Vec::new();
    for _ in 0..7 {
        waiters.push(s.begin_request("turn/start", Value::Null).waiter);
    }
    assert_eq!(s.pending_len(), 7);
    assert_eq!(s.on_event(SessionEvent::Killed), SessionAction::Unregister);
    assert_eq!(s.phase(), SessionPhase::Terminated);
    assert_eq!(s.pending_len(), 0);
    for mut waiter in waiters {
        assert!(matches!(waiter.try_recv(), Err(TryRecvError::Closed)));
    }
    assert_eq!(canceled_text(), "request canceled");
}

#[test]
fn cancel_all_reports_how_many_calls_waited() {
    let mut pending = PendingCalls::new();
    let mut waiters = Vec::new();
    for _ in 0..3 {
        waiters.push(pending.open().1);
    }
    assert!(pending.is_pending(2));
    assert_eq!(pending.cancel_all(), 3);
    assert!(!pending.is_pending(2));
    assert_eq!(pending.cancel_all(), 0);
    for mut waiter in waiters {
        assert!(matches!(waiter.try_recv(), Err(TryRecvError::Closed)));
    }
}

#[test]
fn server_requests_and_notifications_become_events() {
    let mut s = session();
    let request = r#"{"id":5,"method":"item/approve","params":{"x":1}}"#;
    match s.handle_stdout_line(request) {
        LineOutcome::Event(event) => {
            assert_eq!(event.workspace_id, "ws-1");
            assert_eq!(event.message, doc(request));
        }
        _ => panic!("a server request is forwarded"),
    }
    let note = r#"{"method":"turn/completed","params":{}}"#;
    match s.handle_stdout_line(note) {
        LineOutcome::Event(event) => assert_eq!(event.message, doc(note)),
        _ => panic!("a notification is forwarded"),
    }
    assert!(matches!(s.handle_stdout_line(r#"{"neither":true}"#), LineOutcome::Ignored));
    assert!(matches!(s.handle_stdout_line("[1,2]"), LineOutcome::Ignored));
    assert!(matches!(s.handle_stdout_line("   "), LineOutcome::Skipped));
    assert!(matches!(s.handle_stdout_line(""), LineOutcome::Skipped));
}

#[test]
fn server_request_with_a_pending_id_is_not_a_reply() {
    let mut s = session();
    let mut out = s.begin_request("a", Value::Null);
    let outcome = s.handle_stdout_line(r#"{"id":1,"method":"ask"}"#);
    assert!(matches!(outcome, LineOutcome::Event(_)));
    assert_eq!(s.pending_len(), 1);
    assert!(matches!(out.waiter.try_recv(), Err(TryRecvError::Empty)));
}

#[test]
fn bare_id_resolves_the_pending_call() {
    let mut pending = PendingCalls::new();
    let (id, mut waiter) = pending.open();
    let outcome = handle_stdout_line(&mut pending, "w", &format!(r#"{{"id":{}}}"#, id));
    assert!(matches!(outcome, LineOutcome::Resolved { resolution: Resolution::Fulfilled, .. }));
    assert_eq!(waiter.try_recv().unwrap(), doc(r#"{"id":1}"#));
}

#[test]
fn malformed_line_becomes_a_parse_error_event() {
    let mut s = session();
    let mut out = s.begin_request("a", Value::Null);
    let raw = "{\"id\": 1, oops";
    match s.handle_stdout_line(raw) {
        LineOutcome::Event(event) => {
            assert_eq!(event.workspace_id, "ws-1");
            assert_eq!(event.message["method"], "codex/parseError");
            assert_eq!(event.message["params"]["raw"], raw);
            let expected = serde_json::from_str::<Value>(raw).unwrap_err().to_string();
            assert_eq!(event.message["params"]["error"], expected.as_str());
        }
        _ => panic!("a malformed line is reported"),
    }
    assert_eq!(s.pending_len(), 1);
    assert!(matches!(out.waiter.try_recv(), Err(TryRecvError::Empty)));
    assert!(matches!(
        s.handle_stdout_line(r#"{"id":1,"result":0}"#),
        LineOutcome::Resolved { resolution: Resolution::Fulfilled, .. }
    ));
    assert_eq!(
        build_parse_error("e", "r"),
        doc(r#"{"method":"codex/parseError","params":{"error":"e","raw":"r"}}"#)
    );
    assert!(matches!(interpret_line("nope"), LineEffect::Forward { .. }));
}

#[test]
fn stderr_lines_are_tagged_with_the_workspace() {
    let s = session();
    assert!(s.handle_stderr_line(" \t").is_none());
    let event = s.handle_stderr_line(r#"{"id":1,"result":2}"#).unwrap();
    assert_eq!(event.workspace_id, "ws-1");
    assert_eq!(event.message["method"], "codex/stderr");
    assert_eq!(event.message["params"]["message"], r#"{"id":1,"result":2}"#);
}

#[test]
fn connected_event_names_the_workspace() {
    let event = connected_event("ws-9");
    assert_eq!(event.workspace_id, "ws-9");
    assert_eq!(
        event.message,
        doc(r#"{"method":"codex/connected","params":{"workspaceId":"ws-9"}}"#)
    );
}

#[test]
fn initialize_carries_the_client_identity() {
    assert_eq!(
        build_initialize_params(),
        doc(r#"{"clientInfo":{"name":"codex_monitor","title":"CodexMonitor","version":"0.1.0"}}"#)
    );
    assert_eq!(PROBE_TIMEOUT_SECS, 5);
    assert_eq!(INITIALIZE_TIMEOUT_SECS, 15);
}

#[test]
fn handshake_reaches_ready_through_initialize() {
    let start = SessionPhase::Spawning;
    let (phase, action) = advance(start, SessionEvent::Launched);
    assert_eq!(phase, SessionPhase::AwaitingInit);
    assert_eq!(action, SessionAction::StartReadersAndInitialize);
    let event = initialize_event(&doc(r#"{"id":1,"result":{"ok":true}}"#));
    assert_eq!(event, SessionEvent::InitializeAccepted);
    assert_eq!(advance(phase, event), (SessionPhase::Ready, SessionAction::Announce));
}

#[test]
fn handshake_timeout_kills_the_process_and_fails() {
    let mut s = session();
    s.on_event(SessionEvent::Launched);
    let mut out = s.begin_request("initialize", build_initialize_params());
    assert_eq!(s.on_event(SessionEvent::InitializeTimedOut), SessionAction::KillAndFail);
    assert_eq!(s.phase(), SessionPhase::Terminated);
    assert!(matches!(out.waiter.try_recv(), Err(TryRecvError::Closed)));
    assert_eq!(s.on_event(SessionEvent::InitializeAccepted), SessionAction::Nothing);
    assert_eq!(s.phase(), SessionPhase::Terminated);
}

#[test]
fn handshake_failures_before_launch_start_no_process() {
    assert_eq!(
        advance(SessionPhase::Spawning, SessionEvent::ProbeFailed),
        (SessionPhase::Terminated, SessionAction::Fail)
    );
    assert_eq!(
        advance(SessionPhase::Spawning, SessionEvent::LaunchFailed),
        (SessionPhase::Terminated, SessionAction::Fail)
    );
    let rejected = initialize_event(&doc(r#"{"id":1,"error":{"message":"bad"}}"#));
    assert_eq!(rejected, SessionEvent::InitializeRejected);
    assert_eq!(
        advance(SessionPhase::AwaitingInit, rejected),
        (SessionPhase::Terminated, SessionAction::KillAndFail)
    );
}

#[test]
fn terminated_is_reached_from_every_phase_and_is_final() {
    let phases = [
        SessionPhase::Spawning,
        SessionPhase::AwaitingInit,
        SessionPhase::Ready,
        SessionPhase::Terminated,
    ];
    let events = [
        SessionEvent::ProbeFailed,
        SessionEvent::LaunchFailed,
        SessionEvent::Launched,
        SessionEvent::InitializeAccepted,
        SessionEvent::InitializeRejected,
        SessionEvent::InitializeTimedOut,
        SessionEvent::Exited,
        SessionEvent::Killed,
    ];
    for phase in phases {
        assert_eq!(advance(phase, SessionEvent::Exited).0, SessionPhase::Terminated);
        assert_eq!(advance(phase, SessionEvent::Killed).0, SessionPhase::Terminated);
    }
    for event in events {
        assert_eq!(
            advance(SessionPhase::Terminated, event),
            (SessionPhase::Terminated, SessionAction::Nothing)
        );
    }
    assert_eq!(
        advance(SessionPhase::Ready, SessionEvent::Exited),
        (SessionPhase::Terminated, SessionAction::Unregister)
    );
    assert_eq!(
        advance(SessionPhase::Ready, SessionEvent::InitializeTimedOut),
        (SessionPhase::Ready, SessionAction::Nothing)
    );
}
