use codex_monitor::codec::{
    classify, frame, inspect, notification_message, request_message, response_message,
    MessageKind, MessageShape,
};
use codex_monitor::pending::{PendingCalls, Resolution};
use codex_monitor::reader::{handle_stdout_line, stderr_event, LineOutcome};
use serde_json::Value;

fn doc(text: &str) -> Value {
    serde_json::from_str(text).unwrap()
}

#[test]
fn request_line_is_one_json_object_and_a_newline() {
    let message = request_message(7, "thread/start", doc(r#"{"cwd":"/repo"}"#));
    let line = frame(&message).unwrap();
    assert!(line.ends_with('\n'));
    assert_eq!(line.matches('\n').count(), 1);
    assert_eq!(
        doc(&line),
        doc(r#"{"id":7,"method":"thread/start","params":{"cwd":"/repo"}}"#)
    );
}

#[test]
fn notification_without_params_omits_the_member() {
    let message = notification_message("initialized", None);
    assert_eq!(message, doc(r#"{"method":"initialized"}"#));
    assert!(message.get("params").is_none());
    let with = notification_message("x", Some(Value::Null));
    assert_eq!(with, doc(r#"{"method":"x","params":null}"#));
}

#[test]
fn response_carries_id_and_result() {
    let message = response_message(12, doc(r#"{"decision":"accept"}"#));
    assert_eq!(message, doc(r#"{"id":12,"result":{"decision":"accept"}}"#));
}

#[test]
fn classification_follows_the_four_rules() {
    let shape = |text: &str| inspect(&doc(text));
    assert_eq!(classify(&shape(r#"{"id":1,"result":{}}"#)), MessageKind::Reply { id: 1 });
    assert_eq!(classify(&shape(r#"{"id":2,"error":{"code":1}}"#)), MessageKind::Reply { id: 2 });
    assert_eq!(
        classify(&shape(r#"{"id":3,"method":"approve","params":{}}"#)),
        MessageKind::ServerRequest { id: 3 }
    );
    assert_eq!(classify(&shape(r#"{"id":4}"#)), MessageKind::BareReply { id: 4 });
    assert_eq!(classify(&shape(r#"{"method":"turn/started"}"#)), MessageKind::Notification);
    assert_eq!(classify(&shape(r#"{"foo":1}"#)), MessageKind::Unrecognized);
    assert_eq!(classify(&shape(r#"{"id":"abc","method":"m"}"#)), MessageKind::Notification);
    assert_eq!(
        shape(r#"{"id":5,"method":"m","result":1,"error":2}"#),
        MessageShape { id: Some(5), has_method: true, has_result: true, has_error: true }
    );
}

#[test]
fn replies_in_reverse_order_reach_their_own_callers() {
    let mut pending = PendingCalls::new();
    let mut waiters = Vec::new();
    for _ in 0..5 {
        waiters.push(pending.open());
    }
    let ids: Vec<u64> = waiters.iter().map(|w| w.0).collect();
    assert_eq!(ids, vec![1, 2, 3, 4, 5]);
    for id in ids.iter().rev() {
        let line = format!(r#"{{"id":{},"result":{{"echo":{}}}}}"#, id, id * 10);
        match handle_stdout_line(&mut pending, "ws", &line) {
            LineOutcome::Resolved { id: answered, resolution } => {
                assert_eq!(answered, *id);
                assert_eq!(resolution, Resolution::Fulfilled);
            }
            _ => panic!("a reply must be resolved"),
        }
    }
    assert_eq!(pending.len(), 0);
    for (id, mut rx) in waiters {
        let reply = rx.try_recv().unwrap();
        assert_eq!(reply["id"].as_u64(), Some(id));
        assert_eq!(reply["result"]["echo"].as_u64(), Some(id * 10));
    }
}

#[test]
fn stderr_lines_are_forwarded_verbatim() {
    assert!(stderr_event("ws", "   ").is_none());
    let event = stderr_event("ws", "{not json").unwrap();
    assert_eq!(event.workspace_id, "ws");
    assert_eq!(
        event.message,
        doc(r#"{"method":"codex/stderr","params":{"message":"{not json"}}"#)
    );
}
