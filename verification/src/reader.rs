use vstd::prelude::*;
use serde_json::Value;
use crate::codec::{classify, inspect, kind_of, shape_of, MessageKind};
use crate::json::{
    add_member, describe, error_message, from_text, object, object_from, pairs, parse, parsed,
    string, Member,
};
use crate::pending::{PendingCalls, Resolution};
use crate::text::{blank, is_blank};

verus! {

/// A message on its way to the interface, tagged with the workspace it comes from.
pub struct AppServerEvent {
    pub workspace_id: String,
    pub message: Value,
}

impl View for AppServerEvent {
    type V = (Seq<char>, Value);

    open spec fn view(&self) -> (Seq<char>, Value) {
        (self.workspace_id@, self.message)
    }
}

/// What one line of the subprocess's output asks for.
pub enum LineEffect {
    /// A blank line: nothing.
    Skip,
    /// A reply: hand it to the call that waits under `id`.
    Resolve { id: u64, reply: Value },
    /// A notification, a request of the subprocess, or a report of a line
    /// that is no JSON: forward it to the interface.
    Forward { message: Value },
    /// A document that is none of these: nothing.
    Ignore,
}

/// What was done with one line of the subprocess's output.
pub enum LineOutcome {
    Skipped,
    Resolved { id: u64, resolution: Resolution },
    Event(AppServerEvent),
    Ignored,
}

/// The message `{method, params: {key: text}}`.
pub open spec fn report(method: Seq<char>, key: Seq<char>, text: Seq<char>) -> Value {
    object(seq![("method"@, string(method)), ("params"@, object(seq![(key, string(text))]))])
}

/// The message that reports a line that is no JSON: the parser's error and the line itself.
pub open spec fn parse_error_message(error: Seq<char>, raw: Seq<char>) -> Value {
    object(
        seq![
            ("method"@, string("codex/parseError"@)),
            ("params"@, object(seq![("error"@, string(error)), ("raw"@, string(raw))])),
        ],
    )
}

/// The message that carries one line of the subprocess's diagnostics.
pub open spec fn stderr_message(line: Seq<char>) -> Value {
    report("codex/stderr"@, "message"@, line)
}

/// The message that announces a connected workspace.
pub open spec fn connected_message(workspace_id: Seq<char>) -> Value {
    report("codex/connected"@, "workspaceId"@, workspace_id)
}

/// What a parsed message asks for, by its kind.
pub open spec fn message_effect(message: Value) -> LineEffect {
    match kind_of(shape_of(message)) {
        MessageKind::Reply { id } => LineEffect::Resolve { id, reply: message },
        MessageKind::BareReply { id } => LineEffect::Resolve { id, reply: message },
        MessageKind::ServerRequest { id } => LineEffect::Forward { message },
        MessageKind::Notification => LineEffect::Forward { message },
        MessageKind::Unrecognized => LineEffect::Ignore,
    }
}

/// What a line of standard output asks for: nothing if it is blank, a
/// report if it is no JSON, and else what the message in it asks for.
pub open spec fn stdout_effect(line: Seq<char>) -> LineEffect {
    if blank(line) {
        LineEffect::Skip
    } else {
        match parsed(line) {
            Ok(message) => message_effect(message),
            Err(error) => LineEffect::Forward {
                message: parse_error_message(error_message(error), line),
            },
        }
    }
}

/// Builds the message `{method, params: {key: text}}`.
pub fn build_report(method: &str, key: &str, text: &str) -> (message: Value)
    ensures
        message == report(method@, key@, text@),
{
    let mut inner: Vec<Member> = Vec::new();
    add_member(&mut inner, key, from_text(text));
    proof {
        assert(pairs(inner@) =~= seq![(key@, string(text@))]);
    }
    let params = object_from(inner);
    let mut members: Vec<Member> = Vec::new();
    add_member(&mut members, "method", from_text(method));
    add_member(&mut members, "params", params);
    proof {
        assert(pairs(members@) =~= seq![("method"@, string(method@)), ("params"@, params)]);
    }
    object_from(members)
}

/// Builds the message that reports a line that is no JSON.
pub fn build_parse_error(error: &str, raw: &str) -> (message: Value)
    ensures
        message == parse_error_message(error@, raw@),
{
    let mut inner: Vec<Member> = Vec::new();
    add_member(&mut inner, "error", from_text(error));
    add_member(&mut inner, "raw", from_text(raw));
    proof {
        assert(pairs(inner@) =~= seq![("error"@, string(error@)), ("raw"@, string(raw@))]);
    }
    let params = object_from(inner);
    let mut members: Vec<Member> = Vec::new();
    add_member(&mut members, "method", from_text("codex/parseError"));
    add_member(&mut members, "params", params);
    proof {
        assert(pairs(members@) =~= seq![
            ("method"@, string("codex/parseError"@)),
            ("params"@, params),
        ]);
    }
    object_from(members)
}

/// What a parsed message asks for.
pub fn interpret_message(message: Value) -> (effect: LineEffect)
    ensures
        effect == message_effect(message),
{
    let shape = inspect(&message);
    match classify(&shape) {
        MessageKind::Reply { id } => LineEffect::Resolve { id, reply: message },
        MessageKind::BareReply { id } => LineEffect::Resolve { id, reply: message },
        MessageKind::ServerRequest { .. } => LineEffect::Forward { message },
        MessageKind::Notification => LineEffect::Forward { message },
        MessageKind::Unrecognized => LineEffect::Ignore,
    }
}

/// What one line of standard output asks for.
pub fn interpret_line(line: &str) -> (effect: LineEffect)
    ensures
        effect == stdout_effect(line@),
{
    if is_blank(line) {
        return LineEffect::Skip;
    }
    match parse(line) {
        Ok(message) => interpret_message(message),
        Err(error) => {
            let text = describe(&error);
            LineEffect::Forward { message: build_parse_error(text.as_str(), line) }
        },
    }
}

/// Carries out what a line asks for: a reply goes to the pending call with
/// its id, and to no other; a message to forward comes back as an event of
/// the workspace. Only a reply changes the pending calls.
pub fn carry_out(pending: &mut PendingCalls, workspace_id: &str, effect: LineEffect) -> (outcome:
    LineOutcome)
    ensures
        final(pending).next_id() == old(pending).next_id(),
        match effect {
            LineEffect::Skip => outcome is Skipped && final(pending).slots() == old(
                pending,
            ).slots(),
            LineEffect::Ignore => outcome is Ignored && final(pending).slots() == old(
                pending,
            ).slots(),
            LineEffect::Forward { message } => {
                &&& outcome matches LineOutcome::Event(event)
                &&& event@ == (workspace_id@, message)
                &&& final(pending).slots() == old(pending).slots()
            },
            LineEffect::Resolve { id, reply } => {
                &&& outcome matches LineOutcome::Resolved { id: answered, resolution }
                &&& answered == id
                &&& (resolution is Unmatched <==> !old(pending).slots().contains_key(id))
                &&& final(pending).slots() == old(pending).slots().remove(id)
            },
        },
{
    match effect {
        LineEffect::Skip => LineOutcome::Skipped,
        LineEffect::Ignore => LineOutcome::Ignored,
        LineEffect::Forward { message } => LineOutcome::Event(
            AppServerEvent { workspace_id: workspace_id.to_owned(), message },
        ),
        LineEffect::Resolve { id, reply } => {
            let resolution = pending.resolve(id, reply);
            LineOutcome::Resolved { id, resolution }
        },
    }
}

/// Handles one line of the subprocess's standard output.
pub fn handle_stdout_line(pending: &mut PendingCalls, workspace_id: &str, line: &str) -> (outcome:
    LineOutcome)
    ensures
        final(pending).next_id() == old(pending).next_id(),
        match stdout_effect(line@) {
            LineEffect::Skip => outcome is Skipped && final(pending).slots() == old(
                pending,
            ).slots(),
            LineEffect::Ignore => outcome is Ignored && final(pending).slots() == old(
                pending,
            ).slots(),
            LineEffect::Forward { message } => {
                &&& outcome matches LineOutcome::Event(event)
                &&& event@ == (workspace_id@, message)
                &&& final(pending).slots() == old(pending).slots()
            },
            LineEffect::Resolve { id, reply } => {
                &&& outcome matches LineOutcome::Resolved { id: answered, resolution }
                &&& answered == id
                &&& (resolution is Unmatched <==> !old(pending).slots().contains_key(id))
                &&& final(pending).slots() == old(pending).slots().remove(id)
            },
        },
{
    let effect = interpret_line(line);
    carry_out(pending, workspace_id, effect)
}

/// The event for one line of the subprocess's standard error: none for a
/// blank line, and else the line as it is, never parsed.
pub fn stderr_event(workspace_id: &str, line: &str) -> (r: Option<AppServerEvent>)
    ensures
        blank(line@) <==> r is None,
        r matches Some(event) ==> event@ == (workspace_id@, stderr_message(line@)),
{
    if is_blank(line) {
        None
    } else {
        Some(
            AppServerEvent {
                workspace_id: workspace_id.to_owned(),
                message: build_report("codex/stderr", "message", line),
            },
        )
    }
}

/// The event that announces that a workspace is connected.
pub fn connected_event(workspace_id: &str) -> (event: AppServerEvent)
    ensures
        event@ == (workspace_id@, connected_message(workspace_id@)),
{
    AppServerEvent {
        workspace_id: workspace_id.to_owned(),
        message: build_report("codex/connected", "workspaceId", workspace_id),
    }
}

} // verus!
