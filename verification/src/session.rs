use vstd::prelude::*;
use serde_json::Value;
use tokio::sync::oneshot::{Receiver, Sender};
use crate::codec::{
    frame, framed, notification_message, notification_of, request_message, request_of,
    response_message, response_of,
};
use crate::handshake::{advance, step, SessionAction, SessionEvent, SessionPhase};
use crate::pending::{following, PendingCalls};
use crate::reader::{
    handle_stdout_line, stderr_event, stderr_message, stdout_effect, AppServerEvent, LineEffect,
    LineOutcome,
};
use crate::text::{blank, result_texts};
use crate::workspace::{EntryView, WorkspaceEntry};

verus! {

/// A request that was opened: its id, the line to write to the
/// subprocess, or why the request cannot be written, and the receiving
/// half on which the caller waits for the reply.
pub struct Outgoing {
    pub id: u64,
    pub line: Result<String, String>,
    pub waiter: Receiver<Value>,
}

/// The line of a request.
pub fn request_line(id: u64, method: &str, params: Value) -> (line: Result<String, String>)
    ensures
        result_texts(line) == framed(request_of(id, method@, params)),
{
    let message = request_message(id, method, params);
    frame(&message)
}

/// The line of a notification; without parameters it has no `params` member.
pub fn notification_line(method: &str, params: Option<Value>) -> (line: Result<String, String>)
    ensures
        result_texts(line) == framed(notification_of(method@, params)),
{
    let message = notification_message(method, params);
    frame(&message)
}

/// The line that answers the request that the subprocess made under `id`.
pub fn response_line(id: u64, result: Value) -> (line: Result<String, String>)
    ensures
        result_texts(line) == framed(response_of(id, result)),
{
    let message = response_message(id, result);
    frame(&message)
}

/// What a caller is told whose call was canceled.
pub fn canceled_text() -> (text: String)
    ensures
        text@ == "request canceled"@,
{
    "request canceled".to_owned()
}

/// The state of one session that does not depend on the subprocess's
/// streams: the entry it was made for, where it stands, and its pending calls.
pub struct Session {
    entry: WorkspaceEntry,
    phase: SessionPhase,
    pending: PendingCalls,
}

impl Session {
    /// The entry that the session was made for. It never changes.
    pub closed spec fn entry_view(&self) -> EntryView {
        self.entry@
    }

    /// Where the session stands.
    pub closed spec fn phase_view(&self) -> SessionPhase {
        self.phase
    }

    /// The slots that wait for a reply, by request id.
    pub closed spec fn slots(&self) -> Map<u64, Sender<Value>> {
        self.pending.slots()
    }

    /// The id that the next request gets.
    pub closed spec fn next_id(&self) -> u64 {
        self.pending.next_id()
    }

    /// A new session for an entry: it is spawning, nothing is pending, and
    /// its ids start at 1.
    pub fn new(entry: WorkspaceEntry) -> (r: Self)
        ensures
            r.entry_view() == entry@,
            r.phase_view() == SessionPhase::Spawning,
            r.slots() == Map::<u64, Sender<Value>>::empty(),
            r.next_id() == 1,
    {
        Session { entry, phase: SessionPhase::Spawning, pending: PendingCalls::new() }
    }

    /// The entry that the session was made for.
    pub fn entry(&self) -> (e: &WorkspaceEntry)
        ensures
            e@ == self.entry_view(),
    {
        &self.entry
    }

    /// Where the session stands.
    pub fn phase(&self) -> (p: SessionPhase)
        ensures
            p == self.phase_view(),
    {
        self.phase
    }

    /// The number of calls that wait for a reply.
    pub fn pending_len(&self) -> (n: usize)
        ensures
            n == self.slots().len(),
    {
        self.pending.len()
    }

    /// Opens a request: takes the next id, registers a slot under it and
    /// frames the request. The slot is registered whether or not the
    /// request can be written.
    pub fn begin_request(&mut self, method: &str, params: Value) -> (out: Outgoing)
        ensures
            out.id == old(self).next_id(),
            final(self).next_id() == following(out.id),
            final(self).slots().dom() == old(self).slots().dom().insert(out.id),
            forall|id: u64|
                id != out.id && old(self).slots().contains_key(id) ==> final(self).slots()[id]
                    == old(self).slots()[id],
            result_texts(out.line) == framed(request_of(out.id, method@, params)),
            final(self).entry_view() == old(self).entry_view(),
            final(self).phase_view() == old(self).phase_view(),
    {
        let (id, waiter) = self.pending.open();
        let line = request_line(id, method, params);
        Outgoing { id, line, waiter }
    }

    /// Handles one line of the subprocess's standard output: a reply goes
    /// to the call that waits under its id and to no other, an event comes
    /// back tagged with the session's workspace, and nothing else changes.
    pub fn handle_stdout_line(&mut self, line: &str) -> (outcome: LineOutcome)
        ensures
            final(self).next_id() == old(self).next_id(),
            final(self).entry_view() == old(self).entry_view(),
            final(self).phase_view() == old(self).phase_view(),
            match stdout_effect(line@) {
                LineEffect::Skip => outcome is Skipped && final(self).slots() == old(self).slots(),
                LineEffect::Ignore => outcome is Ignored && final(self).slots() == old(
                    self,
                ).slots(),
                LineEffect::Forward { message } => {
                    &&& outcome matches LineOutcome::Event(event)
                    &&& event@ == (old(self).entry_view().id, message)
                    &&& final(self).slots() == old(self).slots()
                },
                LineEffect::Resolve { id, reply } => {
                    &&& outcome matches LineOutcome::Resolved { id: answered, resolution }
                    &&& answered == id
                    &&& (resolution is Unmatched <==> !old(self).slots().contains_key(id))
                    &&& final(self).slots() == old(self).slots().remove(id)
                },
            },
    {
        handle_stdout_line(&mut self.pending, self.entry.id.as_str(), line)
    }

    /// The event for one line of the subprocess's standard error.
    pub fn handle_stderr_line(&self, line: &str) -> (r: Option<AppServerEvent>)
        ensures
            blank(line@) <==> r is None,
            r matches Some(event) ==> event@ == (self.entry_view().id, stderr_message(line@)),
    {
        stderr_event(self.entry.id.as_str(), line)
    }

    /// Moves the session on by one event and says what is to be done. When
    /// the session ends, every slot is dropped, so that every call that
    /// still waits is canceled; until then the pending calls stay as they are.
    pub fn on_event(&mut self, event: SessionEvent) -> (action: SessionAction)
        ensures
            final(self).phase_view() == step(old(self).phase_view(), event).0,
            action == step(old(self).phase_view(), event).1,
            final(self).entry_view() == old(self).entry_view(),
            final(self).next_id() == old(self).next_id(),
            final(self).slots() == if final(self).phase_view() == SessionPhase::Terminated {
                Map::<u64, Sender<Value>>::empty()
            } else {
                old(self).slots()
            },
    {
        let (phase, action) = advance(self.phase, event);
        self.phase = phase;
        match phase {
            SessionPhase::Terminated => {
                self.pending.cancel_all();
            },
            _ => {},
        }
        action
    }
}

} // verus!
