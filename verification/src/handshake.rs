use vstd::prelude::*;
use serde_json::Value;
use crate::json::{
    add_member, fields, from_text, get, object, object_from, pairs, string, Member,
};

verus! {

/// How long the version probe of the agent executable may take, in seconds.
pub const PROBE_TIMEOUT_SECS: u64 = 5;

/// How long the agent may take to answer `initialize`, in seconds.
pub const INITIALIZE_TIMEOUT_SECS: u64 = 15;

/// Where a session stands between its start and its end.
#[derive(Clone, Copy, Debug, PartialEq, Eq, Structural)]
pub enum SessionPhase {
    /// The executable is being resolved, probed and launched.
    Spawning,
    /// The subprocess runs, its readers run, and `initialize` is on its way.
    AwaitingInit,
    /// The handshake is done.
    Ready,
    /// The session is over. It never comes back; a reconnection is a new session.
    Terminated,
}

/// What happens to a session.
#[derive(Clone, Copy, Debug, PartialEq, Eq, Structural)]
pub enum SessionEvent {
    /// The version probe did not find the executable, timed out, or failed.
    ProbeFailed,
    /// The subprocess could not be started.
    LaunchFailed,
    /// The subprocess was started with its three streams piped.
    Launched,
    /// `initialize` was answered with a result.
    InitializeAccepted,
    /// `initialize` was answered with an error, or could not be sent or awaited.
    InitializeRejected,
    /// `initialize` was not answered in time.
    InitializeTimedOut,
    /// The subprocess ended by itself.
    Exited,
    /// The subprocess was killed: its workspace was removed or disconnected.
    Killed,
}

/// What the supervisor does in answer to an event.
#[derive(Clone, Copy, Debug, PartialEq, Eq, Structural)]
pub enum SessionAction {
    /// Nothing.
    Nothing,
    /// Fail the connection; no subprocess was started.
    Fail,
    /// Start the two readers and send `initialize`.
    StartReadersAndInitialize,
    /// Kill the subprocess that was just started and fail the connection.
    KillAndFail,
    /// Send `initialized`, announce the connection and register the session.
    Announce,
    /// Take the session out of the registry; its pending calls are canceled.
    Unregister,
}

/// The phase after an event, and what is to be done.
pub open spec fn step(phase: SessionPhase, event: SessionEvent) -> (SessionPhase, SessionAction) {
    match phase {
        SessionPhase::Spawning => match event {
            SessionEvent::ProbeFailed => (SessionPhase::Terminated, SessionAction::Fail),
            SessionEvent::LaunchFailed => (SessionPhase::Terminated, SessionAction::Fail),
            SessionEvent::Launched => (
                SessionPhase::AwaitingInit,
                SessionAction::StartReadersAndInitialize,
            ),
            SessionEvent::Exited => (SessionPhase::Terminated, SessionAction::Fail),
            SessionEvent::Killed => (SessionPhase::Terminated, SessionAction::Fail),
            _ => (SessionPhase::Spawning, SessionAction::Nothing),
        },
        SessionPhase::AwaitingInit => match event {
            SessionEvent::InitializeAccepted => (SessionPhase::Ready, SessionAction::Announce),
            SessionEvent::InitializeRejected => (
                SessionPhase::Terminated,
                SessionAction::KillAndFail,
            ),
            SessionEvent::InitializeTimedOut => (
                SessionPhase::Terminated,
                SessionAction::KillAndFail,
            ),
            SessionEvent::Exited => (SessionPhase::Terminated, SessionAction::KillAndFail),
            SessionEvent::Killed => (SessionPhase::Terminated, SessionAction::KillAndFail),
            _ => (SessionPhase::AwaitingInit, SessionAction::Nothing),
        },
        SessionPhase::Ready => match event {
            SessionEvent::Exited => (SessionPhase::Terminated, SessionAction::Unregister),
            SessionEvent::Killed => (SessionPhase::Terminated, SessionAction::Unregister),
            _ => (SessionPhase::Ready, SessionAction::Nothing),
        },
        SessionPhase::Terminated => (SessionPhase::Terminated, SessionAction::Nothing),
    }
}

/// The phase after a run of events.
pub open spec fn after(phase: SessionPhase, events: Seq<SessionEvent>) -> SessionPhase
    decreases events.len(),
{
    if events.len() == 0 {
        phase
    } else {
        step(after(phase, events.drop_last()), events.last()).0
    }
}

/// Moves a session on by one event.
pub fn advance(phase: SessionPhase, event: SessionEvent) -> (r: (SessionPhase, SessionAction))
    ensures
        r == step(phase, event),
{
    match phase {
        SessionPhase::Spawning => match event {
            SessionEvent::ProbeFailed => (SessionPhase::Terminated, SessionAction::Fail),
            SessionEvent::LaunchFailed => (SessionPhase::Terminated, SessionAction::Fail),
            SessionEvent::Launched => (
                SessionPhase::AwaitingInit,
                SessionAction::StartReadersAndInitialize,
            ),
            SessionEvent::Exited => (SessionPhase::Terminated, SessionAction::Fail),
            SessionEvent::Killed => (SessionPhase::Terminated, SessionAction::Fail),
            _ => (SessionPhase::Spawning, SessionAction::Nothing),
        },
        SessionPhase::AwaitingInit => match event {
            SessionEvent::InitializeAccepted => (SessionPhase::Ready, SessionAction::Announce),
            SessionEvent::InitializeRejected => (
                SessionPhase::Terminated,
                SessionAction::KillAndFail,
            ),
            SessionEvent::InitializeTimedOut => (
                SessionPhase::Terminated,
                SessionAction::KillAndFail,
            ),
            SessionEvent::Exited => (SessionPhase::Terminated, SessionAction::KillAndFail),
            SessionEvent::Killed => (SessionPhase::Terminated, SessionAction::KillAndFail),
            _ => (SessionPhase::AwaitingInit, SessionAction::Nothing),
        },
        SessionPhase::Ready => match event {
            SessionEvent::Exited => (SessionPhase::Terminated, SessionAction::Unregister),
            SessionEvent::Killed => (SessionPhase::Terminated, SessionAction::Unregister),
            _ => (SessionPhase::Ready, SessionAction::Nothing),
        },
        SessionPhase::Terminated => (SessionPhase::Terminated, SessionAction::Nothing),
    }
}

/// A session that is over stays over, whatever happens, and nothing more
/// is done for it: its end is acted on once, however many events report it.
pub proof fn law_terminated_is_final(events: Seq<SessionEvent>)
    ensures
        after(SessionPhase::Terminated, events) == SessionPhase::Terminated,
        forall|event: SessionEvent|
            #[trigger] step(SessionPhase::Terminated, event) == (
                SessionPhase::Terminated,
                SessionAction::Nothing,
            ),
    decreases events.len(),
{
    if events.len() > 0 {
        law_terminated_is_final(events.drop_last());
    }
}

/// From every phase the end of the subprocess, by itself or by a kill,
/// ends the session.
pub proof fn law_exit_terminates(phase: SessionPhase, event: SessionEvent)
    requires
        event == SessionEvent::Exited || event == SessionEvent::Killed,
    ensures
        step(phase, event).0 == SessionPhase::Terminated,
{
}

/// A session gets ready in one way only: by an accepted `initialize`
/// while it waits for one. It is announced and registered then and at no
/// other step.
pub proof fn law_ready_by_handshake_only(phase: SessionPhase, event: SessionEvent)
    ensures
        step(phase, event).0 == SessionPhase::Ready && phase != SessionPhase::Ready <==> phase
            == SessionPhase::AwaitingInit && event == SessionEvent::InitializeAccepted,
        step(phase, event).1 == SessionAction::Announce <==> phase == SessionPhase::AwaitingInit
            && event == SessionEvent::InitializeAccepted,
{
}

/// A handshake that fails leaves nothing behind: once the subprocess runs,
/// every event that ends the session before it is ready has the
/// subprocess killed, and the session does not get registered.
pub proof fn law_failed_handshake_kills(event: SessionEvent)
    ensures
        step(SessionPhase::AwaitingInit, event).0 == SessionPhase::Terminated ==> step(
            SessionPhase::AwaitingInit,
            event,
        ).1 == SessionAction::KillAndFail,
        event == SessionEvent::InitializeTimedOut || event == SessionEvent::InitializeRejected
            ==> step(SessionPhase::AwaitingInit, event) == (
            SessionPhase::Terminated,
            SessionAction::KillAndFail,
        ),
{
}

/// What the user is told when `initialize` is not answered in time.
pub fn initialize_timeout_text() -> (text: String)
    ensures
        text@
            == "Codex app-server did not respond to initialize. Check that `codex app-server` works in Terminal."@,
{
    "Codex app-server did not respond to initialize. Check that `codex app-server` works in Terminal.".to_owned()
}

/// What the user is told when `initialize` is answered with an error.
pub fn initialize_rejected_text() -> (text: String)
    ensures
        text@
            == "Codex app-server rejected initialize. Check that `codex app-server` works in Terminal."@,
{
    "Codex app-server rejected initialize. Check that `codex app-server` works in Terminal.".to_owned()
}

/// The parameters of `initialize`: who the client is.
pub open spec fn initialize_params() -> Value {
    object(
        seq![
            (
                "clientInfo"@,
                object(
                    seq![
                        ("name"@, string("codex_monitor"@)),
                        ("title"@, string("CodexMonitor"@)),
                        ("version"@, string("0.1.0"@)),
                    ],
                ),
            ),
        ],
    )
}

/// Builds the parameters of `initialize`.
pub fn build_initialize_params() -> (params: Value)
    ensures
        params == initialize_params(),
{
    let mut info: Vec<Member> = Vec::new();
    add_member(&mut info, "name", from_text("codex_monitor"));
    add_member(&mut info, "title", from_text("CodexMonitor"));
    add_member(&mut info, "version", from_text("0.1.0"));
    proof {
        assert(pairs(info@) =~= seq![
            ("name"@, string("codex_monitor"@)),
            ("title"@, string("CodexMonitor"@)),
            ("version"@, string("0.1.0"@)),
        ]);
    }
    let client = object_from(info);
    let mut members: Vec<Member> = Vec::new();
    add_member(&mut members, "clientInfo", client);
    proof {
        assert(pairs(members@) =~= seq![("clientInfo"@, client)]);
    }
    object_from(members)
}

/// The event that the answer to `initialize` stands for: a reply with an
/// `error` member rejects the handshake, every other reply accepts it.
pub fn initialize_event(reply: &Value) -> (event: SessionEvent)
    ensures
        event == if fields(*reply).contains_key("error"@) {
            SessionEvent::InitializeRejected
        } else {
            SessionEvent::InitializeAccepted
        },
{
    if get(reply, "error").is_some() {
        SessionEvent::InitializeRejected
    } else {
        SessionEvent::InitializeAccepted
    }
}

} // verus!
