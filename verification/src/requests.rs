use vstd::prelude::*;
use serde_json::Value;
use crate::json::{
    add_member, array, array_from, boolean, from_bool, from_optional_text, from_text, from_u64,
    number, object, object_from, optional_string, pairs, string, Member,
};
use crate::text::{option_text, same_text};

verus! {

/// A request to the agent: its method and its parameters.
pub struct Call {
    pub method: String,
    pub params: Value,
}

impl View for Call {
    type V = (Seq<char>, Value);

    open spec fn view(&self) -> (Seq<char>, Value) {
        (self.method@, self.params)
    }
}

/// The document `null`.
pub open spec fn null() -> Value {
    optional_string(None)
}

/// The document of an optional number: the number, or `null` for none.
pub open spec fn optional_number(n: Option<u32>) -> Value {
    match n {
        Some(n) => number(n as u64),
        None => null(),
    }
}

/// The document of an optional text.
fn text_or_null(text: &Option<String>) -> (r: Value)
    ensures
        r == optional_string(option_text(*text)),
{
    match text {
        Some(s) => from_optional_text(Some(s.as_str())),
        None => from_optional_text(None),
    }
}

/// The object with one member.
fn single(key: &str, value: Value) -> (r: Value)
    ensures
        r == object(seq![(key@, value)]),
{
    let mut members: Vec<Member> = Vec::new();
    add_member(&mut members, key, value);
    proof {
        assert(pairs(members@) =~= seq![(key@, value)]);
    }
    object_from(members)
}

/// The object with two members.
fn couple(first: &str, a: Value, second: &str, b: Value) -> (r: Value)
    ensures
        r == object(seq![(first@, a), (second@, b)]),
{
    let mut members: Vec<Member> = Vec::new();
    add_member(&mut members, first, a);
    add_member(&mut members, second, b);
    proof {
        assert(pairs(members@) =~= seq![(first@, a), (second@, b)]);
    }
    object_from(members)
}

/// Starts a thread in the workspace's directory; the agent asks before it acts.
pub fn start_thread(cwd: &str) -> (call: Call)
    ensures
        call@ == (
            "thread/start"@,
            object(seq![("cwd"@, string(cwd@)), ("approvalPolicy"@, string("on-request"@))]),
        ),
{
    Call {
        method: "thread/start".to_owned(),
        params: couple("cwd", from_text(cwd), "approvalPolicy", from_text("on-request")),
    }
}

/// Resumes a thread.
pub fn resume_thread(thread_id: &str) -> (call: Call)
    ensures
        call@ == ("thread/resume"@, object(seq![("threadId"@, string(thread_id@))])),
{
    Call { method: "thread/resume".to_owned(), params: single("threadId", from_text(thread_id)) }
}

/// Lists threads, from a cursor and up to a limit where they are given.
pub fn list_threads(cursor: &Option<String>, limit: Option<u32>) -> (call: Call)
    ensures
        call@ == (
            "thread/list"@,
            object(
                seq![
                    ("cursor"@, optional_string(option_text(*cursor))),
                    ("limit"@, optional_number(limit)),
                ],
            ),
        ),
{
    let limit_value = match limit {
        Some(n) => from_u64(n as u64),
        None => from_optional_text(None),
    };
    Call {
        method: "thread/list".to_owned(),
        params: couple("cursor", text_or_null(cursor), "limit", limit_value),
    }
}

/// Archives a thread.
pub fn archive_thread(thread_id: &str) -> (call: Call)
    ensures
        call@ == ("thread/archive"@, object(seq![("threadId"@, string(thread_id@))])),
{
    Call { method: "thread/archive".to_owned(), params: single("threadId", from_text(thread_id)) }
}

/// Interrupts a turn of a thread.
pub fn turn_interrupt(thread_id: &str, turn_id: &str) -> (call: Call)
    ensures
        call@ == (
            "turn/interrupt"@,
            object(seq![("threadId"@, string(thread_id@)), ("turnId"@, string(turn_id@))]),
        ),
{
    Call {
        method: "turn/interrupt".to_owned(),
        params: couple("threadId", from_text(thread_id), "turnId", from_text(turn_id)),
    }
}

/// Lists the models.
pub fn model_list() -> (call: Call)
    ensures
        call@ == ("model/list"@, object(Seq::<(Seq<char>, Value)>::empty())),
{
    let members: Vec<Member> = Vec::new();
    proof {
        assert(pairs(members@) =~= Seq::<(Seq<char>, Value)>::empty());
    }
    Call { method: "model/list".to_owned(), params: object_from(members) }
}

/// Reads the rate limits of the account.
pub fn account_rate_limits() -> (call: Call)
    ensures
        call@ == ("account/rateLimits/read"@, null()),
{
    Call { method: "account/rateLimits/read".to_owned(), params: from_optional_text(None) }
}

/// Lists the skills that are available in the workspace's directory.
pub fn skills_list(cwd: &str) -> (call: Call)
    ensures
        call@ == ("skills/list"@, object(seq![("cwd"@, string(cwd@))])),
{
    Call { method: "skills/list".to_owned(), params: single("cwd", from_text(cwd)) }
}

/// The members of a review: thread and target, and the delivery where one is given.
pub open spec fn review_members(thread_id: Seq<char>, target: Value, delivery: Option<Seq<char>>) -> Seq<
    (Seq<char>, Value),
> {
    match delivery {
        Some(d) => seq![
            ("threadId"@, string(thread_id)),
            ("target"@, target),
            ("delivery"@, string(d)),
        ],
        None => seq![("threadId"@, string(thread_id)), ("target"@, target)],
    }
}

/// Starts a review of a target in a thread.
pub fn start_review(thread_id: &str, target: Value, delivery: &Option<String>) -> (call: Call)
    ensures
        call@ == (
            "review/start"@,
            object(review_members(thread_id@, target, option_text(*delivery))),
        ),
{
    let mut members: Vec<Member> = Vec::new();
    add_member(&mut members, "threadId", from_text(thread_id));
    add_member(&mut members, "target", target);
    match delivery {
        Some(d) => {
            add_member(&mut members, "delivery", from_text(d.as_str()));
        },
        None => {},
    }
    proof {
        assert(pairs(members@) =~= review_members(thread_id@, target, option_text(*delivery)));
    }
    Call { method: "review/start".to_owned(), params: object_from(members) }
}

/// How far the agent may reach in a turn.
#[derive(Clone, Copy, Debug, PartialEq, Eq, Structural)]
pub enum AccessMode {
    /// It may do anything and is never asked to confirm.
    FullAccess,
    /// It may read only.
    ReadOnly,
    /// It may write within the workspace and use the network.
    Current,
}

/// The access mode that a name stands for: `full-access`, `read-only`, and
/// for every other name, or none, the current mode.
pub open spec fn access_mode_of(name: Option<Seq<char>>) -> AccessMode {
    match name {
        Some(n) => if n == "full-access"@ {
            AccessMode::FullAccess
        } else if n == "read-only"@ {
            AccessMode::ReadOnly
        } else {
            AccessMode::Current
        },
        None => AccessMode::Current,
    }
}

/// The access mode that a name stands for.
pub fn access_mode(name: &Option<String>) -> (mode: AccessMode)
    ensures
        mode == access_mode_of(option_text(*name)),
{
    match name {
        Some(n) => {
            if same_text(n.as_str(), "full-access") {
                AccessMode::FullAccess
            } else if same_text(n.as_str(), "read-only") {
                AccessMode::ReadOnly
            } else {
                AccessMode::Current
            }
        },
        None => AccessMode::Current,
    }
}

/// The approval policy of a mode: the agent never asks with full access,
/// and asks on request else.
pub open spec fn approval_of(mode: AccessMode) -> Seq<char> {
    match mode {
        AccessMode::FullAccess => "never"@,
        _ => "on-request"@,
    }
}

/// The sandbox policy of a mode for a workspace rooted at `cwd`.
pub open spec fn sandbox_of(mode: AccessMode, cwd: Seq<char>) -> Value {
    match mode {
        AccessMode::FullAccess => object(seq![("type"@, string("dangerFullAccess"@))]),
        AccessMode::ReadOnly => object(seq![("type"@, string("readOnly"@))]),
        AccessMode::Current => object(
            seq![
                ("type"@, string("workspaceWrite"@)),
                ("writableRoots"@, array(seq![string(cwd)])),
                ("networkAccess"@, boolean(true)),
            ],
        ),
    }
}

/// The parameters of a turn that sends one text of the user.
pub open spec fn turn_params(
    thread_id: Seq<char>,
    text: Seq<char>,
    model: Option<Seq<char>>,
    effort: Option<Seq<char>>,
    mode: AccessMode,
    cwd: Seq<char>,
) -> Value {
    object(
        seq![
            ("threadId"@, string(thread_id)),
            (
                "input"@,
                array(seq![object(seq![("type"@, string("text"@)), ("text"@, string(text))])]),
            ),
            ("cwd"@, string(cwd)),
            ("approvalPolicy"@, string(approval_of(mode))),
            ("sandboxPolicy"@, sandbox_of(mode, cwd)),
            ("model"@, optional_string(model)),
            ("effort"@, optional_string(effort)),
        ],
    )
}

/// The approval policy of a mode.
pub fn approval_policy(mode: AccessMode) -> (r: &'static str)
    ensures
        r@ == approval_of(mode),
{
    match mode {
        AccessMode::FullAccess => "never",
        _ => "on-request",
    }
}

/// The sandbox policy of a mode for a workspace rooted at `cwd`.
pub fn sandbox_policy(mode: AccessMode, cwd: &str) -> (r: Value)
    ensures
        r == sandbox_of(mode, cwd@),
{
    match mode {
        AccessMode::FullAccess => single("type", from_text("dangerFullAccess")),
        AccessMode::ReadOnly => single("type", from_text("readOnly")),
        AccessMode::Current => {
            let mut roots: Vec<Value> = Vec::new();
            roots.push(from_text(cwd));
            proof {
                assert(roots@ =~= seq![string(cwd@)]);
            }
            let roots_value = array_from(roots);
            let mut members: Vec<Member> = Vec::new();
            add_member(&mut members, "type", from_text("workspaceWrite"));
            add_member(&mut members, "writableRoots", roots_value);
            add_member(&mut members, "networkAccess", from_bool(true));
            proof {
                assert(pairs(members@) =~= seq![
                    ("type"@, string("workspaceWrite"@)),
                    ("writableRoots"@, array(seq![string(cwd@)])),
                    ("networkAccess"@, boolean(true)),
                ]);
            }
            object_from(members)
        },
    }
}

/// Starts a turn with one text of the user, in the workspace rooted at
/// `cwd`, under the access mode that `access_mode` names.
pub fn send_user_message(
    thread_id: &str,
    text: &str,
    model: &Option<String>,
    effort: &Option<String>,
    access_mode: &Option<String>,
    cwd: &str,
) -> (call: Call)
    ensures
        call@ == (
            "turn/start"@,
            turn_params(
                thread_id@,
                text@,
                option_text(*model),
                option_text(*effort),
                access_mode_of(option_text(*access_mode)),
                cwd@,
            ),
        ),
{
    let mode = self::access_mode(access_mode);
    let item = couple("type", from_text("text"), "text", from_text(text));
    let mut input: Vec<Value> = Vec::new();
    input.push(item);
    proof {
        assert(input@ =~= seq![item]);
    }
    let input_value = array_from(input);
    let sandbox = sandbox_policy(mode, cwd);
    let model_value = text_or_null(model);
    let effort_value = text_or_null(effort);
    let mut members: Vec<Member> = Vec::new();
    add_member(&mut members, "threadId", from_text(thread_id));
    add_member(&mut members, "input", input_value);
    add_member(&mut members, "cwd", from_text(cwd));
    add_member(&mut members, "approvalPolicy", from_text(approval_policy(mode)));
    add_member(&mut members, "sandboxPolicy", sandbox);
    add_member(&mut members, "model", model_value);
    add_member(&mut members, "effort", effort_value);
    proof {
        assert(pairs(members@) =~= seq![
            ("threadId"@, string(thread_id@)),
            ("input"@, input_value),
            ("cwd"@, string(cwd@)),
            ("approvalPolicy"@, string(approval_of(mode))),
            ("sandboxPolicy"@, sandbox),
            ("model"@, model_value),
            ("effort"@, effort_value),
        ]);
    }
    Call { method: "turn/start".to_owned(), params: object_from(members) }
}

} // verus!
