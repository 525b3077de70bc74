use vstd::prelude::*;
use serde_json::Value;
use crate::text::result_texts;
use crate::json::{
    add_member, as_u64, describe, error_message, fields, from_text, from_u64, get, number, object,
    object_from, pairs, string, to_text, unsigned, written, Member,
};

verus! {

/// What the protocol reads from one incoming message.
#[derive(Clone, Copy, Debug, PartialEq, Eq, Structural)]
pub struct MessageShape {
    /// The correlation id, where the message has one that is an unsigned number.
    pub id: Option<u64>,
    pub has_method: bool,
    pub has_result: bool,
    pub has_error: bool,
}

/// What an incoming message is to the client.
#[derive(Clone, Copy, Debug, PartialEq, Eq, Structural)]
pub enum MessageKind {
    /// The answer to a request of ours: it has an id and a result or an error.
    Reply { id: u64 },
    /// A request that the subprocess makes: an id and a method, no result or error.
    ServerRequest { id: u64 },
    /// An id and nothing else that is known; it is handled as an answer.
    BareReply { id: u64 },
    /// A method without an id.
    Notification,
    /// Neither an id nor a method.
    Unrecognized,
}

/// The kind of a message with the given shape.
pub open spec fn kind_of(shape: MessageShape) -> MessageKind {
    match shape.id {
        Some(id) => if shape.has_result || shape.has_error {
            MessageKind::Reply { id }
        } else if shape.has_method {
            MessageKind::ServerRequest { id }
        } else {
            MessageKind::BareReply { id }
        },
        None => if shape.has_method {
            MessageKind::Notification
        } else {
            MessageKind::Unrecognized
        },
    }
}

/// Classifies a message by its shape.
pub fn classify(shape: &MessageShape) -> (kind: MessageKind)
    ensures
        kind == kind_of(*shape),
{
    match shape.id {
        Some(id) => {
            if shape.has_result || shape.has_error {
                MessageKind::Reply { id }
            } else if shape.has_method {
                MessageKind::ServerRequest { id }
            } else {
                MessageKind::BareReply { id }
            }
        },
        None => {
            if shape.has_method {
                MessageKind::Notification
            } else {
                MessageKind::Unrecognized
            }
        },
    }
}

impl MessageKind {
    /// The id of the pending call that a message of this kind answers.
    pub open spec fn answers(self) -> Option<u64> {
        match self {
            MessageKind::Reply { id } => Some(id),
            MessageKind::BareReply { id } => Some(id),
            _ => None,
        }
    }

    /// Whether a message of this kind is forwarded as an event.
    pub open spec fn is_event(self) -> bool {
        self is ServerRequest || self is Notification
    }

    /// The id of the pending call that a message of this kind answers.
    pub fn reply_id(&self) -> (r: Option<u64>)
        ensures
            r == self.answers(),
    {
        match self {
            MessageKind::Reply { id } => Some(*id),
            MessageKind::BareReply { id } => Some(*id),
            _ => None,
        }
    }

    /// Whether a message of this kind is forwarded as an event.
    pub fn forwarded(&self) -> (r: bool)
        ensures
            r == self.is_event(),
    {
        match self {
            MessageKind::ServerRequest { .. } => true,
            MessageKind::Notification => true,
            _ => false,
        }
    }
}

/// The shape of a document: its `id` where that is an unsigned number, and
/// which of `method`, `result` and `error` it has.
pub open spec fn shape_of(message: Value) -> MessageShape {
    MessageShape {
        id: if fields(message).contains_key("id"@) {
            unsigned(fields(message)["id"@])
        } else {
            None
        },
        has_method: fields(message).contains_key("method"@),
        has_result: fields(message).contains_key("result"@),
        has_error: fields(message).contains_key("error"@),
    }
}

/// Reads the shape of a document.
pub fn inspect(message: &Value) -> (shape: MessageShape)
    ensures
        shape == shape_of(*message),
{
    let id = match get(message, "id") {
        Some(found) => as_u64(found),
        None => None,
    };
    MessageShape {
        id,
        has_method: get(message, "method").is_some(),
        has_result: get(message, "result").is_some(),
        has_error: get(message, "error").is_some(),
    }
}

/// The request `{id, method, params}`.
pub open spec fn request_of(id: u64, method: Seq<char>, params: Value) -> Value {
    object(seq![("id"@, number(id)), ("method"@, string(method)), ("params"@, params)])
}

/// The notification `{method, params}`, and `{method}` where there are no parameters.
pub open spec fn notification_of(method: Seq<char>, params: Option<Value>) -> Value {
    match params {
        Some(params) => object(seq![("method"@, string(method)), ("params"@, params)]),
        None => object(seq![("method"@, string(method))]),
    }
}

/// The answer `{id, result}` to a request of the subprocess.
pub open spec fn response_of(id: u64, result: Value) -> Value {
    object(seq![("id"@, number(id)), ("result"@, result)])
}

/// The keys `id`, `method`, `params`, `result` and `error` are five different keys.
pub proof fn lemma_keys_differ()
    ensures
        "id"@ != "method"@,
        "id"@ != "params"@,
        "id"@ != "result"@,
        "id"@ != "error"@,
        "method"@ != "params"@,
        "method"@ != "result"@,
        "method"@ != "error"@,
        "params"@ != "result"@,
        "params"@ != "error"@,
        "result"@ != "error"@,
{
    reveal_strlit("id");
    reveal_strlit("method");
    reveal_strlit("params");
    reveal_strlit("result");
    reveal_strlit("error");
    assert("id"@.len() == 2);
    assert("method"@.len() == 6);
    assert("params"@.len() == 6);
    assert("result"@.len() == 6);
    assert("error"@.len() == 5);
    assert("method"@[0] == 'm');
    assert("params"@[0] == 'p');
    assert("result"@[0] == 'r');
}

/// Builds the request `{id, method, params}`. Read back, it has the id
/// `id` and a method, and neither a result nor an error.
pub fn request_message(id: u64, method: &str, params: Value) -> (message: Value)
    ensures
        message == request_of(id, method@, params),
        shape_of(message) == (MessageShape {
            id: Some(id),
            has_method: true,
            has_result: false,
            has_error: false,
        }),
        fields(message).contains_key("params"@),
        fields(message)["params"@] == params,
{
    let mut members: Vec<Member> = Vec::new();
    add_member(&mut members, "id", from_u64(id));
    add_member(&mut members, "method", from_text(method));
    add_member(&mut members, "params", params);
    proof {
        lemma_keys_differ();
        assert(pairs(members@) =~= seq![
            ("id"@, number(id)),
            ("method"@, string(method@)),
            ("params"@, params),
        ]);
    }
    object_from(members)
}

/// Builds the notification `{method, params}`; without parameters the
/// member `params` is left out. Read back, it has a method and no id.
pub fn notification_message(method: &str, params: Option<Value>) -> (message: Value)
    ensures
        message == notification_of(method@, params),
        shape_of(message) == (MessageShape {
            id: None,
            has_method: true,
            has_result: false,
            has_error: false,
        }),
        fields(message).contains_key("params"@) <==> params is Some,
        params matches Some(given) ==> fields(message)["params"@] == given,
{
    let mut members: Vec<Member> = Vec::new();
    add_member(&mut members, "method", from_text(method));
    proof {
        lemma_keys_differ();
        assert(pairs(members@) =~= seq![("method"@, string(method@))]);
    }
    match params {
        Some(given) => {
            add_member(&mut members, "params", given);
            proof {
                assert(pairs(members@) =~= seq![("method"@, string(method@)), ("params"@, given)]);
            }
        },
        None => {},
    }
    object_from(members)
}

/// Builds the answer `{id, result}` to a request that the subprocess made
/// under `id`. Read back, it has the id `id` and a result.
pub fn response_message(id: u64, result: Value) -> (message: Value)
    ensures
        message == response_of(id, result),
        shape_of(message) == (MessageShape {
            id: Some(id),
            has_method: false,
            has_result: true,
            has_error: false,
        }),
        fields(message)["result"@] == result,
{
    let mut members: Vec<Member> = Vec::new();
    add_member(&mut members, "id", from_u64(id));
    add_member(&mut members, "result", result);
    proof {
        lemma_keys_differ();
        assert(pairs(members@) =~= seq![("id"@, number(id)), ("result"@, result)]);
    }
    object_from(members)
}

/// The line that carries a message: its JSON text and one newline. Where
/// the document cannot be written, the error's message.
pub open spec fn framed(message: Value) -> Result<Seq<char>, Seq<char>> {
    match written(message) {
        Ok(text) => Ok(text.push('\n')),
        Err(error) => Err(error_message(error)),
    }
}

/// Frames a message as one line.
pub fn frame(message: &Value) -> (r: Result<String, String>)
    ensures
        result_texts(r) == framed(*message),
{
    match to_text(message) {
        Ok(text) => {
            let mut line = text;
            line.push('\n');
            Ok(line)
        },
        Err(error) => Err(describe(&error)),
    }
}

} // verus!
