use vstd::prelude::*;
use serde_json::Value;

verus! {

/// A JSON document of `serde_json`. Nothing inside it is visible to the
/// verifier; the functions below are the only way to look into one.
#[verifier::external_type_specification]
#[verifier::external_body]
pub struct ExValue(serde_json::Value);

/// The error that `serde_json` reports for a text that is no JSON document.
#[verifier::external_type_specification]
#[verifier::external_body]
pub struct ExJsonError(serde_json::Error);

/// One member of an object document that is being built.
pub struct Member {
    pub key: String,
    pub value: Value,
}

/// The keys and documents of a list of members, in order.
pub open spec fn pairs(members: Seq<Member>) -> Seq<(Seq<char>, Value)> {
    members.map_values(|m: Member| (m.key@, m.value))
}

/// No key occurs twice in a list of pairs.
pub open spec fn distinct_keys(members: Seq<(Seq<char>, Value)>) -> bool {
    forall|i: int, j: int| 0 <= i < j < members.len() ==> members[i].0 != members[j].0
}

/// The documents of a list of pairs by key, a later pair replacing an
/// earlier one with the same key.
pub open spec fn by_key(members: Seq<(Seq<char>, Value)>) -> Map<Seq<char>, Value>
    decreases members.len(),
{
    if members.len() == 0 {
        Map::empty()
    } else {
        by_key(members.drop_last()).insert(members.last().0, members.last().1)
    }
}

/// What `serde_json::from_str` makes of a text.
pub uninterp spec fn parsed(text: Seq<char>) -> Result<Value, serde_json::Error>;

/// The message that a `serde_json::Error` displays.
pub uninterp spec fn error_message(error: serde_json::Error) -> Seq<char>;

/// The members of an object document, by key; no members for a document
/// that is no object.
pub uninterp spec fn fields(value: Value) -> Map<Seq<char>, Value>;

/// The number that `Value::as_u64` reads from a document.
pub uninterp spec fn unsigned(value: Value) -> Option<u64>;

/// The text that `Value::as_str` reads from a document.
pub uninterp spec fn text_of(value: Value) -> Option<Seq<char>>;

/// Whether `Value::is_object` holds of a document.
pub uninterp spec fn is_object(value: Value) -> bool;

/// The number that `Value::as_i64` reads from a document.
pub uninterp spec fn integer_of(value: Value) -> Option<i64>;

/// The number that `Value::as_f64` reads from a document, cut to an `i64`
/// as a cast cuts it: towards zero, and to the nearest end where it is out of range.
pub uninterp spec fn cut_of(value: Value) -> Option<i64>;

/// The whole number that a document stands for: its integer, or else its
/// number cut to one.
pub open spec fn whole_of(value: Value) -> Option<i64> {
    match integer_of(value) {
        Some(n) => Some(n),
        None => cut_of(value),
    }
}

/// What `serde_json::to_string` makes of a document: its text, or the error.
pub uninterp spec fn written(value: Value) -> Result<Seq<char>, serde_json::Error>;

/// A result of writing, with the text taken as its characters.
pub open spec fn as_written(r: Result<String, serde_json::Error>) -> Result<
    Seq<char>,
    serde_json::Error,
> {
    match r {
        Ok(text) => Ok(text@),
        Err(error) => Err(error),
    }
}

/// The document that holds one unsigned number.
pub uninterp spec fn number(n: u64) -> Value;

/// The document that holds one truth value.
pub uninterp spec fn boolean(b: bool) -> Value;

/// The document that `Value::from` makes of an optional string: the
/// string, or `null` for none.
pub uninterp spec fn optional_string(text: Option<Seq<char>>) -> Value;

/// The array document that holds the given documents, in order.
pub uninterp spec fn array(items: Seq<Value>) -> Value;

/// The object document that is made of the given members, in the given order.
pub uninterp spec fn object(members: Seq<(Seq<char>, Value)>) -> Value;

/// The document that holds one string.
pub uninterp spec fn string(text: Seq<char>) -> Value;

/// Calls `serde_json::from_str` for a `Value`. Parsing depends on the text
/// alone, so the result is the named one.
#[verifier::external_body]
pub(crate) fn parse(text: &str) -> (r: Result<Value, serde_json::Error>)
    ensures
        r == parsed(text@),
{
    serde_json::from_str::<Value>(text)
}

/// Calls the `Display` impl of `serde_json::Error` through `to_string`.
#[verifier::external_body]
pub(crate) fn describe(error: &serde_json::Error) -> (r: String)
    ensures
        r@ == error_message(*error),
{
    error.to_string()
}

/// Calls `Value::get` with a string key: the member of an object under that
/// key, and nothing for a missing key or a document that is no object.
#[verifier::external_body]
pub(crate) fn get<'a>(value: &'a Value, key: &str) -> (r: Option<&'a Value>)
    ensures
        r is Some <==> fields(*value).contains_key(key@),
        r matches Some(found) ==> fields(*value)[key@] == *found,
{
    value.get(key)
}

/// Calls `Value::as_u64`: the number of a document that is an integer
/// between zero and `u64::MAX`, and nothing for every other document.
#[verifier::external_body]
pub(crate) fn as_u64(value: &Value) -> (r: Option<u64>)
    ensures
        r == unsigned(*value),
{
    value.as_u64()
}

/// Calls `Value::as_str` and copies the text: the text of a document that
/// is a string, and nothing for every other document.
#[verifier::external_body]
pub(crate) fn as_text(value: &Value) -> (r: Option<String>)
    ensures
        crate::text::option_text(r) == text_of(*value),
{
    value.as_str().map(|s| s.to_string())
}

/// Calls `Value::is_object`.
#[verifier::external_body]
pub(crate) fn check_object(value: &Value) -> (r: bool)
    ensures
        r == is_object(*value),
{
    value.is_object()
}

/// Calls `Value::as_i64`: the number of a document that is an integer
/// within the range of `i64`, and nothing for every other document.
#[verifier::external_body]
pub(crate) fn as_i64(value: &Value) -> (r: Option<i64>)
    ensures
        r == integer_of(*value),
{
    value.as_i64()
}

/// Calls `Value::as_f64` and casts the number that it reads to an `i64`.
#[verifier::external_body]
pub(crate) fn as_cut(value: &Value) -> (r: Option<i64>)
    ensures
        r == cut_of(*value),
{
    value.as_f64().map(|n| n as i64)
}

/// Calls `serde_json::to_string` on a document. Writing depends on the
/// document alone, so the result is the named one.
#[verifier::external_body]
pub(crate) fn to_text(value: &Value) -> (r: Result<String, serde_json::Error>)
    ensures
        as_written(r) == written(*value),
{
    serde_json::to_string(value)
}

/// Calls `Value::from` on a `u64`. The document is a number, and
/// `Value::as_u64` reads the same number back from it.
#[verifier::external_body]
pub(crate) fn from_u64(n: u64) -> (r: Value)
    ensures
        r == number(n),
        unsigned(r) == Some(n),
{
    Value::from(n)
}

/// Calls `Value::from` on a string slice.
#[verifier::external_body]
pub(crate) fn from_text(text: &str) -> (r: Value)
    ensures
        r == string(text@),
{
    Value::from(text)
}

/// Calls `Value::from` on a `bool`.
#[verifier::external_body]
pub(crate) fn from_bool(b: bool) -> (r: Value)
    ensures
        r == boolean(b),
{
    Value::from(b)
}

/// Calls `Value::from` on an optional string slice: `null` for none, and
/// for a string the document that `Value::from` makes of the string.
#[verifier::external_body]
pub(crate) fn from_optional_text(text: Option<&str>) -> (r: Value)
    ensures
        r == optional_string(
            match text {
                Some(s) => Some(s@),
                None => None,
            },
        ),
        text matches Some(s) ==> r == string(s@),
{
    Value::from(text)
}

/// Wraps a list of documents as `Value::Array`.
#[verifier::external_body]
pub(crate) fn array_from(items: Vec<Value>) -> (r: Value)
    ensures
        r == array(items@),
{
    Value::Array(items)
}

/// Collects key and document pairs into a `serde_json::Map` and wraps it as
/// `Value::Object`. Where no key occurs twice, the object has exactly the
/// given members.
#[verifier::external_body]
pub(crate) fn object_from(members: Vec<Member>) -> (r: Value)
    ensures
        r == object(pairs(members@)),
        distinct_keys(pairs(members@)) ==> fields(r) == by_key(pairs(members@)),
{
    Value::Object(members.into_iter().map(|m| (m.key, m.value)).collect())
}

/// The whole number that a document stands for.
pub fn as_whole(value: &Value) -> (r: Option<i64>)
    ensures
        r == whole_of(*value),
{
    match as_i64(value) {
        Some(n) => Some(n),
        None => as_cut(value),
    }
}

/// Appends the member `key: value` to a list of members.
pub fn add_member(members: &mut Vec<Member>, key: &str, value: Value)
    ensures
        pairs(final(members)@) == pairs(old(members)@).push((key@, value)),
        by_key(pairs(final(members)@)) == by_key(pairs(old(members)@)).insert(key@, value),
{
    let member = Member { key: key.to_owned(), value };
    let ghost before = pairs(members@);
    members.push(member);
    proof {
        assert(pairs(members@) =~= before.push((key@, value)));
        assert(before.push((key@, value)).drop_last() =~= before);
    }
}

} // verus!
