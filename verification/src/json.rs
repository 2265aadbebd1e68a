//! JSON values, held in `serde_json::Value`.
//!
//! What a value holds is the tree `tree(value)`; every contract speaks of it.
use serde_json::Value;
use vstd::prelude::*;

verus! {

/// What a JSON value holds. A number is an integer where it is written without
/// fraction and exponent and fits in 64 bits, else the bits of a binary64.
pub enum Json {
    Null,
    Bool(bool),
    Integer(int),
    Real(u64),
    Text(Seq<char>),
    List(Seq<Json>),
    Object(Map<Seq<char>, Json>),
}

/// A value nested at most `depth` deep.
pub open spec fn nested(j: Json, depth: nat) -> bool
    decreases depth,
{
    match j {
        Json::List(items) => depth > 0 && forall|i: int|
            0 <= i < items.len() ==> nested(#[trigger] items[i], (depth - 1) as nat),
        Json::Object(members) => depth > 0 && forall|key: Seq<char>|
            members.contains_key(key) ==> nested(#[trigger] members[key], (depth - 1) as nat),
        _ => true,
    }
}

/// Two values, `depth` deep, that are the same but for what their fractional
/// numbers are.
pub open spec fn alike(a: Json, b: Json, depth: nat) -> bool
    decreases depth,
{
    match (a, b) {
        (Json::Real(_), Json::Real(_)) => true,
        (Json::List(x), Json::List(y)) => depth > 0 && x.len() == y.len() && forall|i: int|
            0 <= i < x.len() ==> alike(#[trigger] x[i], y[i], (depth - 1) as nat),
        (Json::Object(x), Json::Object(y)) => depth > 0 && x.dom() == y.dom() && forall|
            key: Seq<char>,
        |
            x.contains_key(key) ==> alike(#[trigger] x[key], y[key], (depth - 1) as nat),
        _ => a == b,
    }
}

/// The member `key` of an object; of anything else nothing.
pub open spec fn member(j: Json, key: Seq<char>) -> Option<Json> {
    match j {
        Json::Object(members) => if members.contains_key(key) {
            Some(members[key])
        } else {
            None
        },
        _ => None,
    }
}

/// The string that `j` is.
pub open spec fn text_of(j: Option<Json>) -> Option<Seq<char>> {
    match j {
        Some(Json::Text(s)) => Some(s),
        _ => None,
    }
}

/// The integer from `low` to `high` that `j` is.
pub open spec fn integer_of(j: Option<Json>, low: int, high: int) -> Option<int> {
    match j {
        Some(Json::Integer(n)) => if low <= n <= high {
            Some(n)
        } else {
            None
        },
        _ => None,
    }
}

/// The elements of the array that `j` is.
pub open spec fn list_of(j: Option<Json>) -> Option<Seq<Json>> {
    match j {
        Some(Json::List(items)) => Some(items),
        _ => None,
    }
}

/// The trees of some values.
pub open spec fn trees(values: Seq<Value>) -> Seq<Json> {
    Seq::new(values.len(), |i: int| tree(values[i]))
}

/// An object without members.
pub open spec fn no_members() -> Map<Seq<char>, Json> {
    Map::empty()
}

// ---------------------------------------------------------------------------
// Outside functions

#[verifier::external_type_specification]
#[verifier::external_body]
pub struct ExValue(serde_json::Value);

/// What a `serde_json::Value` holds.
pub uninterp spec fn tree(value: serde_json::Value) -> Json;

/// What `serde_json::from_str` reads in a text; nothing where it is not JSON.
pub uninterp spec fn parsed(source: Seq<char>) -> Option<Json>;

/// What `serde_json::from_slice` reads in some bytes; nothing where they are not JSON.
pub uninterp spec fn parsed_bytes(source: Seq<u8>) -> Option<Json>;

/// What `Value::to_string` writes for a value.
pub uninterp spec fn written(value: Json) -> Seq<char>;

/// `serde_json::from_str` into a `Value`: the outcome depends on the text alone.
/// A text that is nested 128 deep or deeper is refused.
#[verifier::external_body]
pub(crate) fn parse(source: &str) -> (r: Option<Value>)
    ensures
        match r {
            Some(value) => parsed(source@) == Some(tree(value)) && nested(tree(value), 127),
            None => parsed(source@) is None,
        },
{
    serde_json::from_str::<Value>(source).ok()
}

/// `serde_json::from_slice` into a `Value`: the outcome depends on the bytes alone.
#[verifier::external_body]
pub(crate) fn parse_bytes(source: &[u8]) -> (r: Option<Value>)
    ensures
        match r {
            Some(value) => parsed_bytes(source@) == Some(tree(value)),
            None => parsed_bytes(source@) is None,
        },
{
    serde_json::from_slice::<Value>(source).ok()
}

/// `Value::to_string` writes a text that depends on what the value holds. Read
/// again, it gives the same value, but that a fractional number may come back
/// as a neighbouring one: a `Value` holds finite numbers only, and the at most
/// 17 digits that are written of one never exceed what the parser takes. A
/// value that is nested deeper than the parser goes is left out: it takes as
/// many calls in one another to write it.
#[verifier::external_body]
pub(crate) fn render(value: &Value) -> (r: String)
    requires
        nested(tree(*value), 127),
    ensures
        r@ == written(tree(*value)),
        match parsed(r@) {
            Some(j) => alike(tree(*value), j, 127),
            None => false,
        },
{
    value.to_string()
}

/// `Value::get` with a string: the member of an object of that name.
#[verifier::external_body]
pub(crate) fn get<'a>(value: &'a Value, key: &str) -> (r: Option<&'a Value>)
    ensures
        match r {
            Some(found) => member(tree(*value), key@) == Some(tree(*found)),
            None => member(tree(*value), key@) is None,
        },
{
    value.get(key)
}

/// `Value::as_str`: the string that a value is.
#[verifier::external_body]
pub(crate) fn as_str(value: &Value) -> (r: Option<&str>)
    ensures
        match r {
            Some(s) => tree(*value) == Json::Text(s@),
            None => !(tree(*value) is Text),
        },
{
    value.as_str()
}

/// `Value::as_array`: the elements of the array that a value is.
#[verifier::external_body]
pub(crate) fn as_array(value: &Value) -> (r: Option<&Vec<Value>>)
    ensures
        match r {
            Some(items) => tree(*value) == Json::List(trees(items@)),
            None => !(tree(*value) is List),
        },
{
    value.as_array()
}

/// `Value::as_i64`: the integer that a value is, where an `i64` holds it.
#[verifier::external_body]
pub(crate) fn as_i64(value: &Value) -> (r: Option<i64>)
    ensures
        match r {
            Some(n) => tree(*value) == Json::Integer(n as int),
            None => integer_of(Some(tree(*value)), i64::MIN as int, i64::MAX as int) is None,
        },
{
    value.as_i64()
}

/// `Value::as_u64`: the integer that a value is, where a `u64` holds it.
#[verifier::external_body]
pub(crate) fn as_u64(value: &Value) -> (r: Option<u64>)
    ensures
        match r {
            Some(n) => tree(*value) == Json::Integer(n as int),
            None => integer_of(Some(tree(*value)), 0, u64::MAX as int) is None,
        },
{
    value.as_u64()
}

/// `Value::as_bool`: the truth value that a value is.
#[verifier::external_body]
pub(crate) fn as_bool(value: &Value) -> (r: Option<bool>)
    ensures
        match r {
            Some(b) => tree(*value) == Json::Bool(b),
            None => !(tree(*value) is Bool),
        },
{
    value.as_bool()
}

/// `Value::is_object`: whether a value is an object.
#[verifier::external_body]
pub(crate) fn is_object(value: &Value) -> (r: bool)
    ensures
        r == (tree(*value) is Object),
{
    value.is_object()
}

/// `Value::String`: a string as a value.
#[verifier::external_body]
pub(crate) fn string(s: &str) -> (r: Value)
    ensures
        tree(r) == Json::Text(s@),
{
    Value::String(s.to_string())
}

/// `Value::Bool`: a truth value as a value.
#[verifier::external_body]
pub(crate) fn boolean(b: bool) -> (r: Value)
    ensures
        tree(r) == Json::Bool(b),
{
    Value::Bool(b)
}

/// `Value::from` on an `i64`: an integer as a value.
#[verifier::external_body]
pub(crate) fn integer(n: i64) -> (r: Value)
    ensures
        tree(r) == Json::Integer(n as int),
{
    Value::from(n)
}

/// `Value::Array`: some values as an array.
#[verifier::external_body]
pub(crate) fn array(items: Vec<Value>) -> (r: Value)
    ensures
        tree(r) == Json::List(trees(items@)),
{
    Value::Array(items)
}

/// `Value::Object` on a new `serde_json::Map`: an object without members.
#[verifier::external_body]
pub(crate) fn object() -> (r: Value)
    ensures
        tree(r) == Json::Object(no_members()),
{
    Value::Object(serde_json::Map::new())
}

/// `serde_json::Map::insert` on the members of an object: the member `key` is
/// `value` afterwards, the others stay.
#[verifier::external_body]
pub(crate) fn put(value: &mut Value, key: &str, item: Value)
    requires
        tree(*old(value)) is Object,
    ensures
        tree(*final(value)) == Json::Object(
            tree(*old(value))->Object_0.insert(key@, tree(item)),
        ),
{
    if let Some(members) = value.as_object_mut() {
        members.insert(key.to_string(), item);
    }
}

// ---------------------------------------------------------------------------
// Reading members

/// The string that the member `key` is; an empty string where it is none.
pub open spec fn text_member(j: Json, key: Seq<char>) -> Seq<char> {
    match text_of(member(j, key)) {
        Some(s) => s,
        None => Seq::empty(),
    }
}

/// The string that the member `key` of `value` is; an empty string where it is none.
pub fn text_field(value: &Value, key: &str) -> (r: String)
    ensures
        r@ == text_member(tree(*value), key@),
{
    match get(value, key) {
        Some(found) => match as_str(found) {
            Some(s) => s.to_owned(),
            None => String::new(),
        },
        None => String::new(),
    }
}

/// A text is read where the member of that name is one, and nothing where it is
/// anything else or there is none.
pub proof fn texts_are_read_by_name(members: Map<Seq<char>, Json>, key: Seq<char>, value: Seq<char>)
    ensures
        text_member(Json::Object(members.insert(key, Json::Text(value))), key) == value,
        !members.contains_key(key) ==> text_member(Json::Object(members), key).len() == 0,
        members.contains_key(key) && !(members[key] is Text) ==> text_member(
            Json::Object(members),
            key,
        ).len() == 0,
{
}

} // verus!
