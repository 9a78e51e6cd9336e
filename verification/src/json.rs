//! JSON by way of serde_json.

use serde_json::Value;
use vstd::prelude::*;
use vstd::string::*;

use crate::text::{before, decimal, join};

verus! {

/// A JSON value.
#[verifier::external_type_specification]
#[verifier::external_body]
pub struct ExValue(serde_json::Value);

/// The value that a JSON text stands for, or what is wrong with the text.
pub uninterp spec fn json(text: Seq<char>) -> Result<serde_json::Value, Seq<char>>;

/// `serde_json::from_str` into a `Value`: the value of the text, or an error, of which its
/// `Display` text is kept. Both depend on the text alone.
#[verifier::external_body]
pub(crate) fn parse_json(text: &str) -> (r: Result<Value, String>)
    ensures
        match r {
            Ok(v) => json(text@) == Ok::<Value, Seq<char>>(v),
            Err(e) => json(text@) == Err::<Value, Seq<char>>(e@),
        },
{
    serde_json::from_str(text).map_err(|e| e.to_string())
}

/// The member of an object with that key.
pub uninterp spec fn member_of(v: serde_json::Value, key: Seq<char>) -> Option<serde_json::Value>;

/// `serde_json::Value::get` with a text: the member with that key; none where the value is no
/// object or has no such member.
#[verifier::external_body]
pub(crate) fn member<'a>(v: &'a Value, key: &str) -> (r: Option<&'a Value>)
    ensures
        match r {
            Some(m) => member_of(*v, key@) == Some(*m),
            None => member_of(*v, key@) is None,
        },
{
    v.get(key)
}

/// The text that a JSON string holds.
pub uninterp spec fn string_of(v: serde_json::Value) -> Option<Seq<char>>;

/// `serde_json::Value::as_str`: the text of a JSON string; none where the value is no string.
#[verifier::external_body]
pub(crate) fn as_text(v: &Value) -> (r: Option<&str>)
    ensures
        match r {
            Some(s) => string_of(*v) == Some(s@),
            None => string_of(*v) is None,
        },
{
    v.as_str()
}

/// A JSON value as compact text.
pub uninterp spec fn json_text(v: serde_json::Value) -> Seq<char>;

/// `Display` of `serde_json::Value`: the value as compact text.
#[verifier::external_body]
pub(crate) fn value_text(v: &Value) -> (r: String)
    ensures
        r@ == json_text(*v),
{
    v.to_string()
}

/// What an indented JSON text looks like, by the compact text of the same value.
pub uninterp spec fn indented(text: Seq<char>) -> Seq<char>;

/// `serde_json::to_string_pretty` of a value, which never fails. It writes what the compact
/// text holds, with line breaks and spaces between, so the compact text determines it.
#[verifier::external_body]
pub(crate) fn pretty(v: &Value) -> (r: Result<String, String>)
    ensures
        r is Ok,
        r->Ok_0@ == indented(json_text(*v)),
{
    serde_json::to_string_pretty(v).map_err(|e| e.to_string())
}

/// `Clone` of `serde_json::Value`: an equal value.
#[verifier::external_body]
pub(crate) fn value_copy(v: &Value) -> (r: Value)
    ensures
        r == *v,
{
    v.clone()
}

/// A hexadecimal digit.
pub open spec fn hex_digit(d: int) -> char {
    if d < 10 {
        (48 + d) as char
    } else {
        (87 + d) as char
    }
}

/// How a character is written in a JSON string.
pub open spec fn escaped(c: char) -> Seq<char> {
    if c == '"' {
        seq!['\\', '"']
    } else if c == '\\' {
        seq!['\\', '\\']
    } else if c == '\u{8}' {
        seq!['\\', 'b']
    } else if c == '\t' {
        seq!['\\', 't']
    } else if c == '\n' {
        seq!['\\', 'n']
    } else if c == '\u{c}' {
        seq!['\\', 'f']
    } else if c == '\r' {
        seq!['\\', 'r']
    } else if 32 > (c as int) {
        seq!['\\', 'u', '0', '0', hex_digit(c as int / 16), hex_digit(c as int % 16)]
    } else {
        seq![c]
    }
}

/// The characters of `s` as they are written in a JSON string.
pub open spec fn all_escaped(s: Seq<char>) -> Seq<char>
    decreases s.len(),
{
    if s.len() == 0 {
        Seq::empty()
    } else {
        all_escaped(s.drop_last()) + escaped(s.last())
    }
}

/// `s` as a JSON string.
pub open spec fn json_string(s: Seq<char>) -> Seq<char> {
    "\""@ + all_escaped(s) + "\""@
}

/// A JSON array, by the texts of its elements.
pub open spec fn array_text(items: Seq<Seq<char>>) -> Seq<char> {
    "["@ + join(items, ","@) + "]"@
}

/// A member of a JSON object, by its key and the text of its value.
pub open spec fn member_text(key: Seq<char>, value: Seq<char>) -> Seq<char> {
    json_string(key) + ":"@ + value
}

/// A JSON object, by the keys of its members and the texts of their values.
pub open spec fn object_text(members: Seq<(Seq<char>, Seq<char>)>) -> Seq<char> {
    "{"@ + join(members.map_values(|m: (Seq<char>, Seq<char>)| member_text(m.0, m.1)), ","@)
        + "}"@
}

/// The texts of a list of values.
pub open spec fn value_texts(v: Seq<Value>) -> Seq<Seq<char>> {
    v.map_values(|x: Value| json_text(x))
}

/// The keys and the texts of a list of members.
pub open spec fn member_texts(v: Seq<(String, Value)>) -> Seq<(Seq<char>, Seq<char>)> {
    v.map_values(|m: (String, Value)| (m.0@, json_text(m.1)))
}

/// The key of member `i` comes before that of the next one.
pub open spec fn key_ascends(members: Seq<(Seq<char>, Seq<char>)>, i: int) -> bool {
    before(members[i].0, members[i + 1].0)
}

/// The keys go up strictly.
pub open spec fn keys_ascend(members: Seq<(Seq<char>, Seq<char>)>) -> bool {
    forall|i: int| 0 <= i < members.len() - 1 ==> #[trigger] key_ascends(members, i)
}

/// `serde_json::Value::from` a text: a JSON string. In compact form it stands in quotes;
/// quotes, backslashes and control characters are escaped, the latter by their short form
/// where they have one.
#[verifier::external_body]
pub(crate) fn text_value(s: &str) -> (r: Value)
    ensures
        json_text(r) == json_string(s@),
        string_of(r) == Some(s@),
{
    Value::from(s)
}

/// `serde_json::Value::from` a number: in compact form its digits.
#[verifier::external_body]
pub(crate) fn number_value(n: u32) -> (r: Value)
    ensures
        json_text(r) == decimal(n as nat),
{
    Value::from(n)
}

/// `serde_json::Value::from` an optional value: the value, or `null` where there is none.
#[verifier::external_body]
pub(crate) fn opt_value(v: Option<Value>) -> (r: Value)
    ensures
        match v {
            Some(x) => r == x,
            None => json_text(r) == "null"@,
        },
{
    Value::from(v)
}

/// `serde_json::Value::from` a list of values: a JSON array. In compact form its elements
/// stand between brackets with commas between them.
#[verifier::external_body]
pub(crate) fn array_value(items: Vec<Value>) -> (r: Value)
    ensures
        json_text(r) == array_text(value_texts(items@)),
{
    Value::from(items)
}

/// `serde_json::Value` collected from keys with values: a JSON object. In compact form its
/// members stand between braces with commas between them, in the order of their keys; what
/// becomes of keys in another order, or of one that comes twice, is left unsaid.
#[verifier::external_body]
pub(crate) fn object_value(members: Vec<(String, Value)>) -> (r: Value)
    ensures
        keys_ascend(member_texts(members@)) ==> json_text(r) == object_text(
            member_texts(members@),
        ),
{
    members.into_iter().collect()
}

/// Add a member to a list.
pub(crate) fn add_member(members: &mut Vec<(String, Value)>, key: &str, value: Value)
    ensures
        member_texts(final(members)@) == member_texts(old(members)@).push(
            (key@, json_text(value)),
        ),
{
    let ghost seen = members@;
    members.push((key.to_owned(), value));
    assert(member_texts(members@) =~= member_texts(seen).push((key@, json_text(value))));
}

} // verus!
