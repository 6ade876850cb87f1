//! JSON, as far as the INFO and CONNECT commands need it.
//!
//! Reading and writing JSON text is left to `serde_json`. It parses a body
//! into its members, tells what kind of value a member holds, and writes a
//! text as a JSON string. What it answers is named here ([`json_object`],
//! [`json_field_of`], [`json_string`]) and is taken on trust. Which members a
//! command needs, of which kind, and in which order they are written, is
//! decided by the verified functions of this file.

use vstd::prelude::*;
use vstd::utf8::encode_utf8;
use serde_json::Value;
use crate::protocol::error::{CommandError, JsonFault};
use crate::text::{append, bytes_eq, decimal, opt_text, push_decimal};

verus! {

#[verifier::external_type_specification]
#[verifier::external_body]
pub struct ExJsonValue(serde_json::Value);

#[verifier::external_type_specification]
#[verifier::external_body]
pub struct ExJsonError(serde_json::Error);

/// What a JSON value holds, one level deep: the items of a list stay as
/// they are.
#[derive(Debug)]
pub enum JsonField {
    Null,
    Bool(bool),
    /// A number; `None` where it is negative or has a fraction.
    Number(Option<u64>),
    Text(String),
    List(Vec<Value>),
    Object,
}

/// A `JsonField` as plain values.
pub enum JsonFieldView {
    Null,
    Bool(bool),
    Number(Option<u64>),
    Text(Seq<char>),
    List(Seq<Value>),
    Object,
}

impl View for JsonField {
    type V = JsonFieldView;

    open spec fn view(&self) -> JsonFieldView {
        match *self {
            JsonField::Null => JsonFieldView::Null,
            JsonField::Bool(b) => JsonFieldView::Bool(b),
            JsonField::Number(n) => JsonFieldView::Number(n),
            JsonField::Text(s) => JsonFieldView::Text(s@),
            JsonField::List(items) => JsonFieldView::List(items@),
            JsonField::Object => JsonFieldView::Object,
        }
    }
}

/// The JSON string that `serde_json` writes for a text, quotes included;
/// `None` where it refuses.
pub uninterp spec fn json_string(text: Seq<char>) -> Option<Seq<u8>>;

/// The members of the JSON object that `serde_json` reads from a body, each
/// with its key; `None` where the body is no JSON object.
pub uninterp spec fn json_object(body: Seq<u8>) -> Option<Seq<(Seq<char>, Value)>>;

/// The kind and content of a JSON value.
pub uninterp spec fn json_field_of(value: Value) -> JsonFieldView;

/// The members of a parsed object, keys as texts.
pub open spec fn member_views(members: Seq<(String, Value)>) -> Seq<(Seq<char>, Value)> {
    Seq::new(members.len(), |i: int| (members[i].0@, members[i].1))
}

/// Calls `serde_json::to_vec` on a text. The result is the JSON string for
/// that text, and depends on the text alone.
#[verifier::external_body]
fn json_quote(text: &str) -> (r: Result<Vec<u8>, serde_json::Error>)
    ensures
        r is Ok <==> json_string(text@) is Some,
        r matches Ok(v) ==> json_string(text@) == Some(v@),
{
    serde_json::to_vec(text)
}

/// Calls `serde_json::from_slice` to read a body as a JSON object, and lists
/// the object's members. The result depends on the body alone.
#[verifier::external_body]
fn json_members(body: &[u8]) -> (r: Result<Vec<(String, Value)>, serde_json::Error>)
    ensures
        r is Ok <==> json_object(body@) is Some,
        r matches Ok(m) ==> json_object(body@) == Some(member_views(m@)),
{
    let object: serde_json::Map<String, Value> = serde_json::from_slice(body)?;
    Ok(object.into_iter().collect())
}

/// Tells the variants of `serde_json::Value` apart; a number goes through
/// `Number::as_u64`.
#[verifier::external_body]
fn json_field(value: &Value) -> (r: JsonField)
    ensures
        r@ == json_field_of(*value),
{
    match value {
        Value::Null => JsonField::Null,
        Value::Bool(b) => JsonField::Bool(*b),
        Value::Number(n) => JsonField::Number(n.as_u64()),
        Value::String(s) => JsonField::Text(s.clone()),
        Value::Array(items) => JsonField::List(items.clone()),
        Value::Object(_) => JsonField::Object,
    }
}

/// `server_id`
pub const KEY_SERVER_ID: [u8; 9] = [0x73, 0x65, 0x72, 0x76, 0x65, 0x72, 0x5f, 0x69, 0x64];

/// `version`
pub const KEY_VERSION: [u8; 7] = [0x76, 0x65, 0x72, 0x73, 0x69, 0x6f, 0x6e];

/// `go`
pub const KEY_GO: [u8; 2] = [0x67, 0x6f];

/// `host`
pub const KEY_HOST: [u8; 4] = [0x68, 0x6f, 0x73, 0x74];

/// `port`
pub const KEY_PORT: [u8; 4] = [0x70, 0x6f, 0x72, 0x74];

/// `max_payload`
pub const KEY_MAX_PAYLOAD: [u8; 11] = [
    0x6d, 0x61, 0x78, 0x5f, 0x70, 0x61, 0x79, 0x6c, 0x6f, 0x61, 0x64,
];

/// `proto`
pub const KEY_PROTO: [u8; 5] = [0x70, 0x72, 0x6f, 0x74, 0x6f];

/// `client_id`
pub const KEY_CLIENT_ID: [u8; 9] = [0x63, 0x6c, 0x69, 0x65, 0x6e, 0x74, 0x5f, 0x69, 0x64];

/// `auth_required`
pub const KEY_AUTH_REQUIRED: [u8; 13] = [
    0x61, 0x75, 0x74, 0x68, 0x5f, 0x72, 0x65, 0x71, 0x75, 0x69, 0x72, 0x65, 0x64,
];

/// `tls_required`
pub const KEY_TLS_REQUIRED: [u8; 12] = [
    0x74, 0x6c, 0x73, 0x5f, 0x72, 0x65, 0x71, 0x75, 0x69, 0x72, 0x65, 0x64,
];

/// `tls_verify`
pub const KEY_TLS_VERIFY: [u8; 10] = [0x74, 0x6c, 0x73, 0x5f, 0x76, 0x65, 0x72, 0x69, 0x66, 0x79];

/// `connect_urls`
pub const KEY_CONNECT_URLS: [u8; 12] = [
    0x63, 0x6f, 0x6e, 0x6e, 0x65, 0x63, 0x74, 0x5f, 0x75, 0x72, 0x6c, 0x73,
];

/// `verbose`
pub const KEY_VERBOSE: [u8; 7] = [0x76, 0x65, 0x72, 0x62, 0x6f, 0x73, 0x65];

/// `pedantic`
pub const KEY_PEDANTIC: [u8; 8] = [0x70, 0x65, 0x64, 0x61, 0x6e, 0x74, 0x69, 0x63];

/// `auth_token`
pub const KEY_AUTH_TOKEN: [u8; 10] = [0x61, 0x75, 0x74, 0x68, 0x5f, 0x74, 0x6f, 0x6b, 0x65, 0x6e];

/// `user`
pub const KEY_USER: [u8; 4] = [0x75, 0x73, 0x65, 0x72];

/// `pass`
pub const KEY_PASS: [u8; 4] = [0x70, 0x61, 0x73, 0x73];

/// `name`
pub const KEY_NAME: [u8; 4] = [0x6e, 0x61, 0x6d, 0x65];

/// `lang`
pub const KEY_LANG: [u8; 4] = [0x6c, 0x61, 0x6e, 0x67];

/// `protocol`
pub const KEY_PROTOCOL: [u8; 8] = [0x70, 0x72, 0x6f, 0x74, 0x6f, 0x63, 0x6f, 0x6c];

/// `echo`
pub const KEY_ECHO: [u8; 4] = [0x65, 0x63, 0x68, 0x6f];

/// `true`
pub const TEXT_TRUE: [u8; 4] = [0x74, 0x72, 0x75, 0x65];

/// `false`
pub const TEXT_FALSE: [u8; 5] = [0x66, 0x61, 0x6c, 0x73, 0x65];


/// `"`
pub const QUOTE: u8 = 0x22;

/// `:`
pub const COLON: u8 = 0x3a;

/// `,`
pub const COMMA: u8 = 0x2c;

/// `{`
pub const OPEN_BRACE: u8 = 0x7b;

/// `}`
pub const CLOSE_BRACE: u8 = 0x7d;

/// `[`
pub const OPEN_BRACKET: u8 = 0x5b;

/// `]`
pub const CLOSE_BRACKET: u8 = 0x5d;

/// The value of the first member whose key is `name`.
pub open spec fn find_member(members: Seq<(Seq<char>, Value)>, name: Seq<u8>) -> Option<
    JsonFieldView,
>
    decreases members.len(),
{
    if members.len() == 0 {
        None
    } else if encode_utf8(members[0].0) == name {
        Some(json_field_of(members[0].1))
    } else {
        find_member(members.drop_first(), name)
    }
}

/// The text that a value holds, if it is a text.
pub open spec fn text_of(f: JsonFieldView) -> Option<Seq<char>> {
    match f {
        JsonFieldView::Text(t) => Some(t),
        _ => None,
    }
}

/// The truth value that a value holds, if it is one.
pub open spec fn bool_of(f: JsonFieldView) -> Option<bool> {
    match f {
        JsonFieldView::Bool(b) => Some(b),
        _ => None,
    }
}

/// The number that a value holds, if it is a whole number from 0 to `max`.
pub open spec fn number_of(f: JsonFieldView, max: u64) -> Option<u64> {
    match f {
        JsonFieldView::Number(Some(n)) => if n <= max {
            Some(n)
        } else {
            None
        },
        _ => None,
    }
}

/// The texts that a value holds, if it is a list of texts.
pub open spec fn text_list_of(f: JsonFieldView) -> Option<Seq<Seq<char>>> {
    match f {
        JsonFieldView::List(items) => if forall|i: int|
            0 <= i < items.len() ==> (#[trigger] json_field_of(items[i])) is Text {
            Some(Seq::new(items.len(), |i: int| json_field_of(items[i])->Text_0))
        } else {
            None
        },
        _ => None,
    }
}

/// A member that may be left out: a missing member and `null` both stand
/// for no value. The outer `None` says that the value is of the wrong kind.
pub open spec fn optional<T>(member: Option<JsonFieldView>, read: Option<T>) -> Option<Option<T>> {
    match member {
        None => Some(None),
        Some(JsonFieldView::Null) => Some(None),
        Some(_) => match read {
            Some(v) => Some(Some(v)),
            None => None,
        },
    }
}

/// A member that must be there; `None` says that it is missing or of the
/// wrong kind.
pub open spec fn required_text(members: Seq<(Seq<char>, Value)>, name: Seq<u8>) -> Option<
    Seq<char>,
> {
    match find_member(members, name) {
        Some(f) => text_of(f),
        None => None,
    }
}

pub open spec fn required_bool(members: Seq<(Seq<char>, Value)>, name: Seq<u8>) -> Option<bool> {
    match find_member(members, name) {
        Some(f) => bool_of(f),
        None => None,
    }
}

pub open spec fn required_number(
    members: Seq<(Seq<char>, Value)>,
    name: Seq<u8>,
    max: u64,
) -> Option<u64> {
    match find_member(members, name) {
        Some(f) => number_of(f, max),
        None => None,
    }
}

pub open spec fn optional_text(members: Seq<(Seq<char>, Value)>, name: Seq<u8>) -> Option<
    Option<Seq<char>>,
> {
    match find_member(members, name) {
        Some(f) => optional(Some(f), text_of(f)),
        None => Some(None),
    }
}

pub open spec fn optional_bool(members: Seq<(Seq<char>, Value)>, name: Seq<u8>) -> Option<
    Option<bool>,
> {
    match find_member(members, name) {
        Some(f) => optional(Some(f), bool_of(f)),
        None => Some(None),
    }
}

pub open spec fn optional_number(
    members: Seq<(Seq<char>, Value)>,
    name: Seq<u8>,
    max: u64,
) -> Option<Option<u64>> {
    match find_member(members, name) {
        Some(f) => optional(Some(f), number_of(f, max)),
        None => Some(None),
    }
}

pub open spec fn optional_text_list(members: Seq<(Seq<char>, Value)>, name: Seq<u8>) -> Option<
    Option<Seq<Seq<char>>>,
> {
    match find_member(members, name) {
        Some(f) => optional(Some(f), text_list_of(f)),
        None => Some(None),
    }
}

/// The texts of a list of strings.
pub open spec fn text_views(items: Seq<String>) -> Seq<Seq<char>> {
    Seq::new(items.len(), |i: int| items[i]@)
}

/// `"key":`
pub open spec fn member_head(key: Seq<u8>) -> Seq<u8> {
    seq![QUOTE] + key + seq![QUOTE, COLON]
}

/// The JSON string for a text, as `serde_json` writes it.
pub open spec fn quoted(text: Seq<char>) -> Seq<u8> {
    json_string(text)->0
}

/// `true` or `false`
pub open spec fn bool_text(b: bool) -> Seq<u8> {
    if b {
        TEXT_TRUE@
    } else {
        TEXT_FALSE@
    }
}

/// The JSON strings of a list of texts, with commas between them.
pub open spec fn list_body(items: Seq<Seq<char>>) -> Seq<u8>
    decreases items.len(),
{
    if items.len() == 0 {
        Seq::empty()
    } else if items.len() == 1 {
        quoted(items[0])
    } else {
        list_body(items.drop_last()) + seq![COMMA] + quoted(items.last())
    }
}

/// Whether `serde_json` writes each text of the list.
pub open spec fn list_quotable(items: Seq<Seq<char>>) -> bool {
    forall|i: int| 0 <= i < items.len() ==> (#[trigger] json_string(items[i])) is Some
}

/// `first` names the first member with the key `name`, or the length where
/// no member has it.
pub proof fn lemma_find_member(members: Seq<(Seq<char>, Value)>, name: Seq<u8>, first: int)
    requires
        0 <= first <= members.len(),
        forall|j: int| 0 <= j < first ==> encode_utf8(#[trigger] members[j].0) != name,
        first < members.len() ==> encode_utf8(members[first].0) == name,
    ensures
        find_member(members, name) == if first < members.len() {
            Some(json_field_of(members[first].1))
        } else {
            None
        },
    decreases members.len(),
{
    if members.len() == 0 || encode_utf8(members[0].0) == name {
        if members.len() > 0 {
            assert(first == 0) by {
                if first > 0 {
                    assert(encode_utf8(members[0].0) != name);
                }
            }
        }
    } else {
        let rest = members.drop_first();
        assert forall|j: int| 0 <= j < first - 1 implies encode_utf8(#[trigger] rest[j].0)
            != name by {
            assert(encode_utf8(members[j + 1].0) != name);
        }
        lemma_find_member(rest, name, first - 1);
    }
}

/// Reads a body as a JSON object.
pub fn read_object(body: &[u8]) -> (r: Result<Vec<(String, Value)>, CommandError>)
    ensures
        match r {
            Ok(m) => json_object(body@) == Some(member_views(m@)),
            Err(e) => json_object(body@) is None && e == CommandError::JsonError(JsonFault::Syntax),
        },
{
    match json_members(body) {
        Ok(m) => Ok(m),
        Err(_) => Err(CommandError::JsonError(JsonFault::Syntax)),
    }
}

/// Looks a member up by its key.
pub fn member(members: &Vec<(String, Value)>, name: &[u8]) -> (r: Option<JsonField>)
    ensures
        match r {
            Some(f) => find_member(member_views(members@), name@) == Some(f@),
            None => find_member(member_views(members@), name@) is None,
        },
{
    let mut i: usize = 0;
    while i < members.len()
        invariant
            i <= members.len(),
            forall|j: int|
                0 <= j < i ==> encode_utf8(#[trigger] member_views(members@)[j].0) != name@,
        decreases members.len() - i,
    {
        if bytes_eq(members[i].0.as_str().as_bytes(), name) {
            proof {
                lemma_find_member(member_views(members@), name@, i as int);
            }
            return Some(json_field(&members[i].1));
        }
        i += 1;
    }
    proof {
        lemma_find_member(member_views(members@), name@, i as int);
    }
    None
}

/// Reads a list of texts out of the items of a JSON list.
pub fn read_text_list(items: &Vec<Value>) -> (r: Option<Vec<String>>)
    ensures
        match r {
            Some(texts) => text_list_of(JsonFieldView::List(items@)) == Some(text_views(texts@)),
            None => text_list_of(JsonFieldView::List(items@)) is None,
        },
{
    let mut out: Vec<String> = Vec::new();
    let mut i: usize = 0;
    while i < items.len()
        invariant
            i <= items.len(),
            out@.len() == i,
            forall|j: int| 0 <= j < i ==> (#[trigger] json_field_of(items@[j])) is Text,
            forall|j: int| 0 <= j < i ==> out@[j]@ == json_field_of(items@[j])->Text_0,
        decreases items.len() - i,
    {
        match json_field(&items[i]) {
            JsonField::Text(s) => {
                out.push(s);
            },
            _ => {
                assert(!(json_field_of(items@[i as int]) is Text));
                return None;
            },
        }
        i += 1;
    }
    assert(text_views(out@) =~= Seq::new(
        items@.len(),
        |i: int| json_field_of(items@[i])->Text_0,
    ));
    Some(out)
}

/// The error of a body whose members do not fit the command.
pub fn structure_error() -> (e: CommandError)
    ensures
        e == CommandError::JsonError(JsonFault::Structure),
{
    CommandError::JsonError(JsonFault::Structure)
}

/// Reads a text member that must be there.
pub fn read_required_text(members: &Vec<(String, Value)>, name: &[u8]) -> (r: Option<String>)
    ensures
        match r {
            Some(s) => required_text(member_views(members@), name@) == Some(s@),
            None => required_text(member_views(members@), name@) is None,
        },
{
    match member(members, name) {
        Some(JsonField::Text(s)) => Some(s),
        _ => None,
    }
}

/// Reads a truth value that must be there.
pub fn read_required_bool(members: &Vec<(String, Value)>, name: &[u8]) -> (r: Option<bool>)
    ensures
        r == required_bool(member_views(members@), name@),
{
    match member(members, name) {
        Some(JsonField::Bool(b)) => Some(b),
        _ => None,
    }
}

/// Reads a number from 0 to `max` that must be there.
pub fn read_required_number(members: &Vec<(String, Value)>, name: &[u8], max: u64) -> (r: Option<
    u64,
>)
    ensures
        r == required_number(member_views(members@), name@, max),
{
    match member(members, name) {
        Some(JsonField::Number(Some(n))) => if n <= max {
            Some(n)
        } else {
            None
        },
        _ => None,
    }
}

/// Reads a text member that may be left out.
pub fn read_optional_text(members: &Vec<(String, Value)>, name: &[u8]) -> (r: Option<
    Option<String>,
>)
    ensures
        match r {
            Some(Some(s)) => optional_text(member_views(members@), name@) == Some(Some(s@)),
            Some(None) => optional_text(member_views(members@), name@) == Some(
                None::<Seq<char>>,
            ),
            None => optional_text(member_views(members@), name@) is None,
        },
{
    match member(members, name) {
        None => Some(None),
        Some(JsonField::Null) => Some(None),
        Some(JsonField::Text(s)) => Some(Some(s)),
        Some(_) => None,
    }
}

/// Reads a truth value that may be left out.
pub fn read_optional_bool(members: &Vec<(String, Value)>, name: &[u8]) -> (r: Option<
    Option<bool>,
>)
    ensures
        r == optional_bool(member_views(members@), name@),
{
    match member(members, name) {
        None => Some(None),
        Some(JsonField::Null) => Some(None),
        Some(JsonField::Bool(b)) => Some(Some(b)),
        Some(_) => None,
    }
}

/// Reads a number from 0 to `max` that may be left out.
pub fn read_optional_number(members: &Vec<(String, Value)>, name: &[u8], max: u64) -> (r: Option<
    Option<u64>,
>)
    ensures
        r == optional_number(member_views(members@), name@, max),
{
    match member(members, name) {
        None => Some(None),
        Some(JsonField::Null) => Some(None),
        Some(JsonField::Number(Some(n))) => if n <= max {
            Some(Some(n))
        } else {
            None
        },
        Some(_) => None,
    }
}

/// Reads a list of texts that may be left out.
pub fn read_optional_text_list(members: &Vec<(String, Value)>, name: &[u8]) -> (r: Option<
    Option<Vec<String>>,
>)
    ensures
        match r {
            Some(Some(l)) => optional_text_list(member_views(members@), name@) == Some(
                Some(text_views(l@)),
            ),
            Some(None) => optional_text_list(member_views(members@), name@) == Some(
                None::<Seq<Seq<char>>>,
            ),
            None => optional_text_list(member_views(members@), name@) is None,
        },
{
    match member(members, name) {
        None => Some(None),
        Some(JsonField::Null) => Some(None),
        Some(JsonField::List(items)) => match read_text_list(&items) {
            Some(l) => Some(Some(l)),
            None => None,
        },
        Some(_) => None,
    }
}

/// Writes `"key":`, behind a comma where the member is not the first.
pub fn write_member_head(out: &mut Vec<u8>, key: &[u8], first: bool)
    ensures
        final(out)@ == old(out)@ + lead(first) + member_head(key@),
{
    if !first {
        out.push(COMMA);
    }
    let ghost start = out@;
    assert(start =~= old(out)@ + lead(first));
    out.push(QUOTE);
    append(out, key);
    out.push(QUOTE);
    out.push(COLON);
    assert(out@ =~= start + member_head(key@));
}

/// Writes a text as a JSON string.
pub fn write_text(out: &mut Vec<u8>, text: &str) -> (r: Result<(), CommandError>)
    ensures
        match r {
            Ok(_) => json_string(text@) is Some && final(out)@ == old(out)@ + quoted(text@),
            Err(e) => json_string(text@) is None && e == CommandError::JsonError(
                JsonFault::Syntax,
            ),
        },
{
    match json_quote(text) {
        Ok(q) => {
            append(out, q.as_slice());
            Ok(())
        },
        Err(_) => Err(CommandError::JsonError(JsonFault::Syntax)),
    }
}

/// Writes `true` or `false`.
pub fn write_bool(out: &mut Vec<u8>, b: bool)
    ensures
        final(out)@ == old(out)@ + bool_text(b),
{
    if b {
        append(out, TEXT_TRUE.as_slice());
    } else {
        append(out, TEXT_FALSE.as_slice());
    }
}

/// Writes a list of texts as a JSON list of strings.
pub fn write_text_list(out: &mut Vec<u8>, items: &Vec<String>) -> (r: Result<(), CommandError>)
    ensures
        match r {
            Ok(_) => list_quotable(text_views(items@)) && final(out)@ == old(out)@ + seq![
                OPEN_BRACKET,
            ] + list_body(text_views(items@)) + seq![CLOSE_BRACKET],
            Err(e) => !list_quotable(text_views(items@)) && e == CommandError::JsonError(
                JsonFault::Syntax,
            ),
        },
{
    out.push(OPEN_BRACKET);
    let ghost start = out@;
    let ghost texts = text_views(items@);
    let mut i: usize = 0;
    assert(texts.take(0) =~= Seq::<Seq<char>>::empty());
    while i < items.len()
        invariant
            i <= items.len(),
            texts == text_views(items@),
            forall|j: int| 0 <= j < i ==> (#[trigger] json_string(texts[j])) is Some,
            out@ == start + list_body(texts.take(i as int)),
        decreases items.len() - i,
    {
        let ghost before = out@;
        if i > 0 {
            out.push(COMMA);
        }
        match write_text(out, items[i].as_str()) {
            Ok(_) => {},
            Err(e) => {
                assert(json_string(texts[i as int]) is None);
                return Err(e);
            },
        }
        proof {
            let now = texts.take(i + 1);
            assert(now.drop_last() =~= texts.take(i as int));
            assert(now.last() == texts[i as int]);
            if i == 0 {
                assert(now[0] == texts[0]);
                assert(list_body(texts.take(0)) =~= Seq::<u8>::empty());
                assert(out@ =~= start + list_body(now));
            } else {
                assert(out@ =~= start + list_body(now));
            }
        }
        i += 1;
    }
    assert(texts.take(i as int) =~= texts);
    out.push(CLOSE_BRACKET);
    assert(out@ =~= old(out)@ + seq![OPEN_BRACKET] + list_body(texts) + seq![CLOSE_BRACKET]);
    Ok(())
}

/// What stands before a member: nothing before the first, a comma before
/// each of the others.
pub open spec fn lead(first: bool) -> Seq<u8> {
    if first {
        Seq::empty()
    } else {
        seq![COMMA]
    }
}

/// A text member.
pub open spec fn text_member(key: Seq<u8>, text: Seq<char>, first: bool) -> Seq<u8> {
    lead(first) + member_head(key) + quoted(text)
}

/// A truth value member.
pub open spec fn bool_member(key: Seq<u8>, b: bool, first: bool) -> Seq<u8> {
    lead(first) + member_head(key) + bool_text(b)
}

/// A number member.
pub open spec fn number_member(key: Seq<u8>, n: u64, first: bool) -> Seq<u8> {
    lead(first) + member_head(key) + decimal(n as nat)
}

/// A member that is written only where it has a value. It is never the
/// first member, so a comma goes before it.
pub open spec fn piece(key: Seq<u8>, value: Option<Seq<u8>>) -> Seq<u8> {
    match value {
        Some(v) => seq![COMMA] + member_head(key) + v,
        None => Seq::empty(),
    }
}

/// An optional text member.
pub open spec fn text_piece(key: Seq<u8>, value: Option<Seq<char>>) -> Seq<u8> {
    piece(
        key,
        match value {
            Some(t) => Some(quoted(t)),
            None => None,
        },
    )
}

/// An optional number member.
pub open spec fn number_piece(key: Seq<u8>, value: Option<u64>) -> Seq<u8> {
    piece(
        key,
        match value {
            Some(n) => Some(decimal(n as nat)),
            None => None,
        },
    )
}

/// An optional truth value member.
pub open spec fn bool_piece(key: Seq<u8>, value: Option<bool>) -> Seq<u8> {
    piece(
        key,
        match value {
            Some(b) => Some(bool_text(b)),
            None => None,
        },
    )
}

/// An optional member that lists texts.
pub open spec fn list_piece(key: Seq<u8>, value: Option<Seq<Seq<char>>>) -> Seq<u8> {
    piece(
        key,
        match value {
            Some(l) => Some(seq![OPEN_BRACKET] + list_body(l) + seq![CLOSE_BRACKET]),
            None => None,
        },
    )
}

/// Whether `serde_json` writes the text, where there is one.
pub open spec fn optional_quotable(value: Option<Seq<char>>) -> bool {
    match value {
        Some(t) => json_string(t) is Some,
        None => true,
    }
}

/// Writes a text member that is always there.
pub fn write_text_member(out: &mut Vec<u8>, key: &[u8], text: &str, first: bool) -> (r: Result<
    (),
    CommandError,
>)
    ensures
        match r {
            Ok(_) => json_string(text@) is Some && final(out)@ == old(out)@ + text_member(
                key@,
                text@,
                first,
            ),
            Err(e) => json_string(text@) is None && e == CommandError::JsonError(
                JsonFault::Syntax,
            ),
        },
{
    write_member_head(out, key, first);
    let r = write_text(out, text);
    proof {
        if r is Ok {
            assert(out@ =~= old(out)@ + text_member(key@, text@, first));
        }
    }
    r
}

/// Writes a truth value member that is always there.
pub fn write_bool_member(out: &mut Vec<u8>, key: &[u8], b: bool, first: bool)
    ensures
        final(out)@ == old(out)@ + bool_member(key@, b, first),
{
    write_member_head(out, key, first);
    write_bool(out, b);
    assert(out@ =~= old(out)@ + bool_member(key@, b, first));
}

/// Writes a number member that is always there.
pub fn write_number_member(out: &mut Vec<u8>, key: &[u8], n: u64, first: bool)
    ensures
        final(out)@ == old(out)@ + number_member(key@, n, first),
{
    write_member_head(out, key, first);
    push_decimal(out, n);
    assert(out@ =~= old(out)@ + number_member(key@, n, first));
}

/// Writes a text member where it has a value.
pub fn write_text_piece(out: &mut Vec<u8>, key: &[u8], value: &Option<String>) -> (r: Result<
    (),
    CommandError,
>)
    ensures
        match r {
            Ok(_) => optional_quotable(opt_text(*value)) && final(out)@ == old(out)@ + text_piece(
                key@,
                opt_text(*value),
            ),
            Err(e) => !optional_quotable(opt_text(*value)) && e == CommandError::JsonError(
                JsonFault::Syntax,
            ),
        },
{
    match value {
        Some(text) => {
            let ghost start = out@;
            let r = write_text_member(out, key, text.as_str(), false);
            proof {
                if r is Ok {
                    assert(out@ =~= start + text_piece(key@, Some(text@)));
                }
            }
            r
        },
        None => {
            assert(out@ =~= out@ + Seq::<u8>::empty());
            Ok(())
        },
    }
}

/// Writes a number member where it has a value.
pub fn write_number_piece(out: &mut Vec<u8>, key: &[u8], value: Option<u64>)
    ensures
        final(out)@ == old(out)@ + number_piece(key@, value),
{
    match value {
        Some(n) => {
            let ghost start = out@;
            write_number_member(out, key, n, false);
            assert(out@ =~= start + number_piece(key@, Some(n)));
        },
        None => {
            assert(out@ =~= out@ + Seq::<u8>::empty());
        },
    }
}

/// Writes a truth value member where it has a value.
pub fn write_bool_piece(out: &mut Vec<u8>, key: &[u8], value: Option<bool>)
    ensures
        final(out)@ == old(out)@ + bool_piece(key@, value),
{
    match value {
        Some(b) => {
            let ghost start = out@;
            write_bool_member(out, key, b, false);
            assert(out@ =~= start + bool_piece(key@, Some(b)));
        },
        None => {
            assert(out@ =~= out@ + Seq::<u8>::empty());
        },
    }
}

/// Writes a member that lists texts, where it has a value.
pub fn write_list_piece(out: &mut Vec<u8>, key: &[u8], value: &Option<Vec<String>>) -> (r: Result<
    (),
    CommandError,
>)
    ensures
        match r {
            Ok(_) => (value matches Some(l) ==> list_quotable(text_views(l@))) && final(out)@
                == old(out)@ + list_piece(
                key@,
                match *value {
                    Some(l) => Some(text_views(l@)),
                    None => None,
                },
            ),
            Err(e) => value matches Some(l) && !list_quotable(text_views(l@)) && e
                == CommandError::JsonError(JsonFault::Syntax),
        },
{
    match value {
        Some(items) => {
            let ghost start = out@;
            write_member_head(out, key, false);
            let r = write_text_list(out, items);
            proof {
                if r is Ok {
                    assert(out@ =~= start + list_piece(key@, Some(text_views(items@))));
                }
            }
            r
        },
        None => {
            assert(out@ =~= out@ + Seq::<u8>::empty());
            Ok(())
        },
    }
}

} // verus!
