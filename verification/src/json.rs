//! The library's model of a JSON value: what the plan, contract and tool-call
//! logic reads of a JSON document, held as plain values.
//!
//! A number is kept as text: for a value `serde_json` read, the text it
//! writes for that number (so `1e2` comes back as `100.0`). An object keeps
//! its members as a list (for a value `serde_json` read, sorted by key).

use vstd::prelude::*;

verus! {

/// A JSON value.
#[derive(Debug, PartialEq, Eq)]
pub enum JsonValue {
    /// `null`
    Null,
    /// `true` / `false`
    Bool(bool),
    /// A number, as text (e.g. `1`, `2.5`).
    Number(String),
    /// A string.
    Str(String),
    /// An array.
    Array(Vec<JsonValue>),
    /// An object: its members, as a list.
    Object(Vec<(String, JsonValue)>),
}

/// The first member of `fields` named `key`.
pub open spec fn field_of(fields: Seq<(String, JsonValue)>, key: Seq<char>) -> Option<JsonValue>
    decreases fields.len(),
{
    if fields.len() == 0 {
        None
    } else if fields[0].0@ == key {
        Some(fields[0].1)
    } else {
        field_of(fields.drop_first(), key)
    }
}

/// The member `key` of `v` when `v` is an object.
pub open spec fn member(v: JsonValue, key: Seq<char>) -> Option<JsonValue> {
    match v {
        JsonValue::Object(fields) => field_of(fields@, key),
        _ => None,
    }
}

/// The text of `v` when `v` is a string.
pub open spec fn str_of(v: Option<JsonValue>) -> Option<Seq<char>> {
    match v {
        Some(JsonValue::Str(s)) => Some(s@),
        _ => None,
    }
}

/// The first member of `fields` named `key`.
pub fn get_field<'a>(fields: &'a Vec<(String, JsonValue)>, key: &str) -> (r: Option<&'a JsonValue>)
    ensures
        match field_of(fields@, key@) {
            Some(v) => r == Some(&v),
            None => r is None,
        },
{
    let wanted = key.to_owned();
    let mut i: usize = 0;
    proof {
        assert(fields@.subrange(0, fields@.len() as int) =~= fields@);
    }
    while i < fields.len()
        invariant
            i <= fields@.len(),
            wanted@ == key@,
            field_of(fields@, key@) == field_of(fields@.subrange(i as int, fields@.len() as int), key@),
        decreases fields@.len() - i,
    {
        proof {
            let rest = fields@.subrange(i as int, fields@.len() as int);
            assert(rest[0] == fields@[i as int]);
            assert(rest.drop_first() =~= fields@.subrange(i + 1, fields@.len() as int));
        }
        if fields[i].0 == wanted {
            proof {
                let rest = fields@.subrange(i as int, fields@.len() as int);
                assert(field_of(rest, key@) == Some(fields@[i as int].1));
            }
            return Some(&fields[i].1);
        }
        i = i + 1;
    }
    None
}

impl JsonValue {
    /// The member `key` when this is an object.
    pub fn get(&self, key: &str) -> (r: Option<&JsonValue>)
        ensures
            match member(*self, key@) {
                Some(v) => r == Some(&v),
                None => r is None,
            },
    {
        match self {
            JsonValue::Object(fields) => get_field(fields, key),
            _ => None,
        }
    }

    /// The text when this is a string.
    pub fn as_str(&self) -> (r: Option<&String>)
        ensures
            match *self {
                JsonValue::Str(s) => r == Some(&s),
                _ => r is None,
            },
    {
        match self {
            JsonValue::Str(s) => Some(s),
            _ => None,
        }
    }

    /// The items when this is an array.
    pub fn as_array(&self) -> (r: Option<&Vec<JsonValue>>)
        ensures
            match *self {
                JsonValue::Array(items) => r == Some(&items),
                _ => r is None,
            },
    {
        match self {
            JsonValue::Array(items) => Some(items),
            _ => None,
        }
    }

    /// The members when this is an object.
    pub fn as_object(&self) -> (r: Option<&Vec<(String, JsonValue)>>)
        ensures
            match *self {
                JsonValue::Object(fields) => r == Some(&fields),
                _ => r is None,
            },
    {
        match self {
            JsonValue::Object(fields) => Some(fields),
            _ => None,
        }
    }
}

} // verus!

verus! {

/// Model of a JSON value: strings and numbers as character sequences.
pub enum JsonView {
    Null,
    Bool(bool),
    Number(Seq<char>),
    Str(Seq<char>),
    Array(Seq<JsonView>),
    Object(Seq<(Seq<char>, JsonView)>),
}

/// The model of a value.
pub open spec fn json_view(v: JsonValue) -> JsonView
    decreases v, 1nat,
{
    match v {
        JsonValue::Null => JsonView::Null,
        JsonValue::Bool(b) => JsonView::Bool(b),
        JsonValue::Number(n) => JsonView::Number(n@),
        JsonValue::Str(t) => JsonView::Str(t@),
        JsonValue::Array(items) => JsonView::Array(items_view(items@)),
        JsonValue::Object(fields) => JsonView::Object(fields_view(fields@)),
    }
}

/// The models of array items.
pub open spec fn items_view(items: Seq<JsonValue>) -> Seq<JsonView>
    decreases items, 0nat,
{
    if items.len() == 0 {
        Seq::empty()
    } else {
        seq![json_view(items[0])] + items_view(items.drop_first())
    }
}

/// The models of object members.
pub open spec fn fields_view(fields: Seq<(String, JsonValue)>) -> Seq<(Seq<char>, JsonView)>
    decreases fields, 0nat,
{
    if fields.len() == 0 {
        Seq::empty()
    } else {
        seq![(fields[0].0@, json_view(fields[0].1))] + fields_view(fields.drop_first())
    }
}

impl View for JsonValue {
    type V = JsonView;

    open spec fn view(&self) -> JsonView {
        json_view(*self)
    }
}

/// The model of an optional value.
pub open spec fn opt_json_view(v: Option<JsonValue>) -> Option<JsonView> {
    match v {
        Some(x) => Some(x@),
        None => None,
    }
}

/// The first member named `key` of a modelled object's members.
pub open spec fn view_field_of(fields: Seq<(Seq<char>, JsonView)>, key: Seq<char>) -> Option<JsonView>
    decreases fields.len(),
{
    if fields.len() == 0 {
        None
    } else if fields[0].0 == key {
        Some(fields[0].1)
    } else {
        view_field_of(fields.drop_first(), key)
    }
}

/// The member `key` of a modelled value when it is an object.
pub open spec fn view_member(v: JsonView, key: Seq<char>) -> Option<JsonView> {
    match v {
        JsonView::Object(fields) => view_field_of(fields, key),
        _ => None,
    }
}

/// Looking a member up commutes with taking the model.
pub proof fn lemma_field_view(fields: Seq<(String, JsonValue)>, key: Seq<char>)
    ensures
        view_field_of(fields_view(fields), key) == opt_json_view(field_of(fields, key)),
    decreases fields.len(),
{
    if fields.len() > 0 {
        assert(fields_view(fields).drop_first() =~= fields_view(fields.drop_first()));
        lemma_field_view(fields.drop_first(), key);
    }
}

/// Looking a member up commutes with taking the model.
pub proof fn lemma_member_view(v: JsonValue, key: Seq<char>)
    ensures
        view_member(v@, key) == opt_json_view(member(v, key)),
{
    if let JsonValue::Object(fields) = v {
        lemma_field_view(fields@, key);
    }
}

/// A text read as JSON: the value, or the text itself as a string when it
/// is not JSON.
pub open spec fn or_text(parsed: Option<JsonView>, raw: Seq<char>) -> JsonView {
    match parsed {
        Some(v) => v,
        None => JsonView::Str(raw),
    }
}

/// A text read as JSON (the result of `json_parse`): the value, or the text
/// itself as a string when it is not JSON.
pub fn json_or_text(parsed: Option<JsonValue>, raw: &str) -> (r: JsonValue)
    ensures
        r@ == or_text(opt_json_view(parsed), raw@),
{
    match parsed {
        Some(v) => v,
        None => JsonValue::Str(raw.to_owned()),
    }
}

} // verus!

verus! {

#[verifier::external_type_specification]
#[verifier::external_body]
pub struct ExSerdeValue(serde_json::Value);

/// What `serde_json` reads from a text, as the library models it (`None`
/// when the text is not JSON).
pub uninterp spec fn json_parse(text: Seq<char>) -> Option<JsonView>;

/// The library's model of a value `serde_json` read: each variant mapped to
/// its counterpart, a number kept as the text `serde_json` writes for it.
#[verifier::external_body]
fn model_of(v: &serde_json::Value) -> JsonValue {
    match v {
        serde_json::Value::Null => JsonValue::Null,
        serde_json::Value::Bool(b) => JsonValue::Bool(*b),
        serde_json::Value::Number(n) => JsonValue::Number(n.to_string()),
        serde_json::Value::String(t) => JsonValue::Str(t.clone()),
        serde_json::Value::Array(items) => JsonValue::Array(items.iter().map(model_of).collect()),
        serde_json::Value::Object(map) => JsonValue::Object(map.iter().map(|(k, x)| (k.clone(), model_of(x))).collect()),
    }
}

/// Reads a text as JSON with `serde_json::from_str`; `None` when it is not
/// JSON. The contract names the result and says nothing of it: what a JSON
/// reader gives for a text is the JSON standard's matter.
#[verifier::external_body]
pub(crate) fn parse_json(text: &str) -> (r: Option<JsonValue>)
    ensures
        opt_json_view(r) == json_parse(text@),
{
    match serde_json::from_str::<serde_json::Value>(text) {
        Ok(v) => Some(model_of(&v)),
        Err(_) => None,
    }
}

/// The compact JSON text `serde_json` writes for a value (`Value`'s
/// `Display`), as the library names it.
pub uninterp spec fn json_rendered(v: JsonView) -> Seq<char>;

/// The `serde_json` value with the same content: each variant mapped to its
/// counterpart, a number read back from its text (a string where the
/// text is not a JSON number).
#[verifier::external_body]
fn serde_of(v: &JsonValue) -> serde_json::Value {
    match v {
        JsonValue::Null => serde_json::Value::Null,
        JsonValue::Bool(b) => serde_json::Value::Bool(*b),
        JsonValue::Number(n) => n.parse().map_or_else(|_| serde_json::Value::String(n.clone()), serde_json::Value::Number),
        JsonValue::Str(t) => serde_json::Value::String(t.clone()),
        JsonValue::Array(items) => serde_json::Value::Array(items.iter().map(serde_of).collect()),
        JsonValue::Object(fields) => serde_json::Value::Object(fields.iter().map(|(k, x)| (k.clone(), serde_of(x))).collect()),
    }
}

/// Compact JSON text of a value, written by `serde_json` (`Value`'s
/// `Display`). The contract names the result: how `serde_json` orders
/// members and escapes characters is its own matter.
#[verifier::external_body]
pub(crate) fn json_to_text(v: &JsonValue) -> (s: String)
    ensures
        s@ == json_rendered(v@),
{
    serde_of(v).to_string()
}

/// The indented JSON text `serde_json::to_string_pretty` writes for a value
/// (`None` when it reports an error), as the library names it.
pub uninterp spec fn json_pretty(v: JsonView) -> Option<Seq<char>>;

/// Indented JSON text of a value, written by `serde_json::to_string_pretty`;
/// `None` when it reports an error. The contract names the result.
#[verifier::external_body]
pub(crate) fn json_to_pretty_text(v: &JsonValue) -> (r: Option<String>)
    ensures
        crate::text::opt_text(r) == json_pretty(v@),
{
    serde_json::to_string_pretty(&serde_of(v)).ok()
}

/// A text read as JSON, the text itself as a string when it is not JSON.
pub open spec fn read_text(raw: Seq<char>) -> JsonView {
    or_text(json_parse(raw), raw)
}

/// A text read as JSON: the value, or the text itself as a string when it
/// is not JSON (nothing is dropped).
pub fn read_json_or_text(raw: &str) -> (r: JsonValue)
    ensures
        r@ == read_text(raw@),
{
    let parsed = parse_json(raw);
    json_or_text(parsed, raw)
}

} // verus!
