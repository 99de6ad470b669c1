//! The output contract (`output_schema`): its shape, checks and parsing.
//!
//! - `kind` is one of `bool` / `text` / `markdown` / `json` / `csv` / `file`;
//! - `bool` needs a non-blank `success` (only success or failure, no deliverable);
//!   every other kind needs a non-blank `goal`;
//! - `format` describes the shape; `required` / `wanted` only mean something for
//!   `json` / `csv`.
//!
//! A template may carry no contract at all (`None`): the executor then takes the
//! deliverable step's output as the result.

use vstd::prelude::*;

use crate::json::{get_field, member, str_of, JsonValue};
use crate::text::{
    opt_text, contains_text, dedup, lemma_dedup_distinct, lemma_dedup_from, lemma_dedup_push, lemma_trim_idempotent,
    push_unique, trim, trim_str, views,
};

verus! {

/// Shape of the result.
#[derive(Debug, Clone, Copy, PartialEq, Eq, Structural)]
pub enum OutputKind {
    /// Only a success / failure verdict, no deliverable.
    Bool,
    /// Free text.
    Text,
    /// A Markdown document.
    Markdown,
    /// A JSON object.
    Json,
    /// A table (CSV text).
    Csv,
    /// A file written to disk (delivered as path plus description).
    File,
}

/// The contract name of a kind.
pub open spec fn kind_name(k: OutputKind) -> Seq<char> {
    match k {
        OutputKind::Bool => "bool"@,
        OutputKind::Text => "text"@,
        OutputKind::Markdown => "markdown"@,
        OutputKind::Json => "json"@,
        OutputKind::Csv => "csv"@,
        OutputKind::File => "file"@,
    }
}

/// The kind a `kind` text names (surrounding whitespace ignored).
pub open spec fn kind_of_text(t: Seq<char>) -> Option<OutputKind> {
    let t = trim(t);
    if t == "bool"@ {
        Some(OutputKind::Bool)
    } else if t == "text"@ {
        Some(OutputKind::Text)
    } else if t == "markdown"@ {
        Some(OutputKind::Markdown)
    } else if t == "json"@ {
        Some(OutputKind::Json)
    } else if t == "csv"@ {
        Some(OutputKind::Csv)
    } else if t == "file"@ {
        Some(OutputKind::File)
    } else {
        None
    }
}

/// The valid kinds, in contract order, joined by ` / `.
pub open spec fn kinds_listing() -> Seq<char> {
    "bool"@ + " / "@ + "text"@ + " / "@ + "markdown"@ + " / "@ + "json"@ + " / "@ + "csv"@
        + " / "@ + "file"@
}

/// Whether a kind has field lists.
pub open spec fn has_fields(k: OutputKind) -> bool {
    k == OutputKind::Json || k == OutputKind::Csv
}

impl OutputKind {
    /// Every valid kind, in contract order (the order prompts list them in).
    pub const ALL: [OutputKind; 6] = [
        OutputKind::Bool,
        OutputKind::Text,
        OutputKind::Markdown,
        OutputKind::Json,
        OutputKind::Csv,
        OutputKind::File,
    ];

    /// Parses a `kind` text; an unknown text gives `None`.
    pub fn parse(text: &str) -> (r: Option<OutputKind>)
        ensures
            r == kind_of_text(text@),
    {
        let t = trim_str(text);
        if t == "bool".to_owned() {
            Some(OutputKind::Bool)
        } else if t == "text".to_owned() {
            Some(OutputKind::Text)
        } else if t == "markdown".to_owned() {
            Some(OutputKind::Markdown)
        } else if t == "json".to_owned() {
            Some(OutputKind::Json)
        } else if t == "csv".to_owned() {
            Some(OutputKind::Csv)
        } else if t == "file".to_owned() {
            Some(OutputKind::File)
        } else {
            None
        }
    }

    /// The contract name.
    pub fn as_str(self) -> (r: &'static str)
        ensures
            r@ == kind_name(self),
    {
        match self {
            OutputKind::Bool => "bool",
            OutputKind::Text => "text",
            OutputKind::Markdown => "markdown",
            OutputKind::Json => "json",
            OutputKind::Csv => "csv",
            OutputKind::File => "file",
        }
    }

    /// Whether the kind is only a verdict, with no deliverable.
    pub fn is_bool(self) -> (b: bool)
        ensures
            b == (self == OutputKind::Bool),
    {
        matches!(self, OutputKind::Bool)
    }

    /// Whether the kind has field lists (`required` / `wanted`): only structured output does.
    pub fn uses_fields(self) -> (b: bool)
        ensures
            b == has_fields(self),
    {
        matches!(self, OutputKind::Json | OutputKind::Csv)
    }
}

/// A kind's name, parsed back, gives the same kind.
pub proof fn lemma_kind_round_trip(k: OutputKind)
    ensures
        kind_of_text(kind_name(k)) == Some(k),
{
    reveal_strlit("bool");
    reveal_strlit("text");
    reveal_strlit("markdown");
    reveal_strlit("json");
    reveal_strlit("csv");
    reveal_strlit("file");
    let n = kind_name(k);
    assert(!crate::text::is_ws(n[0]));
    assert(crate::text::trim_start(n) == n);
    assert(!crate::text::is_ws(n.last()));
    assert(crate::text::trim_end(n) == n);
}

/// Law: surrounding whitespace does not change the kind a text names.
pub proof fn lemma_kind_ignores_padding(t: Seq<char>)
    ensures
        kind_of_text(trim(t)) == kind_of_text(t),
{
    lemma_trim_idempotent(t);
}

/// A checked output contract (shared by saving, running and display).
#[derive(Debug, Clone, PartialEq, Eq)]
pub struct OutputSchema {
    /// Shape of the result.
    pub kind: OutputKind,
    /// What to deliver (required unless `bool`).
    pub goal: Option<String>,
    /// What counts as success (required for `bool`).
    pub success: Option<String>,
    /// Shape details (encoding, header, units, file type, ...).
    pub format: Option<String>,
    /// Fields guaranteed present (only `json` / `csv`).
    pub required: Vec<String>,
    /// Fields searched for on a best-effort basis (only `json` / `csv`).
    pub wanted: Vec<String>,
}

/// A text member, trimmed; blank or absent gives `None`.
pub open spec fn text_field(v: JsonValue, name: Seq<char>) -> Option<Seq<char>> {
    match str_of(member(v, name)) {
        Some(t) => if trim(t).len() > 0 {
            Some(trim(t))
        } else {
            None
        },
        None => None,
    }
}

/// The trimmed non-blank string items of a list, in order (non-strings dropped).
pub open spec fn nonblank_items(items: Seq<JsonValue>) -> Seq<Seq<char>>
    decreases items.len(),
{
    if items.len() == 0 {
        Seq::empty()
    } else {
        let rest = nonblank_items(items.drop_last());
        match items.last() {
            JsonValue::Str(s) => if trim(s@).len() > 0 {
                rest.push(trim(s@))
            } else {
                rest
            },
            _ => rest,
        }
    }
}

/// A string-list member: trimmed, blanks and non-strings dropped, each name once.
pub open spec fn string_list_spec(v: JsonValue, name: Seq<char>) -> Seq<Seq<char>> {
    match member(v, name) {
        Some(JsonValue::Array(items)) => dedup(nonblank_items(items@)),
        _ => Seq::empty(),
    }
}

/// `xs` without the items that occur in `ys`.
pub open spec fn remove_all(xs: Seq<Seq<char>>, ys: Seq<Seq<char>>) -> Seq<Seq<char>>
    decreases xs.len(),
{
    if xs.len() == 0 {
        Seq::empty()
    } else if ys.contains(xs.last()) {
        remove_all(xs.drop_last(), ys)
    } else {
        remove_all(xs.drop_last(), ys).push(xs.last())
    }
}

/// The `kind` text of a contract (empty when absent or not a string).
pub open spec fn kind_text(v: JsonValue) -> Seq<char> {
    match str_of(member(v, "kind"@)) {
        Some(t) => t,
        None => Seq::empty(),
    }
}

/// Debug form of a text (quoted and escaped as `{:?}` writes it).
pub uninterp spec fn debug_quoted(s: Seq<char>) -> Seq<char>;

/// Whether a text holds only printable ASCII other than `"` and `\`
/// (which `Debug` writes as they are).
pub open spec fn plain_ascii(s: Seq<char>) -> bool {
    forall|i: int| 0 <= i < s.len() ==> 0x20 <= (#[trigger] s[i]) as u32 <= 0x7e && s[i] != '"' && s[i] != '\\'
}

/// The `{:?}` form of a text: for printable ASCII without `"` or `\`, the
/// text between double quotes; otherwise what [`debug_quoted`] names.
pub open spec fn debug_text(s: Seq<char>) -> Seq<char> {
    if plain_ascii(s) {
        "\""@ + s + "\""@
    } else {
        debug_quoted(s)
    }
}

/// Why a contract is rejected, as the error text; `None` when it is accepted.
pub open spec fn schema_failure(v: JsonValue) -> Option<Seq<char>> {
    if !(v is Object) {
        Some("output_schema 必须是对象"@)
    } else {
        match kind_of_text(kind_text(v)) {
            None => Some(
                "output_schema.kind 非法: "@ + debug_text(kind_text(v)) + "（应为 "@
                    + kinds_listing() + "）"@,
            ),
            Some(k) => if k == OutputKind::Bool {
                if text_field(v, "success"@) is None {
                    Some("output_schema.kind 为 bool 时必须给出非空 success"@)
                } else {
                    None
                }
            } else if text_field(v, "goal"@) is None {
                Some("output_schema.kind 为 "@ + kind_name(k) + " 时必须给出非空 goal"@)
            } else {
                None
            },
        }
    }
}

/// `{:?}` of a text.
///
/// Calls std's `Debug` formatting of `str` (`format!("{:?}", ..)`); the result is
/// named by [`debug_quoted`]. Of a text of printable ASCII without `"` or `\`
/// it states the result: the text between double quotes (such characters
/// need no escape); of other texts nothing more.
#[verifier::external_body]
fn debug_quote(s: &str) -> (r: String)
    ensures
        r@ == debug_quoted(s@),
        plain_ascii(s@) ==> r@ == "\""@ + s@ + "\""@,
{
    format!("{:?}", s)
}

/// A text member of `fields`, trimmed; blank or absent gives `None`.
fn text_member(value: &JsonValue, fields: &Vec<(String, JsonValue)>, name: &str) -> (r: Option<
    String,
>)
    requires
        *value == JsonValue::Object(*fields),
    ensures
        opt_text(r) == text_field(*value, name@),
{
    match get_field(fields, name) {
        Some(item) => match item.as_str() {
            Some(s) => {
                let t = trim_str(s.as_str());
                if t.as_str().unicode_len() > 0 {
                    Some(t)
                } else {
                    None
                }
            },
            None => None,
        },
        None => None,
    }
}

/// A string-list member of `fields`: trimmed, blanks and non-strings dropped,
/// order kept, each name once.
fn string_list(value: &JsonValue, fields: &Vec<(String, JsonValue)>, name: &str) -> (r: Vec<
    String,
>)
    requires
        *value == JsonValue::Object(*fields),
    ensures
        views(r@) == string_list_spec(*value, name@),
{
    let mut names: Vec<String> = Vec::new();
    let items = match get_field(fields, name) {
        Some(item) => match item.as_array() {
            Some(items) => items,
            None => {
                return names;
            },
        },
        None => {
            return names;
        },
    };
    let mut i: usize = 0;
    while i < items.len()
        invariant
            i <= items@.len(),
            views(names@) == dedup(nonblank_items(items@.take(i as int))),
        decreases items@.len() - i,
    {
        proof {
            assert(items@.take(i + 1).drop_last() =~= items@.take(i as int));
            assert(items@.take(i + 1).last() == items@[i as int]);
        }
        match items[i].as_str() {
            Some(s) => {
                let t = trim_str(s.as_str());
                if t.as_str().unicode_len() > 0 {
                    proof {
                        lemma_dedup_push(nonblank_items(items@.take(i as int)), t@);
                    }
                    push_unique(&mut names, t);
                }
            },
            None => {},
        }
        i = i + 1;
    }
    proof {
        assert(items@.take(items@.len() as int) =~= items@);
    }
    names
}

/// Whether `s` is what a valid contract `value` reads as: its kind, its
/// trimmed texts, and (for `json` / `csv` only) its non-blank field lists, a
/// name of both lists kept only in `required`.
pub open spec fn parsed_as(value: JsonValue, s: OutputSchema) -> bool {
    &&& Some(s.kind) == kind_of_text(kind_text(value))
    &&& opt_text(s.goal) == text_field(value, "goal"@)
    &&& opt_text(s.success) == text_field(value, "success"@)
    &&& opt_text(s.format) == text_field(value, "format"@)
    &&& views(s.required@) == if has_fields(s.kind) {
        string_list_spec(value, "required"@)
    } else {
        Seq::empty()
    }
    &&& views(s.wanted@) == if has_fields(s.kind) {
        remove_all(string_list_spec(value, "wanted"@), string_list_spec(value, "required"@))
    } else {
        Seq::empty()
    }
}

/// The items kept from a list are non-blank and trimmed.
proof fn lemma_nonblank_items(items: Seq<JsonValue>)
    ensures
        forall|i: int| 0 <= i < nonblank_items(items).len() ==> (#[trigger] nonblank_items(items)[i]).len() > 0
            && trim(nonblank_items(items)[i]) == nonblank_items(items)[i],
    decreases items.len(),
{
    if items.len() > 0 {
        lemma_nonblank_items(items.drop_last());
        let rest = nonblank_items(items.drop_last());
        if let JsonValue::Str(x) = items.last() {
            lemma_trim_idempotent(x@);
            if trim(x@).len() > 0 {
                assert forall|i: int| 0 <= i < rest.push(trim(x@)).len() implies (#[trigger] rest.push(trim(x@))[i]).len()
                    > 0 && trim(rest.push(trim(x@))[i]) == rest.push(trim(x@))[i] by {
                    if i < rest.len() {
                        assert(rest.push(trim(x@))[i] == rest[i]);
                    }
                }
            }
        }
    }
}

/// What `remove_all` keeps comes from `xs`, is not in `ys`, and is free of
/// repeats when `xs` is.
proof fn lemma_remove_all(xs: Seq<Seq<char>>, ys: Seq<Seq<char>>)
    ensures
        forall|i: int| 0 <= i < remove_all(xs, ys).len() ==> xs.contains(#[trigger] remove_all(xs, ys)[i])
            && !ys.contains(remove_all(xs, ys)[i]),
        (forall|i: int, j: int| 0 <= i < j < xs.len() ==> xs[i] != xs[j]) ==> (forall|i: int, j: int|
            0 <= i < j < remove_all(xs, ys).len() ==> remove_all(xs, ys)[i] != remove_all(xs, ys)[j]),
    decreases xs.len(),
{
    if xs.len() > 0 {
        let init = xs.drop_last();
        lemma_remove_all(init, ys);
        let r0 = remove_all(init, ys);
        assert forall|i: int| 0 <= i < remove_all(xs, ys).len() implies xs.contains(#[trigger] remove_all(xs, ys)[i])
            && !ys.contains(remove_all(xs, ys)[i]) by {
            if i < r0.len() {
                let k = choose|k: int| 0 <= k < init.len() && init[k] == r0[i];
                assert(xs[k] == r0[i]);
            } else {
                assert(xs[xs.len() - 1] == xs.last());
            }
        }
        if forall|i: int, j: int| 0 <= i < j < xs.len() ==> xs[i] != xs[j] {
            assert forall|i: int, j: int| 0 <= i < j < init.len() implies init[i] != init[j] by {
                assert(init[i] == xs[i] && init[j] == xs[j]);
            }
            assert forall|i: int, j: int| 0 <= i < j < remove_all(xs, ys).len() implies remove_all(xs, ys)[i]
                != remove_all(xs, ys)[j] by {
                if j >= r0.len() {
                    let k = choose|k: int| 0 <= k < init.len() && init[k] == r0[i];
                    assert(xs[k] == r0[i]);
                    assert(xs[xs.len() - 1] == xs.last());
                }
            }
        }
    }
}

/// The names of a string list are non-blank, trimmed and distinct.
proof fn lemma_string_list(v: JsonValue, name: Seq<char>)
    ensures
        forall|i: int| 0 <= i < string_list_spec(v, name).len() ==> (#[trigger] string_list_spec(v, name)[i]).len()
            > 0 && trim(string_list_spec(v, name)[i]) == string_list_spec(v, name)[i],
        forall|i: int, j: int| 0 <= i < j < string_list_spec(v, name).len() ==> string_list_spec(v, name)[i]
            != string_list_spec(v, name)[j],
{
    if let Some(JsonValue::Array(items)) = member(v, name) {
        let n = nonblank_items(items@);
        lemma_nonblank_items(items@);
        lemma_dedup_from(n);
        lemma_dedup_distinct(n);
        assert forall|i: int| 0 <= i < dedup(n).len() implies (#[trigger] dedup(n)[i]).len() > 0
            && trim(dedup(n)[i]) == dedup(n)[i] by {
            assert(n.contains(dedup(n)[i]));
            let k = choose|k: int| 0 <= k < n.len() && n[k] == dedup(n)[i];
            assert(n[k].len() > 0);
        }
    }
}

/// A text member read by `text_field` is trimmed and not blank.
proof fn lemma_text_field(v: JsonValue, name: Seq<char>)
    ensures
        text_field(v, name) matches Some(t) ==> t.len() > 0 && trim(t) == t,
{
    if let Some(t) = str_of(member(v, name)) {
        lemma_trim_idempotent(t);
    }
}

/// Law: a contract is accepted exactly when it is an object whose kind is
/// known and whose needed text (`success` for `bool`, `goal` otherwise) is
/// not blank. What is read from it has trimmed, non-blank texts; field
/// lists only for the kinds that have them; each list non-blank, trimmed and
/// free of repeats; and no name in both lists.
pub proof fn lemma_parsed_schema(v: JsonValue, s: OutputSchema)
    requires
        parsed_as(v, s),
    ensures
        (schema_failure(v) is None) == (v is Object && kind_of_text(kind_text(v)) is Some && if kind_of_text(
            kind_text(v),
        ) == Some(OutputKind::Bool) {
            text_field(v, "success"@) is Some
        } else {
            text_field(v, "goal"@) is Some
        }),
        schema_failure(v) is None ==> (s.kind == OutputKind::Bool ==> s.success is Some) && (s.kind
            != OutputKind::Bool ==> s.goal is Some),
        s.goal matches Some(g) ==> g@.len() > 0 && trim(g@) == g@,
        s.success matches Some(g) ==> g@.len() > 0 && trim(g@) == g@,
        s.format matches Some(g) ==> g@.len() > 0 && trim(g@) == g@,
        !has_fields(s.kind) ==> s.required@.len() == 0 && s.wanted@.len() == 0,
        forall|i: int| 0 <= i < s.required@.len() ==> (#[trigger] s.required@[i])@.len() > 0
            && trim(s.required@[i]@) == s.required@[i]@,
        forall|i: int| 0 <= i < s.wanted@.len() ==> (#[trigger] s.wanted@[i])@.len() > 0
            && trim(s.wanted@[i]@) == s.wanted@[i]@,
        forall|i: int, j: int| 0 <= i < j < s.required@.len() ==> s.required@[i]@ != s.required@[j]@,
        forall|i: int, j: int| 0 <= i < j < s.wanted@.len() ==> s.wanted@[i]@ != s.wanted@[j]@,
        forall|i: int, j: int| 0 <= i < s.required@.len() && 0 <= j < s.wanted@.len() ==> s.required@[i]@
            != s.wanted@[j]@,
{
    lemma_text_field(v, "goal"@);
    lemma_text_field(v, "success"@);
    lemma_text_field(v, "format"@);
    let req = string_list_spec(v, "required"@);
    let wan = string_list_spec(v, "wanted"@);
    lemma_string_list(v, "required"@);
    lemma_string_list(v, "wanted"@);
    lemma_remove_all(wan, req);
    let rv = views(s.required@);
    let wv = views(s.wanted@);
    assert(rv.len() == s.required@.len());
    assert(wv.len() == s.wanted@.len());
    assert forall|i: int| 0 <= i < s.required@.len() implies (#[trigger] s.required@[i])@.len() > 0
        && trim(s.required@[i]@) == s.required@[i]@ by {
        assert(rv[i] == s.required@[i]@);
    }
    assert forall|i: int| 0 <= i < s.wanted@.len() implies (#[trigger] s.wanted@[i])@.len() > 0
        && trim(s.wanted@[i]@) == s.wanted@[i]@ by {
        assert(wv[i] == s.wanted@[i]@);
        if has_fields(s.kind) {
            let k = choose|k: int| 0 <= k < wan.len() && wan[k] == wv[i];
            assert(wan[k].len() > 0);
        }
    }
    assert forall|i: int, j: int| 0 <= i < j < s.required@.len() implies s.required@[i]@ != s.required@[j]@ by {
        assert(rv[i] == s.required@[i]@ && rv[j] == s.required@[j]@);
    }
    assert forall|i: int, j: int| 0 <= i < j < s.wanted@.len() implies s.wanted@[i]@ != s.wanted@[j]@ by {
        assert(wv[i] == s.wanted@[i]@ && wv[j] == s.wanted@[j]@);
    }
    assert forall|i: int, j: int| 0 <= i < s.required@.len() && 0 <= j < s.wanted@.len() implies s.required@[i]@
        != s.wanted@[j]@ by {
        assert(rv[i] == s.required@[i]@ && wv[j] == s.wanted@[j]@);
        if has_fields(s.kind) {
            assert(req[i] == rv[i]);
            assert(req.contains(rv[i]));
        }
    }
}

impl OutputSchema {
    /// Strict parsing: structure, `kind` and the fields each kind needs are all
    /// checked; the first violation is the error.
    ///
    /// Field lists are kept only for `json` / `csv` (ignored for other kinds);
    /// a name listed in both `required` and `wanted` stays only in `required`.
    pub fn parse(value: &JsonValue) -> (r: Result<OutputSchema, String>)
        ensures
            match schema_failure(*value) {
                Some(msg) => r matches Err(e) && e@ == msg,
                None => r matches Ok(s) && parsed_as(*value, s),
            },
    {
        let fields = match value.as_object() {
            Some(fields) => fields,
            None => {
                return Err("output_schema 必须是对象".to_owned());
            },
        };
        let kind_text: String = match get_field(fields, "kind") {
            Some(item) => match item.as_str() {
                Some(s) => s.clone(),
                None => String::new(),
            },
            None => String::new(),
        };
        let kind = match OutputKind::parse(kind_text.as_str()) {
            Some(kind) => kind,
            None => {
                let mut err = "output_schema.kind 非法: ".to_owned();
                err.append(debug_quote(kind_text.as_str()).as_str());
                err.append("（应为 ");
                err.append(OutputKind::Bool.as_str());
                err.append(" / ");
                err.append(OutputKind::Text.as_str());
                err.append(" / ");
                err.append(OutputKind::Markdown.as_str());
                err.append(" / ");
                err.append(OutputKind::Json.as_str());
                err.append(" / ");
                err.append(OutputKind::Csv.as_str());
                err.append(" / ");
                err.append(OutputKind::File.as_str());
                err.append("）");
                return Err(err);
            },
        };
        let goal = text_member(value, fields, "goal");
        let success = text_member(value, fields, "success");
        if kind.is_bool() {
            if success.is_none() {
                return Err("output_schema.kind 为 bool 时必须给出非空 success".to_owned());
            }
        } else if goal.is_none() {
            let mut err = "output_schema.kind 为 ".to_owned();
            err.append(kind.as_str());
            err.append(" 时必须给出非空 goal");
            return Err(err);
        }
        let mut required: Vec<String> = Vec::new();
        let mut wanted: Vec<String> = Vec::new();
        if kind.uses_fields() {
            required = string_list(value, fields, "required");
            let listed = string_list(value, fields, "wanted");
            let mut i: usize = 0;
            while i < listed.len()
                invariant
                    i <= listed@.len(),
                    views(wanted@) == remove_all(views(listed@.take(i as int)), views(required@)),
                decreases listed@.len() - i,
            {
                proof {
                    assert(views(listed@.take(i + 1)).drop_last() =~= views(
                        listed@.take(i as int),
                    ));
                    assert(views(listed@.take(i + 1)).last() == listed@[i as int]@);
                }
                if !contains_text(&required, &listed[i]) {
                    wanted.push(listed[i].clone());
                    proof {
                        assert(views(wanted@) =~= remove_all(
                            views(listed@.take(i as int)),
                            views(required@),
                        ).push(listed@[i as int]@));
                    }
                }
                i = i + 1;
            }
            proof {
                assert(listed@.take(listed@.len() as int) =~= listed@);
            }
        }
        let format = text_member(value, fields, "format");
        let schema = OutputSchema { kind, goal, success, format, required, wanted };
        proof {
            if !has_fields(kind) {
                assert(views(schema.required@) =~= Seq::<Seq<char>>::empty());
                assert(views(schema.wanted@) =~= Seq::<Seq<char>>::empty());
            }
        }
        Ok(schema)
    }
}

} // verus!
