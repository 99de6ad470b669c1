//! `${name}` placeholders: collecting, checking and substituting them.
//!
//! Rules:
//! - a placeholder is written `${name}`; `name` must equal an `inputs[].name`;
//! - placeholders appear only in `steps[].intent` / `steps[].expected_output`
//!   (and in the text fields of an output contract);
//! - a placeholder that `inputs` does not define is an error, never silently
//!   left empty.

use vstd::prelude::*;

use crate::json::{member, str_of, JsonValue};
use crate::named_map::NamedMap;
use crate::text::{
    chars_of, dedup, lemma_dedup_distinct, lemma_dedup_from, lemma_dedup_push, push_unique, trim, trim_str, views,
};

verus! {

/// First position at or after `from` that holds `c`.
pub open spec fn find_char(s: Seq<char>, from: int, c: char) -> Option<int>
    decreases s.len() - from,
{
    if from < 0 || from >= s.len() {
        None
    } else if s[from] == c {
        Some(from)
    } else {
        find_char(s, from + 1, c)
    }
}

/// First position at or after `from` where `${` starts.
pub open spec fn find_open(s: Seq<char>, from: int) -> Option<int>
    decreases s.len() - from,
{
    if from < 0 || from + 1 >= s.len() {
        None
    } else if s[from] == '$' && s[from + 1] == '{' {
        Some(from)
    } else {
        find_open(s, from + 1)
    }
}

/// What `find_char` returns lies in range and holds `c`; nothing before it does.
pub proof fn lemma_find_char(s: Seq<char>, from: int, c: char)
    requires
        0 <= from,
    ensures
        match find_char(s, from, c) {
            Some(e) => from <= e < s.len() && s[e] == c && forall|k: int|
                from <= k < e ==> s[k] != c,
            None => forall|k: int| from <= k < s.len() ==> s[k] != c,
        },
    decreases s.len() - from,
{
    if from < s.len() && s[from] != c {
        lemma_find_char(s, from + 1, c);
    }
}

/// What `find_open` returns lies in range and starts `${`; nothing before it does.
pub proof fn lemma_find_open(s: Seq<char>, from: int)
    requires
        0 <= from,
    ensures
        match find_open(s, from) {
            Some(st) => from <= st && st + 1 < s.len() && s[st] == '$' && s[st + 1] == '{'
                && forall|k: int| from <= k < st ==> !(#[trigger] s[k] == '$' && s[k + 1] == '{'),
            None => forall|k: int|
                from <= k && k + 1 < s.len() ==> !(#[trigger] s[k] == '$' && s[k + 1] == '{'),
        },
    decreases s.len() - from,
{
    if from + 1 < s.len() && !(s[from] == '$' && s[from + 1] == '{') {
        lemma_find_open(s, from + 1);
    }
}

/// Every non-empty placeholder name met when scanning `s` from `i`, in order,
/// repeats included. An unclosed `${` is not a placeholder.
pub open spec fn scan_names(s: Seq<char>, i: int) -> Seq<Seq<char>>
    decreases s.len() - i,
{
    if i < 0 || i + 1 >= s.len() {
        Seq::empty()
    } else if s[i] == '$' && s[i + 1] == '{' {
        match find_char(s, i + 2, '}') {
            Some(e) => {
                proof {
                    lemma_find_char(s, i + 2, '}');
                }
                let name = s.subrange(i + 2, e);
                if name.len() > 0 {
                    seq![name] + scan_names(s, e + 1)
                } else {
                    scan_names(s, e + 1)
                }
            },
            None => scan_names(s, i + 1),
        }
    } else {
        scan_names(s, i + 1)
    }
}

/// The placeholder names of a text, in order of first appearance, each once.
pub open spec fn placeholder_names(s: Seq<char>) -> Seq<Seq<char>> {
    dedup(scan_names(s, 0))
}

/// Whether `needle` occurs in `hay`.
pub open spec fn occurs_in(hay: Seq<char>, needle: Seq<char>) -> bool {
    exists|k: int| 0 <= k && k + needle.len() <= hay.len() && #[trigger] hay.subrange(k, k + needle.len()) == needle
}

/// Every name scanning meets is non-empty, holds no `}`, and stands in the
/// text as `${name}`.
proof fn lemma_scan_names_shape(s: Seq<char>, i: int)
    requires
        0 <= i,
    ensures
        forall|j: int| 0 <= j < scan_names(s, i).len() ==> {
            let n = #[trigger] scan_names(s, i)[j];
            &&& n.len() > 0
            &&& !n.contains('}')
            &&& occurs_in(s, "${"@ + n + "}"@)
        },
    decreases s.len() - i,
{
    if i + 1 < s.len() {
        if s[i] == '$' && s[i + 1] == '{' {
            lemma_find_char(s, i + 2, '}');
            match find_char(s, i + 2, '}') {
                Some(e) => {
                    lemma_scan_names_shape(s, e + 1);
                    let name = s.subrange(i + 2, e);
                    let rest = scan_names(s, e + 1);
                    if name.len() > 0 {
                        assert(scan_names(s, i) == seq![name] + rest);
                        reveal_strlit("${");
                        reveal_strlit("}");
                        let whole = "${"@ + name + "}"@;
                        assert(whole.len() == e - i + 1);
                        assert(s.subrange(i, i + whole.len()) =~= whole);
                        assert(occurs_in(s, whole));
                        assert(!name.contains('}')) by {
                            if name.contains('}') {
                                let q = choose|q: int| 0 <= q < name.len() && name[q] == '}';
                                assert(s[i + 2 + q] == '}');
                            }
                        }
                        assert forall|j: int| 0 <= j < scan_names(s, i).len() implies {
                            let n = #[trigger] scan_names(s, i)[j];
                            &&& n.len() > 0
                            &&& !n.contains('}')
                            &&& occurs_in(s, "${"@ + n + "}"@)
                        } by {
                            if j > 0 {
                                assert(scan_names(s, i)[j] == rest[j - 1]);
                            } else {
                                assert(scan_names(s, i)[j] == name);
                            }
                        }
                    } else {
                        assert(scan_names(s, i) == rest);
                    }
                },
                None => {
                    lemma_scan_names_shape(s, i + 1);
                    assert(scan_names(s, i) == scan_names(s, i + 1));
                },
            }
        } else {
            lemma_scan_names_shape(s, i + 1);
            assert(scan_names(s, i) == scan_names(s, i + 1));
        }
    } else {
        assert(scan_names(s, i).len() == 0);
    }
}

/// Law: the names collected from a text are distinct, non-empty, hold no
/// `}`, each stands in the text as `${name}`, and each is a name scanning
/// meets (so a text without `${…}` gives none).
pub proof fn lemma_collected_names(text: Seq<char>)
    ensures
        forall|i: int, j: int| 0 <= i < j < placeholder_names(text).len() ==> placeholder_names(text)[i]
            != placeholder_names(text)[j],
        forall|j: int| 0 <= j < placeholder_names(text).len() ==> {
            let n = #[trigger] placeholder_names(text)[j];
            &&& n.len() > 0
            &&& !n.contains('}')
            &&& occurs_in(text, "${"@ + n + "}"@)
        },
{
    let xs = scan_names(text, 0);
    lemma_dedup_distinct(xs);
    lemma_dedup_from(xs);
    lemma_scan_names_shape(text, 0);
    assert forall|j: int| 0 <= j < placeholder_names(text).len() implies {
        let n = #[trigger] placeholder_names(text)[j];
        &&& n.len() > 0
        &&& !n.contains('}')
        &&& occurs_in(text, "${"@ + n + "}"@)
    } by {
        let n = placeholder_names(text)[j];
        assert(xs.contains(n));
        let k = choose|k: int| 0 <= k < xs.len() && xs[k] == n;
        assert(xs[k] == n);
    }
}

/// Position of the first `c` in `chars` at or after `from`.
fn find_char_exec(chars: &Vec<char>, from: usize, c: char) -> (r: Option<usize>)
    ensures
        match find_char(chars@, from as int, c) {
            Some(e) => r == Some(e as usize),
            None => r is None,
        },
{
    let mut k = from;
    while k < chars.len()
        invariant
            from <= k,
            find_char(chars@, from as int, c) == find_char(chars@, k as int, c),
        decreases chars@.len() - k,
    {
        if chars[k] == c {
            return Some(k);
        }
        k = k + 1;
    }
    None
}

/// Position of the first `${` in `chars` at or after `from`.
fn find_open_exec(chars: &Vec<char>, from: usize) -> (r: Option<usize>)
    ensures
        match find_open(chars@, from as int) {
            Some(st) => r == Some(st as usize),
            None => r is None,
        },
{
    let n = chars.len();
    let mut k = from;
    while n > 0 && k < n - 1
        invariant
            n == chars@.len(),
            from <= k,
            find_open(chars@, from as int) == find_open(chars@, k as int),
        decreases chars@.len() - k,
    {
        if chars[k] == '$' && chars[k + 1] == '{' {
            return Some(k);
        }
        k = k + 1;
    }
    None
}

/// Collects the `${name}` placeholder names of a text in order of appearance,
/// each name once. An unclosed `${` and an empty `${}` are not placeholders.
pub fn collect_placeholders(text: &str) -> (names: Vec<String>)
    ensures
        views(names@) == placeholder_names(text@),
{
    let chars = chars_of(text);
    let n = chars.len();
    let mut names: Vec<String> = Vec::new();
    let ghost mut found: Seq<Seq<char>> = Seq::empty();
    let mut index: usize = 0;
    while n > 0 && index < n - 1
        invariant
            chars@ == text@,
            n == chars@.len(),
            scan_names(text@, 0) == found + scan_names(text@, index as int),
            views(names@) == dedup(found),
        decreases n - index,
    {
        if chars[index] == '$' && chars[index + 1] == '{' {
            proof {
                lemma_find_char(text@, index + 2, '}');
            }
            match find_char_exec(&chars, index + 2, '}') {
                Some(end) => {
                    let name = text.substring_char(index + 2, end).to_owned();
                    if end > index + 2 {
                        proof {
                            assert(found + scan_names(text@, index as int) =~= found.push(name@)
                                + scan_names(text@, end + 1));
                            lemma_dedup_push(found, name@);
                            found = found.push(name@);
                        }
                        push_unique(&mut names, name);
                    }
                    index = end + 1;
                    continue ;
                },
                None => {},
            }
        }
        index = index + 1;
    }
    proof {
        assert(scan_names(text@, index as int) =~= Seq::<Seq<char>>::empty());
        assert(found + Seq::<Seq<char>>::empty() =~= found);
    }
    names
}

/// Why strict substitution failed.
pub enum RenderFailure {
    /// A `${` at this position has no closing `}`.
    Unclosed(int),
    /// This placeholder name has no value.
    Undefined(Seq<char>),
}

/// Strict substitution of `s` from position `i`.
pub open spec fn render_from(s: Seq<char>, i: int, values: Map<Seq<char>, Seq<char>>) -> Result<
    Seq<char>,
    RenderFailure,
>
    decreases s.len() - i,
{
    if i < 0 || i > s.len() {
        Ok(Seq::empty())
    } else {
        match find_open(s, i) {
            None => Ok(s.subrange(i, s.len() as int)),
            Some(st) => {
                proof {
                    lemma_find_open(s, i);
                    lemma_find_char(s, st + 2, '}');
                }
                match find_char(s, st + 2, '}') {
                    None => Err(RenderFailure::Unclosed(st)),
                    Some(e) => {
                        let name = s.subrange(st + 2, e);
                        if values.contains_key(name) {
                            match render_from(s, e + 1, values) {
                                Ok(r) => Ok(s.subrange(i, st) + values[name] + r),
                                Err(f) => Err(f),
                            }
                        } else {
                            Err(RenderFailure::Undefined(name))
                        }
                    },
                }
            },
        }
    }
}

/// Strict substitution of every placeholder of `s` by its value.
pub open spec fn render_spec(s: Seq<char>, values: Map<Seq<char>, Seq<char>>) -> Result<
    Seq<char>,
    RenderFailure,
> {
    render_from(s, 0, values)
}

/// The error text reported for a failed substitution of `s`.
pub open spec fn render_failure_text(s: Seq<char>, f: RenderFailure) -> Seq<char> {
    match f {
        RenderFailure::Unclosed(st) => "占位符未闭合: "@ + s.subrange(st, s.len() as int),
        RenderFailure::Undefined(name) => "未定义的占位符: ${"@ + name + "}"@,
    }
}

/// Scanning from `i` or from `st` finds the same names when no `${` starts
/// in between.
proof fn lemma_scan_skips(s: Seq<char>, i: int, st: int)
    requires
        0 <= i <= st,
        forall|k: int| i <= k < st && k + 1 < s.len() ==> !(#[trigger] s[k] == '$' && s[k + 1] == '{'),
    ensures
        scan_names(s, i) == scan_names(s, st),
    decreases st - i,
{
    if i < st && i + 1 < s.len() {
        lemma_scan_skips(s, i + 1, st);
    }
}

/// A name of a list is a name of its de-duplication.
proof fn lemma_dedup_keeps(xs: Seq<Seq<char>>, n: Seq<char>)
    requires
        xs.contains(n),
    ensures
        dedup(xs).contains(n),
    decreases xs.len(),
{
    let last = xs.last();
    if last == n {
        if !dedup(xs.drop_last()).contains(last) {
            assert(dedup(xs).last() == n);
        }
    } else {
        let j = choose|j: int| 0 <= j < xs.len() && xs[j] == n;
        assert(xs.drop_last()[j] == n);
        lemma_dedup_keeps(xs.drop_last(), n);
        assert(dedup(xs.drop_last()).contains(n));
        let d = dedup(xs.drop_last());
        let k = choose|k: int| 0 <= k < d.len() && d[k] == n;
        if !d.contains(last) {
            assert(d.push(last)[k] == n);
        }
    }
}

/// Strict substitution from `i` fails on an undefined non-empty name only
/// where scanning from `i` meets that name.
proof fn lemma_undefined_is_scanned(s: Seq<char>, i: int, values: Map<Seq<char>, Seq<char>>)
    requires
        0 <= i,
    ensures
        match render_from(s, i, values) {
            Err(RenderFailure::Undefined(n)) => n.len() > 0 ==> scan_names(s, i).contains(n),
            _ => true,
        },
    decreases s.len() - i,
{
    if i <= s.len() {
        lemma_find_open(s, i);
        match find_open(s, i) {
            None => {},
            Some(st) => {
                lemma_scan_skips(s, i, st);
                lemma_find_char(s, st + 2, '}');
                match find_char(s, st + 2, '}') {
                    None => {},
                    Some(e) => {
                        let name = s.subrange(st + 2, e);
                        if values.contains_key(name) {
                            lemma_undefined_is_scanned(s, e + 1, values);
                            if let Err(RenderFailure::Undefined(n)) = render_from(s, e + 1, values) {
                                if n.len() > 0 {
                                let rest = scan_names(s, e + 1);
                                let k = choose|k: int| 0 <= k < rest.len() && rest[k] == n;
                                if name.len() > 0 {
                                    assert((seq![name] + rest)[k + 1] == n);
                                }
                                }
                            }
                        } else if name.len() > 0 {
                            assert(scan_names(s, st)[0] == name);
                        }
                    },
                }
            },
        }
    }
}

/// Law: given a value for every placeholder name that collecting finds in a
/// text, strict substitution of that text never fails on an undefined name
/// (only an unclosed `${`, or an empty `${}` without a value, can still fail it).
pub proof fn lemma_collected_names_suffice(s: Seq<char>, values: Map<Seq<char>, Seq<char>>)
    requires
        forall|k: int| 0 <= k < placeholder_names(s).len() ==> values.contains_key(#[trigger] placeholder_names(s)[k]),
    ensures
        match render_spec(s, values) {
            Err(RenderFailure::Undefined(n)) => n.len() == 0,
            _ => true,
        },
{
    lemma_undefined_is_scanned(s, 0, values);
    lemma_undefined_unbound(s, 0, values);
    if let Err(RenderFailure::Undefined(n)) = render_spec(s, values) {
        if n.len() > 0 {
            lemma_dedup_keeps(scan_names(s, 0), n);
            let d = placeholder_names(s);
            let k = choose|k: int| 0 <= k < d.len() && d[k] == n;
            assert(values.contains_key(d[k]));
        }
    }
}

/// The name a strict substitution fails on has no value.
proof fn lemma_undefined_unbound(s: Seq<char>, i: int, values: Map<Seq<char>, Seq<char>>)
    requires
        0 <= i,
    ensures
        match render_from(s, i, values) {
            Err(RenderFailure::Undefined(n)) => !values.contains_key(n),
            _ => true,
        },
    decreases s.len() - i,
{
    if i <= s.len() {
        lemma_find_open(s, i);
        match find_open(s, i) {
            None => {},
            Some(st) => {
                lemma_find_char(s, st + 2, '}');
                match find_char(s, st + 2, '}') {
                    None => {},
                    Some(e) => {
                        lemma_undefined_unbound(s, e + 1, values);
                    },
                }
            },
        }
    }
}

/// Replaces every `${name}` of `template` by its value.
///
/// A placeholder without a value is an error (never silently left empty), and
/// so is a `${` without a closing `}`.
pub fn render(template: &str, values: &NamedMap<String>) -> (r: Result<String, String>)
    ensures
        match render_spec(template@, values@.map_values(|v: String| v@)) {
            Ok(t) => r matches Ok(out) && out@ == t,
            Err(f) => r matches Err(e) && e@ == render_failure_text(template@, f),
        },
{
    let ghost vals = values@.map_values(|v: String| v@);
    let chars = chars_of(template);
    let n = chars.len();
    let mut rendered = String::new();
    let mut rest: usize = 0;
    loop
        invariant
            chars@ == template@,
            n == chars@.len(),
            rest <= n,
            vals == values@.map_values(|v: String| v@),
            render_spec(template@, vals) == match render_from(template@, rest as int, vals) {
                Ok(t) => Ok(rendered@ + t),
                Err(f) => Err(f),
            },
        decreases n - rest,
    {
        proof {
            lemma_find_open(template@, rest as int);
        }
        match find_open_exec(&chars, rest) {
            None => {
                rendered.append(template.substring_char(rest, n));
                return Ok(rendered);
            },
            Some(start) => {
                proof {
                    lemma_find_char(template@, start + 2, '}');
                }
                let ghost before_piece = rendered@;
                rendered.append(template.substring_char(rest, start));
                proof {
                    assert(rendered@ == before_piece + template@.subrange(
                        rest as int,
                        start as int,
                    ));
                }
                match find_char_exec(&chars, start + 2, '}') {
                    None => {
                        let mut err = "占位符未闭合: ".to_owned();
                        err.append(template.substring_char(start, n));
                        return Err(err);
                    },
                    Some(end) => {
                        let name = template.substring_char(start + 2, end).to_owned();
                        match values.get(&name) {
                            Some(value) => {
                                rendered.append(value.as_str());
                                proof {
                                    assert(vals.contains_key(name@));
                                    assert(vals[name@] == value@);
                                    let piece = template@.subrange(rest as int, start as int);
                                    match render_from(template@, end + 1, vals) {
                                        Ok(t) => {
                                            assert(before_piece + (piece + value@ + t) =~= rendered@
                                                + t);
                                        },
                                        Err(f) => {},
                                    }
                                }
                                rest = end + 1;
                            },
                            None => {
                                let mut err = "未定义的占位符: ${".to_owned();
                                err.append(name.as_str());
                                err.append("}");
                                return Err(err);
                            },
                        }
                    },
                }
            },
        }
    }
}

/// Lenient substitution of `s` from position `i`: the rendered text and the
/// names left unfilled (repeats included).
pub open spec fn lenient_from(s: Seq<char>, i: int, values: Map<Seq<char>, Seq<char>>) -> (
    Seq<char>,
    Seq<Seq<char>>,
)
    decreases s.len() - i,
{
    if i < 0 || i > s.len() {
        (Seq::empty(), Seq::empty())
    } else {
        match find_open(s, i) {
            None => (s.subrange(i, s.len() as int), Seq::empty()),
            Some(st) => {
                proof {
                    lemma_find_open(s, i);
                    lemma_find_char(s, st + 2, '}');
                }
                match find_char(s, st + 2, '}') {
                    None => (s.subrange(i, s.len() as int), Seq::empty()),
                    Some(e) => {
                        let name = s.subrange(st + 2, e);
                        let rest = lenient_from(s, e + 1, values);
                        if values.contains_key(name) && trim(values[name]).len() > 0 {
                            (s.subrange(i, st) + values[name] + rest.0, rest.1)
                        } else {
                            (s.subrange(i, e + 1) + rest.0, seq![name] + rest.1)
                        }
                    },
                }
            },
        }
    }
}

/// Whether a `${` without a closing `}` comes up when substituting `s` from
/// position `i`.
pub open spec fn has_unclosed(s: Seq<char>, i: int) -> bool
    decreases s.len() - i,
{
    if i < 0 || i > s.len() {
        false
    } else {
        match find_open(s, i) {
            None => false,
            Some(st) => {
                proof {
                    lemma_find_open(s, i);
                    lemma_find_char(s, st + 2, '}');
                }
                match find_char(s, st + 2, '}') {
                    None => true,
                    Some(e) => has_unclosed(s, e + 1),
                }
            },
        }
    }
}

/// Strict and lenient substitution agree when every value is non-blank.
proof fn lemma_strict_is_lenient_from(s: Seq<char>, i: int, values: Map<Seq<char>, Seq<char>>)
    requires
        0 <= i,
        forall|k: Seq<char>| #[trigger] values.contains_key(k) ==> trim(values[k]).len() > 0,
    ensures
        (render_from(s, i, values) is Ok) == (lenient_from(s, i, values).1.len() == 0 && !has_unclosed(s, i)),
        render_from(s, i, values) matches Ok(x) ==> x == lenient_from(s, i, values).0,
    decreases s.len() - i,
{
    if i <= s.len() {
        lemma_find_open(s, i);
        if let Some(st) = find_open(s, i) {
            lemma_find_char(s, st + 2, '}');
            if let Some(e) = find_char(s, st + 2, '}') {
                lemma_strict_is_lenient_from(s, e + 1, values);
            }
        }
    }
}

/// Law: with every value non-blank, strict substitution succeeds exactly
/// when the lenient one reports no missing name and no `${` is left
/// unclosed, and then both give the same text.
pub proof fn lemma_strict_is_lenient(s: Seq<char>, values: Map<Seq<char>, Seq<char>>)
    requires
        forall|k: Seq<char>| #[trigger] values.contains_key(k) ==> trim(values[k]).len() > 0,
    ensures
        (render_spec(s, values) is Ok) == (dedup(lenient_from(s, 0, values).1).len() == 0 && !has_unclosed(s, 0)),
        render_spec(s, values) matches Ok(x) ==> x == lenient_from(s, 0, values).0,
{
    lemma_strict_is_lenient_from(s, 0, values);
    let m = lenient_from(s, 0, values).1;
    if m.len() > 0 {
        lemma_dedup_keeps(m, m[0]);
    }
}

/// With no usable value, lenient substitution keeps the text as it is and
/// reports names that each stand in it as `${name}`.
proof fn lemma_lenient_blank_from(s: Seq<char>, i: int, values: Map<Seq<char>, Seq<char>>)
    requires
        0 <= i <= s.len(),
        forall|k: Seq<char>| #[trigger] values.contains_key(k) ==> trim(values[k]).len() == 0,
    ensures
        lenient_from(s, i, values).0 == s.subrange(i, s.len() as int),
        forall|j: int| 0 <= j < lenient_from(s, i, values).1.len() ==> occurs_in(
            s,
            "${"@ + #[trigger] lenient_from(s, i, values).1[j] + "}"@,
        ),
    decreases s.len() - i,
{
    lemma_find_open(s, i);
    if let Some(st) = find_open(s, i) {
        lemma_find_char(s, st + 2, '}');
        if let Some(e) = find_char(s, st + 2, '}') {
            lemma_lenient_blank_from(s, e + 1, values);
            let name = s.subrange(st + 2, e);
            let rest = lenient_from(s, e + 1, values);
            assert(s.subrange(i, e + 1) + s.subrange(e + 1, s.len() as int) =~= s.subrange(i, s.len() as int));
            reveal_strlit("${");
            reveal_strlit("}");
            let whole = "${"@ + name + "}"@;
            assert(s.subrange(st, st + whole.len()) =~= whole);
            assert(occurs_in(s, whole));
            assert forall|j: int| 0 <= j < lenient_from(s, i, values).1.len() implies occurs_in(
                s,
                "${"@ + #[trigger] lenient_from(s, i, values).1[j] + "}"@,
            ) by {
                if j > 0 {
                    assert(lenient_from(s, i, values).1[j] == rest.1[j - 1]);
                } else {
                    assert(lenient_from(s, i, values).1[j] == name);
                }
            }
        }
    }
}

/// Law: when no value is usable (each blank after trimming, e.g. no value
/// at all), lenient substitution gives the text back unchanged, and the
/// names it reports are distinct and each stands in the text as `${name}`.
pub proof fn lemma_lenient_blank(s: Seq<char>, values: Map<Seq<char>, Seq<char>>)
    requires
        forall|k: Seq<char>| #[trigger] values.contains_key(k) ==> trim(values[k]).len() == 0,
    ensures
        lenient_from(s, 0, values).0 == s,
        forall|i: int, j: int| 0 <= i < j < dedup(lenient_from(s, 0, values).1).len() ==> dedup(
            lenient_from(s, 0, values).1,
        )[i] != dedup(lenient_from(s, 0, values).1)[j],
        forall|j: int| 0 <= j < dedup(lenient_from(s, 0, values).1).len() ==> occurs_in(
            s,
            "${"@ + #[trigger] dedup(lenient_from(s, 0, values).1)[j] + "}"@,
        ),
{
    lemma_lenient_blank_from(s, 0, values);
    assert(s.subrange(0, s.len() as int) =~= s);
    let m = lenient_from(s, 0, values).1;
    lemma_dedup_distinct(m);
    lemma_dedup_from(m);
    assert forall|j: int| 0 <= j < dedup(m).len() implies occurs_in(s, "${"@ + #[trigger] dedup(m)[j] + "}"@) by {
        assert(m.contains(dedup(m)[j]));
        let k = choose|k: int| 0 <= k < m.len() && m[k] == dedup(m)[j];
        assert(occurs_in(s, "${"@ + m[k] + "}"@));
    }
}

/// Lenient substitution for previews: a placeholder whose value is missing or
/// blank is kept verbatim and its name reported (each name once, in order); an
/// unclosed `${` and everything after it are kept verbatim.
pub fn render_lenient(template: &str, values: &NamedMap<String>) -> (r: (String, Vec<String>))
    ensures
        r.0@ == lenient_from(template@, 0, values@.map_values(|v: String| v@)).0,
        views(r.1@) == dedup(lenient_from(template@, 0, values@.map_values(|v: String| v@)).1),
{
    let ghost vals = values@.map_values(|v: String| v@);
    let chars = chars_of(template);
    let n = chars.len();
    let mut rendered = String::new();
    let mut missing: Vec<String> = Vec::new();
    let ghost mut seen: Seq<Seq<char>> = Seq::empty();
    let mut rest: usize = 0;
    loop
        invariant
            chars@ == template@,
            n == chars@.len(),
            rest <= n,
            vals == values@.map_values(|v: String| v@),
            lenient_from(template@, 0, vals).0 == rendered@ + lenient_from(
                template@,
                rest as int,
                vals,
            ).0,
            lenient_from(template@, 0, vals).1 == seen + lenient_from(
                template@,
                rest as int,
                vals,
            ).1,
            views(missing@) == dedup(seen),
        decreases n - rest,
    {
        proof {
            lemma_find_open(template@, rest as int);
        }
        match find_open_exec(&chars, rest) {
            None => {
                rendered.append(template.substring_char(rest, n));
                proof {
                    assert(seen + Seq::<Seq<char>>::empty() =~= seen);
                }
                return (rendered, missing);
            },
            Some(start) => {
                proof {
                    lemma_find_char(template@, start + 2, '}');
                }
                match find_char_exec(&chars, start + 2, '}') {
                    None => {
                        rendered.append(template.substring_char(rest, n));
                        proof {
                            assert(seen + Seq::<Seq<char>>::empty() =~= seen);
                        }
                        return (rendered, missing);
                    },
                    Some(end) => {
                        let name = template.substring_char(start + 2, end).to_owned();
                        let filled = match values.get(&name) {
                            Some(value) => {
                                let trimmed = trim_str(value.as_str());
                                if trimmed.as_str().unicode_len() > 0 {
                                    rendered.append(template.substring_char(rest, start));
                                    rendered.append(value.as_str());
                                    true
                                } else {
                                    false
                                }
                            },
                            None => false,
                        };
                        if !filled {
                            rendered.append(template.substring_char(rest, end + 1));
                            proof {
                                assert(template@.subrange(rest as int, end + 1)
                                    =~= template@.subrange(rest as int, start as int)
                                    + template@.subrange(start as int, end + 1));
                                let tail = lenient_from(template@, end + 1, vals).1;
                                assert(seen + (seq![name@] + tail) =~= seen.push(name@) + tail);
                                lemma_dedup_push(seen, name@);
                                seen = seen.push(name@);
                            }
                            push_unique(&mut missing, name);
                        }
                        rest = end + 1;
                    },
                }
            },
        }
    }
}

} // verus!

verus! {

/// The placeholder names of several texts, text after text (repeats kept).
pub open spec fn all_names(texts: Seq<Seq<char>>) -> Seq<Seq<char>>
    decreases texts.len(),
{
    if texts.len() == 0 {
        Seq::empty()
    } else {
        all_names(texts.drop_last()) + placeholder_names(texts.last())
    }
}

/// The string members `fields` of a JSON value, in field order (a member
/// that is absent or not a string is left out).
pub open spec fn member_texts(v: JsonValue, fields: Seq<Seq<char>>) -> Seq<Seq<char>>
    decreases fields.len(),
{
    if fields.len() == 0 {
        Seq::empty()
    } else {
        let rest = member_texts(v, fields.drop_last());
        match str_of(member(v, fields.last())) {
            Some(t) => rest.push(t),
            None => rest,
        }
    }
}

/// The step fields that may hold placeholders.
pub open spec fn step_fields() -> Seq<Seq<char>> {
    seq!["intent"@, "expected_output"@]
}

/// The contract fields that may hold placeholders.
pub open spec fn schema_fields() -> Seq<Seq<char>> {
    seq!["goal"@, "success"@, "format"@]
}

/// The placeholder-bearing texts of the first `n` step items.
pub open spec fn steps_texts(items: Seq<JsonValue>, n: int) -> Seq<Seq<char>>
    decreases n,
{
    if n <= 0 {
        Seq::empty()
    } else {
        steps_texts(items, n - 1) + member_texts(items[n - 1], step_fields())
    }
}

/// The placeholder names of a `steps` array (in order, each once; none when
/// it is not an array).
pub open spec fn names_of_steps(steps: JsonValue) -> Seq<Seq<char>> {
    match steps {
        JsonValue::Array(items) => dedup(all_names(steps_texts(items@, items@.len() as int))),
        _ => Seq::empty(),
    }
}

/// The placeholder names of an output contract's text fields (in order, each
/// once; none when it is not an object).
pub open spec fn names_of_schema(schema: JsonValue) -> Seq<Seq<char>> {
    match schema {
        JsonValue::Object(_) => dedup(all_names(member_texts(schema, schema_fields()))),
        _ => Seq::empty(),
    }
}

/// Adds the placeholder names of `text` to `names` (each name once).
fn add_names(names: &mut Vec<String>, text: &str)
    ensures
        views(final(names)@) == dedup_onto(views(old(names)@), placeholder_names(text@)),
{
    let found = collect_placeholders(text);
    let ghost start = views(names@);
    let mut j: usize = 0;
    while j < found.len()
        invariant
            j <= found@.len(),
            views(names@) == dedup_onto(start, views(found@).take(j as int)),
        decreases found@.len() - j,
    {
        proof {
            assert(views(found@).take(j + 1) =~= views(found@).take(j as int).push(found@[j as int]@));
            lemma_dedup_onto_push(start, views(found@).take(j as int), found@[j as int]@);
        }
        push_unique(names, found[j].clone());
        j = j + 1;
    }
    proof {
        assert(views(found@).take(found@.len() as int) =~= views(found@));
    }
}

/// `acc` extended by each item of `xs` it does not hold yet, in order.
pub open spec fn dedup_onto(acc: Seq<Seq<char>>, xs: Seq<Seq<char>>) -> Seq<Seq<char>>
    decreases xs.len(),
{
    if xs.len() == 0 {
        acc
    } else {
        crate::text::push_new(dedup_onto(acc, xs.drop_last()), xs.last())
    }
}

/// Extending by one more item.
pub proof fn lemma_dedup_onto_push(acc: Seq<Seq<char>>, xs: Seq<Seq<char>>, x: Seq<char>)
    ensures
        dedup_onto(acc, xs.push(x)) == crate::text::push_new(dedup_onto(acc, xs), x),
{
    assert(xs.push(x).drop_last() =~= xs);
}

/// De-duplicating a concatenation is extending the first part's de-duplication.
pub proof fn lemma_dedup_append(xs: Seq<Seq<char>>, ys: Seq<Seq<char>>)
    ensures
        dedup(xs + ys) == dedup_onto(dedup(xs), ys),
    decreases ys.len(),
{
    if ys.len() == 0 {
        assert(xs + ys =~= xs);
    } else {
        lemma_dedup_append(xs, ys.drop_last());
        assert((xs + ys).drop_last() =~= xs + ys.drop_last());
        lemma_dedup_push(xs + ys.drop_last(), ys.last());
        assert(xs + ys =~= (xs + ys.drop_last()).push(ys.last()));
    }
}

/// Adds the placeholder names of the string members `fields` of `item`.
fn add_member_names(names: &mut Vec<String>, item: &JsonValue, fields: &Vec<&str>)
    ensures
        views(final(names)@) == dedup_onto(views(old(names)@), all_names(member_texts(*item, fields@.map_values(|f: &str| f@)))),
{
    let ghost fv = fields@.map_values(|f: &str| f@);
    let ghost start = views(names@);
    let mut k: usize = 0;
    while k < fields.len()
        invariant
            k <= fields@.len(),
            fv == fields@.map_values(|f: &str| f@),
            views(names@) == dedup_onto(start, all_names(member_texts(*item, fv.take(k as int)))),
        decreases fields@.len() - k,
    {
        proof {
            assert(fv.take(k + 1).drop_last() =~= fv.take(k as int));
            assert(fv.take(k + 1).last() == fields@[k as int]@);
        }
        match item.get(fields[k]) {
            Some(v) => match v.as_str() {
                Some(text) => {
                    let ghost before = views(names@);
                    add_names(names, text.as_str());
                    proof {
                        let ts = member_texts(*item, fv.take(k as int));
                        assert(member_texts(*item, fv.take(k + 1)) == ts.push(text@));
                        assert(ts.push(text@).drop_last() =~= ts);
                        assert(all_names(ts.push(text@)) == all_names(ts) + placeholder_names(text@));
                        lemma_dedup_onto_concat(start, all_names(ts), placeholder_names(text@));
                    }
                },
                None => {},
            },
            None => {},
        }
        k = k + 1;
    }
    proof {
        assert(fv.take(fields@.len() as int) =~= fv);
    }
}

/// Extending by a concatenation is extending by each part in turn.
pub proof fn lemma_dedup_onto_concat(acc: Seq<Seq<char>>, xs: Seq<Seq<char>>, ys: Seq<Seq<char>>)
    ensures
        dedup_onto(acc, xs + ys) == dedup_onto(dedup_onto(acc, xs), ys),
    decreases ys.len(),
{
    if ys.len() == 0 {
        assert(xs + ys =~= xs);
    } else {
        lemma_dedup_onto_concat(acc, xs, ys.drop_last());
        assert((xs + ys).drop_last() =~= xs + ys.drop_last());
    }
}

/// Starting from nothing, extending is de-duplicating.
pub proof fn lemma_dedup_onto_empty(xs: Seq<Seq<char>>)
    ensures
        dedup_onto(Seq::empty(), xs) == dedup(xs),
    decreases xs.len(),
{
    if xs.len() > 0 {
        lemma_dedup_onto_empty(xs.drop_last());
    }
}

} // verus!

verus! {

fn step_field_list() -> (v: Vec<&'static str>)
    ensures
        v@.map_values(|f: &str| f@) == step_fields(),
{
    let mut v: Vec<&'static str> = Vec::new();
    v.push("intent");
    v.push("expected_output");
    proof {
        assert(v@.map_values(|f: &str| f@) =~= step_fields());
    }
    v
}

fn schema_field_list() -> (v: Vec<&'static str>)
    ensures
        v@.map_values(|f: &str| f@) == schema_fields(),
{
    let mut v: Vec<&'static str> = Vec::new();
    v.push("goal");
    v.push("success");
    v.push("format");
    proof {
        assert(v@.map_values(|f: &str| f@) =~= schema_fields());
    }
    v
}

/// The placeholder names of all steps' `intent` / `expected_output`, in order,
/// each once (none when `steps` is not an array).
pub fn collect_from_steps(steps: &JsonValue) -> (names: Vec<String>)
    ensures
        views(names@) == names_of_steps(*steps),
{
    let mut names: Vec<String> = Vec::new();
    proof {
        assert(views(names@) =~= Seq::<Seq<char>>::empty());
    }
    match steps {
        JsonValue::Array(items) => {
            let fields = step_field_list();
            let mut i: usize = 0;
            while i < items.len()
                invariant
                    i <= items@.len(),
                    fields@.map_values(|f: &str| f@) == step_fields(),
                    views(names@) == dedup_onto(Seq::empty(), all_names(steps_texts(items@, i as int))),
                decreases items@.len() - i,
            {
                add_member_names(&mut names, &items[i], &fields);
                proof {
                    let before = steps_texts(items@, i as int);
                    let more = member_texts(items@[i as int], step_fields());
                    assert(steps_texts(items@, i + 1) == before + more);
                    lemma_all_names_concat(before, more);
                    lemma_dedup_onto_concat(Seq::empty(), all_names(before), all_names(more));
                }
                i = i + 1;
            }
            proof {
                lemma_dedup_onto_empty(all_names(steps_texts(items@, items@.len() as int)));
            }
        },
        _ => {},
    }
    names
}

/// The placeholder names of an output contract's `goal` / `success` /
/// `format`, in order, each once (none when it is not an object).
pub fn collect_from_schema(schema: &JsonValue) -> (names: Vec<String>)
    ensures
        views(names@) == names_of_schema(*schema),
{
    let mut names: Vec<String> = Vec::new();
    proof {
        assert(views(names@) =~= Seq::<Seq<char>>::empty());
    }
    match schema {
        JsonValue::Object(_) => {
            let fields = schema_field_list();
            add_member_names(&mut names, schema, &fields);
            proof {
                lemma_dedup_onto_empty(all_names(member_texts(*schema, schema_fields())));
            }
        },
        _ => {},
    }
    names
}

/// The names of a concatenation are the names of each part in turn.
pub proof fn lemma_all_names_concat(xs: Seq<Seq<char>>, ys: Seq<Seq<char>>)
    ensures
        all_names(xs + ys) == all_names(xs) + all_names(ys),
    decreases ys.len(),
{
    if ys.len() == 0 {
        assert(xs + ys =~= xs);
        assert(all_names(xs) + all_names(ys) =~= all_names(xs));
    } else {
        lemma_all_names_concat(xs, ys.drop_last());
        assert((xs + ys).drop_last() =~= xs + ys.drop_last());
        assert(all_names(xs) + all_names(ys) =~= all_names(xs) + all_names(ys.drop_last()) + placeholder_names(ys.last()));
    }
}

/// The names the `inputs` array defines (its items' string `name` members).
pub open spec fn defined_names(inputs: JsonValue) -> Seq<Seq<char>> {
    match inputs {
        JsonValue::Array(items) => defined_from(items@, items@.len() as int),
        _ => Seq::empty(),
    }
}

/// The string `name` members of the first `n` items.
pub open spec fn defined_from(items: Seq<JsonValue>, n: int) -> Seq<Seq<char>>
    decreases n,
{
    if n <= 0 {
        Seq::empty()
    } else {
        let rest = defined_from(items, n - 1);
        match str_of(member(items[n - 1], "name"@)) {
            Some(t) => rest.push(t),
            None => rest,
        }
    }
}

/// The names of `names` that `defined` lacks, in order.
pub open spec fn undefined_names(names: Seq<Seq<char>>, defined: Seq<Seq<char>>) -> Seq<Seq<char>>
    decreases names.len(),
{
    if names.len() == 0 {
        Seq::empty()
    } else {
        let rest = undefined_names(names.drop_last(), defined);
        if defined.contains(names.last()) {
            rest
        } else {
            rest.push(names.last())
        }
    }
}

/// `${name}` for each name, joined by `, `.
pub open spec fn placeholder_list(names: Seq<Seq<char>>) -> Seq<char>
    decreases names.len(),
{
    if names.len() == 0 {
        Seq::empty()
    } else if names.len() == 1 {
        "${"@ + names[0] + "}"@
    } else {
        placeholder_list(names.drop_last()) + ", "@ + "${"@ + names.last() + "}"@
    }
}

/// The error of a check that found undefined placeholders.
pub open spec fn undefined_error(names: Seq<Seq<char>>) -> Seq<char> {
    "steps 中出现未定义的占位符: "@ + placeholder_list(names)
}

/// A list without undefined names holds only defined names.
proof fn lemma_no_undefined(names: Seq<Seq<char>>, defined: Seq<Seq<char>>, n: Seq<char>)
    requires
        undefined_names(names, defined).len() == 0,
        names.contains(n),
    ensures
        defined.contains(n),
    decreases names.len(),
{
    if names.last() != n {
        let j = choose|j: int| 0 <= j < names.len() && names[j] == n;
        assert(names.drop_last()[j] == n);
        lemma_no_undefined(names.drop_last(), defined, n);
    }
}

/// The names found in a list of texts include those of each text.
proof fn lemma_all_names_has(texts: Seq<Seq<char>>, i: int, n: Seq<char>)
    requires
        0 <= i < texts.len(),
        placeholder_names(texts[i]).contains(n),
    ensures
        all_names(texts).contains(n),
    decreases texts.len(),
{
    let rest = all_names(texts.drop_last());
    let own = placeholder_names(texts.last());
    if i == texts.len() - 1 {
        let k = choose|k: int| 0 <= k < own.len() && own[k] == n;
        assert((rest + own)[rest.len() + k] == n);
    } else {
        assert(texts.drop_last()[i] == texts[i]);
        lemma_all_names_has(texts.drop_last(), i, n);
        let k = choose|k: int| 0 <= k < rest.len() && rest[k] == n;
        assert((rest + own)[k] == n);
    }
}

/// The texts of the first `n` step items include each placeholder-bearing
/// field of each of them.
proof fn lemma_steps_texts_has(items: Seq<JsonValue>, n: int, j: int, t: Seq<char>, f: int)
    requires
        0 <= j < n <= items.len(),
        0 <= f < step_fields().len(),
        str_of(member(items[j], step_fields()[f])) == Some(t),
    ensures
        steps_texts(items, n).contains(t),
    decreases n,
{
    let rest = steps_texts(items, n - 1);
    let own = member_texts(items[n - 1], step_fields());
    if j == n - 1 {
        lemma_member_texts_has(items[j], step_fields(), f, t);
        let k = choose|k: int| 0 <= k < own.len() && own[k] == t;
        assert((rest + own)[rest.len() + k] == t);
    } else {
        lemma_steps_texts_has(items, n - 1, j, t, f);
        let k = choose|k: int| 0 <= k < rest.len() && rest[k] == t;
        assert((rest + own)[k] == t);
    }
}

/// The string members of a value include each named field that is a string.
proof fn lemma_member_texts_has(v: JsonValue, fields: Seq<Seq<char>>, f: int, t: Seq<char>)
    requires
        0 <= f < fields.len(),
        str_of(member(v, fields[f])) == Some(t),
    ensures
        member_texts(v, fields).contains(t),
    decreases fields.len(),
{
    let rest = member_texts(v, fields.drop_last());
    if f == fields.len() - 1 {
        assert(member_texts(v, fields) == rest.push(t));
        assert(rest.push(t)[rest.len() as int] == t);
    } else {
        assert(fields.drop_last()[f] == fields[f]);
        lemma_member_texts_has(v, fields.drop_last(), f, t);
        let k = choose|k: int| 0 <= k < rest.len() && rest[k] == t;
        match str_of(member(v, fields.last())) {
            Some(u) => assert(rest.push(u)[k] == t),
            None => {},
        }
    }
}

/// Law: steps that pass [`validate`] against `inputs` render: given a value
/// for every name the inputs define, substituting the `intent` or
/// `expected_output` text of any step never fails on an undefined name.
pub proof fn lemma_validated_steps_render(
    steps: JsonValue,
    inputs: JsonValue,
    values: Map<Seq<char>, Seq<char>>,
    j: int,
    f: int,
    t: Seq<char>,
)
    requires
        undefined_names(names_of_steps(steps), defined_names(inputs)).len() == 0,
        forall|k: int| 0 <= k < defined_names(inputs).len() ==> values.contains_key(#[trigger] defined_names(inputs)[k]),
        steps is Array,
        0 <= j < steps->Array_0@.len(),
        0 <= f < step_fields().len(),
        str_of(member(steps->Array_0@[j], step_fields()[f])) == Some(t),
    ensures
        match render_spec(t, values) {
            Err(RenderFailure::Undefined(n)) => n.len() == 0,
            _ => true,
        },
{
    let items = steps->Array_0@;
    let texts = steps_texts(items, items.len() as int);
    lemma_steps_texts_has(items, items.len() as int, j, t, f);
    let ti = choose|i: int| 0 <= i < texts.len() && texts[i] == t;
    assert forall|k: int| 0 <= k < placeholder_names(t).len() implies values.contains_key(
        #[trigger] placeholder_names(t)[k],
    ) by {
        let n = placeholder_names(t)[k];
        assert(placeholder_names(texts[ti]).contains(n));
        lemma_all_names_has(texts, ti, n);
        lemma_dedup_keeps(all_names(texts), n);
        lemma_no_undefined(names_of_steps(steps), defined_names(inputs), n);
        let d = defined_names(inputs);
        let q = choose|q: int| 0 <= q < d.len() && d[q] == n;
        assert(values.contains_key(d[q]));
    }
    lemma_collected_names_suffice(t, values);
}

/// Checks that every `${name}` of the steps is defined by an `inputs` item
/// of that name; the error lists every undefined one.
pub fn validate(steps: &JsonValue, inputs: &JsonValue) -> (r: Result<(), String>)
    ensures
        ({
            let undefined = undefined_names(names_of_steps(*steps), defined_names(*inputs));
            &&& undefined.len() == 0 ==> r is Ok
            &&& undefined.len() > 0 ==> (r matches Err(e) && e@ == undefined_error(undefined))
        }),
{
    let mut defined: Vec<String> = Vec::new();
    match inputs {
        JsonValue::Array(items) => {
            let mut i: usize = 0;
            while i < items.len()
                invariant
                    i <= items@.len(),
                    views(defined@) == defined_from(items@, i as int),
                decreases items@.len() - i,
            {
                match items[i].get("name") {
                    Some(v) => match v.as_str() {
                        Some(t) => {
                            let ghost before = defined@;
                            defined.push(t.clone());
                            proof {
                                assert(views(defined@) =~= views(before).push(t@));
                            }
                        },
                        None => {},
                    },
                    None => {},
                }
                i = i + 1;
            }
        },
        _ => {
            proof {
                assert(views(defined@) =~= Seq::<Seq<char>>::empty());
            }
        },
    }
    let names = collect_from_steps(steps);
    let mut message = "steps 中出现未定义的占位符: ".to_owned();
    let ghost head = message@;
    let mut count: usize = 0;
    let mut i: usize = 0;
    while i < names.len()
        invariant
            i <= names@.len(),
            count == undefined_names(views(names@.take(i as int)), views(defined@)).len(),
            count <= i,
            message@ == head + placeholder_list(undefined_names(views(names@.take(i as int)), views(defined@))),
        decreases names@.len() - i,
    {
        proof {
            assert(views(names@.take(i + 1)).drop_last() =~= views(names@.take(i as int)));
            assert(views(names@.take(i + 1)).last() == names@[i as int]@);
        }
        if !crate::text::contains_text(&defined, &names[i]) {
            let ghost u = undefined_names(views(names@.take(i as int)), views(defined@));
            let ghost before = message@;
            if count > 0 {
                message.append(", ");
            }
            message.append("${");
            message.append(names[i].as_str());
            message.append("}");
            count = count + 1;
            proof {
                let u2 = u.push(names@[i as int]@);
                assert(undefined_names(views(names@.take(i + 1)), views(defined@)) == u2);
                assert(u2.drop_last() =~= u);
                if u.len() > 0 {
                    assert(placeholder_list(u2) == placeholder_list(u) + ", "@ + "${"@ + names@[i as int]@ + "}"@);
                } else {
                    assert(placeholder_list(u2) == "${"@ + names@[i as int]@ + "}"@);
                }
                assert(message@ =~= head + placeholder_list(u2));
            }
        }
        i = i + 1;
    }
    proof {
        assert(names@.take(names@.len() as int) =~= names@);
    }
    if count == 0 {
        Ok(())
    } else {
        Err(message)
    }
}

} // verus!
