//! Character-level text helpers shared by the template, contract and
//! report code: Unicode whitespace, trimming and character truncation.

use vstd::prelude::*;

verus! {

/// Unicode `White_Space` property (the set `char::is_whitespace` accepts).
pub open spec fn is_ws(c: char) -> bool {
    let u = c as u32;
    ||| 0x09 <= u <= 0x0D
    ||| u == 0x20
    ||| u == 0x85
    ||| u == 0xA0
    ||| u == 0x1680
    ||| 0x2000 <= u <= 0x200A
    ||| u == 0x2028
    ||| u == 0x2029
    ||| u == 0x202F
    ||| u == 0x205F
    ||| u == 0x3000
}

/// `s` without its leading whitespace.
pub open spec fn trim_start(s: Seq<char>) -> Seq<char>
    decreases s.len(),
{
    if s.len() > 0 && is_ws(s[0]) {
        trim_start(s.drop_first())
    } else {
        s
    }
}

/// `s` without its trailing whitespace.
pub open spec fn trim_end(s: Seq<char>) -> Seq<char>
    decreases s.len(),
{
    if s.len() > 0 && is_ws(s.last()) {
        trim_end(s.drop_last())
    } else {
        s
    }
}

/// `s` without leading and trailing whitespace (what `str::trim` yields).
pub open spec fn trim(s: Seq<char>) -> Seq<char> {
    trim_end(trim_start(s))
}

/// Whether a character is Unicode whitespace.
pub fn is_whitespace(c: char) -> (b: bool)
    ensures
        b == is_ws(c),
{
    let u = c as u32;
    (0x09 <= u && u <= 0x0D) || u == 0x20 || u == 0x85 || u == 0xA0 || u == 0x1680 || (0x2000
        <= u && u <= 0x200A) || u == 0x2028 || u == 0x2029 || u == 0x202F || u == 0x205F || u
        == 0x3000
}

proof fn lemma_trim_start_skip(s: Seq<char>, i: int)
    requires
        0 <= i <= s.len(),
        forall|k: int| 0 <= k < i ==> is_ws(#[trigger] s[k]),
    ensures
        trim_start(s) == trim_start(s.subrange(i, s.len() as int)),
    decreases i,
{
    if i > 0 {
        assert(is_ws(s[0]));
        let t = s.drop_first();
        assert forall|k: int| 0 <= k < i - 1 implies is_ws(#[trigger] t[k]) by {
            assert(t[k] == s[k + 1]);
        }
        lemma_trim_start_skip(t, i - 1);
        assert(t.subrange(i - 1, t.len() as int) =~= s.subrange(i, s.len() as int));
    } else {
        assert(s.subrange(0, s.len() as int) =~= s);
    }
}

proof fn lemma_trim_end_skip(s: Seq<char>, j: int)
    requires
        0 <= j <= s.len(),
        forall|k: int| j <= k < s.len() ==> is_ws(#[trigger] s[k]),
    ensures
        trim_end(s) == trim_end(s.subrange(0, j)),
    decreases s.len() - j,
{
    if j < s.len() {
        assert(is_ws(s.last()));
        let t = s.drop_last();
        assert forall|k: int| j <= k < t.len() implies is_ws(#[trigger] t[k]) by {
            assert(t[k] == s[k]);
        }
        lemma_trim_end_skip(t, j);
        assert(t.subrange(0, j) =~= s.subrange(0, j));
    } else {
        assert(s.subrange(0, j) =~= s);
    }
}

/// What `trim_start` leaves starts with no whitespace.
proof fn lemma_trim_start_first(s: Seq<char>)
    ensures
        trim_start(s).len() > 0 ==> !is_ws(trim_start(s)[0]),
        trim_start(s).len() <= s.len(),
        trim_start(s) =~= s.subrange(s.len() - trim_start(s).len(), s.len() as int),
    decreases s.len(),
{
    if s.len() > 0 && is_ws(s[0]) {
        lemma_trim_start_first(s.drop_first());
    }
}

/// What `trim_end` leaves is a prefix of the text ending in no whitespace.
proof fn lemma_trim_end_last(s: Seq<char>)
    ensures
        trim_end(s).len() > 0 ==> !is_ws(trim_end(s).last()),
        trim_end(s).len() <= s.len(),
        trim_end(s) =~= s.subrange(0, trim_end(s).len() as int),
    decreases s.len(),
{
    if s.len() > 0 && is_ws(s.last()) {
        lemma_trim_end_last(s.drop_last());
    }
}

/// Trimming a trimmed text changes nothing.
pub proof fn lemma_trim_idempotent(s: Seq<char>)
    ensures
        trim(trim(s)) == trim(s),
{
    let a = trim_start(s);
    let t = trim_end(a);
    lemma_trim_start_first(s);
    lemma_trim_end_last(a);
    if t.len() > 0 {
        assert(t[0] == a[0]);
        assert(trim_start(t) == t);
        assert(trim_end(t) == t);
    } else {
        assert(trim_start(t) == t);
        assert(trim_end(t) == t);
    }
}

/// The items of a de-duplicated list are distinct.
pub proof fn lemma_dedup_distinct(xs: Seq<Seq<char>>)
    ensures
        forall|i: int, j: int| 0 <= i < j < dedup(xs).len() ==> dedup(xs)[i] != dedup(xs)[j],
    decreases xs.len(),
{
    if xs.len() > 0 {
        lemma_dedup_distinct(xs.drop_last());
        let d = dedup(xs.drop_last());
        if !d.contains(xs.last()) {
            assert forall|i: int, j: int| 0 <= i < j < d.push(xs.last()).len() implies d.push(xs.last())[i]
                != d.push(xs.last())[j] by {
                if j == d.len() {
                    assert(d[i] != xs.last());
                }
            }
        }
    }
}

/// Every item of a de-duplicated list is an item of the list.
pub proof fn lemma_dedup_from(xs: Seq<Seq<char>>)
    ensures
        forall|i: int| 0 <= i < dedup(xs).len() ==> xs.contains(#[trigger] dedup(xs)[i]),
    decreases xs.len(),
{
    if xs.len() > 0 {
        lemma_dedup_from(xs.drop_last());
        let d = dedup(xs.drop_last());
        assert forall|i: int| 0 <= i < dedup(xs).len() implies xs.contains(#[trigger] dedup(xs)[i]) by {
            if i < d.len() {
                assert(xs.drop_last().contains(d[i]));
                let k = choose|k: int| 0 <= k < xs.drop_last().len() && xs.drop_last()[k] == d[i];
                assert(xs[k] == d[i]);
            } else {
                assert(xs[xs.len() - 1] == xs.last());
            }
        }
    }
}

/// The text without leading and trailing whitespace.
pub fn trim_str(s: &str) -> (r: String)
    ensures
        r@ == trim(s@),
{
    let n = s.unicode_len();
    let mut i: usize = 0;
    while i < n && is_whitespace(s.get_char(i))
        invariant
            n == s@.len(),
            i <= n,
            forall|k: int| 0 <= k < i ==> is_ws(#[trigger] s@[k]),
        decreases n - i,
    {
        i = i + 1;
    }
    proof {
        lemma_trim_start_skip(s@, i as int);
        if i < n {
            assert(!is_ws(s@[i as int]));
            assert(s@.subrange(i as int, n as int)[0] == s@[i as int]);
        }
    }
    let mut j: usize = n;
    while j > i && is_whitespace(s.get_char(j - 1))
        invariant
            n == s@.len(),
            i <= j <= n,
            forall|k: int| j <= k < n ==> is_ws(#[trigger] s@[k]),
        decreases j,
    {
        j = j - 1;
    }
    let mid = s.substring_char(i, j);
    proof {
        let t = s@.subrange(i as int, n as int);
        assert(trim_start(t) == t);
        assert forall|k: int| (j - i) <= k < t.len() implies is_ws(#[trigger] t[k]) by {
            assert(t[k] == s@[k + i]);
        }
        lemma_trim_end_skip(t, j - i);
        assert(t.subrange(0, j - i) =~= s@.subrange(i as int, j as int));
        let m = s@.subrange(i as int, j as int);
        if j > i {
            assert(m.last() == s@[j - 1]);
            assert(!is_ws(m.last()));
        }
        assert(trim_end(m) == m);
    }
    mid.to_owned()
}

} // verus!

verus! {

/// The characters of `s`, in order.
pub fn chars_of(s: &str) -> (v: Vec<char>)
    ensures
        v@ == s@,
{
    let mut v: Vec<char> = Vec::new();
    for c in it: s.chars()
        invariant
            v@ == it.seq().take(it.index() as int),
    {
        v.push(c);
    }
    v
}

} // verus!

verus! {

/// The text of an optional string.
pub open spec fn opt_text(o: Option<String>) -> Option<Seq<char>> {
    match o {
        Some(s) => Some(s@),
        None => None,
    }
}

/// The texts of a list of strings.
pub open spec fn views(v: Seq<String>) -> Seq<Seq<char>> {
    v.map_values(|s: String| s@)
}

/// `acc` extended by `x` unless it already holds it.
pub open spec fn push_new(acc: Seq<Seq<char>>, x: Seq<char>) -> Seq<Seq<char>> {
    if acc.contains(x) {
        acc
    } else {
        acc.push(x)
    }
}

/// `xs` with every repeated item dropped, first occurrences kept in order.
pub open spec fn dedup(xs: Seq<Seq<char>>) -> Seq<Seq<char>>
    decreases xs.len(),
{
    if xs.len() == 0 {
        Seq::empty()
    } else {
        push_new(dedup(xs.drop_last()), xs.last())
    }
}

/// Extending a list by one item extends its de-duplication by that item.
pub proof fn lemma_dedup_push(xs: Seq<Seq<char>>, x: Seq<char>)
    ensures
        dedup(xs.push(x)) == push_new(dedup(xs), x),
{
    assert(xs.push(x).drop_last() =~= xs);
}

/// Whether `s` occurs among the texts of `v`.
pub fn contains_text(v: &Vec<String>, s: &String) -> (b: bool)
    ensures
        b == views(v@).contains(s@),
{
    let mut i: usize = 0;
    while i < v.len()
        invariant
            i <= v@.len(),
            forall|k: int| 0 <= k < i ==> v@[k]@ != s@,
        decreases v@.len() - i,
    {
        if v[i] == *s {
            proof {
                assert(views(v@)[i as int] == s@);
            }
            return true;
        }
        i = i + 1;
    }
    proof {
        if views(v@).contains(s@) {
            let k = choose|k: int| 0 <= k < views(v@).len() && views(v@)[k] == s@;
            assert(v@[k]@ == s@);
        }
    }
    false
}

/// Appends `s` to `v` unless its text is already there.
pub fn push_unique(v: &mut Vec<String>, s: String)
    ensures
        views(final(v)@) == push_new(views(old(v)@), s@),
{
    if !contains_text(v, &s) {
        v.push(s);
        proof {
            assert(views(v@) =~= views(old(v)@).push(s@));
        }
    }
}

} // verus!

verus! {

/// The decimal digit `d` as text.
pub open spec fn digit_text(d: nat) -> Seq<char> {
    if d == 0 {
        "0"@
    } else if d == 1 {
        "1"@
    } else if d == 2 {
        "2"@
    } else if d == 3 {
        "3"@
    } else if d == 4 {
        "4"@
    } else if d == 5 {
        "5"@
    } else if d == 6 {
        "6"@
    } else if d == 7 {
        "7"@
    } else if d == 8 {
        "8"@
    } else {
        "9"@
    }
}

/// Decimal notation of `n` (what `{}` writes for an unsigned integer).
pub open spec fn decimal(n: nat) -> Seq<char>
    decreases n,
{
    if n < 10 {
        digit_text(n)
    } else {
        decimal(n / 10) + digit_text(n % 10)
    }
}

/// Each digit is one character, and different digits are different characters.
proof fn lemma_digit_text(d: nat, e: nat)
    requires
        d < 10,
        e < 10,
    ensures
        digit_text(d).len() == 1,
        digit_text(d)[0] == digit_text(e)[0] ==> d == e,
{
    reveal_strlit("0");
    reveal_strlit("1");
    reveal_strlit("2");
    reveal_strlit("3");
    reveal_strlit("4");
    reveal_strlit("5");
    reveal_strlit("6");
    reveal_strlit("7");
    reveal_strlit("8");
    reveal_strlit("9");
}

/// Decimal notation has one character per digit: at least one, and at
/// least two from 10 on.
proof fn lemma_decimal_len(n: nat)
    ensures
        decimal(n).len() >= 1,
        n >= 10 ==> decimal(n).len() >= 2,
    decreases n,
{
    lemma_digit_text(n % 10, 0);
    if n >= 10 {
        lemma_decimal_len(n / 10);
    }
}

/// Different numbers have different decimal notations.
pub proof fn lemma_decimal_injective(a: nat, b: nat)
    ensures
        decimal(a) == decimal(b) ==> a == b,
    decreases a,
{
    if decimal(a) == decimal(b) {
        lemma_decimal_len(a);
        lemma_decimal_len(b);
        lemma_digit_text(a % 10, b % 10);
        lemma_digit_text(b % 10, a % 10);
        let da = decimal(a);
        if a < 10 && b < 10 {
        } else if a >= 10 && b >= 10 {
            let ha = decimal(a / 10);
            let hb = decimal(b / 10);
            assert(da.last() == digit_text(a % 10)[0]);
            assert(decimal(b).last() == digit_text(b % 10)[0]);
            assert(da.drop_last() =~= ha);
            assert(decimal(b).drop_last() =~= hb);
            lemma_decimal_injective(a / 10, b / 10);
        } else {
            assert(false);
        }
    }
}

fn digit_str(d: usize) -> (s: &'static str)
    requires
        d < 10,
    ensures
        s@ == digit_text(d as nat),
{
    if d == 0 {
        "0"
    } else if d == 1 {
        "1"
    } else if d == 2 {
        "2"
    } else if d == 3 {
        "3"
    } else if d == 4 {
        "4"
    } else if d == 5 {
        "5"
    } else if d == 6 {
        "6"
    } else if d == 7 {
        "7"
    } else if d == 8 {
        "8"
    } else {
        "9"
    }
}

/// Decimal notation of `n`.
pub fn decimal_text(n: u64) -> (s: String)
    ensures
        s@ == decimal(n as nat),
    decreases n,
{
    if n < 10 {
        digit_str(n as usize).to_owned()
    } else {
        let mut s = decimal_text(n / 10);
        s.append(digit_str((n % 10) as usize));
        s
    }
}

} // verus!

verus! {

/// The text without its trailing whitespace.
pub fn trim_end_str(s: &str) -> (r: String)
    ensures
        r@ == trim_end(s@),
{
    let n = s.unicode_len();
    let mut j: usize = n;
    while j > 0 && is_whitespace(s.get_char(j - 1))
        invariant
            n == s@.len(),
            j <= n,
            forall|k: int| j <= k < n ==> is_ws(#[trigger] s@[k]),
        decreases j,
    {
        j = j - 1;
    }
    let head = s.substring_char(0, j);
    proof {
        lemma_trim_end_skip(s@, j as int);
        let m = s@.subrange(0, j as int);
        if j > 0 {
            assert(m.last() == s@[j - 1]);
        }
        assert(trim_end(m) == m);
    }
    head.to_owned()
}

/// The first `n` characters of `s` (all of it when it is shorter).
pub open spec fn take_chars(s: Seq<char>, n: nat) -> Seq<char> {
    if s.len() <= n {
        s
    } else {
        s.take(n as int)
    }
}

/// The first `max_chars` characters of the text (cut at characters, never
/// inside one).
pub fn first_chars(s: &str, max_chars: usize) -> (r: String)
    ensures
        r@ == take_chars(s@, max_chars as nat),
{
    let n = s.unicode_len();
    if n <= max_chars {
        s.to_owned()
    } else {
        let head = s.substring_char(0, max_chars);
        proof {
            assert(head@ =~= s@.take(max_chars as int));
        }
        head.to_owned()
    }
}

} // verus!

verus! {

/// Whether `needle` stands in `hay` at position `i`.
pub open spec fn occurs_at(hay: Seq<char>, needle: Seq<char>, i: int) -> bool {
    0 <= i && i + needle.len() <= hay.len() && hay.subrange(i, i + needle.len()) == needle
}

/// Position of the first occurrence of `needle` in `hay` from position `k` on.
pub open spec fn find_from(hay: Seq<char>, needle: Seq<char>, k: int) -> Option<int>
    decreases hay.len() + 1 - k,
{
    if k < 0 || k + needle.len() > hay.len() {
        None
    } else if occurs_at(hay, needle, k) {
        Some(k)
    } else {
        find_from(hay, needle, k + 1)
    }
}

/// Position (in characters) of the first occurrence of `needle` in `hay`.
pub fn find_str(hay: &str, needle: &str) -> (r: Option<usize>)
    ensures
        match find_from(hay@, needle@, 0) {
            Some(i) => r matches Some(u) && u == i,
            None => r is None,
        },
        r matches Some(u) ==> u + needle@.len() <= hay@.len() && occurs_at(hay@, needle@, u as int),
{
    proof {
        lemma_find_from_bounds(hay@, needle@, 0);
    }
    let n = hay.unicode_len();
    let m = needle.unicode_len();
    if m > n {
        return None;
    }
    let target = needle.to_owned();
    let mut i: usize = 0;
    while i <= n - m
        invariant
            n == hay@.len(),
            m == needle@.len(),
            m <= n,
            target@ == needle@,
            i <= n - m + 1,
            find_from(hay@, needle@, 0) == find_from(hay@, needle@, i as int),
        decreases n - i + 1,
    {
        let piece = hay.substring_char(i, i + m).to_owned();
        if piece == target {
            return Some(i);
        }
        if i == n - m {
            proof {
                assert(find_from(hay@, needle@, i + 1) == None::<int>);
            }
            return None;
        }
        i = i + 1;
    }
    None
}

/// The characters of `s` from position `from` on.
pub fn chars_from(s: &str, from: usize) -> (r: String)
    requires
        from <= s@.len(),
    ensures
        r@ == s@.subrange(from as int, s@.len() as int),
{
    let n = s.unicode_len();
    s.substring_char(from, n).to_owned()
}

/// The characters of `s` before position `to`.
pub fn chars_before(s: &str, to: usize) -> (r: String)
    requires
        to <= s@.len(),
    ensures
        r@ == s@.subrange(0, to as int),
{
    s.substring_char(0, to).to_owned()
}

} // verus!

verus! {

/// A found occurrence lies within the text.
pub proof fn lemma_find_from_bounds(hay: Seq<char>, needle: Seq<char>, k: int)
    ensures
        find_from(hay, needle, k) matches Some(i) ==> k <= i && i + needle.len() <= hay.len()
            && occurs_at(hay, needle, i),
    decreases hay.len() + 1 - k,
{
    if !(k < 0 || k + needle.len() > hay.len()) && !occurs_at(hay, needle, k) {
        lemma_find_from_bounds(hay, needle, k + 1);
    }
}

} // verus!
