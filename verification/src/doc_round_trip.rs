//! Reading the completeness document back from its own Markdown: every
//! section found under its heading gives the field that was written.

use vstd::prelude::*;

use crate::agents::{doc_markdown, section_value, CompletenessDoc};
use crate::text::{find_from, is_ws, occurs_at, trim, trim_end, trim_start};

verus! {

/// Whether a text holds no `#`.
pub open spec fn no_hash(s: Seq<char>) -> bool {
    forall|i: int| 0 <= i < s.len() ==> s[i] != '#'
}

/// A field that reads back as written: not empty, not the pending mark, no
/// surrounding whitespace, and no `#` (which could start a heading).
pub open spec fn clean_field(f: Seq<char>) -> bool {
    &&& f.len() > 0
    &&& !is_ws(f[0])
    &&& !is_ws(f.last())
    &&& no_hash(f)
    &&& f != "（待填充）"@
}

/// Searching past a prefix is searching the rest, shifted.
proof fn lemma_find_shift(x: Seq<char>, t: Seq<char>, n: Seq<char>, j: int)
    requires
        0 <= j,
    ensures
        find_from(x + t, n, x.len() + j) == match find_from(t, n, j) {
            Some(p) => Some(p + x.len()),
            None => None,
        },
    decreases t.len() + 1 - j,
{
    if j + n.len() <= t.len() {
        assert((x + t).subrange(x.len() + j, x.len() + j + n.len()) =~= t.subrange(j, j + n.len()));
        if !occurs_at(t, n, j) {
            lemma_find_shift(x, t, n, j + 1);
        }
    }
}

/// Positions where the needle does not stand are skipped.
proof fn lemma_find_skip(hay: Seq<char>, n: Seq<char>, k: int, p: int)
    requires
        0 <= k <= p,
        forall|q: int| k <= q < p ==> !occurs_at(hay, n, q),
    ensures
        find_from(hay, n, k) == find_from(hay, n, p),
    decreases p - k,
{
    if k < p {
        if k + n.len() > hay.len() {
            lemma_find_none(hay, n, p);
        } else {
            lemma_find_skip(hay, n, k + 1, p);
        }
    }
}

/// Past the end there is nothing to find.
proof fn lemma_find_none(hay: Seq<char>, n: Seq<char>, k: int)
    requires
        0 <= k,
        k + n.len() > hay.len(),
    ensures
        find_from(hay, n, k) is None,
{
}

/// A needle that starts with `c` does not stand where the text has no `c`.
proof fn lemma_not_at(hay: Seq<char>, n: Seq<char>, q: int, d: int)
    requires
        0 <= d < n.len(),
        0 <= q,
        q + d < hay.len(),
        hay[q + d] != n[d],
    ensures
        !occurs_at(hay, n, q),
{
    if occurs_at(hay, n, q) {
        assert(hay.subrange(q, q + n.len())[d] == hay[q + d]);
    }
}

/// One section of the document, `pre + m + "\n" + f + t`, searched for a
/// heading `n`: found at the heading when `m` is `n`, otherwise found where
/// the rest `t` has it.
proof fn lemma_section_find(pre: Seq<char>, m: Seq<char>, f: Seq<char>, t: Seq<char>, n: Seq<char>)
    requires
        no_hash(pre),
        m.len() == 7,
        n.len() == 7,
        m[0] == '#',
        m[1] == '#',
        m[2] == ' ',
        no_hash(m.subrange(2, 7)),
        n[0] == '#',
        n[1] == '#',
        no_hash(f),
    ensures
        find_from(pre + m + seq!['\n'] + f + t, n, 0) == if m == n {
            Some(pre.len() as int)
        } else {
            match find_from(t, n, 0) {
                Some(p) => Some(p + pre.len() + 8 + f.len()),
                None => None,
            }
        },
{
    let x = pre + m + seq!['\n'] + f;
    let hay = x + t;
    assert(pre + m + seq!['\n'] + f + t == hay);
    let b = pre.len() as int;
    assert forall|q: int| 0 <= q < b implies !occurs_at(hay, n, q) by {
        assert(hay[q] == pre[q]);
        lemma_not_at(hay, n, q, 0);
    }
    lemma_find_skip(hay, n, 0, b);
    assert(hay.subrange(b, b + 7) =~= m);
    if m == n {
        assert(occurs_at(hay, n, b));
    } else {
        assert(!occurs_at(hay, n, b));
        assert(hay[b + 2] == m[2]);
        lemma_not_at(hay, n, b + 1, 1);
        assert forall|q: int| b + 2 <= q < x.len() implies !occurs_at(hay, n, q) by {
            if q < b + 7 {
                assert(hay[q] == m[q - b]);
                assert(m.subrange(2, 7)[q - b - 2] == m[q - b]);
            } else if q == b + 7 {
                assert(hay[q] == '\n');
            } else {
                assert(hay[q] == f[q - b - 8]);
            }
            lemma_not_at(hay, n, q, 0);
        }
        lemma_find_skip(hay, n, b, x.len() as int);
        lemma_find_shift(x, t, n, 0);
    }
}

/// Trimming a field padded with line breaks gives the field.
proof fn lemma_trim_padded(f: Seq<char>, tail: Seq<char>)
    requires
        f.len() > 0,
        !is_ws(f[0]),
        !is_ws(f.last()),
        tail == Seq::<char>::empty() || tail == seq!['\n'],
    ensures
        trim(seq!['\n'] + f + tail) == f,
{
    let s = seq!['\n'] + f + tail;
    assert(is_ws('\n')) by {
        assert(('\n' as u32) == 0x0A);
    }
    assert(s.drop_first() =~= f + tail);
    assert((f + tail)[0] == f[0]);
    assert(s[0] == '\n');
    assert(trim_start(f + tail) == f + tail);
    assert(trim_start(s) == trim_start(s.drop_first()));
    assert(trim_start(s) == f + tail);
    if tail.len() == 1 {
        assert((f + tail).drop_last() =~= f);
        assert(trim_end(f + tail) == trim_end(f));
    } else {
        assert(f + tail =~= f);
    }
}

/// The next heading is found right after a field followed by it.
proof fn lemma_next_heading(f: Seq<char>, t: Seq<char>)
    requires
        no_hash(f),
        t.len() >= 4,
        t[0] == '\n',
        t[1] == '\n',
        t[2] == '#',
        t[3] == '#',
    ensures
        find_from(seq!['\n'] + f + t, "\n##"@, 0) == Some(f.len() + 2int),
{
    reveal_strlit("\n##");
    let n = "\n##"@;
    let hay = seq!['\n'] + f + t;
    let p = f.len() + 2int;
    assert forall|q: int| 0 <= q < p implies !occurs_at(hay, n, q) by {
        if q + 1 < f.len() + 1 {
            assert(hay[q + 1] == f[q]);
        } else if q + 1 == f.len() + 1 {
            assert(hay[q + 1] == t[0]);
        } else {
            assert(hay[q + 1] == t[1]);
        }
        lemma_not_at(hay, n, q, 1);
    }
    lemma_find_skip(hay, n, 0, p);
    assert(hay.subrange(p, p + 3) =~= n);
}

/// A last field is followed by no heading.
proof fn lemma_no_next_heading(f: Seq<char>)
    requires
        no_hash(f),
    ensures
        find_from(seq!['\n'] + f, "\n##"@, 0) is None,
{
    reveal_strlit("\n##");
    let n = "\n##"@;
    let hay = seq!['\n'] + f;
    let end = hay.len() as int;
    assert forall|q: int| 0 <= q < end implies !occurs_at(hay, n, q) by {
        if q + 1 < hay.len() {
            assert(hay[q + 1] == f[q]);
            lemma_not_at(hay, n, q, 1);
        }
    }
    lemma_find_skip(hay, n, 0, end);
    lemma_find_none(hay, n, end);
}

/// A heading found at `p`, followed by a clean field and then the next
/// heading (or nothing), gives that field as the section's value.
proof fn lemma_value_at(hay: Seq<char>, n: Seq<char>, p: int, f: Seq<char>, rest: Seq<char>)
    requires
        n.len() == 7,
        find_from(hay, n, 0) == Some(p),
        0 <= p,
        p + 7 <= hay.len(),
        hay.subrange(p + 7, hay.len() as int) == seq!['\n'] + f + rest,
        clean_field(f),
        rest == Seq::<char>::empty() || (rest.len() >= 4 && rest[0] == '\n' && rest[1] == '\n'
            && rest[2] == '#' && rest[3] == '#'),
    ensures
        section_value(hay, n) == Some(f),
{
    let after = hay.subrange(p + 7, hay.len() as int);
    if rest.len() == 0 {
        assert(after =~= seq!['\n'] + f);
        lemma_no_next_heading(f);
        lemma_trim_padded(f, Seq::empty());
        assert(seq!['\n'] + f + Seq::<char>::empty() =~= seq!['\n'] + f);
    } else {
        lemma_next_heading(f, rest);
        let head = after.subrange(0, f.len() + 2int);
        assert(head =~= seq!['\n'] + f + seq!['\n']);
        lemma_trim_padded(f, seq!['\n']);
    }
}

/// A heading literal: `##`, a space, four characters without `#`.
proof fn lemma_heading_shape(m: Seq<char>)
    requires
        m.len() == 7,
        m[0] == '#',
        m[1] == '#',
        m[2] == ' ',
        m[3] != '#',
        m[4] != '#',
        m[5] != '#',
        m[6] != '#',
    ensures
        no_hash(m.subrange(2, 7)),
{
    assert forall|i: int| 0 <= i < 5 implies m.subrange(2, 7)[i] != '#' by {
        assert(m.subrange(2, 7)[i] == m[i + 2]);
    }
}

/// The Markdown of a document reads back as the document: each section,
/// found under its heading, gives the field that was written, so filling a
/// document in from another's Markdown copies it (fields that are not empty,
/// not the pending mark, without surrounding whitespace and without `#`).
#[verifier::rlimit(40)]
pub proof fn lemma_markdown_round_trip(d: CompletenessDoc)
    requires
        clean_field(d.requirement@),
        clean_field(d.input_params@),
        clean_field(d.execution_steps@),
        clean_field(d.tool_paths@),
        clean_field(d.output_schema@),
    ensures
        section_value(doc_markdown(d), "## 需求描述"@) == Some(d.requirement@),
        section_value(doc_markdown(d), "## 输入参数"@) == Some(d.input_params@),
        section_value(doc_markdown(d), "## 执行步骤"@) == Some(d.execution_steps@),
        section_value(doc_markdown(d), "## 工具路径"@) == Some(d.tool_paths@),
        section_value(doc_markdown(d), "## 输出格式"@) == Some(d.output_schema@),
{
    reveal_strlit("## 需求描述");
    reveal_strlit("## 输入参数");
    reveal_strlit("## 执行步骤");
    reveal_strlit("## 工具路径");
    reveal_strlit("## 输出格式");
    reveal_strlit("## 需求描述\n");
    reveal_strlit("\n\n## 输入参数\n");
    reveal_strlit("\n\n## 执行步骤\n");
    reveal_strlit("\n\n## 工具路径\n");
    reveal_strlit("\n\n## 输出格式\n");
    let m0 = "## 需求描述"@;
    let m1 = "## 输入参数"@;
    let m2 = "## 执行步骤"@;
    let m3 = "## 工具路径"@;
    let m4 = "## 输出格式"@;
    let f0 = d.requirement@;
    let f1 = d.input_params@;
    let f2 = d.execution_steps@;
    let f3 = d.tool_paths@;
    let f4 = d.output_schema@;
    let nl = seq!['\n'];
    let dn = seq!['\n', '\n'];
    let e = Seq::<char>::empty();
    let t4 = dn + m4 + nl + f4 + e;
    let t3 = dn + m3 + nl + f3 + t4;
    let t2 = dn + m2 + nl + f2 + t3;
    let t1 = dn + m1 + nl + f1 + t2;
    let t0 = e + m0 + nl + f0 + t1;
    assert(doc_markdown(d) =~= t0);
    let md = t0;
    lemma_heading_shape(m0);
    lemma_heading_shape(m1);
    lemma_heading_shape(m2);
    lemma_heading_shape(m3);
    lemma_heading_shape(m4);
    assert(no_hash(dn));
    assert(no_hash(e));
    assert(m0 != m1 && m0 != m2 && m0 != m3 && m0 != m4) by {
        assert(m0[3] != m1[3] && m0[3] != m2[3] && m0[3] != m3[3] && m0[3] != m4[3]);
    }
    assert(m1 != m2 && m1 != m3 && m1 != m4) by {
        assert(m1[3] != m2[3] && m1[3] != m3[3] && m1[4] != m4[4]);
    }
    assert(m2 != m3 && m2 != m4 && m3 != m4) by {
        assert(m2[3] != m3[3] && m2[3] != m4[3] && m3[3] != m4[3]);
    }
    let l0: int = 8int + f0.len();
    let l1: int = 10int + f1.len();
    let l2: int = 10int + f2.len();
    let l3: int = 10int + f3.len();
    // requirement
    lemma_section_find(e, m0, f0, t1, m0);
    assert(md.subrange(7, md.len() as int) =~= nl + f0 + t1);
    lemma_value_at(md, m0, 0, f0, t1);
    // inputs
    lemma_section_find(e, m0, f0, t1, m1);
    lemma_section_find(dn, m1, f1, t2, m1);
    assert(md.subrange(l0 + 9, md.len() as int) =~= nl + f1 + t2);
    lemma_value_at(md, m1, l0 + 2, f1, t2);
    // execution steps
    lemma_section_find(e, m0, f0, t1, m2);
    lemma_section_find(dn, m1, f1, t2, m2);
    lemma_section_find(dn, m2, f2, t3, m2);
    assert(md.subrange(l0 + l1 + 9, md.len() as int) =~= nl + f2 + t3);
    lemma_value_at(md, m2, l0 + l1 + 2, f2, t3);
    // tool paths
    lemma_section_find(e, m0, f0, t1, m3);
    lemma_section_find(dn, m1, f1, t2, m3);
    lemma_section_find(dn, m2, f2, t3, m3);
    lemma_section_find(dn, m3, f3, t4, m3);
    assert(md.subrange(l0 + l1 + l2 + 9, md.len() as int) =~= nl + f3 + t4);
    lemma_value_at(md, m3, l0 + l1 + l2 + 2, f3, t4);
    // output format
    lemma_section_find(e, m0, f0, t1, m4);
    lemma_section_find(dn, m1, f1, t2, m4);
    lemma_section_find(dn, m2, f2, t3, m4);
    lemma_section_find(dn, m3, f3, t4, m4);
    lemma_section_find(dn, m4, f4, e, m4);
    assert(md.subrange(l0 + l1 + l2 + l3 + 9, md.len() as int) =~= nl + f4 + e);
    lemma_value_at(md, m4, l0 + l1 + l2 + l3 + 2, f4, e);
}

} // verus!
