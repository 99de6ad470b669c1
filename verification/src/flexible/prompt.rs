//! Built-in prompt texts of the executor, and the assembly of a step's task
//! text and of an output contract's description.

use vstd::prelude::*;

use crate::flexible::output_schema::{OutputKind, OutputSchema};
use crate::text::views;

verus! {

/// System prompt of an ordinary step.
pub const STEP_SYSTEM_PROMPT: &'static str =
    "你是一个计划执行助手，本次只负责完成一个子目标。\n\n规则：\n- 需要外部数据或产生副作用时，调用提供的工具完成任务；不要凭空编造工具输出。\n- 工具参数必须来自「本次子目标」「期望产出」或「前序步骤结果」，禁止臆造路径、URL、关键词。\n- 若已有信息足够，直接给出本次产出的结论作回答，不要再调用工具。\n- 回答不要包 JSON 外壳，直接写产出内容本身。\n";

/// System prompt of the result-resolving step (used only when the template has
/// an output contract and all its steps succeeded; it gets no tools).
pub const OUTPUT_RESOLVE_SYSTEM_PROMPT: &'static str =
    "你是一个结果整理助手，本次只负责按给定的输出契约，把执行产出整理成要交付的东西。\n\n规则：\n- 只依据给出的执行产出整理，不得补充、推测或编造其中没有的数据。\n- 契约要求的字段在执行产出里找不到时，如实在结果中注明「未获得」，绝不许编造内容。\n- 不要复述执行过程与步骤编号，只交付结果本身。\n- 契约要求 JSON / CSV 时，直接给出数据本身，不包解释文字、不加 Markdown 代码块标记。\n";

/// The earlier results section: one `### reference` block per entry.
pub open spec fn prior_section(prior: Seq<(String, String)>) -> Seq<char>
    decreases prior.len(),
{
    if prior.len() == 0 {
        Seq::empty()
    } else {
        prior_section(prior.drop_last()) + "### "@ + prior.last().0@ + "\n"@ + prior.last().1@
            + "\n"@
    }
}

/// Law: the earlier results section is one block per entry, in order: no
/// entry gives nothing, one entry gives `### reference`, its output, each
/// on its line, and two runs of entries put together give the first run's
/// blocks followed by the second's.
pub proof fn lemma_prior_section_blocks(a: Seq<(String, String)>, b: Seq<(String, String)>)
    ensures
        prior_section(Seq::<(String, String)>::empty()) == Seq::<char>::empty(),
        a.len() == 1 ==> prior_section(a) == "### "@ + a[0].0@ + "\n"@ + a[0].1@ + "\n"@,
        prior_section(a + b) == prior_section(a) + prior_section(b),
    decreases b.len(),
{
    if a.len() == 1 {
        assert(a.drop_last() =~= Seq::<(String, String)>::empty());
        assert(prior_section(a.drop_last()) == Seq::<char>::empty());
        assert(a.last() == a[0]);
        let e = Seq::<char>::empty();
        assert(e + "### "@ =~= "### "@);
    }
    let ab = a + b;
    if b.len() == 0 {
        assert(ab =~= a);
        assert(prior_section(a) + Seq::<char>::empty() =~= prior_section(a));
    } else {
        lemma_prior_section_blocks(a, b.drop_last());
        assert(ab.drop_last() =~= a + b.drop_last());
        assert(ab.last() == b.last());
        assert(prior_section(ab) =~= prior_section(a) + prior_section(b));
    }
}

/// The task text of a step.
pub open spec fn step_task_text(
    intent: Seq<char>,
    expected_output: Seq<char>,
    prior: Seq<(String, String)>,
) -> Seq<char> {
    "## 本次子目标\n"@ + intent + "\n\n## 期望产出（满足什么算完成）\n"@ + expected_output + if prior.len()
        > 0 {
        "\n\n## 前序步骤结果\n"@ + prior_section(prior)
    } else {
        Seq::empty()
    }
}

/// Assembles the user text of a step: its goal, the expected outcome and, when
/// it depends on earlier steps, their outputs in dependency order.
pub fn build_step_task(intent: &str, expected_output: &str, prior: &[(String, String)]) -> (text:
    String)
    ensures
        text@ == step_task_text(intent@, expected_output@, prior@),
{
    let mut text = String::new();
    text.append("## 本次子目标\n");
    text.append(intent);
    text.append("\n\n## 期望产出（满足什么算完成）\n");
    text.append(expected_output);
    let ghost head = text@;
    if prior.len() > 0 {
        text.append("\n\n## 前序步骤结果\n");
        let ghost start = text@;
        let mut i: usize = 0;
        while i < prior.len()
            invariant
                i <= prior@.len(),
                text@ == start + prior_section(prior@.take(i as int)),
            decreases prior@.len() - i,
        {
            let (reference, output) = &prior[i];
            text.append("### ");
            text.append(reference.as_str());
            text.append("\n");
            text.append(output.as_str());
            text.append("\n");
            proof {
                assert(prior@.take(i + 1).drop_last() =~= prior@.take(i as int));
                assert(prior@.take(i + 1).last() == prior@[i as int]);
            }
            i = i + 1;
        }
        proof {
            assert(prior@.take(prior@.len() as int) =~= prior@);
        }
    }
    proof {
        if prior@.len() == 0 {
            assert(head + Seq::<char>::empty() =~= head);
        }
    }
    text
}

/// `xs` joined by `sep`.
pub open spec fn join(xs: Seq<Seq<char>>, sep: Seq<char>) -> Seq<char>
    decreases xs.len(),
{
    if xs.len() == 0 {
        Seq::empty()
    } else if xs.len() == 1 {
        xs[0]
    } else {
        join(xs.drop_last(), sep) + sep + xs.last()
    }
}

/// Law: no text joins to nothing, one text to itself, and two non-empty
/// runs of texts put together join to the first run's join, the separator,
/// and the second run's join.
pub proof fn lemma_join_splits(xs: Seq<Seq<char>>, ys: Seq<Seq<char>>, sep: Seq<char>)
    ensures
        join(Seq::<Seq<char>>::empty(), sep) == Seq::<char>::empty(),
        xs.len() == 1 ==> join(xs, sep) == xs[0],
        xs.len() > 0 && ys.len() > 0 ==> join(xs + ys, sep) == join(xs, sep) + sep + join(ys, sep),
    decreases ys.len(),
{
    if xs.len() > 0 && ys.len() > 0 {
        let zs = xs + ys;
        if ys.len() == 1 {
            assert(zs.drop_last() =~= xs);
            assert(zs.last() == ys[0]);
        } else {
            lemma_join_splits(xs, ys.drop_last(), sep);
            assert(zs.drop_last() =~= xs + ys.drop_last());
            assert(zs.last() == ys.last());
            assert(join(zs, sep) =~= join(xs, sep) + sep + join(ys, sep));
        }
    }
}

/// The texts of `v` joined by `sep`.
pub fn join_texts(v: &Vec<String>, sep: &str) -> (s: String)
    ensures
        s@ == join(views(v@), sep@),
{
    let mut s = String::new();
    let mut i: usize = 0;
    while i < v.len()
        invariant
            i <= v@.len(),
            s@ == join(views(v@.take(i as int)), sep@),
        decreases v@.len() - i,
    {
        proof {
            assert(views(v@.take(i + 1)).drop_last() =~= views(v@.take(i as int)));
            assert(views(v@.take(i + 1)).last() == v@[i as int]@);
        }
        if i > 0 {
            s.append(sep);
        } else {
            proof {
                assert(views(v@.take(1))[0] == v@[0]@);
            }
        }
        s.append(v[i].as_str());
        i = i + 1;
    }
    proof {
        assert(v@.take(v@.len() as int) =~= v@);
    }
    s
}

/// Name of a kind shown to the model.
pub open spec fn kind_label_text(k: OutputKind) -> Seq<char> {
    match k {
        OutputKind::Bool => "只要成功 / 失败判断（无交付内容）"@,
        OutputKind::Text => "一段文本"@,
        OutputKind::Markdown => "一份 Markdown 文档"@,
        OutputKind::Json => "一个 JSON 对象"@,
        OutputKind::Csv => "一份 CSV 表格"@,
        OutputKind::File => "一个落盘文件"@,
    }
}

/// Name of a kind shown to the model.
pub fn kind_label(kind: OutputKind) -> (s: &'static str)
    ensures
        s@ == kind_label_text(kind),
{
    match kind {
        OutputKind::Bool => "只要成功 / 失败判断（无交付内容）",
        OutputKind::Text => "一段文本",
        OutputKind::Markdown => "一份 Markdown 文档",
        OutputKind::Json => "一个 JSON 对象",
        OutputKind::Csv => "一份 CSV 表格",
        OutputKind::File => "一个落盘文件",
    }
}

/// The delivery requirement line of a kind.
pub open spec fn delivery_text(k: OutputKind) -> Seq<char> {
    match k {
        OutputKind::Bool => "交付要求：只给一句判断（成功 / 失败）与理由，不要其它内容。"@,
        OutputKind::Text => "交付要求：只给结果正文，不要复述执行过程。"@,
        OutputKind::Markdown => "交付要求：只给 Markdown 正文（可直接用标题与列表）。"@,
        OutputKind::Json => "交付要求：只给一个 JSON 对象，不加解释文字、不加代码块标记。"@,
        OutputKind::Csv => "交付要求：只给 CSV 文本（首行表头），不加解释文字、不加代码块标记。"@,
        OutputKind::File => "交付要求：给出落盘文件的完整路径与一句内容说明。"@,
    }
}

/// Whether `word` stands somewhere in `text`.
pub open spec fn mentions(text: Seq<char>, word: Seq<char>) -> bool {
    exists|i: int| 0 <= i && i + word.len() <= text.len() && #[trigger] text.subrange(i, i + word.len()) == word
}

/// The word by which a delivery requirement names its kind.
pub open spec fn kind_word(k: OutputKind) -> Seq<char> {
    match k {
        OutputKind::Bool => "判断"@,
        OutputKind::Text => "正文"@,
        OutputKind::Markdown => "Markdown"@,
        OutputKind::Json => "JSON 对象"@,
        OutputKind::Csv => "CSV"@,
        OutputKind::File => "文件"@,
    }
}

/// Law: a contract's delivery requirement is about its own kind: it names
/// the kind (a JSON contract asks for a JSON object, a CSV one for CSV, and
/// so on), and different kinds get different requirements; the contract's
/// description ends with it.
pub proof fn lemma_delivery_names_kind(k: OutputKind, other: OutputKind, s: OutputSchema)
    ensures
        mentions(delivery_text(k), kind_word(k)),
        k != other ==> delivery_text(k) != delivery_text(other),
        contract_text(s).len() >= delivery_text(s.kind).len(),
        contract_text(s).subrange(
            contract_text(s).len() - delivery_text(s.kind).len(),
            contract_text(s).len() as int,
        ) == delivery_text(s.kind),
{
    reveal_strlit("交付要求：只给一句判断（成功 / 失败）与理由，不要其它内容。");
    reveal_strlit("交付要求：只给结果正文，不要复述执行过程。");
    reveal_strlit("交付要求：只给 Markdown 正文（可直接用标题与列表）。");
    reveal_strlit("交付要求：只给一个 JSON 对象，不加解释文字、不加代码块标记。");
    reveal_strlit("交付要求：只给 CSV 文本（首行表头），不加解释文字、不加代码块标记。");
    reveal_strlit("交付要求：给出落盘文件的完整路径与一句内容说明。");
    reveal_strlit("判断");
    reveal_strlit("正文");
    reveal_strlit("Markdown");
    reveal_strlit("JSON 对象");
    reveal_strlit("CSV");
    reveal_strlit("文件");
    let t = delivery_text(k);
    let w = kind_word(k);
    let at: int = match k {
        OutputKind::Bool => 9,
        OutputKind::Text => 9,
        OutputKind::Markdown => 8,
        OutputKind::Json => 10,
        OutputKind::Csv => 8,
        OutputKind::File => 9,
    };
    assert(t.subrange(at, at + w.len()) =~= w);
    if k != other && delivery_text(k) == delivery_text(other) {
        assert(delivery_text(k)[8] == delivery_text(other)[8]);
    }
    let c = contract_text(s);
    let d = delivery_text(s.kind);
    assert(c.subrange(c.len() - d.len(), c.len() as int) =~= d);
}

fn delivery(kind: OutputKind) -> (s: &'static str)
    ensures
        s@ == delivery_text(kind),
{
    match kind {
        OutputKind::Bool => "交付要求：只给一句判断（成功 / 失败）与理由，不要其它内容。",
        OutputKind::Text => "交付要求：只给结果正文，不要复述执行过程。",
        OutputKind::Markdown => "交付要求：只给 Markdown 正文（可直接用标题与列表）。",
        OutputKind::Json => "交付要求：只给一个 JSON 对象，不加解释文字、不加代码块标记。",
        OutputKind::Csv => "交付要求：只给 CSV 文本（首行表头），不加解释文字、不加代码块标记。",
        OutputKind::File => "交付要求：给出落盘文件的完整路径与一句内容说明。",
    }
}

/// A labelled line when the value is present.
pub open spec fn opt_line(label: Seq<char>, v: Option<String>) -> Seq<char> {
    match v {
        Some(t) => label + t@ + "\n"@,
        None => Seq::empty(),
    }
}

/// A labelled field-list line when the list is non-empty.
pub open spec fn list_line(label: Seq<char>, v: Seq<String>) -> Seq<char> {
    if v.len() > 0 {
        label + join(views(v), ", "@) + "\n"@
    } else {
        Seq::empty()
    }
}

/// The description of an output contract given to the model.
pub open spec fn contract_text(s: OutputSchema) -> Seq<char> {
    "结果形态："@ + kind_label_text(s.kind) + "\n"@ + opt_line("要交付什么："@, s.goal) + opt_line(
        "什么算成功："@,
        s.success,
    ) + opt_line("形态要求："@, s.format) + list_line(
        "必须包含的字段（缺一即视为未达成）："@,
        s.required@,
    ) + list_line("尽力去找的字段（找不到不算错，但要在结果里说明未获得）："@, s.wanted@)
        + delivery_text(s.kind)
}

fn append_opt_line(text: &mut String, label: &str, v: &Option<String>)
    ensures
        final(text)@ == old(text)@ + opt_line(label@, *v),
{
    match v {
        Some(t) => {
            text.append(label);
            text.append(t.as_str());
            text.append("\n");
        },
        None => {
            proof {
                assert(text@ =~= old(text)@ + Seq::<char>::empty());
            }
        },
    }
}

fn append_list_line(text: &mut String, label: &str, v: &Vec<String>)
    ensures
        final(text)@ == old(text)@ + list_line(label@, v@),
{
    if v.len() > 0 {
        text.append(label);
        text.append(join_texts(v, ", ").as_str());
        text.append("\n");
    } else {
        proof {
            assert(text@ =~= old(text)@ + Seq::<char>::empty());
        }
    }
}

/// Writes an output contract as text for the model (`${name}` kept as written;
/// the caller renders it with the run's values).
pub fn build_output_contract_text(schema: &OutputSchema) -> (text: String)
    ensures
        text@ == contract_text(*schema),
{
    let mut text = String::new();
    text.append("结果形态：");
    text.append(kind_label(schema.kind));
    text.append("\n");
    append_opt_line(&mut text, "要交付什么：", &schema.goal);
    append_opt_line(&mut text, "什么算成功：", &schema.success);
    append_opt_line(&mut text, "形态要求：", &schema.format);
    append_list_line(&mut text, "必须包含的字段（缺一即视为未达成）：", &schema.required);
    append_list_line(
        &mut text,
        "尽力去找的字段（找不到不算错，但要在结果里说明未获得）：",
        &schema.wanted,
    );
    text.append(delivery(schema.kind));
    text
}

} // verus!
