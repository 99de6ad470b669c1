//! Interface actions: what the agent asks the user through a tool call, and
//! the questions of an action card.

use vstd::prelude::*;

use crate::text::{contains_text, first_chars, take_chars, trim, trim_str, views};

verus! {

/// Id of the fallback confirm button (shared by the service, which adds the
/// button, and the interface, which draws it).
pub const FALLBACK_CONFIRM_ID: &'static str = "confirm";

/// Label of the fallback confirm button.
pub const FALLBACK_CONFIRM_LABEL: &'static str = "确定";

/// An interface action the agent asks for.
#[derive(Debug, Clone, PartialEq)]
pub struct UIAction {
    /// Action id (such as `generate_plan`).
    pub id: String,
    /// Kind of action.
    pub action_type: UIActionType,
    /// Label shown (button text, option label).
    pub label: String,
    /// Extra explanation.
    pub description: Option<String>,
    /// Check-box options (multi-select actions only).
    pub options: Vec<MultiSelectOption>,
}

/// A check-box option.
#[derive(Debug, Clone, PartialEq)]
pub struct MultiSelectOption {
    /// Option id.
    pub id: String,
    /// Label shown.
    pub label: String,
    /// Value sent back when checked (`id=value`; only `id` when absent).
    pub value: Option<String>,
    /// Checked at first.
    pub default: bool,
}

/// Kind of interface action.
#[derive(Debug, Clone, Copy, PartialEq, Eq, Structural)]
pub enum UIActionType {
    /// Confirm buttons (yes / no, or one of several).
    Confirm,
    /// A single-choice list.
    Select,
    /// A text prompt.
    Input,
    /// Check boxes.
    MultiSelect,
}

/// One option of a question card.
#[derive(Debug, Clone, PartialEq, Eq)]
pub struct UIOption {
    pub label: String,
    pub description: Option<String>,
    pub value: Option<String>,
}

/// A question of an action card.
#[derive(Debug, Clone, PartialEq, Eq)]
pub struct UIQuestion {
    pub header: String,
    pub question: String,
    pub options: Vec<UIOption>,
    /// Several options may be chosen.
    pub multi: bool,
    /// Free input is allowed.
    pub allow_input: bool,
}

/// Most questions an action card keeps.
pub const MAX_UI_QUESTIONS: usize = 4;

/// The header a question is shown under: its own, or, when that is blank,
/// the first six characters of the question.
pub open spec fn header_for(q: UIQuestion) -> Seq<char> {
    if trim(q.header@).len() == 0 {
        take_chars(q.question@, 6)
    } else {
        q.header@
    }
}

/// The headers of the questions at positions `ks` of a list of parsed items.
pub open spec fn kept_headers(items: Seq<Option<UIQuestion>>, ks: Seq<int>) -> Seq<Seq<char>> {
    ks.map_values(|j: int| header_for(items[j]->0))
}

/// Reading the first `n` parsed items of a card (`None`: an item that did
/// not parse, skipped): how many questions were taken, and the positions of
/// those kept. Reading stops once four were taken; a question whose header
/// was already kept is dropped.
pub open spec fn kept_questions(items: Seq<Option<UIQuestion>>, n: int) -> (nat, Seq<int>)
    decreases n,
{
    if n <= 0 {
        (0, Seq::empty())
    } else {
        let (c, ks) = kept_questions(items, n - 1);
        if c >= MAX_UI_QUESTIONS {
            (c, ks)
        } else {
            match items[n - 1] {
                None => (c, ks),
                Some(q) => if kept_headers(items, ks).contains(header_for(q)) {
                    (c + 1, ks)
                } else {
                    (c + 1, ks.push(n - 1))
                },
            }
        }
    }
}

/// Whether `out` is the question kept from parsed item `ks[k]`, read
/// among the first `n` items.
pub open spec fn kept_at(items: Seq<Option<UIQuestion>>, ks: Seq<int>, n: int, k: int, out: UIQuestion) -> bool {
    &&& 0 <= ks[k] < n
    &&& items[ks[k]] is Some
    &&& out.header@ == header_for(items[ks[k]]->0)
    &&& out.question == (items[ks[k]]->0).question
    &&& out.options == (items[ks[k]]->0).options
    &&& out.multi == (items[ks[k]]->0).multi
    &&& out.allow_input == (items[ks[k]]->0).allow_input
}

/// The questions of an action card from its parsed items, in order: items
/// that did not parse are skipped, at most four are taken, a blank header is
/// replaced by the question's first six characters, and of questions with the
/// same header only the first is kept.
pub fn pick_ui_questions(items: Vec<Option<UIQuestion>>) -> (r: Vec<UIQuestion>)
    ensures
        ({
            let ks = kept_questions(items@, items@.len() as int).1;
            &&& r@.len() == ks.len()
            &&& forall|k: int| 0 <= k < r@.len() ==> {
                let q = items@[ks[k]]->0;
                &&& (#[trigger] r@[k]).header@ == header_for(q)
                &&& r@[k].question == q.question
                &&& r@[k].options == q.options
                &&& r@[k].multi == q.multi
                &&& r@[k].allow_input == q.allow_input
            }
        }),
{
    let ghost all = items@;
    let mut rest = items;
    let n = rest.len();
    let mut out: Vec<UIQuestion> = Vec::new();
    let mut seen: Vec<String> = Vec::new();
    let mut count: usize = 0;
    let mut i: usize = 0;
    while i < n
        invariant
            n == all.len(),
            i <= n,
            rest@ == all.skip(i as int),
            count == kept_questions(all, i as int).0,
            count <= MAX_UI_QUESTIONS,
            views(seen@) == kept_headers(all, kept_questions(all, i as int).1),
            out@.len() == kept_questions(all, i as int).1.len(),
            forall|k: int| 0 <= k < out@.len() ==> kept_at(all, kept_questions(all, i as int).1, i as int, k, #[trigger] out@[k]),
        decreases n - i,
    {
        let item = rest.remove(0);
        proof {
            assert(all.skip(i as int)[0] == item);
            assert(rest@ =~= all.skip(i + 1));
        }
        let ghost prev_ks = kept_questions(all, i as int).1;
        let ghost prev_out = out@;
        if count < MAX_UI_QUESTIONS {
            match item {
                Some(q) => {
                    let ghost q0 = q;
                    let UIQuestion { header, question, options, multi, allow_input } = q;
                    let blank = trim_str(header.as_str());
                    let header = if blank.unicode_len() == 0 {
                        first_chars(question.as_str(), 6)
                    } else {
                        header
                    };
                    assert(header@ == header_for(q0));
                    count = count + 1;
                    if !contains_text(&seen, &header) {
                        seen.push(header.clone());
                        out.push(UIQuestion { header, question, options, multi, allow_input });
                        proof {
                            let ks = prev_ks.push(i as int);
                            assert(kept_questions(all, i + 1).1 == ks);
                            assert(views(seen@) =~= views(seen@.drop_last()).push(header_for(q0)));
                            assert(kept_headers(all, ks) =~= kept_headers(all, prev_ks).push(header_for(q0)));
                            assert forall|k: int| 0 <= k < out@.len() implies kept_at(all, ks, i + 1, k, #[trigger] out@[k]) by {
                                if k < prev_out.len() {
                                    assert(out@[k] == prev_out[k]);
                                    assert(ks[k] == prev_ks[k]);
                                }
                            }
                        }
                    } else {
                        proof {
                            assert(views(seen@).contains(header_for(q0)));
                            assert(kept_questions(all, i + 1).1 == prev_ks);
                        }
                    }
                },
                None => {
                    assert(kept_questions(all, i + 1).1 == prev_ks);
                },
            }
        } else {
            assert(kept_questions(all, i + 1).1 == prev_ks);
        }
        let ghost ks = kept_questions(all, i + 1).1;
        proof {
            assert(ks == prev_ks || (ks == prev_ks.push(i as int) && out@.len() == prev_out.len() + 1));
            assert forall|k: int| 0 <= k < out@.len() implies kept_at(all, ks, i + 1, k, #[trigger] out@[k]) by {
                if ks == prev_ks {
                    assert(out@ == prev_out);
                    assert(out@[k] == prev_out[k]);
                } else if k < prev_out.len() {
                    assert(ks[k] == prev_ks[k]);
                    assert(out@[k] == prev_out[k]);
                }
            }
        }
        i = i + 1;
        proof {
            assert(kept_questions(all, i as int).1 == ks);
        }
    }
    proof {
        assert(all.take(n as int) =~= all);
    }
    out
}

} // verus!
