//! Run parameters: the values of one run, and the expansion of a step's
//! `intent`.
//!
//! - a value supplied by the caller wins over the template's `inputs[].default`;
//! - expansion replaces each `${name}` of `steps[].intent` by its value.

use vstd::prelude::*;

use crate::flexible::placeholder::{render, render_failure_text, render_spec, RenderFailure};
use crate::flexible::template::{FlexiblePlanTemplate, PlanInput, PlanStep};
use crate::named_map::{entries_map, lemma_map_values_insert, NamedMap};

verus! {

/// A parameter value: a JSON string, or another JSON value held as its
/// literal text (`1`, `true`, `[1,2]`, ...).
#[derive(Debug, Clone, PartialEq, Eq)]
pub enum ParamValue {
    /// A JSON string.
    Text(String),
    /// Any other JSON value, as its compact JSON text.
    Literal(String),
}

/// Model of a parameter value.
pub enum ParamValueView {
    Text(Seq<char>),
    Literal(Seq<char>),
}

impl View for ParamValue {
    type V = ParamValueView;

    open spec fn view(&self) -> ParamValueView {
        match self {
            ParamValue::Text(t) => ParamValueView::Text(t@),
            ParamValue::Literal(l) => ParamValueView::Literal(l@),
        }
    }
}

/// The text a value is substituted as: a string as written, anything else as
/// its JSON literal (the number `1` gives `1`, not `"1"`).
pub open spec fn value_text(v: ParamValueView) -> Seq<char> {
    match v {
        ParamValueView::Text(t) => t,
        ParamValueView::Literal(l) => l,
    }
}

impl ParamValue {
    /// The text the value is substituted as.
    pub fn to_text(&self) -> (t: String)
        ensures
            t@ == value_text(self@),
    {
        match self {
            ParamValue::Text(t) => t.clone(),
            ParamValue::Literal(l) => l.clone(),
        }
    }

    /// A copy of the value.
    pub fn duplicate(&self) -> (r: ParamValue)
        ensures
            r@ == self@,
    {
        match self {
            ParamValue::Text(t) => ParamValue::Text(t.clone()),
            ParamValue::Literal(l) => ParamValue::Literal(l.clone()),
        }
    }
}

/// The defaults of a parameter list (a later definition of a name wins).
pub open spec fn defaults_of(inputs: Seq<PlanInput>) -> Map<Seq<char>, ParamValueView>
    decreases inputs.len(),
{
    if inputs.len() == 0 {
        Map::empty()
    } else {
        let rest = defaults_of(inputs.drop_last());
        match inputs.last().default {
            Some(d) => rest.insert(inputs.last().name@, d@),
            None => rest,
        }
    }
}

/// The substitution texts of a parameter map.
pub open spec fn texts_of(m: Map<Seq<char>, ParamValueView>) -> Map<Seq<char>, Seq<char>> {
    m.map_values(|v: ParamValueView| value_text(v))
}

/// The values of one run (parameter name to value).
#[derive(Debug)]
pub struct PlanRunParams {
    values: NamedMap<ParamValue>,
}

impl View for PlanRunParams {
    type V = Map<Seq<char>, ParamValueView>;

    closed spec fn view(&self) -> Map<Seq<char>, ParamValueView> {
        self.values@.map_values(|v: ParamValue| v@)
    }
}

impl PlanRunParams {
    /// An empty table.
    pub fn new() -> (p: Self)
        ensures
            p@ == Map::<Seq<char>, ParamValueView>::empty(),
    {
        let p = PlanRunParams { values: NamedMap::new() };
        proof {
            assert(p@ =~= Map::<Seq<char>, ParamValueView>::empty());
        }
        p
    }

    /// A table seeded with the template's `inputs[].default`.
    ///
    /// A parameter without a default is left out, so that its absence shows up
    /// when a step is expanded instead of being papered over with an empty text.
    pub fn from_template(template: &FlexiblePlanTemplate) -> (p: Self)
        ensures
            p@ == defaults_of(template.inputs@),
    {
        let mut p = PlanRunParams::new();
        let mut i: usize = 0;
        while i < template.inputs.len()
            invariant
                i <= template.inputs@.len(),
                p@ == defaults_of(template.inputs@.take(i as int)),
            decreases template.inputs@.len() - i,
        {
            proof {
                assert(template.inputs@.take(i + 1).drop_last() =~= template.inputs@.take(
                    i as int,
                ));
                assert(template.inputs@.take(i + 1).last() == template.inputs@[i as int]);
            }
            let input = &template.inputs[i];
            match &input.default {
                Some(d) => {
                    p.set(input.name.clone(), d.duplicate());
                },
                None => {},
            }
            i = i + 1;
        }
        proof {
            assert(template.inputs@.take(template.inputs@.len() as int) =~= template.inputs@);
        }
        p
    }

    /// Sets a value (overriding a default).
    pub fn set(&mut self, name: String, value: ParamValue)
        ensures
            final(self)@ == old(self)@.insert(name@, value@),
    {
        let ghost k = name@;
        let ghost v = value;
        self.values.insert(name, value);
        proof {
            assert(self@ =~= old(self)@.insert(k, v@));
        }
    }

    /// The value of a parameter.
    pub fn get(&self, name: &str) -> (r: Option<&ParamValue>)
        ensures
            match r {
                Some(v) => self@.contains_key(name@) && self@[name@] == v@,
                None => !self@.contains_key(name@),
            },
    {
        let key = name.to_owned();
        self.values.get(&key)
    }

    /// The substitution texts of the table.
    pub fn as_text_map(&self) -> (m: NamedMap<String>)
        ensures
            m@.map_values(|t: String| t@) == texts_of(self@),
    {
        let entries = self.values.entries();
        let mut out: NamedMap<String> = NamedMap::new();
        let mut i: usize = 0;
        while i < entries.len()
            invariant
                i <= entries@.len(),
                entries_map(entries@) == self.values@,
                out@.map_values(|t: String| t@) == entries_map(entries@.take(i as int)).map_values(
                    |v: ParamValue| value_text(v@),
                ),
            decreases entries@.len() - i,
        {
            proof {
                assert(entries@.take(i + 1).drop_last() =~= entries@.take(i as int));
                assert(entries@.take(i + 1).last() == entries@[i as int]);
            }
            let ghost before = out@;
            out.insert(entries[i].0.clone(), entries[i].1.to_text());
            proof {
                let e = entries@[i as int];
                lemma_map_values_insert(before, e.0@, out@[e.0@], |t: String| t@);
                lemma_map_values_insert(
                    entries_map(entries@.take(i as int)),
                    e.0@,
                    e.1,
                    |v: ParamValue| value_text(v@),
                );
            }
            i = i + 1;
        }
        proof {
            assert(entries@.take(entries@.len() as int) =~= entries@);
            assert(out@.map_values(|t: String| t@) =~= texts_of(self@));
        }
        out
    }

    /// Expands every `${name}` of a text with this table's values.
    ///
    /// Strict: a missing value or undefined placeholder is an error.
    pub fn render(&self, template: &str) -> (r: Result<String, String>)
        ensures
            match render_spec(template@, texts_of(self@)) {
                Ok(t) => r matches Ok(out) && out@ == t,
                Err(f) => r matches Err(e) && e@ == render_failure_text(template@, f),
            },
    {
        let texts = self.as_text_map();
        render(template, &texts)
    }
}

/// The error text of a failed step expansion.
pub open spec fn step_intent_failure(step: PlanStep, reason: Seq<char>) -> Seq<char> {
    "展开步骤 "@ + step.result_reference@ + " 的 intent 失败："@ + reason
}

/// Expands a step's `intent`.
///
/// A placeholder without a value, or not defined at all, is an error naming the
/// step's result reference and the placeholder.
pub fn render_step_intent(step: &PlanStep, params: &PlanRunParams) -> (r: Result<String, String>)
    ensures
        match render_spec(step.intent@, texts_of(params@)) {
            Ok(t) => r matches Ok(out) && out@ == t,
            Err(f) => r matches Err(e) && e@ == step_intent_failure(
                *step,
                render_failure_text(step.intent@, f),
            ),
        },
{
    match params.render(step.intent.as_str()) {
        Ok(text) => Ok(text),
        Err(reason) => {
            let mut e = "展开步骤 ".to_owned();
            e.append(step.result_reference.as_str());
            e.append(" 的 intent 失败：");
            e.append(reason.as_str());
            Err(e)
        },
    }
}

} // verus!
