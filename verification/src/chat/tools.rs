//! Choosing the tools a conversation may use from an allow-list of tokens.
//!
//! A token is `all` (every tool but the `Utility` and `SubAgent` ones), a
//! category name (every tool of that category), or a tool name (that tool,
//! when it exists); the choice is the union over the tokens, in the order of
//! the enabled tools. Unknown tokens are ignored.

use vstd::prelude::*;

use crate::text::{contains_text, views};

verus! {

/// Name of the tool that asks the user for an action in the interface.
pub const UI_TOOL_NAME: &'static str = "request_user_action";

/// Whether token `t` picks the enabled tool `tool` (its name and its category
/// names), given the names of all known categories.
pub open spec fn selects(t: Seq<char>, tool: (String, Vec<String>), categories: Seq<String>) -> bool {
    if t == "all"@ {
        !views(tool.1@).contains("Utility"@) && !views(tool.1@).contains("SubAgent"@)
    } else if views(categories).contains(t) {
        views(tool.1@).contains(t)
    } else {
        tool.0@ == t
    }
}

/// Whether some token picks a tool named `name`.
pub open spec fn chosen(
    enabled: Seq<(String, Vec<String>)>,
    name: Seq<char>,
    tokens: Seq<String>,
    categories: Seq<String>,
) -> bool {
    exists|j: int, u: int|
        #![trigger tokens[j], enabled[u]]
        0 <= j < tokens.len() && 0 <= u < enabled.len() && enabled[u].0@ == name && selects(
            tokens[j]@,
            enabled[u],
            categories,
        )
}

/// Names of the first `n` enabled tools that some token picks, in order.
pub open spec fn chosen_names(
    enabled: Seq<(String, Vec<String>)>,
    n: int,
    tokens: Seq<String>,
    categories: Seq<String>,
) -> Seq<Seq<char>>
    decreases n,
{
    if n <= 0 {
        Seq::empty()
    } else {
        let rest = chosen_names(enabled, n - 1, tokens, categories);
        if chosen(enabled, enabled[n - 1].0@, tokens, categories) {
            rest.push(enabled[n - 1].0@)
        } else {
            rest
        }
    }
}

fn token_selects(token: &String, tool: &(String, Vec<String>), categories: &Vec<String>) -> (b: bool)
    ensures
        b == selects(token@, *tool, categories@),
{
    let all = "all".to_owned();
    if *token == all {
        let utility = "Utility".to_owned();
        let sub_agent = "SubAgent".to_owned();
        !contains_text(&tool.1, &utility) && !contains_text(&tool.1, &sub_agent)
    } else if contains_text(categories, token) {
        contains_text(&tool.1, token)
    } else {
        tool.0 == *token
    }
}

fn is_chosen(
    enabled: &Vec<(String, Vec<String>)>,
    name: &String,
    tokens: &Vec<String>,
    categories: &Vec<String>,
) -> (b: bool)
    ensures
        b == chosen(enabled@, name@, tokens@, categories@),
{
    let mut j: usize = 0;
    while j < tokens.len()
        invariant
            j <= tokens@.len(),
            forall|jj: int, u: int|
                #![trigger tokens@[jj], enabled@[u]]
                0 <= jj < j && 0 <= u < enabled@.len() ==> !(enabled@[u].0@ == name@ && selects(
                    tokens@[jj]@,
                    enabled@[u],
                    categories@,
                )),
        decreases tokens@.len() - j,
    {
        let mut u: usize = 0;
        while u < enabled.len()
            invariant
                j < tokens@.len(),
                u <= enabled@.len(),
                forall|jj: int, uu: int|
                    #![trigger tokens@[jj], enabled@[uu]]
                    0 <= jj < j && 0 <= uu < enabled@.len() ==> !(enabled@[uu].0@ == name@
                        && selects(tokens@[jj]@, enabled@[uu], categories@)),
                forall|uu: int|
                    0 <= uu < u ==> !(#[trigger] enabled@[uu].0@ == name@ && selects(
                        tokens@[j as int]@,
                        enabled@[uu],
                        categories@,
                    )),
            decreases enabled@.len() - u,
        {
            if enabled[u].0 == *name && token_selects(&tokens[j], &enabled[u], categories) {
                proof {
                    assert(tokens@[j as int] == tokens@[j as int]);
                    assert(enabled@[u as int] == enabled@[u as int]);
                }
                return true;
            }
            u = u + 1;
        }
        proof {
            assert forall|jj: int, uu: int|
                #![trigger tokens@[jj], enabled@[uu]]
                0 <= jj < j + 1 && 0 <= uu < enabled@.len() implies !(enabled@[uu].0@ == name@
                && selects(tokens@[jj]@, enabled@[uu], categories@)) by {
                if jj == j {
                    assert(!(enabled@[uu].0@ == name@ && selects(tokens@[j as int]@, enabled@[uu], categories@)));
                }
            }
        }
        j = j + 1;
    }
    false
}

/// Chooses the tools an allow-list admits: `enabled` holds each enabled tool's
/// name and category names, `categories` the names of all known categories.
/// Returns the chosen tools' names in the order of `enabled`.
pub fn select_tools_by_tokens(
    enabled: &Vec<(String, Vec<String>)>,
    tokens: &Vec<String>,
    categories: &Vec<String>,
) -> (names: Vec<String>)
    ensures
        views(names@) == chosen_names(enabled@, enabled@.len() as int, tokens@, categories@),
{
    let mut names: Vec<String> = Vec::new();
    let mut k: usize = 0;
    while k < enabled.len()
        invariant
            k <= enabled@.len(),
            views(names@) == chosen_names(enabled@, k as int, tokens@, categories@),
        decreases enabled@.len() - k,
    {
        if is_chosen(enabled, &enabled[k].0, tokens, categories) {
            let ghost before = names@;
            names.push(enabled[k].0.clone());
            proof {
                assert(views(names@) =~= views(before).push(enabled@[k as int].0@));
            }
        }
        k = k + 1;
    }
    names
}

} // verus!

verus! {

/// The tokens' choices add up: a tool is chosen by two token lists together
/// exactly when one of them chooses it.
pub proof fn lemma_chosen_union(
    enabled: Seq<(String, Vec<String>)>,
    name: Seq<char>,
    t1: Seq<String>,
    t2: Seq<String>,
    categories: Seq<String>,
)
    ensures
        chosen(enabled, name, t1 + t2, categories) == (chosen(enabled, name, t1, categories) || chosen(
            enabled,
            name,
            t2,
            categories,
        )),
{
    let t = t1 + t2;
    if chosen(enabled, name, t, categories) {
        let (j, u) = choose|j: int, u: int|
            #![trigger t[j], enabled[u]]
            0 <= j < t.len() && 0 <= u < enabled.len() && enabled[u].0@ == name && selects(
                t[j]@,
                enabled[u],
                categories,
            );
        if j < t1.len() {
            assert(t[j] == t1[j]);
            assert(t1[j] == t1[j] && enabled[u] == enabled[u]);
        } else {
            assert(t[j] == t2[j - t1.len()]);
            assert(t2[j - t1.len()] == t2[j - t1.len()] && enabled[u] == enabled[u]);
        }
    }
    if chosen(enabled, name, t1, categories) {
        let (j, u) = choose|j: int, u: int|
            #![trigger t1[j], enabled[u]]
            0 <= j < t1.len() && 0 <= u < enabled.len() && enabled[u].0@ == name && selects(
                t1[j]@,
                enabled[u],
                categories,
            );
        assert(t[j] == t1[j]);
    }
    if chosen(enabled, name, t2, categories) {
        let (j, u) = choose|j: int, u: int|
            #![trigger t2[j], enabled[u]]
            0 <= j < t2.len() && 0 <= u < enabled.len() && enabled[u].0@ == name && selects(
                t2[j]@,
                enabled[u],
                categories,
            );
        assert(t[t1.len() + j] == t2[j]);
    }
}

} // verus!
