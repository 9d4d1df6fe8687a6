//! Search over prompts: which prompts a query finds, and how they are
//! ranked.

use crate::model::{is_ranking, ranks_before, search_hit, text_hit};
use crate::text::{folded, mentions_folded};
use crate::types::{Prompt, PromptCategory, PromptView};
use vstd::prelude::*;

verus! {

/// Whether a folded query stands in the title, the description or a tag of
/// a prompt.
pub fn has_text_hit(prompt: &Prompt, needle: &str) -> (r: bool)
    ensures
        r == text_hit(prompt@, needle@),
{
    if mentions_folded(prompt.title.as_str(), needle) {
        return true;
    }
    if mentions_folded(prompt.description.as_str(), needle) {
        return true;
    }
    let mut t: usize = 0;
    while t < prompt.tags.len()
        invariant
            t <= prompt.tags.len(),
            prompt@.tags.len() == prompt.tags.len(),
            forall|k: int|
                0 <= k < t ==> !crate::text::is_substring(
                    needle@,
                    folded(#[trigger] prompt@.tags[k]),
                ),
        decreases prompt.tags.len() - t,
    {
        assert(prompt@.tags[t as int] == prompt.tags[t as int]@);
        if mentions_folded(prompt.tags[t].as_str(), needle) {
            return true;
        }
        t = t + 1;
    }
    false
}

/// Whether search finds a prompt, for a query that is folded already and
/// the category asked for, if one is.
pub fn is_search_hit(prompt: &Prompt, needle: &str, category: Option<PromptCategory>) -> (r: bool)
    ensures
        r == (prompt@.is_public && (category is Some ==> prompt@.category == category->0)
            && text_hit(prompt@, needle@)),
{
    if !prompt.is_public {
        return false;
    }
    if let Some(wanted) = category {
        if prompt.category != wanted {
            return false;
        }
    }
    has_text_hit(prompt, needle)
}

/// Whether `a` stands before `b` in a ranking.
pub fn outranks(a: &Prompt, b: &Prompt) -> (r: bool)
    requires
        a@.rating_in_range(),
        b@.rating_in_range(),
    ensures
        r == ranks_before(a@, b@),
{
    let sa = a.score();
    let sb = b.score();
    sa > sb || (sa == sb && a.id < b.id)
}

/// The place at which `prompt` belongs in a ranking: behind every prompt
/// that stands before it.
pub fn insertion_point(found: &Vec<Prompt>, prompt: &Prompt) -> (pos: usize)
    requires
        prompt@.rating_in_range(),
        forall|k: int| 0 <= k < found.len() ==> (#[trigger] found[k])@.rating_in_range(),
    ensures
        pos <= found.len(),
        forall|k: int| 0 <= k < pos ==> ranks_before((#[trigger] found[k])@, prompt@),
        pos < found.len() ==> !ranks_before(found[pos as int]@, prompt@),
{
    let mut pos: usize = 0;
    while pos < found.len() && outranks(&found[pos], prompt)
        invariant
            pos <= found.len(),
            prompt@.rating_in_range(),
            forall|k: int| 0 <= k < found.len() ==> (#[trigger] found[k])@.rating_in_range(),
            forall|k: int| 0 <= k < pos ==> ranks_before((#[trigger] found[k])@, prompt@),
        decreases found.len() - pos,
    {
        pos = pos + 1;
    }
    pos
}

/// A ranking stays one when a prompt that search does not find is added
/// to the prompts searched.
pub proof fn lemma_ranking_miss(
    found: Seq<PromptView>,
    prompts: Seq<PromptView>,
    i: int,
    query: Seq<char>,
    category: Option<PromptCategory>,
)
    requires
        0 <= i < prompts.len(),
        is_ranking(found, prompts.take(i), query, category),
        !search_hit(prompts[i], query, category),
    ensures
        is_ranking(found, prompts.take(i + 1), query, category),
{
    let before = prompts.take(i);
    let after = prompts.take(i + 1);
    assert forall|k: int| 0 <= k < found.len() implies after.contains(#[trigger] found[k]) by {
        assert(before.contains(found[k]));
        let m = before.index_of(found[k]);
        assert(after[m] == found[k]);
    }
    assert forall|m: int| 0 <= m < after.len() && search_hit(#[trigger] after[m], query, category)
        implies found.contains(after[m]) by {
        assert(m < i);
        assert(before[m] == after[m]);
    }
}

/// A ranking stays one when a prompt that search finds is added to the
/// prompts searched and put in its place.
pub proof fn lemma_ranking_hit(
    found: Seq<PromptView>,
    prompts: Seq<PromptView>,
    i: int,
    pos: int,
    query: Seq<char>,
    category: Option<PromptCategory>,
)
    requires
        0 <= i < prompts.len(),
        forall|a: int, b: int|
            0 <= a < b < prompts.len() ==> (#[trigger] prompts[a]).id < (#[trigger] prompts[b]).id,
        is_ranking(found, prompts.take(i), query, category),
        search_hit(prompts[i], query, category),
        0 <= pos <= found.len(),
        forall|k: int| 0 <= k < pos ==> ranks_before(#[trigger] found[k], prompts[i]),
        pos < found.len() ==> !ranks_before(found[pos], prompts[i]),
    ensures
        is_ranking(found.insert(pos, prompts[i]), prompts.take(i + 1), query, category),
{
    let p = prompts[i];
    let before = prompts.take(i);
    let after = prompts.take(i + 1);
    let ranked = found.insert(pos, p);
    assert forall|k: int| 0 <= k < found.len() implies (#[trigger] found[k]).id < p.id by {
        assert(before.contains(found[k]));
        let m = before.index_of(found[k]);
        assert(prompts[m] == found[k]);
    }
    assert forall|k: int| pos <= k < found.len() implies ranks_before(p, #[trigger] found[k]) by {
        assert(found[pos].id < p.id);
        if pos < k {
            assert(ranks_before(found[pos], found[k]));
        }
    }
    assert forall|k: int| 0 <= k < ranked.len() implies after.contains(#[trigger] ranked[k])
        && search_hit(ranked[k], query, category) by {
        if k == pos {
            assert(after[i] == p);
        } else {
            let k0 = if k < pos {
                k
            } else {
                k - 1
            };
            assert(ranked[k] == found[k0]);
            assert(before.contains(found[k0]));
            let m = before.index_of(found[k0]);
            assert(after[m] == found[k0]);
        }
    }
    assert forall|m: int| 0 <= m < after.len() && search_hit(#[trigger] after[m], query, category)
        implies ranked.contains(after[m]) by {
        if m == i {
            assert(ranked[pos] == after[m]);
        } else {
            assert(before[m] == after[m]);
            assert(found.contains(before[m]));
            let k0 = found.index_of(before[m]);
            let k = if k0 < pos {
                k0
            } else {
                k0 + 1
            };
            assert(ranked[k] == after[m]);
        }
    }
    assert forall|a: int, b: int| 0 <= a < b < ranked.len() implies ranks_before(
        #[trigger] ranked[a],
        #[trigger] ranked[b],
    ) by {
        let a0 = if a < pos {
            a
        } else {
            a - 1
        };
        let b0 = if b < pos {
            b
        } else {
            b - 1
        };
        if a == pos {
            assert(ranked[b] == found[b0]);
        } else if b == pos {
            assert(ranked[a] == found[a0]);
        } else {
            assert(ranked[a] == found[a0]);
            assert(ranked[b] == found[b0]);
            assert(ranks_before(found[a0], found[b0]));
        }
    }
}

/// No two rankings of the same prompts differ: a ranking is determined by
/// the prompts, the query and the category.
pub proof fn lemma_ranking_unique(
    first: Seq<PromptView>,
    second: Seq<PromptView>,
    prompts: Seq<PromptView>,
    query: Seq<char>,
    category: Option<PromptCategory>,
)
    requires
        is_ranking(first, prompts, query, category),
        is_ranking(second, prompts, query, category),
    ensures
        first == second,
{
    lemma_ranking_prefix(first, second, prompts, query, category, first.len() as int);
    lemma_ranking_prefix(second, first, prompts, query, category, second.len() as int);
    assert(first =~= second);
}

/// Two rankings of the same prompts agree as far as the first of them
/// goes.
proof fn lemma_ranking_prefix(
    first: Seq<PromptView>,
    second: Seq<PromptView>,
    prompts: Seq<PromptView>,
    query: Seq<char>,
    category: Option<PromptCategory>,
    n: int,
)
    requires
        is_ranking(first, prompts, query, category),
        is_ranking(second, prompts, query, category),
        0 <= n <= first.len(),
    ensures
        n <= second.len(),
        forall|k: int| 0 <= k < n ==> first[k] == second[k],
    decreases n,
{
    if n > 0 {
        lemma_ranking_prefix(first, second, prompts, query, category, n - 1);
        let x = first[n - 1];
        // x is found, so it stands in the second ranking, at some place b
        assert(prompts.contains(x));
        let m = prompts.index_of(x);
        assert(search_hit(prompts[m], query, category));
        assert(second.contains(prompts[m]));
        let b = second.index_of(x);
        assert(second[b] == x);
        if b < n - 1 {
            // then x stands twice in the first ranking
            assert(first[b] == x);
            assert(ranks_before(first[b], first[n - 1]));
        } else if b > n - 1 {
            // then what stands at n - 1 in the second ranking stands in
            // the first one too, behind x, though it ranks before x
            let y = second[n - 1];
            assert(ranks_before(y, x));
            assert(prompts.contains(y));
            let my = prompts.index_of(y);
            assert(search_hit(prompts[my], query, category));
            assert(first.contains(prompts[my]));
            let a = first.index_of(y);
            assert(first[a] == y);
            if a < n - 1 {
                assert(second[a] == y);
                assert(ranks_before(second[a], second[n - 1]));
            } else if a > n - 1 {
                assert(ranks_before(first[n - 1], first[a]));
            }
        }
    }
}

} // verus!
