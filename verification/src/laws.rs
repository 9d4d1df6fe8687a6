//! What holds of the marketplace across operations: laws that follow from
//! what the single operations promise, each proved here.

use crate::error::MarketError;
use crate::invariants::{
    lemma_created_wf, lemma_liked_wf, lemma_prompt_at, lemma_purchased_wf, lemma_rated_wf,
    lemma_rating_at, lemma_with_prompt,
};
use crate::model::{
    is_ranking, less_one, listing_valid, search_hit, LikeView, RatingView, StoreView,
};
use crate::text::{folded, lemma_empty_is_substring};
use crate::types::{PromptId, PromptView};
use crate::validation::rating_error;
use vstd::prelude::*;

verus! {

/// The sum of a list of ratings.
pub open spec fn sum_of(values: Seq<u8>) -> nat
    decreases values.len(),
{
    if values.len() == 0 {
        0
    } else {
        sum_of(values.drop_last()) + values.last() as nat
    }
}

/// The marketplace after each of `callers` has rated prompt `id`, each
/// with the value that stands at their place in `values`, one after the
/// other.
pub open spec fn rated_by_all(
    s: StoreView,
    id: PromptId,
    callers: Seq<Seq<u8>>,
    values: Seq<u8>,
) -> StoreView
    decreases callers.len(),
{
    if callers.len() == 0 || values.len() == 0 {
        s
    } else {
        rated_by_all(s, id, callers.drop_last(), values.drop_last()).rated(
            callers.last(),
            id,
            values.last(),
        )
    }
}

/// A prompt that was just created is on record as it was asked for, with
/// no rating: no ratings counted, and their sum and average at zero.
pub proof fn law_created_unrated(s: StoreView, p: PromptView)
    requires
        s.wf(),
        s.has_user(p.author),
        p.id == s.next_prompt_id,
        listing_valid(p),
        p.likes == 0 && p.purchases == 0 && p.total_ratings == 0 && p.rating_sum == 0,
    ensures
        s.created(p).wf(),
        s.created(p).has_prompt(p.id),
        s.created(p).prompt(p.id) == p,
        s.created(p).prompt(p.id).total_ratings == 0,
        s.created(p).prompt(p.id).rating_sum == 0,
        s.created(p).prompt(p.id).rating_tenths() == 0,
{
    lemma_created_wf(s, p);
    let t = s.created(p);
    assert(t.prompts[s.prompts.len() as int] == p);
    lemma_prompt_at(t, s.prompts.len() as int);
}

/// What one rating does to the prompt and to the record of ratings, and
/// what it leaves alone.
pub proof fn lemma_rated_effect(s: StoreView, who: Seq<u8>, id: PromptId, value: u8)
    requires
        s.wf(),
        s.rate_error(who, id, value) is None,
    ensures
        s.rated(who, id, value).wf(),
        s.rated(who, id, value).has_prompt(id),
        s.rated(who, id, value).purchases == s.purchases,
        s.rated(who, id, value).rating_by(who, id) == Some(value),
        forall|other: Seq<u8>|
            other != who ==> (#[trigger] s.rated(who, id, value).has_rated(other, id))
                == s.has_rated(other, id),
        ({
            let p = s.prompt(id);
            let q = s.rated(who, id, value).prompt(id);
            match s.rating_by(who, id) {
                None => q == PromptView {
                    total_ratings: p.total_ratings + 1,
                    rating_sum: p.rating_sum + value as nat,
                    ..p
                },
                Some(earlier) => q.rating_sum + earlier == p.rating_sum + value && q
                    == PromptView { rating_sum: q.rating_sum, ..p },
            }
        }),
{
    lemma_rated_wf(s, who, id, value);
    let t = s.rated(who, id, value);
    let i = s.prompt_index(id);
    let p = s.prompts[i];
    assert(s.tally_matches(p));
    match s.rating_by(who, id) {
        None => {
            let q = PromptView {
                total_ratings: p.total_ratings + 1,
                rating_sum: p.rating_sum + value as nat,
                ..p
            };
            lemma_with_prompt(s, i, q);
            assert(t.prompts[i] == q);
            lemma_prompt_at(t, i);
            let last = s.ratings.len() as int;
            assert(t.ratings[last] == RatingView { user: who, prompt_id: id, value });
            lemma_rating_at(t, last);
            assert forall|other: Seq<u8>| other != who implies (#[trigger] t.has_rated(other, id))
                == s.has_rated(other, id) by {
                if s.has_rated(other, id) {
                    let k = s.rating_index(other, id);
                    assert(t.ratings[k].user == other && t.ratings[k].prompt_id == id);
                }
                if t.has_rated(other, id) {
                    let k = t.rating_index(other, id);
                    assert(s.ratings[k].user == other && s.ratings[k].prompt_id == id);
                }
            }
        },
        Some(earlier) => {
            let k = s.rating_index(who, id);
            let q = PromptView { rating_sum: (p.rating_sum + value - earlier) as nat, ..p };
            crate::counting::lemma_total_remove(s.ratings, k, crate::model::stars_for(id));
            lemma_with_prompt(s, i, q);
            assert(t.prompts[i] == q);
            lemma_prompt_at(t, i);
            assert(t.ratings[k] == RatingView { value, ..s.ratings[k] });
            lemma_rating_at(t, k);
            assert forall|other: Seq<u8>| other != who implies (#[trigger] t.has_rated(other, id))
                == s.has_rated(other, id) by {
                if s.has_rated(other, id) {
                    let m = s.rating_index(other, id);
                    assert(t.ratings[m].user == other && t.ratings[m].prompt_id == id);
                }
                if t.has_rated(other, id) {
                    let m = t.rating_index(other, id);
                    assert(s.ratings[m].user == other && s.ratings[m].prompt_id == id);
                }
            }
        },
    }
}

/// After callers who had not rated a prompt before have rated it, one
/// after the other and no one twice, the prompt counts as many ratings
/// more as there were callers, and the sum of its ratings has grown by the
/// sum of their values. So the average of a prompt that had no rating
/// before is the exact mean of the values.
pub proof fn law_ratings_add_up(
    s: StoreView,
    id: PromptId,
    callers: Seq<Seq<u8>>,
    values: Seq<u8>,
)
    requires
        s.wf(),
        callers.len() == values.len(),
        callers.no_duplicates(),
        forall|k: int|
            0 <= k < callers.len() ==> s.rate_error(#[trigger] callers[k], id, values[k]) is None
                && !s.has_rated(callers[k], id),
        s.has_prompt(id),
    ensures
        rated_by_all(s, id, callers, values).wf(),
        rated_by_all(s, id, callers, values).has_prompt(id),
        rated_by_all(s, id, callers, values).prompt(id).total_ratings == s.prompt(id).total_ratings
            + callers.len(),
        rated_by_all(s, id, callers, values).prompt(id).rating_sum == s.prompt(id).rating_sum
            + sum_of(values),
        rated_by_all(s, id, callers, values).prompt(id) == (PromptView {
            total_ratings: s.prompt(id).total_ratings + callers.len(),
            rating_sum: s.prompt(id).rating_sum + sum_of(values),
            ..s.prompt(id)
        }),
        rated_by_all(s, id, callers, values).purchases == s.purchases,
        forall|other: Seq<u8>|
            !callers.contains(other) ==> (#[trigger] rated_by_all(s, id, callers, values).has_rated(
                other,
                id,
            )) == s.has_rated(other, id),
    decreases callers.len(),
{
    if callers.len() > 0 {
        let front = callers.drop_last();
        let front_values = values.drop_last();
        let who = callers.last();
        let value = values.last();
        assert forall|k: int| 0 <= k < front.len() implies s.rate_error(
            #[trigger] front[k],
            id,
            front_values[k],
        ) is None && !s.has_rated(front[k], id) by {
            assert(front[k] == callers[k]);
        }
        law_ratings_add_up(s, id, front, front_values);
        let t = rated_by_all(s, id, front, front_values);
        assert(who == callers[callers.len() - 1]);
        assert(!front.contains(who)) by {
            if front.contains(who) {
                let k = front.index_of(who);
                assert(callers[k] == callers[callers.len() - 1]);
            }
        }
        assert(!t.has_rated(who, id));
        assert(t.has_purchased(who, id) == s.has_purchased(who, id));
        assert(t.rate_error(who, id, value) is None);
        lemma_rated_effect(t, who, id, value);
        let u = t.rated(who, id, value);
        assert forall|other: Seq<u8>| !callers.contains(other) implies (#[trigger] u.has_rated(
            other,
            id,
        )) == s.has_rated(other, id) by {
            assert(other != who);
            assert(!front.contains(other)) by {
                if front.contains(other) {
                    let k = front.index_of(other);
                    assert(callers[k] == other);
                }
            }
            assert(u.has_rated(other, id) == t.has_rated(other, id));
        }
    }
}

/// A caller who rates a prompt again replaces their earlier rating: the
/// number of ratings stays, the sum changes by the difference of the two
/// values, and the caller's rating on record is the later one.
pub proof fn law_rerating_replaces(
    s: StoreView,
    who: Seq<u8>,
    id: PromptId,
    first: u8,
    second: u8,
)
    requires
        s.wf(),
        s.rate_error(who, id, first) is None,
        rating_error(second) is None,
    ensures
        s.rated(who, id, first).rate_error(who, id, second) is None,
        ({
            let once = s.rated(who, id, first);
            let twice = once.rated(who, id, second);
            &&& twice.wf()
            &&& twice.prompt(id).total_ratings == once.prompt(id).total_ratings
            &&& twice.prompt(id).rating_sum + first == once.prompt(id).rating_sum + second
            &&& twice.rating_by(who, id) == Some(second)
            &&& twice.ratings.len() == once.ratings.len()
        }),
{
    lemma_rated_effect(s, who, id, first);
    let once = s.rated(who, id, first);
    assert(once.has_purchased(who, id) == s.has_purchased(who, id));
    assert(once.rate_error(who, id, second) is None);
    lemma_rated_effect(once, who, id, second);
}

/// A purchase cannot be repeated: after it the same caller is refused the
/// same prompt as bought already. The one purchase is logged once, and the
/// prompt counts one purchase more.
pub proof fn law_purchase_once(s: StoreView, who: Seq<u8>, id: PromptId, now: u64)
    requires
        s.wf(),
        s.purchase_error(who, id) is None,
    ensures
        s.purchased(who, id, now).wf(),
        s.purchased(who, id, now).purchase_error(who, id) == Some(MarketError::AlreadyPurchased),
        s.purchased(who, id, now).has_purchased(who, id),
        s.purchased(who, id, now).purchases.len() == s.purchases.len() + 1,
        s.purchased(who, id, now).prompt(id).purchases == s.prompt(id).purchases + 1,
        s.has_user(who) ==> s.purchased(who, id, now).has_user(who) && s.purchased(
            who,
            id,
            now,
        ).user(who).prompts_purchased == s.user(who).prompts_purchased + 1 && s.purchased(
            who,
            id,
            now,
        ).user(who).total_spent == s.user(who).total_spent + s.prompt(id).price,
{
    lemma_purchased_wf(s, who, id, now);
    let t = s.purchased(who, id, now);
    let i = s.prompt_index(id);
    let p = s.prompts[i];
    let q = PromptView { purchases: p.purchases + 1, ..p };
    lemma_with_prompt(s, i, q);
    assert(t.prompts[i] == q);
    lemma_prompt_at(t, i);
    let last = s.purchases.len() as int;
    assert(t.purchases[last].buyer == who && t.purchases[last].prompt_id == id);
    if s.has_user(who) {
        let j = s.user_index(who);
        assert(t.users[j].id == who);
        crate::invariants::lemma_user_at(t, j);
    }
}

/// No ledger falls by a purchase: every user has earned and spent at
/// least what they had before, and the seller has earned the price more.
pub proof fn law_purchase_raises_ledgers(s: StoreView, who: Seq<u8>, id: PromptId, now: u64)
    requires
        s.wf(),
        s.purchase_error(who, id) is None,
    ensures
        s.purchased(who, id, now).users.len() == s.users.len(),
        forall|j: int|
            0 <= j < s.users.len() ==> {
                let before = s.users[j];
                let after = #[trigger] s.purchased(who, id, now).users[j];
                &&& after.id == before.id
                &&& after.total_earnings >= before.total_earnings
                &&& after.total_spent >= before.total_spent
                &&& after.prompts_purchased >= before.prompts_purchased
                &&& after.prompts_created == before.prompts_created
            },
        s.purchased(who, id, now).has_user(s.prompt(id).author),
        s.purchased(who, id, now).user(s.prompt(id).author).total_earnings == s.user(
            s.prompt(id).author,
        ).total_earnings + s.prompt(id).price,
{
    lemma_purchased_wf(s, who, id, now);
    let t = s.purchased(who, id, now);
    let author = s.prompt(id).author;
    assert(s.has_user(s.prompts[s.prompt_index(id)].author));
    let j = s.user_index(author);
    assert(t.users[j].id == author);
    crate::invariants::lemma_user_at(t, j);
}

/// A like that is taken back leaves the marketplace as it was before the
/// like; so the prompt has as many likes as before.
pub proof fn law_like_then_unlike(s: StoreView, who: Seq<u8>, id: PromptId)
    requires
        s.wf(),
        s.like_error(who, id) is None,
    ensures
        s.liked(who, id).unlike_error(who, id) is None,
        s.liked(who, id).unliked(who, id) == s,
        s.liked(who, id).unliked(who, id).prompt(id).likes == s.prompt(id).likes,
{
    lemma_liked_wf(s, who, id);
    let t = s.liked(who, id);
    let like = LikeView { user: who, prompt_id: id };
    let i = s.prompt_index(id);
    let p = s.prompts[i];
    let q = PromptView { likes: p.likes + 1, ..p };
    lemma_with_prompt(s, i, q);
    assert(t.prompts[i] == q);
    lemma_prompt_at(t, i);
    let last = s.likes.len() as int;
    assert(t.likes[last] == like);
    assert(t.likes.contains(like));
    let k = t.likes.index_of(like);
    assert(t.likes[k] == like);
    assert(k == last) by {
        if k != last {
            assert(t.likes[k] != t.likes[last]);
        }
    }
    let u = t.unliked(who, id);
    assert(less_one(q.likes) == p.likes);
    assert(PromptView { likes: less_one(q.likes), ..q } == p);
    lemma_with_prompt(t, i, p);
    assert(u.likes =~= s.likes);
    assert(u.prompts =~= s.prompts);
}

/// A like that was not given cannot be taken back.
pub proof fn law_unlike_needs_like(s: StoreView, who: Seq<u8>, id: PromptId)
    requires
        s.has_prompt(id),
        !s.has_liked(who, id),
    ensures
        s.unlike_error(who, id) == Some(MarketError::NotLiked),
{
}

/// Nobody but the author can delete or change a prompt.
pub proof fn law_only_author_modifies(s: StoreView, who: Seq<u8>, id: PromptId)
    requires
        s.has_prompt(id),
        s.prompt(id).author != who,
    ensures
        s.modify_error(who, id) == Some(MarketError::Unauthorized),
{
}

/// The empty query, with no category asked for, finds exactly the public
/// prompts.
pub proof fn law_empty_query_finds_public(p: PromptView)
    ensures
        search_hit(p, Seq::<char>::empty(), None) == p.is_public,
{
    assert(folded(Seq::<char>::empty()) == Seq::<char>::empty());
    lemma_empty_is_substring(folded(p.title));
}

/// A ranking for the empty query, with no category asked for, holds every
/// public prompt and nothing else, best first.
pub proof fn law_empty_search_lists_public(found: Seq<PromptView>, prompts: Seq<PromptView>)
    requires
        is_ranking(found, prompts, Seq::<char>::empty(), None),
    ensures
        forall|i: int|
            0 <= i < prompts.len() && (#[trigger] prompts[i]).is_public ==> found.contains(
                prompts[i],
            ),
        forall|k: int|
            0 <= k < found.len() ==> (#[trigger] found[k]).is_public && prompts.contains(found[k]),
        forall|a: int, b: int|
            0 <= a < b < found.len() ==> (#[trigger] found[a]).score() >= (
            #[trigger] found[b]).score(),
{
    assert forall|i: int|
        0 <= i < prompts.len() && (#[trigger] prompts[i]).is_public implies found.contains(
        prompts[i],
    ) by {
        law_empty_query_finds_public(prompts[i]);
    }
    assert forall|k: int| 0 <= k < found.len() implies (#[trigger] found[k]).is_public
        && prompts.contains(found[k]) by {
        law_empty_query_finds_public(found[k]);
    }
    assert forall|a: int, b: int| 0 <= a < b < found.len() implies (#[trigger] found[a]).score()
        >= (#[trigger] found[b]).score() by {
        assert(crate::model::ranks_before(found[a], found[b]));
    }
}

} // verus!
