//! Why every operation leaves the marketplace consistent.

use crate::counting::{
    indicator, lemma_count_le_len, lemma_count_none, lemma_count_push, lemma_count_remove,
    lemma_count_update_same, lemma_total_none, lemma_total_push, lemma_total_scaled,
    lemma_total_update,
};
use crate::model::{
    authored_by, bought_by, less_one, like_of, listing_valid, purchase_of, rating_of, stars_for,
    LikeView, RatingView, StoreView,
};
use crate::text::lemma_trimmed_len;
use crate::types::{CreatePromptRequest, UpdatePromptRequest};
use crate::types::{PromptId, PromptView, UserView};
use vstd::prelude::*;

verus! {

/// In a consistent marketplace a prompt is found by its id, at its place.
pub proof fn lemma_prompt_at(s: StoreView, i: int)
    requires
        s.prompts_in_order(),
        0 <= i < s.prompts.len(),
    ensures
        s.has_prompt(s.prompts[i].id),
        s.prompt_index(s.prompts[i].id) == i,
        s.prompt(s.prompts[i].id) == s.prompts[i],
{
    let j = s.prompt_index(s.prompts[i].id);
    assert(s.prompts[j].id == s.prompts[i].id);
}

/// In a consistent marketplace a user is found by their identity, at
/// their place.
pub proof fn lemma_user_at(s: StoreView, j: int)
    requires
        s.users_distinct(),
        0 <= j < s.users.len(),
    ensures
        s.has_user(s.users[j].id),
        s.user_index(s.users[j].id) == j,
        s.user(s.users[j].id) == s.users[j],
{
    let k = s.user_index(s.users[j].id);
    assert(s.users[k].id == s.users[j].id);
}

/// In a consistent marketplace a rating is found by its caller and
/// prompt, at its place.
pub proof fn lemma_rating_at(s: StoreView, k: int)
    requires
        s.ratings_sound(),
        0 <= k < s.ratings.len(),
    ensures
        s.has_rated(s.ratings[k].user, s.ratings[k].prompt_id),
        s.rating_index(s.ratings[k].user, s.ratings[k].prompt_id) == k,
        s.rating_by(s.ratings[k].user, s.ratings[k].prompt_id) == Some(s.ratings[k].value),
{
    let m = s.rating_index(s.ratings[k].user, s.ratings[k].prompt_id);
    assert(s.ratings[m].user == s.ratings[k].user && s.ratings[m].prompt_id
        == s.ratings[k].prompt_id);
}

/// Replacing the prompt of an id changes the record at its place alone.
pub proof fn lemma_with_prompt(s: StoreView, i: int, p: PromptView)
    requires
        s.prompts_in_order(),
        0 <= i < s.prompts.len(),
        p.id == s.prompts[i].id,
    ensures
        s.with_prompt(p).prompts == s.prompts.update(i, p),
{
    assert(s.with_prompt(p).prompts =~= s.prompts.update(i, p));
}

/// What is on record for a prompt is at most what is on record at all, and
/// the sum of its ratings fits their number.
pub proof fn lemma_tally_bounds(s: StoreView, i: int)
    requires
        s.wf(),
        0 <= i < s.prompts.len(),
    ensures
        s.prompts[i].likes <= s.likes.len(),
        s.prompts[i].purchases <= s.purchases.len(),
        s.prompts[i].total_ratings <= s.ratings.len(),
        s.prompts[i].rating_in_range(),
{
    let p = s.prompts[i];
    assert(s.tally_matches(p));
    lemma_count_le_len(s.likes, like_of(p.id));
    lemma_count_le_len(s.purchases, purchase_of(p.id));
    lemma_count_le_len(s.ratings, rating_of(p.id));
    assert forall|k: int| 0 <= k < s.ratings.len() implies stars_for(p.id)(
        #[trigger] s.ratings[k],
    ) <= 5 * indicator(rating_of(p.id))(s.ratings[k]) by {}
    lemma_total_scaled(s.ratings, stars_for(p.id), indicator(rating_of(p.id)), 5);
    assert forall|k: int| 0 <= k < s.ratings.len() implies indicator(rating_of(p.id))(
        #[trigger] s.ratings[k],
    ) <= 1 * stars_for(p.id)(s.ratings[k]) by {}
    lemma_total_scaled(s.ratings, indicator(rating_of(p.id)), stars_for(p.id), 1);
}

/// What is on record for a user is at most what is on record at all.
pub proof fn lemma_user_bounds(s: StoreView, j: int)
    requires
        s.wf(),
        0 <= j < s.users.len(),
    ensures
        s.users[j].prompts_created <= s.prompts.len(),
        s.users[j].prompts_purchased <= s.purchases.len(),
{
    let u = s.users[j];
    assert(s.user_counts_agree(u));
    lemma_count_le_len(s.prompts, authored_by(u.id));
    lemma_count_le_len(s.purchases, bought_by(u.id));
}

/// The prompt that a valid request asks for has its texts within their
/// bounds.
pub proof fn lemma_new_prompt_valid(
    request: CreatePromptRequest,
    id: PromptId,
    author: Seq<u8>,
    now: u64,
)
    requires
        request.input_error() is None,
    ensures
        listing_valid(request.new_prompt(id, author, now)),
{
    lemma_trimmed_len(request.title@);
}

/// A valid update leaves the texts of a prompt within their bounds.
pub proof fn lemma_applied_valid(request: UpdatePromptRequest, p: PromptView, now: u64)
    requires
        request.input_error() is None,
        listing_valid(p),
    ensures
        listing_valid(request.applied_to(p, now)),
{
    if let Some(title) = request.title {
        lemma_trimmed_len(title@);
    }
}

/// Registering a new user keeps the marketplace consistent.
pub proof fn lemma_registered_wf(s: StoreView, u: UserView)
    requires
        s.wf(),
        !s.has_user(u.id),
        u.prompts_created == 0,
        u.prompts_purchased == 0,
    ensures
        s.registered(u).wf(),
{
    let t = s.registered(u);
    assert forall|i: int| 0 <= i < t.prompts.len() implies t.has_user(
        (#[trigger] t.prompts[i]).author,
    ) by {
        assert(s.has_user(s.prompts[i].author));
        let j = s.user_index(s.prompts[i].author);
        assert(t.users[j].id == s.prompts[i].author);
    }
    assert forall|i: int| 0 <= i < s.prompts.len() implies !authored_by(u.id)(
        #[trigger] s.prompts[i],
    ) by {
        assert(s.has_user(s.prompts[i].author));
    }
    lemma_count_none(s.prompts, authored_by(u.id));
    assert forall|j: int| 0 <= j < t.users.len() implies t.user_counts_agree(
        #[trigger] t.users[j],
    ) by {
        if j < s.users.len() {
            assert(s.user_counts_agree(s.users[j]));
        }
    }
    assert forall|i: int| 0 <= i < t.prompts.len() implies t.tally_matches(
        #[trigger] t.prompts[i],
    ) by {
        assert(s.tally_matches(s.prompts[i]));
    }
}

/// Creating a prompt keeps the marketplace consistent.
pub proof fn lemma_created_wf(s: StoreView, p: PromptView)
    requires
        s.wf(),
        s.has_user(p.author),
        p.id == s.next_prompt_id,
        listing_valid(p),
        p.likes == 0,
        p.purchases == 0,
        p.total_ratings == 0,
        p.rating_sum == 0,
    ensures
        s.created(p).wf(),
{
    let t = s.created(p);
    assert(t.users.len() == s.users.len());
    assert forall|i: int| 0 <= i < t.prompts.len() implies t.has_user(
        (#[trigger] t.prompts[i]).author,
    ) by {
        let a = t.prompts[i].author;
        if i < s.prompts.len() {
            assert(s.has_user(s.prompts[i].author));
        }
        let j = s.user_index(a);
        assert(t.users[j].id == a);
    }
    assert forall|j: int| 0 <= j < t.users.len() implies t.user_counts_agree(
        #[trigger] t.users[j],
    ) by {
        assert(s.user_counts_agree(s.users[j]));
        lemma_count_push(s.prompts, p, authored_by(s.users[j].id));
    }
    assert forall|i: int| 0 <= i < t.prompts.len() implies t.tally_matches(
        #[trigger] t.prompts[i],
    ) by {
        if i < s.prompts.len() {
            assert(s.tally_matches(s.prompts[i]));
        } else {
            lemma_count_none(s.likes, like_of(p.id));
            lemma_count_none(s.purchases, purchase_of(p.id));
            lemma_count_none(s.ratings, rating_of(p.id));
            lemma_total_none(s.ratings, stars_for(p.id));
        }
    }
}

/// Replacing a prompt by one with the same id, author and counters keeps
/// the marketplace consistent.
pub proof fn lemma_with_prompt_wf(s: StoreView, p: PromptView)
    requires
        s.wf(),
        s.has_prompt(p.id),
        listing_valid(p),
        p.author == s.prompt(p.id).author,
        p.likes == s.prompt(p.id).likes,
        p.purchases == s.prompt(p.id).purchases,
        p.total_ratings == s.prompt(p.id).total_ratings,
        p.rating_sum == s.prompt(p.id).rating_sum,
    ensures
        s.with_prompt(p).wf(),
{
    let t = s.with_prompt(p);
    let i = s.prompt_index(p.id);
    lemma_with_prompt(s, i, p);
    assert forall|m: int| 0 <= m < t.prompts.len() implies t.has_user(
        (#[trigger] t.prompts[m]).author,
    ) by {
        assert(s.has_user(s.prompts[m].author));
    }
    assert forall|j: int| 0 <= j < t.users.len() implies t.user_counts_agree(
        #[trigger] t.users[j],
    ) by {
        assert(s.user_counts_agree(s.users[j]));
        lemma_count_update_same(s.prompts, i, p, authored_by(s.users[j].id));
    }
    assert forall|m: int| 0 <= m < t.prompts.len() implies t.tally_matches(
        #[trigger] t.prompts[m],
    ) by {
        assert(s.tally_matches(s.prompts[m]));
    }
}

/// Deleting a prompt keeps the marketplace consistent.
pub proof fn lemma_deleted_wf(s: StoreView, id: PromptId)
    requires
        s.wf(),
        s.has_prompt(id),
    ensures
        s.deleted(id).wf(),
{
    let t = s.deleted(id);
    let i = s.prompt_index(id);
    let author = s.prompts[i].author;
    assert(t.users.len() == s.users.len());
    assert forall|m: int| 0 <= m < t.prompts.len() implies t.has_user(
        (#[trigger] t.prompts[m]).author,
    ) by {
        let m0 = if m < i {
            m
        } else {
            m + 1
        };
        assert(t.prompts[m] == s.prompts[m0]);
        assert(s.has_user(s.prompts[m0].author));
        let j = s.user_index(s.prompts[m0].author);
        assert(t.users[j].id == s.prompts[m0].author);
    }
    assert forall|j: int| 0 <= j < t.users.len() implies t.user_counts_agree(
        #[trigger] t.users[j],
    ) by {
        assert(s.user_counts_agree(s.users[j]));
        lemma_count_remove(s.prompts, i, authored_by(s.users[j].id));
    }
    assert forall|m: int| 0 <= m < t.prompts.len() implies t.tally_matches(
        #[trigger] t.prompts[m],
    ) by {
        let m0 = if m < i {
            m
        } else {
            m + 1
        };
        assert(t.prompts[m] == s.prompts[m0]);
        assert(s.tally_matches(s.prompts[m0]));
    }
    assert(t.prompts_in_order()) by {
        assert forall|a: int, b: int| 0 <= a < b < t.prompts.len() implies (
        #[trigger] t.prompts[a]).id < (#[trigger] t.prompts[b]).id by {
            let a0 = if a < i {
                a
            } else {
                a + 1
            };
            let b0 = if b < i {
                b
            } else {
                b + 1
            };
            assert(s.prompts[a0].id < s.prompts[b0].id);
        }
        assert forall|a: int| 0 <= a < t.prompts.len() implies (#[trigger] t.prompts[a]).id
            < t.next_prompt_id by {
            let a0 = if a < i {
                a
            } else {
                a + 1
            };
            assert(s.prompts[a0].id < s.next_prompt_id);
        }
    }
}

/// A purchase keeps the marketplace consistent.
pub proof fn lemma_purchased_wf(s: StoreView, who: Seq<u8>, id: PromptId, now: u64)
    requires
        s.wf(),
        s.purchase_error(who, id) is None,
    ensures
        s.purchased(who, id, now).wf(),
{
    let t = s.purchased(who, id, now);
    let i = s.prompt_index(id);
    let p = s.prompts[i];
    let fact = s.purchase_fact(who, id, now);
    lemma_with_prompt(s, i, PromptView { purchases: p.purchases + 1, ..p });
    assert(t.users.len() == s.users.len());
    assert forall|m: int| 0 <= m < t.prompts.len() implies t.has_user(
        (#[trigger] t.prompts[m]).author,
    ) by {
        assert(s.has_user(s.prompts[m].author));
        let j = s.user_index(s.prompts[m].author);
        assert(t.users[j].id == s.prompts[m].author);
    }
    assert forall|j: int| 0 <= j < t.users.len() implies t.user_counts_agree(
        #[trigger] t.users[j],
    ) by {
        assert(s.user_counts_agree(s.users[j]));
        lemma_count_update_same(
            s.prompts,
            i,
            PromptView { purchases: p.purchases + 1, ..p },
            authored_by(s.users[j].id),
        );
        lemma_count_push(s.purchases, fact, bought_by(s.users[j].id));
    }
    assert forall|m: int| 0 <= m < t.prompts.len() implies t.tally_matches(
        #[trigger] t.prompts[m],
    ) by {
        assert(s.tally_matches(s.prompts[m]));
        lemma_count_push(s.purchases, fact, purchase_of(s.prompts[m].id));
    }
    assert(t.purchases_sound()) by {
        assert forall|a: int, b: int| 0 <= a < b < t.purchases.len() implies !((
        #[trigger] t.purchases[a]).buyer == (#[trigger] t.purchases[b]).buyer
            && t.purchases[a].prompt_id == t.purchases[b].prompt_id) by {
            if b < s.purchases.len() {
                assert(!(s.purchases[a].buyer == s.purchases[b].buyer && s.purchases[a].prompt_id
                    == s.purchases[b].prompt_id));
            } else {
                assert(!(s.purchases[a].buyer == who && s.purchases[a].prompt_id == id));
            }
        }
    }
}

/// A like keeps the marketplace consistent.
pub proof fn lemma_liked_wf(s: StoreView, who: Seq<u8>, id: PromptId)
    requires
        s.wf(),
        s.like_error(who, id) is None,
    ensures
        s.liked(who, id).wf(),
{
    let t = s.liked(who, id);
    let i = s.prompt_index(id);
    let p = s.prompts[i];
    let like = LikeView { user: who, prompt_id: id };
    lemma_with_prompt(s, i, PromptView { likes: p.likes + 1, ..p });
    assert forall|m: int| 0 <= m < t.prompts.len() implies t.has_user(
        (#[trigger] t.prompts[m]).author,
    ) by {
        assert(s.has_user(s.prompts[m].author));
    }
    assert forall|j: int| 0 <= j < t.users.len() implies t.user_counts_agree(
        #[trigger] t.users[j],
    ) by {
        assert(s.user_counts_agree(s.users[j]));
        lemma_count_update_same(
            s.prompts,
            i,
            PromptView { likes: p.likes + 1, ..p },
            authored_by(s.users[j].id),
        );
    }
    assert forall|m: int| 0 <= m < t.prompts.len() implies t.tally_matches(
        #[trigger] t.prompts[m],
    ) by {
        assert(s.tally_matches(s.prompts[m]));
        lemma_count_push(s.likes, like, like_of(s.prompts[m].id));
    }
    assert(t.likes.no_duplicates()) by {
        assert forall|a: int, b: int|
            0 <= a < t.likes.len() && 0 <= b < t.likes.len() && a != b implies t.likes[a]
            != t.likes[b] by {
            if a < s.likes.len() && b < s.likes.len() {
                assert(s.likes[a] != s.likes[b]);
            } else if a < s.likes.len() {
                assert(s.likes.contains(s.likes[a]));
            } else {
                assert(s.likes.contains(s.likes[b]));
            }
        }
    }
}

/// Taking back a like keeps the marketplace consistent.
pub proof fn lemma_unliked_wf(s: StoreView, who: Seq<u8>, id: PromptId)
    requires
        s.wf(),
        s.unlike_error(who, id) is None,
    ensures
        s.unliked(who, id).wf(),
{
    let t = s.unliked(who, id);
    let i = s.prompt_index(id);
    let p = s.prompts[i];
    let like = LikeView { user: who, prompt_id: id };
    let k = s.likes.index_of(like);
    assert(s.likes[k] == like);
    assert(s.tally_matches(p));
    lemma_count_remove(s.likes, k, like_of(id));
    lemma_with_prompt(s, i, PromptView { likes: less_one(p.likes), ..p });
    assert forall|m: int| 0 <= m < t.prompts.len() implies t.has_user(
        (#[trigger] t.prompts[m]).author,
    ) by {
        assert(s.has_user(s.prompts[m].author));
    }
    assert forall|j: int| 0 <= j < t.users.len() implies t.user_counts_agree(
        #[trigger] t.users[j],
    ) by {
        assert(s.user_counts_agree(s.users[j]));
        lemma_count_update_same(
            s.prompts,
            i,
            PromptView { likes: less_one(p.likes), ..p },
            authored_by(s.users[j].id),
        );
    }
    assert forall|m: int| 0 <= m < t.prompts.len() implies t.tally_matches(
        #[trigger] t.prompts[m],
    ) by {
        assert(s.tally_matches(s.prompts[m]));
        lemma_count_remove(s.likes, k, like_of(s.prompts[m].id));
    }
    assert(t.likes_sound()) by {
        assert forall|a: int, b: int|
            0 <= a < t.likes.len() && 0 <= b < t.likes.len() && a != b implies t.likes[a]
            != t.likes[b] by {
            let a0 = if a < k {
                a
            } else {
                a + 1
            };
            let b0 = if b < k {
                b
            } else {
                b + 1
            };
            assert(s.likes[a0] != s.likes[b0]);
        }
        assert forall|a: int| 0 <= a < t.likes.len() implies (#[trigger] t.likes[a]).prompt_id
            < t.next_prompt_id by {
            let a0 = if a < k {
                a
            } else {
                a + 1
            };
            assert(s.likes[a0].prompt_id < s.next_prompt_id);
        }
    }
}

/// A repeated rating changes the record of the caller's earlier rating
/// alone.
pub proof fn lemma_rating_replaced(s: StoreView, who: Seq<u8>, id: PromptId, value: u8)
    requires
        s.ratings_sound(),
        s.has_rated(who, id),
    ensures
        s.rated(who, id, value).ratings == s.ratings.update(
            s.rating_index(who, id),
            RatingView { value, ..s.ratings[s.rating_index(who, id)] },
        ),
{
    let k = s.rating_index(who, id);
    assert forall|m: int| 0 <= m < s.ratings.len() && m != k implies !((
    #[trigger] s.ratings[m]).user == who && s.ratings[m].prompt_id == id) by {
        if m < k {
            assert(!(s.ratings[m].user == s.ratings[k].user && s.ratings[m].prompt_id
                == s.ratings[k].prompt_id));
        } else {
            assert(!(s.ratings[k].user == s.ratings[m].user && s.ratings[k].prompt_id
                == s.ratings[m].prompt_id));
        }
    }
    assert(s.rated(who, id, value).ratings =~= s.ratings.update(
        k,
        RatingView { value, ..s.ratings[k] },
    ));
}

/// A rating keeps the marketplace consistent.
pub proof fn lemma_rated_wf(s: StoreView, who: Seq<u8>, id: PromptId, value: u8)
    requires
        s.wf(),
        s.rate_error(who, id, value) is None,
    ensures
        s.rated(who, id, value).wf(),
{
    let t = s.rated(who, id, value);
    let i = s.prompt_index(id);
    let p = s.prompts[i];
    assert(s.tally_matches(p));
    assert(t.prompts.len() == s.prompts.len());
    match s.rating_by(who, id) {
        None => {
            let rating = RatingView { user: who, prompt_id: id, value };
            let q = PromptView {
                total_ratings: p.total_ratings + 1,
                rating_sum: p.rating_sum + value as nat,
                ..p
            };
            lemma_with_prompt(s, i, q);
            assert forall|j: int| 0 <= j < t.users.len() implies t.user_counts_agree(
                #[trigger] t.users[j],
            ) by {
                assert(s.user_counts_agree(s.users[j]));
                lemma_count_update_same(s.prompts, i, q, authored_by(s.users[j].id));
            }
            assert forall|m: int| 0 <= m < t.prompts.len() implies t.tally_matches(
                #[trigger] t.prompts[m],
            ) by {
                assert(s.tally_matches(s.prompts[m]));
                lemma_count_push(s.ratings, rating, rating_of(s.prompts[m].id));
                lemma_total_push(s.ratings, rating, stars_for(s.prompts[m].id));
            }
            assert forall|a: int, b: int| 0 <= a < b < t.ratings.len() implies !((
            #[trigger] t.ratings[a]).user == (#[trigger] t.ratings[b]).user
                && t.ratings[a].prompt_id == t.ratings[b].prompt_id) by {
                if b < s.ratings.len() {
                    assert(!(s.ratings[a].user == s.ratings[b].user && s.ratings[a].prompt_id
                        == s.ratings[b].prompt_id));
                } else {
                    assert(!(s.ratings[a].user == who && s.ratings[a].prompt_id == id));
                }
            }
        },
        Some(earlier) => {
            let k = s.rating_index(who, id);
            let old_rating = s.ratings[k];
            let rating = RatingView { value, ..old_rating };
            let q = PromptView { rating_sum: (p.rating_sum + value - earlier) as nat, ..p };
            lemma_with_prompt(s, i, q);
            lemma_rating_replaced(s, who, id, value);
            assert forall|j: int| 0 <= j < t.users.len() implies t.user_counts_agree(
                #[trigger] t.users[j],
            ) by {
                assert(s.user_counts_agree(s.users[j]));
                lemma_count_update_same(s.prompts, i, q, authored_by(s.users[j].id));
            }
            assert forall|m: int| 0 <= m < t.prompts.len() implies t.tally_matches(
                #[trigger] t.prompts[m],
            ) by {
                assert(s.tally_matches(s.prompts[m]));
                lemma_count_update_same(s.ratings, k, rating, rating_of(s.prompts[m].id));
                lemma_total_update(s.ratings, k, rating, stars_for(s.prompts[m].id));
            }
            assert forall|a: int, b: int| 0 <= a < b < t.ratings.len() implies !((
            #[trigger] t.ratings[a]).user == (#[trigger] t.ratings[b]).user
                && t.ratings[a].prompt_id == t.ratings[b].prompt_id) by {
                assert(!(s.ratings[a].user == s.ratings[b].user && s.ratings[a].prompt_id
                    == s.ratings[b].prompt_id));
            }
        },
    }
    assert forall|m: int| 0 <= m < t.prompts.len() implies t.has_user(
        (#[trigger] t.prompts[m]).author,
    ) by {
        assert(s.has_user(s.prompts[m].author));
    }
}

/// The empty marketplace is consistent.
pub proof fn lemma_empty_wf()
    ensures
        StoreView::empty().wf(),
{
}

} // verus!
