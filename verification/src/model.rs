//! The marketplace as a mathematical state: what it holds, when it is
//! consistent, who may do what, and what each operation makes of it.

use crate::counting::{count, total};
use crate::error::MarketError;
use crate::text::{folded, is_substring, trimmed};
use crate::types::{
    text_views, CreatePromptRequest, PromptCategory, PromptId, PromptView,
    PurchaseView, UpdatePromptRequest, UserView,
};
use crate::validation::{
    content_error, description_error, rating_error, tags_error, username_error, MAX_TITLE_LENGTH,
};
use vstd::prelude::*;

verus! {

/// The fact that a caller likes a prompt.
pub struct LikeView {
    pub user: Seq<u8>,
    pub prompt_id: PromptId,
}

/// The rating that a caller last gave to a prompt.
pub struct RatingView {
    pub user: Seq<u8>,
    pub prompt_id: PromptId,
    pub value: u8,
}

/// All that the marketplace holds. Prompts stand in the order of their
/// creation, users in the order of their registration; purchases, likes
/// and ratings in the order in which they were recorded.
pub struct StoreView {
    pub prompts: Seq<PromptView>,
    pub users: Seq<UserView>,
    pub purchases: Seq<PurchaseView>,
    pub likes: Seq<LikeView>,
    pub ratings: Seq<RatingView>,
    pub next_prompt_id: nat,
}

/// Holds of the prompts that `who` wrote.
pub open spec fn authored_by(who: Seq<u8>) -> spec_fn(PromptView) -> bool {
    |p: PromptView| p.author == who
}

/// Holds of the likes given to prompt `id`.
pub open spec fn like_of(id: PromptId) -> spec_fn(LikeView) -> bool {
    |l: LikeView| l.prompt_id == id
}

/// Holds of the purchases of prompt `id`.
pub open spec fn purchase_of(id: PromptId) -> spec_fn(PurchaseView) -> bool {
    |f: PurchaseView| f.prompt_id == id
}

/// Holds of the purchases that `who` made.
pub open spec fn bought_by(who: Seq<u8>) -> spec_fn(PurchaseView) -> bool {
    |f: PurchaseView| f.buyer == who
}

/// Holds of the ratings given to prompt `id`.
pub open spec fn rating_of(id: PromptId) -> spec_fn(RatingView) -> bool {
    |r: RatingView| r.prompt_id == id
}

/// The stars that a rating gives to prompt `id`: none if it rates another.
pub open spec fn stars_for(id: PromptId) -> spec_fn(RatingView) -> nat {
    |r: RatingView|
        if r.prompt_id == id {
            r.value as nat
        } else {
            0nat
        }
}

/// One less, but never less than zero.
pub open spec fn less_one(n: nat) -> nat {
    if n > 0 {
        (n - 1) as nat
    } else {
        0
    }
}

/// Whether the texts of a prompt are as every prompt on record has them:
/// a title that is not empty, and title, description, content and tags
/// within their bounds.
pub open spec fn listing_valid(p: PromptView) -> bool {
    &&& 0 < p.title.len() <= MAX_TITLE_LENGTH
    &&& description_error(p.description) is None
    &&& content_error(p.content) is None
    &&& tags_error(p.tags) is None
}

/// The record of a user who registers now.
pub open spec fn new_user(
    who: Seq<u8>,
    username: Option<Seq<char>>,
    email: Option<Seq<char>>,
    now: u64,
) -> UserView {
    UserView {
        id: who,
        username,
        email,
        joined_at: now,
        total_earnings: 0,
        total_spent: 0,
        prompts_created: 0,
        prompts_purchased: 0,
    }
}

impl CreatePromptRequest {
    /// The prompt that this request asks for: the title trimmed, the
    /// counters at zero and no rating yet.
    pub open spec fn new_prompt(&self, id: PromptId, author: Seq<u8>, now: u64) -> PromptView {
        PromptView {
            id,
            title: trimmed(self.title@),
            description: self.description@,
            content: self.content@,
            author,
            category: self.category,
            tags: text_views(self.tags@),
            price: self.price,
            is_premium: self.is_premium,
            is_public: self.is_public,
            created_at: now,
            updated_at: now,
            likes: 0,
            purchases: 0,
            rating_sum: 0,
            total_ratings: 0,
        }
    }
}

impl UpdatePromptRequest {
    /// The prompt `p` after this update: each field that the request gives
    /// replaces the old one, the title trimmed; the others stay.
    pub open spec fn applied_to(&self, p: PromptView, now: u64) -> PromptView {
        PromptView {
            title: match self.title {
                Some(t) => trimmed(t@),
                None => p.title,
            },
            description: match self.description {
                Some(t) => t@,
                None => p.description,
            },
            content: match self.content {
                Some(t) => t@,
                None => p.content,
            },
            category: match self.category {
                Some(c) => c,
                None => p.category,
            },
            tags: match self.tags {
                Some(tags) => text_views(tags@),
                None => p.tags,
            },
            price: match self.price {
                Some(x) => x,
                None => p.price,
            },
            is_premium: match self.is_premium {
                Some(b) => b,
                None => p.is_premium,
            },
            is_public: match self.is_public {
                Some(b) => b,
                None => p.is_public,
            },
            updated_at: now,
            ..p
        }
    }
}

impl StoreView {
    /// The marketplace before anything has happened.
    pub open spec fn empty() -> StoreView {
        StoreView {
            prompts: Seq::empty(),
            users: Seq::empty(),
            purchases: Seq::empty(),
            likes: Seq::empty(),
            ratings: Seq::empty(),
            next_prompt_id: 1,
        }
    }

    // ----- lookups -----
    /// Whether a prompt with this id is on record.
    pub open spec fn has_prompt(self, id: PromptId) -> bool {
        exists|i: int| 0 <= i < self.prompts.len() && (#[trigger] self.prompts[i]).id == id
    }

    /// The place of the prompt with this id.
    pub open spec fn prompt_index(self, id: PromptId) -> int {
        choose|i: int| 0 <= i < self.prompts.len() && (#[trigger] self.prompts[i]).id == id
    }

    /// The prompt with this id.
    pub open spec fn prompt(self, id: PromptId) -> PromptView {
        self.prompts[self.prompt_index(id)]
    }

    /// Whether this caller is registered.
    pub open spec fn has_user(self, who: Seq<u8>) -> bool {
        exists|j: int| 0 <= j < self.users.len() && (#[trigger] self.users[j]).id == who
    }

    /// The place of this caller's record.
    pub open spec fn user_index(self, who: Seq<u8>) -> int {
        choose|j: int| 0 <= j < self.users.len() && (#[trigger] self.users[j]).id == who
    }

    /// This caller's record.
    pub open spec fn user(self, who: Seq<u8>) -> UserView {
        self.users[self.user_index(who)]
    }

    /// Whether this caller has bought the prompt.
    pub open spec fn has_purchased(self, who: Seq<u8>, id: PromptId) -> bool {
        exists|k: int|
            0 <= k < self.purchases.len() && (#[trigger] self.purchases[k]).buyer == who
                && self.purchases[k].prompt_id == id
    }

    /// Whether this caller likes the prompt.
    pub open spec fn has_liked(self, who: Seq<u8>, id: PromptId) -> bool {
        self.likes.contains(LikeView { user: who, prompt_id: id })
    }

    /// Whether this caller has rated the prompt.
    pub open spec fn has_rated(self, who: Seq<u8>, id: PromptId) -> bool {
        exists|k: int|
            0 <= k < self.ratings.len() && (#[trigger] self.ratings[k]).user == who
                && self.ratings[k].prompt_id == id
    }

    /// The place of this caller's rating of the prompt.
    pub open spec fn rating_index(self, who: Seq<u8>, id: PromptId) -> int {
        choose|k: int|
            0 <= k < self.ratings.len() && (#[trigger] self.ratings[k]).user == who
                && self.ratings[k].prompt_id == id
    }

    /// The rating that this caller last gave to the prompt, if any.
    pub open spec fn rating_by(self, who: Seq<u8>, id: PromptId) -> Option<u8> {
        if self.has_rated(who, id) {
            Some(self.ratings[self.rating_index(who, id)].value)
        } else {
            None
        }
    }

    /// The ids of the prompts that this caller has bought, oldest first.
    pub open spec fn purchases_of(self, who: Seq<u8>) -> Seq<PromptId> {
        self.purchases.filter(bought_by(who)).map_values(|f: PurchaseView| f.prompt_id)
    }

    // ----- who may do what -----
    /// The caller wrote the prompt.
    pub open spec fn is_author(self, who: Seq<u8>, p: PromptView) -> bool {
        p.author == who
    }

    /// The caller may read the content: the prompt is public, or theirs,
    /// or they have bought it.
    pub open spec fn can_view_content(self, who: Seq<u8>, p: PromptView) -> bool {
        p.is_public || self.is_author(who, p) || self.has_purchased(who, p.id)
    }

    /// The caller may rate the prompt: it is not theirs, and it is public
    /// or they have bought it.
    pub open spec fn can_rate(self, who: Seq<u8>, p: PromptView) -> bool {
        !self.is_author(who, p) && (p.is_public || self.has_purchased(who, p.id))
    }

    /// The caller may change or delete the prompt: only its author may.
    pub open spec fn can_modify(self, who: Seq<u8>, p: PromptView) -> bool {
        self.is_author(who, p)
    }

    // ----- consistency -----
    /// Prompts stand in the order of their ids, and every id was handed
    /// out before.
    pub open spec fn prompts_in_order(self) -> bool {
        &&& forall|i: int, j: int|
            0 <= i < j < self.prompts.len() ==> (#[trigger] self.prompts[i]).id < (
            #[trigger] self.prompts[j]).id
        &&& forall|i: int|
            0 <= i < self.prompts.len() ==> (#[trigger] self.prompts[i]).id < self.next_prompt_id
    }

    /// No caller is registered twice.
    pub open spec fn users_distinct(self) -> bool {
        forall|i: int, j: int|
            0 <= i < j < self.users.len() ==> (#[trigger] self.users[i]).id != (
            #[trigger] self.users[j]).id
    }

    /// The author of every prompt is registered.
    pub open spec fn authors_registered(self) -> bool {
        forall|i: int|
            0 <= i < self.prompts.len() ==> self.has_user((#[trigger] self.prompts[i]).author)
    }

    /// What the counters of a user must say: as many prompts created as
    /// are on record under their name, and no more prompts purchased than
    /// the log holds for them.
    pub open spec fn user_counts_agree(self, u: UserView) -> bool {
        &&& u.prompts_created == count(self.prompts, authored_by(u.id))
        &&& u.prompts_purchased <= count(self.purchases, bought_by(u.id))
    }

    /// The counters of every user say what is on record.
    pub open spec fn users_agree(self) -> bool {
        forall|j: int|
            0 <= j < self.users.len() ==> self.user_counts_agree(#[trigger] self.users[j])
    }

    /// No caller likes a prompt twice, and every like is of a prompt that
    /// was created.
    pub open spec fn likes_sound(self) -> bool {
        &&& self.likes.no_duplicates()
        &&& forall|k: int|
            0 <= k < self.likes.len() ==> (#[trigger] self.likes[k]).prompt_id
                < self.next_prompt_id
    }

    /// No caller has bought a prompt twice, and every purchase is of a
    /// prompt that was created.
    pub open spec fn purchases_sound(self) -> bool {
        &&& forall|a: int, b: int|
            0 <= a < b < self.purchases.len() ==> !((#[trigger] self.purchases[a]).buyer == (
            #[trigger] self.purchases[b]).buyer && self.purchases[a].prompt_id
                == self.purchases[b].prompt_id)
        &&& forall|k: int|
            0 <= k < self.purchases.len() ==> (#[trigger] self.purchases[k]).prompt_id
                < self.next_prompt_id
    }

    /// No caller has two ratings of one prompt on record, every rating is
    /// of a prompt that was created, and each gives one to five stars.
    pub open spec fn ratings_sound(self) -> bool {
        &&& forall|a: int, b: int|
            0 <= a < b < self.ratings.len() ==> !((#[trigger] self.ratings[a]).user == (
            #[trigger] self.ratings[b]).user && self.ratings[a].prompt_id
                == self.ratings[b].prompt_id)
        &&& forall|k: int|
            0 <= k < self.ratings.len() ==> (#[trigger] self.ratings[k]).prompt_id
                < self.next_prompt_id && 1 <= self.ratings[k].value <= 5
    }

    /// What the counters of a prompt must say: its likes, purchases and
    /// ratings are as many as are on record for it, and its rating sum is
    /// the sum of the stars on record for it.
    pub open spec fn tally_matches(self, p: PromptView) -> bool {
        &&& p.likes == count(self.likes, like_of(p.id))
        &&& p.purchases == count(self.purchases, purchase_of(p.id))
        &&& p.total_ratings == count(self.ratings, rating_of(p.id))
        &&& p.rating_sum == total(self.ratings, stars_for(p.id))
    }

    /// The counters of every prompt say what is on record.
    pub open spec fn tallies_agree(self) -> bool {
        forall|i: int|
            0 <= i < self.prompts.len() ==> self.tally_matches(#[trigger] self.prompts[i])
    }

    /// The texts of every prompt are within their bounds.
    pub open spec fn listings_valid(self) -> bool {
        forall|i: int| 0 <= i < self.prompts.len() ==> listing_valid(#[trigger] self.prompts[i])
    }

    /// The marketplace is consistent.
    pub open spec fn wf(self) -> bool {
        &&& self.prompts_in_order()
        &&& self.listings_valid()
        &&& self.users_distinct()
        &&& self.authors_registered()
        &&& self.users_agree()
        &&& self.likes_sound()
        &&& self.purchases_sound()
        &&& self.ratings_sound()
        &&& self.tallies_agree()
    }

    // ----- registering -----
    /// Why `who` cannot register, if so: they are registered already, or
    /// the username is not valid.
    pub open spec fn register_error(self, who: Seq<u8>, username: Option<Seq<char>>) -> Option<
        MarketError,
    > {
        if self.has_user(who) {
            Some(MarketError::AlreadyExists)
        } else if username_error(username) is Some {
            Some(MarketError::InvalidInput(username_error(username)->0))
        } else {
            None
        }
    }

    /// The marketplace with one more user.
    pub open spec fn registered(self, user: UserView) -> StoreView {
        StoreView { users: self.users.push(user), ..self }
    }

    // ----- creating a prompt -----
    /// Why `who` cannot create the prompt, if so: a field is not valid, or
    /// they are not registered.
    pub open spec fn create_error(self, who: Seq<u8>, request: CreatePromptRequest) -> Option<
        MarketError,
    > {
        if request.input_error() is Some {
            Some(MarketError::InvalidInput(request.input_error()->0))
        } else if !self.has_user(who) {
            Some(MarketError::UserNotFound)
        } else {
            None
        }
    }

    /// The marketplace with the new prompt `p`: it stands last, its author
    /// has created one more, and the next id is one higher.
    pub open spec fn created(self, p: PromptView) -> StoreView {
        StoreView {
            prompts: self.prompts.push(p),
            users: self.users.map_values(
                |u: UserView|
                    if u.id == p.author {
                        UserView { prompts_created: u.prompts_created + 1, ..u }
                    } else {
                        u
                    },
            ),
            next_prompt_id: self.next_prompt_id + 1,
            ..self
        }
    }

    // ----- changing a prompt -----
    /// Why `who` cannot change or delete prompt `id`, if so: there is no
    /// such prompt, or it is not theirs.
    pub open spec fn modify_error(self, who: Seq<u8>, id: PromptId) -> Option<MarketError> {
        if !self.has_prompt(id) {
            Some(MarketError::NotFound)
        } else if !self.can_modify(who, self.prompt(id)) {
            Some(MarketError::Unauthorized)
        } else {
            None
        }
    }

    /// Why `who` cannot apply the update, if so: they cannot change the
    /// prompt, or a field that the request gives is not valid.
    pub open spec fn update_error(self, who: Seq<u8>, request: UpdatePromptRequest) -> Option<
        MarketError,
    > {
        if self.modify_error(who, request.id) is Some {
            self.modify_error(who, request.id)
        } else if request.input_error() is Some {
            Some(MarketError::InvalidInput(request.input_error()->0))
        } else {
            None
        }
    }

    /// The marketplace with the prompt of this id replaced by `p`.
    pub open spec fn with_prompt(self, p: PromptView) -> StoreView {
        StoreView {
            prompts: self.prompts.map_values(
                |q: PromptView|
                    if q.id == p.id {
                        p
                    } else {
                        q
                    },
            ),
            ..self
        }
    }

    /// The marketplace after the update.
    pub open spec fn updated(self, request: UpdatePromptRequest, now: u64) -> StoreView {
        self.with_prompt(request.applied_to(self.prompt(request.id), now))
    }

    /// The marketplace without prompt `id`: its author has created one
    /// less; purchases, likes and ratings stay on record.
    pub open spec fn deleted(self, id: PromptId) -> StoreView {
        let author = self.prompt(id).author;
        StoreView {
            prompts: self.prompts.remove(self.prompt_index(id)),
            users: self.users.map_values(
                |u: UserView|
                    if u.id == author {
                        UserView { prompts_created: less_one(u.prompts_created), ..u }
                    } else {
                        u
                    },
            ),
            ..self
        }
    }

    // ----- buying -----
    /// Why `who` cannot buy prompt `id`, if so: there is no such prompt,
    /// it is their own, or they have bought it before.
    pub open spec fn purchase_error(self, who: Seq<u8>, id: PromptId) -> Option<MarketError> {
        if !self.has_prompt(id) {
            Some(MarketError::NotFound)
        } else if self.is_author(who, self.prompt(id)) {
            Some(MarketError::SelfPurchase)
        } else if self.has_purchased(who, id) {
            Some(MarketError::AlreadyPurchased)
        } else {
            None
        }
    }

    /// The fact that is logged when `who` buys prompt `id` now.
    pub open spec fn purchase_fact(self, who: Seq<u8>, id: PromptId, now: u64) -> PurchaseView {
        PurchaseView {
            prompt_id: id,
            buyer: who,
            seller: self.prompt(id).author,
            price: self.prompt(id).price,
            timestamp: now,
        }
    }

    /// The marketplace after `who` has bought prompt `id`: the fact is
    /// logged, the prompt counts one more purchase, the buyer (if
    /// registered) has bought one more and spent the price, and the seller
    /// has earned it.
    pub open spec fn purchased(self, who: Seq<u8>, id: PromptId, now: u64) -> StoreView {
        let p = self.prompt(id);
        StoreView {
            purchases: self.purchases.push(self.purchase_fact(who, id, now)),
            prompts: self.with_prompt(PromptView { purchases: p.purchases + 1, ..p }).prompts,
            users: self.users.map_values(
                |u: UserView|
                    if u.id == who {
                        UserView {
                            prompts_purchased: u.prompts_purchased + 1,
                            total_spent: u.total_spent + p.price as nat,
                            ..u
                        }
                    } else if u.id == p.author {
                        UserView { total_earnings: u.total_earnings + p.price as nat, ..u }
                    } else {
                        u
                    },
            ),
            ..self
        }
    }

    /// Whether the counters that a purchase of prompt `id` by `who` raises
    /// by the price can take it: no ledger may pass the largest number
    /// that it can hold.
    pub open spec fn can_settle(self, who: Seq<u8>, id: PromptId) -> bool {
        let p = self.prompt(id);
        &&& self.has_user(who) ==> self.user(who).total_spent + p.price <= u64::MAX
        &&& self.has_user(p.author) ==> self.user(p.author).total_earnings + p.price <= u64::MAX
    }

    // ----- liking -----
    /// Why `who` cannot like prompt `id`, if so.
    pub open spec fn like_error(self, who: Seq<u8>, id: PromptId) -> Option<MarketError> {
        if !self.has_prompt(id) {
            Some(MarketError::NotFound)
        } else if self.has_liked(who, id) {
            Some(MarketError::AlreadyLiked)
        } else {
            None
        }
    }

    /// The marketplace after `who` has liked prompt `id`.
    pub open spec fn liked(self, who: Seq<u8>, id: PromptId) -> StoreView {
        let p = self.prompt(id);
        StoreView {
            likes: self.likes.push(LikeView { user: who, prompt_id: id }),
            prompts: self.with_prompt(PromptView { likes: p.likes + 1, ..p }).prompts,
            ..self
        }
    }

    /// Why `who` cannot take back a like of prompt `id`, if so.
    pub open spec fn unlike_error(self, who: Seq<u8>, id: PromptId) -> Option<MarketError> {
        if !self.has_prompt(id) {
            Some(MarketError::NotFound)
        } else if !self.has_liked(who, id) {
            Some(MarketError::NotLiked)
        } else {
            None
        }
    }

    /// The marketplace after `who` has taken back their like of prompt
    /// `id`.
    pub open spec fn unliked(self, who: Seq<u8>, id: PromptId) -> StoreView {
        let p = self.prompt(id);
        StoreView {
            likes: self.likes.remove(self.likes.index_of(LikeView { user: who, prompt_id: id })),
            prompts: self.with_prompt(PromptView { likes: less_one(p.likes), ..p }).prompts,
            ..self
        }
    }

    // ----- rating -----
    /// Why `who` cannot rate prompt `id` with `value`, if so: the value is
    /// out of range, there is no such prompt, it is their own, or it is
    /// neither public nor bought by them.
    pub open spec fn rate_error(self, who: Seq<u8>, id: PromptId, value: u8) -> Option<
        MarketError,
    > {
        if rating_error(value) is Some {
            Some(MarketError::InvalidInput(rating_error(value)->0))
        } else if !self.has_prompt(id) {
            Some(MarketError::NotFound)
        } else if self.is_author(who, self.prompt(id)) {
            Some(MarketError::SelfRating)
        } else if !self.can_rate(who, self.prompt(id)) {
            Some(MarketError::PurchaseRequired)
        } else {
            None
        }
    }

    /// The marketplace after `who` has rated prompt `id` with `value`. A
    /// first rating is added to the record, the prompt counts one more and
    /// its sum grows by the value. A repeated rating replaces the caller's
    /// earlier one: the count stays, and the sum changes by the difference.
    pub open spec fn rated(self, who: Seq<u8>, id: PromptId, value: u8) -> StoreView {
        let p = self.prompt(id);
        match self.rating_by(who, id) {
            None => StoreView {
                ratings: self.ratings.push(RatingView { user: who, prompt_id: id, value }),
                prompts: self.with_prompt(
                    PromptView {
                        total_ratings: p.total_ratings + 1,
                        rating_sum: p.rating_sum + value as nat,
                        ..p
                    },
                ).prompts,
                ..self
            },
            Some(earlier) => StoreView {
                ratings: self.ratings.map_values(
                    |r: RatingView|
                        if r.user == who && r.prompt_id == id {
                            RatingView { value, ..r }
                        } else {
                            r
                        },
                ),
                prompts: self.with_prompt(
                    PromptView { rating_sum: (p.rating_sum + value - earlier) as nat, ..p },
                ).prompts,
                ..self
            },
        }
    }

    // ----- reading -----
    /// Why `who` cannot read the content of prompt `id`, if so.
    pub open spec fn read_error(self, who: Seq<u8>, id: PromptId) -> Option<MarketError> {
        if !self.has_prompt(id) {
            Some(MarketError::NotFound)
        } else if !self.can_view_content(who, self.prompt(id)) {
            Some(MarketError::AccessDenied)
        } else {
            None
        }
    }

    /// The public prompts, in the order of their creation.
    pub open spec fn public_prompts(self) -> Seq<PromptView> {
        self.prompts.filter(|p: PromptView| p.is_public)
    }

    /// The prompts that `who` wrote, in the order of their creation.
    pub open spec fn prompts_by(self, who: Seq<u8>) -> Seq<PromptView> {
        self.prompts.filter(authored_by(who))
    }
}

/// Whether `needle` stands in the title, the description or one of the
/// tags of a prompt, each of them folded.
pub open spec fn text_hit(p: PromptView, needle: Seq<char>) -> bool {
    ||| is_substring(needle, folded(p.title))
    ||| is_substring(needle, folded(p.description))
    ||| exists|t: int| 0 <= t < p.tags.len() && is_substring(needle, folded(#[trigger] p.tags[t]))
}

/// Whether search finds a prompt: it is public, it is of the category
/// asked for if one is, and its title, its description or one of its tags
/// holds the query, letter case set aside.
pub open spec fn search_hit(p: PromptView, query: Seq<char>, category: Option<PromptCategory>)
    -> bool {
    &&& p.is_public
    &&& category is Some ==> p.category == category->0
    &&& text_hit(p, folded(query))
}

/// Whether `p` stands before `q` in a ranking: by the higher score, and
/// among equal scores by the earlier creation.
pub open spec fn ranks_before(p: PromptView, q: PromptView) -> bool {
    p.score() > q.score() || (p.score() == q.score() && p.id < q.id)
}

/// Whether `found` is the ranking of the prompts among `prompts` that
/// search finds: it holds each of them and nothing else, best first.
pub open spec fn is_ranking(
    found: Seq<PromptView>,
    prompts: Seq<PromptView>,
    query: Seq<char>,
    category: Option<PromptCategory>,
) -> bool {
    &&& forall|k: int|
        0 <= k < found.len() ==> prompts.contains(#[trigger] found[k]) && search_hit(
            found[k],
            query,
            category,
        )
    &&& forall|i: int|
        0 <= i < prompts.len() && search_hit(#[trigger] prompts[i], query, category)
            ==> found.contains(prompts[i])
    &&& forall|a: int, b: int|
        0 <= a < b < found.len() ==> ranks_before(#[trigger] found[a], #[trigger] found[b])
}

} // verus!
