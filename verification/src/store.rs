//! The marketplace itself: the records it keeps and the operations on
//! them. Each operation either fails and changes nothing, or makes of the
//! marketplace what the model says.

use crate::counting::lemma_total_remove;
use crate::error::MarketError;
use crate::invariants::{
    lemma_applied_valid, lemma_created_wf, lemma_deleted_wf, lemma_empty_wf, lemma_liked_wf,
    lemma_new_prompt_valid, lemma_prompt_at, lemma_purchased_wf, lemma_rated_wf, lemma_rating_at, lemma_rating_replaced,
    lemma_registered_wf, lemma_tally_bounds, lemma_unliked_wf, lemma_user_at, lemma_user_bounds,
    lemma_with_prompt, lemma_with_prompt_wf,
};
use crate::model::{
    authored_by, bought_by, is_ranking, less_one, new_user, ranks_before, stars_for, LikeView,
    RatingView, StoreView,
};
use crate::search::{insertion_point, is_search_hit, lemma_ranking_hit, lemma_ranking_miss};
use crate::text::{fold, folded, trim_owned};
use crate::types::{
    clone_texts, optional_text_view, prompt_views, purchase_views, CreatePromptRequest, Prompt,
    PromptCategory, PromptId, PromptView, Purchase, PurchaseView, RatePromptRequest,
    UpdatePromptRequest, User, UserId,
};
use crate::validation::{
    validate_prompt_input, validate_rating, validate_update, validate_username,
};
use vstd::prelude::*;
use vstd::string::*;

verus! {

/// The fact that a caller likes a prompt.
struct Like {
    user: UserId,
    prompt_id: PromptId,
}

impl View for Like {
    type V = LikeView;

    closed spec fn view(&self) -> LikeView {
        LikeView { user: self.user@, prompt_id: self.prompt_id }
    }
}

/// The rating that a caller last gave to a prompt.
struct Rating {
    user: UserId,
    prompt_id: PromptId,
    value: u8,
}

impl View for Rating {
    type V = RatingView;

    closed spec fn view(&self) -> RatingView {
        RatingView { user: self.user@, prompt_id: self.prompt_id, value: self.value }
    }
}

/// The marketplace: prompts, users, the purchase log, likes and ratings,
/// and the id that the next prompt gets.
pub struct Store {
    prompts: Vec<Prompt>,
    users: Vec<User>,
    purchases: Vec<Purchase>,
    likes: Vec<Like>,
    ratings: Vec<Rating>,
    next_prompt_id: PromptId,
}

impl View for Store {
    type V = StoreView;

    closed spec fn view(&self) -> StoreView {
        StoreView {
            prompts: prompt_views(self.prompts@),
            users: self.users@.map_values(|u: User| u@),
            purchases: purchase_views(self.purchases@),
            likes: self.likes@.map_values(|l: Like| l@),
            ratings: self.ratings@.map_values(|r: Rating| r@),
            next_prompt_id: self.next_prompt_id as nat,
        }
    }
}

impl Store {
    /// The marketplace is consistent.
    pub open spec fn wf(&self) -> bool {
        self@.wf()
    }

    /// A marketplace in which nothing has happened yet.
    pub fn new() -> (r: Store)
        ensures
            r.wf(),
            r@ == StoreView::empty(),
    {
        let r = Store {
            prompts: Vec::new(),
            users: Vec::new(),
            purchases: Vec::new(),
            likes: Vec::new(),
            ratings: Vec::new(),
            next_prompt_id: 1,
        };
        proof {
            lemma_empty_wf();
            assert(r@.prompts =~= StoreView::empty().prompts);
            assert(r@.users =~= StoreView::empty().users);
            assert(r@.purchases =~= StoreView::empty().purchases);
            assert(r@.likes =~= StoreView::empty().likes);
            assert(r@.ratings =~= StoreView::empty().ratings);
        }
        r
    }

    /// The id that the next prompt gets.
    pub fn next_prompt_id(&self) -> (r: PromptId)
        ensures
            r == self@.next_prompt_id,
    {
        self.next_prompt_id
    }

    /// The place of the prompt with this id, if it is on record.
    fn find_prompt(&self, id: PromptId) -> (r: Option<usize>)
        requires
            self.wf(),
        ensures
            r is Some == self@.has_prompt(id),
            r is Some ==> r->0 == self@.prompt_index(id) && r->0 < self.prompts.len()
                && self.prompts[r->0 as int]@ == self@.prompt(id) && self.prompts[r->0 as int].id
                == id,
    {
        let mut i: usize = 0;
        while i < self.prompts.len()
            invariant
                i <= self.prompts.len(),
                self.wf(),
                forall|k: int| 0 <= k < i ==> (#[trigger] self@.prompts[k]).id != id,
            decreases self.prompts.len() - i,
        {
            if self.prompts[i].id == id {
                proof {
                    assert(self@.prompts[i as int].id == id);
                    lemma_prompt_at(self@, i as int);
                }
                return Some(i);
            }
            assert(self@.prompts[i as int].id != id);
            i = i + 1;
        }
        None
    }

    /// The place of this caller's record, if they are registered.
    fn find_user(&self, who: &UserId) -> (r: Option<usize>)
        requires
            self.wf(),
        ensures
            r is Some == self@.has_user(who@),
            r is Some ==> r->0 == self@.user_index(who@) && r->0 < self.users.len()
                && self.users[r->0 as int]@ == self@.user(who@) && self.users[r->0 as int].id@
                == who@,
    {
        let mut j: usize = 0;
        while j < self.users.len()
            invariant
                j <= self.users.len(),
                self.wf(),
                forall|k: int| 0 <= k < j ==> (#[trigger] self@.users[k]).id != who@,
            decreases self.users.len() - j,
        {
            if self.users[j].id.same(who) {
                proof {
                    assert(self@.users[j as int].id == who@);
                    lemma_user_at(self@, j as int);
                }
                return Some(j);
            }
            assert(self@.users[j as int].id != who@);
            j = j + 1;
        }
        None
    }

    /// The place of the caller's like of the prompt, if they like it.
    fn find_like(&self, who: &UserId, id: PromptId) -> (r: Option<usize>)
        requires
            self.wf(),
        ensures
            r is Some == self@.has_liked(who@, id),
            r is Some ==> r->0 < self.likes.len() && r->0 == self@.likes.index_of(
                LikeView { user: who@, prompt_id: id },
            ),
    {
        let ghost wanted = LikeView { user: who@, prompt_id: id };
        let mut k: usize = 0;
        while k < self.likes.len()
            invariant
                k <= self.likes.len(),
                self.wf(),
                wanted == (LikeView { user: who@, prompt_id: id }),
                forall|m: int| 0 <= m < k ==> (#[trigger] self@.likes[m]) != wanted,
            decreases self.likes.len() - k,
        {
            if self.likes[k].prompt_id == id && self.likes[k].user.same(who) {
                proof {
                    assert(self@.likes[k as int] == wanted);
                    let m = self@.likes.index_of(wanted);
                    assert(self@.likes[m] == wanted);
                }
                return Some(k);
            }
            assert(self@.likes[k as int] != wanted);
            k = k + 1;
        }
        None
    }

    /// The place of the caller's rating of the prompt, if they rated it.
    fn find_rating(&self, who: &UserId, id: PromptId) -> (r: Option<usize>)
        requires
            self.wf(),
        ensures
            r is Some == self@.has_rated(who@, id),
            r is Some ==> r->0 < self.ratings.len() && r->0 == self@.rating_index(who@, id)
                && self.ratings[r->0 as int].value == self@.rating_by(who@, id)->0,
            r is None ==> self@.rating_by(who@, id) is None,
    {
        let mut k: usize = 0;
        while k < self.ratings.len()
            invariant
                k <= self.ratings.len(),
                self.wf(),
                forall|m: int|
                    0 <= m < k ==> !((#[trigger] self@.ratings[m]).user == who@
                        && self@.ratings[m].prompt_id == id),
            decreases self.ratings.len() - k,
        {
            if self.ratings[k].prompt_id == id && self.ratings[k].user.same(who) {
                proof {
                    assert(self@.ratings[k as int].user == who@);
                    lemma_rating_at(self@, k as int);
                }
                return Some(k);
            }
            assert(!(self@.ratings[k as int].user == who@ && self@.ratings[k as int].prompt_id
                == id));
            k = k + 1;
        }
        None
    }

    /// Whether the caller is the author of the prompt with this id; not
    /// so if there is no such prompt.
    pub fn is_authorized(&self, prompt_id: PromptId, caller: &UserId) -> (r: bool)
        requires
            self.wf(),
        ensures
            r == (self@.has_prompt(prompt_id) && self@.can_modify(
                caller@,
                self@.prompt(prompt_id),
            )),
    {
        match self.find_prompt(prompt_id) {
            Some(i) => self.can_modify(caller, &self.prompts[i]),
            None => false,
        }
    }

    /// Whether this user has bought the prompt with this id.
    pub fn has_purchased(&self, user_id: &UserId, prompt_id: PromptId) -> (r: bool)
        ensures
            r == self@.has_purchased(user_id@, prompt_id),
    {
        let mut k: usize = 0;
        while k < self.purchases.len()
            invariant
                k <= self.purchases.len(),
                forall|m: int|
                    0 <= m < k ==> !((#[trigger] self@.purchases[m]).buyer == user_id@
                        && self@.purchases[m].prompt_id == prompt_id),
            decreases self.purchases.len() - k,
        {
            if self.purchases[k].prompt_id == prompt_id && self.purchases[k].buyer.same(user_id) {
                assert(self@.purchases[k as int].buyer == user_id@);
                return true;
            }
            assert(!(self@.purchases[k as int].buyer == user_id@
                && self@.purchases[k as int].prompt_id == prompt_id));
            k = k + 1;
        }
        false
    }

    /// Whether the caller may read the content of this prompt.
    pub fn can_view_content(&self, caller: &UserId, prompt: &Prompt) -> (r: bool)
        ensures
            r == self@.can_view_content(caller@, prompt@),
    {
        prompt.is_public || prompt.author.same(caller) || self.has_purchased(caller, prompt.id)
    }

    /// Whether the caller may rate this prompt.
    pub fn can_rate(&self, caller: &UserId, prompt: &Prompt) -> (r: bool)
        ensures
            r == self@.can_rate(caller@, prompt@),
    {
        !prompt.author.same(caller) && (prompt.is_public || self.has_purchased(caller, prompt.id))
    }

    /// Whether the caller may change or delete this prompt.
    pub fn can_modify(&self, caller: &UserId, prompt: &Prompt) -> (r: bool)
        ensures
            r == self@.can_modify(caller@, prompt@),
    {
        prompt.author.same(caller)
    }

    /// The purchases on record, oldest first.
    pub fn purchase_log(&self) -> (r: Vec<Purchase>)
        ensures
            purchase_views(r@) == self@.purchases,
    {
        let mut out: Vec<Purchase> = Vec::new();
        let mut k: usize = 0;
        while k < self.purchases.len()
            invariant
                k <= self.purchases.len(),
                out@.len() == k,
                forall|m: int| 0 <= m < k ==> out@[m]@ == self.purchases@[m]@,
            decreases self.purchases.len() - k,
        {
            out.push(self.purchases[k].clone());
            k = k + 1;
        }
        assert(purchase_views(out@) =~= self@.purchases);
        out
    }

    /// The rating that this user last gave to the prompt, if any.
    pub fn get_rating(&self, user_id: &UserId, prompt_id: PromptId) -> (r: Option<u8>)
        requires
            self.wf(),
        ensures
            r == self@.rating_by(user_id@, prompt_id),
    {
        match self.find_rating(user_id, prompt_id) {
            Some(k) => Some(self.ratings[k].value),
            None => None,
        }
    }

    /// Whether this user likes the prompt with this id.
    pub fn has_liked(&self, user_id: &UserId, prompt_id: PromptId) -> (r: bool)
        requires
            self.wf(),
        ensures
            r == self@.has_liked(user_id@, prompt_id),
    {
        self.find_like(user_id, prompt_id).is_some()
    }

    /// The prompt with this id.
    pub fn get_prompt(&self, prompt_id: PromptId) -> (r: Result<Prompt, MarketError>)
        requires
            self.wf(),
        ensures
            match r {
                Ok(p) => self@.has_prompt(prompt_id) && p@ == self@.prompt(prompt_id),
                Err(e) => !self@.has_prompt(prompt_id) && e == MarketError::NotFound,
            },
    {
        match self.find_prompt(prompt_id) {
            Some(i) => Ok(self.prompts[i].clone()),
            None => Err(MarketError::NotFound),
        }
    }

    /// The record of this user.
    pub fn get_user(&self, user_id: &UserId) -> (r: Result<User, MarketError>)
        requires
            self.wf(),
        ensures
            match r {
                Ok(u) => self@.has_user(user_id@) && u@ == self@.user(user_id@),
                Err(e) => !self@.has_user(user_id@) && e == MarketError::NotFound,
            },
    {
        match self.find_user(user_id) {
            Some(j) => Ok(self.users[j].clone()),
            None => Err(MarketError::NotFound),
        }
    }
}

/// Gives a prompt the fields that an update holds and stamps it.
fn apply_update(prompt: &mut Prompt, request: &UpdatePromptRequest, now: u64)
    ensures
        final(prompt)@ == request.applied_to(old(prompt)@, now),
{
    if let Some(title) = &request.title {
        prompt.title = trim_owned(title.as_str());
    }
    if let Some(description) = &request.description {
        prompt.description = description.clone();
    }
    if let Some(content) = &request.content {
        prompt.content = content.clone();
    }
    if let Some(category) = request.category {
        prompt.category = category;
    }
    if let Some(tags) = &request.tags {
        prompt.tags = clone_texts(tags);
    }
    if let Some(price) = request.price {
        prompt.price = price;
    }
    if let Some(is_premium) = request.is_premium {
        prompt.is_premium = is_premium;
    }
    if let Some(is_public) = request.is_public {
        prompt.is_public = is_public;
    }
    prompt.updated_at = now;
}

impl Store {
    /// Changes the fields of a prompt that the request gives. Only the
    /// author may; nothing is changed unless every given field is valid.
    pub fn update_prompt(&mut self, caller: &UserId, request: &UpdatePromptRequest, now: u64) -> (r:
        Result<Prompt, MarketError>)
        requires
            old(self).wf(),
        ensures
            final(self).wf(),
            match r {
                Ok(p) => {
                    &&& old(self)@.update_error(caller@, *request) is None
                    &&& final(self)@ == old(self)@.updated(*request, now)
                    &&& p@ == request.applied_to(old(self)@.prompt(request.id), now)
                },
                Err(e) => {
                    &&& old(self)@.update_error(caller@, *request) == Some(e)
                    &&& final(self)@ == old(self)@
                },
            },
    {
        let i = match self.find_prompt(request.id) {
            Some(i) => i,
            None => {
                return Err(MarketError::NotFound);
            },
        };
        if !self.can_modify(caller, &self.prompts[i]) {
            return Err(MarketError::Unauthorized);
        }
        if let Err(e) = validate_update(request) {
            return Err(MarketError::InvalidInput(e));
        }
        apply_update(&mut self.prompts[i], request, now);
        let result = self.prompts[i].clone();
        proof {
            let p = request.applied_to(old(self)@.prompt(request.id), now);
            assert(self.prompts[i as int]@ == p);
            assert(self@.prompts =~= old(self)@.prompts.update(i as int, p));
            lemma_with_prompt(old(self)@, i as int, p);
            lemma_applied_valid(*request, old(self)@.prompt(request.id), now);
            lemma_with_prompt_wf(old(self)@, p);
            assert(self@ == old(self)@.updated(*request, now));
        }
        Ok(result)
    }

    /// Records the caller's rating of a prompt, in place of an earlier
    /// one if they gave one, and brings the prompt's tally up to date.
    pub fn rate_prompt(&mut self, caller: &UserId, request: RatePromptRequest) -> (r: Result<
        String,
        MarketError,
    >)
        requires
            old(self).wf(),
        ensures
            final(self).wf(),
            match r {
                Ok(text) => {
                    &&& old(self)@.rate_error(caller@, request.prompt_id, request.rating) is None
                    &&& final(self)@ == old(self)@.rated(
                        caller@,
                        request.prompt_id,
                        request.rating,
                    )
                    &&& text@ == "Prompt rated successfully"@
                },
                Err(e) => {
                    &&& old(self)@.rate_error(caller@, request.prompt_id, request.rating) == Some(
                        e,
                    )
                    &&& final(self)@ == old(self)@
                },
            },
    {
        let id = request.prompt_id;
        let value = request.rating;
        if let Err(e) = validate_rating(value) {
            return Err(MarketError::InvalidInput(e));
        }
        let i = match self.find_prompt(id) {
            Some(i) => i,
            None => {
                return Err(MarketError::NotFound);
            },
        };
        if self.prompts[i].author.same(caller) {
            return Err(MarketError::SelfRating);
        }
        if !self.can_rate(caller, &self.prompts[i]) {
            return Err(MarketError::PurchaseRequired);
        }
        proof {
            lemma_tally_bounds(self@, i as int);
            lemma_rated_wf(self@, caller@, id, value);
        }
        let ghost p = old(self)@.prompt(id);
        match self.find_rating(caller, id) {
            Some(k) => {
                let earlier = self.ratings[k].value;
                proof {
                    assert(old(self)@.tally_matches(old(self)@.prompts[i as int]));
                    lemma_total_remove(old(self)@.ratings, k as int, stars_for(id));
                    assert(stars_for(id)(old(self)@.ratings[k as int]) == earlier);
                }
                self.ratings[k].value = value;
                self.prompts[i].rating_sum = self.prompts[i].rating_sum + value as u128
                    - earlier as u128;
                proof {
                    let q = PromptView {
                        rating_sum: (p.rating_sum + value - earlier) as nat,
                        ..p
                    };
                    assert(self@.prompts =~= old(self)@.prompts.update(i as int, q));
                    lemma_with_prompt(old(self)@, i as int, q);
                    lemma_rating_replaced(old(self)@, caller@, id, value);
                    assert(self@.ratings =~= old(self)@.rated(caller@, id, value).ratings);
                    assert(self@ == old(self)@.rated(caller@, id, value));
                }
            },
            None => {
                self.ratings.push(Rating { user: caller.clone(), prompt_id: id, value });
                assert(self.ratings.len() <= usize::MAX);
                self.prompts[i].total_ratings = self.prompts[i].total_ratings + 1;
                self.prompts[i].rating_sum = self.prompts[i].rating_sum + value as u128;
                proof {
                    let q = PromptView {
                        total_ratings: p.total_ratings + 1,
                        rating_sum: p.rating_sum + value as nat,
                        ..p
                    };
                    assert(self@.prompts =~= old(self)@.prompts.update(i as int, q));
                    lemma_with_prompt(old(self)@, i as int, q);
                    assert(self@.ratings =~= old(self)@.ratings.push(
                        RatingView { user: caller@, prompt_id: id, value },
                    ));
                    assert(self@ == old(self)@.rated(caller@, id, value));
                }
            },
        }
        Ok(String::from_str("Prompt rated successfully"))
    }

    /// Records that the caller likes a prompt.
    pub fn like_prompt(&mut self, caller: &UserId, prompt_id: PromptId) -> (r: Result<
        String,
        MarketError,
    >)
        requires
            old(self).wf(),
        ensures
            final(self).wf(),
            match r {
                Ok(text) => {
                    &&& old(self)@.like_error(caller@, prompt_id) is None
                    &&& final(self)@ == old(self)@.liked(caller@, prompt_id)
                    &&& text@ == "Prompt liked successfully"@
                },
                Err(e) => {
                    &&& old(self)@.like_error(caller@, prompt_id) == Some(e)
                    &&& final(self)@ == old(self)@
                },
            },
    {
        let i = match self.find_prompt(prompt_id) {
            Some(i) => i,
            None => {
                return Err(MarketError::NotFound);
            },
        };
        if self.find_like(caller, prompt_id).is_some() {
            return Err(MarketError::AlreadyLiked);
        }
        proof {
            lemma_tally_bounds(self@, i as int);
            lemma_liked_wf(self@, caller@, prompt_id);
        }
        let ghost p = old(self)@.prompt(prompt_id);
        self.likes.push(Like { user: caller.clone(), prompt_id });
        assert(self.likes.len() <= usize::MAX);
        self.prompts[i].likes = self.prompts[i].likes + 1;
        proof {
            let q = PromptView { likes: p.likes + 1, ..p };
            assert(self@.prompts =~= old(self)@.prompts.update(i as int, q));
            lemma_with_prompt(old(self)@, i as int, q);
            assert(self@.likes =~= old(self)@.likes.push(
                LikeView { user: caller@, prompt_id },
            ));
            assert(self@ == old(self)@.liked(caller@, prompt_id));
        }
        Ok(String::from_str("Prompt liked successfully"))
    }

    /// Records that the caller no longer likes a prompt.
    pub fn unlike_prompt(&mut self, caller: &UserId, prompt_id: PromptId) -> (r: Result<
        String,
        MarketError,
    >)
        requires
            old(self).wf(),
        ensures
            final(self).wf(),
            match r {
                Ok(text) => {
                    &&& old(self)@.unlike_error(caller@, prompt_id) is None
                    &&& final(self)@ == old(self)@.unliked(caller@, prompt_id)
                    &&& text@ == "Prompt unliked successfully"@
                },
                Err(e) => {
                    &&& old(self)@.unlike_error(caller@, prompt_id) == Some(e)
                    &&& final(self)@ == old(self)@
                },
            },
    {
        let i = match self.find_prompt(prompt_id) {
            Some(i) => i,
            None => {
                return Err(MarketError::NotFound);
            },
        };
        let k = match self.find_like(caller, prompt_id) {
            Some(k) => k,
            None => {
                return Err(MarketError::NotLiked);
            },
        };
        proof {
            lemma_unliked_wf(self@, caller@, prompt_id);
        }
        let ghost p = old(self)@.prompt(prompt_id);
        self.likes.remove(k);
        if self.prompts[i].likes > 0 {
            self.prompts[i].likes = self.prompts[i].likes - 1;
        }
        proof {
            let q = PromptView { likes: less_one(p.likes), ..p };
            assert(self@.prompts =~= old(self)@.prompts.update(i as int, q));
            lemma_with_prompt(old(self)@, i as int, q);
            assert(self@.likes =~= old(self)@.likes.remove(k as int));
            assert(self@ == old(self)@.unliked(caller@, prompt_id));
        }
        Ok(String::from_str("Prompt unliked successfully"))
    }

    /// Registers the caller.
    pub fn create_user(
        &mut self,
        caller: &UserId,
        username: Option<String>,
        email: Option<String>,
        now: u64,
    ) -> (r: Result<User, MarketError>)
        requires
            old(self).wf(),
        ensures
            final(self).wf(),
            match r {
                Ok(u) => {
                    &&& old(self)@.register_error(caller@, optional_text_view(username)) is None
                    &&& u@ == new_user(
                        caller@,
                        optional_text_view(username),
                        optional_text_view(email),
                        now,
                    )
                    &&& final(self)@ == old(self)@.registered(u@)
                },
                Err(e) => {
                    &&& old(self)@.register_error(caller@, optional_text_view(username)) == Some(e)
                    &&& final(self)@ == old(self)@
                },
            },
    {
        if self.find_user(caller).is_some() {
            return Err(MarketError::AlreadyExists);
        }
        if let Err(e) = validate_username(&username) {
            return Err(MarketError::InvalidInput(e));
        }
        let user = User {
            id: caller.clone(),
            username,
            email,
            joined_at: now,
            total_earnings: 0,
            total_spent: 0,
            prompts_created: 0,
            prompts_purchased: 0,
        };
        let result = user.clone();
        proof {
            lemma_registered_wf(self@, user@);
        }
        self.users.push(user);
        proof {
            assert(self@.users =~= old(self)@.users.push(result@));
            assert(self@ == old(self)@.registered(result@));
        }
        Ok(result)
    }
}

impl Store {
    /// Creates a prompt for the caller, who must be registered, and gives
    /// it the next id.
    pub fn create_prompt(&mut self, caller: &UserId, request: CreatePromptRequest, now: u64) -> (r:
        Result<Prompt, MarketError>)
        requires
            old(self).wf(),
            old(self)@.create_error(caller@, request) is None ==> old(self)@.next_prompt_id
                < u64::MAX,
        ensures
            final(self).wf(),
            match r {
                Ok(p) => {
                    &&& old(self)@.create_error(caller@, request) is None
                    &&& p@ == request.new_prompt(
                        old(self)@.next_prompt_id as PromptId,
                        caller@,
                        now,
                    )
                    &&& final(self)@ == old(self)@.created(p@)
                },
                Err(e) => {
                    &&& old(self)@.create_error(caller@, request) == Some(e)
                    &&& final(self)@ == old(self)@
                },
            },
    {
        if let Err(e) = validate_prompt_input(&request) {
            return Err(MarketError::InvalidInput(e));
        }
        let j = match self.find_user(caller) {
            Some(j) => j,
            None => {
                return Err(MarketError::UserNotFound);
            },
        };
        let id = self.next_prompt_id;
        let ghost wanted = request.new_prompt(id, caller@, now);
        let title = trim_owned(request.title.as_str());
        let prompt = Prompt {
            id,
            title,
            description: request.description,
            content: request.content,
            author: caller.clone(),
            category: request.category,
            tags: request.tags,
            price: request.price,
            is_premium: request.is_premium,
            is_public: request.is_public,
            created_at: now,
            updated_at: now,
            likes: 0,
            purchases: 0,
            rating_sum: 0,
            total_ratings: 0,
        };
        assert(prompt@ == wanted);
        let result = prompt.clone();
        proof {
            lemma_user_bounds(self@, j as int);
            lemma_new_prompt_valid(request, id, caller@, now);
            lemma_created_wf(self@, wanted);
        }
        self.prompts.push(prompt);
        assert(self.prompts.len() <= usize::MAX);
        self.next_prompt_id = id + 1;
        self.users[j].prompts_created = self.users[j].prompts_created + 1;
        proof {
            assert(self@.prompts =~= old(self)@.prompts.push(wanted));
            assert(self@.users =~= old(self)@.created(wanted).users);
            assert(self@ == old(self)@.created(wanted));
        }
        Ok(result)
    }

    /// Deletes a prompt. Only the author may. What was bought, liked and
    /// rated stays on record.
    pub fn delete_prompt(&mut self, caller: &UserId, prompt_id: PromptId) -> (r: Result<
        String,
        MarketError,
    >)
        requires
            old(self).wf(),
        ensures
            final(self).wf(),
            match r {
                Ok(text) => {
                    &&& old(self)@.modify_error(caller@, prompt_id) is None
                    &&& final(self)@ == old(self)@.deleted(prompt_id)
                    &&& text@ == "Prompt deleted successfully"@
                },
                Err(e) => {
                    &&& old(self)@.modify_error(caller@, prompt_id) == Some(e)
                    &&& final(self)@ == old(self)@
                },
            },
    {
        let i = match self.find_prompt(prompt_id) {
            Some(i) => i,
            None => {
                return Err(MarketError::NotFound);
            },
        };
        if !self.can_modify(caller, &self.prompts[i]) {
            return Err(MarketError::Unauthorized);
        }
        let author = self.find_user(caller);
        proof {
            lemma_deleted_wf(self@, prompt_id);
        }
        self.prompts.remove(i);
        if let Some(j) = author {
            if self.users[j].prompts_created > 0 {
                self.users[j].prompts_created = self.users[j].prompts_created - 1;
            }
        }
        proof {
            assert(self@.prompts =~= old(self)@.prompts.remove(i as int));
            assert(self@.users =~= old(self)@.deleted(prompt_id).users);
            assert(self@ == old(self)@.deleted(prompt_id));
        }
        Ok(String::from_str("Prompt deleted successfully"))
    }

    /// Whether the ledgers can take the price of this prompt, should the
    /// caller buy it; so if there is no such prompt.
    pub fn can_settle(&self, caller: &UserId, prompt_id: PromptId) -> (r: bool)
        requires
            self.wf(),
        ensures
            r == (self@.has_prompt(prompt_id) ==> self@.can_settle(caller@, prompt_id)),
    {
        let i = match self.find_prompt(prompt_id) {
            Some(i) => i,
            None => {
                return true;
            },
        };
        let price = self.prompts[i].price;
        if let Some(b) = self.find_user(caller) {
            if self.users[b].total_spent > u64::MAX - price {
                return false;
            }
        }
        if let Some(a) = self.find_user(&self.prompts[i].author) {
            if self.users[a].total_earnings > u64::MAX - price {
                return false;
            }
        }
        true
    }

    /// Records that the caller buys a prompt: the purchase is logged and
    /// the counters of the prompt, the buyer and the seller are brought
    /// up to date. No money moves.
    pub fn purchase_prompt(&mut self, caller: &UserId, prompt_id: PromptId, now: u64) -> (r:
        Result<String, MarketError>)
        requires
            old(self).wf(),
            old(self)@.purchase_error(caller@, prompt_id) is None ==> old(self)@.can_settle(
                caller@,
                prompt_id,
            ),
        ensures
            final(self).wf(),
            match r {
                Ok(text) => {
                    &&& old(self)@.purchase_error(caller@, prompt_id) is None
                    &&& final(self)@ == old(self)@.purchased(caller@, prompt_id, now)
                    &&& text@ == "Purchase successful"@
                },
                Err(e) => {
                    &&& old(self)@.purchase_error(caller@, prompt_id) == Some(e)
                    &&& final(self)@ == old(self)@
                },
            },
    {
        let i = match self.find_prompt(prompt_id) {
            Some(i) => i,
            None => {
                return Err(MarketError::NotFound);
            },
        };
        if self.prompts[i].author.same(caller) {
            return Err(MarketError::SelfPurchase);
        }
        if self.has_purchased(caller, prompt_id) {
            return Err(MarketError::AlreadyPurchased);
        }
        let price = self.prompts[i].price;
        let buyer = self.find_user(caller);
        let seller = self.find_user(&self.prompts[i].author);
        let fact = Purchase {
            prompt_id,
            buyer: caller.clone(),
            seller: self.prompts[i].author.clone(),
            price,
            timestamp: now,
        };
        let ghost p = old(self)@.prompt(prompt_id);
        proof {
            lemma_tally_bounds(self@, i as int);
            if buyer is Some {
                lemma_user_bounds(self@, buyer->0 as int);
            }
            lemma_purchased_wf(self@, caller@, prompt_id, now);
            assert(fact@ == old(self)@.purchase_fact(caller@, prompt_id, now));
        }
        self.purchases.push(fact);
        assert(self.purchases.len() <= usize::MAX);
        self.prompts[i].purchases = self.prompts[i].purchases + 1;
        if let Some(b) = buyer {
            self.users[b].prompts_purchased = self.users[b].prompts_purchased + 1;
            self.users[b].total_spent = self.users[b].total_spent + price;
        }
        if let Some(a) = seller {
            self.users[a].total_earnings = self.users[a].total_earnings + price;
        }
        proof {
            let q = PromptView { purchases: p.purchases + 1, ..p };
            assert(self@.prompts =~= old(self)@.prompts.update(i as int, q));
            lemma_with_prompt(old(self)@, i as int, q);
            assert(self@.purchases =~= old(self)@.purchases.push(
                old(self)@.purchase_fact(caller@, prompt_id, now),
            ));
            assert(self@.users =~= old(self)@.purchased(caller@, prompt_id, now).users);
            assert(self@ == old(self)@.purchased(caller@, prompt_id, now));
        }
        Ok(String::from_str("Purchase successful"))
    }

    /// The content of a prompt, for a caller who may read it.
    pub fn get_prompt_content(&self, caller: &UserId, prompt_id: PromptId) -> (r: Result<
        String,
        MarketError,
    >)
        requires
            self.wf(),
        ensures
            match r {
                Ok(content) => {
                    &&& self@.read_error(caller@, prompt_id) is None
                    &&& content@ == self@.prompt(prompt_id).content
                },
                Err(e) => self@.read_error(caller@, prompt_id) == Some(e),
            },
    {
        let i = match self.find_prompt(prompt_id) {
            Some(i) => i,
            None => {
                return Err(MarketError::NotFound);
            },
        };
        if self.can_view_content(caller, &self.prompts[i]) {
            Ok(self.prompts[i].content.clone())
        } else {
            Err(MarketError::AccessDenied)
        }
    }

    /// The public prompts, in the order of their creation.
    pub fn get_public_prompts(&self) -> (r: Vec<Prompt>)
        ensures
            prompt_views(r@) == self@.public_prompts(),
    {
        let ghost keep = |p: PromptView| p.is_public;
        let mut out: Vec<Prompt> = Vec::new();
        let mut i: usize = 0;
        assert(self@.prompts.take(0) =~= Seq::<PromptView>::empty());
        proof {
            reveal(Seq::filter);
        }
        while i < self.prompts.len()
            invariant
                i <= self.prompts.len(),
                keep == (|p: PromptView| p.is_public),
                prompt_views(out@) == self@.prompts.take(i as int).filter(keep),
            decreases self.prompts.len() - i,
        {
            proof {
                reveal(Seq::filter);
                assert(self@.prompts.take(i + 1).drop_last() =~= self@.prompts.take(i as int));
            }
            if self.prompts[i].is_public {
                out.push(self.prompts[i].clone());
                assert(prompt_views(out@) =~= self@.prompts.take(i + 1).filter(keep));
            }
            i = i + 1;
        }
        assert(self@.prompts.take(i as int) =~= self@.prompts);
        out
    }

    /// The prompts that this user wrote, in the order of their creation,
    /// public or not.
    pub fn get_user_prompts(&self, user_id: &UserId) -> (r: Vec<Prompt>)
        ensures
            prompt_views(r@) == self@.prompts_by(user_id@),
    {
        let ghost keep = authored_by(user_id@);
        let mut out: Vec<Prompt> = Vec::new();
        let mut i: usize = 0;
        assert(self@.prompts.take(0) =~= Seq::<PromptView>::empty());
        proof {
            reveal(Seq::filter);
        }
        while i < self.prompts.len()
            invariant
                i <= self.prompts.len(),
                keep == authored_by(user_id@),
                prompt_views(out@) == self@.prompts.take(i as int).filter(keep),
            decreases self.prompts.len() - i,
        {
            proof {
                reveal(Seq::filter);
                assert(self@.prompts.take(i + 1).drop_last() =~= self@.prompts.take(i as int));
            }
            if self.prompts[i].author.same(user_id) {
                out.push(self.prompts[i].clone());
                assert(prompt_views(out@) =~= self@.prompts.take(i + 1).filter(keep));
            }
            i = i + 1;
        }
        assert(self@.prompts.take(i as int) =~= self@.prompts);
        out
    }

    /// The ids of the prompts that this user has bought, oldest first;
    /// none for a user of whom nothing is on record.
    pub fn get_user_purchases(&self, user_id: &UserId) -> (r: Vec<PromptId>)
        ensures
            r@ == self@.purchases_of(user_id@),
    {
        let ghost keep = bought_by(user_id@);
        let ghost id_of = |f: PurchaseView| f.prompt_id;
        let mut out: Vec<PromptId> = Vec::new();
        let mut k: usize = 0;
        assert(self@.purchases.take(0) =~= Seq::<PurchaseView>::empty());
        proof {
            reveal(Seq::filter);
        }
        assert(out@ =~= self@.purchases.take(0).filter(keep).map_values(id_of));
        while k < self.purchases.len()
            invariant
                k <= self.purchases.len(),
                keep == bought_by(user_id@),
                id_of == (|f: PurchaseView| f.prompt_id),
                out@ == self@.purchases.take(k as int).filter(keep).map_values(id_of),
            decreases self.purchases.len() - k,
        {
            proof {
                reveal(Seq::filter);
                assert(self@.purchases.take(k + 1).drop_last() =~= self@.purchases.take(k as int));
            }
            if self.purchases[k].buyer.same(user_id) {
                out.push(self.purchases[k].prompt_id);
                assert(out@ =~= self@.purchases.take(k + 1).filter(keep).map_values(id_of));
            }
            k = k + 1;
        }
        assert(self@.purchases.take(k as int) =~= self@.purchases);
        out
    }
}

impl Store {
    /// The public prompts that mention the query in their title, their
    /// description or a tag, letter case set aside, and that are of the
    /// category asked for, if one is: best first, and among prompts of
    /// one score the older first.
    pub fn search_prompts(&self, query: &str, category: Option<PromptCategory>) -> (r: Vec<Prompt>)
        requires
            self.wf(),
        ensures
            is_ranking(prompt_views(r@), self@.prompts, query@, category),
    {
        let needle = fold(query);
        let mut found: Vec<Prompt> = Vec::new();
        let mut i: usize = 0;
        assert(self@.prompts.take(0) =~= Seq::<PromptView>::empty());
        while i < self.prompts.len()
            invariant
                i <= self.prompts.len(),
                self.wf(),
                needle@ == folded(query@),
                is_ranking(prompt_views(found@), self@.prompts.take(i as int), query@, category),
                forall|k: int| 0 <= k < found.len() ==> (#[trigger] found[k])@.rating_in_range(),
            decreases self.prompts.len() - i,
        {
            let ghost ranked = prompt_views(found@);
            let ghost before = found@;
            if is_search_hit(&self.prompts[i], needle.as_str(), category) {
                let prompt = self.prompts[i].clone();
                proof {
                    lemma_tally_bounds(self@, i as int);
                }
                let pos = insertion_point(&found, &prompt);
                found.insert(pos, prompt);
                proof {
                    assert(pos < ranked.len() ==> ranked[pos as int] == before[pos as int]@);
                    assert forall|k: int| 0 <= k < pos implies ranks_before(
                        #[trigger] ranked[k],
                        self@.prompts[i as int],
                    ) by {
                        assert(ranked[k] == before[k]@);
                    }
                    lemma_ranking_hit(
                        ranked,
                        self@.prompts,
                        i as int,
                        pos as int,
                        query@,
                        category,
                    );
                    assert(prompt_views(found@) =~= ranked.insert(
                        pos as int,
                        self@.prompts[i as int],
                    ));
                }
            } else {
                proof {
                    lemma_ranking_miss(ranked, self@.prompts, i as int, query@, category);
                }
            }
            i = i + 1;
        }
        assert(self@.prompts.take(i as int) =~= self@.prompts);
        found
    }
}

} // verus!
