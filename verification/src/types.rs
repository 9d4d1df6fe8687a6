//! The records that the marketplace keeps and the requests that it takes,
//! each with its mathematical view.

use vstd::prelude::*;

verus! {

/// Prompts are numbered in the order of their creation.
pub type PromptId = u64;

/// An opaque caller identity: the bytes that the host names a caller by.
#[derive(Debug, PartialEq, Eq, Hash)]
pub struct UserId {
    pub bytes: Vec<u8>,
}

impl View for UserId {
    type V = Seq<u8>;

    open spec fn view(&self) -> Seq<u8> {
        self.bytes@
    }
}

impl Clone for UserId {
    fn clone(&self) -> (r: Self)
        ensures
            r@ == self@,
    {
        let bytes = self.bytes.clone();
        assert(bytes@ =~= self.bytes@);
        UserId { bytes }
    }
}

impl UserId {
    /// The identity that the given bytes name.
    pub fn from_bytes(bytes: Vec<u8>) -> (r: UserId)
        ensures
            r@ == bytes@,
    {
        UserId { bytes }
    }

    /// Whether two identities are the same.
    pub fn same(&self, other: &UserId) -> (r: bool)
        ensures
            r == (self@ == other@),
    {
        let r = self.bytes == other.bytes;
        assert(r ==> self.bytes@ =~= other.bytes@);
        r
    }
}

/// The category under which a prompt is listed.
#[derive(Clone, Copy, Debug, PartialEq, Eq, Structural)]
pub enum PromptCategory {
    Marketing,
    Development,
    Writing,
    Business,
    Education,
    Creative,
    Other,
}

/// The views of a list of texts.
pub open spec fn text_views(texts: Seq<String>) -> Seq<Seq<char>> {
    texts.map_values(|t: String| t@)
}

/// The view of an optional text.
pub open spec fn optional_text_view(text: Option<String>) -> Option<Seq<char>> {
    match text {
        Some(t) => Some(t@),
        None => None,
    }
}

/// A copy of a list of texts.
pub fn clone_texts(texts: &Vec<String>) -> (r: Vec<String>)
    ensures
        text_views(r@) == text_views(texts@),
{
    let mut out: Vec<String> = Vec::new();
    let mut i: usize = 0;
    while i < texts.len()
        invariant
            i <= texts.len(),
            out@.len() == i,
            forall|k: int| 0 <= k < i ==> out@[k]@ == texts@[k]@,
        decreases texts.len() - i,
    {
        out.push(texts[i].clone());
        i = i + 1;
    }
    assert(text_views(out@) =~= text_views(texts@));
    out
}

/// A copy of an optional text.
pub fn clone_optional_text(text: &Option<String>) -> (r: Option<String>)
    ensures
        optional_text_view(r) == optional_text_view(*text),
{
    match text {
        Some(t) => Some(t.clone()),
        None => None,
    }
}

/// A prompt as the store keeps it. The rating is held exactly, as the sum of
/// the ratings on record and their number; the average is their quotient.
#[derive(Debug, PartialEq, Eq)]
pub struct Prompt {
    pub id: PromptId,
    pub title: String,
    pub description: String,
    pub content: String,
    pub author: UserId,
    pub category: PromptCategory,
    pub tags: Vec<String>,
    pub price: u64,
    pub is_premium: bool,
    pub is_public: bool,
    pub created_at: u64,
    pub updated_at: u64,
    pub likes: u64,
    pub purchases: u64,
    pub rating_sum: u128,
    pub total_ratings: u64,
}

/// What a prompt holds, as plain values.
pub struct PromptView {
    pub id: PromptId,
    pub title: Seq<char>,
    pub description: Seq<char>,
    pub content: Seq<char>,
    pub author: Seq<u8>,
    pub category: PromptCategory,
    pub tags: Seq<Seq<char>>,
    pub price: u64,
    pub is_premium: bool,
    pub is_public: bool,
    pub created_at: u64,
    pub updated_at: u64,
    pub likes: nat,
    pub purchases: nat,
    pub rating_sum: nat,
    pub total_ratings: nat,
}

impl PromptView {
    /// Ten times the average rating, rounded down; zero while unrated.
    pub open spec fn rating_tenths(self) -> nat {
        if self.total_ratings == 0 {
            0
        } else {
            (10 * self.rating_sum) / self.total_ratings
        }
    }

    /// The score by which search ranks a prompt.
    pub open spec fn score(self) -> nat {
        self.likes + self.purchases + self.rating_tenths()
    }

    /// The sum of the ratings fits their number: each lies between 1 and 5.
    pub open spec fn rating_in_range(self) -> bool {
        self.total_ratings <= self.rating_sum <= 5 * self.total_ratings
    }
}

impl View for Prompt {
    type V = PromptView;

    open spec fn view(&self) -> PromptView {
        PromptView {
            id: self.id,
            title: self.title@,
            description: self.description@,
            content: self.content@,
            author: self.author@,
            category: self.category,
            tags: text_views(self.tags@),
            price: self.price,
            is_premium: self.is_premium,
            is_public: self.is_public,
            created_at: self.created_at,
            updated_at: self.updated_at,
            likes: self.likes as nat,
            purchases: self.purchases as nat,
            rating_sum: self.rating_sum as nat,
            total_ratings: self.total_ratings as nat,
        }
    }
}

/// The views of a list of prompts.
pub open spec fn prompt_views(prompts: Seq<Prompt>) -> Seq<PromptView> {
    prompts.map_values(|p: Prompt| p@)
}

impl Clone for Prompt {
    fn clone(&self) -> (r: Self)
        ensures
            r@ == self@,
    {
        Prompt {
            id: self.id,
            title: self.title.clone(),
            description: self.description.clone(),
            content: self.content.clone(),
            author: self.author.clone(),
            category: self.category,
            tags: clone_texts(&self.tags),
            price: self.price,
            is_premium: self.is_premium,
            is_public: self.is_public,
            created_at: self.created_at,
            updated_at: self.updated_at,
            likes: self.likes,
            purchases: self.purchases,
            rating_sum: self.rating_sum,
            total_ratings: self.total_ratings,
        }
    }
}

impl Prompt {
    /// Ten times the average rating, rounded down; zero while unrated.
    pub fn rating_tenths(&self) -> (r: u64)
        requires
            self@.rating_in_range(),
        ensures
            r == self@.rating_tenths(),
            r <= 50,
    {
        if self.total_ratings == 0 {
            0
        } else {
            let scaled: u128 = 10 * self.rating_sum;
            let count: u128 = self.total_ratings as u128;
            let q: u128 = scaled / count;
            assert(q <= 50) by (nonlinear_arith)
                requires
                    q == scaled / count,
                    count > 0,
                    scaled <= 50 * count,
            ;
            q as u64
        }
    }

    /// The score by which search ranks this prompt.
    pub fn score(&self) -> (r: u128)
        requires
            self@.rating_in_range(),
        ensures
            r == self@.score(),
    {
        self.likes as u128 + self.purchases as u128 + self.rating_tenths() as u128
    }
}

/// What is asked for when a prompt is created.
#[derive(Debug, PartialEq, Eq)]
pub struct CreatePromptRequest {
    pub title: String,
    pub description: String,
    pub content: String,
    pub category: PromptCategory,
    pub tags: Vec<String>,
    pub price: u64,
    pub is_premium: bool,
    pub is_public: bool,
}

/// A partial update of a prompt: a field that is `None` stays as it is.
#[derive(Debug, PartialEq, Eq)]
pub struct UpdatePromptRequest {
    pub id: PromptId,
    pub title: Option<String>,
    pub description: Option<String>,
    pub content: Option<String>,
    pub category: Option<PromptCategory>,
    pub tags: Option<Vec<String>>,
    pub price: Option<u64>,
    pub is_premium: Option<bool>,
    pub is_public: Option<bool>,
}

/// A rating of a prompt, from one to five stars.
#[derive(Clone, Copy, Debug, PartialEq, Eq)]
pub struct RatePromptRequest {
    pub prompt_id: PromptId,
    pub rating: u8,
}

/// One purchase, as the log records it.
#[derive(Debug, PartialEq, Eq)]
pub struct Purchase {
    pub prompt_id: PromptId,
    pub buyer: UserId,
    pub seller: UserId,
    pub price: u64,
    pub timestamp: u64,
}

/// What a purchase holds, as plain values.
pub struct PurchaseView {
    pub prompt_id: PromptId,
    pub buyer: Seq<u8>,
    pub seller: Seq<u8>,
    pub price: u64,
    pub timestamp: u64,
}

impl View for Purchase {
    type V = PurchaseView;

    open spec fn view(&self) -> PurchaseView {
        PurchaseView {
            prompt_id: self.prompt_id,
            buyer: self.buyer@,
            seller: self.seller@,
            price: self.price,
            timestamp: self.timestamp,
        }
    }
}

/// The views of a list of purchases.
pub open spec fn purchase_views(purchases: Seq<Purchase>) -> Seq<PurchaseView> {
    purchases.map_values(|f: Purchase| f@)
}

impl Clone for Purchase {
    fn clone(&self) -> (r: Self)
        ensures
            r@ == self@,
    {
        Purchase {
            prompt_id: self.prompt_id,
            buyer: self.buyer.clone(),
            seller: self.seller.clone(),
            price: self.price,
            timestamp: self.timestamp,
        }
    }
}

/// A registered user with the counters kept for them.
#[derive(Debug, PartialEq, Eq)]
pub struct User {
    pub id: UserId,
    pub username: Option<String>,
    pub email: Option<String>,
    pub joined_at: u64,
    pub total_earnings: u64,
    pub total_spent: u64,
    pub prompts_created: u64,
    pub prompts_purchased: u64,
}

/// What a user record holds, as plain values.
pub struct UserView {
    pub id: Seq<u8>,
    pub username: Option<Seq<char>>,
    pub email: Option<Seq<char>>,
    pub joined_at: u64,
    pub total_earnings: nat,
    pub total_spent: nat,
    pub prompts_created: nat,
    pub prompts_purchased: nat,
}

impl View for User {
    type V = UserView;

    open spec fn view(&self) -> UserView {
        UserView {
            id: self.id@,
            username: optional_text_view(self.username),
            email: optional_text_view(self.email),
            joined_at: self.joined_at,
            total_earnings: self.total_earnings as nat,
            total_spent: self.total_spent as nat,
            prompts_created: self.prompts_created as nat,
            prompts_purchased: self.prompts_purchased as nat,
        }
    }
}

impl Clone for User {
    fn clone(&self) -> (r: Self)
        ensures
            r@ == self@,
    {
        User {
            id: self.id.clone(),
            username: clone_optional_text(&self.username),
            email: clone_optional_text(&self.email),
            joined_at: self.joined_at,
            total_earnings: self.total_earnings,
            total_spent: self.total_spent,
            prompts_created: self.prompts_created,
            prompts_purchased: self.prompts_purchased,
        }
    }
}

} // verus!
