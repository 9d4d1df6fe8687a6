//! The failures that the marketplace reports, and the envelope in which a
//! result is handed to a caller.

use vstd::prelude::*;
use vstd::string::*;

verus! {

/// Which bound an input breaks.
#[derive(Clone, Copy, Debug, PartialEq, Eq, Structural)]
pub enum InputError {
    TitleEmpty,
    TitleTooLong,
    DescriptionTooLong,
    ContentEmpty,
    ContentTooLong,
    TooManyTags,
    TagTooLong,
    RatingOutOfRange,
    InvalidUsername,
}

/// Why an operation of the marketplace was refused.
#[derive(Clone, Copy, Debug, PartialEq, Eq, Structural)]
pub enum MarketError {
    /// A field breaks one of its bounds.
    InvalidInput(InputError),
    /// No record has the given id.
    NotFound,
    /// The caller is not registered.
    UserNotFound,
    /// The caller is not the author of the prompt.
    Unauthorized,
    /// The caller is registered already.
    AlreadyExists,
    /// The caller has bought the prompt before.
    AlreadyPurchased,
    /// The caller likes the prompt already.
    AlreadyLiked,
    /// The caller does not like the prompt.
    NotLiked,
    /// An author cannot buy their own prompt.
    SelfPurchase,
    /// An author cannot rate their own prompt.
    SelfRating,
    /// Only a buyer may rate a prompt that is not public.
    PurchaseRequired,
    /// The caller may not read the content.
    AccessDenied,
}

impl InputError {
    /// The text that reports this failure.
    pub open spec fn message_text(self) -> Seq<char> {
        match self {
            InputError::TitleEmpty => "Title cannot be empty"@,
            InputError::TitleTooLong => "Title cannot exceed 100 characters"@,
            InputError::DescriptionTooLong => "Description cannot exceed 500 characters"@,
            InputError::ContentEmpty => "Content cannot be empty"@,
            InputError::ContentTooLong => "Content cannot exceed 10000 characters"@,
            InputError::TooManyTags => "Cannot have more than 10 tags"@,
            InputError::TagTooLong => "Tag cannot exceed 30 characters"@,
            InputError::RatingOutOfRange => "Rating must be between 1 and 5"@,
            InputError::InvalidUsername => "Username must be between 1 and 50 characters"@,
        }
    }

    /// The text that reports this failure.
    pub fn message(&self) -> (r: String)
        ensures
            r@ == self.message_text(),
    {
        match self {
            InputError::TitleEmpty => String::from_str("Title cannot be empty"),
            InputError::TitleTooLong => String::from_str("Title cannot exceed 100 characters"),
            InputError::DescriptionTooLong => String::from_str(
                "Description cannot exceed 500 characters",
            ),
            InputError::ContentEmpty => String::from_str("Content cannot be empty"),
            InputError::ContentTooLong => String::from_str(
                "Content cannot exceed 10000 characters",
            ),
            InputError::TooManyTags => String::from_str("Cannot have more than 10 tags"),
            InputError::TagTooLong => String::from_str("Tag cannot exceed 30 characters"),
            InputError::RatingOutOfRange => String::from_str("Rating must be between 1 and 5"),
            InputError::InvalidUsername => String::from_str(
                "Username must be between 1 and 50 characters",
            ),
        }
    }
}

impl MarketError {
    /// The text that reports this failure.
    pub open spec fn message_text(self) -> Seq<char> {
        match self {
            MarketError::InvalidInput(e) => e.message_text(),
            MarketError::NotFound => "Record not found"@,
            MarketError::UserNotFound => "User not found. Please create a user first."@,
            MarketError::Unauthorized => "Unauthorized"@,
            MarketError::AlreadyExists => "User already exists"@,
            MarketError::AlreadyPurchased => "Prompt already purchased"@,
            MarketError::AlreadyLiked => "Prompt already liked"@,
            MarketError::NotLiked => "Prompt was not liked"@,
            MarketError::SelfPurchase => "Cannot purchase your own prompt"@,
            MarketError::SelfRating => "Cannot rate your own prompt"@,
            MarketError::PurchaseRequired => "Must purchase prompt to rate it"@,
            MarketError::AccessDenied => "Access denied. Purchase required."@,
        }
    }

    /// The text that reports this failure.
    pub fn message(&self) -> (r: String)
        ensures
            r@ == self.message_text(),
    {
        match self {
            MarketError::InvalidInput(e) => e.message(),
            MarketError::NotFound => String::from_str("Record not found"),
            MarketError::UserNotFound => String::from_str(
                "User not found. Please create a user first.",
            ),
            MarketError::Unauthorized => String::from_str("Unauthorized"),
            MarketError::AlreadyExists => String::from_str("User already exists"),
            MarketError::AlreadyPurchased => String::from_str("Prompt already purchased"),
            MarketError::AlreadyLiked => String::from_str("Prompt already liked"),
            MarketError::NotLiked => String::from_str("Prompt was not liked"),
            MarketError::SelfPurchase => String::from_str("Cannot purchase your own prompt"),
            MarketError::SelfRating => String::from_str("Cannot rate your own prompt"),
            MarketError::PurchaseRequired => String::from_str("Must purchase prompt to rate it"),
            MarketError::AccessDenied => String::from_str("Access denied. Purchase required."),
        }
    }
}

/// The envelope in which every result is handed to a caller: either the
/// data of a success, or the message of a failure.
#[derive(Debug, PartialEq, Eq)]
pub struct ApiResponse<T> {
    pub success: bool,
    pub data: Option<T>,
    pub error: Option<String>,
}

impl<T> ApiResponse<T> {
    /// The envelope of a success.
    pub fn ok(data: T) -> (r: Self)
        ensures
            r.success,
            r.data == Some(data),
            r.error is None,
    {
        ApiResponse { success: true, data: Some(data), error: None }
    }

    /// The envelope of a failure.
    pub fn fail(error: MarketError) -> (r: Self)
        ensures
            !r.success,
            r.data is None,
            r.error is Some,
            r.error->0@ == error.message_text(),
    {
        ApiResponse { success: false, data: None, error: Some(error.message()) }
    }

    /// The envelope of a result.
    pub fn from_result(result: Result<T, MarketError>) -> (r: Self)
        ensures
            r.success == (result is Ok),
            match result {
                Ok(data) => r.data == Some(data) && r.error is None,
                Err(e) => r.data is None && r.error is Some && r.error->0@ == e.message_text(),
            },
    {
        match result {
            Ok(data) => Self::ok(data),
            Err(e) => Self::fail(e),
        }
    }
}

} // verus!
