//! The bounds on what a caller may submit. Each check reports the first
//! bound that is broken, in a fixed order.

use crate::error::InputError;
use crate::text::{blank, char_count, is_blank};
use crate::types::{optional_text_view, text_views, CreatePromptRequest, UpdatePromptRequest};
use vstd::prelude::*;

verus! {

/// The most characters a title may have.
pub const MAX_TITLE_LENGTH: usize = 100;

/// The most characters a description may have.
pub const MAX_DESCRIPTION_LENGTH: usize = 500;

/// The most characters a content may have.
pub const MAX_CONTENT_LENGTH: usize = 10000;

/// The most tags a prompt may have.
pub const MAX_TAGS: usize = 10;

/// The most characters a tag may have.
pub const MAX_TAG_LENGTH: usize = 30;

/// The most characters a username may have.
pub const MAX_USERNAME_LENGTH: usize = 50;

/// What is wrong with a title, if anything: it must not be blank, and
/// untrimmed it has at most `MAX_TITLE_LENGTH` characters.
pub open spec fn title_error(title: Seq<char>) -> Option<InputError> {
    if is_blank(title) {
        Some(InputError::TitleEmpty)
    } else if title.len() > MAX_TITLE_LENGTH {
        Some(InputError::TitleTooLong)
    } else {
        None
    }
}

/// What is wrong with a description, if anything.
pub open spec fn description_error(description: Seq<char>) -> Option<InputError> {
    if description.len() > MAX_DESCRIPTION_LENGTH {
        Some(InputError::DescriptionTooLong)
    } else {
        None
    }
}

/// What is wrong with a content, if anything.
pub open spec fn content_error(content: Seq<char>) -> Option<InputError> {
    if is_blank(content) {
        Some(InputError::ContentEmpty)
    } else if content.len() > MAX_CONTENT_LENGTH {
        Some(InputError::ContentTooLong)
    } else {
        None
    }
}

/// What is wrong with a list of tags, if anything.
pub open spec fn tags_error(tags: Seq<Seq<char>>) -> Option<InputError> {
    if tags.len() > MAX_TAGS {
        Some(InputError::TooManyTags)
    } else if exists|i: int| 0 <= i < tags.len() && (#[trigger] tags[i]).len() > MAX_TAG_LENGTH {
        Some(InputError::TagTooLong)
    } else {
        None
    }
}

/// The first of two findings.
pub open spec fn first_error(a: Option<InputError>, b: Option<InputError>) -> Option<InputError> {
    if a is Some {
        a
    } else {
        b
    }
}

/// What is wrong with the fields of a new prompt, if anything: the first
/// finding on the title, the description, the content and the tags, in
/// this order.
pub open spec fn prompt_input_error(
    title: Seq<char>,
    description: Seq<char>,
    content: Seq<char>,
    tags: Seq<Seq<char>>,
) -> Option<InputError> {
    first_error(
        title_error(title),
        first_error(
            description_error(description),
            first_error(content_error(content), tags_error(tags)),
        ),
    )
}

/// What is wrong with a rating, if anything: it lies between 1 and 5.
pub open spec fn rating_error(rating: u8) -> Option<InputError> {
    if rating < 1 || rating > 5 {
        Some(InputError::RatingOutOfRange)
    } else {
        None
    }
}

/// What is wrong with the username of a new user, if anything: where one
/// is given, it is not blank and has at most `MAX_USERNAME_LENGTH`
/// characters.
pub open spec fn username_error(username: Option<Seq<char>>) -> Option<InputError> {
    match username {
        Some(name) => if is_blank(name) || name.len() > MAX_USERNAME_LENGTH {
            Some(InputError::InvalidUsername)
        } else {
            None
        },
        None => None,
    }
}

/// The finding on a field that an update may leave out.
pub open spec fn when_given(
    field: Option<Seq<char>>,
    check: spec_fn(Seq<char>) -> Option<InputError>,
) -> Option<InputError> {
    match field {
        Some(text) => check(text),
        None => None,
    }
}

impl CreatePromptRequest {
    /// What is wrong with this request, if anything.
    pub open spec fn input_error(&self) -> Option<InputError> {
        prompt_input_error(
            self.title@,
            self.description@,
            self.content@,
            text_views(self.tags@),
        )
    }
}

impl UpdatePromptRequest {
    /// What is wrong with this request, if anything: the first finding on
    /// the fields that it gives, in the order title, description, content,
    /// tags.
    pub open spec fn input_error(&self) -> Option<InputError> {
        first_error(
            when_given(optional_text_view(self.title), |t: Seq<char>| title_error(t)),
            first_error(
                when_given(
                    optional_text_view(self.description),
                    |t: Seq<char>| description_error(t),
                ),
                first_error(
                    when_given(optional_text_view(self.content), |t: Seq<char>| content_error(t)),
                    match self.tags {
                        Some(tags) => tags_error(text_views(tags@)),
                        None => None,
                    },
                ),
            ),
        )
    }
}

/// The verdict of a check as a `Result`.
pub open spec fn verdict(finding: Option<InputError>) -> Result<(), InputError> {
    match finding {
        Some(e) => Err(e),
        None => Ok(()),
    }
}

/// Checks a title.
pub fn validate_title(title: &str) -> (r: Result<(), InputError>)
    ensures
        r == verdict(title_error(title@)),
{
    if blank(title) {
        return Err(InputError::TitleEmpty);
    }
    if char_count(title) > MAX_TITLE_LENGTH {
        return Err(InputError::TitleTooLong);
    }
    Ok(())
}

/// Checks a description.
pub fn validate_description(description: &str) -> (r: Result<(), InputError>)
    ensures
        r == verdict(description_error(description@)),
{
    if char_count(description) > MAX_DESCRIPTION_LENGTH {
        return Err(InputError::DescriptionTooLong);
    }
    Ok(())
}

/// Checks a content.
pub fn validate_content(content: &str) -> (r: Result<(), InputError>)
    ensures
        r == verdict(content_error(content@)),
{
    if blank(content) {
        return Err(InputError::ContentEmpty);
    }
    if char_count(content) > MAX_CONTENT_LENGTH {
        return Err(InputError::ContentTooLong);
    }
    Ok(())
}

/// Checks a list of tags.
pub fn validate_tags(tags: &Vec<String>) -> (r: Result<(), InputError>)
    ensures
        r == verdict(tags_error(text_views(tags@))),
{
    if tags.len() > MAX_TAGS {
        return Err(InputError::TooManyTags);
    }
    let ghost views = text_views(tags@);
    let mut i: usize = 0;
    while i < tags.len()
        invariant
            i <= tags.len() <= MAX_TAGS,
            views == text_views(tags@),
            forall|k: int| 0 <= k < i ==> (#[trigger] views[k]).len() <= MAX_TAG_LENGTH,
        decreases tags.len() - i,
    {
        if char_count(tags[i].as_str()) > MAX_TAG_LENGTH {
            assert(views[i as int] == tags@[i as int]@);
            assert(text_views(tags@)[i as int].len() > MAX_TAG_LENGTH);
            return Err(InputError::TagTooLong);
        }
        assert(views[i as int] == tags@[i as int]@);
        i = i + 1;
    }
    Ok(())
}

/// Checks the fields of a new prompt and reports the first bound that is
/// broken.
pub fn validate_prompt_input(request: &CreatePromptRequest) -> (r: Result<(), InputError>)
    ensures
        r == verdict(request.input_error()),
{
    validate_title(request.title.as_str())?;
    validate_description(request.description.as_str())?;
    validate_content(request.content.as_str())?;
    validate_tags(&request.tags)
}

/// Checks the fields that an update gives and reports the first bound that
/// is broken.
pub fn validate_update(request: &UpdatePromptRequest) -> (r: Result<(), InputError>)
    ensures
        r == verdict(request.input_error()),
{
    if let Some(title) = &request.title {
        validate_title(title.as_str())?;
    }
    if let Some(description) = &request.description {
        validate_description(description.as_str())?;
    }
    if let Some(content) = &request.content {
        validate_content(content.as_str())?;
    }
    if let Some(tags) = &request.tags {
        validate_tags(tags)?;
    }
    Ok(())
}

/// Checks a rating.
pub fn validate_rating(rating: u8) -> (r: Result<(), InputError>)
    ensures
        r == verdict(rating_error(rating)),
{
    if rating < 1 || rating > 5 {
        return Err(InputError::RatingOutOfRange);
    }
    Ok(())
}

/// Checks the username of a new user.
pub fn validate_username(username: &Option<String>) -> (r: Result<(), InputError>)
    ensures
        r == verdict(username_error(optional_text_view(*username))),
{
    if let Some(name) = username {
        if blank(name.as_str()) || char_count(name.as_str()) > MAX_USERNAME_LENGTH {
            return Err(InputError::InvalidUsername);
        }
    }
    Ok(())
}

} // verus!
