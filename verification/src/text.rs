//! Text primitives used by validation and search: trimming, case folding
//! and substring tests, with their meaning stated over sequences of
//! characters.

use vstd::prelude::*;

verus! {

/// Whether a character has the Unicode `White_Space` property, by which
/// `str::trim` decides what to remove.
pub uninterp spec fn whitespace(c: char) -> bool;

/// The lowercase form of a text, as `str::to_lowercase` computes it.
pub uninterp spec fn lowercase(s: Seq<char>) -> Seq<char>;

/// `s` without its leading whitespace.
pub open spec fn strip_start(s: Seq<char>) -> Seq<char>
    decreases s.len(),
{
    if s.len() > 0 && whitespace(s.first()) {
        strip_start(s.drop_first())
    } else {
        s
    }
}

/// `s` without its trailing whitespace.
pub open spec fn strip_end(s: Seq<char>) -> Seq<char>
    decreases s.len(),
{
    if s.len() > 0 && whitespace(s.last()) {
        strip_end(s.drop_last())
    } else {
        s
    }
}

/// `s` without its surrounding whitespace.
pub open spec fn trimmed(s: Seq<char>) -> Seq<char> {
    strip_end(strip_start(s))
}

/// A text is blank when nothing is left of it after trimming.
pub open spec fn is_blank(s: Seq<char>) -> bool {
    trimmed(s).len() == 0
}

/// The form of a text that search compares: its lowercase form, the empty
/// text staying empty.
pub open spec fn folded(s: Seq<char>) -> Seq<char> {
    if s.len() == 0 {
        s
    } else {
        lowercase(s)
    }
}

/// `needle` stands in `hay` at position `i`.
pub open spec fn occurs_at(needle: Seq<char>, hay: Seq<char>, i: int) -> bool {
    &&& 0 <= i
    &&& i + needle.len() <= hay.len()
    &&& hay.subrange(i, i + needle.len()) == needle
}

/// `needle` stands somewhere in `hay`.
pub open spec fn is_substring(needle: Seq<char>, hay: Seq<char>) -> bool {
    exists|i: int| occurs_at(needle, hay, i)
}

/// Calls `str::trim`. Trusted: the result is the argument with the longest
/// run of whitespace characters removed from each end, so that what is left
/// neither starts nor ends with one.
#[verifier::external_body]
fn trim(s: &str) -> (r: &str)
    ensures
        r@ == trimmed(s@),
        r@.len() > 0 ==> !whitespace(r@.first()) && !whitespace(r@.last()),
{
    s.trim()
}

/// Calls `str::to_lowercase`. Trusted: the result is a function of the
/// argument's characters alone, and the empty text has an empty lowercase
/// form.
#[verifier::external_body]
fn to_lowercase(s: &str) -> (r: String)
    ensures
        r@ == lowercase(s@),
        s@.len() == 0 ==> r@.len() == 0,
{
    s.to_lowercase()
}

/// Calls `str::contains` with a string pattern. Trusted: the result tells
/// whether the pattern's characters stand, in order and without a gap,
/// somewhere in the text.
#[verifier::external_body]
fn contains(hay: &str, needle: &str) -> (r: bool)
    ensures
        r == is_substring(needle@, hay@),
{
    hay.contains(needle)
}

/// The number of characters of a text.
pub fn char_count(s: &str) -> (n: usize)
    ensures
        n == s@.len(),
{
    s.unicode_len()
}

/// Whether a text is blank.
pub fn blank(s: &str) -> (r: bool)
    ensures
        r == is_blank(s@),
{
    trim(s).is_empty()
}

/// A text without its surrounding whitespace, as a new `String`.
pub fn trim_owned(s: &str) -> (r: String)
    ensures
        r@ == trimmed(s@),
{
    trim(s).to_owned()
}

/// The form of a text that search compares.
pub fn fold(s: &str) -> (r: String)
    ensures
        r@ == folded(s@),
{
    let r = to_lowercase(s);
    assert(r@ =~= folded(s@));
    r
}

/// Whether `text` holds a query, letter case set aside. The query is given
/// folded already.
pub fn mentions_folded(text: &str, folded_query: &str) -> (r: bool)
    ensures
        r == is_substring(folded_query@, folded(text@)),
{
    let low = fold(text);
    contains(low.as_str(), folded_query)
}

/// Removing leading whitespace never lengthens a text.
pub proof fn lemma_strip_start_len(s: Seq<char>)
    ensures
        strip_start(s).len() <= s.len(),
    decreases s.len(),
{
    if s.len() > 0 && whitespace(s.first()) {
        lemma_strip_start_len(s.drop_first());
    }
}

/// Removing trailing whitespace never lengthens a text.
pub proof fn lemma_strip_end_len(s: Seq<char>)
    ensures
        strip_end(s).len() <= s.len(),
    decreases s.len(),
{
    if s.len() > 0 && whitespace(s.last()) {
        lemma_strip_end_len(s.drop_last());
    }
}

/// Trimming never lengthens a text.
pub proof fn lemma_trimmed_len(s: Seq<char>)
    ensures
        trimmed(s).len() <= s.len(),
{
    lemma_strip_start_len(s);
    lemma_strip_end_len(strip_start(s));
}

/// The empty text stands in every text.
pub proof fn lemma_empty_is_substring(hay: Seq<char>)
    ensures
        is_substring(Seq::<char>::empty(), hay),
{
    assert(hay.subrange(0, 0) =~= Seq::<char>::empty());
    assert(occurs_at(Seq::<char>::empty(), hay, 0));
}

} // verus!
