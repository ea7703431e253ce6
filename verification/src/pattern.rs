//! The textual stage: the pattern of a rating summary and the numerals in it.

use crate::extraction::ExtractionError;
use crate::numeral::{decimal_value, is_count, is_decimal, is_decimal_numeral, parse_count};
use vstd::prelude::*;

verus! {

/// The pattern of a rating summary, `(<decimal>, <integer> ratings)`: the
/// first group takes the rating, a run of digits and points, and the second
/// the number of reviews, a run of digits.
pub const RATING_PATTERN: &'static str = "\\(([0-9.]+), ([0-9]+) ratings\\)";

/// The rating and the number of reviews that a summary states.
#[derive(Clone, Debug, PartialEq, Eq)]
pub struct Numerals {
    /// The rating, as the decimal numeral the summary writes.
    pub rating: String,
    /// The number of reviews.
    pub review_count: i8,
}

/// What a [`Numerals`] value holds.
pub struct NumeralsView {
    pub rating: Seq<char>,
    pub review_count: i8,
}

impl View for Numerals {
    type V = NumeralsView;

    open spec fn view(&self) -> NumeralsView {
        NumeralsView { rating: self.rating@, review_count: self.review_count }
    }
}

/// What a search of `text` for the regular expression `pattern` comes to:
/// `None` where `pattern` does not compile, `Some(None)` where nothing in
/// `text` matches, and else the groups of the first match, the leftmost in
/// `text`: the whole match, then the groups in the order of their opening
/// brackets, with `None` for a group that took no part in the match.
pub uninterp spec fn leftmost_captures(pattern: Seq<char>, text: Seq<char>) -> Option<
    Option<Seq<Option<Seq<char>>>>,
>;

/// Compiles `pattern` with `regex::Regex::new`, searches `text` with
/// `regex::Regex::captures`, and copies out what each group matched. The
/// pattern is compiled at every call, so that the outcome is a matter of the
/// two texts and of nothing kept between calls.
///
/// Nothing is proved of the search. The contract only claims that its outcome
/// depends on the two texts alone, and gives that outcome its name.
#[verifier::external_body]
fn capture(pattern: &str, text: &str) -> (found: Option<Option<Vec<Option<String>>>>)
    ensures
        found.deep_view() == leftmost_captures(pattern@, text@),
{
    match regex::Regex::new(pattern) {
        Ok(compiled) => Some(
            compiled.captures(text).map(
                |groups|
                    groups.iter().map(|group| group.map(|part| part.as_str().to_string())).collect(),
            ),
        ),
        Err(_) => None,
    }
}

/// The numerals that the groups of a match carry: the first group as the
/// rating and the second as the number of reviews, where both are there and
/// well formed.
pub open spec fn numerals_in(groups: Seq<Option<Seq<char>>>) -> Result<
    NumeralsView,
    ExtractionError,
> {
    if groups.len() > 2 && groups[1] is Some && groups[2] is Some && is_decimal(groups[1]->0)
        && is_count(groups[2]->0) {
        Ok(
            NumeralsView {
                rating: groups[1]->0,
                review_count: decimal_value(groups[2]->0) as i8,
            },
        )
    } else {
        Err(ExtractionError::MalformedNumeral)
    }
}

/// What the textual stage makes of a search for the pattern.
pub open spec fn numerals_found(found: Option<Option<Seq<Option<Seq<char>>>>>) -> Result<
    NumeralsView,
    ExtractionError,
> {
    match found {
        None => Err(ExtractionError::QueryRefused),
        Some(None) => Err(ExtractionError::PatternMismatch),
        Some(Some(groups)) => numerals_in(groups),
    }
}

/// What the textual stage makes of the summary `fragment`.
pub open spec fn summary_numerals(fragment: Seq<char>) -> Result<NumeralsView, ExtractionError> {
    numerals_found(leftmost_captures(RATING_PATTERN@, fragment))
}

/// The view of a stage's outcome.
pub open spec fn numerals_view(outcome: Result<Numerals, ExtractionError>) -> Result<
    NumeralsView,
    ExtractionError,
> {
    match outcome {
        Ok(numerals) => Ok(numerals@),
        Err(error) => Err(error),
    }
}

/// Reads the numerals out of the groups of a match.
pub fn numerals_from_groups(groups: &Vec<Option<String>>) -> (outcome: Result<
    Numerals,
    ExtractionError,
>)
    ensures
        numerals_view(outcome) == numerals_in(groups.deep_view()),
{
    if groups.len() <= 2 {
        return Err(ExtractionError::MalformedNumeral);
    }
    match (&groups[1], &groups[2]) {
        (Some(rating), Some(reviews)) => {
            if !is_decimal_numeral(rating.as_str()) {
                return Err(ExtractionError::MalformedNumeral);
            }
            match parse_count(reviews.as_str()) {
                Some(review_count) => Ok(Numerals { rating: rating.clone(), review_count }),
                None => Err(ExtractionError::MalformedNumeral),
            }
        },
        _ => Err(ExtractionError::MalformedNumeral),
    }
}

/// Settles the textual stage from what the search for the pattern found.
pub fn numerals_from_search(found: Option<Option<Vec<Option<String>>>>) -> (outcome: Result<
    Numerals,
    ExtractionError,
>)
    ensures
        numerals_view(outcome) == numerals_found(found.deep_view()),
{
    match found {
        None => Err(ExtractionError::QueryRefused),
        Some(None) => Err(ExtractionError::PatternMismatch),
        Some(Some(groups)) => numerals_from_groups(&groups),
    }
}

/// The textual stage: finds the first `(<decimal>, <integer> ratings)` in
/// `fragment` and reads its two numerals.
pub fn read_summary(fragment: &str) -> (outcome: Result<Numerals, ExtractionError>)
    ensures
        numerals_view(outcome) == summary_numerals(fragment@),
{
    numerals_from_search(capture(RATING_PATTERN, fragment))
}

} // verus!
