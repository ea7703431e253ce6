//! Reading a page: the title, then the rating summary, then its numerals.

use crate::markup::{
    find_elements, find_summary, page_fits, page_summary, page_title, text_view,
};
use crate::pattern::{numerals_view, read_summary, summary_numerals, Numerals, NumeralsView};
use vstd::prelude::*;

verus! {

/// Why a page did not give up all of its fields.
#[derive(Clone, Copy, Debug, PartialEq, Eq, Structural)]
pub enum ExtractionError {
    /// The page has no top-level heading.
    NoTitle,
    /// The page has no element that sums up its reviews.
    NoRatingElement,
    /// The summary does not read `(<decimal>, <integer> ratings)` anywhere.
    PatternMismatch,
    /// The summary matches, but a captured group is missing, the rating is no
    /// decimal numeral, or the number of reviews is not a small integer.
    MalformedNumeral,
    /// A selector or the pattern was turned down by the engine that reads it.
    QueryRefused,
    /// The page is longer than [`crate::markup::PAGE_BYTES_MAX`] bytes and
    /// was not searched.
    PageTooLong,
}

/// All that a page states of its event.
#[derive(Clone, Debug, PartialEq, Eq)]
pub struct Reading {
    /// The title.
    pub name: String,
    /// The rating, as the decimal numeral the page writes.
    pub rating: String,
    /// The number of reviews.
    pub review_count: i8,
}

/// A reading that stopped early.
#[derive(Clone, Debug, PartialEq, Eq)]
pub struct Failure {
    /// What stopped it.
    pub error: ExtractionError,
    /// The title, where the title stage had passed.
    pub name: Option<String>,
}

/// What a [`Reading`] holds.
pub struct ReadingView {
    pub name: Seq<char>,
    pub rating: Seq<char>,
    pub review_count: i8,
}

/// What a [`Failure`] holds.
pub struct FailureView {
    pub error: ExtractionError,
    pub name: Option<Seq<char>>,
}

impl View for Reading {
    type V = ReadingView;

    open spec fn view(&self) -> ReadingView {
        ReadingView { name: self.name@, rating: self.rating@, review_count: self.review_count }
    }
}

impl View for Failure {
    type V = FailureView;

    open spec fn view(&self) -> FailureView {
        FailureView { error: self.error, name: self.name.deep_view() }
    }
}

/// The view of an extraction's outcome.
pub open spec fn outcome_view(outcome: Result<Reading, Failure>) -> Result<
    ReadingView,
    FailureView,
> {
    match outcome {
        Ok(reading) => Ok(reading@),
        Err(failure) => Err(failure@),
    }
}

/// What the stages come to together. The title stage is asked first, and a
/// title it found is kept when a later stage fails.
pub open spec fn reading_from(
    title: Result<Seq<char>, ExtractionError>,
    numerals: Result<NumeralsView, ExtractionError>,
) -> Result<ReadingView, FailureView> {
    match title {
        Err(error) => Err(FailureView { error, name: None }),
        Ok(name) => match numerals {
            Err(error) => Err(FailureView { error, name: Some(name) }),
            Ok(found) => Ok(
                ReadingView { name, rating: found.rating, review_count: found.review_count },
            ),
        },
    }
}

/// What the textual stage makes of the rating stage's outcome: the numerals
/// of the summary, where there is a summary.
pub open spec fn numerals_of(summary: Result<Seq<char>, ExtractionError>) -> Result<
    NumeralsView,
    ExtractionError,
> {
    match summary {
        Err(error) => Err(error),
        Ok(fragment) => summary_numerals(fragment),
    }
}

/// The rating stage and the textual stage on the page `body`.
pub open spec fn page_numerals(body: Seq<char>) -> Result<NumeralsView, ExtractionError> {
    numerals_of(page_summary(body))
}

/// What the page `body` gives up. A page that is too long to be searched
/// gives up nothing and fails with [`ExtractionError::PageTooLong`].
pub open spec fn extraction(body: Seq<char>) -> Result<ReadingView, FailureView> {
    reading_from(page_title(body), page_numerals(body))
}

/// Puts the outcomes of the stages together: the reading where all passed,
/// and else the first failure, with the title if there is one.
pub fn conclude(
    title: Result<String, ExtractionError>,
    numerals: Result<Numerals, ExtractionError>,
) -> (outcome: Result<Reading, Failure>)
    ensures
        outcome_view(outcome) == reading_from(text_view(title), numerals_view(numerals)),
{
    match title {
        Err(error) => Err(Failure { error, name: None }),
        Ok(name) => match numerals {
            Err(error) => Err(Failure { error, name: Some(name) }),
            Ok(found) => Ok(
                Reading { name, rating: found.rating, review_count: found.review_count },
            ),
        },
    }
}

/// The textual stage after the rating stage: reads the numerals of the
/// summary that was found, and passes on the failure where none was.
pub fn read_found_summary(summary: Result<String, ExtractionError>) -> (outcome: Result<
    Numerals,
    ExtractionError,
>)
    ensures
        numerals_view(outcome) == numerals_of(text_view(summary)),
{
    match summary {
        Err(error) => Err(error),
        Ok(fragment) => read_summary(fragment.as_str()),
    }
}

/// Finds the rating summary of the page `body` and reads its numerals.
pub fn find_numerals(body: &str) -> (outcome: Result<Numerals, ExtractionError>)
    ensures
        numerals_view(outcome) == page_numerals(body@),
        !page_fits(body@) ==> outcome == Err::<Numerals, ExtractionError>(
            ExtractionError::PageTooLong,
        ),
{
    read_found_summary(find_summary(body))
}

/// Reads the page `body`: both elements are looked for on one reading of the
/// markup, and the summary is matched against the pattern only where the
/// page has a title. A page over [`crate::markup::PAGE_BYTES_MAX`] bytes is
/// not read at all.
pub fn extract(body: &str) -> (outcome: Result<Reading, Failure>)
    ensures
        outcome_view(outcome) == extraction(body@),
        !page_fits(body@) ==> outcome_view(outcome) == Err::<ReadingView, FailureView>(
            FailureView { error: ExtractionError::PageTooLong, name: None },
        ),
{
    let (title, summary) = find_elements(body);
    let numerals = match title {
        Ok(_) => read_found_summary(summary),
        Err(error) => Err(error),
    };
    conclude(title, numerals)
}

/// Reading the same page twice gives the same outcome: whatever two
/// extractions of `body` return, the title, the rating and the number of
/// reviews agree, and so do the failures.
pub proof fn extraction_is_repeatable(
    body: Seq<char>,
    first: Result<Reading, Failure>,
    second: Result<Reading, Failure>,
)
    requires
        outcome_view(first) == extraction(body),
        outcome_view(second) == extraction(body),
    ensures
        outcome_view(first) == outcome_view(second),
{
}

} // verus!
