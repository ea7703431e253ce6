//! The structural stage: finding an element in a page's markup.

use crate::extraction::ExtractionError;
use vstd::prelude::*;
use vstd::utf8::encode_utf8;

verus! {

/// The selector of a page's top-level heading, which holds the event's title.
pub const TITLE_SELECTOR: &'static str = "h1";

/// The selector of the element that sums up an event's reviews.
pub const RATING_SELECTOR: &'static str = ".en_grade_average";

/// The longest page that is searched, in bytes: 128 MiB.
///
/// The parser keeps text in buffers whose lengths are 32-bit numbers and
/// whose sizes double as they grow, and it may write three bytes for one
/// that it reads; writing an element out again may take five bytes for one.
/// Below this bound none of these buffers comes near the size at which the
/// parser gives up with a panic.
pub const PAGE_BYTES_MAX: usize = 0x0800_0000;

/// The longest selector that is handed to the selector engine, in
/// characters. The two selectors of this library are far shorter; the bound
/// only keeps texts of any length and depth away from the engine.
pub const SELECTOR_CHARS_MAX: usize = 64;

/// Whether the page `body` is short enough to be searched: its UTF-8 form
/// has no more than [`PAGE_BYTES_MAX`] bytes.
pub open spec fn page_fits(body: Seq<char>) -> bool {
    encode_utf8(body).len() <= PAGE_BYTES_MAX
}

/// What a search of `document` for `selector` comes to: `None` where
/// `selector` is no CSS selector group, `Some(None)` where no element of the
/// parsed document matches it, and else the inner HTML of the first match,
/// in the order in which the parser made the elements of the document.
pub uninterp spec fn first_match(document: Seq<char>, selector: Seq<char>) -> Option<
    Option<Seq<char>>,
>;

/// Parses `document` once with `scraper::Html::parse_document` and each of
/// the two selectors with `scraper::Selector::parse`, and for each selector
/// serialises the children of the first element that `scraper::Html::select`
/// yields with `scraper::ElementRef::inner_html`.
///
/// Nothing is proved of the searches. The contract only claims that the
/// outcome of each depends on the document and its selector alone, and gives
/// that outcome its name. Documents over [`PAGE_BYTES_MAX`] are left out,
/// because the parser panics on one that is long enough. Selectors over
/// [`SELECTOR_CHARS_MAX`] are left out as well, so that nothing is claimed
/// of selector texts of any length and nesting.
#[verifier::external_body]
fn select_first_of_each(document: &str, first: &str, second: &str) -> (found: (
    Option<Option<String>>,
    Option<Option<String>>,
))
    requires
        page_fits(document@),
        first@.len() <= SELECTOR_CHARS_MAX,
        second@.len() <= SELECTOR_CHARS_MAX,
    ensures
        found.0.deep_view() == first_match(document@, first@),
        found.1.deep_view() == first_match(document@, second@),
{
    let page = scraper::Html::parse_document(document);
    let first = match scraper::Selector::parse(first) {
        Ok(parsed) => Some(page.select(&parsed).next().map(|element| element.inner_html())),
        Err(_) => None,
    };
    let second = match scraper::Selector::parse(second) {
        Ok(parsed) => Some(page.select(&parsed).next().map(|element| element.inner_html())),
        Err(_) => None,
    };
    (first, second)
}

/// What a structural stage makes of a search: the inner HTML that was found,
/// `missing` where no element matched, and a refusal where the selector was
/// turned down.
pub open spec fn element_found(found: Option<Option<Seq<char>>>, missing: ExtractionError) -> Result<
    Seq<char>,
    ExtractionError,
> {
    match found {
        None => Err(ExtractionError::QueryRefused),
        Some(None) => Err(missing),
        Some(Some(inner)) => Ok(inner),
    }
}

/// The title stage on the page `body`.
pub open spec fn page_title(body: Seq<char>) -> Result<Seq<char>, ExtractionError> {
    if page_fits(body) {
        element_found(first_match(body, TITLE_SELECTOR@), ExtractionError::NoTitle)
    } else {
        Err(ExtractionError::PageTooLong)
    }
}

/// The rating stage on the page `body`.
pub open spec fn page_summary(body: Seq<char>) -> Result<Seq<char>, ExtractionError> {
    if page_fits(body) {
        element_found(first_match(body, RATING_SELECTOR@), ExtractionError::NoRatingElement)
    } else {
        Err(ExtractionError::PageTooLong)
    }
}

/// The view of a structural stage's outcome.
pub open spec fn text_view(outcome: Result<String, ExtractionError>) -> Result<
    Seq<char>,
    ExtractionError,
> {
    match outcome {
        Ok(text) => Ok(text@),
        Err(error) => Err(error),
    }
}

/// Whether the page `body` is short enough to be searched.
pub fn fits(body: &str) -> (holds: bool)
    ensures
        holds == page_fits(body@),
{
    body.as_bytes().len() <= PAGE_BYTES_MAX
}

/// Settles a structural stage from what the search found; `missing` is the
/// stage's own error.
pub fn element_from_search(found: Option<Option<String>>, missing: ExtractionError) -> (outcome:
    Result<String, ExtractionError>)
    ensures
        text_view(outcome) == element_found(found.deep_view(), missing),
{
    match found {
        None => Err(ExtractionError::QueryRefused),
        Some(None) => Err(missing),
        Some(Some(inner)) => Ok(inner),
    }
}

/// Both structural stages on one reading of `body`: the inner HTML of the
/// first top-level heading, and that of the first element that sums up the
/// reviews. A page over [`PAGE_BYTES_MAX`] is not searched, and both stages
/// fail with [`ExtractionError::PageTooLong`].
pub fn find_elements(body: &str) -> (found: (
    Result<String, ExtractionError>,
    Result<String, ExtractionError>,
))
    ensures
        text_view(found.0) == page_title(body@),
        text_view(found.1) == page_summary(body@),
        !page_fits(body@) ==> found.0 == Err::<String, ExtractionError>(
            ExtractionError::PageTooLong,
        ) && found.1 == Err::<String, ExtractionError>(ExtractionError::PageTooLong),
{
    if !fits(body) {
        return (Err(ExtractionError::PageTooLong), Err(ExtractionError::PageTooLong));
    }
    proof {
        reveal_strlit("h1");
        reveal_strlit(".en_grade_average");
    }
    let (title, summary) = select_first_of_each(body, TITLE_SELECTOR, RATING_SELECTOR);
    (
        element_from_search(title, ExtractionError::NoTitle),
        element_from_search(summary, ExtractionError::NoRatingElement),
    )
}

/// The title stage: the inner HTML of the first top-level heading found in
/// `body`, or [`ExtractionError::PageTooLong`] for a page that is not
/// searched.
pub fn find_title(body: &str) -> (outcome: Result<String, ExtractionError>)
    ensures
        text_view(outcome) == page_title(body@),
        !page_fits(body@) ==> outcome == Err::<String, ExtractionError>(
            ExtractionError::PageTooLong,
        ),
{
    find_elements(body).0
}

/// The rating stage: the inner HTML of the first element found in `body`
/// that sums up the reviews, or [`ExtractionError::PageTooLong`] for a page
/// that is not searched.
pub fn find_summary(body: &str) -> (outcome: Result<String, ExtractionError>)
    ensures
        text_view(outcome) == page_summary(body@),
        !page_fits(body@) ==> outcome == Err::<String, ExtractionError>(
            ExtractionError::PageTooLong,
        ),
{
    find_elements(body).1
}

} // verus!
