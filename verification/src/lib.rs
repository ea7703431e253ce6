//! Ranking of conference events by the rating their pages report.
//!
//! A page is read in two stages: the markup is searched for the title and
//! for the rating summary, and the summary is then matched against the
//! textual pattern that carries the rating and the number of reviews.

pub mod event;
pub mod extraction;
pub mod markup;
pub mod numeral;
pub mod pattern;
pub mod rank;
pub mod rating;
pub mod report;
