//! The record kept for each event, from its identifier to its rating.

use crate::extraction::{Failure, Reading};
use crate::rating::Rating;
use vstd::prelude::*;

verus! {

/// A conference event: where its page is, and what the page said.
#[derive(Clone, Debug, PartialEq, Eq)]
pub struct Event {
    /// The title, empty until a page gave one.
    pub name: String,
    /// The identifier of the event: the address of its page.
    pub url: String,
    /// The rating, zero until a page gave one.
    pub rating: Rating,
    /// The number of reviews, zero until a page gave one.
    pub review_count: i8,
}

/// What came of the page of one event.
#[derive(Clone, Debug, PartialEq, Eq)]
pub enum PageOutcome {
    /// The page could not be fetched.
    Unfetched,
    /// The page was fetched, and its reading stopped early.
    Stopped(Failure),
    /// The page was read to the end; the rating is the score that the
    /// reading's numeral denotes.
    Read(Reading, Rating),
}

impl Event {
    /// Whether nothing has been written to the event since it was made.
    pub open spec fn is_fresh(self) -> bool {
        &&& self.name@.len() == 0
        &&& self.rating.key() == 0
        &&& self.review_count == 0
    }

    /// The event after a complete reading of its page, with `rating` for the
    /// score that the reading's numeral denotes.
    pub open spec fn with_reading(self, reading: Reading, rating: Rating) -> Event {
        Event { name: reading.name, url: self.url, rating, review_count: reading.review_count }
    }

    /// The event after a reading that stopped early: the title is written if
    /// the reading got that far, and nothing else changes.
    pub open spec fn with_failure(self, failure: Failure) -> Event {
        Event {
            name: match failure.name {
                Some(name) => name,
                None => self.name,
            },
            url: self.url,
            rating: self.rating,
            review_count: self.review_count,
        }
    }

    /// The event after its page came to `outcome`: untouched where the page
    /// could not be fetched.
    pub open spec fn settled(self, outcome: PageOutcome) -> Event {
        match outcome {
            PageOutcome::Unfetched => self,
            PageOutcome::Stopped(failure) => self.with_failure(failure),
            PageOutcome::Read(reading, rating) => self.with_reading(reading, rating),
        }
    }

    /// A fresh event for the identifier `url`.
    pub fn new(url: String) -> (event: Event)
        ensures
            event.url == url,
            event.is_fresh(),
    {
        Event { name: String::new(), url, rating: Rating::zero(), review_count: 0 }
    }

    /// Writes a complete reading to the event.
    pub fn record(&mut self, reading: Reading, rating: Rating)
        ensures
            *final(self) == old(self).with_reading(reading, rating),
    {
        self.name = reading.name;
        self.rating = rating;
        self.review_count = reading.review_count;
    }

    /// Writes what a reading that stopped early leaves behind.
    pub fn record_failure(&mut self, failure: Failure)
        ensures
            *final(self) == old(self).with_failure(failure),
    {
        match failure.name {
            Some(name) => {
                self.name = name;
            },
            None => {},
        }
    }

    /// Writes to the event what came of its page: nothing where the page
    /// could not be fetched, what a stopped reading leaves behind, or the
    /// complete reading.
    pub fn settle(&mut self, outcome: PageOutcome)
        ensures
            *final(self) == old(self).settled(outcome),
    {
        match outcome {
            PageOutcome::Unfetched => {},
            PageOutcome::Stopped(failure) => self.record_failure(failure),
            PageOutcome::Read(reading, rating) => self.record(reading, rating),
        }
    }
}

/// The identifiers among `lines`: the lines that are not empty, in order.
pub open spec fn identifiers(lines: Seq<Seq<char>>) -> Seq<Seq<char>> {
    lines.filter(|line: Seq<char>| line.len() > 0)
}

/// The identifiers of `events`, in order.
pub open spec fn urls_of(events: Seq<Event>) -> Seq<Seq<char>> {
    Seq::new(events.len(), |i: int| events[i].url@)
}

/// Makes one fresh event for each line that is not empty, in the order of
/// the lines.
pub fn events_from_lines(lines: &Vec<String>) -> (events: Vec<Event>)
    ensures
        urls_of(events@) == identifiers(lines.deep_view()),
        forall|i: int| 0 <= i < events.len() ==> (#[trigger] events[i]).is_fresh(),
{
    let mut events: Vec<Event> = Vec::new();
    let ghost all = lines.deep_view();
    assert(all.take(0).len() == 0);
    assert(identifiers(all.take(0)).len() == 0) by {
        reveal(Seq::filter);
    }
    for at in 0..lines.len()
        invariant
            all == lines.deep_view(),
            urls_of(events@) == identifiers(all.take(at as int)),
            forall|i: int| 0 <= i < events.len() ==> (#[trigger] events[i]).is_fresh(),
    {
        let line = &lines[at];
        proof {
            let seen = all.take(at as int);
            let next = all.take(at + 1);
            assert(next.drop_last() == seen);
            assert(next.last() == line@);
            reveal(Seq::filter);
            assert(identifiers(next) == if line@.len() > 0 {
                identifiers(seen).push(line@)
            } else {
                identifiers(seen)
            });
        }
        if !line.as_str().is_empty() {
            let ghost before = events@;
            events.push(Event::new(line.clone()));
            assert(urls_of(events@) == urls_of(before).push(line@));
        }
    }
    assert(all.take(lines.len() as int) == all);
    events
}

/// A reading that stops early leaves the rating and the number of reviews
/// alone, so a fresh event stays at zero for both.
pub proof fn failure_keeps_defaults(event: Event, failure: Failure)
    ensures
        event.with_failure(failure).rating == event.rating,
        event.with_failure(failure).review_count == event.review_count,
        event.with_failure(failure).url == event.url,
        event.is_fresh() ==> event.with_failure(failure).rating.key() == 0
            && event.with_failure(failure).review_count == 0,
{
}

/// Whatever comes of its page, an event keeps its identifier, and unless the
/// page was read to the end it keeps its rating and its number of reviews:
/// a fresh event whose page was not fetched, or not read to the end, stays
/// at zero for both.
pub proof fn only_a_complete_reading_rates(event: Event, outcome: PageOutcome)
    ensures
        event.settled(outcome).url == event.url,
        !(outcome is Read) ==> event.settled(outcome).rating == event.rating
            && event.settled(outcome).review_count == event.review_count,
        !(outcome is Read) && event.is_fresh() ==> event.settled(outcome).rating.key() == 0
            && event.settled(outcome).review_count == 0,
        outcome is Unfetched ==> event.settled(outcome) == event,
{
}

} // verus!
