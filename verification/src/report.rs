//! The report: the ranked events laid out as the rows of a table.

use crate::event::{identifiers, urls_of, Event};
use crate::rank::{is_ranking, ranking_never_rises};
use crate::rating::Rating;
use vstd::prelude::*;

verus! {

/// The heading of the column of titles.
pub const EVENT_HEADING: &'static str = "Event";

/// The heading of the column of ratings.
pub const RATING_HEADING: &'static str = "Rating";

/// A row of the report, two columns wide.
#[derive(Clone, Debug, PartialEq, Eq)]
pub enum Row {
    /// The first row, which names the columns.
    Heading { event_label: String, rating_label: String },
    /// The row of one event: its title and its rating.
    Entry { event: String, rating: Rating },
}

/// What a [`Row`] holds.
pub enum RowView {
    Heading { event_label: Seq<char>, rating_label: Seq<char> },
    Entry { event: Seq<char>, rating: Rating },
}

impl DeepView for Row {
    type V = RowView;

    open spec fn deep_view(&self) -> RowView {
        match *self {
            Row::Heading { event_label, rating_label } => RowView::Heading {
                event_label: event_label@,
                rating_label: rating_label@,
            },
            Row::Entry { event, rating } => RowView::Entry { event: event@, rating },
        }
    }
}

/// The first row of every report.
pub open spec fn heading_row() -> RowView {
    RowView::Heading { event_label: EVENT_HEADING@, rating_label: RATING_HEADING@ }
}

/// The row that reports `event`.
pub open spec fn entry_row(event: Event) -> RowView {
    RowView::Entry { event: event.name@, rating: event.rating }
}

/// The report on `events`: the heading, then one row for each event, in order.
pub open spec fn table_of(events: Seq<Event>) -> Seq<RowView> {
    Seq::new(
        events.len() + 1,
        |i: int|
            if i == 0 {
                heading_row()
            } else {
                entry_row(events[i - 1])
            },
    )
}

/// Lays `events` out as a table: the heading, then the title and the rating
/// of each event, in the order given.
pub fn table(events: &Vec<Event>) -> (rows: Vec<Row>)
    ensures
        rows.deep_view() == table_of(events@),
        rows.len() == events.len() + 1,
{
    let mut rows: Vec<Row> = Vec::new();
    rows.push(
        Row::Heading {
            event_label: EVENT_HEADING.to_owned(),
            rating_label: RATING_HEADING.to_owned(),
        },
    );
    for at in 0..events.len()
        invariant
            rows.len() == at + 1,
            rows[0].deep_view() == heading_row(),
            forall|i: int|
                1 <= i <= at ==> (#[trigger] rows[i]).deep_view() == entry_row(events[i - 1]),
    {
        let event = &events[at];
        rows.push(Row::Entry { event: event.name.clone(), rating: event.rating });
    }
    assert(rows.deep_view() =~= table_of(events@));
    rows
}

/// With no event to report, the table is the heading alone.
pub proof fn empty_table_is_heading_only(events: Seq<Event>)
    requires
        events.len() == 0,
    ensures
        table_of(events) == seq![heading_row()],
{
    assert(table_of(events) =~= seq![heading_row()]);
}

/// The report has one row for each identifier, whatever became of the pages:
/// for events made from `lines`, written to in place and then ranked, the
/// table is the heading and as many entries as there are identifiers.
pub proof fn table_has_one_row_per_identifier(
    lines: Seq<Seq<char>>,
    made: Seq<Event>,
    settled: Seq<Event>,
    ranked: Seq<Event>,
)
    requires
        urls_of(made) == identifiers(lines),
        settled.len() == made.len(),
        is_ranking(ranked, settled),
    ensures
        table_of(ranked).len() == identifiers(lines).len() + 1,
        table_of(ranked)[0] == heading_row(),
        forall|i: int| 1 <= i < table_of(ranked).len() ==> #[trigger] table_of(ranked)[i] is Entry,
{
    ranking_never_rises(ranked, settled);
    assert(urls_of(made).len() == made.len());
}

} // verus!
