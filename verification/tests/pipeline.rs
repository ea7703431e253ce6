use event_ratings::event::{events_from_lines, Event, PageOutcome};
use event_ratings::extraction::{extract, ExtractionError, Failure, Reading};
use event_ratings::rank::rank;
use event_ratings::rating::Rating;
use event_ratings::report::{table, Row};
use scoped_threadpool::Pool;

fn lines(text: &[&str]) -> Vec<String> {
    text.iter().map(|line| String::from(*line)).collect()
}

fn heading() -> Row {
    Row::Heading { event_label: String::from("Event"), rating_label: String::from("Rating") }
}

fn entry(name: &str, score: f32) -> Row {
    Row::Entry { event: String::from(name), rating: Rating::from_bits(score.to_bits()).unwrap() }
}

fn shown(row: &Row) -> (String, String) {
    match row {
        Row::Heading { event_label, rating_label } => (event_label.clone(), rating_label.clone()),
        Row::Entry { event, rating } => (event.clone(), f32::from_bits(rating.bits()).to_string()),
    }
}

/// What comes of a page, where it could be fetched.
fn outcome_of(fetched: Option<&str>) -> PageOutcome {
    match fetched {
        None => PageOutcome::Unfetched,
        Some(body) => match extract(body) {
            Err(failure) => PageOutcome::Stopped(failure),
            Ok(reading) => {
                let score: f32 = reading.rating.parse().unwrap();
                PageOutcome::Read(reading, Rating::from_bits(score.to_bits()).unwrap())
            }
        },
    }
}

/// One worker's task: what came of the page is written to the event.
fn settle(event: &mut Event, fetched: Option<&str>) {
    event.settle(outcome_of(fetched));
}

/// The whole batch over `worker_count` workers, each event with its own page.
fn run(events: &mut Vec<Event>, fetched: &[Option<&str>], worker_count: u32) {
    let mut pool = Pool::new(worker_count);
    pool.scoped(|scope| {
        for (event, body) in events.iter_mut().zip(fetched.iter()) {
            scope.execute(move || settle(event, *body));
        }
    });
}

#[test]
fn fresh_event_has_defaults() {
    let event = Event::new(String::from("https://conference.example/1"));
    assert_eq!(event.url, "https://conference.example/1");
    assert_eq!(event.name, "");
    assert_eq!(event.rating, Rating::zero());
    assert_eq!(event.review_count, 0);
}

#[test]
fn events_follow_the_lines() {
    let events = events_from_lines(&lines(&["https://a.example", "https://b.example"]));
    assert_eq!(
        events,
        vec![
            Event::new(String::from("https://a.example")),
            Event::new(String::from("https://b.example")),
        ]
    );
}

#[test]
fn blank_lines_make_no_event() {
    let events = events_from_lines(&lines(&["", "A", "", "", "B", " ", ""]));
    let urls: Vec<&str> = events.iter().map(|event| event.url.as_str()).collect();
    assert_eq!(urls, ["A", "B", " "]);
}

#[test]
fn no_lines_make_no_event() {
    assert_eq!(events_from_lines(&Vec::new()), Vec::new());
    assert_eq!(events_from_lines(&lines(&["", ""])), Vec::new());
}

#[test]
fn complete_reading_is_written_whole() {
    let mut event = Event::new(String::from("A"));
    let reading =
        Reading { name: String::from("Talk One"), rating: String::from("4.5"), review_count: 120 };
    event.record(reading, Rating::from_bits(4.5f32.to_bits()).unwrap());
    assert_eq!(
        event,
        Event {
            name: String::from("Talk One"),
            url: String::from("A"),
            rating: Rating::from_bits(4.5f32.to_bits()).unwrap(),
            review_count: 120,
        }
    );
}

#[test]
fn failure_leaves_rating_and_review_count_at_zero() {
    let errors = [
        ExtractionError::NoTitle,
        ExtractionError::NoRatingElement,
        ExtractionError::PatternMismatch,
        ExtractionError::MalformedNumeral,
        ExtractionError::QueryRefused,
        ExtractionError::PageTooLong,
    ];
    for error in errors {
        for name in [None, Some(String::from("Talk"))] {
            let mut event = Event::new(String::from("A"));
            event.record_failure(Failure { error, name: name.clone() });
            assert_eq!(event.url, "A");
            assert_eq!(event.name, name.unwrap_or_default());
            assert_eq!(event.rating.bits(), 0);
            assert_eq!(f32::from_bits(event.rating.bits()), 0.0);
            assert_eq!(event.review_count, 0);
        }
    }
}

#[test]
fn failure_without_title_leaves_the_name_alone() {
    let mut event = Event::new(String::from("A"));
    event.name = String::from("kept");
    event.record_failure(Failure { error: ExtractionError::NoTitle, name: None });
    assert_eq!(event.name, "kept");
}

#[test]
fn table_of_nothing_is_the_heading_alone() {
    assert_eq!(table(&Vec::new()), vec![heading()]);
    let ranked = rank(events_from_lines(&Vec::new()));
    assert_eq!(table(&ranked), vec![heading()]);
}

#[test]
fn table_has_one_row_for_each_identifier() {
    let mut events = events_from_lines(&lines(&["A", "", "B", "C", "D", ""]));
    let fetched = [
        Some("<h1>One</h1><i class=\"en_grade_average\">(2.5, 3 ratings)</i>"),
        None,
        Some("<p>nothing here</p>"),
        Some("<h1>Four</h1><i class=\"en_grade_average\">(2.5, 300 ratings)</i>"),
    ];
    for (event, body) in events.iter_mut().zip(fetched) {
        settle(event, body);
    }
    let rows = table(&rank(events));
    assert_eq!(rows.len(), 1 + 4);
    assert_eq!(rows[0], heading());
    assert_eq!(rows[1], entry("One", 2.5));
}

#[test]
fn three_pages_one_complete_one_unrated_one_unreachable() {
    let page_a = "<html><body><h1>Talk One</h1>\
                  <span class=\"en_grade_average\">(4.5, 120 ratings)</span></body></html>";
    let page_b = "<html><body><h1></h1><span class=\"grade\">(3.0, 7 ratings)</span></body></html>";
    let mut events = events_from_lines(&lines(&["A", "B", "C"]));
    settle(&mut events[0], Some(page_a));
    settle(&mut events[1], Some(page_b));
    settle(&mut events[2], None);
    assert_eq!(events[0].review_count, 120);
    let rows = table(&rank(events));
    assert_eq!(rows, vec![heading(), entry("Talk One", 4.5), entry("", 0.0), entry("", 0.0)]);
    let cells: Vec<(String, String)> = rows.iter().map(shown).collect();
    assert_eq!(cells[0], (String::from("Event"), String::from("Rating")));
    assert_eq!(cells[1], (String::from("Talk One"), String::from("4.5")));
    assert_eq!(cells[2], (String::new(), String::from("0")));
    assert_eq!(cells[3], (String::new(), String::from("0")));
}

#[test]
fn unrated_page_with_a_title_shows_the_title() {
    let mut events = events_from_lines(&lines(&["B", "A"]));
    settle(&mut events[0], Some("<h1>Talk Two</h1>"));
    settle(
        &mut events[1],
        Some("<h1>Talk One</h1><span class=\"en_grade_average\">(4.5, 120 ratings)</span>"),
    );
    let rows = table(&rank(events));
    assert_eq!(rows, vec![heading(), entry("Talk One", 4.5), entry("Talk Two", 0.0)]);
}

#[test]
fn two_pages_of_one_rating_stay_in_input_order() {
    let mut events = events_from_lines(&lines(&["A", "B", "C", "D"]));
    let bodies = [
        "<h1>Low</h1><b class=\"en_grade_average\">(1.0, 1 ratings)</b>",
        "<h1>Four, first</h1><b class=\"en_grade_average\">(4.0, 10 ratings)</b>",
        "<h1>High</h1><b class=\"en_grade_average\">(4.9, 3 ratings)</b>",
        "<h1>Four, second</h1><b class=\"en_grade_average\">(4.00, 20 ratings)</b>",
    ];
    for (event, body) in events.iter_mut().zip(bodies) {
        settle(event, Some(body));
    }
    let rows = table(&rank(events));
    assert_eq!(
        rows,
        vec![
            heading(),
            entry("High", 4.9),
            entry("Four, first", 4.0),
            entry("Four, second", 4.0),
            entry("Low", 1.0),
        ]
    );
}

#[test]
fn order_of_settling_does_not_show_in_the_table() {
    let bodies = [
        Some("<h1>One</h1><b class=\"en_grade_average\">(2.5, 3 ratings)</b>"),
        None,
        Some("<h1>Three</h1><b class=\"en_grade_average\">(2.5, 4 ratings)</b>"),
        Some("<h1>Four</h1>"),
        Some("<h1>Five</h1><b class=\"en_grade_average\">(4.75, 9 ratings)</b>"),
    ];
    let mut forward = events_from_lines(&lines(&["1", "2", "3", "4", "5"]));
    for at in 0..bodies.len() {
        settle(&mut forward[at], bodies[at]);
    }
    let mut backward = events_from_lines(&lines(&["1", "2", "3", "4", "5"]));
    for at in (0..bodies.len()).rev() {
        settle(&mut backward[at], bodies[at]);
    }
    assert_eq!(forward, backward);
    assert_eq!(table(&rank(forward)), table(&rank(backward)));
}

#[test]
fn number_of_workers_does_not_show_in_the_table() {
    let fetched = [
        Some("<h1>One</h1><b class=\"en_grade_average\">(2.5, 3 ratings)</b>"),
        None,
        Some("<h1>Three</h1><b class=\"en_grade_average\">(2.5, 4 ratings)</b>"),
        Some("<h1>Four</h1>"),
        Some("<h1>Five</h1><b class=\"en_grade_average\">(4.75, 9 ratings)</b>"),
        Some("<h1>Six</h1><b class=\"en_grade_average\">(4.75, 900 ratings)</b>"),
        Some("<p>Seven</p>"),
        Some("<h1>Eight</h1><b class=\"en_grade_average\">(0.5, 1 ratings)</b>"),
    ];
    let identifiers = lines(&["1", "2", "3", "4", "5", "6", "7", "8"]);
    let mut alone = events_from_lines(&identifiers);
    run(&mut alone, &fetched, 1);
    let mut crowd = events_from_lines(&identifiers);
    run(&mut crowd, &fetched, 8);
    assert_eq!(alone, crowd);
    let rows = table(&rank(alone));
    assert_eq!(rows, table(&rank(crowd)));
    assert_eq!(
        rows,
        vec![
            heading(),
            entry("Five", 4.75),
            entry("One", 2.5),
            entry("Three", 2.5),
            entry("Eight", 0.5),
            entry("", 0.0),
            entry("Four", 0.0),
            entry("Six", 0.0),
            entry("", 0.0),
        ]
    );
}

#[test]
fn unfetched_page_leaves_the_event_untouched() {
    let mut event = Event::new(String::from("A"));
    event.settle(PageOutcome::Unfetched);
    assert_eq!(event, Event::new(String::from("A")));
    event.name = String::from("kept");
    event.review_count = 3;
    let before = event.clone();
    event.settle(PageOutcome::Unfetched);
    assert_eq!(event, before);
}

#[test]
fn stopped_reading_is_settled_as_a_failure() {
    let mut settled = Event::new(String::from("A"));
    let mut recorded = settled.clone();
    let failure =
        Failure { error: ExtractionError::PatternMismatch, name: Some(String::from("Talk")) };
    settled.settle(PageOutcome::Stopped(failure.clone()));
    recorded.record_failure(failure);
    assert_eq!(settled, recorded);
    assert_eq!(settled.name, "Talk");
    assert_eq!(settled.rating, Rating::zero());
    assert_eq!(settled.review_count, 0);
}

#[test]
fn complete_reading_is_settled_whole() {
    let mut event = Event::new(String::from("A"));
    let reading =
        Reading { name: String::from("Talk One"), rating: String::from("4.5"), review_count: 120 };
    let rating = Rating::from_bits(4.5f32.to_bits()).unwrap();
    event.settle(PageOutcome::Read(reading, rating));
    assert_eq!(
        event,
        Event {
            name: String::from("Talk One"),
            url: String::from("A"),
            rating,
            review_count: 120,
        }
    );
}

#[test]
fn page_that_is_too_long_leaves_the_event_at_its_defaults() {
    let mut body = String::from("<h1>Talk</h1><b class=\"en_grade_average\">(4.5, 1 ratings)</b>");
    body.push_str(&" ".repeat(event_ratings::markup::PAGE_BYTES_MAX));
    let mut event = Event::new(String::from("A"));
    event.settle(outcome_of(Some(&body)));
    assert_eq!(event, Event::new(String::from("A")));
}
