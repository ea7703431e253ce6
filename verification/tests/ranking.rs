use event_ratings::event::Event;
use event_ratings::rank::rank;
use event_ratings::rating::Rating;

fn rating(score: f32) -> Rating {
    Rating::from_bits(score.to_bits()).unwrap()
}

fn event(name: &str, score: f32) -> Event {
    Event {
        name: String::from(name),
        url: format!("https://conference.example/{}", name),
        rating: rating(score),
        review_count: 1,
    }
}

fn names(events: &[Event]) -> Vec<String> {
    events.iter().map(|event| event.name.clone()).collect()
}

#[test]
fn ranking_puts_the_highest_rating_first() {
    let ranked = rank(vec![event("low", 1.5), event("high", 4.75), event("mid", 3.0)]);
    assert_eq!(names(&ranked), ["high", "mid", "low"]);
}

#[test]
fn ranking_never_rises() {
    let scores = [3.0, 0.0, 4.5, 4.5, 1.25, 5.0, 0.0, 2.0, 4.499, 0.001];
    let events: Vec<Event> =
        scores.iter().enumerate().map(|(i, score)| event(&i.to_string(), *score)).collect();
    let ranked = rank(events);
    assert_eq!(ranked.len(), scores.len());
    for pair in ranked.windows(2) {
        assert!(f32::from_bits(pair[0].rating.bits()) >= f32::from_bits(pair[1].rating.bits()));
    }
}

#[test]
fn equal_ratings_stay_adjacent_in_input_order() {
    let ranked = rank(vec![
        event("first", 4.0),
        event("best", 4.5),
        event("second", 4.0),
        event("worst", 1.0),
    ]);
    assert_eq!(names(&ranked), ["best", "first", "second", "worst"]);
}

#[test]
fn ranking_is_stable_among_many_ties() {
    let ranked = rank(vec![
        event("a", 0.0),
        event("b", 2.0),
        event("c", 0.0),
        event("d", 2.0),
        event("e", 0.0),
        event("f", 2.0),
    ]);
    assert_eq!(names(&ranked), ["b", "d", "f", "a", "c", "e"]);
}

#[test]
fn unrated_events_sink_to_the_bottom() {
    let unrated = Event::new(String::from("https://conference.example/unrated"));
    let ranked = rank(vec![unrated.clone(), event("rated", 0.5)]);
    assert_eq!(ranked[0].name, "rated");
    assert_eq!(ranked[1], unrated);
}

#[test]
fn ranking_changes_no_event() {
    let events = vec![event("x", 2.5), event("y", 3.5), event("z", 2.5)];
    let ranked = rank(events.clone());
    assert_eq!(ranked, vec![events[1].clone(), events[0].clone(), events[2].clone()]);
}

#[test]
fn ranking_of_ranked_events_changes_nothing() {
    let ranked = rank(vec![event("x", 2.5), event("y", 3.5), event("z", 2.5), event("w", 9.0)]);
    assert_eq!(rank(ranked.clone()), ranked);
}

#[test]
fn ranking_of_nothing_is_nothing() {
    assert_eq!(rank(Vec::new()), Vec::new());
}

#[test]
fn ranking_of_one_event_is_that_event() {
    let only = event("only", 3.0);
    assert_eq!(rank(vec![only.clone()]), vec![only]);
}

#[test]
fn rating_orders_as_its_score() {
    let scores = [0.0f32, 1.0e-40, 0.001, 0.5, 1.0, 4.5, 4.5000005, 5.0, 1.0e30, f32::INFINITY];
    for low in 0..scores.len() {
        for high in 0..scores.len() {
            assert_eq!(
                rating(scores[high]).at_least(&rating(scores[low])),
                scores[high] >= scores[low]
            );
        }
    }
}

#[test]
fn rating_starts_at_zero() {
    assert_eq!(Rating::zero().bits(), 0);
    assert_eq!(f32::from_bits(Rating::zero().bits()), 0.0);
    assert_eq!(Rating::zero(), rating(0.0));
}

#[test]
fn rating_keeps_its_bits() {
    assert_eq!(rating(4.5).bits(), 4.5f32.to_bits());
    assert_eq!(Rating::from_bits(0x7F80_0000).map(|r| r.bits()), Some(0x7F80_0000));
}

#[test]
fn rating_is_never_negative_nor_undefined() {
    assert_eq!(Rating::from_bits((-0.0f32).to_bits()), None);
    assert_eq!(Rating::from_bits((-1.5f32).to_bits()), None);
    assert_eq!(Rating::from_bits(f32::NAN.to_bits()), None);
    assert_eq!(Rating::from_bits(0x7F80_0001), None);
    assert_eq!(Rating::from_bits(u32::MAX), None);
}
