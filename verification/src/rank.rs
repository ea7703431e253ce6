//! Ranking: the events from the highest rating to the lowest.

use crate::event::Event;
use vstd::prelude::*;
use vstd::seq_lib::{seq_to_set_is_finite, to_multiset_len, to_multiset_remove};
use vstd::set_lib::{lemma_int_range, lemma_subset_equality, set_int_range};

verus! {

/// Whether, of two places in `events`, the event at `a` is ranked before the
/// event at `b`: it has the higher rating, or the same rating and the earlier
/// place.
pub open spec fn goes_before(events: Seq<Event>, a: int, b: int) -> bool {
    ||| events[a].rating.key() > events[b].rating.key()
    ||| events[a].rating.key() == events[b].rating.key() && a < b
}

/// Whether `ranked` holds the events of `events` in ranking order, the one
/// at `i` being the one that stood at `origin[i]`.
pub open spec fn arranges(origin: Seq<int>, events: Seq<Event>, ranked: Seq<Event>) -> bool {
    &&& origin.len() == events.len()
    &&& ranked.len() == events.len()
    &&& forall|i: int|
        #![trigger origin[i]]
        0 <= i < ranked.len() ==> 0 <= origin[i] < events.len() && ranked[i] == events[origin[i]]
    &&& forall|i: int, j: int|
        #![trigger origin[i], origin[j]]
        0 <= i < j < ranked.len() ==> goes_before(events, origin[i], origin[j])
}

/// Whether `ranked` is the ranking of `events`: the same events, each once,
/// by falling rating, and in their first order where ratings are equal.
pub open spec fn is_ranking(ranked: Seq<Event>, events: Seq<Event>) -> bool {
    exists|origin: Seq<int>| arranges(origin, events, ranked)
}

/// Whether the ratings of `ranked` never rise from one place to a later one.
pub open spec fn never_rises(ranked: Seq<Event>) -> bool {
    forall|i: int, j: int|
        0 <= i <= j < ranked.len() ==> (#[trigger] ranked[i]).rating.key() >= (
        #[trigger] ranked[j]).rating.key()
}

/// Ranks the events: highest rating first, and events of one rating in the
/// order they came in. No event is changed, dropped or repeated.
pub fn rank(events: Vec<Event>) -> (ranked: Vec<Event>)
    ensures
        is_ranking(ranked@, events@),
        ranked.len() == events.len(),
        never_rises(ranked@),
{
    let ghost all = events@;
    let mut rest = events;
    let mut ranked: Vec<Event> = Vec::new();
    let ghost mut origin: Seq<int> = Seq::empty();
    while rest.len() > 0
        invariant
            rest@ == all.take(rest.len() as int),
            rest.len() <= all.len(),
            origin.len() == ranked.len(),
            ranked.len() == all.len() - rest.len(),
            forall|i: int|
                #![trigger origin[i]]
                0 <= i < ranked.len() ==> rest.len() <= origin[i] < all.len() && ranked[i]
                    == all[origin[i]],
            forall|i: int, j: int|
                #![trigger origin[i], origin[j]]
                0 <= i < j < ranked.len() ==> goes_before(all, origin[i], origin[j]),
        decreases rest.len(),
    {
        let event = rest.pop().unwrap();
        let ghost place = rest.len() as int;
        assert(event == all[place]);
        let mut slot: usize = 0;
        while slot < ranked.len() && !event.rating.at_least(&ranked[slot].rating)
            invariant
                slot <= ranked.len(),
                origin.len() == ranked.len(),
                forall|i: int|
                    #![trigger origin[i]]
                    0 <= i < ranked.len() ==> ranked[i] == all[origin[i]],
                forall|i: int|
                    #![trigger origin[i]]
                    0 <= i < slot ==> all[origin[i]].rating.key() > event.rating.key(),
            decreases ranked.len() - slot,
        {
            slot = slot + 1;
        }
        proof {
            let moved = origin.insert(slot as int, place);
            origin.insert_ensures(slot as int, place);
            ranked@.insert_ensures(slot as int, event);
            assert forall|i: int, j: int| 0 <= i < j < moved.len() implies goes_before(
                all,
                #[trigger] moved[i],
                #[trigger] moved[j],
            ) by {
                if j < slot {
                    assert(moved[i] == origin[i] && moved[j] == origin[j]);
                } else if j == slot {
                    assert(moved[i] == origin[i]);
                } else if i < slot {
                    assert(moved[i] == origin[i] && moved[j] == origin[j - 1]);
                } else if i == slot {
                    assert(moved[j] == origin[j - 1]);
                    if slot < j - 1 {
                        assert(goes_before(all, origin[slot as int], origin[j - 1]));
                    }
                } else {
                    assert(moved[i] == origin[i - 1] && moved[j] == origin[j - 1]);
                }
            }
            assert forall|i: int| 0 <= i < moved.len() implies place <= #[trigger] moved[i]
                < all.len() && ranked@.insert(slot as int, event)[i] == all[moved[i]] by {
                if i < slot {
                    assert(moved[i] == origin[i]);
                } else if i > slot {
                    assert(moved[i] == origin[i - 1]);
                }
            }
            origin = moved;
        }
        ranked.insert(slot, event);
        assert(rest@ == all.take(rest.len() as int));
    }
    proof {
        assert(arranges(origin, all, ranked@));
        ranking_never_rises(ranked@, all);
    }
    ranked
}

/// A ranking is as long as what it ranks, and its ratings never rise, from
/// row to row or over any distance.
pub proof fn ranking_never_rises(ranked: Seq<Event>, events: Seq<Event>)
    requires
        is_ranking(ranked, events),
    ensures
        ranked.len() == events.len(),
        never_rises(ranked),
        forall|i: int|
            0 <= i < ranked.len() - 1 ==> (#[trigger] ranked[i]).rating.key() >= ranked[i
                + 1].rating.key(),
{
    let origin = choose|origin: Seq<int>| arranges(origin, events, ranked);
    assert forall|i: int, j: int| 0 <= i <= j < ranked.len() implies (
    #[trigger] ranked[i]).rating.key() >= (#[trigger] ranked[j]).rating.key() by {
        if i < j {
            assert(goes_before(events, origin[i], origin[j]));
        }
    }
}

/// Every event has its place in the ranking: for each place `a` of `events`
/// there is a place of `ranked` whose event stood at `a`.
pub proof fn ranking_places_every_event(
    origin: Seq<int>,
    events: Seq<Event>,
    ranked: Seq<Event>,
    a: int,
) -> (i: int)
    requires
        arranges(origin, events, ranked),
        0 <= a < events.len(),
    ensures
        0 <= i < ranked.len(),
        origin[i] == a,
{
    let places = set_int_range(0, events.len() as int);
    assert(origin.no_duplicates()) by {
        assert forall|i: int, j: int|
            0 <= i < origin.len() && 0 <= j < origin.len() && i != j implies origin[i]
            != origin[j] by {
            if i < j {
                assert(goes_before(events, origin[i], origin[j]));
            } else {
                assert(goes_before(events, origin[j], origin[i]));
            }
        }
    }
    origin.unique_seq_to_set();
    lemma_int_range(0, events.len() as int);
    seq_to_set_is_finite(origin);
    assert(origin.to_set().subset_of(places)) by {
        assert forall|x: int| origin.to_set().contains(x) implies places.contains(x) by {
            let i = choose|i: int| 0 <= i < origin.len() && origin[i] == x;
            assert(0 <= origin[i] < events.len());
        }
    }
    lemma_subset_equality(origin.to_set(), places);
    assert(places.contains(a));
    assert(origin.contains(a));
    choose|i: int| 0 <= i < origin.len() && origin[i] == a
}

/// Events of one rating keep their order: where `a` stood before `b` and
/// both have the same rating, `a` is ranked before `b`.
pub proof fn equal_ratings_keep_their_order(
    origin: Seq<int>,
    events: Seq<Event>,
    ranked: Seq<Event>,
    a: int,
    b: int,
) -> (places: (int, int))
    requires
        arranges(origin, events, ranked),
        0 <= a < b < events.len(),
        events[a].rating.key() == events[b].rating.key(),
    ensures
        0 <= places.0 < places.1 < ranked.len(),
        origin[places.0] == a,
        origin[places.1] == b,
{
    let i = ranking_places_every_event(origin, events, ranked, a);
    let j = ranking_places_every_event(origin, events, ranked, b);
    if j < i {
        assert(goes_before(events, origin[j], origin[i]));
    }
    (i, j)
}


/// Taking the last of `events` out of their ranking leaves the ranking of
/// the events before it. Returns the place the last event was ranked at.
proof fn lemma_without_last(origin: Seq<int>, events: Seq<Event>, ranked: Seq<Event>) -> (p: int)
    requires
        arranges(origin, events, ranked),
        events.len() > 0,
    ensures
        0 <= p < ranked.len(),
        origin[p] == events.len() - 1,
        arranges(origin.remove(p), events.drop_last(), ranked.remove(p)),
{
    let last = events.len() - 1;
    let p = ranking_places_every_event(origin, events, ranked, last);
    let fewer = origin.remove(p);
    origin.remove_ensures(p);
    ranked.remove_ensures(p);
    assert forall|i: int| 0 <= i < fewer.len() implies 0 <= #[trigger] fewer[i] < last
        && ranked.remove(p)[i] == events.drop_last()[fewer[i]] by {
        let k = if i < p {
            i
        } else {
            i + 1
        };
        assert(fewer[i] == origin[k]);
        if k < p {
            assert(goes_before(events, origin[k], origin[p]));
        } else {
            assert(goes_before(events, origin[p], origin[k]));
        }
    }
    assert forall|i: int, j: int| 0 <= i < j < fewer.len() implies goes_before(
        events.drop_last(),
        #[trigger] fewer[i],
        #[trigger] fewer[j],
    ) by {
        let ki = if i < p {
            i
        } else {
            i + 1
        };
        let kj = if j < p {
            j
        } else {
            j + 1
        };
        assert(fewer[i] == origin[ki] && fewer[j] == origin[kj]);
        assert(goes_before(events, origin[ki], origin[kj]));
    }
    p
}

/// A ranking holds every event as often as it was given: nothing is
/// dropped, repeated or changed.
pub proof fn ranking_keeps_every_event(ranked: Seq<Event>, events: Seq<Event>)
    requires
        is_ranking(ranked, events),
    ensures
        ranked.to_multiset() == events.to_multiset(),
    decreases events.len(),
{
    let origin = choose|origin: Seq<int>| arranges(origin, events, ranked);
    if events.len() == 0 {
        assert(ranked == events);
    } else {
        let p = lemma_without_last(origin, events, ranked);
        ranking_keeps_every_event(ranked.remove(p), events.drop_last());
        to_multiset_remove(ranked, p);
        to_multiset_remove(events, events.len() - 1);
        assert(events.remove(events.len() - 1) == events.drop_last());
        assert(ranked.to_multiset() == ranked.to_multiset().remove(ranked[p]).insert(ranked[p]))
            by {
            ranked.to_multiset_ensures();
            assert(ranked.contains(ranked[p]));
            assert(ranked.to_multiset() =~= ranked.to_multiset().remove(ranked[p]).insert(
                ranked[p],
            ));
        }
        assert(events.to_multiset() == events.to_multiset().remove(events.last()).insert(
            events.last(),
        )) by {
            events.to_multiset_ensures();
            assert(events.contains(events.last()));
            assert(events.to_multiset() =~= events.to_multiset().remove(events.last()).insert(
                events.last(),
            ));
        }
    }
}

/// The events have one ranking only: two rankings of the same events are
/// the same, row for row.
pub proof fn ranking_is_determined(events: Seq<Event>, first: Seq<Event>, second: Seq<Event>)
    requires
        is_ranking(first, events),
        is_ranking(second, events),
    ensures
        first == second,
{
    let origin_first = choose|origin: Seq<int>| arranges(origin, events, first);
    let origin_second = choose|origin: Seq<int>| arranges(origin, events, second);
    lemma_one_arrangement(events, origin_first, first, origin_second, second);
    assert forall|i: int| 0 <= i < first.len() implies first[i] == second[i] by {
        assert(first[i] == events[origin_first[i]]);
        assert(second[i] == events[origin_second[i]]);
    }
    assert(first =~= second);
}

/// Two arrangements of the same events take each event from the same place.
proof fn lemma_one_arrangement(
    events: Seq<Event>,
    origin_first: Seq<int>,
    first: Seq<Event>,
    origin_second: Seq<int>,
    second: Seq<Event>,
)
    requires
        arranges(origin_first, events, first),
        arranges(origin_second, events, second),
    ensures
        origin_first == origin_second,
    decreases events.len(),
{
    if events.len() == 0 {
        assert(origin_first =~= origin_second);
    } else {
        let p = lemma_without_last(origin_first, events, first);
        let q = lemma_without_last(origin_second, events, second);
        lemma_one_arrangement(
            events.drop_last(),
            origin_first.remove(p),
            first.remove(p),
            origin_second.remove(q),
            second.remove(q),
        );
        let fewer = origin_first.remove(p);
        origin_first.remove_ensures(p);
        origin_second.remove_ensures(q);
        if p < q {
            assert(fewer[p] == origin_first[p + 1]);
            assert(fewer[p] == origin_second[p]);
            assert(goes_before(events, origin_first[p], origin_first[p + 1]));
            assert(goes_before(events, origin_second[p], origin_second[q]));
        } else if q < p {
            assert(fewer[q] == origin_second[q + 1]);
            assert(fewer[q] == origin_first[q]);
            assert(goes_before(events, origin_second[q], origin_second[q + 1]));
            assert(goes_before(events, origin_first[q], origin_first[p]));
        }
        assert forall|i: int| 0 <= i < origin_first.len() implies origin_first[i]
            == origin_second[i] by {
            if i < p {
                assert(fewer[i] == origin_first[i] && fewer[i] == origin_second[i]);
            } else if i > p {
                assert(fewer[i - 1] == origin_first[i] && fewer[i - 1] == origin_second[i]);
            }
        }
        assert(origin_first =~= origin_second);
    }
}


/// Events of one rating stand together: whatever is ranked between two
/// events of the same rating has that rating too.
pub proof fn equal_ratings_stay_together(
    ranked: Seq<Event>,
    events: Seq<Event>,
    i: int,
    k: int,
    j: int,
)
    requires
        is_ranking(ranked, events),
        0 <= i <= k <= j < ranked.len(),
        ranked[i].rating.key() == ranked[j].rating.key(),
    ensures
        ranked[k].rating.key() == ranked[i].rating.key(),
{
    ranking_never_rises(ranked, events);
    assert(ranked[i].rating.key() >= ranked[k].rating.key());
    assert(ranked[k].rating.key() >= ranked[j].rating.key());
}

/// Whether the rating tells the events apart: any two of `events` that have
/// the same rating are the same in every field.
pub open spec fn ratings_tell_apart(events: Seq<Event>) -> bool {
    forall|i: int, j: int|
        0 <= i < events.len() && 0 <= j < events.len() && (#[trigger] events[i]).rating.key() == (
        #[trigger] events[j]).rating.key() ==> events[i] == events[j]
}

/// Where the rating tells the events apart, their ranking does not depend on
/// the order they are given in: two collections of the same events, however
/// ordered, have the same ranking.
pub proof fn rankings_agree_without_ties(
    first: Seq<Event>,
    second: Seq<Event>,
    ranked_first: Seq<Event>,
    ranked_second: Seq<Event>,
)
    requires
        first.to_multiset() == second.to_multiset(),
        ratings_tell_apart(first),
        is_ranking(ranked_first, first),
        is_ranking(ranked_second, second),
    ensures
        ranked_first == ranked_second,
{
    ranking_keeps_every_event(ranked_first, first);
    ranking_keeps_every_event(ranked_second, second);
    ranking_never_rises(ranked_first, first);
    ranking_never_rises(ranked_second, second);
    let origin = choose|origin: Seq<int>| arranges(origin, first, ranked_first);
    assert(ratings_tell_apart(ranked_first)) by {
        assert forall|i: int, j: int|
            0 <= i < ranked_first.len() && 0 <= j < ranked_first.len() && (
            #[trigger] ranked_first[i]).rating.key() == (
            #[trigger] ranked_first[j]).rating.key() implies ranked_first[i]
            == ranked_first[j] by {
            assert(ranked_first[i] == first[origin[i]]);
            assert(ranked_first[j] == first[origin[j]]);
        }
    }
    lemma_one_falling_order(ranked_first, ranked_second);
}

/// Events that the rating tells apart can be put in falling order in one way
/// only.
proof fn lemma_one_falling_order(first: Seq<Event>, second: Seq<Event>)
    requires
        first.to_multiset() == second.to_multiset(),
        never_rises(first),
        never_rises(second),
        ratings_tell_apart(first),
    ensures
        first == second,
    decreases first.len(),
{
    to_multiset_len(first);
    to_multiset_len(second);
    if first.len() == 0 {
        assert(first =~= second);
    } else {
        let last = first.len() - 1;
        let x = first.last();
        let y = second.last();
        first.to_multiset_ensures();
        second.to_multiset_ensures();
        assert(first.contains(x));
        assert(second.contains(y));
        assert(first.to_multiset().count(x) > 0);
        assert(second.to_multiset().count(y) > 0);
        assert(second.contains(x));
        assert(first.contains(y));
        let k = choose|k: int| 0 <= k < second.len() && second[k] == x;
        let m = choose|m: int| 0 <= m < first.len() && first[m] == y;
        assert(second[k].rating.key() >= second[last].rating.key());
        assert(first[m].rating.key() >= first[last].rating.key());
        assert(first[m] == first[last]);
        to_multiset_remove(first, last);
        to_multiset_remove(second, last);
        assert(first.remove(last) == first.drop_last());
        assert(second.remove(last) == second.drop_last());
        assert(never_rises(first.drop_last())) by {
            assert forall|i: int, j: int| 0 <= i <= j < first.drop_last().len() implies (
            #[trigger] first.drop_last()[i]).rating.key() >= (
            #[trigger] first.drop_last()[j]).rating.key() by {
                assert(first[i].rating.key() >= first[j].rating.key());
            }
        }
        assert(never_rises(second.drop_last())) by {
            assert forall|i: int, j: int| 0 <= i <= j < second.drop_last().len() implies (
            #[trigger] second.drop_last()[i]).rating.key() >= (
            #[trigger] second.drop_last()[j]).rating.key() by {
                assert(second[i].rating.key() >= second[j].rating.key());
            }
        }
        assert(ratings_tell_apart(first.drop_last())) by {
            assert forall|i: int, j: int|
                0 <= i < first.drop_last().len() && 0 <= j < first.drop_last().len() && (
                #[trigger] first.drop_last()[i]).rating.key() == (
                #[trigger] first.drop_last()[j]).rating.key() implies first.drop_last()[i]
                == first.drop_last()[j] by {
                assert(first[i].rating.key() == first[j].rating.key());
            }
        }
        lemma_one_falling_order(first.drop_last(), second.drop_last());
        assert(first =~= first.drop_last().push(x));
        assert(second =~= second.drop_last().push(y));
    }
}

} // verus!
