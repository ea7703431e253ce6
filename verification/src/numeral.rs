//! Decimal numerals: the digits a rating summary is written with.

use vstd::prelude::*;

verus! {

/// The largest number of reviews an event can record.
pub const REVIEW_COUNT_MAX: i8 = 127;

/// Whether `c` is one of the ten ASCII digits.
pub open spec fn is_digit(c: char) -> bool {
    '0' <= c <= '9'
}

/// The number a digit stands for.
pub open spec fn digit_value(c: char) -> nat
    recommends
        is_digit(c),
{
    (c as u32 - '0' as u32) as nat
}

/// Whether `text` holds digits and nothing else.
pub open spec fn all_digits(text: Seq<char>) -> bool {
    forall|i: int| 0 <= i < text.len() ==> is_digit(#[trigger] text[i])
}

/// The number that a run of digits denotes in base ten; leading zeros count
/// for nothing, and the empty run denotes zero.
pub open spec fn decimal_value(digits: Seq<char>) -> nat
    recommends
        all_digits(digits),
    decreases digits.len(),
{
    if digits.len() == 0 {
        0
    } else {
        10 * decimal_value(digits.drop_last()) + digit_value(digits.last())
    }
}

/// Whether `text` is a point at `point` with nothing but digits around it,
/// and at least one digit.
pub open spec fn splits_at_point(text: Seq<char>, point: int) -> bool {
    &&& 0 <= point < text.len()
    &&& text[point] == '.'
    &&& text.len() > 1
    &&& all_digits(text.take(point))
    &&& all_digits(text.skip(point + 1))
}

/// Whether `text` is a decimal numeral: one or more digits, with at most one
/// point before, among or after them.
pub open spec fn is_decimal(text: Seq<char>) -> bool {
    ||| text.len() > 0 && all_digits(text)
    ||| exists|point: int| splits_at_point(text, point)
}

/// Whether `text` is a numeral for a number of reviews: one or more digits
/// that denote no more than [`REVIEW_COUNT_MAX`].
pub open spec fn is_count(text: Seq<char>) -> bool {
    &&& text.len() > 0
    &&& all_digits(text)
    &&& decimal_value(text) <= REVIEW_COUNT_MAX
}

/// A run of digits denotes at least what any of its prefixes denotes.
proof fn lemma_value_grows(digits: Seq<char>, len: int)
    requires
        0 <= len <= digits.len(),
    ensures
        decimal_value(digits.take(len)) <= decimal_value(digits),
    decreases digits.len(),
{
    if len == digits.len() {
        assert(digits.take(len) == digits);
    } else {
        lemma_value_grows(digits.drop_last(), len);
        assert(digits.drop_last().take(len) == digits.take(len));
    }
}

/// The number a digit stands for, or `None` for any other character.
pub fn digit_of(c: char) -> (digit: Option<u8>)
    ensures
        digit is Some <==> is_digit(c),
        digit matches Some(d) ==> d == digit_value(c) && d <= 9,
{
    if '0' <= c && c <= '9' {
        Some((c as u32 - '0' as u32) as u8)
    } else {
        None
    }
}

/// Reads a number of reviews: the value of `text` where it is a run of
/// digits that denotes no more than [`REVIEW_COUNT_MAX`], and `None` for
/// every other text.
pub fn parse_count(text: &str) -> (count: Option<i8>)
    ensures
        count is Some <==> is_count(text@),
        count matches Some(n) ==> n == decimal_value(text@),
{
    let mut value: u32 = 0;
    let mut any: bool = false;
    for c in it: text.chars()
        invariant
            it.seq() == text@,
            all_digits(text@.take(it.index() as int)),
            value == decimal_value(text@.take(it.index() as int)),
            value <= REVIEW_COUNT_MAX,
            any == (it.index() > 0),
    {
        let ghost seen = text@.take(it.index() as int);
        let ghost next = text@.take(it.index() + 1);
        assert(next.drop_last() == seen);
        assert(next.last() == c);
        match digit_of(c) {
            None => {
                assert(!is_digit(text@[it.index() as int]));
                return None;
            },
            Some(d) => {
                value = value * 10 + d as u32;
                any = true;
                assert(all_digits(next)) by {
                    assert forall|i: int| 0 <= i < next.len() implies is_digit(
                        #[trigger] next[i],
                    ) by {
                        if i < seen.len() {
                            assert(next[i] == seen[i]);
                        }
                    }
                }
                if value > REVIEW_COUNT_MAX as u32 {
                    proof {
                        lemma_value_grows(text@, it.index() + 1);
                    }
                    return None;
                }
            },
        }
    }
    assert(text@.take(text@.len() as int) == text@);
    if any {
        Some(value as i8)
    } else {
        None
    }
}

/// Whether `text` is a decimal numeral, as [`is_decimal`] defines it.
pub fn is_decimal_numeral(text: &str) -> (holds: bool)
    ensures
        holds == is_decimal(text@),
{
    let mut pointed: bool = false;
    let mut digits: bool = false;
    let ghost mut point: int = 0;
    for c in it: text.chars()
        invariant
            it.seq() == text@,
            !pointed ==> all_digits(text@.take(it.index() as int)),
            pointed ==> {
                &&& 0 <= point < it.index()
                &&& text@[point] == '.'
                &&& all_digits(text@.take(point))
                &&& all_digits(text@.subrange(point + 1, it.index() as int))
            },
            digits == (it.index() > if pointed { 1int } else { 0int }),
    {
        let ghost at = it.index() as int;
        assert(text@[at] == c);
        if digit_of(c).is_some() {
            digits = true;
            proof {
                if pointed {
                    let before = text@.subrange(point + 1, at);
                    let after = text@.subrange(point + 1, at + 1);
                    assert forall|i: int| 0 <= i < after.len() implies is_digit(
                        #[trigger] after[i],
                    ) by {
                        if i < before.len() {
                            assert(after[i] == before[i]);
                        }
                    }
                } else {
                    let before = text@.take(at);
                    let after = text@.take(at + 1);
                    assert forall|i: int| 0 <= i < after.len() implies is_digit(
                        #[trigger] after[i],
                    ) by {
                        if i < before.len() {
                            assert(after[i] == before[i]);
                        }
                    }
                }
            }
        } else if c == '.' && !pointed {
            pointed = true;
            proof {
                point = at;
                assert(text@.subrange(point + 1, at + 1).len() == 0);
            }
        } else {
            proof {
                lemma_stray_character(text@, at, if pointed { point } else { -1 });
            }
            return false;
        }
    }
    proof {
        let len = text@.len() as int;
        assert(text@.take(len) == text@);
        if pointed {
            assert(text@.subrange(point + 1, len) == text@.skip(point + 1));
            if digits {
                assert(splits_at_point(text@, point));
            } else {
                lemma_lone_point(text@);
            }
        }
    }
    digits
}

/// A text with a character that is neither a digit nor its only point is no
/// decimal numeral. `earlier` is the place of a point before `at`, or
/// negative where `text[at]` is no point at all.
proof fn lemma_stray_character(text: Seq<char>, at: int, earlier: int)
    requires
        0 <= at < text.len(),
        !is_digit(text[at]),
        earlier < at,
        text[at] == '.' ==> 0 <= earlier && text[earlier] == '.',
    ensures
        !is_decimal(text),
{
    if is_decimal(text) {
        if all_digits(text) {
            assert(is_digit(text[at]));
        } else {
            let point = choose|point: int| splits_at_point(text, point);
            if at < point {
                assert(text.take(point)[at] == text[at]);
            } else if at > point {
                assert(text.skip(point + 1)[at - point - 1] == text[at]);
            } else {
                assert(text.take(point)[earlier] == text[earlier]);
            }
        }
    }
}

/// A point alone is no decimal numeral.
proof fn lemma_lone_point(text: Seq<char>)
    requires
        text.len() == 1,
        text[0] == '.',
    ensures
        !is_decimal(text),
{
    assert(!is_digit(text[0]));
}

} // verus!
