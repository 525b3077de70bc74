use vstd::prelude::*;
use chrono::{NaiveDate, TimeDelta};
use crate::text::option_text;

verus! {

/// A calendar date of `chrono`, without a time zone.
#[verifier::external_type_specification]
#[verifier::external_body]
pub struct ExNaiveDate(chrono::NaiveDate);

/// A span of time of `chrono`.
#[verifier::external_type_specification]
#[verifier::external_body]
pub struct ExTimeDelta(chrono::TimeDelta);

/// The span that `TimeDelta::try_days` makes of a number of days, where it makes one.
pub uninterp spec fn span_of_days(days: i64) -> Option<TimeDelta>;

/// The date that `NaiveDate::checked_sub_signed` finds a span before a
/// date, where it finds one.
pub uninterp spec fn date_before(date: NaiveDate, span: TimeDelta) -> Option<NaiveDate>;

/// The text that `NaiveDate::format` writes for a date with the pattern `%Y-%m-%d`.
pub uninterp spec fn date_key(date: NaiveDate) -> Seq<char>;

/// Calls `TimeDelta::try_days`: a span of that many days, and nothing
/// where such a span is out of bounds.
#[verifier::external_body]
fn days_span(days: i64) -> (r: Option<TimeDelta>)
    ensures
        r == span_of_days(days),
{
    TimeDelta::try_days(days)
}

/// Calls `NaiveDate::checked_sub_signed`: the date that lies the whole
/// days of the span before the date, and nothing where that date is out
/// of range.
#[verifier::external_body]
fn earlier(date: NaiveDate, span: TimeDelta) -> (r: Option<NaiveDate>)
    ensures
        r == date_before(date, span),
{
    date.checked_sub_signed(span)
}

/// Calls `NaiveDate::format` with the pattern `%Y-%m-%d` and writes the
/// result out with `to_string`.
#[verifier::external_body]
fn write_key(date: NaiveDate) -> (r: String)
    ensures
        r@ == date_key(date),
{
    date.format("%Y-%m-%d").to_string()
}

/// The key of the day that lies `offset` days before `today`, where the
/// calendar has such a day.
pub open spec fn key_before(today: NaiveDate, offset: i64) -> Option<Seq<char>> {
    match span_of_days(offset) {
        Some(span) => match date_before(today, span) {
            Some(date) => Some(date_key(date)),
            None => None,
        },
        None => None,
    }
}

/// The keys of the last `days` days up to `today`, the earliest first and
/// `today` last; nothing where the calendar lacks one of these days.
pub open spec fn day_keys(today: NaiveDate, days: int) -> Option<Seq<Seq<char>>>
    decreases days,
{
    if days <= 0 {
        Some(Seq::<Seq<char>>::empty())
    } else {
        match key_before(today, (days - 1) as i64) {
            Some(key) => match day_keys(today, days - 1) {
                Some(rest) => Some(seq![key] + rest),
                None => None,
            },
            None => None,
        }
    }
}

/// The texts of an optional list of strings.
pub open spec fn option_texts(o: Option<Vec<String>>) -> Option<Seq<Seq<char>>> {
    match o {
        Some(list) => Some(crate::text::texts(list@)),
        None => None,
    }
}

/// The key of the day that lies `offset` days before `today`.
pub fn day_key_before(today: NaiveDate, offset: i64) -> (r: Option<String>)
    ensures
        option_text(r) == key_before(today, offset),
{
    match days_span(offset) {
        Some(span) => match earlier(today, span) {
            Some(date) => Some(write_key(date)),
            None => None,
        },
        None => None,
    }
}

/// The keys of the last `days` days up to `today`, the earliest first.
pub fn make_day_keys(today: NaiveDate, days: u32) -> (r: Option<Vec<String>>)
    ensures
        option_texts(r) == day_keys(today, days as int),
{
    let mut keys: Vec<String> = Vec::new();
    let mut left: u32 = days;
    proof {
        assert(crate::text::texts(keys@) =~= Seq::<Seq<char>>::empty());
        match day_keys(today, days as int) {
            Some(rest) => {
                assert(Seq::<Seq<char>>::empty() + rest =~= rest);
            },
            None => {},
        }
    }
    while left > 0
        invariant
            left <= days,
            day_keys(today, days as int) == match day_keys(today, left as int) {
                Some(rest) => Some(crate::text::texts(keys@) + rest),
                None => None,
            },
        decreases left,
    {
        let ghost built = crate::text::texts(keys@);
        match day_key_before(today, (left - 1) as i64) {
            Some(key) => {
                keys.push(key);
                proof {
                    assert(crate::text::texts(keys@) =~= built.push(key@));
                    match day_keys(today, left - 1) {
                        Some(rest) => {
                            assert(built + (seq![key@] + rest) =~= built.push(key@) + rest);
                        },
                        None => {},
                    }
                }
            },
            None => {
                return None;
            },
        }
        left -= 1;
    }
    proof {
        assert(crate::text::texts(keys@) + Seq::<Seq<char>>::empty() =~= crate::text::texts(keys@));
    }
    Some(keys)
}

} // verus!
