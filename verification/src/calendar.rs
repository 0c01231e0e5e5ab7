//! Arithmetic on civil days.
//!
//! A day is its number in the proleptic Gregorian calendar, 1 January of
//! year 1 being day 1. That day is a Monday, so the day of the week is a
//! remainder by seven.
use vstd::prelude::*;

verus! {

/// The day of the week of a day, counted from Monday as 0 to Sunday as 6.
pub open spec fn weekday_of(day: int) -> int {
    (day - 1) % 7
}

/// The Monday on or before a day.
pub open spec fn monday_on_or_before(day: int) -> int {
    day - weekday_of(day)
}

/// The Monday on or after a day.
pub open spec fn monday_on_or_after(day: int) -> int {
    day + (7 - weekday_of(day)) % 7
}

/// The three-letter English name of a day of the week; empty beyond Sunday.
pub open spec fn weekday_text(weekday: int) -> Seq<char> {
    if weekday == 0 {
        "Mon"@
    } else if weekday == 1 {
        "Tue"@
    } else if weekday == 2 {
        "Wed"@
    } else if weekday == 3 {
        "Thu"@
    } else if weekday == 4 {
        "Fri"@
    } else if weekday == 5 {
        "Sat"@
    } else if weekday == 6 {
        "Sun"@
    } else {
        ""@
    }
}

/// Either Monday of a day is a Monday, lies in the same whole week as the
/// day, and is the day itself when the day is a Monday.
pub proof fn mondays_enclose(day: int)
    ensures
        weekday_of(monday_on_or_before(day)) == 0,
        weekday_of(monday_on_or_after(day)) == 0,
        0 <= day - monday_on_or_before(day) < 7,
        0 <= monday_on_or_after(day) - day < 7,
        weekday_of(day) == 0 ==> monday_on_or_before(day) == day && monday_on_or_after(day) == day,
{
}

/// The day of the week of `day`, from Monday as 0.
pub fn weekday(day: i32) -> (r: u8)
    ensures
        r as int == weekday_of(day as int),
        r < 7,
{
    // 7 * 306_783_379 lifts every `i32` above zero without changing the remainder.
    let lifted: i64 = (day as i64) - 1 + 2_147_483_653;
    (lifted % 7) as u8
}

/// Walks back a day at a time from `day` until a Monday is reached. `None`
/// when that Monday lies below the range of day numbers.
pub fn monday_before(day: i32) -> (r: Option<i32>)
    ensures
        r == (if monday_on_or_before(day as int) >= i32::MIN {
            Some(monday_on_or_before(day as int) as i32)
        } else {
            None
        }),
{
    let mut s: i32 = day;
    while weekday(s) != 0
        invariant
            s <= day,
            monday_on_or_before(s as int) == monday_on_or_before(day as int),
        decreases weekday_of(s as int),
    {
        if s == i32::MIN {
            return None;
        }
        s = s - 1;
    }
    Some(s)
}

/// Walks forward a day at a time from `day` until a Monday is reached. `None`
/// when that Monday lies above the range of day numbers.
pub fn monday_after(day: i32) -> (r: Option<i32>)
    ensures
        r == (if monday_on_or_after(day as int) <= i32::MAX {
            Some(monday_on_or_after(day as int) as i32)
        } else {
            None
        }),
{
    let mut e: i32 = day;
    while weekday(e) != 0
        invariant
            day <= e,
            monday_on_or_after(e as int) == monday_on_or_after(day as int),
        decreases (7 - weekday_of(e as int)) % 7,
    {
        if e == i32::MAX {
            return None;
        }
        e = e + 1;
    }
    Some(e)
}

/// The three-letter English name of a day of the week counted from Monday.
pub fn weekday_abbrev(weekday: u8) -> (r: &'static str)
    ensures
        r@ == weekday_text(weekday as int),
{
    match weekday {
        0 => "Mon",
        1 => "Tue",
        2 => "Wed",
        3 => "Thu",
        4 => "Fri",
        5 => "Sat",
        6 => "Sun",
        _ => "",
    }
}

} // verus!
