use chrono::{Datelike, NaiveDate, TimeZone};
use chrono_tz::Europe::London;
use termdate::calendar::{monday_after, monday_before, weekday, weekday_abbrev};
use termdate::table::{build_table, insert_by_start, Row};
use termdate::term::{Term, TermName};
use termdate::text::{push_integer, push_natural};
use termdate::zone::{Date, Instant};

fn date(year: i32, month: u32, day: u32) -> Date {
    Date { year, month, day }
}

fn row(name: TermName, first: (i32, u32, u32), last: (i32, u32, u32)) -> Row {
    Row { name, first: date(first.0, first.1, first.2), last: date(last.0, last.1, last.2) }
}

#[test]
fn day_numbers_count_from_year_one() {
    assert_eq!(date(1, 1, 1).number(), Some(1));
    assert_eq!(date(1970, 1, 1).number(), Some(719_163));
    assert_eq!(date(2023, 9, 25).number(), Some(738_788));
    assert_eq!(date(2023, 2, 29).number(), None);
    assert_eq!(date(2024, 2, 29).number(), Some(738_945));
    assert_eq!(date(2023, 13, 1).number(), None);
}

#[test]
fn midnight_is_local_to_london() {
    // Summer time: midnight in London is 23:00 the day before in universal time.
    let summer = Instant::midnight(738_788).unwrap();
    assert_eq!(summer, Instant { secs: 1_695_596_400, nanos: 0, day: 738_788, week: 39 });
    // Winter time.
    let winter = Instant::midnight(738_856).unwrap();
    assert_eq!(winter, Instant { secs: 1_701_475_200, nanos: 0, day: 738_856, week: 48 });
    assert_eq!(Instant::midnight(i32::MAX), None);
    assert_eq!(Instant::midnight(i32::MIN), None);
}

#[test]
fn instants_carry_the_date_of_london() {
    // 23:30 universal time on 24 September 2023 is already the 25th in London.
    let late = Instant::from_utc(1_695_596_400 + 1800, 7).unwrap();
    assert_eq!(late, Instant { secs: 1_695_598_200, nanos: 7, day: 738_788, week: 39 });
    let before = Instant::from_utc(1_695_596_399, 0).unwrap();
    assert_eq!(before.day, 738_787);
    assert_eq!(before.week, 38);
    assert_eq!(Instant::from_utc(i64::MAX, 0), None);
    assert_eq!(Instant::from_utc(0, 2_000_000_000), None);
}

#[test]
fn instants_are_ordered_by_seconds_then_nanoseconds() {
    let a = Instant { secs: 10, nanos: 5, day: 1, week: 1 };
    let b = Instant { secs: 10, nanos: 6, day: 1, week: 1 };
    let c = Instant { secs: 11, nanos: 0, day: 1, week: 1 };
    assert!(a.le(&a));
    assert!(a.le(&b));
    assert!(!b.le(&a));
    assert!(b.le(&c));
    assert!(!c.le(&b));
}

#[test]
fn weekdays_agree_with_the_calendar() {
    assert_eq!(weekday(1), 0);
    assert_eq!(weekday(738_788), 0);
    assert_eq!(weekday(738_856), 5);
    assert_eq!(weekday(0), 6);
    assert_eq!(weekday(-1), 5);
    for day in (-800_000..800_000).step_by(997) {
        let d = NaiveDate::from_num_days_from_ce_opt(day).unwrap();
        assert_eq!(u32::from(weekday(day)), d.weekday().num_days_from_monday());
        assert_eq!(weekday_abbrev(weekday(day)), d.format("%a").to_string());
    }
    assert_eq!(weekday(i32::MIN), 4);
    assert_eq!(weekday(i32::MAX), 0);
}

#[test]
fn weekday_names() {
    let names = ["Mon", "Tue", "Wed", "Thu", "Fri", "Sat", "Sun"];
    for (i, name) in names.iter().enumerate() {
        assert_eq!(weekday_abbrev(i as u8), *name);
    }
    assert_eq!(weekday_abbrev(7), "");
}

#[test]
fn mondays_round_outward() {
    assert_eq!(monday_before(738_788), Some(738_788));
    assert_eq!(monday_after(738_788), Some(738_788));
    assert_eq!(monday_before(738_856), Some(738_851));
    assert_eq!(monday_after(738_856), Some(738_858));
    assert_eq!(monday_before(738_794), Some(738_788));
    assert_eq!(monday_after(738_789), Some(738_795));
    assert_eq!(monday_before(i32::MIN), None);
    assert_eq!(monday_before(i32::MIN + 1), None);
    assert_eq!(monday_before(i32::MIN + 5), Some(i32::MIN + 3));
    assert_eq!(monday_before(i32::MIN + 3), Some(i32::MIN + 3));
    assert_eq!(monday_after(i32::MAX), Some(i32::MAX));
    assert_eq!(monday_after(i32::MAX - 1), Some(i32::MAX));
}

#[test]
fn term_runs_from_midnight_to_midnight() {
    let term = Term::from_dates(TermName::Autumn, date(2023, 9, 25), date(2023, 12, 1)).unwrap();
    assert_eq!(term.name(), TermName::Autumn);
    assert_eq!(term.start(), Instant::midnight(738_788).unwrap());
    assert_eq!(term.end(), Instant::midnight(738_856).unwrap());
    assert_eq!(term.start().secs, London.with_ymd_and_hms(2023, 9, 25, 0, 0, 0).unwrap().timestamp());
    assert_eq!(term.end().secs, London.with_ymd_and_hms(2023, 12, 2, 0, 0, 0).unwrap().timestamp());
}

#[test]
fn loose_bounds_are_the_mondays_around() {
    let term = Term::from_dates(TermName::Autumn, date(2023, 9, 25), date(2023, 12, 1)).unwrap();
    // The start is a Monday already: no step is taken.
    assert_eq!(term.loose_start(), term.start());
    assert_eq!(term.loose_end(), Instant::midnight(738_858).unwrap());
    assert_eq!(term.loose_end().secs, 1_701_648_000);
    let summer = Term::from_dates(TermName::Summer, date(2025, 4, 22), date(2025, 6, 27)).unwrap();
    assert_eq!(summer.loose_start().day, date(2025, 4, 21).number().unwrap());
    assert_eq!(summer.loose_end().day, date(2025, 6, 30).number().unwrap());
    let ending_sunday = Term::from_dates(TermName::Spring, date(2024, 1, 10), date(2024, 1, 14)).unwrap();
    assert_eq!(ending_sunday.loose_end(), ending_sunday.end());
}

#[test]
fn loose_bounds_enclose_within_a_week() {
    let mut first = date(2022, 1, 1).number().unwrap();
    while first < date(2024, 1, 1).number().unwrap() {
        let start = Instant::midnight(first).unwrap();
        let end = Instant::midnight(first + 40).unwrap();
        let term = Term::new(TermName::Spring, start, end).unwrap();
        let (s, e) = (term.loose_start(), term.loose_end());
        assert!(s.le(&start) && start.secs - s.secs < 7 * 86_400);
        assert!(end.le(&e) && e.secs - end.secs < 7 * 86_400);
        assert_eq!(weekday(s.day), 0);
        assert_eq!(weekday(e.day), 0);
        assert!(term.contains(&start) && term.contains_loosely(&start));
        assert!(term.contains(&end) && term.contains_loosely(&end));
        first += 1;
    }
}

#[test]
fn terms_of_impossible_dates_are_refused() {
    assert_eq!(Term::from_dates(TermName::Spring, date(2023, 2, 30), date(2023, 3, 17)), None);
    assert_eq!(Term::from_dates(TermName::Spring, date(2023, 1, 9), date(2023, 3, 32)), None);
    assert_eq!(Term::from_dates(TermName::Spring, date(2023, 1, 9), date(262_142, 12, 31)), None);
    let start = Instant { secs: 0, nanos: 0, day: i32::MIN, week: 1 };
    let end = Instant { secs: 1, nanos: 0, day: 719_163, week: 1 };
    assert_eq!(Term::new(TermName::Autumn, start, end), None);
    // A start that is not on the day it names lies a week or more from that day's Monday.
    let astray = Instant { secs: 1_695_596_400 + 8 * 86_400, nanos: 0, day: 738_788, week: 39 };
    assert_eq!(Term::new(TermName::Autumn, astray, Instant::midnight(738_856).unwrap()), None);
}

#[test]
fn a_term_may_end_before_it_starts() {
    let term = Term::from_dates(TermName::Spring, date(2025, 1, 6), date(2024, 3, 14)).unwrap();
    assert!(!term.contains(&term.start()));
    assert!(!term.contains_loosely(&term.start()));
}

#[test]
fn table_is_sorted_by_start() {
    let rows = [
        row(TermName::Summer, (2019, 4, 15), (2019, 6, 21)),
        row(TermName::Autumn, (2018, 9, 24), (2018, 11, 30)),
        row(TermName::Spring, (2019, 1, 7), (2019, 3, 15)),
        row(TermName::Autumn, (2019, 9, 30), (2019, 12, 6)),
    ];
    let terms = build_table(&rows).unwrap();
    let names: Vec<TermName> = terms.iter().map(|t| t.name()).collect();
    assert_eq!(names, vec![TermName::Autumn, TermName::Spring, TermName::Summer, TermName::Autumn]);
    for pair in terms.windows(2) {
        assert!(pair[0].start().le(&pair[1].start()));
    }
    assert_eq!(terms[0], Term::from_dates(TermName::Autumn, date(2018, 9, 24), date(2018, 11, 30)).unwrap());
    assert_eq!(build_table(&[]), Some(vec![]));
}

#[test]
fn table_keeps_rows_of_one_start_in_their_order() {
    let rows = [
        row(TermName::Summer, (2019, 4, 15), (2019, 6, 21)),
        row(TermName::Autumn, (2019, 4, 15), (2019, 6, 21)),
        row(TermName::Spring, (2019, 1, 7), (2019, 3, 15)),
        row(TermName::Spring, (2019, 4, 15), (2019, 6, 21)),
    ];
    let terms = build_table(&rows).unwrap();
    let names: Vec<TermName> = terms.iter().map(|t| t.name()).collect();
    assert_eq!(names, vec![TermName::Spring, TermName::Summer, TermName::Autumn, TermName::Spring]);
}

#[test]
fn table_with_an_impossible_row_is_refused() {
    let rows = [
        row(TermName::Autumn, (2018, 9, 24), (2018, 11, 30)),
        row(TermName::Spring, (2019, 2, 29), (2019, 3, 15)),
    ];
    assert_eq!(build_table(&rows), None);
}

#[test]
fn insertion_gives_the_place() {
    let a = Term::from_dates(TermName::Autumn, date(2018, 9, 24), date(2018, 11, 30)).unwrap();
    let b = Term::from_dates(TermName::Spring, date(2019, 1, 7), date(2019, 3, 15)).unwrap();
    let c = Term::from_dates(TermName::Summer, date(2019, 4, 15), date(2019, 6, 21)).unwrap();
    let mut terms = Vec::new();
    assert_eq!(insert_by_start(&mut terms, b), 0);
    assert_eq!(insert_by_start(&mut terms, c), 1);
    assert_eq!(insert_by_start(&mut terms, a), 0);
    assert_eq!(insert_by_start(&mut terms, b), 2);
    assert_eq!(terms, vec![a, b, b, c]);
}

#[test]
fn integers_in_decimal() {
    for n in [0i64, 1, 9, 10, 11, 53, 100, 4_294_967_296, -1, -51, -10, i64::MAX, i64::MIN] {
        let mut out = String::from("w");
        push_integer(&mut out, n);
        assert_eq!(out, format!("w{}", n));
    }
    let mut out = String::new();
    push_natural(&mut out, u64::MAX);
    push_natural(&mut out, 0);
    push_natural(&mut out, 1_000);
    assert_eq!(out, "1844674407370955161501000");
}
