use chrono::TimeZone;
use chrono_tz::Europe::London;
use termdate::resolve::describe;
use termdate::table::{build_table, Row};
use termdate::term::{Term, TermName};
use termdate::zone::{Date, Instant};

fn row(name: TermName, first: (i32, u32, u32), last: (i32, u32, u32)) -> Row {
    Row {
        name,
        first: Date { year: first.0, month: first.1, day: first.2 },
        last: Date { year: last.0, month: last.1, day: last.2 },
    }
}

fn york() -> Vec<Term> {
    let (a, p, s) = (TermName::Autumn, TermName::Spring, TermName::Summer);
    build_table(&[
        row(s, (2020, 4, 14), (2020, 6, 19)),
        row(a, (2018, 9, 24), (2018, 11, 30)),
        row(p, (2019, 1, 7), (2019, 3, 15)),
        row(s, (2019, 4, 15), (2019, 6, 21)),
        row(a, (2019, 9, 30), (2019, 12, 6)),
        row(p, (2020, 1, 6), (2020, 3, 13)),
        row(a, (2023, 9, 25), (2023, 12, 1)),
        row(p, (2024, 1, 8), (2024, 3, 15)),
        row(s, (2024, 4, 15), (2024, 6, 21)),
        row(a, (2026, 9, 28), (2026, 12, 4)),
        row(p, (2027, 1, 11), (2027, 3, 19)),
        row(s, (2027, 4, 19), (2027, 6, 25)),
    ])
    .unwrap()
}

fn at(year: i32, month: u32, day: u32, hour: u32) -> Instant {
    let t = London.with_ymd_and_hms(year, month, day, hour, 0, 0).unwrap();
    Instant::from_utc(t.timestamp(), 0).unwrap()
}

fn shown(terms: &[Term], now: Instant) -> String {
    describe(terms, now).unwrap()
}

#[test]
fn york_terms_are_in_order() {
    let terms = york();
    assert_eq!(terms.len(), 12);
    for pair in terms.windows(2) {
        assert!(pair[0].start().le(&pair[1].start()));
        assert!(!pair[1].loose_start().le(&pair[0].end()));
    }
    assert_eq!(terms[5].name(), TermName::Summer);
    assert_eq!(terms[5].start(), at(2020, 4, 14, 0));
}

#[test]
fn york_labels() {
    let terms = york();
    assert_eq!(shown(&terms, at(2024, 2, 21, 12)), "Spr/7/Wed");
    assert_eq!(shown(&terms, at(2024, 1, 8, 0)), "Spr/1/Mon");
    assert_eq!(shown(&terms, at(2019, 6, 22, 10)), "(Sum/10/Sat)");
    assert_eq!(shown(&terms, at(2020, 4, 13, 9)), "(Sum/1/Mon)");
    assert_eq!(shown(&terms, at(2020, 4, 14, 9)), "Sum/1/Tue");
    assert_eq!(shown(&terms, at(2026, 10, 27, 16)), "Aut/5/Tue");
    assert_eq!(shown(&terms, at(2020, 4, 12, 23)), "n/a");
    assert_eq!(shown(&terms, at(2022, 2, 2, 12)), "n/a");
}

#[test]
fn york_never_disagrees() {
    let terms = york();
    let mut secs = at(2018, 9, 1, 0).secs;
    let stop = at(2020, 9, 1, 0).secs;
    let (mut bare, mut bracketed, mut none) = (0, 0, 0);
    while secs < stop {
        let line = shown(&terms, Instant::from_utc(secs, 0).unwrap());
        if line == "n/a" {
            none += 1;
        } else if line.starts_with('(') {
            bracketed += 1;
        } else {
            bare += 1;
        }
        secs += 8 * 3600;
    }
    assert!(bare > 0 && bracketed > 0 && none > 0);
}
