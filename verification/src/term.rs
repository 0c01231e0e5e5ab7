//! Terms: named stretches of the academic year, and their week-rounded
//! bounds.
use vstd::prelude::*;
use crate::calendar::{monday_after, monday_before, monday_on_or_after, monday_on_or_before, mondays_enclose, weekday_of};
use crate::zone::{Date, Instant};

verus! {

/// Seconds in seven days of twenty-four hours.
pub const WEEK_SECS: i64 = 604_800;

/// Which of the three terms of an academic year.
#[derive(Clone, Copy, Debug, PartialEq, Eq, Structural)]
pub enum TermName {
    Autumn,
    Spring,
    Summer,
}

impl TermName {
    /// The three-letter name.
    pub open spec fn short_text(self) -> Seq<char> {
        match self {
            TermName::Autumn => "Aut"@,
            TermName::Spring => "Spr"@,
            TermName::Summer => "Sum"@,
        }
    }

    /// The name in full.
    pub open spec fn long_text(self) -> Seq<char> {
        match self {
            TermName::Autumn => "Autumn"@,
            TermName::Spring => "Spring"@,
            TermName::Summer => "Summer"@,
        }
    }

    pub fn shortname(&self) -> (r: &'static str)
        ensures
            r@ == self.short_text(),
    {
        match self {
            TermName::Autumn => "Aut",
            TermName::Spring => "Spr",
            TermName::Summer => "Sum",
        }
    }

    pub fn longname(&self) -> (r: &'static str)
        ensures
            r@ == self.long_text(),
    {
        match self {
            TermName::Autumn => "Autumn",
            TermName::Spring => "Spring",
            TermName::Summer => "Summer",
        }
    }
}

/// Whether `outer` is `inner` or earlier, by less than seven days.
pub open spec fn within_week(outer: Instant, inner: Instant) -> bool {
    outer.at_or_before(inner) && inner.secs - outer.secs < WEEK_SECS
}

/// Whether a term from `start` to `end` can be rounded out to whole weeks:
/// London has a midnight on the Monday on or before the day of `start` and on
/// the Monday on or after the day of `end`, the first lies less than a week
/// before `start` and the second less than a week after `end`.
pub open spec fn roundable(start: Instant, end: Instant) -> bool {
    &&& i32::MIN <= monday_on_or_before(start.day as int)
    &&& monday_on_or_after(end.day as int) <= i32::MAX
    &&& Instant::spec_midnight(monday_on_or_before(start.day as int)) matches Some(s)
        && within_week(s, start)
    &&& Instant::spec_midnight(monday_on_or_after(end.day as int)) matches Some(e)
        && within_week(end, e)
}

/// One term of one academic year. Every term can be rounded out to whole
/// weeks: see `roundable`.
#[derive(Clone, Copy, Debug, PartialEq, Eq, Structural)]
pub struct Term {
    name: TermName,
    /// The first instant of the term.
    start: Instant,
    /// The instant after the term ends.
    end: Instant,
}

impl Term {
    #[verifier::type_invariant]
    spec fn rounds(self) -> bool {
        roundable(self.start, self.end)
    }

    /// Which term of the year it is.
    pub closed spec fn spec_name(self) -> TermName {
        self.name
    }

    /// The first instant of the term.
    pub closed spec fn spec_start(self) -> Instant {
        self.start
    }

    /// The instant after the term ends.
    pub closed spec fn spec_end(self) -> Instant {
        self.end
    }

    /// The term with these three parts.
    pub closed spec fn made(name: TermName, start: Instant, end: Instant) -> Term {
        Term { name, start, end }
    }

    /// The term named `name` from `start` to `end`, where it can be rounded
    /// out to whole weeks.
    pub open spec fn spec_new(name: TermName, start: Instant, end: Instant) -> Option<Term> {
        if roundable(start, end) {
            Some(Term::made(name, start, end))
        } else {
            None
        }
    }

    /// The term named `name` from the first instant of the day `first` to the
    /// first instant after the day `last`.
    pub open spec fn spec_from_dates(name: TermName, first: Date, last: Date) -> Option<Term> {
        match Term::spec_bounds(first, last) {
            Some(b) => Term::spec_new(name, b.0, b.1),
            None => None,
        }
    }

    /// What holds of every term that was built.
    pub open spec fn wf(self) -> bool {
        roundable(self.spec_start(), self.spec_end())
    }

    /// The Monday on or before the day of `start`, at midnight.
    pub open spec fn spec_loose_start(self) -> Instant {
        Instant::spec_midnight(monday_on_or_before(self.spec_start().day as int)).unwrap()
    }

    /// The Monday on or after the day of `end`, at midnight.
    pub open spec fn spec_loose_end(self) -> Instant {
        Instant::spec_midnight(monday_on_or_after(self.spec_end().day as int)).unwrap()
    }

    /// Whether `now` lies between `start` and `end`, both included.
    pub open spec fn strictly_contains(self, now: Instant) -> bool {
        self.spec_start().at_or_before(now) && now.at_or_before(self.spec_end())
    }

    /// Whether `now` lies between the loose bounds, both included.
    pub open spec fn loosely_contains(self, now: Instant) -> bool {
        self.spec_loose_start().at_or_before(now) && now.at_or_before(self.spec_loose_end())
    }

    /// The term named `name` from `start` to `end`, where it can be rounded
    /// out to whole weeks.
    pub fn new(name: TermName, start: Instant, end: Instant) -> (r: Option<Term>)
        ensures
            r == Term::spec_new(name, start, end),
            r matches Some(t) ==> t.spec_name() == name && t.spec_start() == start && t.spec_end()
                == end && t.wf(),
    {
        let first = match monday_before(start.day) {
            Some(d) => d,
            None => { return None; },
        };
        let last = match monday_after(end.day) {
            Some(d) => d,
            None => { return None; },
        };
        let s = match Instant::midnight(first) {
            Some(i) => i,
            None => { return None; },
        };
        let e = match Instant::midnight(last) {
            Some(i) => i,
            None => { return None; },
        };
        if s.le(&start) && (start.secs as i128) - (s.secs as i128) < (WEEK_SECS as i128) && end.le(&e)
            && (e.secs as i128) - (end.secs as i128) < (WEEK_SECS as i128) {
            Some(Term { name, start, end })
        } else {
            None
        }
    }

    /// The term named `name` that begins with the day `first` and ends with
    /// the day `last`: from midnight at the start of `first` to midnight at
    /// the start of the day after `last`, London time.
    pub fn from_dates(name: TermName, first: Date, last: Date) -> (r: Option<Term>)
        ensures
            r == Term::spec_from_dates(name, first, last),
            r matches Some(t) ==> t.spec_name() == name && Some((t.spec_start(), t.spec_end()))
                == Term::spec_bounds(first, last) && t.wf(),
    {
        let a = match first.number() {
            Some(n) => n,
            None => { return None; },
        };
        let b = match last.number() {
            Some(n) => n,
            None => { return None; },
        };
        if b == i32::MAX {
            return None;
        }
        let start = match Instant::midnight(a) {
            Some(i) => i,
            None => { return None; },
        };
        let end = match Instant::midnight(b + 1) {
            Some(i) => i,
            None => { return None; },
        };
        Term::new(name, start, end)
    }

    /// The first instant of a term given by its first and last day, and the
    /// first instant after it.
    pub open spec fn spec_bounds(first: Date, last: Date) -> Option<(Instant, Instant)> {
        match (first.spec_number(), last.spec_number()) {
            (Some(a), Some(b)) => if b < i32::MAX {
                match (Instant::spec_midnight(a), Instant::spec_midnight(b + 1)) {
                    (Some(start), Some(end)) => Some((start, end)),
                    _ => None,
                }
            } else {
                None
            },
            _ => None,
        }
    }

    pub fn name(&self) -> (r: TermName)
        ensures
            r == self.spec_name(),
    {
        self.name
    }

    pub fn start(&self) -> (r: Instant)
        ensures
            r == self.spec_start(),
    {
        self.start
    }

    pub fn end(&self) -> (r: Instant)
        ensures
            r == self.spec_end(),
    {
        self.end
    }

    /// Returns `s`, the midnight of a Monday, where `s <= start`.
    pub fn loose_start(&self) -> (r: Instant)
        ensures
            self.wf(),
            r == self.spec_loose_start(),
            within_week(r, self.spec_start()),
    {
        proof {
            use_type_invariant(self);
        }
        // A term can be rounded, so the Monday and its midnight are there:
        // the arms for `None` are never taken.
        match monday_before(self.start.day) {
            Some(d) => match Instant::midnight(d) {
                Some(i) => i,
                None => self.start,
            },
            None => self.start,
        }
    }

    /// Returns `e`, the midnight of a Monday, where `e >= end`.
    pub fn loose_end(&self) -> (r: Instant)
        ensures
            self.wf(),
            r == self.spec_loose_end(),
            within_week(self.spec_end(), r),
    {
        proof {
            use_type_invariant(self);
        }
        // As in `loose_start`: the arms for `None` are never taken.
        match monday_after(self.end.day) {
            Some(d) => match Instant::midnight(d) {
                Some(i) => i,
                None => self.end,
            },
            None => self.end,
        }
    }

    /// Whether `now` lies between `start` and `end`, both included.
    pub fn contains(&self, now: &Instant) -> (r: bool)
        ensures
            self.wf(),
            r == self.strictly_contains(*now),
    {
        proof {
            use_type_invariant(self);
        }
        self.start.le(now) && now.le(&self.end)
    }

    /// Whether `now` lies between the loose bounds, both included.
    pub fn contains_loosely(&self, now: &Instant) -> (r: bool)
        ensures
            self.wf(),
            r == self.loosely_contains(*now),
    {
        self.loose_start().le(now) && now.le(&self.loose_end())
    }
}

/// A term has the parts that it was made of, and each term is made of its
/// parts.
pub proof fn made_of_parts(name: TermName, start: Instant, end: Instant, t: Term)
    ensures
        Term::made(name, start, end).spec_name() == name,
        Term::made(name, start, end).spec_start() == start,
        Term::made(name, start, end).spec_end() == end,
        t == Term::made(t.spec_name(), t.spec_start(), t.spec_end()),
{
}

/// The order of instants is transitive.
pub proof fn order_is_transitive(a: Instant, b: Instant, c: Instant)
    requires
        a.at_or_before(b),
        b.at_or_before(c),
    ensures
        a.at_or_before(c),
{
}

/// An instant within a term's strict bounds is within its loose bounds.
pub proof fn strict_range_within_loose_range(t: Term, now: Instant)
    requires
        t.wf(),
        t.strictly_contains(now),
    ensures
        t.loosely_contains(now),
{
}

/// The loose start of a term is the midnight of a Monday, at or before its
/// start by less than seven days, counted in days and in seconds alike; the
/// loose end is the midnight of a Monday, at or after its end by less than
/// seven days.
pub proof fn loose_bounds_round_to_weeks(t: Term)
    requires
        t.wf(),
    ensures
        t.spec_loose_start().at_or_before(t.spec_start()),
        t.spec_start().secs - t.spec_loose_start().secs < WEEK_SECS,
        weekday_of(t.spec_loose_start().day as int) == 0,
        0 <= t.spec_start().day - t.spec_loose_start().day < 7,
        t.spec_end().at_or_before(t.spec_loose_end()),
        t.spec_loose_end().secs - t.spec_end().secs < WEEK_SECS,
        weekday_of(t.spec_loose_end().day as int) == 0,
        0 <= t.spec_loose_end().day - t.spec_end().day < 7,
{
    mondays_enclose(t.spec_start().day as int);
    mondays_enclose(t.spec_end().day as int);
}

/// A term whose start falls on a Monday has that day as the day of its loose
/// start, and likewise for its end.
pub proof fn monday_bounds_stay(t: Term)
    requires
        t.wf(),
    ensures
        weekday_of(t.spec_start().day as int) == 0 ==> t.spec_loose_start().day
            == t.spec_start().day,
        weekday_of(t.spec_end().day as int) == 0 ==> t.spec_loose_end().day == t.spec_end().day,
{
    mondays_enclose(t.spec_start().day as int);
    mondays_enclose(t.spec_end().day as int);
}

} // verus!
