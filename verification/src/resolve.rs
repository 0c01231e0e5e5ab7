//! Which term an instant falls in, which week of the term it is, and the
//! label shown for it.
use vstd::prelude::*;
use vstd::string::*;
use crate::calendar::{weekday, weekday_abbrev, weekday_of, weekday_text};
use crate::term::{order_is_transitive, strict_range_within_loose_range, Term};
use crate::text::{integer_text, push_integer};
use crate::zone::Instant;

verus! {

/// Whether `term` contains `now`, within its loose bounds or its strict ones.
pub open spec fn contains(term: Term, now: Instant, loose: bool) -> bool {
    if loose {
        term.loosely_contains(now)
    } else {
        term.strictly_contains(now)
    }
}

/// The place of the last term of `terms` that contains `now`.
pub open spec fn last_containing(terms: Seq<Term>, now: Instant, loose: bool) -> Option<int>
    decreases terms.len(),
{
    if terms.len() == 0 {
        None
    } else if contains(terms.last(), now, loose) {
        Some(terms.len() - 1)
    } else {
        last_containing(terms.drop_last(), now, loose)
    }
}

/// The term at a place, if there is a place.
pub open spec fn term_at(terms: Seq<Term>, place: Option<int>) -> Option<Term> {
    match place {
        Some(i) => Some(terms[i]),
        None => None,
    }
}

/// The term that a result of a resolution refers to.
pub open spec fn found(r: Option<&Term>) -> Option<Term> {
    match r {
        Some(term) => Some(*term),
        None => None,
    }
}

/// Whether every term of the table ends before the loose start of each term
/// that stands after it.
pub open spec fn apart(terms: Seq<Term>) -> bool {
    forall|i: int, j: int|
        0 <= i < j < terms.len() ==> !(#[trigger] terms[j]).spec_loose_start().at_or_before(
            (#[trigger] terms[i]).spec_end(),
        )
}

/// Whether every term of the table is well formed.
pub open spec fn all_wf(terms: Seq<Term>) -> bool {
    forall|i: int| 0 <= i < terms.len() ==> (#[trigger] terms[i]).wf()
}

/// The week of the term that `now` lies in, the week of the term's start
/// being week 1: the difference of the two ISO week numbers, and one.
pub open spec fn week_number(term: Term, now: Instant) -> int {
    now.week - term.spec_start().week + 1
}

/// Name, week and day of the week with a stroke between them; in round
/// brackets unless `now` is strictly within the term.
pub open spec fn label_text(term: Term, now: Instant, strict: bool) -> Seq<char> {
    let inner = term.spec_name().short_text() + "/"@ + integer_text(week_number(term, now)) + "/"@
        + weekday_text(weekday_of(now.day as int));
    if strict {
        inner
    } else {
        "("@ + inner + ")"@
    }
}

/// The loose and the strict resolution of an instant gave two different
/// terms: the table of terms is at fault.
#[derive(Clone, Copy, Debug, PartialEq, Eq, Structural)]
pub struct Mismatch {
    pub loose: Term,
    pub strict: Term,
}

/// What is shown for `now`: `n/a` where no term contains it loosely, else the
/// label of the last term that does, unless a different term contains it
/// strictly.
pub open spec fn status(terms: Seq<Term>, now: Instant) -> Result<Seq<char>, Mismatch> {
    match last_containing(terms, now, true) {
        None => Ok("n/a"@),
        Some(i) => match last_containing(terms, now, false) {
            None => Ok(label_text(terms[i], now, false)),
            Some(j) => if terms[j] == terms[i] {
                Ok(label_text(terms[i], now, true))
            } else {
                Err(Mismatch { loose: terms[i], strict: terms[j] })
            },
        },
    }
}

/// The text of a result.
pub open spec fn shown(r: Result<String, Mismatch>) -> Result<Seq<char>, Mismatch> {
    match r {
        Ok(s) => Ok(s@),
        Err(e) => Err(e),
    }
}

/// `last_containing` finds a term that contains the instant and has no such
/// term after it, and finds none only where there is none.
pub proof fn last_containing_is_last(terms: Seq<Term>, now: Instant, loose: bool)
    ensures
        match last_containing(terms, now, loose) {
            Some(i) => 0 <= i < terms.len() && contains(terms[i], now, loose) && forall|j: int|
                i < j < terms.len() ==> !contains(#[trigger] terms[j], now, loose),
            None => forall|j: int|
                0 <= j < terms.len() ==> !contains(#[trigger] terms[j], now, loose),
        },
    decreases terms.len(),
{
    if terms.len() > 0 && !contains(terms.last(), now, loose) {
        let front = terms.drop_last();
        last_containing_is_last(front, now, loose);
        assert forall|j: int| 0 <= j < front.len() implies front[j] == terms[j] by {}
        match last_containing(front, now, loose) {
            Some(i) => {
                assert forall|j: int| i < j < terms.len() implies !contains(
                    #[trigger] terms[j],
                    now,
                    loose,
                ) by {
                    if j < front.len() {
                        assert(front[j] == terms[j]);
                    }
                }
            },
            None => {
                assert forall|j: int| 0 <= j < terms.len() implies !contains(
                    #[trigger] terms[j],
                    now,
                    loose,
                ) by {
                    if j < front.len() {
                        assert(front[j] == terms[j]);
                    }
                }
            },
        }
    }
}

fn find_last(terms: &[Term], now: &Instant, loose: bool) -> (r: Option<usize>)
    ensures
        all_wf(terms@),
        last_containing(terms@, *now, loose) == (match r {
            Some(i) => Some(i as int),
            None => None,
        }),
        r matches Some(i) ==> i < terms.len(),
{
    let mut last: Option<usize> = None;
    let mut i: usize = 0;
    while i < terms.len()
        invariant
            i <= terms.len(),
            all_wf(terms@.take(i as int)),
            last matches Some(k) ==> k < i,
            last_containing(terms@.take(i as int), *now, loose) == (match last {
                Some(k) => Some(k as int),
                None => None,
            }),
        decreases terms.len() - i,
    {
        let term = &terms[i];
        let hit = if loose {
            term.contains_loosely(now)
        } else {
            term.contains(now)
        };
        proof {
            let next = terms@.take(i + 1);
            assert(next.drop_last() =~= terms@.take(i as int));
            assert(next.last() == terms@[i as int]);
            assert forall|k: int| 0 <= k < next.len() implies (#[trigger] next[k]).wf() by {
                if k < i {
                    assert(terms@.take(i as int)[k] == next[k]);
                } else {
                    assert(next[k] == *term);
                }
            }
        }
        if hit {
            last = Some(i);
        }
        i = i + 1;
    }
    proof {
        assert(terms@.take(i as int) =~= terms@);
    }
    last
}

/// The last term of the table whose loose bounds contain `now`.
pub fn get_term<'a>(terms: &'a [Term], now: Instant) -> (r: Option<&'a Term>)
    ensures
        all_wf(terms@),
        found(r) == term_at(terms@, last_containing(terms@, now, true)),
{
    match find_last(terms, &now, true) {
        Some(i) => Some(&terms[i]),
        None => None,
    }
}

/// The last term of the table whose strict bounds contain `now`.
pub fn get_strict_term<'a>(terms: &'a [Term], now: Instant) -> (r: Option<&'a Term>)
    ensures
        all_wf(terms@),
        found(r) == term_at(terms@, last_containing(terms@, now, false)),
{
    match find_last(terms, &now, false) {
        Some(i) => Some(&terms[i]),
        None => None,
    }
}

/// The week of `term` that `now` lies in.
pub fn week_of_term(term: &Term, now: &Instant) -> (r: i64)
    ensures
        r == week_number(*term, *now),
{
    (now.week as i64) - (term.start().week as i64) + 1
}

/// The label of `now` in `term`: in round brackets unless `strict`.
pub fn label(term: &Term, now: &Instant, strict: bool) -> (r: String)
    ensures
        r@ == label_text(*term, *now, strict),
{
    let mut out = String::new();
    if !strict {
        out.append("(");
    }
    out.append(term.name().shortname());
    out.append("/");
    push_integer(&mut out, week_of_term(term, now));
    out.append("/");
    out.append(weekday_abbrev(weekday(now.day)));
    if !strict {
        out.append(")");
    }
    proof {
        assert(out@ =~= label_text(*term, *now, strict));
    }
    out
}

/// What is shown for `now` once both resolutions are made: `loose` and
/// `strict` are what they gave.
pub open spec fn status_of(loose: Option<Term>, strict: Option<Term>, now: Instant) -> Result<
    Seq<char>,
    Mismatch,
> {
    match loose {
        None => Ok("n/a"@),
        Some(term) => match strict {
            None => Ok(label_text(term, now, false)),
            Some(inner) => if inner == term {
                Ok(label_text(term, now, true))
            } else {
                Err(Mismatch { loose: term, strict: inner })
            },
        },
    }
}

/// The text for `now`, given the term that contains it loosely and the term
/// that contains it strictly.
pub fn present(loose: Option<&Term>, strict: Option<&Term>, now: &Instant) -> (r: Result<
    String,
    Mismatch,
>)
    ensures
        shown(r) == status_of(found(loose), found(strict), *now),
{
    match loose {
        None => Ok(String::from_str("n/a")),
        Some(term) => match strict {
            None => Ok(label(term, now, false)),
            Some(inner) => if *inner == *term {
                Ok(label(term, now, true))
            } else {
                Err(Mismatch { loose: *term, strict: *inner })
            },
        },
    }
}

/// Resolves `now` against the table and gives the text to show.
pub fn describe(terms: &[Term], now: Instant) -> (r: Result<String, Mismatch>)
    ensures
        all_wf(terms@),
        shown(r) == status(terms@, now),
{
    let loose = get_term(terms, now);
    let strict = match loose {
        Some(_) => get_strict_term(terms, now),
        None => None,
    };
    present(loose, strict, &now)
}

/// Resolving one instant against one table twice gives the same text, or the
/// same fault, both times.
pub proof fn describe_twice_agrees(
    terms: Seq<Term>,
    now: Instant,
    first: Result<String, Mismatch>,
    second: Result<String, Mismatch>,
)
    requires
        shown(first) == status(terms, now),
        shown(second) == status(terms, now),
    ensures
        shown(first) == shown(second),
{
}

/// Where a term contains an instant strictly, the loose resolution finds a
/// term too: that one or one that stands after it.
pub proof fn strict_match_has_loose_match(terms: Seq<Term>, now: Instant)
    requires
        all_wf(terms),
    ensures
        last_containing(terms, now, false) matches Some(i) ==> (last_containing(
            terms,
            now,
            true,
        ) matches Some(j) && i <= j),
{
    last_containing_is_last(terms, now, false);
    last_containing_is_last(terms, now, true);
    if let Some(i) = last_containing(terms, now, false) {
        strict_range_within_loose_range(terms[i], now);
    }
}

/// In a table whose terms each end before the loose start of every later
/// term, the strict resolution, where it finds a term, finds the term that
/// the loose resolution finds, and no fault is reported.
pub proof fn strict_match_is_loose_match(terms: Seq<Term>, now: Instant)
    requires
        all_wf(terms),
        apart(terms),
    ensures
        last_containing(terms, now, false) is Some ==> last_containing(terms, now, true)
            == last_containing(terms, now, false),
        status(terms, now) is Ok,
{
    last_containing_is_last(terms, now, false);
    last_containing_is_last(terms, now, true);
    strict_match_has_loose_match(terms, now);
    if let Some(i) = last_containing(terms, now, false) {
        let j = last_containing(terms, now, true).unwrap();
        if i < j {
            order_is_transitive(terms[j].spec_loose_start(), now, terms[i].spec_end());
        }
    }
}

/// At the start of a term it is week 1 of that term.
pub proof fn term_starts_in_week_one(term: Term)
    ensures
        week_number(term, term.spec_start()) == 1,
{
}

/// An instant that every term of the table leaves out, lying before its loose
/// start or after its loose end, is shown as `n/a`: so it is before the first
/// term, after the last, and in a gap between two.
pub proof fn outside_every_term_is_not_applicable(terms: Seq<Term>, now: Instant)
    requires
        forall|i: int|
            0 <= i < terms.len() ==> !(#[trigger] terms[i]).spec_loose_start().at_or_before(now)
                || !now.at_or_before(terms[i].spec_loose_end()),
    ensures
        last_containing(terms, now, true) is None,
        status(terms, now) == Ok::<Seq<char>, Mismatch>("n/a"@),
{
    last_containing_is_last(terms, now, true);
}

} // verus!
