//! The table of terms: built from rows of dates, kept in the order of the
//! terms' starts.
use vstd::prelude::*;
use vstd::seq_lib::to_multiset_insert;
use crate::resolve::all_wf;
use crate::term::{Term, TermName};
use crate::zone::Date;

verus! {

/// One row of the table as it is written down: a term's name, its first day
/// and its last day.
#[derive(Clone, Copy, Debug, PartialEq, Eq, Structural)]
pub struct Row {
    pub name: TermName,
    pub first: Date,
    pub last: Date,
}

/// The term that a row describes.
pub open spec fn term_of(row: Row) -> Option<Term> {
    Term::spec_from_dates(row.name, row.first, row.last)
}

/// The terms that rows describe, in the order of the rows.
pub open spec fn terms_of(rows: Seq<Row>) -> Seq<Term> {
    Seq::new(rows.len(), |i: int| term_of(rows[i]).unwrap())
}

/// Whether no term of the table starts before a term that stands before it.
pub open spec fn sorted_by_start(terms: Seq<Term>) -> bool {
    forall|i: int, j: int|
        0 <= i < j < terms.len() ==> (#[trigger] terms[i]).spec_start().at_or_before(
            (#[trigger] terms[j]).spec_start(),
        )
}

/// The place that `term` takes in `terms`: behind the last term that starts
/// when it does or earlier.
pub open spec fn place_for(terms: Seq<Term>, term: Term) -> int
    decreases terms.len(),
{
    if terms.len() == 0 {
        0
    } else if terms.last().spec_start().at_or_before(term.spec_start()) {
        terms.len() as int
    } else {
        place_for(terms.drop_last(), term)
    }
}

/// The terms in the order of their starts, those of one start in the order in
/// which they were given: each term in turn takes its place among those
/// before it.
pub open spec fn in_order(terms: Seq<Term>) -> Seq<Term>
    decreases terms.len(),
{
    if terms.len() == 0 {
        terms
    } else {
        let front = in_order(terms.drop_last());
        front.insert(place_for(front, terms.last()), terms.last())
    }
}

/// In a table in the order of its starts, the place of a term is the one that
/// has every term that starts no later before it and every other term after
/// it.
pub proof fn place_divides(terms: Seq<Term>, term: Term, place: int)
    requires
        0 <= place <= terms.len(),
        forall|i: int|
            0 <= i < place ==> (#[trigger] terms[i]).spec_start().at_or_before(term.spec_start()),
        forall|i: int|
            place <= i < terms.len() ==> !(#[trigger] terms[i]).spec_start().at_or_before(
                term.spec_start(),
            ),
    ensures
        place_for(terms, term) == place,
    decreases terms.len(),
{
    if terms.len() > 0 {
        let front = terms.drop_last();
        if terms.last().spec_start().at_or_before(term.spec_start()) {
            assert(terms[terms.len() - 1] == terms.last());
        } else {
            assert(terms[terms.len() - 1] == terms.last());
            assert forall|i: int| 0 <= i < place implies (#[trigger] front[i]).spec_start().at_or_before(
                term.spec_start(),
            ) by {
                assert(front[i] == terms[i]);
            }
            assert forall|i: int| place <= i < front.len() implies !(#[trigger] front[i]).spec_start().at_or_before(
                term.spec_start(),
            ) by {
                assert(front[i] == terms[i]);
            }
            place_divides(front, term, place);
        }
    }
}

/// Puts `term` into a table that is in the order of its starts: behind every
/// term that starts when it does or earlier, before every term that starts
/// later. Returns the place it was given.
pub fn insert_by_start(terms: &mut Vec<Term>, term: Term) -> (place: usize)
    requires
        sorted_by_start(old(terms)@),
    ensures
        place <= old(terms)@.len(),
        place == place_for(old(terms)@, term),
        final(terms)@ == old(terms)@.insert(place as int, term),
        sorted_by_start(final(terms)@),
        forall|i: int|
            0 <= i < place ==> (#[trigger] old(terms)@[i]).spec_start().at_or_before(
                term.spec_start(),
            ),
        forall|i: int|
            place <= i < old(terms)@.len() ==> !(#[trigger] old(terms)@[i]).spec_start().at_or_before(
                term.spec_start(),
            ),
{
    let start = term.start();
    let mut place: usize = 0;
    while place < terms.len() && terms[place].start().le(&start)
        invariant
            place <= terms@.len(),
            terms@ == old(terms)@,
            start == term.spec_start(),
            forall|i: int|
                0 <= i < place ==> (#[trigger] terms@[i]).spec_start().at_or_before(start),
        decreases terms@.len() - place,
    {
        place = place + 1;
    }
    terms.insert(place, term);
    proof {
        let before = old(terms)@;
        let after = final(terms)@;
        assert forall|i: int| place <= i < before.len() implies !(#[trigger] before[i]).spec_start().at_or_before(
            start,
        ) by {
            if place < i {
                assert(before[place as int].spec_start().at_or_before(before[i].spec_start()));
            }
        }
        place_divides(before, term, place as int);
        assert forall|i: int, j: int| 0 <= i < j < after.len() implies (#[trigger] after[i]).spec_start().at_or_before(
            (#[trigger] after[j]).spec_start(),
        ) by {
            if i < place && j > place {
                assert(after[i] == before[i] && after[j] == before[j - 1]);
            } else if i < place && j < place {
                assert(after[i] == before[i] && after[j] == before[j]);
            } else if i > place {
                assert(after[i] == before[i - 1] && after[j] == before[j - 1]);
            } else if i == place {
                assert(after[j] == before[j - 1]);
            } else {
                assert(after[i] == before[i]);
            }
        }
    }
    place
}

/// Builds the table from its rows: each row's term, the terms in the order of
/// their starts. `None` where a row describes no term.
pub fn build_table(rows: &[Row]) -> (r: Option<Vec<Term>>)
    ensures
        r is Some <==> forall|k: int| 0 <= k < rows@.len() ==> term_of(#[trigger] rows@[k]) is Some,
        r matches Some(v) ==> v@ == in_order(terms_of(rows@)) && sorted_by_start(v@) && all_wf(v@)
            && v@.to_multiset() == terms_of(rows@).to_multiset(),
{
    let mut out: Vec<Term> = Vec::new();
    let mut k: usize = 0;
    proof {
        assert(terms_of(rows@.take(0)) =~= out@);
    }
    while k < rows.len()
        invariant
            k <= rows@.len(),
            sorted_by_start(out@),
            all_wf(out@),
            out@ == in_order(terms_of(rows@.take(k as int))),
            out@.to_multiset() == terms_of(rows@.take(k as int)).to_multiset(),
            forall|j: int| 0 <= j < k ==> term_of(#[trigger] rows@[j]) is Some,
        decreases rows@.len() - k,
    {
        let row = &rows[k];
        let ghost before = out@;
        match Term::from_dates(row.name, row.first, row.last) {
            None => {
                return None;
            },
            Some(term) => {
                let place = insert_by_start(&mut out, term);
                proof {
                    to_multiset_insert(before, place as int, term);
                    let done = terms_of(rows@.take(k as int));
                    let more = terms_of(rows@.take(k + 1));
                    assert(more =~= done.insert(done.len() as int, term));
                    assert(more.drop_last() =~= done);
                    assert(more.last() == term);
                    to_multiset_insert(done, done.len() as int, term);
                    assert forall|i: int| 0 <= i < out@.len() implies (#[trigger] out@[i]).wf() by {
                        if i < place {
                            assert(out@[i] == before[i]);
                        } else if i > place {
                            assert(out@[i] == before[i - 1]);
                        }
                    }
                }
            },
        }
        k = k + 1;
    }
    proof {
        assert(rows@.take(k as int) =~= rows@);
    }
    Some(out)
}

} // verus!
