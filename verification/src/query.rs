//! The query engine: which record a search term means. A record whose name
//! or identifier is the term is taken at once; otherwise the records that
//! hold the term are looked at, and more than one of them is an ambiguity
//! that is reported, never settled by a guess.

use vstd::prelude::*;

use crate::record::{record_views, Record, RecordView};
use crate::text::{contains_text, occurs_at, str_contains};

verus! {

impl RecordView {
    /// Whether the display name or the identifier of the record is `term`.
    /// A record without identifier has none that could be the term.
    pub open spec fn matches_exactly(self, term: Seq<char>) -> bool {
        self.display_name() == term || self.unique_id() == Some(term)
    }

    /// Whether the display name or the identifier of the record holds
    /// `term` as a contiguous part.
    pub open spec fn matches_loosely(self, term: Seq<char>) -> bool {
        ||| contains_text(self.display_name(), term)
        ||| self.unique_id() matches Some(id) && contains_text(id, term)
    }
}

/// The test whether a record matches `term` exactly.
pub open spec fn exactly(term: Seq<char>) -> spec_fn(RecordView) -> bool {
    |record: RecordView| record.matches_exactly(term)
}

/// The test whether a record matches `term` loosely.
pub open spec fn loosely(term: Seq<char>) -> spec_fn(RecordView) -> bool {
    |record: RecordView| record.matches_loosely(term)
}

/// The records that match `term` exactly, in stream order.
pub open spec fn exact_matches(records: Seq<RecordView>, term: Seq<char>) -> Seq<RecordView> {
    records.filter(exactly(term))
}

/// The records that match `term` loosely, in stream order.
pub open spec fn loose_matches(records: Seq<RecordView>, term: Seq<char>) -> Seq<RecordView> {
    records.filter(loosely(term))
}

/// What a [`Resolution`] holds, as mathematical values.
pub enum ResolutionView {
    Exact(RecordView),
    Ambiguous(Seq<RecordView>),
    NotFound,
}

/// The record that `term` means among `records`: the first exact match
/// where there is one; else the only loose match; else, with several loose
/// matches, all of them in stream order; else nothing.
pub open spec fn resolved(records: Seq<RecordView>, term: Seq<char>) -> ResolutionView {
    let exact = exact_matches(records, term);
    let loose = loose_matches(records, term);
    if exact.len() > 0 {
        ResolutionView::Exact(exact.first())
    } else if loose.len() == 0 {
        ResolutionView::NotFound
    } else if loose.len() == 1 {
        ResolutionView::Exact(loose.first())
    } else {
        ResolutionView::Ambiguous(loose)
    }
}

/// What is listed for an optional term: the loose matches of the term, or
/// every record where no term is given.
pub open spec fn listed(records: Seq<RecordView>, term: Option<Seq<char>>) -> Seq<RecordView> {
    match term {
        Some(term) => loose_matches(records, term),
        None => records,
    }
}

/// The views of a sequence of borrowed records.
pub open spec fn borrowed_views(records: Seq<&Record>) -> Seq<RecordView> {
    records.map_values(|r: &Record| r@)
}

/// The view of an optional term.
pub open spec fn opt_term(term: Option<&str>) -> Option<Seq<char>> {
    match term {
        Some(t) => Some(t@),
        None => None,
    }
}

/// The outcome of resolving a term.
#[derive(Debug, PartialEq, Eq)]
pub enum Resolution<'a> {
    /// The one record that the term means.
    Exact(&'a Record),
    /// The records that the term could mean, in stream order.
    Ambiguous(Vec<&'a Record>),
    /// No record holds the term.
    NotFound,
}

impl<'a> View for Resolution<'a> {
    type V = ResolutionView;

    open spec fn view(&self) -> ResolutionView {
        match *self {
            Resolution::Exact(record) => ResolutionView::Exact(record@),
            Resolution::Ambiguous(matches) => ResolutionView::Ambiguous(borrowed_views(matches@)),
            Resolution::NotFound => ResolutionView::NotFound,
        }
    }
}

/// Whether the display name or the identifier of `record` is `term`.
pub fn matches_exactly(record: &Record, term: &str) -> (yes: bool)
    ensures
        yes == record@.matches_exactly(term@),
{
    let wanted = String::from_str(term);
    if record.display_name() == wanted {
        return true;
    }
    match record.unique_id() {
        Some(id) => id == wanted,
        None => false,
    }
}

/// Whether the display name or the identifier of `record` holds `term`.
pub fn matches_loosely(record: &Record, term: &str) -> (yes: bool)
    ensures
        yes == record@.matches_loosely(term@),
{
    if str_contains(record.display_name().as_str(), term) {
        return true;
    }
    match record.unique_id() {
        Some(id) => str_contains(id.as_str(), term),
        None => false,
    }
}

/// The records to list for an optional term: those that match the term
/// loosely, or all of them where no term is given, in stream order. The
/// empty term is a term like any other; every record holds it.
pub fn list<'a>(records: &'a Vec<Record>, term: Option<&str>) -> (found: Vec<&'a Record>)
    ensures
        borrowed_views(found@) == listed(record_views(records@), opt_term(term)),
{
    let ghost views = record_views(records@);
    let mut found: Vec<&'a Record> = Vec::new();
    let mut i: usize = 0;
    proof {
        assert(borrowed_views(found@) =~= Seq::empty());
        assert(views.take(0) =~= Seq::empty());
        if let Some(t) = term {
            lemma_filter_none(views.take(0), loosely(t@));
        }
    }
    while i < records.len()
        invariant
            i <= records.len(),
            views == record_views(records@),
            borrowed_views(found@) == listed(views.take(i as int), opt_term(term)),
        decreases records.len() - i,
    {
        let record = &records[i];
        let wanted = match term {
            Some(t) => matches_loosely(record, t),
            None => true,
        };
        proof {
            assert(views[i as int] == record@);
            match term {
                Some(t) => {
                    lemma_filter_step(views, loosely(t@), i as int);
                },
                None => {
                    assert(views.take(i + 1) =~= views.take(i as int).push(views[i as int]));
                },
            }
            if wanted {
                assert(borrowed_views(found@.push(record)) =~= borrowed_views(found@).push(
                    record@,
                ));
            }
        }
        if wanted {
            found.push(record);
        }
        i += 1;
    }
    assert(views.take(records.len() as int) =~= views);
    found
}

/// Resolves `term` to the record it means.
///
/// The first record that matches exactly is taken at once, whatever else
/// holds the term. Without an exact match, the loose matches decide: none
/// is `NotFound`, one is that record, several are `Ambiguous`, listed in
/// stream order.
pub fn resolve<'a>(records: &'a Vec<Record>, term: &str) -> (resolution: Resolution<'a>)
    ensures
        resolution@ == resolved(record_views(records@), term@),
{
    let ghost views = record_views(records@);
    let mut i: usize = 0;
    while i < records.len()
        invariant
            i <= records.len(),
            views == record_views(records@),
            forall|j: int| 0 <= j < i ==> !#[trigger] views[j].matches_exactly(term@),
        decreases records.len() - i,
    {
        let record = &records[i];
        assert(views[i as int] == record@);
        if matches_exactly(record, term) {
            proof {
                lemma_filter_first(views, exactly(term@), i as int);
            }
            return Resolution::Exact(record);
        }
        i += 1;
    }
    proof {
        lemma_filter_none(views, exactly(term@));
    }
    let found = list(records, Some(term));
    if found.len() == 0 {
        Resolution::NotFound
    } else if found.len() == 1 {
        let only = found[0];
        assert(borrowed_views(found@).first() == only@);
        Resolution::Exact(only)
    } else {
        Resolution::Ambiguous(found)
    }
}

/// No element passes a test that every element fails.
pub proof fn lemma_filter_none<A>(s: Seq<A>, pred: spec_fn(A) -> bool)
    requires
        forall|i: int| 0 <= i < s.len() ==> !pred(#[trigger] s[i]),
    ensures
        s.filter(pred) == Seq::<A>::empty(),
    decreases s.len(),
{
    reveal(Seq::filter);
    if s.len() > 0 {
        assert(!pred(s[s.len() - 1]));
        assert forall|i: int| 0 <= i < s.drop_last().len() implies !pred(
            #[trigger] s.drop_last()[i],
        ) by {
            assert(s.drop_last()[i] == s[i]);
        }
        lemma_filter_none(s.drop_last(), pred);
    }
}

/// The first element that passes a test is the first of those that pass it.
pub proof fn lemma_filter_first<A>(s: Seq<A>, pred: spec_fn(A) -> bool, at: int)
    requires
        0 <= at < s.len(),
        pred(s[at]),
        forall|i: int| 0 <= i < at ==> !pred(#[trigger] s[i]),
    ensures
        s.filter(pred).len() > 0,
        s.filter(pred).first() == s[at],
    decreases s.len(),
{
    reveal(Seq::filter);
    let front = s.drop_last();
    if at == s.len() - 1 {
        assert forall|i: int| 0 <= i < front.len() implies !pred(#[trigger] front[i]) by {
            assert(front[i] == s[i]);
        }
        lemma_filter_none(front, pred);
    } else {
        assert(front[at] == s[at]);
        assert forall|i: int| 0 <= i < at implies !pred(#[trigger] front[i]) by {
            assert(front[i] == s[i]);
        }
        lemma_filter_first(front, pred, at);
    }
}

/// Filtering one element more keeps what was kept, and keeps the element
/// behind it if it passes the test.
pub proof fn lemma_filter_step<A>(s: Seq<A>, pred: spec_fn(A) -> bool, i: int)
    requires
        0 <= i < s.len(),
    ensures
        s.take(i + 1).filter(pred) == if pred(s[i]) {
            s.take(i).filter(pred).push(s[i])
        } else {
            s.take(i).filter(pred)
        },
{
    reveal(Seq::filter);
    assert(s.take(i + 1).drop_last() == s.take(i));
    assert(s.take(i + 1).last() == s[i]);
}

/// Filtering on over elements that fail the test keeps what was kept.
pub proof fn lemma_filter_passes_over<A>(s: Seq<A>, pred: spec_fn(A) -> bool, from: int, to: int)
    requires
        0 <= from <= to <= s.len(),
        forall|i: int| from <= i < to ==> !pred(#[trigger] s[i]),
    ensures
        s.take(to).filter(pred) == s.take(from).filter(pred),
    decreases to - from,
{
    if from < to {
        lemma_filter_passes_over(s, pred, from, to - 1);
        lemma_filter_step(s, pred, to - 1);
    }
}

/// A record that matches a term exactly matches it loosely too.
pub proof fn lemma_exact_is_loose(record: RecordView, term: Seq<char>)
    requires
        record.matches_exactly(term),
    ensures
        record.matches_loosely(term),
{
    if record.display_name() == term {
        assert(term.subrange(0, term.len() as int) == term);
        assert(occurs_at(record.display_name(), term, 0));
    } else {
        let id = record.unique_id()->Some_0;
        assert(id.subrange(0, id.len() as int) == id);
        assert(occurs_at(id, term, 0));
    }
}

/// The empty term is held by every record, with or without identifier: as
/// a term to list by it lists everything, and as a term to resolve it is
/// ambiguous as soon as there are two records.
pub proof fn lemma_empty_term_matches_loosely(record: RecordView)
    ensures
        record.matches_loosely(Seq::empty()),
{
    let name = record.display_name();
    assert(name.subrange(0, 0) == Seq::<char>::empty());
    assert(occurs_at(name, Seq::empty(), 0));
}

/// Exact beats substring: where a record matches the term exactly and no
/// record before it does, the term resolves to that record, however many
/// records hold the term.
pub proof fn lemma_exact_beats_substring(records: Seq<RecordView>, term: Seq<char>, at: int)
    requires
        0 <= at < records.len(),
        records[at].matches_exactly(term),
        forall|i: int| 0 <= i < at ==> !#[trigger] records[i].matches_exactly(term),
    ensures
        resolved(records, term) == ResolutionView::Exact(records[at]),
{
    lemma_filter_first(records, exactly(term), at);
}

/// Not found: a term that no record holds resolves to nothing.
pub proof fn lemma_unmatched_term_is_not_found(records: Seq<RecordView>, term: Seq<char>)
    requires
        forall|i: int| 0 <= i < records.len() ==> !#[trigger] records[i].matches_loosely(term),
    ensures
        resolved(records, term) == ResolutionView::NotFound,
{
    assert forall|i: int| 0 <= i < records.len() implies !exactly(term)(#[trigger] records[i]) by {
        if records[i].matches_exactly(term) {
            lemma_exact_is_loose(records[i], term);
        }
    }
    lemma_filter_none(records, exactly(term));
    lemma_filter_none(records, loosely(term));
}

/// Ambiguity keeps stream order: where two records hold the term, none
/// other does and none matches it exactly, the term is ambiguous between
/// the two, the earlier one first.
pub proof fn lemma_ambiguity_in_stream_order(
    records: Seq<RecordView>,
    term: Seq<char>,
    first: int,
    second: int,
)
    requires
        0 <= first < second < records.len(),
        records[first].matches_loosely(term),
        records[second].matches_loosely(term),
        forall|i: int|
            0 <= i < records.len() && i != first && i != second
                ==> !#[trigger] records[i].matches_loosely(term),
        forall|i: int| 0 <= i < records.len() ==> !#[trigger] records[i].matches_exactly(term),
    ensures
        resolved(records, term) == ResolutionView::Ambiguous(
            seq![records[first], records[second]],
        ),
{
    let keep = loosely(term);
    lemma_filter_none(records, exactly(term));
    assert(records.take(0) == Seq::<RecordView>::empty());
    lemma_filter_none(records.take(0), keep);
    lemma_filter_passes_over(records, keep, 0, first);
    lemma_filter_step(records, keep, first);
    lemma_filter_passes_over(records, keep, first + 1, second);
    lemma_filter_step(records, keep, second);
    lemma_filter_passes_over(records, keep, second + 1, records.len() as int);
    assert(records.take(records.len() as int) == records);
    assert(records.filter(keep) == seq![records[first], records[second]]);
}

} // verus!
