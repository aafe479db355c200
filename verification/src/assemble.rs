//! Record assembly: the flat stream of `(type code, bytes)` fields of a
//! store is cut into records at the end-of-record sentinels. A field that
//! cannot be decoded leaves a diagnostic in its record and nothing else.

use std::collections::VecDeque;
use vstd::prelude::*;

use crate::field::{
    decoded, error_message, rejection_text, Field, FieldView, CODE_END_OF_RECORD,
};
use crate::record::{field_views, record_views, text_views, Record, RecordView};

verus! {

/// One field as the store holds it: a type code and the decrypted payload.
#[derive(Clone, Debug, PartialEq, Eq)]
pub struct RawField {
    pub type_code: u8,
    pub data: Vec<u8>,
}

/// What a [`RawField`] holds, as mathematical values.
pub struct RawFieldView {
    pub type_code: u8,
    pub data: Seq<u8>,
}

impl View for RawField {
    type V = RawFieldView;

    open spec fn view(&self) -> RawFieldView {
        RawFieldView { type_code: self.type_code, data: self.data@ }
    }
}

impl RawFieldView {
    /// The field that this raw field decodes to, if it is well formed.
    pub open spec fn decoded(self) -> Option<FieldView> {
        decoded(self.type_code, self.data)
    }

    /// Whether this raw field is the sentinel that ends a record.
    pub open spec fn ends_record(self) -> bool {
        self.decoded() == Some(FieldView::EndOfRecord)
    }

    /// The diagnostic that a record keeps when this raw field is rejected.
    pub open spec fn diagnostic(self) -> Seq<char> {
        error_message(self.type_code, rejection_text(self.type_code, self.data))
    }
}

/// The raw field of a type code and a payload.
pub open spec fn raw(type_code: u8, data: Seq<u8>) -> RawFieldView {
    RawFieldView { type_code, data }
}

/// The views of a sequence of raw fields.
pub open spec fn raw_views(fields: Seq<RawField>) -> Seq<RawFieldView> {
    fields.map_values(|f: RawField| f@)
}

/// The record in progress after one more raw field: the sentinel starts
/// afresh, a decoded field is appended, a rejected one leaves its diagnostic.
pub open spec fn after_field(pending: RecordView, raw: RawFieldView) -> RecordView {
    match raw.decoded() {
        Some(FieldView::EndOfRecord) => RecordView::empty(),
        Some(field) => pending.with_field(field),
        None => pending.with_error(raw.diagnostic()),
    }
}

/// The record in progress once all of `stream` has been read: what has
/// accumulated since its last sentinel.
pub open spec fn pending(stream: Seq<RawFieldView>) -> RecordView
    decreases stream.len(),
{
    if stream.len() == 0 {
        RecordView::empty()
    } else {
        after_field(pending(stream.drop_last()), stream.last())
    }
}

/// The records that `stream` holds: one for each sentinel, made of what
/// accumulated before it. What follows the last sentinel belongs to none.
pub open spec fn assembled(stream: Seq<RawFieldView>) -> Seq<RecordView>
    decreases stream.len(),
{
    if stream.len() == 0 {
        Seq::empty()
    } else if stream.last().ends_record() {
        assembled(stream.drop_last()).push(pending(stream.drop_last()))
    } else {
        assembled(stream.drop_last())
    }
}

/// Whether `stream` holds a sentinel.
pub open spec fn has_end(stream: Seq<RawFieldView>) -> bool {
    exists|n: int| 0 <= n < stream.len() && #[trigger] stream[n].ends_record()
}

/// Whether position `n` of `stream` holds its first sentinel.
pub open spec fn is_first_end(stream: Seq<RawFieldView>, n: int) -> bool {
    &&& 0 <= n < stream.len()
    &&& stream[n].ends_record()
    &&& forall|j: int| 0 <= j < n ==> !#[trigger] stream[j].ends_record()
}

/// The position of the first sentinel of a stream that holds one.
pub open spec fn first_end(stream: Seq<RawFieldView>) -> int
    recommends
        has_end(stream),
{
    choose|n: int| is_first_end(stream, n)
}

/// The number of sentinels in `stream`.
pub open spec fn count_ends(stream: Seq<RawFieldView>) -> nat {
    stream.filter(|raw: RawFieldView| raw.ends_record()).len()
}

/// A source of raw fields that are taken in the order they were stored.
pub struct FieldSource {
    queue: VecDeque<RawField>,
}

impl View for FieldSource {
    type V = Seq<RawFieldView>;

    closed spec fn view(&self) -> Seq<RawFieldView> {
        raw_views(self.queue@)
    }
}

impl FieldSource {
    /// A source without fields.
    pub fn new() -> (source: FieldSource)
        ensures
            source@ == Seq::<RawFieldView>::empty(),
    {
        FieldSource { queue: VecDeque::new() }
    }

    /// Adds a field behind those that the source holds.
    pub fn push(&mut self, type_code: u8, data: Vec<u8>)
        ensures
            final(self)@ == old(self)@.push(raw(type_code, data@)),
    {
        self.queue.push_back(RawField { type_code, data });
        assert(self@ =~= old(self)@.push(raw(type_code, data@)));
    }

    /// Takes the next field, `None` once the source is exhausted.
    pub fn next(&mut self) -> (raw: Option<RawField>)
        ensures
            match raw {
                Some(raw) => old(self)@.len() > 0 && raw@ == old(self)@.first() && final(self)@
                    == old(self)@.drop_first(),
                None => old(self)@.len() == 0 && final(self)@.len() == 0,
            },
    {
        let raw = self.queue.pop_front();
        assert(self@ =~= if raw is Some {
            old(self)@.drop_first()
        } else {
            old(self)@
        });
        raw
    }

    /// The number of fields that are left.
    pub fn len(&self) -> (n: usize)
        ensures
            n == self@.len(),
    {
        self.queue.len()
    }
}

/// The accumulator of the record in progress: a state machine that is fed
/// one raw field at a time and hands out a record at each sentinel.
pub struct Assembler {
    fields: Vec<Field>,
    errors: Vec<String>,
}

impl View for Assembler {
    type V = RecordView;

    closed spec fn view(&self) -> RecordView {
        RecordView { fields: field_views(self.fields@), errors: text_views(self.errors@) }
    }
}

impl Assembler {
    /// An assembler with nothing in progress.
    pub fn new() -> (assembler: Assembler)
        ensures
            assembler@ == RecordView::empty(),
    {
        let assembler = Assembler { fields: Vec::new(), errors: Vec::new() };
        assert(assembler@.fields =~= Seq::empty());
        assert(assembler@.errors =~= Seq::empty());
        assembler
    }

    /// Takes one raw field. At the sentinel the record in progress is handed
    /// out and the assembler starts afresh; any other field is added to the
    /// record in progress, as a field or, where its payload is rejected, as
    /// a diagnostic.
    pub fn feed(&mut self, type_code: u8, data: &[u8]) -> (emitted: Option<Record>)
        ensures
            final(self)@ == after_field(old(self)@, raw(type_code, data@)),
            match emitted {
                Some(record) => raw(type_code, data@).ends_record() && record@ == old(self)@,
                None => !raw(type_code, data@).ends_record(),
            },
    {
        match Field::decode(type_code, data) {
            Ok(Field::EndOfRecord) => {
                let mut fields: Vec<Field> = Vec::new();
                let mut errors: Vec<String> = Vec::new();
                core::mem::swap(&mut self.fields, &mut fields);
                core::mem::swap(&mut self.errors, &mut errors);
                assert(self@.fields =~= Seq::empty());
                assert(self@.errors =~= Seq::empty());
                Some(Record::new(fields, errors))
            },
            Ok(field) => {
                self.fields.push(field);
                assert(self@.fields =~= old(self)@.fields.push(field@));
                None
            },
            Err(error) => {
                let message = error.message();
                self.errors.push(message);
                assert(self@.errors =~= old(self)@.errors.push(message@));
                None
            },
        }
    }

    /// Whether the record in progress holds a field.
    pub fn has_pending_fields(&self) -> (yes: bool)
        ensures
            yes == (self@.fields.len() > 0),
    {
        self.fields.len() > 0
    }
}

/// What reading on from a source gave: the next record, or the end of the
/// stream, with the word whether fields were left over behind the last
/// sentinel (they belong to no record and are dropped).
#[derive(Debug, PartialEq, Eq)]
pub enum Next {
    Record(Record),
    End { incomplete: bool },
}

/// The records of a whole stream, and whether fields were left over behind
/// its last sentinel.
#[derive(Debug, PartialEq, Eq)]
pub struct Assembly {
    pub records: Vec<Record>,
    pub incomplete: bool,
}

/// Reads the source up to its next sentinel.
///
/// Where a sentinel is left in the source, the result is the record of the
/// fields before the first one, and the source stands behind that sentinel.
/// Where none is left, the source is drained and the result is the end of
/// the stream, incomplete if a field had accumulated.
pub fn assemble_next(source: &mut FieldSource) -> (next: Next)
    ensures
        has_end(old(source)@) ==> {
            &&& next matches Next::Record(record)
            &&& record@ == pending(old(source)@.take(first_end(old(source)@)))
            &&& final(source)@ == old(source)@.skip(first_end(old(source)@) + 1)
        },
        !has_end(old(source)@) ==> {
            &&& next matches Next::End { incomplete }
            &&& incomplete == (pending(old(source)@).fields.len() > 0)
            &&& final(source)@.len() == 0
        },
{
    let ghost stream = source@;
    let mut assembler = Assembler::new();
    let ghost mut taken: int = 0;
    assert(stream.skip(0) == stream);
    assert(stream.take(0) == Seq::<RawFieldView>::empty());
    loop
        invariant
            0 <= taken <= stream.len(),
            stream == old(source)@,
            source@ == stream.skip(taken),
            assembler@ == pending(stream.take(taken)),
            forall|j: int| 0 <= j < taken ==> !#[trigger] stream[j].ends_record(),
        decreases source@.len(),
    {
        match source.next() {
            None => {
                assert(stream.take(taken) == stream);
                return Next::End { incomplete: assembler.has_pending_fields() };
            },
            Some(raw) => {
                assert(raw@ == stream[taken]);
                assert(stream.take(taken + 1).drop_last() == stream.take(taken));
                assert(stream.take(taken + 1).last() == stream[taken]);
                assert(stream.skip(taken).drop_first() == stream.skip(taken + 1));
                match assembler.feed(raw.type_code, raw.data.as_slice()) {
                    Some(record) => {
                        proof {
                            assert(is_first_end(stream, taken));
                            lemma_first_end_is_unique(stream, taken);
                        }
                        return Next::Record(record);
                    },
                    None => {
                        proof {
                            taken = taken + 1;
                        }
                    },
                }
            },
        }
    }
}

/// Reads a source to its end.
///
/// The result holds the records of the stream, in order, and the word
/// whether fields were left over behind the last sentinel.
pub fn assemble_all(source: &mut FieldSource) -> (assembly: Assembly)
    ensures
        record_views(assembly.records@) == assembled(old(source)@),
        assembly.records@.len() == count_ends(old(source)@),
        assembly.incomplete == (pending(old(source)@).fields.len() > 0),
        final(source)@.len() == 0,
{
    let ghost stream = source@;
    let mut records: Vec<Record> = Vec::new();
    assert(record_views(records@) =~= Seq::empty());
    loop
        invariant
            stream == old(source)@,
            assembled(stream) == record_views(records@) + assembled(source@),
            pending(stream) == pending(source@),
        decreases source@.len(),
    {
        let ghost rest = source@;
        match assemble_next(source) {
            Next::Record(record) => {
                proof {
                    lemma_first_end_is_first(rest);
                    lemma_split_at_first_end(rest, first_end(rest));
                    assert(record_views(records@.push(record)) =~= record_views(records@).push(
                        record@,
                    ));
                }
                records.push(record);
            },
            Next::End { incomplete } => {
                proof {
                    lemma_no_end_no_record(rest);
                    lemma_record_count(stream);
                    assert(record_views(records@).len() == records@.len());
                }
                return Assembly { records, incomplete };
            },
        }
    }
}

/// The sentinel is told by its type code alone, whatever its payload.
pub proof fn lemma_sentinel_is_its_code(raw: RawFieldView)
    ensures
        raw.ends_record() <==> raw.type_code == CODE_END_OF_RECORD,
{
}

/// A stream has at most one first sentinel.
pub proof fn lemma_first_end_is_unique(stream: Seq<RawFieldView>, n: int)
    requires
        is_first_end(stream, n),
    ensures
        has_end(stream),
        first_end(stream) == n,
{
    let m = first_end(stream);
    assert(is_first_end(stream, m));
    if m < n {
        assert(!stream[m].ends_record());
    }
    if n < m {
        assert(!stream[n].ends_record());
    }
}

/// A stream that holds a sentinel holds a first one.
pub proof fn lemma_first_end_is_first(stream: Seq<RawFieldView>)
    requires
        has_end(stream),
    ensures
        is_first_end(stream, first_end(stream)),
{
    let n = choose|n: int| 0 <= n < stream.len() && #[trigger] stream[n].ends_record();
    lemma_least_end(stream, n);
}

proof fn lemma_least_end(stream: Seq<RawFieldView>, n: int)
    requires
        0 <= n < stream.len(),
        stream[n].ends_record(),
    ensures
        exists|m: int| is_first_end(stream, m),
    decreases n,
{
    if exists|j: int| 0 <= j < n && #[trigger] stream[j].ends_record() {
        let j = choose|j: int| 0 <= j < n && #[trigger] stream[j].ends_record();
        lemma_least_end(stream, j);
    } else {
        assert(is_first_end(stream, n));
    }
}

/// A stream without a sentinel holds no record.
pub proof fn lemma_no_end_no_record(stream: Seq<RawFieldView>)
    requires
        !has_end(stream),
    ensures
        assembled(stream) == Seq::<RecordView>::empty(),
    decreases stream.len(),
{
    if stream.len() > 0 {
        assert(!stream[stream.len() - 1].ends_record());
        assert forall|n: int| 0 <= n < stream.drop_last().len() implies !#[trigger] stream.drop_last()[n].ends_record() by {
            assert(stream.drop_last()[n] == stream[n]);
        }
        lemma_no_end_no_record(stream.drop_last());
    }
}

/// Reading record by record gives the records of the stream: the first
/// record is what accumulates before the first sentinel, the others are the
/// records of what follows it, and what is left over at the end of the
/// stream is what is left over at the end of that rest.
pub proof fn lemma_split_at_first_end(stream: Seq<RawFieldView>, n: int)
    requires
        is_first_end(stream, n),
    ensures
        assembled(stream) == seq![pending(stream.take(n))] + assembled(stream.skip(n + 1)),
        pending(stream) == pending(stream.skip(n + 1)),
    decreases stream.len(),
{
    let front = stream.drop_last();
    let rest = stream.skip(n + 1);
    if n == stream.len() - 1 {
        assert(front == stream.take(n));
        assert(rest == Seq::<RawFieldView>::empty());
        assert forall|j: int| 0 <= j < front.len() implies !#[trigger] front[j].ends_record() by {
            assert(front[j] == stream[j]);
        }
        lemma_no_end_no_record(front);
        assert(assembled(stream) == seq![pending(stream.take(n))] + assembled(rest));
    } else {
        assert(front[n] == stream[n]);
        assert forall|j: int| 0 <= j < n implies !#[trigger] front[j].ends_record() by {
            assert(front[j] == stream[j]);
        }
        lemma_split_at_first_end(front, n);
        assert(front.take(n) == stream.take(n));
        assert(front.skip(n + 1) == rest.drop_last());
        assert(rest.last() == stream.last());
        assert(assembled(stream) == seq![pending(stream.take(n))] + assembled(rest));
    }
}

/// What accumulates over a stream, and then over a run without a sentinel,
/// is what had accumulated over the stream followed by what the run gives.
pub proof fn lemma_pending_concat(head: Seq<RawFieldView>, tail: Seq<RawFieldView>)
    requires
        !has_end(tail),
    ensures
        pending(head + tail).fields == pending(head).fields + pending(tail).fields,
        pending(head + tail).errors == pending(head).errors + pending(tail).errors,
    decreases tail.len(),
{
    if tail.len() == 0 {
        assert(head + tail == head);
        assert(pending(head).fields + pending(tail).fields == pending(head).fields);
        assert(pending(head).errors + pending(tail).errors == pending(head).errors);
    } else {
        let front = tail.drop_last();
        assert(!tail[tail.len() - 1].ends_record());
        assert forall|n: int| 0 <= n < front.len() implies !#[trigger] front[n].ends_record() by {
            assert(front[n] == tail[n]);
        }
        lemma_pending_concat(head, front);
        assert((head + tail).drop_last() == head + front);
        assert((head + tail).last() == tail.last());
        let joined = pending(head + front);
        match tail.last().decoded() {
            Some(field) => {
                assert(joined.fields.push(field) == pending(head).fields + pending(
                    front,
                ).fields.push(field));
            },
            None => {
                assert(joined.errors.push(tail.last().diagnostic()) == pending(head).errors
                    + pending(front).errors.push(tail.last().diagnostic()));
            },
        }
    }
}

/// A rejected field is tolerated: the record in progress holds the fields
/// that came before it and those that come after it, as if it were not
/// there, and its diagnostic stands between theirs.
pub proof fn lemma_rejected_field_is_tolerated(
    before: Seq<RawFieldView>,
    bad: RawFieldView,
    after: Seq<RawFieldView>,
)
    requires
        bad.decoded() is None,
        !has_end(after),
    ensures
        pending(before.push(bad) + after).fields == pending(before).fields + pending(after).fields,
        pending(before.push(bad) + after).errors == pending(before).errors.push(bad.diagnostic())
            + pending(after).errors,
{
    lemma_pending_concat(before.push(bad), after);
    assert(before.push(bad).drop_last() == before);
}

/// A stream holds as many records as it holds sentinels.
pub proof fn lemma_record_count(stream: Seq<RawFieldView>)
    ensures
        assembled(stream).len() == count_ends(stream),
    decreases stream.len(),
{
    reveal(Seq::filter);
    if stream.len() > 0 {
        lemma_record_count(stream.drop_last());
    }
}

} // verus!
