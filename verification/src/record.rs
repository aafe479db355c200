//! A record: the fields of one credential entry in the order they were
//! stored, with the diagnostics of the fields that could not be decoded.

use vstd::prelude::*;

use crate::field::{Field, FieldKind, FieldView};
use crate::ident::{hyphenated, hyphenated_string};

verus! {

/// One credential entry.
#[derive(Clone, Debug, PartialEq, Eq)]
pub struct Record {
    fields: Vec<Field>,
    errors: Vec<String>,
}

/// What a [`Record`] holds, as mathematical values.
pub struct RecordView {
    /// The decoded fields, in stream order.
    pub fields: Seq<FieldView>,
    /// The diagnostics of the fields that were rejected, in stream order.
    pub errors: Seq<Seq<char>>,
}

/// The views of a sequence of fields.
pub open spec fn field_views(fields: Seq<Field>) -> Seq<FieldView> {
    fields.map_values(|f: Field| f@)
}

/// The views of a sequence of strings.
pub open spec fn text_views(texts: Seq<String>) -> Seq<Seq<char>> {
    texts.map_values(|t: String| t@)
}

/// The views of a sequence of records.
pub open spec fn record_views(records: Seq<Record>) -> Seq<RecordView> {
    records.map_values(|r: Record| r@)
}

/// The view of an optional string.
pub open spec fn opt_text(text: Option<&String>) -> Option<Seq<char>> {
    match text {
        Some(t) => Some(t@),
        None => None,
    }
}

/// The first field of kind `kind` in `fields`, if there is one.
pub open spec fn first_of_kind(fields: Seq<FieldView>, kind: FieldKind) -> Option<FieldView>
    decreases fields.len(),
{
    if fields.len() == 0 {
        None
    } else if fields.first().kind() == kind {
        Some(fields.first())
    } else {
        first_of_kind(fields.drop_first(), kind)
    }
}

impl RecordView {
    /// The record without fields and without diagnostics.
    pub open spec fn empty() -> RecordView {
        RecordView { fields: Seq::empty(), errors: Seq::empty() }
    }

    /// This record with one more field.
    pub open spec fn with_field(self, field: FieldView) -> RecordView {
        RecordView { fields: self.fields.push(field), errors: self.errors }
    }

    /// This record with one more diagnostic.
    pub open spec fn with_error(self, message: Seq<char>) -> RecordView {
        RecordView { fields: self.fields, errors: self.errors.push(message) }
    }

    /// The text of the first field of kind `kind`.
    pub open spec fn text_of(self, kind: FieldKind) -> Option<Seq<char>> {
        match first_of_kind(self.fields, kind) {
            Some(field) => field.text(),
            None => None,
        }
    }

    /// The bytes of the first unique identifier.
    pub open spec fn id_bytes(self) -> Option<Seq<u8>> {
        match first_of_kind(self.fields, FieldKind::UniqueId) {
            Some(field) => field.id(),
            None => None,
        }
    }

    /// The first unique identifier, hyphenated.
    pub open spec fn unique_id(self) -> Option<Seq<char>> {
        match self.id_bytes() {
            Some(bytes) => Some(hyphenated(bytes)),
            None => None,
        }
    }

    /// The hyphenated identifier, or the empty text where the record has none.
    pub open spec fn unique_id_text(self) -> Seq<char> {
        match self.unique_id() {
            Some(text) => text,
            None => Seq::empty(),
        }
    }

    /// The text of the first group field.
    pub open spec fn group(self) -> Option<Seq<char>> {
        self.text_of(FieldKind::Group)
    }

    /// The text of the first title field.
    pub open spec fn title(self) -> Option<Seq<char>> {
        self.text_of(FieldKind::Title)
    }

    /// The text of the first user-name field.
    pub open spec fn username(self) -> Option<Seq<char>> {
        self.text_of(FieldKind::Username)
    }

    /// The text of the first password field.
    pub open spec fn password(self) -> Option<Seq<char>> {
        self.text_of(FieldKind::Password)
    }

    /// The text of the first URL field.
    pub open spec fn url(self) -> Option<Seq<char>> {
        self.text_of(FieldKind::Url)
    }

    /// The text of the first e-mail address field.
    pub open spec fn email_address(self) -> Option<Seq<char>> {
        self.text_of(FieldKind::EmailAddress)
    }

    /// The text of the first notes field.
    pub open spec fn notes(self) -> Option<Seq<char>> {
        self.text_of(FieldKind::Notes)
    }

    /// The name a record is listed and searched under: its group, a dot, its
    /// title, each empty where the record has none.
    pub open spec fn display_name(self) -> Seq<char> {
        or_empty(self.group()) + seq!['.'] + or_empty(self.title())
    }
}

/// The text, or the empty text where there is none.
pub open spec fn or_empty(text: Option<Seq<char>>) -> Seq<char> {
    match text {
        Some(t) => t,
        None => Seq::empty(),
    }
}

impl View for Record {
    type V = RecordView;

    closed spec fn view(&self) -> RecordView {
        RecordView { fields: field_views(self.fields@), errors: text_views(self.errors@) }
    }
}

impl Record {
    /// A record of the given fields and diagnostics.
    pub fn new(fields: Vec<Field>, errors: Vec<String>) -> (record: Record)
        ensures
            record@.fields == field_views(fields@),
            record@.errors == text_views(errors@),
    {
        Record { fields, errors }
    }

    /// The decoded fields, in stream order.
    pub fn fields(&self) -> (fields: &Vec<Field>)
        ensures
            field_views(fields@) == self@.fields,
    {
        &self.fields
    }

    /// The diagnostics of the rejected fields, in stream order.
    pub fn errors(&self) -> (errors: &Vec<String>)
        ensures
            text_views(errors@) == self@.errors,
    {
        &self.errors
    }

    /// The first field of kind `kind`.
    pub fn first_of_kind(&self, kind: FieldKind) -> (found: Option<&Field>)
        ensures
            match found {
                Some(field) => first_of_kind(self@.fields, kind) == Some(field@),
                None => first_of_kind(self@.fields, kind) is None,
            },
    {
        let ghost views = self@.fields;
        let mut i: usize = 0;
        assert(views.skip(0) == views);
        while i < self.fields.len()
            invariant
                i <= self.fields.len(),
                views == field_views(self.fields@),
                first_of_kind(views, kind) == first_of_kind(views.skip(i as int), kind),
            decreases self.fields.len() - i,
        {
            let field = &self.fields[i];
            assert(views.skip(i as int).first() == field@);
            if field.kind() == kind {
                return Some(field);
            }
            assert(views.skip(i as int).drop_first() == views.skip(i as int + 1));
            i += 1;
        }
        None
    }

    /// The text of the first field of kind `kind`.
    pub fn text_of(&self, kind: FieldKind) -> (text: Option<&String>)
        ensures
            opt_text(text) == self@.text_of(kind),
    {
        match self.first_of_kind(kind) {
            Some(field) => field.text(),
            None => None,
        }
    }

    /// The unique identifier in its hyphenated form: that of the first
    /// identifier field, `None` where the record has none.
    pub fn unique_id(&self) -> (id: Option<String>)
        ensures
            match id {
                Some(text) => self@.unique_id() == Some(text@),
                None => self@.unique_id() is None,
            },
    {
        match self.first_of_kind(FieldKind::UniqueId) {
            Some(field) => match field.id() {
                Some(bytes) => Some(hyphenated_string(bytes)),
                None => None,
            },
            None => None,
        }
    }

    /// The hyphenated identifier, or the empty string where the record has none.
    pub fn unique_id_text(&self) -> (text: String)
        ensures
            text@ == self@.unique_id_text(),
    {
        match self.unique_id() {
            Some(text) => text,
            None => String::new(),
        }
    }

    /// The first group field.
    pub fn group(&self) -> (text: Option<&String>)
        ensures
            opt_text(text) == self@.group(),
    {
        self.text_of(FieldKind::Group)
    }

    /// The first title field.
    pub fn title(&self) -> (text: Option<&String>)
        ensures
            opt_text(text) == self@.title(),
    {
        self.text_of(FieldKind::Title)
    }

    /// The first user-name field.
    pub fn username(&self) -> (text: Option<&String>)
        ensures
            opt_text(text) == self@.username(),
    {
        self.text_of(FieldKind::Username)
    }

    /// The first password field.
    pub fn password(&self) -> (text: Option<&String>)
        ensures
            opt_text(text) == self@.password(),
    {
        self.text_of(FieldKind::Password)
    }

    /// The first URL field.
    pub fn url(&self) -> (text: Option<&String>)
        ensures
            opt_text(text) == self@.url(),
    {
        self.text_of(FieldKind::Url)
    }

    /// The first e-mail address field.
    pub fn email_address(&self) -> (text: Option<&String>)
        ensures
            opt_text(text) == self@.email_address(),
    {
        self.text_of(FieldKind::EmailAddress)
    }

    /// The first notes field.
    pub fn notes(&self) -> (text: Option<&String>)
        ensures
            opt_text(text) == self@.notes(),
    {
        self.text_of(FieldKind::Notes)
    }

    /// The name the record is listed and searched under.
    pub fn display_name(&self) -> (name: String)
        ensures
            name@ == self@.display_name(),
    {
        let mut name = String::new();
        if let Some(group) = self.group() {
            name.append(group.as_str());
        }
        proof {
            reveal_strlit(".");
        }
        name.append(".");
        if let Some(title) = self.title() {
            name.append(title.as_str());
        }
        assert(name@ =~= self@.display_name());
        name
    }
}

/// First occurrence wins: where position `at` holds a field of kind `kind`
/// and no earlier position does, that field is the one found for the kind.
pub proof fn lemma_first_occurrence_wins(fields: Seq<FieldView>, kind: FieldKind, at: int)
    requires
        0 <= at < fields.len(),
        fields[at].kind() == kind,
        forall|j: int| 0 <= j < at ==> fields[j].kind() != kind,
    ensures
        first_of_kind(fields, kind) == Some(fields[at]),
    decreases fields.len(),
{
    if at > 0 {
        let rest = fields.drop_first();
        assert(fields.first() == fields[0]);
        assert(rest[at - 1] == fields[at]);
        assert forall|j: int| 0 <= j < at - 1 implies rest[j].kind() != kind by {
            assert(rest[j] == fields[j + 1]);
        }
        lemma_first_occurrence_wins(rest, kind, at - 1);
    }
}

/// A kind that no field has is found nowhere, and a kind that is found
/// nowhere is the kind of no field.
pub proof fn lemma_absent_kind(fields: Seq<FieldView>, kind: FieldKind)
    ensures
        first_of_kind(fields, kind) is None <==> forall|j: int|
            0 <= j < fields.len() ==> fields[j].kind() != kind,
    decreases fields.len(),
{
    if fields.len() > 0 {
        let rest = fields.drop_first();
        lemma_absent_kind(rest, kind);
        if fields.first().kind() != kind {
            if first_of_kind(rest, kind) is None {
                assert forall|j: int| 0 <= j < fields.len() implies fields[j].kind() != kind by {
                    if j > 0 {
                        assert(rest[j - 1] == fields[j]);
                    }
                }
            } else {
                let j = choose|j: int| 0 <= j < rest.len() && rest[j].kind() == kind;
                assert(fields[j + 1] == rest[j]);
            }
        } else {
            assert(fields[0].kind() == kind);
        }
    }
}

/// A field added behind the others is found for its kind only where no
/// earlier field has that kind.
pub proof fn lemma_first_of_kind_push(fields: Seq<FieldView>, last: FieldView, kind: FieldKind)
    ensures
        first_of_kind(fields.push(last), kind) == match first_of_kind(fields, kind) {
            Some(field) => Some(field),
            None => if last.kind() == kind {
                Some(last)
            } else {
                None
            },
        },
    decreases fields.len(),
{
    let longer = fields.push(last);
    if fields.len() == 0 {
        assert(longer.first() == last);
        assert(longer.drop_first() == fields);
        assert(first_of_kind(fields, kind) is None);
    } else {
        assert(longer.first() == fields.first());
        assert(longer.drop_first() == fields.drop_first().push(last));
        lemma_first_of_kind_push(fields.drop_first(), last, kind);
    }
}

/// Leaving out fields of other kinds does not change what is found for a
/// kind: where `keep` keeps every field of kind `kind`, the first field of
/// that kind among the kept ones is the first among all.
pub proof fn lemma_first_of_kind_among_kept(
    fields: Seq<FieldView>,
    keep: spec_fn(FieldView) -> bool,
    kind: FieldKind,
)
    requires
        forall|field: FieldView| field.kind() == kind ==> #[trigger] keep(field),
    ensures
        first_of_kind(fields.filter(keep), kind) == first_of_kind(fields, kind),
    decreases fields.len(),
{
    reveal(Seq::filter);
    if fields.len() > 0 {
        let front = fields.drop_last();
        let last = fields.last();
        lemma_first_of_kind_among_kept(front, keep, kind);
        assert(fields == front.push(last));
        lemma_first_of_kind_push(front, last, kind);
        if keep(last) {
            lemma_first_of_kind_push(front.filter(keep), last, kind);
        }
    }
}

} // verus!
