//! Projection: the two shapes in which a record is shown. The secure
//! projection holds what identifies and locates an entry and none of its
//! secrets; the full projection adds the password, the notes and the
//! diagnostics, and is for the caller who asked to have them revealed.

use vstd::prelude::*;

use crate::field::{FieldKind, FieldView};
use crate::record::{
    lemma_first_of_kind_among_kept, or_empty, text_views, Record, RecordView,
};

verus! {

/// A record without its secrets.
#[derive(Clone, Debug, PartialEq, Eq)]
pub struct SecureProjection {
    /// The hyphenated identifier, empty where the record has none.
    pub id: String,
    pub group: Option<String>,
    pub title: Option<String>,
    pub username: Option<String>,
    pub url: Option<String>,
    pub email_address: Option<String>,
}

/// A record with its secrets and its diagnostics.
#[derive(Clone, Debug, PartialEq, Eq)]
pub struct FullProjection {
    /// The hyphenated identifier, empty where the record has none.
    pub id: String,
    pub group: Option<String>,
    pub title: Option<String>,
    pub password: Option<String>,
    pub username: Option<String>,
    pub url: Option<String>,
    pub email_address: Option<String>,
    pub notes: Option<String>,
    pub errors: Vec<String>,
}

/// A record as it is shown: without or with its secrets.
#[derive(Clone, Debug, PartialEq, Eq)]
pub enum Projection {
    Secure(SecureProjection),
    Full(FullProjection),
}

/// What a [`SecureProjection`] holds, as mathematical values.
pub struct SecureView {
    pub id: Seq<char>,
    pub group: Option<Seq<char>>,
    pub title: Option<Seq<char>>,
    pub username: Option<Seq<char>>,
    pub url: Option<Seq<char>>,
    pub email_address: Option<Seq<char>>,
}

/// What a [`FullProjection`] holds, as mathematical values.
pub struct FullView {
    pub id: Seq<char>,
    pub group: Option<Seq<char>>,
    pub title: Option<Seq<char>>,
    pub password: Option<Seq<char>>,
    pub username: Option<Seq<char>>,
    pub url: Option<Seq<char>>,
    pub email_address: Option<Seq<char>>,
    pub notes: Option<Seq<char>>,
    pub errors: Seq<Seq<char>>,
}

/// What a [`Projection`] holds, as mathematical values.
pub enum ProjectionView {
    Secure(SecureView),
    Full(FullView),
}

/// The view of an optional owned string.
pub open spec fn opt_owned(text: Option<String>) -> Option<Seq<char>> {
    match text {
        Some(t) => Some(t@),
        None => None,
    }
}

impl View for SecureProjection {
    type V = SecureView;

    open spec fn view(&self) -> SecureView {
        SecureView {
            id: self.id@,
            group: opt_owned(self.group),
            title: opt_owned(self.title),
            username: opt_owned(self.username),
            url: opt_owned(self.url),
            email_address: opt_owned(self.email_address),
        }
    }
}

impl View for FullProjection {
    type V = FullView;

    open spec fn view(&self) -> FullView {
        FullView {
            id: self.id@,
            group: opt_owned(self.group),
            title: opt_owned(self.title),
            password: opt_owned(self.password),
            username: opt_owned(self.username),
            url: opt_owned(self.url),
            email_address: opt_owned(self.email_address),
            notes: opt_owned(self.notes),
            errors: text_views(self.errors@),
        }
    }
}

impl View for Projection {
    type V = ProjectionView;

    open spec fn view(&self) -> ProjectionView {
        match *self {
            Projection::Secure(secure) => ProjectionView::Secure(secure@),
            Projection::Full(full) => ProjectionView::Full(full@),
        }
    }
}

/// Whether fields of a kind are secrets: the password and the notes.
pub open spec fn is_secret(kind: FieldKind) -> bool {
    kind == FieldKind::Password || kind == FieldKind::Notes
}

/// The test that keeps the fields that are no secrets.
pub open spec fn not_secret() -> spec_fn(FieldView) -> bool {
    |field: FieldView| !is_secret(field.kind())
}

impl RecordView {
    /// The secure projection of the record.
    pub open spec fn secure(self) -> SecureView {
        SecureView {
            id: self.unique_id_text(),
            group: self.group(),
            title: self.title(),
            username: self.username(),
            url: self.url(),
            email_address: self.email_address(),
        }
    }

    /// The full projection of the record.
    pub open spec fn full(self) -> FullView {
        FullView {
            id: self.unique_id_text(),
            group: self.group(),
            title: self.title(),
            password: self.password(),
            username: self.username(),
            url: self.url(),
            email_address: self.email_address(),
            notes: self.notes(),
            errors: self.errors,
        }
    }

    /// The projection of the record that `reveal` asks for.
    pub open spec fn projected(self, reveal: bool) -> ProjectionView {
        if reveal {
            ProjectionView::Full(self.full())
        } else {
            ProjectionView::Secure(self.secure())
        }
    }

    /// The record without its password fields, its notes fields and its
    /// diagnostics.
    pub open spec fn without_secrets(self) -> RecordView {
        RecordView { fields: self.fields.filter(not_secret()), errors: Seq::empty() }
    }
}

fn owned(text: Option<&String>) -> (copy: Option<String>)
    ensures
        opt_owned(copy) == crate::record::opt_text(text),
{
    match text {
        Some(t) => Some(t.clone()),
        None => None,
    }
}

fn owned_all(texts: &Vec<String>) -> (copies: Vec<String>)
    ensures
        text_views(copies@) == text_views(texts@),
{
    let mut copies: Vec<String> = Vec::new();
    let mut i: usize = 0;
    while i < texts.len()
        invariant
            i <= texts.len(),
            text_views(copies@) == text_views(texts@).take(i as int),
        decreases texts.len() - i,
    {
        let copy = texts[i].clone();
        proof {
            let before = text_views(texts@).take(i as int);
            assert(copy@ == text_views(texts@)[i as int]);
            assert(text_views(copies@.push(copy)) =~= before.push(copy@));
            assert(before.push(copy@) =~= text_views(texts@).take(i + 1));
        }
        copies.push(copy);
        i += 1;
    }
    assert(text_views(texts@).take(texts.len() as int) =~= text_views(texts@));
    copies
}

/// The secure projection of a record: its identifier, group, title, user
/// name, URL and e-mail address, and nothing else. A record without an
/// attribute is projected all the same, with the attribute absent (the
/// identifier: empty).
pub fn to_secure(record: &Record) -> (secure: SecureProjection)
    ensures
        secure@ == record@.secure(),
{
    SecureProjection {
        id: record.unique_id_text(),
        group: owned(record.group()),
        title: owned(record.title()),
        username: owned(record.username()),
        url: owned(record.url()),
        email_address: owned(record.email_address()),
    }
}

/// The full projection of a record: what the secure projection holds, and
/// the password, the notes and the diagnostics.
pub fn to_full(record: &Record) -> (full: FullProjection)
    ensures
        full@ == record@.full(),
        full@.password == record@.password(),
{
    FullProjection {
        id: record.unique_id_text(),
        group: owned(record.group()),
        title: owned(record.title()),
        password: owned(record.password()),
        username: owned(record.username()),
        url: owned(record.url()),
        email_address: owned(record.email_address()),
        notes: owned(record.notes()),
        errors: owned_all(record.errors()),
    }
}

/// The projection that the caller asks for: the full one only where
/// `reveal` is set, the secure one in every other case.
pub fn project(record: &Record, reveal: bool) -> (projection: Projection)
    ensures
        projection@ == record@.projected(reveal),
        !reveal ==> projection is Secure,
{
    if reveal {
        Projection::Full(to_full(record))
    } else {
        Projection::Secure(to_secure(record))
    }
}

/// The redaction boundary: the secure projection of a record is that of
/// the record without its password, its notes and its diagnostics. Whether
/// a record holds secrets, and which, leaves no trace in it.
pub proof fn lemma_secure_holds_no_secret(record: RecordView)
    ensures
        record.secure() == record.without_secrets().secure(),
{
    let keep = not_secret();
    lemma_first_of_kind_among_kept(record.fields, keep, FieldKind::UniqueId);
    lemma_first_of_kind_among_kept(record.fields, keep, FieldKind::Group);
    lemma_first_of_kind_among_kept(record.fields, keep, FieldKind::Title);
    lemma_first_of_kind_among_kept(record.fields, keep, FieldKind::Username);
    lemma_first_of_kind_among_kept(record.fields, keep, FieldKind::Url);
    lemma_first_of_kind_among_kept(record.fields, keep, FieldKind::EmailAddress);
}

/// Two records that differ in their secrets only have one secure projection.
pub proof fn lemma_secure_hides_differences(a: RecordView, b: RecordView)
    requires
        a.without_secrets() == b.without_secrets(),
    ensures
        a.secure() == b.secure(),
{
    lemma_secure_holds_no_secret(a);
    lemma_secure_holds_no_secret(b);
}

/// The full projection hands back the password that the record holds.
pub proof fn lemma_full_recovers_password(record: RecordView)
    ensures
        record.full().password == record.password(),
        record.projected(true) matches ProjectionView::Full(full) && full.password
            == record.password(),
{
}

/// Projecting is repeatable: two projections of one record under one flag
/// are the same, whatever was projected in between.
pub proof fn lemma_projection_is_repeatable(
    record: RecordView,
    reveal: bool,
    first: ProjectionView,
    second: ProjectionView,
)
    requires
        first == record.projected(reveal),
        second == record.projected(reveal),
    ensures
        first == second,
{
}

} // verus!
