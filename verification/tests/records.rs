use pwsafe_records::field::{Field, FieldKind};
use pwsafe_records::record::Record;

fn text(s: &str) -> String {
    String::from(s)
}

fn sample_id() -> [u8; 16] {
    [
        0xa1, 0xa2, 0xa3, 0xa4, 0xb1, 0xb2, 0xc1, 0xc2, 0xd1, 0xd2, 0xd3, 0xd4, 0xd5, 0xd6, 0xd7,
        0xd8,
    ]
}

fn sample_record() -> Record {
    Record::new(
        vec![
            Field::UniqueId(sample_id()),
            Field::Group(text("web")),
            Field::Title(text("amazon")),
            Field::Username(text("alice")),
            Field::Password(text("p@ss")),
            Field::Url(text("https://amazon.example")),
            Field::EmailAddress(text("alice@example.org")),
            Field::Notes(text("first line\nsecond line")),
            Field::Other(0x07),
        ],
        vec![text("Error reading field(8): Invalid field length")],
    )
}

#[test]
fn accessors_return_the_attribute_of_their_kind() {
    let record = sample_record();
    assert_eq!(record.group(), Some(&text("web")));
    assert_eq!(record.title(), Some(&text("amazon")));
    assert_eq!(record.username(), Some(&text("alice")));
    assert_eq!(record.password(), Some(&text("p@ss")));
    assert_eq!(record.url(), Some(&text("https://amazon.example")));
    assert_eq!(record.email_address(), Some(&text("alice@example.org")));
    assert_eq!(record.notes(), Some(&text("first line\nsecond line")));
}

#[test]
fn accessors_are_absent_on_an_empty_record() {
    let record = Record::new(Vec::new(), Vec::new());
    assert_eq!(record.unique_id(), None);
    assert_eq!(record.group(), None);
    assert_eq!(record.title(), None);
    assert_eq!(record.username(), None);
    assert_eq!(record.password(), None);
    assert_eq!(record.url(), None);
    assert_eq!(record.email_address(), None);
    assert_eq!(record.notes(), None);
    assert!(record.fields().is_empty());
    assert!(record.errors().is_empty());
}

#[test]
fn unique_id_is_hyphenated_lower_case_hex() {
    let record = sample_record();
    assert_eq!(record.unique_id(), Some(text("a1a2a3a4-b1b2-c1c2-d1d2-d3d4d5d6d7d8")));
    assert_eq!(record.unique_id_text(), "a1a2a3a4-b1b2-c1c2-d1d2-d3d4d5d6d7d8");
}

#[test]
fn unique_id_keeps_leading_zeros_and_letters_in_lower_case() {
    let record = Record::new(
        vec![Field::UniqueId([
            0x00, 0x01, 0x0a, 0xff, 0xAB, 0xCD, 0xEF, 0x10, 0x09, 0x90, 0x00, 0x00, 0x00, 0x00,
            0x00, 0x0f,
        ])],
        Vec::new(),
    );
    assert_eq!(record.unique_id(), Some(text("00010aff-abcd-ef10-0990-00000000000f")));
}

#[test]
fn unique_id_text_is_empty_without_identifier() {
    let record = Record::new(vec![Field::Title(text("t"))], Vec::new());
    assert_eq!(record.unique_id(), None);
    assert_eq!(record.unique_id_text(), "");
}

#[test]
fn first_title_wins() {
    let record = Record::new(
        vec![
            Field::Group(text("g")),
            Field::Title(text("first")),
            Field::Password(text("x")),
            Field::Title(text("second")),
        ],
        Vec::new(),
    );
    assert_eq!(record.title(), Some(&text("first")));
    assert_eq!(record.display_name(), "g.first");
}

#[test]
fn first_occurrence_wins_for_every_kind() {
    let record = Record::new(
        vec![
            Field::UniqueId([1; 16]),
            Field::UniqueId([2; 16]),
            Field::Group(text("g1")),
            Field::Group(text("g2")),
            Field::Username(text("u1")),
            Field::Username(text("u2")),
            Field::Password(text("p1")),
            Field::Password(text("p2")),
            Field::Url(text("l1")),
            Field::Url(text("l2")),
            Field::EmailAddress(text("e1")),
            Field::EmailAddress(text("e2")),
            Field::Notes(text("n1")),
            Field::Notes(text("n2")),
        ],
        Vec::new(),
    );
    assert_eq!(record.unique_id(), Some(text("01010101-0101-0101-0101-010101010101")));
    assert_eq!(record.group(), Some(&text("g1")));
    assert_eq!(record.username(), Some(&text("u1")));
    assert_eq!(record.password(), Some(&text("p1")));
    assert_eq!(record.url(), Some(&text("l1")));
    assert_eq!(record.email_address(), Some(&text("e1")));
    assert_eq!(record.notes(), Some(&text("n1")));
}

#[test]
fn first_of_kind_finds_the_first_field_or_none() {
    let record = sample_record();
    assert_eq!(record.first_of_kind(FieldKind::Title), Some(&Field::Title(text("amazon"))));
    assert_eq!(record.first_of_kind(FieldKind::Other(0x07)), Some(&Field::Other(0x07)));
    assert_eq!(record.first_of_kind(FieldKind::Other(0x08)), None);
    assert_eq!(record.first_of_kind(FieldKind::EndOfRecord), None);
}

#[test]
fn text_of_a_kind_without_text_is_absent() {
    let record = sample_record();
    assert_eq!(record.text_of(FieldKind::Title), Some(&text("amazon")));
    assert_eq!(record.text_of(FieldKind::UniqueId), None);
    assert_eq!(record.text_of(FieldKind::Other(0x07)), None);
}

#[test]
fn display_name_is_group_dot_title() {
    assert_eq!(sample_record().display_name(), "web.amazon");
}

#[test]
fn display_name_leaves_missing_parts_empty() {
    let only_title = Record::new(vec![Field::Title(text("t"))], Vec::new());
    assert_eq!(only_title.display_name(), ".t");
    let only_group = Record::new(vec![Field::Group(text("g"))], Vec::new());
    assert_eq!(only_group.display_name(), "g.");
    let neither = Record::new(Vec::new(), Vec::new());
    assert_eq!(neither.display_name(), ".");
}

#[test]
fn fields_and_errors_are_kept_in_order() {
    let record = sample_record();
    assert_eq!(record.fields().len(), 9);
    assert_eq!(record.fields()[0], Field::UniqueId(sample_id()));
    assert_eq!(record.fields()[8], Field::Other(0x07));
    assert_eq!(record.errors(), &vec![text("Error reading field(8): Invalid field length")]);
}
