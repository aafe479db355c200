use pwsafe_records::assemble::{assemble_all, FieldSource};
use pwsafe_records::field::{Field, FieldKind};
use pwsafe_records::projection::{
    project, to_full, to_secure, FullProjection, Projection, SecureProjection,
};
use pwsafe_records::query::{resolve, Resolution};
use pwsafe_records::record::Record;

fn owned(s: &str) -> Option<String> {
    Some(String::from(s))
}

fn complete_record() -> Record {
    Record::new(
        vec![
            Field::UniqueId([0x5a; 16]),
            Field::Group(String::from("web")),
            Field::Title(String::from("amazon")),
            Field::Username(String::from("alice")),
            Field::Password(String::from("p@ss")),
            Field::Url(String::from("https://amazon.example")),
            Field::EmailAddress(String::from("alice@example.org")),
            Field::Notes(String::from("secret note")),
        ],
        vec![String::from("Error reading field(7): Invalid field length")],
    )
}

#[test]
fn secure_projection_holds_identity_and_location() {
    assert_eq!(
        to_secure(&complete_record()),
        SecureProjection {
            id: String::from("5a5a5a5a-5a5a-5a5a-5a5a-5a5a5a5a5a5a"),
            group: owned("web"),
            title: owned("amazon"),
            username: owned("alice"),
            url: owned("https://amazon.example"),
            email_address: owned("alice@example.org"),
        }
    );
}

#[test]
fn full_projection_adds_secrets_and_diagnostics() {
    assert_eq!(
        to_full(&complete_record()),
        FullProjection {
            id: String::from("5a5a5a5a-5a5a-5a5a-5a5a-5a5a5a5a5a5a"),
            group: owned("web"),
            title: owned("amazon"),
            password: owned("p@ss"),
            username: owned("alice"),
            url: owned("https://amazon.example"),
            email_address: owned("alice@example.org"),
            notes: owned("secret note"),
            errors: vec![String::from("Error reading field(7): Invalid field length")],
        }
    );
}

#[test]
fn secure_projection_is_the_same_with_and_without_secrets() {
    let with_secrets = complete_record();
    let without = Record::new(
        vec![
            Field::UniqueId([0x5a; 16]),
            Field::Group(String::from("web")),
            Field::Title(String::from("amazon")),
            Field::Username(String::from("alice")),
            Field::Url(String::from("https://amazon.example")),
            Field::EmailAddress(String::from("alice@example.org")),
        ],
        Vec::new(),
    );
    assert_eq!(to_secure(&with_secrets), to_secure(&without));
}

#[test]
fn secure_projection_shows_no_secret_text() {
    let shown = format!("{:?}", to_secure(&complete_record()));
    assert!(!shown.contains("p@ss"));
    assert!(!shown.contains("secret note"));
    assert!(!shown.contains("Error reading"));
}

#[test]
fn full_projection_recovers_the_password_of_the_record() {
    let record = complete_record();
    let full = to_full(&record);
    assert_eq!(full.password.as_ref(), record.password());
    assert_eq!(full.password, owned("p@ss"));
    assert_eq!(full.notes.as_ref(), record.notes());
}

#[test]
fn record_without_attributes_is_projected_with_absent_values() {
    let record = Record::new(Vec::new(), Vec::new());
    assert_eq!(
        to_secure(&record),
        SecureProjection {
            id: String::new(),
            group: None,
            title: None,
            username: None,
            url: None,
            email_address: None,
        }
    );
    assert_eq!(
        to_full(&record),
        FullProjection {
            id: String::new(),
            group: None,
            title: None,
            password: None,
            username: None,
            url: None,
            email_address: None,
            notes: None,
            errors: Vec::new(),
        }
    );
}

#[test]
fn project_follows_the_reveal_flag() {
    let record = complete_record();
    assert_eq!(project(&record, false), Projection::Secure(to_secure(&record)));
    assert_eq!(project(&record, true), Projection::Full(to_full(&record)));
}

#[test]
fn projecting_twice_gives_the_same() {
    let record = complete_record();
    let before = record.clone();
    let first = project(&record, false);
    let second = project(&record, false);
    assert_eq!(first, second);
    assert_eq!(project(&record, true), project(&record, true));
    assert_eq!(record, before);
}

#[test]
fn projection_takes_the_first_occurrence_of_each_attribute() {
    let record = Record::new(
        vec![
            Field::Password(String::from("old")),
            Field::Password(String::from("new")),
            Field::Title(String::from("t1")),
            Field::Title(String::from("t2")),
        ],
        Vec::new(),
    );
    assert_eq!(to_full(&record).password, owned("old"));
    assert_eq!(to_secure(&record).title, owned("t1"));
}

#[test]
fn end_to_end_scenario() {
    let mut source = FieldSource::new();
    source.push(FieldKind::Title.code(), b"amazon".to_vec());
    source.push(FieldKind::Group.code(), b"web".to_vec());
    source.push(FieldKind::Password.code(), b"p@ss".to_vec());
    source.push(FieldKind::EndOfRecord.code(), Vec::new());
    let assembly = assemble_all(&mut source);
    assert_eq!(assembly.records.len(), 1);
    assert!(!assembly.incomplete);
    let record = &assembly.records[0];
    assert_eq!(record.display_name(), "web.amazon");
    assert_eq!(record.password(), Some(&String::from("p@ss")));
    assert_eq!(resolve(&assembly.records, "web.amazon"), Resolution::Exact(record));
    let hidden = project(record, false);
    assert!(matches!(hidden, Projection::Secure(_)));
    assert!(!format!("{:?}", hidden).contains("p@ss"));
    let revealed = project(record, true);
    match revealed {
        Projection::Full(full) => assert_eq!(full.password, owned("p@ss")),
        Projection::Secure(_) => panic!("the reveal flag asks for the full projection"),
    }
}
