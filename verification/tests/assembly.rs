use pwsafe_records::assemble::{
    assemble_all, assemble_next, Assembler, Assembly, FieldSource, Next, RawField,
};
use pwsafe_records::field::Field;
use pwsafe_records::record::Record;

fn source_of(fields: &[(u8, &[u8])]) -> FieldSource {
    let mut source = FieldSource::new();
    for (type_code, data) in fields {
        source.push(*type_code, data.to_vec());
    }
    source
}

fn txt(s: &str) -> String {
    String::from(s)
}

#[test]
fn empty_stream_holds_no_record() {
    let mut source = FieldSource::new();
    let assembly = assemble_all(&mut source);
    assert_eq!(assembly, Assembly { records: Vec::new(), incomplete: false });
    assert_eq!(source.len(), 0);
}

#[test]
fn one_terminated_run_is_one_record() {
    let mut source = source_of(&[(0x03, b"amazon"), (0x02, b"web"), (0xff, b"")]);
    let assembly = assemble_all(&mut source);
    assert_eq!(assembly.records.len(), 1);
    assert!(!assembly.incomplete);
    assert_eq!(
        assembly.records[0],
        Record::new(vec![Field::Title(txt("amazon")), Field::Group(txt("web"))], Vec::new())
    );
}

#[test]
fn record_count_is_the_number_of_sentinels() {
    let mut source = source_of(&[
        (0x03, b"a"),
        (0xff, b""),
        (0x03, b"b"),
        (0x06, b"pw"),
        (0xff, b""),
        (0x03, b"c"),
        (0xff, b""),
    ]);
    let assembly = assemble_all(&mut source);
    assert_eq!(assembly.records.len(), 3);
    assert_eq!(assembly.records[0].title(), Some(&txt("a")));
    assert_eq!(assembly.records[1].title(), Some(&txt("b")));
    assert_eq!(assembly.records[1].password(), Some(&txt("pw")));
    assert_eq!(assembly.records[2].title(), Some(&txt("c")));
    assert_eq!(assembly.records[2].password(), None);
    assert!(!assembly.incomplete);
}

#[test]
fn dangling_fields_are_dropped_and_reported() {
    let mut source = source_of(&[(0x03, b"a"), (0xff, b""), (0x03, b"b"), (0x06, b"pw")]);
    let assembly = assemble_all(&mut source);
    assert_eq!(assembly.records.len(), 1);
    assert_eq!(assembly.records[0].title(), Some(&txt("a")));
    assert!(assembly.incomplete);
    assert_eq!(source.len(), 0);
}

#[test]
fn stream_without_sentinel_holds_no_record() {
    let mut source = source_of(&[(0x03, b"a"), (0x02, b"g")]);
    let assembly = assemble_all(&mut source);
    assert!(assembly.records.is_empty());
    assert!(assembly.incomplete);
}

#[test]
fn dangling_diagnostics_alone_are_not_an_incomplete_record() {
    let mut source = source_of(&[(0x03, b"a"), (0xff, b""), (0x01, b"short")]);
    let assembly = assemble_all(&mut source);
    assert_eq!(assembly.records.len(), 1);
    assert!(!assembly.incomplete);
}

#[test]
fn consecutive_sentinels_give_empty_records() {
    let mut source = source_of(&[(0xff, b""), (0xff, b""), (0x03, b"t"), (0xff, b"")]);
    let assembly = assemble_all(&mut source);
    assert_eq!(assembly.records.len(), 3);
    assert_eq!(assembly.records[0], Record::new(Vec::new(), Vec::new()));
    assert_eq!(assembly.records[1], Record::new(Vec::new(), Vec::new()));
    assert_eq!(assembly.records[2].title(), Some(&txt("t")));
}

#[test]
fn malformed_field_between_valid_fields_is_tolerated() {
    let mut source = source_of(&[
        (0x03, b"amazon"),
        (0x01, b"not sixteen bytes"),
        (0x06, b"p@ss"),
        (0xff, b""),
    ]);
    let assembly = assemble_all(&mut source);
    assert_eq!(assembly.records.len(), 1);
    let record = &assembly.records[0];
    assert_eq!(record.title(), Some(&txt("amazon")));
    assert_eq!(record.password(), Some(&txt("p@ss")));
    assert_eq!(record.unique_id(), None);
    assert_eq!(
        record.fields(),
        &vec![Field::Title(txt("amazon")), Field::Password(txt("p@ss"))]
    );
    assert_eq!(record.errors(), &vec![txt("Error reading field(1): Invalid field length")]);
}

#[test]
fn malformed_field_does_not_spoil_later_records() {
    let mut source = source_of(&[
        (0x03, &[0xff, 0xfe]),
        (0x02, b"g"),
        (0xff, b""),
        (0x03, b"next"),
        (0xff, b""),
    ]);
    let assembly = assemble_all(&mut source);
    assert_eq!(assembly.records.len(), 2);
    assert_eq!(assembly.records[0].title(), None);
    assert_eq!(assembly.records[0].group(), Some(&txt("g")));
    assert_eq!(assembly.records[0].errors().len(), 1);
    assert!(assembly.records[0].errors()[0].starts_with("Error reading field(3): "));
    assert_eq!(assembly.records[1].title(), Some(&txt("next")));
    assert!(assembly.records[1].errors().is_empty());
}

#[test]
fn diagnostics_are_kept_in_stream_order() {
    let mut source = source_of(&[
        (0x07, b"123"),
        (0x03, b"t"),
        (0x13, b"1"),
        (0x15, b""),
        (0xff, b""),
    ]);
    let assembly = assemble_all(&mut source);
    assert_eq!(
        assembly.records[0].errors(),
        &vec![
            txt("Error reading field(7): Invalid field length"),
            txt("Error reading field(19): Invalid field length"),
            txt("Error reading field(21): Invalid field length"),
        ]
    );
}

#[test]
fn unread_fields_are_kept_as_other() {
    let mut source = source_of(&[(0x07, &[1, 2, 3, 4]), (0x03, b"t"), (0xff, b"")]);
    let assembly = assemble_all(&mut source);
    assert_eq!(assembly.records[0].fields(), &vec![Field::Other(0x07), Field::Title(txt("t"))]);
}

#[test]
fn assemble_next_reads_one_record_at_a_time() {
    let mut source = source_of(&[
        (0x03, b"a"),
        (0xff, b""),
        (0x03, b"b"),
        (0xff, b""),
        (0x03, b"left over"),
    ]);
    assert_eq!(source.len(), 5);
    let first = assemble_next(&mut source);
    assert_eq!(first, Next::Record(Record::new(vec![Field::Title(txt("a"))], Vec::new())));
    assert_eq!(source.len(), 3);
    let second = assemble_next(&mut source);
    assert_eq!(second, Next::Record(Record::new(vec![Field::Title(txt("b"))], Vec::new())));
    assert_eq!(source.len(), 1);
    assert_eq!(assemble_next(&mut source), Next::End { incomplete: true });
    assert_eq!(source.len(), 0);
    assert_eq!(assemble_next(&mut source), Next::End { incomplete: false });
}

#[test]
fn assemble_next_on_an_exhausted_source_is_a_clean_end() {
    let mut source = FieldSource::new();
    assert_eq!(assemble_next(&mut source), Next::End { incomplete: false });
}

#[test]
fn source_hands_fields_out_in_the_order_they_were_pushed() {
    let mut source = FieldSource::new();
    source.push(0x03, b"t".to_vec());
    source.push(0xff, Vec::new());
    assert_eq!(source.len(), 2);
    assert_eq!(source.next(), Some(RawField { type_code: 0x03, data: b"t".to_vec() }));
    assert_eq!(source.next(), Some(RawField { type_code: 0xff, data: Vec::new() }));
    assert_eq!(source.next(), None);
    assert_eq!(source.next(), None);
}

#[test]
fn assembler_emits_at_the_sentinel_and_starts_afresh() {
    let mut assembler = Assembler::new();
    assert!(!assembler.has_pending_fields());
    assert_eq!(assembler.feed(0x03, b"a"), None);
    assert!(assembler.has_pending_fields());
    assert_eq!(assembler.feed(0x01, b"bad"), None);
    assert_eq!(
        assembler.feed(0xff, b""),
        Some(Record::new(
            vec![Field::Title(txt("a"))],
            vec![txt("Error reading field(1): Invalid field length")]
        ))
    );
    assert!(!assembler.has_pending_fields());
    assert_eq!(assembler.feed(0xff, b""), Some(Record::new(Vec::new(), Vec::new())));
}

#[test]
fn assembler_with_diagnostics_only_has_no_pending_fields() {
    let mut assembler = Assembler::new();
    assert_eq!(assembler.feed(0x01, b"bad"), None);
    assert!(!assembler.has_pending_fields());
}
