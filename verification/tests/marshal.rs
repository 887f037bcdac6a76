use wcgate::marshal::{marshal_field, marshal_row, marshal_rows, FieldContent, RawField, RawRow};

fn field(tag: u8, bytes: &[u8]) -> FieldContent {
    marshal_field(tag, bytes.to_vec())
}

#[test]
fn tag_one_parses_integers() {
    assert_eq!(field(1, b"42"), FieldContent::Int(42));
    assert_eq!(field(1, b"+7"), FieldContent::Int(7));
    assert_eq!(field(1, b"-0"), FieldContent::Int(0));
    assert_eq!(field(1, b"-123456789"), FieldContent::Int(-123456789));
    assert_eq!(field(1, b"9223372036854775807"), FieldContent::Int(i64::MAX));
    assert_eq!(field(1, b"-9223372036854775808"), FieldContent::Int(i64::MIN));
}

#[test]
fn tag_one_falls_back_to_absent() {
    assert_eq!(field(1, b"abc"), FieldContent::Absent);
    assert_eq!(field(1, b""), FieldContent::Absent);
    assert_eq!(field(1, b"+"), FieldContent::Absent);
    assert_eq!(field(1, b" 42"), FieldContent::Absent);
    assert_eq!(field(1, b"4 2"), FieldContent::Absent);
    assert_eq!(field(1, b"9223372036854775808"), FieldContent::Absent);
    assert_eq!(field(1, b"-9223372036854775809"), FieldContent::Absent);
    assert_eq!(field(1, b"99999999999999999999999999"), FieldContent::Absent);
}

#[test]
fn tag_two_keeps_float_text_that_parses() {
    let v = field(2, b"3.14");
    assert_eq!(v, FieldContent::Float(String::from("3.14")));
    match v {
        FieldContent::Float(text) => {
            let parsed: f64 = text.parse().unwrap();
            assert_eq!(parsed, 3.14f64);
        }
        other => panic!("expected a float field, got {:?}", other),
    }
}

#[test]
fn tag_two_accepts_the_full_float_grammar() {
    assert_eq!(field(2, b"-2.5e3"), FieldContent::Float(String::from("-2.5e3")));
    assert_eq!(field(2, b"1."), FieldContent::Float(String::from("1.")));
    assert_eq!(field(2, b".5"), FieldContent::Float(String::from(".5")));
    assert_eq!(field(2, b"1e+5"), FieldContent::Float(String::from("1e+5")));
    assert_eq!(field(2, b"inf"), FieldContent::Float(String::from("inf")));
    assert_eq!(field(2, b"-Infinity"), FieldContent::Float(String::from("-Infinity")));
    assert_eq!(field(2, b"NaN"), FieldContent::Float(String::from("NaN")));
}

#[test]
fn tag_two_falls_back_to_absent() {
    assert_eq!(field(2, b"abc"), FieldContent::Absent);
    assert_eq!(field(2, b""), FieldContent::Absent);
    assert_eq!(field(2, b"."), FieldContent::Absent);
    assert_eq!(field(2, b"1e"), FieldContent::Absent);
    assert_eq!(field(2, b"--1"), FieldContent::Absent);
    assert_eq!(field(2, &[0xff, 0xfe]), FieldContent::Absent);
}

#[test]
fn float_grammar_matches_std_parse() {
    let cases: &[&[u8]] = &[
        b"3.14", b"abc", b"", b".", b"1e", b"--1", b"inf", b"NaN", b"-Infinity", b"1e+5",
        b"1.", b".5", b"0x10", b"5e-3", b"+.e2", b"2.5E4", b" 1", b"1 ", b"1.e5", b".5e1",
        b"1.E-2", b"3.14.", b"+inf", b"-nan", b"Infinit", b"infinityy", b"1e--5", b"e5",
        b"+", b"-.", b"1..2", b"1.2e3.4",
    ];
    for bytes in cases {
        let got = field(2, bytes);
        let text = String::from_utf8(bytes.to_vec()).unwrap_or_default();
        let expect_float = text.parse::<f64>().is_ok();
        match (expect_float, got) {
            (true, FieldContent::Float(t)) => assert_eq!(t.as_bytes(), *bytes),
            (false, FieldContent::Absent) => {}
            (e, g) => panic!("grammar disagrees with std on {:?}: std says {}, got {:?}", text, e, g),
        }
    }
}

#[test]
fn tag_three_takes_utf8_text_as_is() {
    assert_eq!(field(3, b"hello"), FieldContent::Utf8String(String::from("hello")));
    assert_eq!(field(3, b""), FieldContent::Utf8String(String::new()));
}

#[test]
fn tag_three_degrades_invalid_utf8_to_empty() {
    assert_eq!(field(3, &[0xff, 0x00, 0x41]), FieldContent::Utf8String(String::new()));
}

#[test]
fn tag_four_encodes_base64() {
    assert_eq!(field(4, &[0, 1, 2]), FieldContent::Base64String(String::from("AAEC")));
    assert_eq!(field(4, b""), FieldContent::Base64String(String::new()));
    assert_eq!(
        field(4, b"hello world"),
        FieldContent::Base64String(String::from("aGVsbG8gd29ybGQ="))
    );
}

#[test]
fn unknown_tags_are_absent_not_errors() {
    assert_eq!(field(99, b"42"), FieldContent::Absent);
    assert_eq!(field(0, b"42"), FieldContent::Absent);
    assert_eq!(field(5, b"42"), FieldContent::Absent);
}

fn raw(column: &str, tag: u8, bytes: &[u8]) -> RawField {
    RawField { column: String::from(column), tag, content: bytes.to_vec() }
}

#[test]
fn row_keeps_emission_order() {
    let row = marshal_row(RawRow {
        fields: vec![raw("b", 1, b"2"), raw("a", 1, b"1"), raw("c", 3, b"x")],
    });
    let names: Vec<&str> = row.fields.iter().map(|f| f.column.as_str()).collect();
    assert_eq!(names, vec!["b", "a", "c"]);
    assert_eq!(row.fields[0].content, FieldContent::Int(2));
    assert_eq!(row.fields[2].content, FieldContent::Utf8String(String::from("x")));
}

#[test]
fn duplicate_columns_take_the_last_value_in_place() {
    let row = marshal_row(RawRow {
        fields: vec![raw("a", 1, b"1"), raw("b", 1, b"2"), raw("a", 3, b"second")],
    });
    assert_eq!(row.fields.len(), 2);
    assert_eq!(row.fields[0].column, "a");
    assert_eq!(row.fields[0].content, FieldContent::Utf8String(String::from("second")));
    assert_eq!(row.fields[1].column, "b");
}

#[test]
fn rows_keep_backend_order() {
    let rows = marshal_rows(vec![
        RawRow { fields: vec![raw("id", 1, b"1")] },
        RawRow { fields: vec![raw("id", 1, b"2")] },
    ]);
    assert_eq!(rows.len(), 2);
    assert_eq!(rows[0].fields[0].content, FieldContent::Int(1));
    assert_eq!(rows[1].fields[0].content, FieldContent::Int(2));
}
