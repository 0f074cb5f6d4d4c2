use ballot_core::error::{AppError, ErrorKind};
use ballot_core::import::{parse_csv_identifiers, parse_import_identifiers, parse_json_identifiers};

fn rows(v: &[(usize, &str)]) -> Vec<(usize, String)> {
    v.iter().map(|(n, s)| (*n, s.to_string())).collect()
}

#[test]
fn json_rows_are_trimmed_and_numbered() {
    let r = parse_json_identifiers("[\" a@x.io \", \"\", \"  \", \"b\"]").unwrap();
    assert_eq!(r, rows(&[(1, "a@x.io"), (4, "b")]));
}

#[test]
fn json_must_be_a_string_array() {
    let e = parse_json_identifiers("{\"a\": 1}").unwrap_err();
    assert_eq!(e.kind(), ErrorKind::BadRequest);
    assert!(parse_json_identifiers("[1, 2]").is_err());
}

#[test]
fn csv_takes_first_column_and_skips_header() {
    let data = "Email,name\n a@x.io , Ann\n\n b@x.io\r\nc,d,e\n";
    let r = parse_csv_identifiers(data).unwrap();
    assert_eq!(r, rows(&[(2, "a@x.io"), (4, "b@x.io"), (5, "c")]));
}

#[test]
fn csv_header_only_on_first_line() {
    let r = parse_csv_identifiers("a\nemail\n").unwrap();
    assert_eq!(r, rows(&[(1, "a"), (2, "email")]));
}

#[test]
fn csv_missing_identifier_is_rejected() {
    let e = parse_csv_identifiers("a\n , b\n").unwrap_err();
    assert_eq!(e.kind(), ErrorKind::BadRequest);
    match parse_csv_identifiers("a\n\nb\n,x\n,y\n").unwrap_err() {
        AppError::BadRequest(m) => assert_eq!(m, "invalid csv row 4: missing identifier"),
        other => panic!("unexpected {:?}", other),
    }
}

#[test]
fn format_is_chosen_case_insensitively() {
    assert_eq!(parse_import_identifiers("CSV", "x").unwrap(), rows(&[(1, "x")]));
    assert_eq!(parse_import_identifiers("Json", "[\"y\"]").unwrap(), rows(&[(1, "y")]));
    let e = parse_import_identifiers("xml", "x").unwrap_err();
    assert_eq!(e.kind(), ErrorKind::BadRequest);
}

#[test]
fn unicode_whitespace_is_trimmed() {
    let r = parse_json_identifiers("[\"\\u00a0x\\u3000\", \"\\u2003\"]").unwrap();
    assert_eq!(r, rows(&[(1, "x")]));
}
