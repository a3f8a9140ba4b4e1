use glv::commit::Oid;
use glv::error::Error;
use glv::git::{count_query_error, expansion_range, parse_count};

#[test]
fn range_is_the_tip_alone_without_a_base() {
    let tip = Oid("F".to_string());
    assert_eq!(expansion_range(&tip, &None), "F");
}

#[test]
fn range_is_the_tip_alone_when_the_base_is_the_tip() {
    let tip = Oid("F".to_string());
    let base = Some(Oid("F".to_string()));
    assert_eq!(expansion_range(&tip, &base), "F");
}

#[test]
fn range_excludes_a_strict_ancestor_base() {
    let tip = Oid("F".to_string());
    let base = Some(Oid("E".to_string()));
    assert_eq!(expansion_range(&tip, &base), "E..F");
}

#[test]
fn counts_parse_exactly() {
    assert_eq!(parse_count("42\n").expect("a count"), 42);
    assert_eq!(parse_count("0").expect("a count"), 0);
    assert_eq!(parse_count("7 \n").expect("a count"), 7);
}

#[test]
fn malformed_counts_are_parse_errors() {
    assert!(matches!(parse_count(""), Err(Error::Parse)));
    assert!(matches!(parse_count("abc"), Err(Error::Parse)));
    assert!(matches!(parse_count("12x"), Err(Error::Parse)));
}

#[test]
fn empty_ranges_are_distinguished_from_failures() {
    let empty = count_query_error(128, "fatal: bad revision".to_string());
    assert!(matches!(empty, Error::NoRevisionsMatch));
    assert!(empty.is_no_revisions_match());
    let failure = count_query_error(129, "usage".to_string());
    match failure {
        Error::Process { code, message } => {
            assert_eq!(code, 129);
            assert_eq!(message, "usage");
        },
        _ => panic!("expected a process failure"),
    }
}
