use glv::commit::Oid;
use glv::git::{open_repository, parse_log_output};
use glv::icon::IconClassifier;
use glv::strutil::push_usize_decimal;

fn record(id: &str, parents: &str, subject: &str) -> String {
    let fields = [
        "commit header\n",
        id,
        &id[0..3],
        parents,
        "",
        "Ada",
        "ada@example.org",
        "d1",
        "r1",
        "Cora",
        "cora@example.org",
        "d2",
        "r2",
        subject,
        "body",
    ];
    fields.join("\u{1f}")
}

#[test]
fn a_log_stream_parses_record_by_record() {
    // the handle's directories are only prepared, never touched: these
    // records ask for no ancestor query
    let repo = open_repository("/nowhere/.git", "/nowhere").expect("absolute paths open");
    let icons = IconClassifier::new();
    let modules: Vec<String> = Vec::new();
    let output = format!(
        "{}\u{1e}{}\u{1e}\n",
        record("aaa111", "bbb222", "first change"),
        record("bbb222", "", "initial import"),
    );
    let commits =
        parse_log_output(&repo, &output, 0, None, &modules, &icons).expect("the stream parses");
    assert_eq!(commits.len(), 2);
    assert_eq!(commits[0].id(), &Oid("aaa111".to_string()));
    assert_eq!(commits[1].id(), &Oid("bbb222".to_string()));
    // contexts are threaded: the first commit has none, the second
    // points back at the first
    assert!(commits[0].above().is_none());
    assert_eq!(commits[1].above(), Some(&Oid("aaa111".to_string())));
    assert!(commits.iter().all(|c| !c.is_commit_link() && c.level() == 0));
}

#[test]
fn parsing_stops_at_the_stream_end() {
    let repo = open_repository("/nowhere/.git", "/nowhere").expect("absolute paths open");
    let icons = IconClassifier::new();
    let modules: Vec<String> = Vec::new();
    // everything after the terminating piece is ignored
    let output = format!(
        "{}\u{1e}\n\u{1e}{}",
        record("ccc333", "", "only one"),
        record("eee555", "", "never reached"),
    );
    let commits =
        parse_log_output(&repo, &output, 3, None, &modules, &icons).expect("the stream parses");
    assert_eq!(commits.len(), 1);
    assert_eq!(commits[0].level(), 3);
}

#[test]
fn a_short_record_fails_the_whole_pass() {
    let repo = open_repository("/nowhere/.git", "/nowhere").expect("absolute paths open");
    let icons = IconClassifier::new();
    let modules: Vec<String> = Vec::new();
    let output = format!("{}\u{1e}broken\u{1f}record\u{1e}\n", record("ddd444", "", "fine"));
    assert!(parse_log_output(&repo, &output, 0, None, &modules, &icons).is_err());
}

#[test]
fn count_arguments_carry_exact_digits() {
    let mut s = String::from("--skip=");
    push_usize_decimal(&mut s, 0);
    assert_eq!(s, "--skip=0");
    let mut s = String::from("--max-count=");
    push_usize_decimal(&mut s, 907);
    assert_eq!(s, "--max-count=907");
}
