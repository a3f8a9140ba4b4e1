use glv::commit::{parse_record, Commit, Oid};
use glv::fork_point::{apply_fork_point, ForkPointResponse};
use glv::icon::IconClassifier;

fn commit_with_id(id: &str) -> Commit {
    let icons = IconClassifier::new();
    let modules: Vec<String> = Vec::new();
    let fields = [
        "",
        id,
        &id[0..2.min(id.len())],
        "A",
        "",
        "Ada",
        "ada@example.org",
        "d1",
        "r1",
        "Cora",
        "cora@example.org",
        "d2",
        "r2",
        "some subject",
        "",
    ];
    let data = fields.join("\u{1f}");
    let (commit, _) = parse_record(&data, 0, false, None, &modules, &icons).expect("parses");
    commit
}

#[test]
fn responses_are_matched_by_id_in_any_order() {
    let mut commits = vec![commit_with_id("one1"), commit_with_id("two2"), commit_with_id("xyz3")];
    assert!(commits.iter().all(|c| !c.is_fork_point()));
    // responses arrive in the opposite order of the requests
    let late = ForkPointResponse { oid: Oid("two2".to_string()), value: Some(true) };
    let early = ForkPointResponse { oid: Oid("one1".to_string()), value: Some(false) };
    apply_fork_point(&mut commits, &late);
    apply_fork_point(&mut commits, &early);
    assert!(!commits[0].is_fork_point());
    assert!(commits[1].is_fork_point());
    assert!(!commits[2].is_fork_point());
    assert_eq!(commits.len(), 3);
}

#[test]
fn unknown_outcomes_change_nothing() {
    let mut commits = vec![commit_with_id("one1")];
    let unknown = ForkPointResponse { oid: Oid("one1".to_string()), value: None };
    apply_fork_point(&mut commits, &unknown);
    assert!(!commits[0].is_fork_point());
}

#[test]
fn a_response_answers_for_its_id() {
    let resp = ForkPointResponse { oid: Oid("abc".to_string()), value: Some(true) };
    assert!(resp.answers(&Oid("abc".to_string())));
    assert!(!resp.answers(&Oid("def".to_string())));
}
