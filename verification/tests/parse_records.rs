use glv::commit::{parse_record, Commit, GitRef, Oid};
use glv::error::Error;
use glv::icon::IconClassifier;

fn record(parents: &str, decorations: &str, subject: &str) -> String {
    let fields = [
        "commit 0000\n",
        "deadbeefcafe",
        "deadbee",
        parents,
        decorations,
        "Ada Author",
        "ada@example.org",
        "2021-02-03T04:05:06+00:00",
        "2 days ago",
        "Cora Committer",
        "cora@example.org",
        "2021-02-03T05:06:07+00:00",
        "2 days ago",
        subject,
        "a body line",
    ];
    fields.join("\u{1f}")
}

fn parse(data: &str) -> Commit {
    let icons = IconClassifier::new();
    let modules: Vec<String> = Vec::new();
    let (commit, query) = parse_record(data, 0, false, None, &modules, &icons).expect("a full record parses");
    assert!(query.is_none());
    commit
}

#[test]
fn root_commit_has_no_parents() {
    let commit = parse(&record("", "", "initial import"));
    assert!(commit.bellow().is_none());
    assert_eq!(commit.children().len(), 0);
    assert!(!commit.is_merge());
}

#[test]
fn two_parents_make_a_merge() {
    let commit = parse(&record("A B", "", "Merge branch 'topic'"));
    assert_eq!(commit.bellow(), Some(&Oid("A".to_string())));
    assert_eq!(commit.children(), &vec![Oid("B".to_string())]);
    assert!(commit.is_merge());
}

#[test]
fn single_parent_is_no_merge() {
    let commit = parse(&record("A", "", "plain change"));
    assert_eq!(commit.bellow(), Some(&Oid("A".to_string())));
    assert_eq!(commit.children().len(), 0);
    assert!(!commit.is_merge());
}

#[test]
fn head_arrow_marks_head_and_branch() {
    let commit = parse(&record("A", "HEAD -> main", "x"));
    assert!(commit.is_head());
    let main_ref = GitRef("main".to_string());
    assert!(commit.branches().contains(&main_ref));
    assert!(commit.references().contains(&main_ref));
    assert!(!commit.tags().contains(&main_ref));
}

#[test]
fn tag_decoration_is_no_branch() {
    let commit = parse(&record("A", "tag: v1.0", "x"));
    let tag_ref = GitRef("v1.0".to_string());
    assert!(commit.tags().contains(&tag_ref));
    assert!(commit.references().contains(&tag_ref));
    assert!(!commit.branches().contains(&tag_ref));
    assert!(!commit.is_head());
}

#[test]
fn mixed_decorations_fill_references_in_order() {
    let commit = parse(&record("A", "HEAD -> main, tag: v1.0, origin/main", "x"));
    assert!(commit.is_head());
    assert_eq!(commit.branches().len(), 2);
    assert_eq!(commit.tags().len(), 1);
    assert_eq!(commit.references().len(), 3);
    assert_eq!(commit.references()[0].0, "main");
    assert_eq!(commit.references()[1].0, "v1.0");
    assert_eq!(commit.references()[2].0, "origin/main");
}

#[test]
fn bare_head_decoration() {
    let commit = parse(&record("A", "HEAD", "x"));
    assert!(commit.is_head());
    assert_eq!(commit.references().len(), 0);
}

#[test]
fn short_record_is_a_parse_error() {
    let icons = IconClassifier::new();
    let modules: Vec<String> = Vec::new();
    let r = parse_record("commit\u{1f}abc\u{1f}a", 0, false, None, &modules, &icons);
    assert!(matches!(r, Err(Error::Parse)));
}

#[test]
fn predecessor_sets_above_and_fork_query() {
    let icons = IconClassifier::new();
    let modules: Vec<String> = Vec::new();
    // a merge commit whose first secondary parent is "B"
    let merge = parse(&record("A B", "", "Merge branch 'topic'"));
    // the next record is not "B": the fork-point rule asks for a query
    let (c, query) = parse_record(&record("X", "", "y"), 0, false, Some(&merge), &modules, &icons)
        .expect("parses");
    assert_eq!(c.above(), Some(&Oid("deadbeefcafe".to_string())));
    let (descendant, ancestor) = query.expect("a query is asked for");
    assert_eq!(descendant, Oid("deadbeefcafe".to_string()));
    assert_eq!(ancestor, Oid("B".to_string()));
    assert!(!c.is_fork_point());
}

#[test]
fn fields_land_where_they_belong() {
    let commit = parse(&record("A", "", "subject here"));
    assert_eq!(commit.id(), &Oid("deadbeefcafe".to_string()));
    assert_eq!(commit.short_id(), "deadbee");
    assert_eq!(commit.author_name(), "Ada Author");
    assert_eq!(commit.author_email(), "ada@example.org");
    assert_eq!(commit.author_date(), "2021-02-03T04:05:06+00:00");
    assert_eq!(commit.author_rel_date(), "2 days ago");
    assert_eq!(commit.committer_name(), "Cora Committer");
    assert_eq!(commit.committer_email(), "cora@example.org");
    assert_eq!(commit.committer_date(), "2021-02-03T05:06:07+00:00");
    assert_eq!(commit.committer_rel_date(), "2 days ago");
    assert_eq!(commit.subject(), "subject here");
    assert_eq!(commit.body(), "a body line");
    assert_eq!(commit.level(), 0);
    assert!(!commit.is_commit_link());
    assert!(commit.is_folded());
}

#[test]
fn folding_is_presentation_owned() {
    let mut commit = parse(&record("A", "", "x"));
    assert!(commit.is_folded());
    commit.folded(false);
    assert!(!commit.is_folded());
    assert_eq!(commit.subject(), "x");
}
