use glv::commit::parse_record;
use glv::icon::IconClassifier;
use glv::settings::{author_name_width, author_rel_date_width, modules_width, Settings};

#[test]
fn search_looks_through_all_commit_data() {
    let icons = IconClassifier::new();
    let modules: Vec<String> = vec!["web".to_string()];
    let fields = [
        "",
        "cafebabe",
        "cafeb",
        "A",
        "HEAD -> main",
        "Ada Author",
        "ada@example.org",
        "d1",
        "r1",
        "Cora Committer",
        "cora@example.org",
        "d2",
        "r2",
        "feat(core): add X",
        "",
    ];
    let data = fields.join("\u{1f}");
    let (commit, _) = parse_record(&data, 0, false, None, &modules, &icons).expect("parses");
    assert!(commit.search_matches("Ada", false));
    assert!(commit.search_matches("cafeb", false));
    assert!(commit.search_matches("core", false));
    assert!(commit.search_matches("main", false));
    assert!(commit.search_matches("web", false));
    assert!(!commit.search_matches("nowhere", false));
    // case folding only when asked
    assert!(!commit.search_matches("ADA", false));
    assert!(commit.search_matches("ADA", true));
    assert!(commit.search_matches("MAIN", true));
    // the plain matcher covers identity, author, committer and subject
    assert!(commit.matches("Cora"));
    assert!(commit.matches("add X"));
    assert!(!commit.matches("main"));
    assert!(!commit.matches("ADA"));
}

#[test]
fn widths_fall_back_to_their_defaults() {
    let unset = Settings::new();
    assert_eq!(author_name_width(&unset), 10);
    assert_eq!(author_rel_date_width(&unset), 0);
    assert_eq!(modules_width(&unset), 35);
    let set = Settings {
        author_name_width: Some(12),
        author_rel_date_width: Some(9),
        modules_width: Some(20),
    };
    assert_eq!(author_name_width(&set), 12);
    assert_eq!(author_rel_date_width(&set), 9);
    assert_eq!(modules_width(&set), 20);
}
