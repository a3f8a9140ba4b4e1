use glv::icon::IconClassifier;
use glv::commit::extract_scope;

fn classify(subject: &str) -> String {
    IconClassifier::new().classify(subject)
}

#[test]
fn fix_subject_selects_the_fix_icon() {
    assert_eq!(classify("fix: repair parser"), "\u{f188} ");
    assert_ne!(classify("fix: repair parser"), "  ");
}

#[test]
fn unclassified_subject_gets_the_catch_all_icon() {
    assert_eq!(classify("just some words"), "  ");
}

#[test]
fn earlier_rules_win() {
    // "refactor" matches the "ref(actor)?" rule before the later
    // spelled-out "refactor" rule
    assert_eq!(classify("refactor: tidy"), "\u{21ba} ");
    assert_eq!(classify("feat: shiny"), "\u{2795}");
    assert_eq!(classify("BREAKING CHANGE: all of it"), "\u{26a0} ");
}

#[test]
fn case_is_ignored() {
    assert_eq!(classify("FIX: case"), "\u{f188} ");
    assert_eq!(classify("Revert \"bad idea\""), "\u{f0e2} ");
}

fn scope_of(subject: &str) -> Option<(String, String)> {
    extract_scope(&subject.chars().collect())
}

#[test]
fn conventional_scope_is_extracted() {
    let (module, short) = scope_of("feat(core): add X").expect("a scope");
    assert_eq!(module, "core");
    assert_eq!(short, "add X");
}

#[test]
fn subject_without_scope_has_none() {
    assert!(scope_of("feat: add X").is_none());
    assert!(scope_of("plain words").is_none());
    assert!(scope_of("(core): nothing before").is_none());
    assert!(scope_of("feat(): empty scope").is_none());
    assert!(scope_of("feat(core):no space").is_none());
    assert!(scope_of("feat(core): ").is_none());
}

#[test]
fn scope_reaches_the_last_viable_close() {
    let (module, short) = scope_of("a(b): c): d").expect("a scope");
    assert_eq!(module, "b): c");
    assert_eq!(short, "d");
}
