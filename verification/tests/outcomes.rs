use glv::commit::Oid;
use glv::error::Error;
use glv::git::{ancestor_check_outcome, merge_base_outcome, stitch_target};

#[test]
fn ancestor_outcomes_are_classified_exactly() {
    assert_eq!(ancestor_check_outcome(Ok("".to_string())).unwrap(), true);
    assert_eq!(ancestor_check_outcome(Err((1, "".to_string()))).unwrap(), false);
    match ancestor_check_outcome(Err((128, "fatal".to_string()))) {
        Err(Error::Process { code, message }) => {
            assert_eq!(code, 128);
            assert_eq!(message, "fatal");
        },
        _ => panic!("expected a process failure"),
    }
}

#[test]
fn merge_base_outcomes_are_classified_exactly() {
    let found = merge_base_outcome(Ok("abc123\n".to_string())).unwrap();
    assert_eq!(found, Some(Oid("abc123".to_string())));
    assert_eq!(merge_base_outcome(Ok("\n".to_string())).unwrap(), None);
    assert_eq!(merge_base_outcome(Err((1, "".to_string()))).unwrap(), None);
    match merge_base_outcome(Err((129, "usage".to_string()))) {
        Err(Error::Process { code, message }) => {
            assert_eq!(code, 129);
            assert_eq!(message, "usage");
        },
        _ => panic!("expected a process failure"),
    }
}

#[test]
fn stitching_happens_only_short_of_the_mainline() {
    let mainline = Oid("B".to_string());
    let base = Some(Oid("E".to_string()));
    // the expansion's last commit continues at the mainline ancestor: no link
    assert_eq!(stitch_target(&Some(Oid("B".to_string())), &base, &mainline), None);
    // it continues elsewhere: a link to exactly that commit
    assert_eq!(
        stitch_target(&Some(Oid("D".to_string())), &base, &mainline),
        Some(Oid("D".to_string()))
    );
    // no merge base was found: never a link
    assert_eq!(stitch_target(&Some(Oid("D".to_string())), &None, &mainline), None);
    // the expansion ended at a root commit: nothing to continue at
    assert_eq!(stitch_target(&None, &base, &mainline), None);
}
