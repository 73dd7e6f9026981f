//! Tests of the before/after diff session: state transitions, error
//! signalling, and the rebuild set.

use outpathdiff::diff::OutPathDiff;

fn before_output() -> String {
    String::from("pkgA /out/1\npkgB /out/2")
}

#[test]
fn find_after_without_before_does_not_run() {
    let mut d = OutPathDiff::new(String::from("/repo"));
    assert!(!d.before_captured());
    // The "after" step short-circuits to "did not run" rather than using
    // any evaluation outcome.
    let r = d.find_after(Ok(String::from("pkgA /out/1")));
    assert_eq!(r, Ok(false));
    assert!(d.current.is_none());
    assert!(d.original.is_none());
}

#[test]
fn calculate_rebuild_without_listings_is_absent() {
    let d = OutPathDiff::new(String::from("/repo"));
    assert_eq!(d.calculate_rebuild(), None);
}

#[test]
fn calculate_rebuild_with_only_before_is_absent() {
    let mut d = OutPathDiff::new(String::from("/repo"));
    assert!(d.find_before(Ok(before_output())));
    assert!(d.before_captured());
    assert_eq!(d.calculate_rebuild(), None);
}

#[test]
fn find_before_failure_reports_false_and_changes_nothing() {
    let mut d = OutPathDiff::new(String::from("/repo"));
    assert!(!d.find_before(Err(String::from("evaluation failed"))));
    assert!(!d.before_captured());
    assert!(d.original.is_none());
}

#[test]
fn find_after_failure_hands_back_the_artifact() {
    let mut d = OutPathDiff::new(String::from("/repo"));
    assert!(d.find_before(Ok(before_output())));
    let r = d.find_after(Err(String::from("trace: evaluation failed")));
    assert_eq!(r, Err(String::from("trace: evaluation failed")));
    assert!(d.current.is_none());
    assert_eq!(d.calculate_rebuild(), None);
}

#[test]
fn changed_and_added_names_are_reported() {
    let mut d = OutPathDiff::new(String::from("/repo"));
    assert!(d.find_before(Ok(before_output())));
    let r = d.find_after(Ok(String::from("pkgA /out/1\npkgB /out/3\npkgC /out/4")));
    assert_eq!(r, Ok(true));
    assert_eq!(
        d.calculate_rebuild(),
        Some(vec![String::from("pkgB"), String::from("pkgC")])
    );
}

#[test]
fn identical_listings_give_an_empty_rebuild_set() {
    let mut d = OutPathDiff::new(String::from("/repo"));
    assert!(d.find_before(Ok(before_output())));
    assert_eq!(d.find_after(Ok(before_output())), Ok(true));
    assert_eq!(d.calculate_rebuild(), Some(Vec::new()));
}

#[test]
fn names_only_in_the_before_listing_are_not_reported() {
    let mut d = OutPathDiff::new(String::from("/repo"));
    assert!(d.find_before(Ok(String::from(
        "pkgA /out/1\npkgGone /out/9\npkgB /out/2"
    ))));
    assert_eq!(d.find_after(Ok(before_output())), Ok(true));
    assert_eq!(d.calculate_rebuild(), Some(Vec::new()));
}

#[test]
fn find_before_may_be_repeated_and_the_last_run_counts() {
    let mut d = OutPathDiff::new(String::from("/repo"));
    assert!(d.find_before(Ok(String::from("pkgA /out/0"))));
    assert!(d.find_before(Ok(before_output())));
    assert_eq!(d.find_after(Ok(String::from("pkgA /out/1\npkgB /out/9"))), Ok(true));
    assert_eq!(d.calculate_rebuild(), Some(vec![String::from("pkgB")]));
}
