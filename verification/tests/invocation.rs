//! Tests of the fixed evaluator invocation and of the run lifecycle that
//! scopes the helper script to one run.

use outpathdiff::outpaths::{EvalRun, OutPaths, RunAction};

#[test]
fn helper_script_path_stands_inside_the_directory() {
    let o = OutPaths::new(String::from("/repo/checkout"), false);
    assert_eq!(
        o.nix_path(),
        String::from("/repo/checkout/.gc-of-borg-outpaths.nix")
    );
    let slash = OutPaths::new(String::from("/repo/"), false);
    assert_eq!(slash.nix_path(), String::from("/repo/.gc-of-borg-outpaths.nix"));
    let bare = OutPaths::new(String::from(""), false);
    assert_eq!(bare.nix_path(), String::from(".gc-of-borg-outpaths.nix"));
}

#[test]
fn the_invocation_is_fixed() {
    let o = OutPaths::new(String::from("/repo"), false);
    assert_eq!(o.command(), String::from("nix-env"));
    assert_eq!(
        o.args(),
        vec![
            String::from("-f"),
            String::from(".gc-of-borg-outpaths.nix"),
            String::from("-qaP"),
            String::from("--no-name"),
            String::from("--out-path"),
            String::from("--show-trace"),
            String::from("--arg"),
            String::from("checkMeta"),
            String::from("false"),
        ]
    );
}

#[test]
fn every_run_requires_isolation() {
    assert!(OutPaths::new(String::from("/repo"), false).isolation_required());
    assert!(OutPaths::new(String::from("/repo"), true).isolation_required());
}

#[test]
fn the_meta_flag_is_stringified_into_the_arguments() {
    let with_meta = OutPaths::new(String::from("/repo"), true);
    let args = with_meta.args();
    assert_eq!(args.len(), 9);
    assert_eq!(args[8], String::from("true"));
    let without = OutPaths::new(String::from("/repo"), false);
    assert_eq!(without.args()[8], String::from("false"));
}

#[test]
fn a_successful_run_places_runs_and_removes() {
    let mut run = EvalRun::new();
    assert_eq!(run.next_action(), RunAction::PlaceScript);
    run.on_script_placed();
    assert_eq!(run.next_action(), RunAction::RunEvaluator);
    run.on_evaluated(true);
    assert_eq!(run.next_action(), RunAction::RemoveScript);
    run.on_script_removed();
    assert_eq!(run.next_action(), RunAction::Done);
}

#[test]
fn a_failed_run_still_removes_the_script() {
    let mut run = EvalRun::new();
    run.on_script_placed();
    run.on_evaluated(false);
    // The removal is owed on the failure path exactly as on success.
    assert_eq!(run.next_action(), RunAction::RemoveScript);
    run.on_script_removed();
    assert_eq!(run.next_action(), RunAction::Done);
}
