use mutmut_runner::locate::{collect_cache_paths, collect_test_paths, Conventions};
use mutmut_runner::orchestrate::{DeleteOutcome, Orchestrator, RunPhase, Verdict};

/// Drives one invalidation pass, deleting nothing for real: each artifact is
/// reported with the given outcome.
fn drive_pass(orch: &mut Orchestrator, outcome: DeleteOutcome) -> Vec<String> {
    let mut handed_out = Vec::new();
    loop {
        if orch.final_verdict().is_some() {
            return handed_out;
        }
        match orch.next_deletion() {
            None => return handed_out,
            Some(path) => {
                handed_out.push(path);
                orch.deletion_done(outcome);
            }
        }
    }
}

#[test]
fn full_run_over_a_two_file_change_set() {
    // Change set: src/a.py and src/b.py; only a.py has a backup sentinel and
    // a cache entry.
    let conv = Conventions::standard();
    let files = vec![String::from("src/a.py"), String::from("src/b.py")];
    let listings = vec![vec![String::from("a.cpython-39.pyc")], Vec::new()];
    let backups = vec![true, false];

    let mut orch = Orchestrator::new();
    orch.checker_launched(true);
    assert_eq!(orch.final_verdict(), None);

    let targets = collect_cache_paths(&conv, &files, &listings);
    assert_eq!(targets, vec![String::from("src/__pycache__/a.cpython-39.pyc")]);
    orch.changes_ready(targets);

    // First pass: the one artifact is deleted.
    let first = drive_pass(&mut orch, DeleteOutcome::Removed);
    assert_eq!(first, vec![String::from("src/__pycache__/a.cpython-39.pyc")]);
    assert_eq!(orch.current_phase(), RunPhase::SelectingTests);

    // The test runner gets the verbosity flag and the one eligible test.
    orch.tests_selected(collect_test_paths(&conv, &files, &backups));
    assert_eq!(
        orch.test_arguments(),
        &vec![String::from("-vv"), String::from("tests/test_a.py")]
    );
    orch.tests_finished(true, true);

    // Second pass: the same artifact, now already absent, without error.
    let second = drive_pass(&mut orch, DeleteOutcome::AlreadyAbsent);
    assert_eq!(second, first);
    assert_eq!(orch.final_verdict(), Some(Verdict::TestsOutcome(true)));
}

#[test]
fn both_passes_walk_the_same_captured_set() {
    let mut orch = Orchestrator::new();
    orch.checker_launched(true);
    orch.changes_ready(vec![String::from("src/__pycache__/a.pyc"), String::from("src/__pycache__/b.pyc")]);
    let first = drive_pass(&mut orch, DeleteOutcome::Removed);
    orch.tests_selected(Vec::new());
    orch.tests_finished(true, true);
    let second = drive_pass(&mut orch, DeleteOutcome::AlreadyAbsent);
    assert_eq!(first, second);
}

#[test]
fn an_unavailable_change_query_still_runs_the_tests() {
    // A missing version-control client degrades to an empty change set: the
    // run proceeds and the test runner is invoked with only the verbosity
    // flag.
    let mut orch = Orchestrator::new();
    orch.checker_launched(true);
    orch.changes_ready(Vec::new());
    drive_pass(&mut orch, DeleteOutcome::Removed);
    assert_eq!(orch.current_phase(), RunPhase::SelectingTests);
    orch.tests_selected(Vec::new());
    assert_eq!(orch.test_arguments(), &vec![String::from("-vv")]);
    orch.tests_finished(true, true);
    drive_pass(&mut orch, DeleteOutcome::AlreadyAbsent);
    assert_eq!(orch.final_verdict(), Some(Verdict::TestsOutcome(true)));
}

#[test]
fn a_failed_first_pass_never_reaches_the_tests() {
    let mut orch = Orchestrator::new();
    orch.checker_launched(true);
    orch.changes_ready(vec![String::from("src/__pycache__/a.pyc")]);
    drive_pass(&mut orch, DeleteOutcome::Failed);
    assert_eq!(orch.final_verdict(), Some(Verdict::InvalidationFailure));
    assert_eq!(orch.current_phase(), RunPhase::Done);
}

#[test]
fn an_absent_artifact_is_tolerated_in_the_first_pass() {
    let mut orch = Orchestrator::new();
    orch.checker_launched(true);
    orch.changes_ready(vec![String::from("src/__pycache__/a.pyc")]);
    drive_pass(&mut orch, DeleteOutcome::AlreadyAbsent);
    assert_eq!(orch.final_verdict(), None);
    assert_eq!(orch.current_phase(), RunPhase::SelectingTests);
}

#[test]
fn a_checker_that_cannot_launch_aborts_the_run() {
    let mut orch = Orchestrator::new();
    orch.checker_launched(false);
    assert_eq!(orch.final_verdict(), Some(Verdict::LaunchFailure));
}

#[test]
fn a_failing_test_run_is_the_final_outcome() {
    let mut orch = Orchestrator::new();
    orch.checker_launched(true);
    orch.changes_ready(Vec::new());
    drive_pass(&mut orch, DeleteOutcome::Removed);
    orch.tests_selected(Vec::new());
    orch.tests_finished(true, false);
    drive_pass(&mut orch, DeleteOutcome::AlreadyAbsent);
    assert_eq!(orch.final_verdict(), Some(Verdict::TestsOutcome(false)));
}

#[test]
fn a_test_runner_that_cannot_launch_is_reported_after_the_second_pass() {
    let mut orch = Orchestrator::new();
    orch.checker_launched(true);
    orch.changes_ready(Vec::new());
    drive_pass(&mut orch, DeleteOutcome::Removed);
    orch.tests_selected(Vec::new());
    orch.tests_finished(false, false);
    drive_pass(&mut orch, DeleteOutcome::AlreadyAbsent);
    assert_eq!(orch.final_verdict(), Some(Verdict::LaunchFailure));
}

#[test]
fn a_failed_second_pass_discards_the_test_outcome() {
    let mut orch = Orchestrator::new();
    orch.checker_launched(true);
    orch.changes_ready(vec![String::from("src/__pycache__/a.pyc")]);
    drive_pass(&mut orch, DeleteOutcome::Removed);
    orch.tests_selected(Vec::new());
    orch.tests_finished(true, true);
    drive_pass(&mut orch, DeleteOutcome::Failed);
    assert_eq!(orch.final_verdict(), Some(Verdict::InvalidationFailure));
}
