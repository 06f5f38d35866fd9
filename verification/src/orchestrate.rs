//! The run's state machine: type-check, invalidate, test, re-invalidate.
//!
//! The machine owns every sequencing decision of a run.  The unverified
//! driver performs one outside action at a time — launching a tool, querying
//! version control, deleting a file — and reports its outcome back as a plain
//! value; the machine says what comes next.  The cache-artifact list is
//! captured once, when the change set is read, and both invalidation passes
//! walk that same stored list.
//!
//! Two deliberate policies: the type checker's exit status is ignored (only
//! a failure to launch it aborts — the checker is advisory), and a failure of
//! the second invalidation pass discards the test runner's outcome.

use vstd::prelude::*;

use crate::text::lemma_deep_view_push;

verus! {

/// What became of one attempted cache deletion.
#[derive(Clone, Copy, PartialEq, Eq, Structural, Debug)]
pub enum DeleteOutcome {
    /// The artifact existed and was removed.
    Removed,
    /// The artifact was already absent; tolerated, the pass continues.
    AlreadyAbsent,
    /// Any other filesystem error; the whole run aborts.
    Failed,
}

/// Where the run stands.
#[derive(Clone, Copy, PartialEq, Eq, Structural, Debug)]
pub enum RunPhase {
    /// Waiting for the type checker's launch outcome.
    TypeChecking,
    /// Waiting for the change set and its derived cache artifacts.
    ReadingChanges,
    /// First invalidation pass over the captured artifacts.
    PreInvalidating,
    /// Waiting for the derived test files of the change set.
    SelectingTests,
    /// Waiting for the test runner's outcome.
    Testing,
    /// Second invalidation pass over the same captured artifacts.
    PostInvalidating,
    /// The run is over; a verdict is available.
    Done,
}

/// The run's final outcome.
#[derive(Clone, Copy, PartialEq, Eq, Structural, Debug)]
pub enum Verdict {
    /// The type checker or the test runner could not be launched.
    LaunchFailure,
    /// A cache deletion hit a hard filesystem error.
    InvalidationFailure,
    /// Everything ran; carries whether the test runner exited successfully.
    TestsOutcome(bool),
}

/// The machine's state, at the specification level.
pub struct RunModel {
    pub phase: RunPhase,
    /// How many of the captured artifacts the current pass has handled.
    pub del_idx: int,
    /// The cache artifacts captured with the change set.
    pub targets: Seq<Seq<char>>,
    /// The argument list for the test runner: the verbosity flag, then the
    /// derived test files.
    pub test_args: Seq<Seq<char>>,
    /// Whether the test runner could be launched.
    pub tests_launched: bool,
    /// Whether the launched test runner exited successfully.
    pub tests_passed: bool,
    pub verdict: Option<Verdict>,
}

/// One outside outcome reported to the machine.
pub enum RunEvent {
    /// Whether the type checker could be launched (its exit status is
    /// deliberately not inspected).
    CheckerLaunched(bool),
    /// The change set was read — degraded to empty on a missing or
    /// undecodable version-control client — and its cache artifacts derived.
    ChangesReady(Seq<Seq<char>>),
    /// One deletion of the current invalidation pass finished.
    DeletionDone(DeleteOutcome),
    /// The current invalidation pass has no artifact left.
    PassComplete,
    /// The test files of the change set were derived.
    TestsSelected(Seq<Seq<char>>),
    /// The test runner finished: whether it launched, whether it passed.
    TestsFinished(bool, bool),
}

/// The fresh machine.
pub open spec fn initial_model() -> RunModel {
    RunModel {
        phase: RunPhase::TypeChecking,
        del_idx: 0,
        targets: Seq::empty(),
        test_args: Seq::empty(),
        tests_launched: false,
        tests_passed: false,
        verdict: None,
    }
}

/// The transition relation: the state after `e` arrives in `s`.  An event
/// arriving out of turn changes nothing.
pub open spec fn step(s: RunModel, e: RunEvent) -> RunModel {
    match e {
        RunEvent::CheckerLaunched(launched) => if s.phase is TypeChecking {
            if launched {
                RunModel { phase: RunPhase::ReadingChanges, ..s }
            } else {
                RunModel { phase: RunPhase::Done, verdict: Some(Verdict::LaunchFailure), ..s }
            }
        } else {
            s
        },
        RunEvent::ChangesReady(targets) => if s.phase is ReadingChanges {
            RunModel { phase: RunPhase::PreInvalidating, del_idx: 0, targets, ..s }
        } else {
            s
        },
        RunEvent::DeletionDone(outcome) => if (s.phase is PreInvalidating
            || s.phase is PostInvalidating) && s.del_idx < s.targets.len() {
            if outcome is Failed {
                RunModel {
                    phase: RunPhase::Done,
                    verdict: Some(Verdict::InvalidationFailure),
                    ..s
                }
            } else {
                RunModel { del_idx: s.del_idx + 1, ..s }
            }
        } else {
            s
        },
        RunEvent::PassComplete => if s.del_idx == s.targets.len() {
            if s.phase is PreInvalidating {
                RunModel { phase: RunPhase::SelectingTests, ..s }
            } else if s.phase is PostInvalidating {
                RunModel {
                    phase: RunPhase::Done,
                    verdict: Some(
                        if !s.tests_launched {
                            Verdict::LaunchFailure
                        } else {
                            Verdict::TestsOutcome(s.tests_passed)
                        },
                    ),
                    ..s
                }
            } else {
                s
            }
        } else {
            s
        },
        RunEvent::TestsSelected(paths) => if s.phase is SelectingTests {
            RunModel { phase: RunPhase::Testing, test_args: seq!["-vv"@] + paths, ..s }
        } else {
            s
        },
        RunEvent::TestsFinished(launched, passed) => if s.phase is Testing {
            RunModel {
                phase: RunPhase::PostInvalidating,
                del_idx: 0,
                tests_launched: launched,
                tests_passed: passed,
                ..s
            }
        } else {
            s
        },
    }
}

/// The state after a whole sequence of events.
pub open spec fn run_model(s: RunModel, events: Seq<RunEvent>) -> RunModel
    decreases events.len(),
{
    if events.len() == 0 {
        s
    } else {
        run_model(step(s, events[0]), events.drop_first())
    }
}

/// Law: the cache-artifact set is captured once.  Past the reading phase the
/// machine can never read a change set again, so no sequence of events
/// whatever alters the stored targets — in particular, the second
/// invalidation pass walks exactly the set the first one walked, with no
/// re-derivation in between.
pub proof fn law_targets_captured_once(s: RunModel, events: Seq<RunEvent>)
    requires
        !(s.phase is TypeChecking),
        !(s.phase is ReadingChanges),
    ensures
        run_model(s, events).targets == s.targets,
        !(run_model(s, events).phase is TypeChecking),
        !(run_model(s, events).phase is ReadingChanges),
    decreases events.len(),
{
    if events.len() > 0 {
        let next = step(s, events[0]);
        assert(next.targets == s.targets);
        assert(!(next.phase is TypeChecking) && !(next.phase is ReadingChanges));
        law_targets_captured_once(next, events.drop_first());
    }
}

/// A finished run stays finished: no event moves the machine out of `Done`.
pub proof fn lemma_done_is_final(s: RunModel, events: Seq<RunEvent>)
    requires
        s.phase is Done,
    ensures
        run_model(s, events) == s,
    decreases events.len(),
{
    if events.len() > 0 {
        assert(step(s, events[0]) == s);
        lemma_done_is_final(s, events.drop_first());
    }
}

/// Law: a hard error in the first invalidation pass ends the run at once
/// with an invalidation failure, and no later events ever reach the testing
/// phase — the test runner is never invoked.
pub proof fn law_failed_invalidation_skips_tests(s: RunModel, events: Seq<RunEvent>)
    requires
        s.phase is PreInvalidating,
        s.del_idx < s.targets.len(),
    ensures
        step(s, RunEvent::DeletionDone(DeleteOutcome::Failed)).phase is Done,
        step(s, RunEvent::DeletionDone(DeleteOutcome::Failed)).verdict == Some(
            Verdict::InvalidationFailure,
        ),
        !(run_model(step(s, RunEvent::DeletionDone(DeleteOutcome::Failed)), events).phase
            is Testing),
{
    lemma_done_is_final(step(s, RunEvent::DeletionDone(DeleteOutcome::Failed)), events);
}

/// `n` deletions that all found their target already absent.
pub open spec fn absent_outcomes(n: int) -> Seq<RunEvent> {
    Seq::new(n as nat, |i: int| RunEvent::DeletionDone(DeleteOutcome::AlreadyAbsent))
}

/// Law: invalidation is idempotent.  A second invalidation pass over a set
/// whose artifacts are already gone — every deletion finds its target absent
/// — runs to completion without error, and the run's verdict is the test
/// runner's outcome, never an invalidation failure.
pub proof fn law_second_pass_idempotent(s: RunModel)
    requires
        s.phase is PostInvalidating,
        0 <= s.del_idx <= s.targets.len(),
    ensures
        ({
            let done = run_model(
                s,
                absent_outcomes(s.targets.len() - s.del_idx) + seq![RunEvent::PassComplete],
            );
            done.phase is Done && done.verdict == Some(
                if !s.tests_launched {
                    Verdict::LaunchFailure
                } else {
                    Verdict::TestsOutcome(s.tests_passed)
                },
            )
        }),
    decreases s.targets.len() - s.del_idx,
{
    let n = s.targets.len() - s.del_idx;
    let events = absent_outcomes(n) + seq![RunEvent::PassComplete];
    if s.del_idx == s.targets.len() {
        assert(events =~= seq![RunEvent::PassComplete]);
        assert(run_model(s, events) == run_model(step(s, RunEvent::PassComplete), events.drop_first()));
        assert(events.drop_first() =~= Seq::<RunEvent>::empty());
    } else {
        let e0 = RunEvent::DeletionDone(DeleteOutcome::AlreadyAbsent);
        assert(events[0] == e0);
        let s1 = step(s, e0);
        assert(s1.del_idx == s.del_idx + 1);
        law_second_pass_idempotent(s1);
        assert(events.drop_first() =~= absent_outcomes(s1.targets.len() - s1.del_idx) + seq![
            RunEvent::PassComplete,
        ]);
    }
}

/// Law: a degraded change query is not an error.  From the reading phase, an
/// empty change set runs the (empty) first invalidation pass at once, and the
/// run proceeds to the testing phase with the verbosity flag as the only test
/// argument.
pub proof fn law_empty_changes_still_tests(s: RunModel)
    requires
        s.phase is ReadingChanges,
    ensures
        ({
            let t = run_model(
                s,
                seq![
                    RunEvent::ChangesReady(Seq::empty()),
                    RunEvent::PassComplete,
                    RunEvent::TestsSelected(Seq::empty()),
                ],
            );
            t.phase is Testing && t.test_args == seq!["-vv"@]
        }),
{
    let e0 = RunEvent::ChangesReady(Seq::empty());
    let e1 = RunEvent::PassComplete;
    let e2 = RunEvent::TestsSelected(Seq::empty());
    let events = seq![e0, e1, e2];
    let s1 = step(s, e0);
    let s2 = step(s1, e1);
    let s3 = step(s2, e2);
    assert(events[0] == e0);
    assert(events.drop_first() =~= seq![e1, e2]);
    assert(seq![e1, e2].drop_first() =~= seq![e2]);
    assert(seq![e2].drop_first() =~= Seq::<RunEvent>::empty());
    assert(run_model(s, events) == run_model(s1, seq![e1, e2]));
    assert(run_model(s1, seq![e1, e2]) == run_model(s2, seq![e2]));
    assert(run_model(s2, seq![e2]) == run_model(s3, Seq::<RunEvent>::empty()));
    assert(run_model(s, events) == s3);
    assert(s3.test_args =~= seq!["-vv"@]);
}

/// The run's state machine, as the driver holds it.
pub struct Orchestrator {
    phase: RunPhase,
    del_idx: usize,
    targets: Vec<String>,
    test_args: Vec<String>,
    tests_launched: bool,
    tests_passed: bool,
    verdict: Option<Verdict>,
}

impl Orchestrator {
    /// The specification-level state this value stands for.
    pub closed spec fn model(self) -> RunModel {
        RunModel {
            phase: self.phase,
            del_idx: self.del_idx as int,
            targets: self.targets.deep_view(),
            test_args: self.test_args.deep_view(),
            tests_launched: self.tests_launched,
            tests_passed: self.tests_passed,
            verdict: self.verdict,
        }
    }

    /// The deletion cursor never runs past the captured artifact list.
    pub closed spec fn wf(self) -> bool {
        self.del_idx <= self.targets@.len()
    }

    /// A fresh run, waiting for the type checker.
    pub fn new() -> (o: Orchestrator)
        ensures
            o.wf(),
            o.model() == initial_model(),
    {
        let o = Orchestrator {
            phase: RunPhase::TypeChecking,
            del_idx: 0,
            targets: Vec::new(),
            test_args: Vec::new(),
            tests_launched: false,
            tests_passed: false,
            verdict: None,
        };
        proof {
            assert(o.targets.deep_view() =~= Seq::<Seq<char>>::empty());
            assert(o.test_args.deep_view() =~= Seq::<Seq<char>>::empty());
        }
        o
    }

    /// Reports whether the type checker could be launched.  Its exit status
    /// is deliberately not inspected: the checker is advisory here.
    pub fn checker_launched(&mut self, launched: bool)
        requires
            old(self).wf(),
            old(self).model().phase is TypeChecking,
        ensures
            final(self).wf(),
            final(self).model() == step(
                old(self).model(),
                RunEvent::CheckerLaunched(launched),
            ),
    {
        if launched {
            self.phase = RunPhase::ReadingChanges;
        } else {
            self.phase = RunPhase::Done;
            self.verdict = Some(Verdict::LaunchFailure);
        }
    }

    /// Hands over the change set's derived cache artifacts, captured once for
    /// both invalidation passes.
    pub fn changes_ready(&mut self, targets: Vec<String>)
        requires
            old(self).wf(),
            old(self).model().phase is ReadingChanges,
        ensures
            final(self).wf(),
            final(self).model() == step(
                old(self).model(),
                RunEvent::ChangesReady(targets.deep_view()),
            ),
    {
        self.phase = RunPhase::PreInvalidating;
        self.del_idx = 0;
        self.targets = targets;
    }

    /// The next artifact the current invalidation pass must delete, or
    /// nothing when the pass is complete — in which case the machine moves
    /// on: after the first pass to test selection, after the second to the
    /// verdict.
    pub fn next_deletion(&mut self) -> (r: Option<String>)
        requires
            old(self).wf(),
            old(self).model().phase is PreInvalidating || old(self).model().phase
                is PostInvalidating,
        ensures
            final(self).wf(),
            match r {
                Some(p) => {
                    &&& *final(self) == *old(self)
                    &&& old(self).model().del_idx < old(self).model().targets.len()
                    &&& old(self).model().targets[old(self).model().del_idx] == p@
                },
                None => {
                    &&& old(self).model().del_idx == old(self).model().targets.len()
                    &&& final(self).model() == step(old(self).model(), RunEvent::PassComplete)
                },
            },
    {
        if self.del_idx < self.targets.len() {
            let p = self.targets[self.del_idx].clone();
            proof {
                assert(self.targets.deep_view()[self.del_idx as int]
                    == self.targets@[self.del_idx as int]@);
            }
            Some(p)
        } else {
            match self.phase {
                RunPhase::PreInvalidating => {
                    self.phase = RunPhase::SelectingTests;
                },
                _ => {
                    self.phase = RunPhase::Done;
                    self.verdict = Some(
                        if !self.tests_launched {
                            Verdict::LaunchFailure
                        } else {
                            Verdict::TestsOutcome(self.tests_passed)
                        },
                    );
                },
            }
            None
        }
    }

    /// Reports what became of the deletion of the artifact `next_deletion`
    /// last handed out.  A target already absent is tolerated; any other
    /// failure ends the run.
    pub fn deletion_done(&mut self, outcome: DeleteOutcome)
        requires
            old(self).wf(),
            old(self).model().phase is PreInvalidating || old(self).model().phase
                is PostInvalidating,
            old(self).model().del_idx < old(self).model().targets.len(),
        ensures
            final(self).wf(),
            final(self).model() == step(old(self).model(), RunEvent::DeletionDone(outcome)),
    {
        match outcome {
            DeleteOutcome::Failed => {
                self.phase = RunPhase::Done;
                self.verdict = Some(Verdict::InvalidationFailure);
            },
            _ => {
                // the captured list bounds the cursor, so the increment fits
                let bound = self.targets.len();
                self.del_idx = self.del_idx + 1;
                proof {
                    assert(self.del_idx <= bound);
                }
            },
        }
    }

    /// Hands over the change set's derived test files; the machine prepends
    /// the fixed verbosity flag to form the test runner's argument list.
    pub fn tests_selected(&mut self, test_paths: Vec<String>)
        requires
            old(self).wf(),
            old(self).model().phase is SelectingTests,
        ensures
            final(self).wf(),
            final(self).model() == step(
                old(self).model(),
                RunEvent::TestsSelected(test_paths.deep_view()),
            ),
    {
        let ghost paths = test_paths.deep_view();
        let mut args: Vec<String> = Vec::new();
        args.push(String::from_str("-vv"));
        proof {
            assert(args.deep_view() =~= seq!["-vv"@] + paths.take(0));
        }
        let mut i: usize = 0;
        while i < test_paths.len()
            invariant
                i <= test_paths@.len(),
                paths == test_paths.deep_view(),
                args.deep_view() == seq!["-vv"@] + paths.take(i as int),
            decreases test_paths@.len() - i,
        {
            let ghost before = args;
            args.push(test_paths[i].clone());
            proof {
                lemma_deep_view_push(before, args, test_paths@[i as int]);
                assert(paths[i as int] == test_paths@[i as int]@);
                assert(args.deep_view() =~= seq!["-vv"@] + paths.take(i + 1));
            }
            i = i + 1;
        }
        proof {
            assert(paths.take(i as int) =~= paths);
        }
        self.phase = RunPhase::Testing;
        self.test_args = args;
    }

    /// Reports the test runner's outcome: whether it launched at all and, if
    /// so, whether it exited successfully.  Either way the second
    /// invalidation pass follows; the outcome is held back until that pass
    /// completes.
    pub fn tests_finished(&mut self, launched: bool, passed: bool)
        requires
            old(self).wf(),
            old(self).model().phase is Testing,
        ensures
            final(self).wf(),
            final(self).model() == step(
                old(self).model(),
                RunEvent::TestsFinished(launched, passed),
            ),
    {
        self.phase = RunPhase::PostInvalidating;
        self.del_idx = 0;
        self.tests_launched = launched;
        self.tests_passed = passed;
    }

    /// Where the run stands.
    pub fn current_phase(&self) -> (p: RunPhase)
        ensures
            p == self.model().phase,
    {
        self.phase
    }

    /// The argument list for the test runner, available from the testing
    /// phase on.
    pub fn test_arguments(&self) -> (r: &Vec<String>)
        ensures
            r.deep_view() == self.model().test_args,
    {
        &self.test_args
    }

    /// The run's verdict; available exactly once the run is done.
    pub fn final_verdict(&self) -> (v: Option<Verdict>)
        ensures
            v == self.model().verdict,
    {
        self.verdict
    }
}

} // verus!
