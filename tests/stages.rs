use pop_opt::{
    build_work, plan_stage, stage_state, BuildError, Outcome, Pkg, StageAction, StageDirs,
    StageEnd, StagePlan, StagePolicy, StageRun, StageState, Work,
};

/// A stage's directories on a pretend file system, with a count of the
/// outside work done.
struct FakeStage {
    dirs: StageDirs,
    partial_note: Option<String>,
    work_done: usize,
    log: Vec<StageAction>,
}

impl FakeStage {
    fn new(complete: bool, partial: bool) -> FakeStage {
        FakeStage {
            dirs: StageDirs { complete, partial },
            partial_note: if partial { Some("left by a crash".to_string()) } else { None },
            work_done: 0,
            log: Vec::new(),
        }
    }

    fn run(&mut self, policy: StagePolicy, work: &Vec<Work>, verify: bool) -> Result<StageEnd, BuildError> {
        let mut run = StageRun::begin("source".to_string(), self.dirs, policy, work, verify);
        while let Some(action) = run.next() {
            self.log.push(action);
            let outcome = match action {
                StageAction::DiscardComplete => {
                    self.dirs.complete = false;
                    Outcome::Done
                }
                StageAction::DiscardPartial => {
                    self.dirs.partial = false;
                    self.partial_note = None;
                    Outcome::Done
                }
                StageAction::CreatePartial => {
                    self.dirs.partial = true;
                    self.partial_note = Some(String::new());
                    Outcome::Done
                }
                StageAction::Do(_) => {
                    self.work_done += 1;
                    Outcome::Done
                }
                StageAction::Commit => {
                    self.dirs.partial = false;
                    self.dirs.complete = true;
                    Outcome::Done
                }
                StageAction::ExpectOutput => {
                    if self.dirs.complete {
                        Outcome::Done
                    } else {
                        Outcome::Missing
                    }
                }
            };
            run.report(outcome);
        }
        run.finish()
    }
}

fn quiet() -> StagePolicy {
    StagePolicy { rebuild: false, retry: false }
}

#[test]
fn rerun_does_no_work() {
    let work = build_work();
    let mut fs = FakeStage::new(false, false);
    assert_eq!(fs.run(quiet(), &work, true), Ok(StageEnd::Committed));
    assert_eq!(fs.work_done, 2);
    assert_eq!(fs.dirs, StageDirs { complete: true, partial: false });
    assert_eq!(fs.run(quiet(), &work, true), Ok(StageEnd::Reused));
    assert_eq!(fs.work_done, 2);
    assert_eq!(fs.dirs, StageDirs { complete: true, partial: false });
}

#[test]
fn partial_stage_blocks_without_retry() {
    let work = build_work();
    let mut fs = FakeStage::new(false, true);
    let r = fs.run(quiet(), &work, false);
    assert_eq!(r, Err(BuildError::StageInProgress { stage: "source".to_string() }));
    assert!(fs.log.is_empty());
    assert_eq!(fs.work_done, 0);
    assert_eq!(fs.partial_note, Some("left by a crash".to_string()));
    assert_eq!(fs.dirs, StageDirs { complete: false, partial: true });
}

#[test]
fn retry_discards_partial_and_restarts() {
    let work = build_work();
    let mut fs = FakeStage::new(false, true);
    let policy = StagePolicy { rebuild: false, retry: true };
    assert_eq!(fs.run(policy, &work, false), Ok(StageEnd::Committed));
    assert_eq!(
        fs.log,
        vec![
            StageAction::DiscardPartial,
            StageAction::CreatePartial,
            StageAction::Do(Work::WriteBuildConfig),
            StageAction::Do(Work::RunBuild),
            StageAction::Commit,
        ]
    );
    assert_eq!(fs.work_done, 2);
    assert_eq!(fs.dirs, StageDirs { complete: true, partial: false });
}

#[test]
fn rebuild_discards_complete_and_recommits() {
    let work = build_work();
    let mut fs = FakeStage::new(true, false);
    let policy = StagePolicy { rebuild: true, retry: false };
    assert_eq!(fs.run(policy, &work, true), Ok(StageEnd::Committed));
    assert_eq!(fs.log[0], StageAction::DiscardComplete);
    assert_eq!(fs.log.len(), 6);
    assert_eq!(fs.log[4], StageAction::Commit);
    assert_eq!(fs.log[5], StageAction::ExpectOutput);
    assert_eq!(fs.work_done, 2);
    assert_eq!(fs.dirs, StageDirs { complete: true, partial: false });
}

#[test]
fn complete_stage_is_reused_even_with_partial_left() {
    let work = build_work();
    let mut fs = FakeStage::new(true, true);
    assert_eq!(fs.run(quiet(), &work, false), Ok(StageEnd::Reused));
    assert_eq!(fs.work_done, 0);
}

#[test]
fn plan_follows_the_transition_table() {
    let d = |complete, partial| StageDirs { complete, partial };
    let p = |rebuild, retry| StagePolicy { rebuild, retry };
    assert_eq!(plan_stage(d(false, false), p(false, false)), StagePlan::Run { discard_complete: false, discard_partial: false });
    assert_eq!(plan_stage(d(false, true), p(false, false)), StagePlan::Blocked);
    assert_eq!(plan_stage(d(false, true), p(false, true)), StagePlan::Run { discard_complete: false, discard_partial: true });
    assert_eq!(plan_stage(d(true, false), p(false, true)), StagePlan::Reuse);
    assert_eq!(plan_stage(d(true, false), p(true, false)), StagePlan::Run { discard_complete: true, discard_partial: false });
    assert_eq!(plan_stage(d(true, true), p(true, false)), StagePlan::Blocked);
    assert_eq!(plan_stage(d(true, true), p(true, true)), StagePlan::Run { discard_complete: true, discard_partial: true });
}

#[test]
fn stage_state_from_directories() {
    assert_eq!(stage_state(StageDirs { complete: false, partial: false }), StageState::Absent);
    assert_eq!(stage_state(StageDirs { complete: false, partial: true }), StageState::Partial);
    assert_eq!(stage_state(StageDirs { complete: true, partial: true }), StageState::Complete);
}

#[test]
fn missing_product_after_reuse_is_reported() {
    let work = build_work();
    let mut run = StageRun::begin("source".to_string(), StageDirs { complete: true, partial: false }, quiet(), &work, true);
    assert_eq!(run.next(), Some(StageAction::ExpectOutput));
    run.report(Outcome::Missing);
    assert_eq!(run.next(), None);
    assert_eq!(run.finish(), Err(BuildError::ArtifactMissing { stage: "source".to_string() }));
}

#[test]
fn missing_download_is_source_not_found() {
    let pkg = Pkg { name: "foo".to_string(), patches: vec![] };
    let work = pkg.source_work();
    let mut run = StageRun::begin("source".to_string(), StageDirs { complete: false, partial: false }, quiet(), &work, true);
    let mut seen = Vec::new();
    while let Some(a) = run.next() {
        seen.push(a);
        if a == StageAction::Do(Work::ExpectFetched) {
            run.report(Outcome::Missing);
        } else {
            run.report(Outcome::Done);
        }
    }
    assert_eq!(seen.last(), Some(&StageAction::Do(Work::ExpectFetched)));
    assert_eq!(run.finish(), Err(BuildError::SourceNotFound));
}

#[test]
fn command_failure_is_passed_on() {
    let work = build_work();
    let mut run = StageRun::begin("sbuild-i386".to_string(), StageDirs { complete: false, partial: false }, quiet(), &work, false);
    while let Some(a) = run.next() {
        if a == StageAction::Do(Work::RunBuild) {
            run.report(Outcome::Failed(BuildError::CommandFailed { status: Some(2) }));
        } else {
            run.report(Outcome::Done);
        }
    }
    assert_eq!(run.finish(), Err(BuildError::CommandFailed { status: Some(2) }));
}

#[test]
fn io_failure_is_passed_on() {
    let work = build_work();
    let mut run = StageRun::begin("sbuild-amd64".to_string(), StageDirs { complete: false, partial: false }, quiet(), &work, false);
    assert_eq!(run.next(), Some(StageAction::CreatePartial));
    run.report(Outcome::Failed(BuildError::Io { message: "denied".to_string() }));
    assert_eq!(run.next(), None);
    assert_eq!(run.finish(), Err(BuildError::Io { message: "denied".to_string() }));
}

#[test]
fn source_work_applies_patches_in_declared_order() {
    let pkg = Pkg { name: "foo".to_string(), patches: vec!["a.patch".to_string(), "b.patch".to_string()] };
    assert_eq!(
        pkg.source_work(),
        vec![
            Work::PrepareScratch,
            Work::Fetch,
            Work::ExpectFetched,
            Work::Extract,
            Work::DropScratch,
            Work::CopyTree,
            Work::ApplyPatch { index: 0 },
            Work::ApplyPatch { index: 1 },
            Work::Changelog,
            Work::BuildControl,
        ]
    );
}

/// Runs the source stage of `pkg` on a pretend tree holding `text`, where a
/// patch is a pair (text to find, text to put in its place).
fn prepare_with(patches: &[(&str, &str)]) -> Result<StageEnd, BuildError> {
    let pkg = Pkg {
        name: "foo".to_string(),
        patches: patches.iter().map(|p| format!("{}->{}", p.0, p.1)).collect(),
    };
    let work = pkg.source_work();
    let mut tree = "let x = 1;".to_string();
    let mut run = StageRun::begin("source".to_string(), StageDirs { complete: false, partial: false }, quiet(), &work, true);
    let mut committed = false;
    while let Some(a) = run.next() {
        let outcome = match a {
            StageAction::Do(Work::ApplyPatch { index }) => {
                let (from, to) = patches[index];
                if tree.contains(from) {
                    tree = tree.replacen(from, to, 1);
                    Outcome::Done
                } else {
                    Outcome::Failed(BuildError::CommandFailed { status: Some(1) })
                }
            }
            StageAction::Commit => {
                committed = true;
                Outcome::Done
            }
            StageAction::ExpectOutput => {
                if committed { Outcome::Done } else { Outcome::Missing }
            }
            _ => Outcome::Done,
        };
        run.report(outcome);
    }
    run.finish()
}

#[test]
fn patches_apply_only_in_declared_order() {
    let a = ("x = 1", "y = 1");
    let b = ("y = 1", "y = 2");
    assert_eq!(prepare_with(&[a, b]), Ok(StageEnd::Committed));
    assert_eq!(prepare_with(&[b, a]), Err(BuildError::PatchFailed { index: 0 }));
}
