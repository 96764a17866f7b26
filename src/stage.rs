use vstd::prelude::*;

use crate::error::BuildError;

verus! {

/// What exists of a stage's two directories: the canonical one, and the
/// one suffixed `.partial` where the stage's work is done.
#[derive(Clone, Copy, Debug, PartialEq, Eq, Structural)]
pub struct StageDirs {
    pub complete: bool,
    pub partial: bool,
}

/// Whether to redo a stage that is complete (`rebuild`), and whether to
/// redo one left in progress (`retry`).
#[derive(Clone, Copy, Debug, PartialEq, Eq, Structural)]
pub struct StagePolicy {
    pub rebuild: bool,
    pub retry: bool,
}

/// The state of a stage as a later run sees it.
#[derive(Clone, Copy, Debug, PartialEq, Eq, Structural)]
pub enum StageState {
    Absent,
    Partial,
    Complete,
}

/// What to do with a stage, from what is found of it.
#[derive(Clone, Copy, Debug, PartialEq, Eq, Structural)]
pub enum StagePlan {
    /// The stage is complete: use its result as it stands.
    Reuse,
    /// The stage is in progress or has failed: refuse to touch it.
    Blocked,
    /// Do the stage's work, after removing what the flags say.
    Run { discard_complete: bool, discard_partial: bool },
}

/// One step of a stage's own work, done by outside tools.
#[derive(Clone, Copy, Debug, PartialEq, Eq, Structural)]
pub enum Work {
    /// Empty the scratch directory the download goes to.
    PrepareScratch,
    /// Download the package's source.
    Fetch,
    /// Check that the downloaded source control file is there.
    ExpectFetched,
    /// Extract the downloaded source into the partial directory.
    Extract,
    /// Remove the scratch directory.
    DropScratch,
    /// Copy the extracted tree to the one that gets patched.
    CopyTree,
    /// Apply the package's patch at this position of its list.
    ApplyPatch { index: usize },
    /// Record the new version in the changelog.
    Changelog,
    /// Build the new source control file.
    BuildControl,
    /// Write the build environment descriptor.
    WriteBuildConfig,
    /// Run the build tool.
    RunBuild,
}

/// One step of running a stage.
#[derive(Clone, Copy, Debug, PartialEq, Eq, Structural)]
pub enum StageAction {
    /// Remove the canonical directory.
    DiscardComplete,
    /// Remove the partial directory.
    DiscardPartial,
    /// Create the partial directory.
    CreatePartial,
    /// Do a step of the stage's work in the partial directory.
    Do(Work),
    /// Rename the partial directory to the canonical one.
    Commit,
    /// Check that the stage's product is in the canonical directory.
    ExpectOutput,
}

/// How a step ended: done, the thing looked for is missing, or failed.
#[derive(Clone, Debug, PartialEq, Eq)]
pub enum Outcome {
    Done,
    Missing,
    Failed(BuildError),
}

/// How a stage ended well: its earlier result was used, or new work was
/// committed.
#[derive(Clone, Copy, Debug, PartialEq, Eq, Structural)]
pub enum StageEnd {
    Reused,
    Committed,
}

pub open spec fn state_of(d: StageDirs) -> StageState {
    if d.complete {
        StageState::Complete
    } else if d.partial {
        StageState::Partial
    } else {
        StageState::Absent
    }
}

/// The state of a stage from what exists of its directories; a complete
/// stage counts as complete whatever else is there.
pub fn stage_state(d: StageDirs) -> (r: StageState)
    ensures
        r == state_of(d),
{
    if d.complete {
        StageState::Complete
    } else if d.partial {
        StageState::Partial
    } else {
        StageState::Absent
    }
}

/// The rule of every stage: a complete stage is reused unless `rebuild`; a
/// stage in progress blocks unless `retry`; otherwise the stage runs, after
/// removing what is there.
pub open spec fn plan_for(d: StageDirs, p: StagePolicy) -> StagePlan {
    if d.complete && !p.rebuild {
        StagePlan::Reuse
    } else if d.partial && !p.retry {
        StagePlan::Blocked
    } else {
        StagePlan::Run { discard_complete: d.complete, discard_partial: d.partial }
    }
}

/// Decides what to do with a stage.
pub fn plan_stage(d: StageDirs, p: StagePolicy) -> (r: StagePlan)
    ensures
        r == plan_for(d, p),
{
    if d.complete && !p.rebuild {
        StagePlan::Reuse
    } else if d.partial && !p.retry {
        StagePlan::Blocked
    } else {
        StagePlan::Run { discard_complete: d.complete, discard_partial: d.partial }
    }
}

pub open spec fn work_actions(work: Seq<Work>) -> Seq<StageAction> {
    work.map_values(|w: Work| StageAction::Do(w))
}

pub open spec fn check_actions(verify_output: bool) -> Seq<StageAction> {
    if verify_output {
        seq![StageAction::ExpectOutput]
    } else {
        Seq::empty()
    }
}

/// The steps of a stage under `plan` when each of them succeeds.
pub open spec fn stage_actions(plan: StagePlan, work: Seq<Work>, verify_output: bool) -> Seq<
    StageAction,
> {
    match plan {
        StagePlan::Reuse => check_actions(verify_output),
        StagePlan::Blocked => Seq::empty(),
        StagePlan::Run { discard_complete, discard_partial } => (if discard_complete {
            seq![StageAction::DiscardComplete]
        } else {
            Seq::empty()
        }) + (if discard_partial {
            seq![StageAction::DiscardPartial]
        } else {
            Seq::empty()
        }) + seq![StageAction::CreatePartial] + work_actions(work) + seq![StageAction::Commit]
            + check_actions(verify_output),
    }
}

/// The error a stage ends with when `a` ended with `o`.
pub open spec fn failure_of(stage: Seq<char>, a: StageAction, o: Outcome, e: BuildError) -> bool {
    match a {
        StageAction::Do(Work::ApplyPatch { index }) => e == BuildError::PatchFailed { index },
        _ => match o {
            Outcome::Failed(f) => e == f,
            Outcome::Missing => match a {
                StageAction::Do(Work::ExpectFetched) => e == BuildError::SourceNotFound,
                _ => e matches BuildError::ArtifactMissing { stage: s } && s@ == stage,
            },
            Outcome::Done => false,
        },
    }
}

/// A stage being run: its steps, how far it has come, and how it failed if
/// it did.
pub struct StageRun {
    pub name: String,
    pub actions: Vec<StageAction>,
    pub pos: usize,
    pub reused: bool,
    pub failure: Option<BuildError>,
}

impl StageRun {
    pub open spec fn wf(&self) -> bool {
        self.pos <= self.actions.len()
    }

    /// The run waits for the outcome of a step.
    pub open spec fn waiting(&self) -> bool {
        self.failure is None && self.pos < self.actions.len()
    }

    /// Starts the stage `name` whose directories are as `d` says, under
    /// `p`, with `work` as its own steps; with `verify_output`, the stage's
    /// product is looked for after the commit and before a reuse.
    pub fn begin(name: String, d: StageDirs, p: StagePolicy, work: &Vec<Work>, verify_output: bool) -> (r: StageRun)
        ensures
            r.wf(),
            r.name == name,
            r.actions@ == stage_actions(plan_for(d, p), work@, verify_output),
            r.pos == 0,
            r.reused == (plan_for(d, p) == StagePlan::Reuse),
            plan_for(d, p) == StagePlan::Blocked ==> (r.failure matches Some(
                BuildError::StageInProgress { stage: s },
            ) && s@ == name@),
            plan_for(d, p) != StagePlan::Blocked ==> r.failure is None,
    {
        let plan = plan_stage(d, p);
        let mut actions: Vec<StageAction> = Vec::new();
        match plan {
            StagePlan::Reuse => {
                if verify_output {
                    actions.push(StageAction::ExpectOutput);
                }
                assert(actions@ =~= stage_actions(plan, work@, verify_output));
                StageRun { name, actions, pos: 0, reused: true, failure: None }
            },
            StagePlan::Blocked => {
                let stage = name.clone();
                assert(actions@ =~= stage_actions(plan, work@, verify_output));
                StageRun {
                    name,
                    actions,
                    pos: 0,
                    reused: false,
                    failure: Some(BuildError::StageInProgress { stage }),
                }
            },
            StagePlan::Run { discard_complete, discard_partial } => {
                if discard_complete {
                    actions.push(StageAction::DiscardComplete);
                }
                if discard_partial {
                    actions.push(StageAction::DiscardPartial);
                }
                actions.push(StageAction::CreatePartial);
                let ghost head = actions@;
                let mut i: usize = 0;
                while i < work.len()
                    invariant
                        i <= work.len(),
                        actions@ == head + work_actions(work@.take(i as int)),
                    decreases work.len() - i,
                {
                    actions.push(StageAction::Do(work[i]));
                    assert(work@.take(i + 1) =~= work@.take(i as int).push(work@[i as int]));
                    assert(actions@ =~= head + work_actions(work@.take(i + 1)));
                    i = i + 1;
                }
                assert(work@.take(i as int) =~= work@);
                actions.push(StageAction::Commit);
                if verify_output {
                    actions.push(StageAction::ExpectOutput);
                }
                assert(actions@ =~= stage_actions(plan, work@, verify_output));
                StageRun { name, actions, pos: 0, reused: false, failure: None }
            },
        }
    }

    /// The next step to take; `None` when the stage has ended.
    pub fn next(&self) -> (r: Option<StageAction>)
        requires
            self.wf(),
        ensures
            self.waiting() ==> r == Some(self.actions@[self.pos as int]),
            !self.waiting() ==> r is None,
    {
        if self.failure.is_none() && self.pos < self.actions.len() {
            Some(self.actions[self.pos])
        } else {
            None
        }
    }

    /// Records how the step that `next` gave ended.
    pub fn report(&mut self, o: Outcome)
        requires
            old(self).wf(),
            old(self).waiting(),
        ensures
            final(self).wf(),
            final(self).name == old(self).name,
            final(self).actions == old(self).actions,
            final(self).reused == old(self).reused,
            o is Done ==> final(self).pos == old(self).pos + 1 && final(self).failure is None,
            !(o is Done) ==> final(self).pos == old(self).pos && (final(self).failure matches Some(e)
                && failure_of(old(self).name@, old(self).actions@[old(self).pos as int], o, e)),
    {
        let a = self.actions[self.pos];
        match o {
            Outcome::Done => {
                self.pos = self.pos + 1;
            },
            _ => {
                let e = match a {
                    StageAction::Do(Work::ApplyPatch { index }) => BuildError::PatchFailed { index },
                    _ => match o {
                        Outcome::Failed(f) => f,
                        _ => match a {
                            StageAction::Do(Work::ExpectFetched) => BuildError::SourceNotFound,
                            _ => BuildError::ArtifactMissing { stage: self.name.clone() },
                        },
                    },
                };
                self.failure = Some(e);
            },
        }
    }

    /// How the stage ended, once `next` gives nothing more.
    pub fn finish(self) -> (r: Result<StageEnd, BuildError>)
        requires
            self.wf(),
            !self.waiting(),
        ensures
            match r {
                Ok(end) => self.failure is None && self.pos == self.actions.len() && end == (
                if self.reused {
                    StageEnd::Reused
                } else {
                    StageEnd::Committed
                }),
                Err(e) => self.failure == Some(e),
            },
    {
        match self.failure {
            Some(e) => Err(e),
            None => {
                if self.reused {
                    Ok(StageEnd::Reused)
                } else {
                    Ok(StageEnd::Committed)
                }
            },
        }
    }
}

/// The directories after `a`, in a model where only the directories'
/// existence matters.
pub open spec fn apply_action(d: StageDirs, a: StageAction) -> StageDirs {
    match a {
        StageAction::DiscardComplete => StageDirs { complete: false, partial: d.partial },
        StageAction::DiscardPartial => StageDirs { complete: d.complete, partial: false },
        StageAction::CreatePartial => StageDirs { complete: d.complete, partial: true },
        StageAction::Commit => StageDirs { complete: true, partial: false },
        _ => d,
    }
}

/// `a` can be taken when the directories are as `d` says: what is removed
/// is there, what is created is not, a rename finds its source and not its
/// target, and work happens in the partial directory while no canonical one
/// exists.
pub open spec fn enabled(d: StageDirs, a: StageAction) -> bool {
    match a {
        StageAction::DiscardComplete => d.complete,
        StageAction::DiscardPartial => d.partial,
        StageAction::CreatePartial => !d.partial,
        StageAction::Do(_) => d.partial && !d.complete,
        StageAction::Commit => d.partial && !d.complete,
        StageAction::ExpectOutput => d.complete,
    }
}

/// The directories after taking `acts` in order from `d`.
pub open spec fn replay(d: StageDirs, acts: Seq<StageAction>) -> StageDirs
    decreases acts.len(),
{
    if acts.len() == 0 {
        d
    } else {
        apply_action(replay(d, acts.drop_last()), acts.last())
    }
}

/// Each of `acts` can be taken when its turn comes, starting from `d`.
pub open spec fn replays_cleanly(d: StageDirs, acts: Seq<StageAction>) -> bool
    decreases acts.len(),
{
    acts.len() == 0 || (replays_cleanly(d, acts.drop_last()) && enabled(
        replay(d, acts.drop_last()),
        acts.last(),
    ))
}

/// Some step of `acts` is work of outside tools.
pub open spec fn does_work(acts: Seq<StageAction>) -> bool {
    exists|i: int| 0 <= i < acts.len() && acts[i] is Do
}

/// The directories of a committed stage.
pub open spec fn committed() -> StageDirs {
    StageDirs { complete: true, partial: false }
}

/// Neither `rebuild` nor `retry`.
pub open spec fn keep_all() -> StagePolicy {
    StagePolicy { rebuild: false, retry: false }
}

proof fn lemma_replay_append(d: StageDirs, a: Seq<StageAction>, b: Seq<StageAction>)
    ensures
        replay(d, a + b) == replay(replay(d, a), b),
        replays_cleanly(d, a + b) == (replays_cleanly(d, a) && replays_cleanly(replay(d, a), b)),
    decreases b.len(),
{
    if b.len() == 0 {
        assert(a + b =~= a);
    } else {
        assert((a + b).drop_last() =~= a + b.drop_last());
        lemma_replay_append(d, a, b.drop_last());
    }
}

proof fn lemma_replay_work(d: StageDirs, w: Seq<Work>)
    ensures
        replay(d, work_actions(w)) == d,
        d.partial && !d.complete ==> replays_cleanly(d, work_actions(w)),
    decreases w.len(),
{
    if w.len() > 0 {
        assert(work_actions(w).drop_last() =~= work_actions(w.drop_last()));
        lemma_replay_work(d, w.drop_last());
    }
}

proof fn lemma_replay_checks(d: StageDirs, verify_output: bool)
    ensures
        replay(d, check_actions(verify_output)) == d,
        d.complete ==> replays_cleanly(d, check_actions(verify_output)),
{
    let e = Seq::<StageAction>::empty();
    assert(replay(d, e) == d);
    assert(replays_cleanly(d, e));
    if verify_output {
        assert(check_actions(verify_output).drop_last() =~= e);
    }
}

proof fn lemma_replay_one(d: StageDirs, a: StageAction)
    ensures
        replay(d, seq![a]) == apply_action(d, a),
        replays_cleanly(d, seq![a]) == enabled(d, a),
{
    let e = Seq::<StageAction>::empty();
    assert(replay(d, e) == d);
    assert(replays_cleanly(d, e));
    assert(seq![a].drop_last() =~= e);
}

/// The steps of a run that is not reused, taken from the creation of the
/// partial directory.
pub open spec fn fresh_steps(work: Seq<Work>, verify_output: bool) -> Seq<StageAction> {
    seq![StageAction::CreatePartial] + work_actions(work) + seq![StageAction::Commit]
        + check_actions(verify_output)
}

/// What a run removes before it creates the partial directory.
pub open spec fn discards(discard_complete: bool, discard_partial: bool) -> Seq<StageAction> {
    (if discard_complete {
        seq![StageAction::DiscardComplete]
    } else {
        Seq::empty()
    }) + (if discard_partial {
        seq![StageAction::DiscardPartial]
    } else {
        Seq::empty()
    })
}

proof fn lemma_run_split(d: StageDirs, p: StagePolicy, work: Seq<Work>, verify_output: bool)
    requires
        plan_for(d, p) is Run,
    ensures
        stage_actions(plan_for(d, p), work, verify_output) == discards(d.complete, d.partial)
            + fresh_steps(work, verify_output),
{
    let dc = if d.complete {
        seq![StageAction::DiscardComplete]
    } else {
        Seq::empty()
    };
    let dp = if d.partial {
        seq![StageAction::DiscardPartial]
    } else {
        Seq::empty()
    };
    assert(stage_actions(plan_for(d, p), work, verify_output) =~= discards(d.complete, d.partial)
        + fresh_steps(work, verify_output));
}

proof fn lemma_discards(d: StageDirs)
    ensures
        replays_cleanly(d, discards(d.complete, d.partial)),
        replay(d, discards(d.complete, d.partial)) == (StageDirs { complete: false, partial: false }),
{
    let dc: Seq<StageAction> = if d.complete {
        seq![StageAction::DiscardComplete]
    } else {
        Seq::empty()
    };
    let dp: Seq<StageAction> = if d.partial {
        seq![StageAction::DiscardPartial]
    } else {
        Seq::empty()
    };
    lemma_replay_append(d, dc, dp);
    if d.complete {
        lemma_replay_one(d, StageAction::DiscardComplete);
    }
    let d1 = replay(d, dc);
    if d.partial {
        lemma_replay_one(d1, StageAction::DiscardPartial);
    }
}

proof fn lemma_fresh_steps(work: Seq<Work>, verify_output: bool)
    ensures
        replays_cleanly(StageDirs { complete: false, partial: false }, fresh_steps(work, verify_output)),
        replay(StageDirs { complete: false, partial: false }, fresh_steps(work, verify_output))
            == committed(),
{
    let d0 = StageDirs { complete: false, partial: false };
    let d1 = StageDirs { complete: false, partial: true };
    let c = seq![StageAction::CreatePartial];
    let w = work_actions(work);
    let m = seq![StageAction::Commit];
    let k = check_actions(verify_output);
    lemma_replay_one(d0, StageAction::CreatePartial);
    lemma_replay_work(d1, work);
    lemma_replay_one(d1, StageAction::Commit);
    lemma_replay_checks(committed(), verify_output);
    lemma_replay_append(d0, c, w);
    lemma_replay_append(d0, c + w, m);
    lemma_replay_append(d0, c + w + m, k);
}

/// A stage that runs, every step succeeding, can take each step when its
/// turn comes and ends complete, with no partial directory left.
pub proof fn lemma_run_commits(d: StageDirs, p: StagePolicy, work: Seq<Work>, verify_output: bool)
    requires
        plan_for(d, p) is Run,
    ensures
        replays_cleanly(d, stage_actions(plan_for(d, p), work, verify_output)),
        replay(d, stage_actions(plan_for(d, p), work, verify_output)) == committed(),
{
    lemma_run_split(d, p, work, verify_output);
    lemma_discards(d);
    lemma_fresh_steps(work, verify_output);
    lemma_replay_append(d, discards(d.complete, d.partial), fresh_steps(work, verify_output));
}

/// Running a stage twice without `rebuild` or `retry`, the first run
/// succeeding: the second reuses the result, does no outside work and
/// leaves the directories as the first left them.
pub proof fn lemma_rerun_does_no_work(d: StageDirs, work: Seq<Work>, verify_output: bool)
    requires
        plan_for(d, keep_all()) != StagePlan::Blocked,
    ensures
        ({
            let d1 = replay(d, stage_actions(plan_for(d, keep_all()), work, verify_output));
            let again = stage_actions(plan_for(d1, keep_all()), work, verify_output);
            &&& plan_for(d1, keep_all()) == StagePlan::Reuse
            &&& !does_work(again)
            &&& replays_cleanly(d1, again)
            &&& replay(d1, again) == d1
        }),
{
    let first = stage_actions(plan_for(d, keep_all()), work, verify_output);
    if plan_for(d, keep_all()) is Run {
        lemma_run_commits(d, keep_all(), work, verify_output);
    } else {
        lemma_replay_checks(d, verify_output);
    }
    let d1 = replay(d, first);
    lemma_replay_checks(d1, verify_output);
}

/// A stage found in progress, without `retry` (and not reused): the run
/// refuses at once and takes no step, so the partial directory stays as it
/// was.
pub proof fn lemma_partial_blocks(d: StageDirs, p: StagePolicy, work: Seq<Work>, verify_output: bool)
    requires
        d.partial,
        !p.retry,
        !(d.complete && !p.rebuild),
    ensures
        plan_for(d, p) == StagePlan::Blocked,
        stage_actions(plan_for(d, p), work, verify_output).len() == 0,
        replay(d, stage_actions(plan_for(d, p), work, verify_output)) == d,
{
}

/// A stage found in progress, with `retry` (and not reused): the partial
/// directory is removed, created anew, all the work is done in it and it is
/// committed.
pub proof fn lemma_retry_restarts(d: StageDirs, p: StagePolicy, work: Seq<Work>, verify_output: bool)
    requires
        d.partial,
        p.retry,
        !(d.complete && !p.rebuild),
    ensures
        ({
            let acts = stage_actions(plan_for(d, p), work, verify_output);
            let k: int = if d.complete {
                1
            } else {
                0
            };
            &&& acts[k] == StageAction::DiscardPartial
            &&& !replay(d, acts.take(k + 1)).partial
            &&& acts[k + 1] == StageAction::CreatePartial
            &&& acts.subrange(k + 2, k + 2 + work.len()) == work_actions(work)
            &&& acts[k + 2 + work.len()] == StageAction::Commit
            &&& replays_cleanly(d, acts)
            &&& replay(d, acts) == committed()
        }),
{
    let acts = stage_actions(plan_for(d, p), work, verify_output);
    let k: int = if d.complete {
        1
    } else {
        0
    };
    lemma_run_commits(d, p, work, verify_output);
    lemma_run_split(d, p, work, verify_output);
    let pre = discards(d.complete, d.partial);
    assert(acts.take(k + 1) =~= pre);
    lemma_discards(d);
    assert(acts.subrange(k + 2, k + 2 + work.len()) =~= work_actions(work));
}

/// A complete stage with `rebuild` (and not blocked): the canonical
/// directory is removed first, then all the work is done anew and
/// committed.
pub proof fn lemma_rebuild_restarts(d: StageDirs, p: StagePolicy, work: Seq<Work>, verify_output: bool)
    requires
        d.complete,
        p.rebuild,
        !(d.partial && !p.retry),
    ensures
        ({
            let acts = stage_actions(plan_for(d, p), work, verify_output);
            let k: int = if d.partial {
                2
            } else {
                1
            };
            &&& acts[0] == StageAction::DiscardComplete
            &&& !replay(d, acts.take(1)).complete
            &&& acts[k] == StageAction::CreatePartial
            &&& acts.subrange(k + 1, k + 1 + work.len()) == work_actions(work)
            &&& acts[k + 1 + work.len()] == StageAction::Commit
            &&& replays_cleanly(d, acts)
            &&& replay(d, acts) == committed()
        }),
{
    let acts = stage_actions(plan_for(d, p), work, verify_output);
    let k: int = if d.partial {
        2
    } else {
        1
    };
    lemma_run_commits(d, p, work, verify_output);
    lemma_run_split(d, p, work, verify_output);
    assert(acts.take(1) =~= seq![StageAction::DiscardComplete]);
    lemma_replay_one(d, StageAction::DiscardComplete);
    assert(acts.subrange(k + 1, k + 1 + work.len()) =~= work_actions(work));
}

} // verus!
