//! A run: every pair in turn, then the sweep, then the time stamp.
//!
//! The work outside the library (looking at a source, fetching an index,
//! writing to a store) is done by whoever drives the run. The library
//! decides: whether a pair is worth fetching, which stage follows on which
//! outcome, and what a whole run amounts to on a table in memory.

use vstd::prelude::*;
use crate::channel::Pair;
use crate::descriptor::{Package, PackageView, package_views};
use crate::error::RunError;
use crate::model::{TableView, reconciled, swept};
use crate::table::PackageTable;
use crate::timestamp::Timestamp;

verus! {

/// What is known of the source of a pair before anything is fetched.
#[derive(Clone, Copy, Debug, PartialEq, Eq, Structural)]
pub enum Probe {
    /// The index has to be downloaded.
    Remote,
    /// The index is a file of this machine, last modified at that time.
    Local { modified: Timestamp },
    /// The index should be a file of this machine, and is not there.
    Missing,
}

/// What to do with a pair.
#[derive(Clone, Copy, Debug, PartialEq, Eq, Structural)]
pub enum Decision {
    /// Leave the pair as it is: its source holds nothing new.
    Skip,
    /// Fetch the index and reconcile.
    Fetch,
    /// Give up: there is no index to fetch.
    Fail,
}

/// What to do with a pair whose source is as `probe` says, when the last
/// run was completed at `last_update`. A local index that was not modified
/// after the last run is skipped. A remote one is always fetched.
pub open spec fn decided(probe: Probe, last_update: Option<Timestamp>) -> Decision {
    match probe {
        Probe::Remote => Decision::Fetch,
        Probe::Missing => Decision::Fail,
        Probe::Local { modified } => match last_update {
            Some(last) => if modified.at_or_before(last) {
                Decision::Skip
            } else {
                Decision::Fetch
            },
            None => Decision::Fetch,
        },
    }
}

/// Decides what to do with a pair.
pub fn guard(probe: Probe, last_update: Option<Timestamp>) -> (r: Decision)
    ensures
        r == decided(probe, last_update),
{
    match probe {
        Probe::Remote => Decision::Fetch,
        Probe::Missing => Decision::Fail,
        Probe::Local { modified } => match last_update {
            Some(last) => if modified.is_at_or_before(&last) {
                Decision::Skip
            } else {
                Decision::Fetch
            },
            None => Decision::Fetch,
        },
    }
}

/// How far a run has come.
#[derive(Clone, Copy, Debug, PartialEq, Eq, Structural)]
pub enum Stage {
    /// The pair at that place is next.
    Visit(usize),
    /// Every pair is done; the sweep is next.
    Sweep,
    /// The sweep is done; the time stamp is next.
    Stamp,
    /// The run is complete.
    Finished,
    /// The run was given up.
    Aborted(RunError),
}

/// The stage at which a run over `pairs` pairs starts.
pub open spec fn first_stage_of(pairs: usize) -> Stage {
    if pairs > 0 {
        Stage::Visit(0)
    } else {
        Stage::Sweep
    }
}

/// The stage that follows `stage` in a run over `pairs` pairs, when the work
/// of `stage` ended in `outcome`. Any failure gives the run up, and a run
/// that has ended stays as it is.
pub open spec fn stage_after(stage: Stage, pairs: usize, outcome: Result<(), RunError>) -> Stage {
    match stage {
        Stage::Finished => Stage::Finished,
        Stage::Aborted(error) => Stage::Aborted(error),
        _ => match outcome {
            Err(error) => Stage::Aborted(error),
            Ok(_) => match stage {
                Stage::Visit(at) => if at + 1 < pairs {
                    Stage::Visit((at + 1) as usize)
                } else {
                    Stage::Sweep
                },
                Stage::Sweep => Stage::Stamp,
                _ => Stage::Finished,
            },
        },
    }
}

/// The stage at which a run over `pairs` pairs starts.
pub fn first_stage(pairs: usize) -> (r: Stage)
    ensures
        r == first_stage_of(pairs),
{
    if pairs > 0 {
        Stage::Visit(0)
    } else {
        Stage::Sweep
    }
}

/// The stage that follows `stage` when its work ended in `outcome`.
pub fn next_stage(stage: Stage, pairs: usize, outcome: Result<(), RunError>) -> (r: Stage)
    ensures
        r == stage_after(stage, pairs, outcome),
{
    match stage {
        Stage::Finished => Stage::Finished,
        Stage::Aborted(error) => Stage::Aborted(error),
        Stage::Visit(at) => match outcome {
            Err(error) => Stage::Aborted(error),
            Ok(_) => if at < pairs && at + 1 < pairs {
                Stage::Visit(at + 1)
            } else {
                Stage::Sweep
            },
        },
        Stage::Sweep => match outcome {
            Err(error) => Stage::Aborted(error),
            Ok(_) => Stage::Stamp,
        },
        Stage::Stamp => match outcome {
            Err(error) => Stage::Aborted(error),
            Ok(_) => Stage::Finished,
        },
    }
}

/// The time of the last completed run.
#[derive(Clone, Copy, Debug, PartialEq, Eq, Structural)]
pub struct RunState {
    /// When the last completed run ended, if there was one.
    pub last_update: Option<Timestamp>,
}

/// What a run finds for one pair: the state of its source, and the snapshot
/// that fetching it gives, if fetching succeeds.
#[derive(Debug)]
pub struct Job {
    pub pair: Pair,
    pub probe: Probe,
    pub snapshot: Option<Vec<Package>>,
}

/// A job as the contracts see it.
pub struct JobView {
    pub pair: Pair,
    pub probe: Probe,
    pub snapshot: Option<Seq<PackageView>>,
}

impl View for Job {
    type V = JobView;

    open spec fn view(&self) -> JobView {
        JobView {
            pair: self.pair,
            probe: self.probe,
            snapshot: match self.snapshot {
                Some(packages) => Some(package_views(packages@)),
                None => None,
            },
        }
    }
}

/// The jobs of a run as the contracts see them.
pub open spec fn job_views(jobs: Seq<Job>) -> Seq<JobView> {
    jobs.map_values(|job: Job| job@)
}

/// What one job does to the table: nothing where the pair is skipped, a
/// reconciliation of the pair's channel where its index is fetched, and a
/// failure where there is no index or fetching it fails.
pub open spec fn job_effect(table: TableView, job: JobView, last_update: Option<Timestamp>) -> Result<
    TableView,
    RunError,
> {
    match decided(job.probe, last_update) {
        Decision::Skip => Ok(table),
        Decision::Fail => Err(RunError::Fetch),
        Decision::Fetch => match job.snapshot {
            Some(snapshot) => Ok(
                reconciled(
                    table,
                    job.pair.spec_channel(),
                    job.pair.repo.category_text(),
                    snapshot,
                ),
            ),
            None => Err(RunError::Fetch),
        },
    }
}

/// What the jobs of a run do to the table, one after the other, up to the
/// first that fails: the table then, and the failure if there was one.
pub open spec fn jobs_effect(table: TableView, jobs: Seq<JobView>, last_update: Option<Timestamp>) -> (
    TableView,
    Option<RunError>,
)
    decreases jobs.len(),
{
    if jobs.len() == 0 {
        (table, None)
    } else {
        match job_effect(table, jobs[0], last_update) {
            Ok(next) => jobs_effect(next, jobs.drop_first(), last_update),
            Err(error) => (table, Some(error)),
        }
    }
}

/// Does the work of one job on a table in memory.
pub fn sync_job(table: &mut PackageTable, job: &Job, last_update: Option<Timestamp>) -> (r: Result<
    (),
    RunError,
>)
    requires
        old(table).wf(),
    ensures
        final(table).wf(),
        match job_effect(old(table)@, job@, last_update) {
            Ok(after) => r == Ok::<(), RunError>(()) && final(table)@ == after,
            Err(error) => r == Err::<(), RunError>(error) && final(table)@ == old(table)@,
        },
{
    match guard(job.probe, last_update) {
        Decision::Skip => Ok(()),
        Decision::Fail => Err(RunError::Fetch),
        Decision::Fetch => match &job.snapshot {
            Some(snapshot) => {
                table.reconcile(job.pair.channel(), job.pair.repo.category(), snapshot.as_slice());
                Ok(())
            },
            None => Err(RunError::Fetch),
        },
    }
}

/// A whole run on a table in memory, ending at `now`: the jobs in their
/// order, then the sweep, then the time stamp. The first job that fails
/// ends the run: the table stays as the jobs before it left it, and the time
/// of the last run stays as it was.
pub fn run(table: &mut PackageTable, state: &mut RunState, jobs: &[Job], now: Timestamp) -> (r:
    Result<(), RunError>)
    requires
        old(table).wf(),
    ensures
        final(table).wf(),
        match jobs_effect(old(table)@, job_views(jobs@), old(state).last_update).1 {
            Some(error) => {
                &&& r == Err::<(), RunError>(error)
                &&& final(table)@ == jobs_effect(
                    old(table)@,
                    job_views(jobs@),
                    old(state).last_update,
                ).0
                &&& *final(state) == *old(state)
            },
            None => {
                &&& r == Ok::<(), RunError>(())
                &&& final(table)@ == swept(
                    jobs_effect(old(table)@, job_views(jobs@), old(state).last_update).0,
                )
                &&& final(state).last_update == Some(now)
            },
        },
{
    let ghost views = job_views(jobs@);
    let ghost last_update = state.last_update;
    let ghost goal = jobs_effect(old(table)@, views, last_update);
    let pairs = jobs.len();
    let mut stage = first_stage(pairs);
    assert(views.skip(0) =~= views);
    loop
        invariant
            table.wf(),
            views == job_views(jobs@),
            pairs == jobs@.len(),
            last_update == old(state).last_update,
            goal == jobs_effect(old(table)@, views, last_update),
            match stage {
                Stage::Visit(at) => at < pairs && *state == *old(state) && jobs_effect(
                    table@,
                    views.skip(at as int),
                    last_update,
                ) == goal,
                Stage::Sweep => *state == *old(state) && goal == (table@, None::<RunError>),
                Stage::Stamp => *state == *old(state) && goal.1 is None && table@ == swept(goal.0),
                Stage::Finished => state.last_update == Some(now) && goal.1 is None && table@
                    == swept(goal.0),
                Stage::Aborted(error) => *state == *old(state) && goal == (table@, Some(error)),
            },
        decreases
            match stage {
                Stage::Visit(at) => pairs - at + 3,
                Stage::Sweep => 3,
                Stage::Stamp => 2,
                _ => 1int,
            },
    {
        match stage {
            Stage::Visit(at) => {
                proof {
                    assert(views.skip(at as int)[0] == jobs@[at as int]@);
                    assert(views.skip(at as int).drop_first() =~= views.skip(at + 1));
                }
                let outcome = sync_job(table, &jobs[at], state.last_update);
                assert(outcome is Ok && at + 1 == pairs ==> jobs_effect(
                    table@,
                    views.skip(at + 1),
                    last_update,
                ) == (table@, None::<RunError>));
                stage = next_stage(stage, pairs, outcome);
            },
            Stage::Sweep => {
                table.sweep();
                stage = next_stage(stage, pairs, Ok(()));
            },
            Stage::Stamp => {
                state.last_update = Some(now);
                stage = next_stage(stage, pairs, Ok(()));
            },
            Stage::Finished => {
                return Ok(());
            },
            Stage::Aborted(error) => {
                return Err(error);
            },
        }
    }
}

/// A pair whose local index was not modified after the last run is left
/// alone: its job changes nothing in the table.
pub proof fn lemma_stale_source_changes_nothing(
    table: TableView,
    job: JobView,
    modified: Timestamp,
    last_update: Timestamp,
)
    requires
        job.probe == (Probe::Local { modified }),
        modified.at_or_before(last_update),
    ensures
        job_effect(table, job, Some(last_update)) == Ok::<TableView, RunError>(table),
{
}

/// A run whose pairs are all skipped does nothing to the table before the
/// sweep.
pub proof fn lemma_skipped_pairs_change_nothing(
    table: TableView,
    jobs: Seq<JobView>,
    last_update: Option<Timestamp>,
)
    requires
        forall|i: int|
            0 <= i < jobs.len() ==> decided((#[trigger] jobs[i]).probe, last_update)
                == Decision::Skip,
    ensures
        jobs_effect(table, jobs, last_update) == (table, None::<RunError>),
    decreases jobs.len(),
{
    if jobs.len() > 0 {
        let rest = jobs.drop_first();
        assert(decided(jobs[0].probe, last_update) == Decision::Skip);
        assert forall|i: int| 0 <= i < rest.len() implies decided(
            (#[trigger] rest[i]).probe,
            last_update,
        ) == Decision::Skip by {
            assert(rest[i] == jobs[i + 1]);
        }
        lemma_skipped_pairs_change_nothing(table, rest, last_update);
    }
}

/// A run that was given up stays given up, and only a sweep that succeeds
/// leads to the time stamp.
pub proof fn lemma_stages_are_in_order(stage: Stage, pairs: usize, outcome: Result<(), RunError>)
    ensures
        stage is Aborted ==> stage_after(stage, pairs, outcome) == stage,
        outcome is Err && !(stage is Finished) ==> stage_after(stage, pairs, outcome) is Aborted,
        stage_after(stage, pairs, outcome) is Stamp ==> stage is Sweep && outcome is Ok,
        stage_after(stage, pairs, outcome) is Sweep ==> stage is Visit && outcome is Ok,
{
}

/// A run that completes leaves only rows that some channel offers.
pub proof fn lemma_completed_run_leaves_live_rows(
    table: TableView,
    jobs: Seq<JobView>,
    last_update: Option<Timestamp>,
    name: Seq<char>,
)
    requires
        jobs_effect(table, jobs, last_update).1 is None,
        swept(jobs_effect(table, jobs, last_update).0).contains_key(name),
    ensures
        swept(jobs_effect(table, jobs, last_update).0)[name].live(),
{
}

} // verus!
