//! Laws of the job lifecycle, proved from the contracts of
//! [`crate::job`] and [`crate::runner`].

use crate::job::{allowed, later, JobUpdate, Task, TaskStatus};
use crate::runner::{exit_update, stop_update};
use vstd::prelude::*;

verus! {

/// The record after a series of writes, applied in order.
pub open spec fn after_all(job: Task, updates: Seq<JobUpdate>) -> Task
    decreases updates.len(),
{
    if updates.len() == 0 {
        job
    } else {
        after_all(job, updates.drop_last()).after(updates.last())
    }
}

/// A write keeps a record well formed, so its creation, start and finish stay
/// in order, whatever the clock read; it changes no time that was set; and
/// where the clock did not go back it stores the clock's reading.
pub proof fn lemma_write_keeps_order(job: Task, update: JobUpdate)
    requires
        job.well_formed(),
    ensures
        job.after(update).well_formed(),
        job.after(update).created_at == job.created_at,
        job.started_at is Some ==> job.after(update).started_at == job.started_at,
        job.finished_at is Some ==> job.after(update).finished_at == job.finished_at,
        job.latest() <= job.after(update).latest(),
        update.applies_to(job.status) ==> job.after(update).latest() == later(
            update.at(),
            job.latest(),
        ),
        update.applies_to(job.status) && job.latest() <= update.at() ==> job.after(update).latest()
            == update.at(),
{
}

/// Every record that grows out of a well formed one is well formed: its
/// creation, start and finish are in order, and no write changes or clears a
/// time that an earlier one set.
pub proof fn lemma_history_keeps_order(job: Task, updates: Seq<JobUpdate>)
    requires
        job.well_formed(),
    ensures
        after_all(job, updates).well_formed(),
        after_all(job, updates).created_at == job.created_at,
        job.started_at is Some ==> after_all(job, updates).started_at == job.started_at,
        job.finished_at is Some ==> after_all(job, updates).finished_at == job.finished_at,
        job.latest() <= after_all(job, updates).latest(),
    decreases updates.len(),
{
    if updates.len() > 0 {
        lemma_history_keeps_order(job, updates.drop_last());
        lemma_write_keeps_order(after_all(job, updates.drop_last()), updates.last());
    }
}

/// A job that ended on its own has finished no earlier than it started, and
/// it has a finish time exactly because its status is terminal.
pub proof fn lemma_exit_finishes_after_start(job: Task, success: bool, now: i64)
    requires
        job.well_formed(),
        job.status == TaskStatus::Running,
    ensures
        ({
            let end = job.after(exit_update(true, success, now)->0);
            &&& end.status == (if success {
                TaskStatus::Completed
            } else {
                TaskStatus::Failed
            })
            &&& end.started_at == job.started_at
            &&& end.finished_at matches Some(f) && f >= job.started_at->0
            &&& job.started_at->0 <= now ==> end.finished_at == Some(now)
        }),
{
}

/// Nothing leaves a terminal status: a write to an ended job changes nothing.
pub proof fn lemma_ended_is_final(job: Task, update: JobUpdate)
    requires
        job.status.terminal(),
    ensures
        job.after(update) == job,
{
}

/// A write never takes a record backwards: the status after it is the one
/// before or one that is [`allowed`] to follow it.
pub proof fn lemma_write_moves_forward(job: Task, update: JobUpdate)
    ensures
        job.after(update).status == job.status || allowed(job.status, job.after(update).status),
{
}

/// A job is spawned at most once: once its start is written it is no longer
/// `Queued`, and the runner spawns only jobs that are.
pub proof fn lemma_started_once(job: Task, started_at: i64, log_path: Option<String>, pid: Option<i64>)
    requires
        job.status == TaskStatus::Queued,
    ensures
        job.after(JobUpdate::Started { started_at, log_path, pid }).status == TaskStatus::Running,
        forall|update: JobUpdate|
            update is Started ==> job.after(JobUpdate::Started { started_at, log_path, pid }).after(
                update,
            ) == job.after(JobUpdate::Started { started_at, log_path, pid }),
{
}

/// A stop of a job that has not ended, queued or running, live or not,
/// writes `Stopped` with the time of the stop. The record then holds that
/// status and, under a clock that did not go back, that time; its creation
/// and start are as they were.
pub proof fn lemma_stop_ends_job(job: Task, now: i64)
    requires
        job.well_formed(),
        !job.status.terminal(),
    ensures
        stop_update(job.status, now) == Some(
            JobUpdate::Finished { status: TaskStatus::Stopped, finished_at: now },
        ),
        ({
            let end = job.after(stop_update(job.status, now)->0);
            &&& end.status == TaskStatus::Stopped
            &&& end.finished_at == Some(later(now, job.latest()))
            &&& job.latest() <= now ==> end.finished_at == Some(now)
            &&& end.created_at == job.created_at
            &&& end.started_at == job.started_at
            &&& end.well_formed()
        }),
{
}

/// Stopping a job that has ended writes nothing, and a `Stopped` write that
/// reached the record all the same would leave it as it is: `Completed` and
/// `Failed` are never overwritten.
pub proof fn lemma_stop_spares_ended(job: Task, now: i64)
    requires
        job.status.terminal(),
    ensures
        stop_update(job.status, now) is None,
        job.after(JobUpdate::Finished { status: TaskStatus::Stopped, finished_at: now }) == job,
{
}

/// The record after a write that may be missing.
pub open spec fn after_maybe(job: Task, write: Option<JobUpdate>) -> Task {
    match write {
        Some(update) => job.after(update),
        None => job,
    }
}

/// The write is there and takes effect on the record.
pub open spec fn takes_effect(job: Task, write: Option<JobUpdate>) -> bool {
    write matches Some(update) && update.applies_to(job.status)
}

/// What the stop request and the exit watcher write when both act on one live
/// job. `stop_first` says which of them made its claim first. `observed` is
/// the status the stop request read after its claim.
pub open spec fn race_writes(
    live: Set<Seq<char>>,
    id: Seq<char>,
    stop_first: bool,
    observed: TaskStatus,
    success: bool,
    stop_time: i64,
    exit_time: i64,
) -> (Option<JobUpdate>, Option<JobUpdate>) {
    let first_claim = live.contains(id);
    let second_claim = live.remove(id).contains(id);
    (
        stop_update(observed, stop_time),
        exit_update(
            if stop_first {
                second_claim
            } else {
                first_claim
            },
            success,
            exit_time,
        ),
    )
}

/// A stop request and the natural exit of one running, live job, in either
/// order of their claims and in either order in which their writes reach the
/// record, end in exactly one terminal write that takes effect.
///
/// Where the stop claimed first, the exit writes nothing and the job ends
/// `Stopped`. Where the exit claimed first, the stop may still write, if it
/// read the record before the exit's write reached it; then the write that
/// reaches the record first takes effect and the other is ignored. Never do
/// both take effect.
pub proof fn lemma_race_has_one_effect(
    job: Task,
    live: Set<Seq<char>>,
    id: Seq<char>,
    stop_first: bool,
    observed: TaskStatus,
    success: bool,
    stop_time: i64,
    exit_time: i64,
    stop_lands_first: bool,
)
    requires
        job.status == TaskStatus::Running,
        live.contains(id),
        observed == TaskStatus::Running || (!stop_first && !stop_lands_first && observed == (
        if success {
            TaskStatus::Completed
        } else {
            TaskStatus::Failed
        })),
    ensures
        ({
            let (by_stop, by_exit) = race_writes(
                live,
                id,
                stop_first,
                observed,
                success,
                stop_time,
                exit_time,
            );
            let (first, second) = if stop_lands_first {
                (by_stop, by_exit)
            } else {
                (by_exit, by_stop)
            };
            let mid = after_maybe(job, first);
            let end = after_maybe(mid, second);
            &&& takes_effect(job, first) != takes_effect(mid, second)
            &&& end.status.terminal()
            &&& stop_first ==> by_exit is None && end.status == TaskStatus::Stopped
            &&& !stop_first && !stop_lands_first ==> end.status != TaskStatus::Stopped
            &&& end.status == TaskStatus::Stopped <==> takes_effect(
                if stop_lands_first {
                    job
                } else {
                    mid
                },
                by_stop,
            )
        }),
{
}

} // verus!
