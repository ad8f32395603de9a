//! The in-memory state of the job runner and the decisions it takes.
//!
//! The runner owns two collections: the queue of submitted job ids and the
//! set of live jobs, those whose process has been spawned and has not been
//! claimed yet. Removing an id from the live set is a claim on the job: the
//! exit watcher writes the job's end only where it made the claim, so a stop
//! that claimed first is not overwritten. A stop writes `Stopped` for every
//! job that has not ended, live or not; the record takes the first terminal
//! write that reaches it and ignores any later one.
//!
//! Nothing here spawns, signals or stores anything. Each function takes what
//! was observed and returns what is to be done.

use crate::job::{JobUpdate, Task, TaskStatus};
use crate::path::child_path;
use crate::text::string_views;
use vstd::prelude::*;

verus! {

/// The order in which queued jobs are taken.
#[derive(Debug, Clone, Copy, PartialEq, Eq, Structural)]
pub enum QueueDiscipline {
    /// The job submitted last runs first.
    Lifo,
    /// The job submitted first runs first.
    Fifo,
}

/// The ids of the jobs that wait to be run, in the order of submission.
pub struct JobQueue {
    ids: Vec<String>,
    discipline: QueueDiscipline,
}

impl View for JobQueue {
    type V = Seq<Seq<char>>;

    closed spec fn view(&self) -> Seq<Seq<char>> {
        string_views(self.ids@)
    }
}

/// What taking the next job leaves in a queue and hands out.
pub open spec fn taken(waiting: Seq<Seq<char>>, discipline: QueueDiscipline) -> (
    Seq<Seq<char>>,
    Option<Seq<char>>,
) {
    if waiting.len() == 0 {
        (waiting, None)
    } else {
        match discipline {
            QueueDiscipline::Lifo => (waiting.drop_last(), Some(waiting.last())),
            QueueDiscipline::Fifo => (waiting.drop_first(), Some(waiting.first())),
        }
    }
}

impl JobQueue {
    /// The discipline the queue was made with.
    pub closed spec fn order(&self) -> QueueDiscipline {
        self.discipline
    }

    /// An empty queue.
    pub fn new(discipline: QueueDiscipline) -> (queue: JobQueue)
        ensures
            queue@ == Seq::<Seq<char>>::empty(),
            queue.order() == discipline,
    {
        let queue = JobQueue { ids: Vec::new(), discipline };
        assert(queue@ =~= Seq::<Seq<char>>::empty());
        queue
    }

    /// The discipline the queue was made with.
    pub fn discipline(&self) -> (d: QueueDiscipline)
        ensures
            d == self.order(),
    {
        self.discipline
    }

    /// The number of waiting jobs.
    pub fn len(&self) -> (n: usize)
        ensures
            n == self@.len(),
    {
        self.ids.len()
    }

    /// Adds a job behind those already waiting.
    pub fn push(&mut self, id: String)
        ensures
            final(self)@ == old(self)@.push(id@),
            final(self).order() == old(self).order(),
    {
        self.ids.push(id);
        assert(self@ =~= old(self)@.push(id@));
    }

    /// Takes the next job out of the queue: the newest under
    /// [`QueueDiscipline::Lifo`], the oldest under [`QueueDiscipline::Fifo`],
    /// none from an empty queue.
    pub fn pop(&mut self) -> (next: Option<String>)
        ensures
            final(self)@ == taken(old(self)@, old(self).order()).0,
            match taken(old(self)@, old(self).order()).1 {
                Some(id) => next matches Some(s) && s@ == id,
                None => next is None,
            },
            final(self).order() == old(self).order(),
    {
        if self.ids.len() == 0 {
            return None;
        }
        match self.discipline {
            QueueDiscipline::Lifo => {
                let next = self.ids.pop();
                assert(self@ =~= old(self)@.drop_last());
                next
            },
            QueueDiscipline::Fifo => {
                let next = self.ids.remove(0);
                assert(self@ =~= old(self)@.drop_first());
                Some(next)
            },
        }
    }

    /// The waiting ids, oldest first.
    pub fn snapshot(&self) -> (ids: Vec<String>)
        ensures
            string_views(ids@) == self@,
    {
        let mut ids: Vec<String> = Vec::new();
        let mut i: usize = 0;
        while i < self.ids.len()
            invariant
                i <= self.ids.len(),
                ids@.len() == i,
                self@ == string_views(self.ids@),
                forall|k: int| 0 <= k < i ==> ids@[k]@ == self.ids@[k]@,
            decreases self.ids.len() - i,
        {
            let id: &String = &self.ids[i];
            let copy = id.clone();
            ids.push(copy);
            i += 1;
        }
        assert(string_views(ids@) =~= self@);
        ids
    }
}

/// The ids of the jobs whose process runs and whose end nobody has claimed.
pub struct LiveJobs {
    ids: Vec<String>,
}

impl View for LiveJobs {
    type V = Set<Seq<char>>;

    closed spec fn view(&self) -> Set<Seq<char>> {
        Set::new(|id: Seq<char>| exists|i: int| 0 <= i < self.ids@.len() && self.ids@[i]@ == id)
    }
}

impl LiveJobs {
    /// The invariant of the set: no id is held twice. [`LiveJobs::new`]
    /// establishes it and every method keeps it.
    pub closed spec fn well_formed(&self) -> bool {
        forall|i: int, j: int|
            0 <= i < j < self.ids@.len() ==> self.ids@[i]@ != self.ids@[j]@
    }

    /// No live jobs.
    pub fn new() -> (live: LiveJobs)
        ensures
            live@ == Set::<Seq<char>>::empty(),
            live.well_formed(),
    {
        let live = LiveJobs { ids: Vec::new() };
        assert(live@ =~= Set::<Seq<char>>::empty());
        live
    }

    fn position(&self, id: &str) -> (at: Option<usize>)
        ensures
            match at {
                Some(i) => i < self.ids@.len() && self.ids@[i as int]@ == id@,
                None => !self@.contains(id@),
            },
    {
        let wanted: String = id.to_owned();
        let mut i: usize = 0;
        while i < self.ids.len()
            invariant
                i <= self.ids.len(),
                wanted@ == id@,
                forall|j: int| 0 <= j < i ==> self.ids@[j]@ != id@,
            decreases self.ids.len() - i,
        {
            if self.ids[i] == wanted {
                return Some(i);
            }
            i += 1;
        }
        None
    }

    /// Whether the job is live.
    pub fn contains(&self, id: &str) -> (r: bool)
        ensures
            r == self@.contains(id@),
    {
        match self.position(id) {
            Some(i) => {
                assert(self.ids@[i as int]@ == id@);
                true
            },
            None => false,
        }
    }

    /// Records a job as live. Says whether it was new.
    pub fn insert(&mut self, id: String) -> (fresh: bool)
        requires
            old(self).well_formed(),
        ensures
            final(self).well_formed(),
            final(self)@ == old(self)@.insert(id@),
            fresh == !old(self)@.contains(id@),
    {
        match self.position(id.as_str()) {
            Some(i) => {
                assert(old(self).ids@[i as int]@ == id@);
                assert(self@ =~= old(self)@.insert(id@));
                false
            },
            None => {
                self.ids.push(id);
                assert forall|a: Seq<char>| self@.contains(a) <==> old(self)@.insert(id@).contains(
                    a,
                ) by {
                    if old(self)@.contains(a) {
                        let k = choose|k: int|
                            0 <= k < old(self).ids@.len() && old(self).ids@[k]@ == a;
                        assert(self.ids@[k]@ == a);
                    }
                    if a == id@ {
                        assert(self.ids@[self.ids@.len() - 1]@ == a);
                    }
                }
                assert(self@ =~= old(self)@.insert(id@));
                true
            },
        }
    }

    /// Claims a job: takes it out of the live set and says whether it was
    /// there. Of any number of claims on one live job, the first succeeds and
    /// no other does.
    pub fn remove(&mut self, id: &str) -> (claimed: bool)
        requires
            old(self).well_formed(),
        ensures
            final(self).well_formed(),
            final(self)@ == old(self)@.remove(id@),
            claimed == old(self)@.contains(id@),
    {
        match self.position(id) {
            Some(i) => {
                assert(old(self).ids@[i as int]@ == id@);
                self.ids.remove(i);
                assert forall|a: Seq<char>| self@.contains(a) <==> old(self)@.remove(id@).contains(
                    a,
                ) by {
                    if self@.contains(a) {
                        let k = choose|k: int| 0 <= k < self.ids@.len() && self.ids@[k]@ == a;
                        if k < i {
                            assert(old(self).ids@[k]@ == a);
                        } else {
                            assert(old(self).ids@[k + 1]@ == a);
                        }
                    }
                    if old(self)@.remove(id@).contains(a) {
                        let k = choose|k: int|
                            0 <= k < old(self).ids@.len() && old(self).ids@[k]@ == a;
                        if k < i {
                            assert(self.ids@[k]@ == a);
                        } else {
                            assert(self.ids@[k - 1]@ == a);
                        }
                    }
                }
                assert(self@ =~= old(self)@.remove(id@));
                true
            },
            None => {
                assert(self@ =~= old(self)@.remove(id@));
                false
            },
        }
    }
}

/// The request by which a job is submitted.
#[derive(Debug)]
pub struct CreateTaskRequest {
    pub command: String,
    pub conda_env: Option<String>,
    pub working_dir: Option<String>,
}

/// The record of a freshly submitted job: queued, created at `now`, in the
/// requested environment or, where none was requested, the default one.
pub fn prepare_task(
    request: CreateTaskRequest,
    id: String,
    default_conda_env: &str,
    now: i64,
) -> (task: Task)
    ensures
        task.id == id,
        task.command == request.command,
        task.name@ == crate::job::task_name(request.command@),
        task.conda_env matches Some(env) && env@ == (match request.conda_env {
            Some(e) => e@,
            None => default_conda_env@,
        }),
        task.working_dir == request.working_dir,
        task.status == TaskStatus::Queued,
        task.created_at == now,
        task.pid is None && task.started_at is None && task.finished_at is None
            && task.log_path is None,
        task.well_formed(),
{
    let env = match request.conda_env {
        Some(e) => e,
        None => default_conda_env.to_owned(),
    };
    Task::new(id, request.command, Some(env), request.working_dir, now)
}

/// What is needed to start a job's process.
#[derive(Debug)]
pub struct LaunchSpec {
    /// The shell command, run as `bash -c <command>`.
    pub command: String,
    /// The directory in which the process starts.
    pub working_dir: String,
    /// The job's own directory below the output path.
    pub log_dir: String,
    /// The file that receives the process's output.
    pub log_path: String,
}

/// What the runner does with a job it took from the queue.
#[derive(Debug)]
pub enum Launch {
    /// The job is not queued any more: nothing is done.
    Skip,
    /// The job is to be spawned.
    Spawn(LaunchSpec),
}

/// The runner's decision on a job taken from the queue. Only a job that is
/// still `Queued` is spawned; it gets a directory named by its id below the
/// output path, a log file `task.log` in it, and its own working directory or
/// else the default one.
pub fn plan_launch(job: &Task, output_path: &str, default_working_dir: &str) -> (launch: Launch)
    ensures
        job.status != TaskStatus::Queued ==> launch is Skip,
        job.status == TaskStatus::Queued ==> (launch matches Launch::Spawn(spec) && {
            &&& spec.command@ == job.command@
            &&& spec.working_dir@ == (match job.working_dir {
                Some(d) => d@,
                None => default_working_dir@,
            })
            &&& spec.log_dir@ == child_path(output_path@, job.id@)
            &&& spec.log_path@ == child_path(spec.log_dir@, "task.log"@)
        }),
{
    match job.status {
        TaskStatus::Queued => {
            let working_dir = match &job.working_dir {
                Some(d) => d.clone(),
                None => default_working_dir.to_owned(),
            };
            let log_dir = crate::path::join_path(output_path, job.id.as_str());
            let log_path = crate::path::join_path(log_dir.as_str(), "task.log");
            Launch::Spawn(LaunchSpec { command: job.command.clone(), working_dir, log_dir, log_path })
        },
        _ => Launch::Skip,
    }
}

/// The process group that a stop signals: the negated process id, where the
/// job has one that is positive and fits the signal call.
pub open spec fn signal_target(pid: Option<i64>) -> Option<i32> {
    match pid {
        Some(p) => if 0 < p <= i32::MAX {
            Some((-p) as i32)
        } else {
            None
        },
        None => None,
    }
}

/// Whether a stop request writes the terminal status: for every job that
/// has not ended. An ended job is left as it is.
pub open spec fn stop_writes(status: TaskStatus) -> bool {
    !status.terminal()
}

/// The write of a stop request, if it makes one.
pub open spec fn stop_update(status: TaskStatus, now: i64) -> Option<JobUpdate> {
    if stop_writes(status) {
        Some(JobUpdate::Finished { status: TaskStatus::Stopped, finished_at: now })
    } else {
        None
    }
}

/// The write of the exit watcher, if it makes one: only where it claimed the
/// job, and then `Completed` for a successful exit and `Failed` otherwise.
pub open spec fn exit_update(claimed: bool, success: bool, now: i64) -> Option<JobUpdate> {
    if claimed {
        Some(
            JobUpdate::Finished {
                status: if success {
                    TaskStatus::Completed
                } else {
                    TaskStatus::Failed
                },
                finished_at: now,
            },
        )
    } else {
        None
    }
}

/// What a stop request does.
#[derive(Debug)]
pub struct StopPlan {
    /// The process group to kill, as the negative number handed to the
    /// signal call. A failure to signal is not an error.
    pub signal_group: Option<i32>,
    /// The write to the job's record, if any.
    pub update: Option<JobUpdate>,
}

/// The plan of a stop request, made after the claim on the live set from
/// the job's record as it was read then. The process group of the job is
/// signalled where the record names one, and `Stopped` is written with the
/// time of the stop unless the job has ended.
pub fn plan_stop(job: &Task, now: i64) -> (plan: StopPlan)
    ensures
        plan.signal_group == signal_target(job.pid),
        plan.update == stop_update(job.status, now),
{
    let signal_group = match job.pid {
        Some(p) => if 0 < p && p <= 0x7fff_ffff {
            let group: i32 = (-p) as i32;
            Some(group)
        } else {
            None
        },
        None => None,
    };
    let update = if !job.status.is_terminal() {
        Some(JobUpdate::Finished { status: TaskStatus::Stopped, finished_at: now })
    } else {
        None
    };
    StopPlan { signal_group, update }
}

/// The write of the exit watcher once the process has ended.
///
/// `claimed` is what [`TaskManager::claim`] answered for this job.
pub fn plan_exit(claimed: bool, success: bool, now: i64) -> (update: Option<JobUpdate>)
    ensures
        update == exit_update(claimed, success, now),
{
    if claimed {
        let status = if success {
            TaskStatus::Completed
        } else {
            TaskStatus::Failed
        };
        Some(JobUpdate::Finished { status, finished_at: now })
    } else {
        None
    }
}

/// The runner's in-memory state: the queue and the live set.
pub struct TaskManager {
    queue: JobQueue,
    live: LiveJobs,
}

impl TaskManager {
    /// The ids that wait, oldest first.
    pub closed spec fn waiting(&self) -> Seq<Seq<char>> {
        self.queue@
    }

    /// The ids of the live jobs.
    pub closed spec fn live(&self) -> Set<Seq<char>> {
        self.live@
    }

    /// The order in which waiting jobs are taken.
    pub closed spec fn order(&self) -> QueueDiscipline {
        self.queue.order()
    }

    /// The invariant of the state, which [`TaskManager::new`] establishes
    /// and every method keeps.
    pub closed spec fn well_formed(&self) -> bool {
        self.live.well_formed()
    }

    /// A runner with nothing queued and nothing live.
    pub fn new(discipline: QueueDiscipline) -> (manager: TaskManager)
        ensures
            manager.well_formed(),
            manager.waiting() == Seq::<Seq<char>>::empty(),
            manager.live() == Set::<Seq<char>>::empty(),
            manager.order() == discipline,
    {
        TaskManager { queue: JobQueue::new(discipline), live: LiveJobs::new() }
    }

    /// Ends a submission. `stored` says whether the job's record was written.
    /// Only a stored job enters the queue; the answer is `stored`.
    pub fn accept(&mut self, id: String, stored: bool) -> (queued: bool)
        requires
            old(self).well_formed(),
        ensures
            final(self).well_formed(),
            queued == stored,
            final(self).waiting() == (if stored {
                old(self).waiting().push(id@)
            } else {
                old(self).waiting()
            }),
            final(self).live() == old(self).live(),
            final(self).order() == old(self).order(),
    {
        if stored {
            self.queue.push(id);
        }
        stored
    }

    /// Takes the next job to run out of the queue.
    pub fn next_job(&mut self) -> (next: Option<String>)
        requires
            old(self).well_formed(),
        ensures
            final(self).well_formed(),
            final(self).waiting() == taken(old(self).waiting(), old(self).order()).0,
            match taken(old(self).waiting(), old(self).order()).1 {
                Some(id) => next matches Some(s) && s@ == id,
                None => next is None,
            },
            final(self).live() == old(self).live(),
            final(self).order() == old(self).order(),
    {
        self.queue.pop()
    }

    /// Ends a launch. `stored` says whether the job's record was written as
    /// running. Only then does the job become live; the answer is `stored`.
    pub fn register(&mut self, id: String, stored: bool) -> (live: bool)
        requires
            old(self).well_formed(),
        ensures
            final(self).well_formed(),
            live == stored,
            final(self).live() == (if stored {
                old(self).live().insert(id@)
            } else {
                old(self).live()
            }),
            final(self).waiting() == old(self).waiting(),
            final(self).order() == old(self).order(),
    {
        if stored {
            let _ = self.live.insert(id);
        }
        stored
    }

    /// Claims a job by taking it out of the live set. The answer is whether
    /// the job was live: the first claim on a live job succeeds and every
    /// later one fails. A stop claims before it reads the job's record, so
    /// that the exit watcher, seeing the job claimed, writes nothing.
    pub fn claim(&mut self, id: &str) -> (claimed: bool)
        requires
            old(self).well_formed(),
        ensures
            final(self).well_formed(),
            claimed == old(self).live().contains(id@),
            final(self).live() == old(self).live().remove(id@),
            final(self).waiting() == old(self).waiting(),
            final(self).order() == old(self).order(),
    {
        self.live.remove(id)
    }

    /// Drops a job from the live set, as the removal of its record does.
    pub fn forget(&mut self, id: &str)
        requires
            old(self).well_formed(),
        ensures
            final(self).well_formed(),
            final(self).live() == old(self).live().remove(id@),
            final(self).waiting() == old(self).waiting(),
            final(self).order() == old(self).order(),
    {
        let _ = self.live.remove(id);
    }

    /// Whether a job is live.
    pub fn is_live(&self, id: &str) -> (r: bool)
        ensures
            r == self.live().contains(id@),
    {
        self.live.contains(id)
    }

    /// The exit watcher's step: claims the job and says what to write.
    pub fn exited(&mut self, id: &str, success: bool, now: i64) -> (update: Option<JobUpdate>)
        requires
            old(self).well_formed(),
        ensures
            final(self).well_formed(),
            update == exit_update(old(self).live().contains(id@), success, now),
            final(self).live() == old(self).live().remove(id@),
            final(self).waiting() == old(self).waiting(),
            final(self).order() == old(self).order(),
    {
        let claimed = self.live.remove(id);
        plan_exit(claimed, success, now)
    }

    /// The waiting ids, oldest first.
    pub fn queued_ids(&self) -> (ids: Vec<String>)
        ensures
            string_views(ids@) == self.waiting(),
    {
        self.queue.snapshot()
    }
}

} // verus!
