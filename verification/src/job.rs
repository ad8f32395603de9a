//! Job records and the states they pass through.
//!
//! A job is created `Queued`, becomes `Running` when its process is spawned,
//! and ends `Completed`, `Failed` or `Stopped`. Times are milliseconds since
//! the Unix epoch. The times of a record never go back: a write whose clock
//! reading lies before the latest time the record holds is stored with that
//! latest time.

use crate::text::{chars_of, has_prefix, slice_of, split_words, starts_with, string_of, words};
use vstd::prelude::*;

verus! {

/// Where a job stands in its lifecycle.
#[derive(Debug, Clone, Copy, PartialEq, Eq, Structural)]
pub enum TaskStatus {
    Queued,
    Running,
    Completed,
    Failed,
    Stopped,
}

impl TaskStatus {
    /// The job has ended: nothing changes its record any more.
    pub open spec fn terminal(self) -> bool {
        self == TaskStatus::Completed || self == TaskStatus::Failed || self == TaskStatus::Stopped
    }

    /// Whether the job has ended.
    pub fn is_terminal(self) -> (r: bool)
        ensures
            r == self.terminal(),
    {
        match self {
            TaskStatus::Completed | TaskStatus::Failed | TaskStatus::Stopped => true,
            _ => false,
        }
    }

    /// The lower-case name under which a status is stored and sent.
    pub open spec fn label(self) -> Seq<char> {
        match self {
            TaskStatus::Queued => "queued"@,
            TaskStatus::Running => "running"@,
            TaskStatus::Completed => "completed"@,
            TaskStatus::Failed => "failed"@,
            TaskStatus::Stopped => "stopped"@,
        }
    }

    /// The stored name of the status.
    pub fn as_str(self) -> (r: &'static str)
        ensures
            r@ == self.label(),
    {
        match self {
            TaskStatus::Queued => "queued",
            TaskStatus::Running => "running",
            TaskStatus::Completed => "completed",
            TaskStatus::Failed => "failed",
            TaskStatus::Stopped => "stopped",
        }
    }

    /// The status with the given stored name, if there is one.
    pub fn from_label(label: &str) -> (r: Option<TaskStatus>)
        ensures
            match r {
                Some(status) => label@ == status.label(),
                None => forall|status: TaskStatus| label@ != status.label(),
            },
    {
        let v = chars_of(label);
        if crate::text::same_chars(&v, &chars_of("queued")) {
            Some(TaskStatus::Queued)
        } else if crate::text::same_chars(&v, &chars_of("running")) {
            Some(TaskStatus::Running)
        } else if crate::text::same_chars(&v, &chars_of("completed")) {
            Some(TaskStatus::Completed)
        } else if crate::text::same_chars(&v, &chars_of("failed")) {
            Some(TaskStatus::Failed)
        } else if crate::text::same_chars(&v, &chars_of("stopped")) {
            Some(TaskStatus::Stopped)
        } else {
            None
        }
    }
}

/// The statuses a record may move between. Nothing leaves a terminal status.
pub open spec fn allowed(from: TaskStatus, to: TaskStatus) -> bool {
    match (from, to) {
        (TaskStatus::Queued, TaskStatus::Running) => true,
        (TaskStatus::Queued, TaskStatus::Stopped) => true,
        (TaskStatus::Running, TaskStatus::Completed) => true,
        (TaskStatus::Running, TaskStatus::Failed) => true,
        (TaskStatus::Running, TaskStatus::Stopped) => true,
        _ => false,
    }
}

/// One submitted, trackable run of a command.
#[derive(Debug, Clone)]
pub struct Task {
    pub id: String,
    pub name: String,
    pub command: String,
    pub conda_env: Option<String>,
    pub working_dir: Option<String>,
    pub status: TaskStatus,
    pub pid: Option<i64>,
    pub created_at: i64,
    pub started_at: Option<i64>,
    pub finished_at: Option<i64>,
    pub log_path: Option<String>,
}

/// A write to a job's record.
#[derive(Debug, Clone)]
pub enum JobUpdate {
    /// The process was spawned.
    Started { started_at: i64, log_path: Option<String>, pid: Option<i64> },
    /// The job ended with the given terminal status.
    Finished { status: TaskStatus, finished_at: i64 },
}

impl JobUpdate {
    /// The status the update asks for.
    pub open spec fn target(self) -> TaskStatus {
        match self {
            JobUpdate::Started { .. } => TaskStatus::Running,
            JobUpdate::Finished { status, .. } => status,
        }
    }

    /// Whether the write takes effect on a record in the given status: a
    /// start only on a queued job, an end only with a terminal status and by
    /// a move that is [`allowed`].
    pub open spec fn applies_to(self, from: TaskStatus) -> bool {
        match self {
            JobUpdate::Started { .. } => from == TaskStatus::Queued,
            JobUpdate::Finished { status, .. } => status.terminal() && allowed(from, status),
        }
    }

    /// The statuses on which the write takes effect.
    pub fn applicable_from(&self) -> (from: Vec<TaskStatus>)
        ensures
            forall|status: TaskStatus| from@.contains(status) <==> self.applies_to(status),
    {
        let mut from: Vec<TaskStatus> = Vec::new();
        match self {
            JobUpdate::Started { .. } => {
                from.push(TaskStatus::Queued);
                assert(from@[0] == TaskStatus::Queued);
            },
            JobUpdate::Finished { status, .. } => match status {
                TaskStatus::Stopped => {
                    from.push(TaskStatus::Queued);
                    from.push(TaskStatus::Running);
                    assert(from@[0] == TaskStatus::Queued);
                    assert(from@[1] == TaskStatus::Running);
                },
                TaskStatus::Completed | TaskStatus::Failed => {
                    from.push(TaskStatus::Running);
                    assert(from@[0] == TaskStatus::Running);
                },
                _ => {},
            },
        }
        from
    }

    /// The time the update carries.
    pub open spec fn at(self) -> i64 {
        match self {
            JobUpdate::Started { started_at, .. } => started_at,
            JobUpdate::Finished { finished_at, .. } => finished_at,
        }
    }
}

/// The later of two times.
pub open spec fn later(a: i64, b: i64) -> i64 {
    if a >= b {
        a
    } else {
        b
    }
}

fn later_of(a: i64, b: i64) -> (r: i64)
    ensures
        r == later(a, b),
{
    if a >= b {
        a
    } else {
        b
    }
}

fn copy_text(s: &Option<String>) -> (r: Option<String>)
    ensures
        r == *s,
{
    match s {
        Some(t) => Some(t.clone()),
        None => None,
    }
}

impl Task {
    /// The invariant of a job record: a queued job has not started, a job
    /// that ran has a start time, exactly the ended jobs have a finish time, a
    /// process id or log path implies a start, and the times that are set are
    /// in order.
    pub open spec fn well_formed(self) -> bool {
        &&& self.status == TaskStatus::Queued ==> self.started_at is None && self.pid is None
            && self.log_path is None
        &&& (self.status == TaskStatus::Running || self.status == TaskStatus::Completed
            || self.status == TaskStatus::Failed) ==> self.started_at is Some
        &&& self.finished_at is Some <==> self.status.terminal()
        &&& (self.pid is Some || self.log_path is Some) ==> self.started_at is Some
        &&& self.started_at matches Some(s) ==> self.created_at <= s
        &&& self.finished_at matches Some(f) ==> self.created_at <= f && (
        self.started_at matches Some(s) ==> s <= f)
    }

    /// The latest time the record holds.
    pub open spec fn latest(self) -> i64 {
        match self.finished_at {
            Some(f) => f,
            None => match self.started_at {
                Some(s) => s,
                None => self.created_at,
            },
        }
    }

    /// The record after a write. A write that does not apply to the record's
    /// status changes nothing. One that applies sets the status and stores
    /// its time, or the record's latest time where that is later.
    pub open spec fn after(self, update: JobUpdate) -> Task {
        if !update.applies_to(self.status) {
            self
        } else {
            match update {
                JobUpdate::Started { started_at, log_path, pid } => Task {
                    status: TaskStatus::Running,
                    started_at: Some(later(started_at, self.latest())),
                    log_path: log_path,
                    pid: pid,
                    ..self
                },
                JobUpdate::Finished { status, finished_at } => Task {
                    status: status,
                    finished_at: Some(later(finished_at, self.latest())),
                    ..self
                },
            }
        }
    }

    /// The latest time the record holds.
    pub fn latest_time(&self) -> (t: i64)
        ensures
            t == self.latest(),
    {
        match self.finished_at {
            Some(f) => f,
            None => match self.started_at {
                Some(s) => s,
                None => self.created_at,
            },
        }
    }

    /// A new job, as submission creates it: queued, with the name taken from
    /// the command and no process, log or later times.
    pub fn new(
        id: String,
        command: String,
        conda_env: Option<String>,
        working_dir: Option<String>,
        now: i64,
    ) -> (task: Task)
        ensures
            task.id == id,
            task.command == command,
            task.name@ == task_name(command@),
            task.conda_env == conda_env,
            task.working_dir == working_dir,
            task.status == TaskStatus::Queued,
            task.pid is None,
            task.created_at == now,
            task.started_at is None,
            task.finished_at is None,
            task.log_path is None,
            task.well_formed(),
    {
        let name = extract_task_name(command.as_str());
        Task {
            id,
            name,
            command,
            conda_env,
            working_dir,
            status: TaskStatus::Queued,
            pid: None,
            created_at: now,
            started_at: None,
            finished_at: None,
            log_path: None,
        }
    }

    /// Applies a write to the record and says whether it took effect. A write
    /// that would leave a terminal status, or skip a step, is ignored. A well
    /// formed record stays well formed, whatever the clock read.
    pub fn apply(&mut self, update: &JobUpdate) -> (applied: bool)
        ensures
            *final(self) == old(self).after(*update),
            applied == update.applies_to(old(self).status),
            old(self).well_formed() ==> final(self).well_formed(),
    {
        let latest = self.latest_time();
        let ok = match (self.status, update) {
            (TaskStatus::Queued, JobUpdate::Started { .. }) => true,
            (TaskStatus::Queued, JobUpdate::Finished { status: TaskStatus::Stopped, .. }) => true,
            (TaskStatus::Running, JobUpdate::Finished { status: TaskStatus::Completed, .. }) => true,
            (TaskStatus::Running, JobUpdate::Finished { status: TaskStatus::Failed, .. }) => true,
            (TaskStatus::Running, JobUpdate::Finished { status: TaskStatus::Stopped, .. }) => true,
            _ => false,
        };
        if ok {
            match update {
                JobUpdate::Started { started_at: at, log_path: path, pid: process } => {
                    self.status = TaskStatus::Running;
                    self.started_at = Some(later_of(*at, latest));
                    self.log_path = copy_text(path);
                    self.pid = *process;
                },
                JobUpdate::Finished { status: end, finished_at: at } => {
                    self.status = *end;
                    self.finished_at = Some(later_of(*at, latest));
                },
            }
        }
        ok
    }
}

/// The name shown for a job: what follows `--task=` in the first word of the
/// command that begins so, and `Training Task` where no word does.
pub open spec fn task_name(command: Seq<char>) -> Seq<char> {
    name_among(words(command))
}

/// The name given by the first word that begins with `--task=`.
pub open spec fn name_among(parts: Seq<Seq<char>>) -> Seq<char>
    decreases parts.len(),
{
    if parts.len() == 0 {
        "Training Task"@
    } else if starts_with(parts[0], "--task="@) {
        parts[0].skip("--task="@.len() as int)
    } else {
        name_among(parts.drop_first())
    }
}

/// The display name of a job, taken from its command.
pub fn extract_task_name(command: &str) -> (name: String)
    ensures
        name@ == task_name(command@),
{
    let v = chars_of(command);
    let parts = split_words(&v);
    let flag = chars_of("--task=");
    let mut i: usize = 0;
    assert(words(command@).skip(0) == words(command@));
    while i < parts.len()
        invariant
            i <= parts.len(),
            flag@ == "--task="@,
            crate::text::views(parts@) == words(command@),
            name_among(words(command@)) == name_among(words(command@).skip(i as int)),
        decreases parts.len() - i,
    {
        let part = &parts[i];
        proof {
            let rest = words(command@).skip(i as int);
            assert(rest[0] == part@);
            assert(rest.drop_first() == words(command@).skip(i + 1));
        }
        if has_prefix(part, &flag) {
            let tail = slice_of(part, flag.len(), part.len());
            assert(tail@ == part@.skip(flag@.len() as int));
            return string_of(&tail);
        }
        i += 1;
    }
    string_of(&chars_of("Training Task"))
}

} // verus!
