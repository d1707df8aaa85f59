//! The task entity and its state machine: what a task is, how a creation
//! request turns into one, and how the relational store's row is built.

use vstd::prelude::*;

verus! {

/// A value of `int` clamped to the range of `i64`, the precision the
/// stores keep timestamps at.
pub open spec fn clamp_i64(x: int) -> int {
    if x > i64::MAX {
        i64::MAX as int
    } else if x < i64::MIN {
        i64::MIN as int
    } else {
        x
    }
}

/// An optional offset read as a number of units, with absence meaning zero.
pub open spec fn or_zero(x: Option<i64>) -> int {
    match x {
        Some(v) => v as int,
        None => 0,
    }
}

/// The closed set of job kinds. Dispatch selects a handler by this tag;
/// adding a kind means adding one arm to the lookup functions, no change
/// to any dispatch logic.
#[derive(Clone, Copy, Debug, PartialEq, Eq, Structural)]
pub enum TaskType {
    Fizz,
    Buzz,
    FizzBuzz,
}

/// Where a task stands in its lifecycle. `Scheduled` tasks wait for their
/// due time, `Queued` tasks are ready to claim, `Running` tasks are held
/// by exactly one worker.
#[derive(Clone, Copy, Debug, PartialEq, Eq, Structural)]
pub enum TaskState {
    Running,
    Queued,
    Scheduled,
}

impl TaskType {
    /// The integer code a task kind is stored under in the relational store.
    pub open spec fn spec_code(self) -> i32 {
        match self {
            TaskType::Fizz => 1,
            TaskType::Buzz => 2,
            TaskType::FizzBuzz => 3,
        }
    }

    /// The integer code a task kind is stored under in the relational store.
    pub fn code(self) -> (r: i32)
        ensures
            r == self.spec_code(),
    {
        match self {
            TaskType::Fizz => 1,
            TaskType::Buzz => 2,
            TaskType::FizzBuzz => 3,
        }
    }

    /// Reads a kind back from its stored code; codes outside the closed
    /// set have no kind.
    pub fn from_code(code: i32) -> (r: Option<TaskType>)
        ensures
            match r {
                Some(t) => t.spec_code() == code,
                None => forall|t: TaskType| t.spec_code() != code,
            },
    {
        if code == 1 {
            Some(TaskType::Fizz)
        } else if code == 2 {
            Some(TaskType::Buzz)
        } else if code == 3 {
            Some(TaskType::FizzBuzz)
        } else {
            None
        }
    }
}

impl TaskState {
    /// The integer code a task state is stored under in the relational store.
    pub open spec fn spec_code(self) -> i32 {
        match self {
            TaskState::Running => 1,
            TaskState::Queued => 2,
            TaskState::Scheduled => 3,
        }
    }

    /// The integer code a task state is stored under in the relational store.
    pub fn code(self) -> (r: i32)
        ensures
            r == self.spec_code(),
    {
        match self {
            TaskState::Running => 1,
            TaskState::Queued => 2,
            TaskState::Scheduled => 3,
        }
    }

    /// Reads a state back from its stored code; codes outside the closed
    /// set have no state.
    pub fn from_code(code: i32) -> (r: Option<TaskState>)
        ensures
            match r {
                Some(s) => s.spec_code() == code,
                None => forall|s: TaskState| s.spec_code() != code,
            },
    {
        if code == 1 {
            Some(TaskState::Running)
        } else if code == 2 {
            Some(TaskState::Queued)
        } else if code == 3 {
            Some(TaskState::Scheduled)
        } else {
            None
        }
    }
}

/// What a client asks for when creating a task: the kind of work and an
/// optional deferral, given as second, minute and hour offsets from now.
#[derive(Clone, Copy, Debug)]
pub struct CreateTaskRequest {
    pub _type: TaskType,
    pub exec_time_seconds: Option<i64>,
    pub exec_time_minutes: Option<i64>,
    pub exec_time_hours: Option<i64>,
}

/// A lookup request for one task, by id.
#[derive(Clone, Copy, Debug)]
pub struct ShowTaskRequest {
    pub task_id: u128,
}

/// A lookup request for every task in one lifecycle state.
#[derive(Clone, Copy, Debug)]
pub struct ShowTaskByStateRequest {
    pub state: TaskState,
}

/// A lookup request for every task of one kind.
#[derive(Clone, Copy, Debug)]
pub struct ShowTaskByTypeRequest {
    pub task_type: TaskType,
}

/// A deletion request for one task, by id.
#[derive(Clone, Copy, Debug)]
pub struct DeleteTaskRequest {
    pub task_id: u128,
}

/// A unit of work as a client describes it: its kind, and the time it is
/// due at, absent for work that is due immediately. Timestamps are unix
/// seconds.
#[derive(Clone, Copy, Debug)]
pub struct Task {
    pub task_type: TaskType,
    pub scheduled_time: Option<i64>,
}

/// A task as the relational store keeps it: identified, timestamped and
/// carrying its lifecycle state. The id is a 128-bit identifier sortable
/// by creation order; timestamps are unix seconds.
#[derive(Clone, Copy, Debug, PartialEq, Eq, Structural)]
pub struct PostgresTask {
    pub id: u128,
    pub created_at: i64,
    pub updated_at: i64,
    pub scheduled_for: i64,
    pub status: TaskState,
    pub task_type: TaskType,
}

impl Task {
    /// The due time a creation request asks for: the current time plus the
    /// sum of the optional offsets, clamped to the stores' timestamp range.
    pub open spec fn spec_due_time(request: CreateTaskRequest, now: i64) -> int {
        clamp_i64(
            now + or_zero(request.exec_time_seconds) + or_zero(request.exec_time_minutes) * 60
                + or_zero(request.exec_time_hours) * 3600,
        )
    }

    /// Turns a creation request into a task: the due time is now plus the
    /// sum of the offsets; a task whose due time does not lie strictly in
    /// the future is due immediately and carries no deferral.
    pub fn from_request(request: CreateTaskRequest, now: i64) -> (t: Task)
        ensures
            t.task_type == request._type,
            Self::spec_due_time(request, now) > now ==> t.scheduled_time == Some(
                Self::spec_due_time(request, now) as i64,
            ),
            Self::spec_due_time(request, now) <= now ==> t.scheduled_time is None,
    {
        let seconds: i128 = match request.exec_time_seconds {
            Some(v) => v as i128,
            None => 0,
        };
        let minutes: i128 = match request.exec_time_minutes {
            Some(v) => v as i128,
            None => 0,
        };
        let hours: i128 = match request.exec_time_hours {
            Some(v) => v as i128,
            None => 0,
        };
        let sum: i128 = (now as i128) + seconds + minutes * 60 + hours * 3600;
        let due: i64 = if sum > i64::MAX as i128 {
            i64::MAX
        } else if sum < i64::MIN as i128 {
            i64::MIN
        } else {
            sum as i64
        };
        let scheduled_time: Option<i64> = if due > now {
            Some(due)
        } else {
            None
        };
        Task { task_type: request._type, scheduled_time }
    }
}

impl PostgresTask {
    /// The row an insert writes for a task given a fresh id and the current
    /// time: both bookkeeping timestamps start at `now`. A task is
    /// `Scheduled` only when its due time lies strictly in the future at
    /// the moment the row is built; a task without a deferral, or whose
    /// deferral has already elapsed, starts `Queued`. The due time itself
    /// is kept either way (`now` when the task never had one).
    pub open spec fn spec_from_parts(task: Task, id: u128, now: i64) -> PostgresTask {
        PostgresTask {
            id,
            created_at: now,
            updated_at: now,
            scheduled_for: match task.scheduled_time {
                Some(t) => t,
                None => now,
            },
            status: match task.scheduled_time {
                Some(t) => if t > now {
                    TaskState::Scheduled
                } else {
                    TaskState::Queued
                },
                None => TaskState::Queued,
            },
            task_type: task.task_type,
        }
    }

    /// Builds the stored row for a task from a given id and clock reading.
    pub fn from_parts(task: Task, id: u128, now: i64) -> (r: PostgresTask)
        ensures
            r == Self::spec_from_parts(task, id, now),
    {
        match task.scheduled_time {
            Some(t) => PostgresTask {
                id,
                created_at: now,
                updated_at: now,
                scheduled_for: t,
                status: if t > now {
                    TaskState::Scheduled
                } else {
                    TaskState::Queued
                },
                task_type: task.task_type,
            },
            None => PostgresTask {
                id,
                created_at: now,
                updated_at: now,
                scheduled_for: now,
                status: TaskState::Queued,
                task_type: task.task_type,
            },
        }
    }

    /// Builds the stored row for a task, drawing a fresh id and reading the
    /// clock. Which id and clock value come back is outside this library's
    /// control; everything else about the row is pinned down.
    pub fn new_from_task(task: Task) -> (r: PostgresTask)
        ensures
            r == Self::spec_from_parts(task, r.id, r.created_at),
            r.task_type == task.task_type,
            r.updated_at == r.created_at,
            r.status == (match task.scheduled_time {
                Some(t) => if t > r.created_at {
                    TaskState::Scheduled
                } else {
                    TaskState::Queued
                },
                None => TaskState::Queued,
            }),
    {
        let id = fresh_task_id();
        let now = now_unix();
        Self::from_parts(task, id, now)
    }
}

/// Relies on ulid::Ulid::new, which draws a fresh identifier from the
/// clock and a random source, and on the ulid crate's From<Ulid> for u128,
/// which hands out its 128 bits. Nothing can be promised of the value.
#[verifier::external_body]
pub(crate) fn fresh_task_id() -> u128 {
    u128::from(ulid::Ulid::new())
}

/// Relies on time::OffsetDateTime::now_utc and unix_timestamp, which read
/// the process clock as unix seconds. Nothing can be promised of the value.
#[verifier::external_body]
pub(crate) fn now_unix() -> i64 {
    time::OffsetDateTime::now_utc().unix_timestamp()
}

} // verus!
