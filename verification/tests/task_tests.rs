use rest_task_scheduler::endpoints::{
    delete_task_message, json_error_message, task_not_found_message, JsonErrorKind,
};
use rest_task_scheduler::redis::KvError;
use rest_task_scheduler::task::{CreateTaskRequest, PostgresTask, Task, TaskState, TaskType};
use rest_task_scheduler::worker::{exec_duration_secs, handler_label};

fn request(
    kind: TaskType,
    secs: Option<i64>,
    mins: Option<i64>,
    hours: Option<i64>,
) -> CreateTaskRequest {
    CreateTaskRequest {
        _type: kind,
        exec_time_seconds: secs,
        exec_time_minutes: mins,
        exec_time_hours: hours,
    }
}

#[test]
fn task_type_codes_round_trip() {
    assert_eq!(TaskType::Fizz.code(), 1);
    assert_eq!(TaskType::Buzz.code(), 2);
    assert_eq!(TaskType::FizzBuzz.code(), 3);
    for kind in [TaskType::Fizz, TaskType::Buzz, TaskType::FizzBuzz] {
        assert_eq!(TaskType::from_code(kind.code()), Some(kind));
    }
    assert_eq!(TaskType::from_code(0), None);
    assert_eq!(TaskType::from_code(4), None);
    assert_eq!(TaskType::from_code(-1), None);
}

#[test]
fn task_state_codes_round_trip() {
    assert_eq!(TaskState::Running.code(), 1);
    assert_eq!(TaskState::Queued.code(), 2);
    assert_eq!(TaskState::Scheduled.code(), 3);
    for state in [TaskState::Running, TaskState::Queued, TaskState::Scheduled] {
        assert_eq!(TaskState::from_code(state.code()), Some(state));
    }
    assert_eq!(TaskState::from_code(0), None);
    assert_eq!(TaskState::from_code(4), None);
}

#[test]
fn zero_offsets_make_an_immediate_task() {
    let t = Task::from_request(request(TaskType::Fizz, Some(0), None, None), 1_000);
    assert!(matches!(t.task_type, TaskType::Fizz));
    assert_eq!(t.scheduled_time, None);

    let t = Task::from_request(request(TaskType::Buzz, None, None, None), 1_000);
    assert_eq!(t.scheduled_time, None);
}

#[test]
fn offsets_sum_into_the_due_time() {
    let t = Task::from_request(request(TaskType::Buzz, Some(30), Some(2), Some(1)), 1_000);
    assert_eq!(t.scheduled_time, Some(1_000 + 30 + 120 + 3_600));
}

#[test]
fn negative_offsets_make_an_immediate_task() {
    let t = Task::from_request(request(TaskType::Fizz, Some(-5), None, None), 1_000);
    assert_eq!(t.scheduled_time, None);
}

#[test]
fn overflowing_offsets_saturate_at_the_timestamp_range() {
    let t = Task::from_request(
        request(TaskType::FizzBuzz, Some(i64::MAX), None, Some(i64::MAX)),
        1_000,
    );
    assert_eq!(t.scheduled_time, Some(i64::MAX));
}

#[test]
fn deferred_task_rows_start_scheduled() {
    let task = Task {
        task_type: TaskType::Buzz,
        scheduled_time: Some(5_000),
    };
    let row = PostgresTask::from_parts(task, 7, 1_000);
    assert_eq!(row.id, 7);
    assert_eq!(row.created_at, 1_000);
    assert_eq!(row.updated_at, 1_000);
    assert_eq!(row.scheduled_for, 5_000);
    assert_eq!(row.status, TaskState::Scheduled);
    assert_eq!(row.task_type.code(), TaskType::Buzz.code());
}

#[test]
fn elapsed_deferral_rows_start_queued() {
    // A deferral that has already passed, or passes exactly now, no longer
    // defers anything: the row starts Queued, keeping its due time.
    let task = Task {
        task_type: TaskType::Buzz,
        scheduled_time: Some(900),
    };
    let row = PostgresTask::from_parts(task, 7, 1_000);
    assert_eq!(row.status, TaskState::Queued);
    assert_eq!(row.scheduled_for, 900);

    let boundary = Task {
        task_type: TaskType::Buzz,
        scheduled_time: Some(1_000),
    };
    let row = PostgresTask::from_parts(boundary, 8, 1_000);
    assert_eq!(row.status, TaskState::Queued);
    assert_eq!(row.scheduled_for, 1_000);

    let future = Task {
        task_type: TaskType::Buzz,
        scheduled_time: Some(1_001),
    };
    let row = PostgresTask::from_parts(future, 9, 1_000);
    assert_eq!(row.status, TaskState::Scheduled);
}

#[test]
fn immediate_task_rows_start_queued() {
    let task = Task {
        task_type: TaskType::Fizz,
        scheduled_time: None,
    };
    let row = PostgresTask::from_parts(task, 9, 2_000);
    assert_eq!(row.scheduled_for, 2_000);
    assert_eq!(row.status, TaskState::Queued);
    assert_eq!(row.created_at, 2_000);
    assert_eq!(row.updated_at, 2_000);
}

#[test]
fn fresh_rows_draw_an_id_and_the_clock() {
    let task = Task {
        task_type: TaskType::FizzBuzz,
        scheduled_time: None,
    };
    let row = PostgresTask::new_from_task(task);
    assert_eq!(row.status, TaskState::Queued);
    assert_eq!(row.task_type.code(), TaskType::FizzBuzz.code());
    assert_eq!(row.created_at, row.updated_at);
    assert_eq!(row.scheduled_for, row.created_at);

    let deferred = Task {
        task_type: TaskType::Fizz,
        scheduled_time: Some(i64::MAX),
    };
    let row2 = PostgresTask::new_from_task(deferred);
    assert_eq!(row2.status, TaskState::Scheduled);
    assert_eq!(row2.scheduled_for, i64::MAX);
    assert_ne!(row.id, row2.id);
}

#[test]
fn handler_table_durations_and_labels() {
    assert_eq!(exec_duration_secs(TaskType::Fizz), 3);
    assert_eq!(exec_duration_secs(TaskType::Buzz), 5);
    assert_eq!(exec_duration_secs(TaskType::FizzBuzz), 15);
    assert_eq!(handler_label(TaskType::Fizz), "Fizz");
    assert_eq!(handler_label(TaskType::Buzz), "Buzz");
    assert_eq!(handler_label(TaskType::FizzBuzz), "FizzBuzz");
}

#[test]
fn rejection_messages_name_each_failure() {
    assert_eq!(
        json_error_message(JsonErrorKind::DataError),
        "Couldn't deserialize the body into the target type"
    );
    assert_eq!(
        json_error_message(JsonErrorKind::SyntaxError),
        "Syntax error in the body"
    );
    assert_eq!(
        json_error_message(JsonErrorKind::MissingContentType),
        "Request didn't have `Content-Type: application/json` header"
    );
    assert_eq!(
        json_error_message(JsonErrorKind::BytesError),
        "Failed to extract the request body"
    );
    assert_eq!(json_error_message(JsonErrorKind::Unknown), "Unknown error");
}

#[test]
fn outcome_messages() {
    assert_eq!(
        delete_task_message(0),
        "Unable to delete the task. Task does not exist with the given id."
    );
    assert_eq!(delete_task_message(1), "Successfully deleted the task.");
    assert_eq!(task_not_found_message(), "Task not found");
    assert_eq!(
        KvError::NotFound.message(),
        "Task with given ID does not exist in database."
    );
}
