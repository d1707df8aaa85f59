use rest_task_scheduler::redis::{
    check_scheduled_tasks, fetch_all_tasks, fetch_task, get_task_from_queue, insert_task_to_queue,
    remove_task, schedule_task, KvError, KvStore,
};
use rest_task_scheduler::task::{Task, TaskType};

fn immediate(kind: TaskType) -> Task {
    Task {
        task_type: kind,
        scheduled_time: None,
    }
}

fn deferred(kind: TaskType, due: i64) -> Task {
    Task {
        task_type: kind,
        scheduled_time: Some(due),
    }
}

#[test]
fn ready_queue_is_first_in_first_out() {
    let mut store = KvStore::new();
    insert_task_to_queue(1, immediate(TaskType::Fizz), &mut store);
    insert_task_to_queue(2, immediate(TaskType::Buzz), &mut store);

    let a = get_task_from_queue(&mut store).unwrap();
    let b = get_task_from_queue(&mut store).unwrap();
    assert_eq!(a.task_type.code(), TaskType::Fizz.code());
    assert_eq!(b.task_type.code(), TaskType::Buzz.code());
    assert!(get_task_from_queue(&mut store).is_none());
}

#[test]
fn deferred_task_is_promoted_only_once_due() {
    // The deferred task never reaches the ready queue before its due
    // time; once due, one promoter pass moves exactly it.
    let mut store = KvStore::new();
    schedule_task(1, deferred(TaskType::Buzz, 500), &mut store);

    assert!(!check_scheduled_tasks(&mut store, 400));
    assert!(get_task_from_queue(&mut store).is_none());

    assert!(check_scheduled_tasks(&mut store, 500));
    let t = get_task_from_queue(&mut store).unwrap();
    assert_eq!(t.scheduled_time, Some(500));
    assert_eq!(t.task_type.code(), TaskType::Buzz.code());

    assert!(!check_scheduled_tasks(&mut store, 500));
}

#[test]
fn promotion_takes_the_earliest_due_task_first() {
    let mut store = KvStore::new();
    schedule_task(1, deferred(TaskType::Fizz, 300), &mut store);
    schedule_task(2, deferred(TaskType::Buzz, 100), &mut store);
    schedule_task(3, deferred(TaskType::FizzBuzz, 200), &mut store);

    assert!(check_scheduled_tasks(&mut store, 1_000));
    assert!(check_scheduled_tasks(&mut store, 1_000));
    assert!(check_scheduled_tasks(&mut store, 1_000));
    assert!(!check_scheduled_tasks(&mut store, 1_000));

    assert_eq!(get_task_from_queue(&mut store).unwrap().scheduled_time, Some(100));
    assert_eq!(get_task_from_queue(&mut store).unwrap().scheduled_time, Some(200));
    assert_eq!(get_task_from_queue(&mut store).unwrap().scheduled_time, Some(300));
}

#[test]
fn each_promoter_pass_moves_at_most_one_task() {
    let mut store = KvStore::new();
    schedule_task(1, deferred(TaskType::Fizz, 10), &mut store);
    schedule_task(2, deferred(TaskType::Buzz, 20), &mut store);

    assert!(check_scheduled_tasks(&mut store, 1_000));
    let (queued, scheduled) = fetch_all_tasks(&store);
    assert_eq!(queued.len(), 1);
    assert_eq!(scheduled.len(), 1);
}

#[test]
fn lookup_finds_tasks_in_either_structure() {
    let mut store = KvStore::new();
    insert_task_to_queue(1, immediate(TaskType::Fizz), &mut store);
    schedule_task(2, deferred(TaskType::Buzz, 900), &mut store);

    let ready = fetch_task(1, &store).unwrap();
    assert_eq!(ready.task_type.code(), TaskType::Fizz.code());
    assert_eq!(ready.scheduled_time, None);

    let waiting = fetch_task(2, &store).unwrap();
    assert_eq!(waiting.scheduled_time, Some(900));

    assert!(matches!(fetch_task(3, &store), Err(KvError::NotFound)));
    assert_eq!(
        KvError::NotFound.message(),
        "Task with given ID does not exist in database."
    );
}

#[test]
fn kv_deleting_twice_reports_not_found_the_second_time() {
    let mut store = KvStore::new();
    insert_task_to_queue(1, immediate(TaskType::Fizz), &mut store);
    schedule_task(2, deferred(TaskType::Buzz, 900), &mut store);

    assert_eq!(remove_task(9, &mut store), Err(KvError::NotFound));
    assert!(remove_task(1, &mut store).is_ok());
    assert_eq!(remove_task(1, &mut store), Err(KvError::NotFound));
    assert!(remove_task(2, &mut store).is_ok());
    assert_eq!(remove_task(2, &mut store), Err(KvError::NotFound));

    let (queued, scheduled) = fetch_all_tasks(&store);
    assert!(queued.is_empty());
    assert!(scheduled.is_empty());
}

#[test]
fn snapshot_orders_ready_then_deferred_by_due_time() {
    let mut store = KvStore::new();
    insert_task_to_queue(1, immediate(TaskType::Fizz), &mut store);
    insert_task_to_queue(2, immediate(TaskType::Buzz), &mut store);
    schedule_task(3, deferred(TaskType::FizzBuzz, 300), &mut store);
    schedule_task(4, deferred(TaskType::Fizz, 100), &mut store);

    let (queued, scheduled) = fetch_all_tasks(&store);
    assert_eq!(queued.len(), 2);
    assert_eq!(queued[0].task_type.code(), TaskType::Fizz.code());
    assert_eq!(queued[1].task_type.code(), TaskType::Buzz.code());
    assert_eq!(scheduled.len(), 2);
    assert_eq!(scheduled[0].scheduled_time, Some(100));
    assert_eq!(scheduled[1].scheduled_time, Some(300));
}

#[test]
fn equal_due_times_keep_insertion_order() {
    let mut store = KvStore::new();
    schedule_task(1, deferred(TaskType::Fizz, 100), &mut store);
    schedule_task(2, deferred(TaskType::Buzz, 100), &mut store);

    assert!(check_scheduled_tasks(&mut store, 100));
    let first = get_task_from_queue(&mut store).unwrap();
    assert_eq!(first.task_type.code(), TaskType::Fizz.code());
}
