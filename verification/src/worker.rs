//! The worker's decisions. A worker loop polls the store, executes the
//! claimed task's handler, and acknowledges completion by removing the
//! task. What the loop decides — which handler a kind selects, how long
//! its simulated work takes, and what one full iteration does to the
//! store — is verified here; the loop's sleeping and logging stay with
//! the process that runs it.

use vstd::prelude::*;

use crate::database::{
    claim_choice, claimed, contains_id, eligible, pull_task, remove_task, QueueStore,
};
use crate::task::{PostgresTask, TaskType};

verus! {

/// The simulated work each kind performs, in seconds: the handler table's
/// one verified column.
pub open spec fn spec_exec_duration_secs(t: TaskType) -> u64 {
    match t {
        TaskType::Fizz => 3,
        TaskType::Buzz => 5,
        TaskType::FizzBuzz => 15,
    }
}

/// How long the handler for this kind works before logging, in seconds.
pub fn exec_duration_secs(t: TaskType) -> (r: u64)
    ensures
        r == spec_exec_duration_secs(t),
{
    match t {
        TaskType::Fizz => 3,
        TaskType::Buzz => 5,
        TaskType::FizzBuzz => 15,
    }
}

/// The line each kind's handler logs, without the task id appended to it.
pub fn handler_label(t: TaskType) -> (r: &'static str)
    ensures
        t == TaskType::Fizz ==> r@ == "Fizz"@,
        t == TaskType::Buzz ==> r@ == "Buzz"@,
        t == TaskType::FizzBuzz ==> r@ == "FizzBuzz"@,
{
    match t {
        TaskType::Fizz => "Fizz",
        TaskType::Buzz => "Buzz",
        TaskType::FizzBuzz => "FizzBuzz",
    }
}

/// One full worker iteration against the store: claim the task due
/// earliest, run it to completion, and acknowledge by removing it. On the
/// model the execution itself is pure delay, so the iteration's effect is
/// exactly this: the claimed task leaves the store and is returned, or
/// nothing was eligible and the store is unchanged.
pub fn worker_step(store: &mut QueueStore, now: i64) -> (r: Option<PostgresTask>)
    requires
        old(store).wf(),
    ensures
        final(store).wf(),
        r is None ==> final(store)@ == old(store)@ && forall|j: int|
            0 <= j < old(store)@.len() ==> !eligible(#[trigger] old(store)@[j], now),
        r matches Some(t) ==> exists|k: int|
            #[trigger] claim_choice(old(store)@, now, k) && t == claimed(old(store)@[k], now)
                && final(store)@ == old(store)@.remove(k),
        r matches Some(t) ==> !contains_id(final(store)@, t.id),
{
    let pulled = pull_task(store, now);
    match pulled {
        None => None,
        Some(task) => {
            let ghost s0 = old(store)@;
            let ghost k = choose|k: int|
                claim_choice(s0, now, k) && task == claimed(s0[k], now) && store@ == s0.update(
                    k,
                    task,
                );
            proof {
                assert(store@[k] == task);
                assert(contains_id(store@, task.id));
            }
            let removed = remove_task(task.id, store);
            proof {
                let k2 = choose|k2: int|
                    0 <= k2 < s0.update(k, task).len() && (#[trigger] s0.update(k, task)[k2]).id
                        == task.id && store@ == s0.update(k, task).remove(k2);
                if k2 != k {
                    assert(s0.update(k, task)[k2] == s0[k2]);
                    assert(s0[k2].id == s0[k].id);
                }
                assert(store@ == s0.update(k, task).remove(k));
                assert(s0.update(k, task).remove(k) =~= s0.remove(k));
                assert(store@ == s0.remove(k));
            }
            Some(task)
        },
    }
}

} // verus!
