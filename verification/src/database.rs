//! The relational realization of the queue store, modelled as a sequence
//! of rows. Claiming, re-queueing abandoned work and deletion are the
//! operations whose atomicity the real store provides with row locks; here
//! each is a single verified transition on the model, so the contracts
//! state exactly what one atomic step does.

use vstd::prelude::*;

use crate::task::{PostgresTask, Task, TaskState};

verus! {

/// A task qualifies for claiming when it is not already running and its
/// due time has passed. Scheduling and claiming share this one predicate,
/// so deferred tasks need no separate promotion step in this realization.
pub open spec fn eligible(t: PostgresTask, now: i64) -> bool {
    t.status != TaskState::Running && t.scheduled_for <= now
}

/// The row a claim writes: running, with its bookkeeping timestamp bumped.
pub open spec fn claimed(t: PostgresTask, now: i64) -> PostgresTask {
    PostgresTask { status: TaskState::Running, updated_at: now, ..t }
}

/// The row the reaper writes: queued again, with its timestamp bumped.
pub open spec fn requeued(t: PostgresTask, now: i64) -> PostgresTask {
    PostgresTask { status: TaskState::Queued, updated_at: now, ..t }
}

/// A running task whose last transition is at least a full lease ago has
/// been abandoned by its claimant as far as the store can tell.
pub open spec fn stale(t: PostgresTask, now: i64, lease: i64) -> bool {
    t.status == TaskState::Running && t.updated_at + lease <= now
}

/// Every row carries a different id.
pub open spec fn unique_ids(s: Seq<PostgresTask>) -> bool {
    forall|i: int, j: int|
        0 <= i < j < s.len() ==> #[trigger] s[i].id != #[trigger] s[j].id
}

/// Some row carries this id.
pub open spec fn contains_id(s: Seq<PostgresTask>, id: u128) -> bool {
    exists|i: int| 0 <= i < s.len() && (#[trigger] s[i]).id == id
}

/// The row a claim picks: the eligible row with the earliest due time,
/// ties broken towards the earliest position — arbitrary, but fixed, as
/// the store's tie-breaking is.
pub open spec fn claim_choice(s: Seq<PostgresTask>, now: i64, k: int) -> bool {
    &&& 0 <= k < s.len()
    &&& eligible(s[k], now)
    &&& forall|j: int|
        0 <= j < s.len() && eligible(#[trigger] s[j], now) ==> s[k].scheduled_for
            <= s[j].scheduled_for
    &&& forall|j: int|
        0 <= j < k && eligible(#[trigger] s[j], now) ==> s[k].scheduled_for < s[j].scheduled_for
}

/// A repository of task rows. The model keeps them as one sequence; the
/// well-formedness every operation preserves is that ids never repeat.
pub struct QueueStore {
    tasks: Vec<PostgresTask>,
}

impl View for QueueStore {
    type V = Seq<PostgresTask>;

    closed spec fn view(&self) -> Seq<PostgresTask> {
        self.tasks@
    }
}

impl QueueStore {
    /// Ids identify at most one live task each.
    pub open spec fn wf(&self) -> bool {
        unique_ids(self@)
    }

    /// An empty store.
    pub fn new() -> (s: QueueStore)
        ensures
            s@ == Seq::<PostgresTask>::empty(),
            s.wf(),
    {
        QueueStore { tasks: Vec::new() }
    }
}

/// Kinds of failure the store itself can raise: inserting under an id the
/// store already holds would break the uniqueness of ids.
#[derive(Clone, Copy, Debug, PartialEq, Eq, Structural)]
pub enum StoreError {
    DuplicateId,
}

/// Mutual exclusion of claims: when one claim has taken the task at `k1`,
/// a second claim against the resulting store — at any later or earlier
/// clock reading — never hands out a task with the same id. The first
/// claim leaves that task `Running`, which disqualifies it, and no other
/// row shares its id.
pub proof fn lemma_claim_mutual_exclusion(
    s: Seq<PostgresTask>,
    now1: i64,
    k1: int,
    now2: i64,
    k2: int,
)
    requires
        unique_ids(s),
        claim_choice(s, now1, k1),
        claim_choice(s.update(k1, claimed(s[k1], now1)), now2, k2),
    ensures
        s.update(k1, claimed(s[k1], now1))[k2].id != s[k1].id,
{
    let s2 = s.update(k1, claimed(s[k1], now1));
    if k2 == k1 {
        assert(s2[k2].status == TaskState::Running);
        assert(!eligible(s2[k2], now2));
    } else {
        assert(s2[k2] == s[k2]);
    }
}

/// Exactly one claimant wins: when the task at `k` is the only eligible
/// one, the store that claim leaves behind holds no eligible task at all,
/// so every further claim at the same clock reading comes back empty.
pub proof fn lemma_single_claimant(s: Seq<PostgresTask>, now: i64, k: int)
    requires
        claim_choice(s, now, k),
        forall|j: int| 0 <= j < s.len() && j != k ==> !eligible(#[trigger] s[j], now),
    ensures
        forall|j: int|
            0 <= j < s.len() ==> !eligible(#[trigger] s.update(k, claimed(s[k], now))[j], now),
{
    let s2 = s.update(k, claimed(s[k], now));
    assert forall|j: int| 0 <= j < s2.len() implies !eligible(#[trigger] s2[j], now) by {
        if j == k {
            assert(s2[j].status == TaskState::Running);
        } else {
            assert(s2[j] == s[j]);
        }
    }
}

/// A deferred task is never claimed early: whatever row a claim picks was
/// due at the clock reading the claim ran under.
pub proof fn lemma_no_early_claim(s: Seq<PostgresTask>, now: i64, k: int)
    requires
        claim_choice(s, now, k),
    ensures
        s[k].scheduled_for <= now,
{
}

/// A task the reaper reset is claimable again: once back in `Queued`, it
/// qualifies for claiming whenever its due time has passed — and having
/// been claimed before, it was due already.
pub proof fn lemma_reaped_task_claimable(t: PostgresTask, now: i64, lease: i64)
    requires
        stale(t, now, lease),
        t.scheduled_for <= now,
    ensures
        eligible(requeued(t, now), now),
{
}

/// Deletion is idempotent: removing the row that carries an id leaves a
/// store in which no row carries it, so a second deletion of the same id
/// finds nothing.
pub proof fn lemma_delete_idempotent(s: Seq<PostgresTask>, k: int, id: u128)
    requires
        unique_ids(s),
        0 <= k < s.len(),
        s[k].id == id,
    ensures
        !contains_id(s.remove(k), id),
{
    let s2 = s.remove(k);
    assert forall|j: int| 0 <= j < s2.len() implies (#[trigger] s2[j]).id != id by {
        let j0 = if j < k {
            j
        } else {
            j + 1
        };
        assert(s2[j] == s[j0]);
    }
}

/// Round trip: after inserting a row under an id the store did not hold,
/// any row found under that id is that very row — kind and due time
/// included.
pub proof fn lemma_insert_get_round_trip(s: Seq<PostgresTask>, t: PostgresTask, u: PostgresTask)
    requires
        !contains_id(s, t.id),
        s.push(t).contains(u),
        u.id == t.id,
    ensures
        u == t,
{
    let s2 = s.push(t);
    let k = choose|k: int| 0 <= k < s2.len() && s2[k] == u;
    if k < s.len() {
        assert(s[k].id == t.id);
        assert(contains_id(s, t.id));
    } else {
        assert(s2[k] == t);
    }
}

/// Atomically claims one task: among the rows that are eligible now, the
/// one due earliest (earliest position on a tie) becomes `Running` with
/// its timestamp bumped, and is returned. Returns nothing, and changes
/// nothing, exactly when no row is eligible. A claimed task's due time has
/// always passed: a deferred task is never handed out early.
pub fn pull_task(store: &mut QueueStore, now: i64) -> (r: Option<PostgresTask>)
    requires
        old(store).wf(),
    ensures
        final(store).wf(),
        r is None ==> final(store)@ == old(store)@ && forall|j: int|
            0 <= j < old(store)@.len() ==> !eligible(#[trigger] old(store)@[j], now),
        r matches Some(t) ==> exists|k: int|
            #[trigger] claim_choice(old(store)@, now, k) && t == claimed(old(store)@[k], now)
                && final(store)@ == old(store)@.update(k, t),
        r matches Some(t) ==> t.status == TaskState::Running && t.scheduled_for <= now
            && t.updated_at == now,
{
    let ghost s = store@;
    let n = store.tasks.len();
    let mut best: usize = 0;
    let mut found = false;
    let mut i: usize = 0;
    while i < n
        invariant
            store@ == s,
            n == s.len(),
            0 <= i <= n,
            found ==> best < i && eligible(s[best as int], now),
            found ==> forall|j: int|
                0 <= j < i && eligible(#[trigger] s[j], now) ==> s[best as int].scheduled_for
                    <= s[j].scheduled_for,
            found ==> forall|j: int|
                0 <= j < best && eligible(#[trigger] s[j], now) ==> s[best as int].scheduled_for
                    < s[j].scheduled_for,
            !found ==> forall|j: int| 0 <= j < i ==> !eligible(#[trigger] s[j], now),
        decreases n - i,
    {
        let t = store.tasks[i];
        if t.status != TaskState::Running && t.scheduled_for <= now {
            if !found || t.scheduled_for < store.tasks[best].scheduled_for {
                best = i;
                found = true;
            }
        }
        i = i + 1;
    }
    if found {
        let picked = store.tasks[best];
        let row = PostgresTask { status: TaskState::Running, updated_at: now, ..picked };
        store.tasks[best] = row;
        proof {
            assert(claim_choice(s, now, best as int));
            assert(row == claimed(s[best as int], now));
            assert forall|a: int, b: int| 0 <= a < b < store@.len() implies #[trigger] store@[a].id
                != #[trigger] store@[b].id by {
                assert(store@[a].id == s[a].id);
                assert(store@[b].id == s[b].id);
            }
        }
        Some(row)
    } else {
        None
    }
}

/// Inserts the stored row built from `task` under the given id and clock
/// reading. Succeeds, returning the id, exactly when the id is not yet in
/// the store; a duplicate id is refused and the store left unchanged.
pub fn insert_task_with_id(task: Task, id: u128, now: i64, store: &mut QueueStore) -> (r: Result<
    u128,
    StoreError,
>)
    requires
        old(store).wf(),
    ensures
        final(store).wf(),
        !contains_id(old(store)@, id) ==> r == Ok::<u128, StoreError>(id) && final(store)@ == old(
            store,
        )@.push(PostgresTask::spec_from_parts(task, id, now)),
        contains_id(old(store)@, id) ==> r == Err::<u128, StoreError>(StoreError::DuplicateId)
            && final(store)@ == old(store)@,
{
    let ghost s = store@;
    let n = store.tasks.len();
    let mut i: usize = 0;
    while i < n
        invariant
            store@ == s,
            s == old(store)@,
            unique_ids(s),
            n == s.len(),
            0 <= i <= n,
            forall|j: int| 0 <= j < i ==> (#[trigger] s[j]).id != id,
        decreases n - i,
    {
        if store.tasks[i].id == id {
            proof {
                assert(old(store)@[i as int].id == id);
            }
            return Err(StoreError::DuplicateId);
        }
        i = i + 1;
    }
    let row = PostgresTask::from_parts(task, id, now);
    store.tasks.push(row);
    proof {
        assert forall|a: int, b: int| 0 <= a < b < store@.len() implies #[trigger] store@[a].id
            != #[trigger] store@[b].id by {
            if b < s.len() {
                assert(store@[a] == s[a]);
                assert(store@[b] == s[b]);
            } else {
                assert(store@[a] == s[a]);
                assert(store@[b] == row);
            }
        }
    }
    Ok(id)
}

/// Persists a task: a fresh id is drawn and the clock read, the row is
/// built from them, and the insert succeeds exactly when the drawn id is
/// not yet in the store. Only a collision with a held id can fail it, so
/// an insert into an empty store always succeeds; on failure the store is
/// unchanged.
pub fn insert_task_to_queue(task: Task, store: &mut QueueStore) -> (r: Result<u128, StoreError>)
    requires
        old(store).wf(),
    ensures
        final(store).wf(),
        r matches Ok(id) ==> !contains_id(old(store)@, id) && final(store)@.len() == old(
            store,
        )@.len() + 1 && final(store)@.last() == PostgresTask::spec_from_parts(
            task,
            id,
            final(store)@.last().created_at,
        ) && final(store)@.last().id == id && final(store)@.drop_last() == old(store)@,
        r is Err ==> final(store)@ == old(store)@ && old(store)@.len() > 0,
{
    let id = crate::task::fresh_task_id();
    let now = crate::task::now_unix();
    let r = insert_task_with_id(task, id, now, store);
    proof {
        if !contains_id(old(store)@, id) {
            assert(final(store)@.drop_last() =~= old(store)@);
        }
    }
    r
}

/// Deletes the task with the given id if the store holds one, and reports
/// how many rows that affected: one when the id was present, none when it
/// was not. After the call the id is gone either way, so deletion is
/// idempotent: a second call with the same id affects no row.
pub fn remove_task(task_id: u128, store: &mut QueueStore) -> (r: u64)
    requires
        old(store).wf(),
    ensures
        final(store).wf(),
        contains_id(old(store)@, task_id) ==> r == 1 && exists|k: int|
            0 <= k < old(store)@.len() && (#[trigger] old(store)@[k]).id == task_id && final(store)@ == old(store)@.remove(k),
        !contains_id(old(store)@, task_id) ==> r == 0 && final(store)@ == old(store)@,
        !contains_id(final(store)@, task_id),
{
    let ghost s = store@;
    let n = store.tasks.len();
    let mut i: usize = 0;
    while i < n
        invariant
            store@ == s,
            s == old(store)@,
            n == s.len(),
            0 <= i <= n,
            unique_ids(s),
            forall|j: int| 0 <= j < i ==> (#[trigger] s[j]).id != task_id,
        decreases n - i,
    {
        if store.tasks[i].id == task_id {
            store.tasks.remove(i);
            proof {
                assert(old(store)@[i as int].id == task_id);
                assert(contains_id(old(store)@, task_id));
                let s2 = store@;
                assert(s2 == s.remove(i as int));
                assert forall|a: int, b: int| 0 <= a < b < s2.len() implies #[trigger] s2[a].id
                    != #[trigger] s2[b].id by {
                    let a0 = if a < i { a } else { a + 1 };
                    let b0 = if b < i { b } else { b + 1 };
                    assert(s2[a] == s[a0]);
                    assert(s2[b] == s[b0]);
                }
                assert forall|j: int| 0 <= j < s2.len() implies (#[trigger] s2[j]).id != task_id by {
                    let j0 = if j < i { j } else { j + 1 };
                    assert(s2[j] == s[j0]);
                }
            }
            return 1;
        }
        i = i + 1;
    }
    0
}

/// Read-only snapshot: every task whose lifecycle state matches, in store
/// order.
pub fn get_tasks_by_state(state: TaskState, store: &QueueStore) -> (r: Vec<PostgresTask>)
    ensures
        r@ == store@.filter(|t: PostgresTask| t.status == state),
{
    let ghost s = store@;
    let mut out: Vec<PostgresTask> = Vec::new();
    let n = store.tasks.len();
    let mut i: usize = 0;
    while i < n
        invariant
            store@ == s,
            n == s.len(),
            0 <= i <= n,
            out@ == s.subrange(0, i as int).filter(|t: PostgresTask| t.status == state),
        decreases n - i,
    {
        let t = store.tasks[i];
        proof {
            reveal(Seq::filter);
            assert(s.subrange(0, i as int + 1).drop_last() == s.subrange(0, i as int));
            assert(s.subrange(0, i as int + 1).last() == s[i as int]);
        }
        if t.status == state {
            out.push(t);
        }
        i = i + 1;
    }
    proof {
        assert(s.subrange(0, n as int) == s);
    }
    out
}

/// Read-only snapshot: every task of the given kind, in store order.
pub fn get_tasks_by_type(task_type: crate::task::TaskType, store: &QueueStore) -> (r: Vec<
    PostgresTask,
>)
    ensures
        r@ == store@.filter(|t: PostgresTask| t.task_type == task_type),
{
    let ghost s = store@;
    let mut out: Vec<PostgresTask> = Vec::new();
    let n = store.tasks.len();
    let mut i: usize = 0;
    while i < n
        invariant
            store@ == s,
            n == s.len(),
            0 <= i <= n,
            out@ == s.subrange(0, i as int).filter(|t: PostgresTask| t.task_type == task_type),
        decreases n - i,
    {
        let t = store.tasks[i];
        proof {
            reveal(Seq::filter);
            assert(s.subrange(0, i as int + 1).drop_last() == s.subrange(0, i as int));
            assert(s.subrange(0, i as int + 1).last() == s[i as int]);
        }
        if t.task_type == task_type {
            out.push(t);
        }
        i = i + 1;
    }
    proof {
        assert(s.subrange(0, n as int) == s);
    }
    out
}

/// Read-only snapshot: the task carrying this id, when the store holds
/// one. Returns nothing exactly when no row carries the id; since ids
/// never repeat, the row returned is the one row carrying it.
pub fn get_task_by_id(task_id: u128, store: &QueueStore) -> (r: Option<PostgresTask>)
    requires
        store.wf(),
    ensures
        r matches Some(t) ==> t.id == task_id && store@.contains(t),
        r is None ==> !contains_id(store@, task_id),
{
    let ghost s = store@;
    let n = store.tasks.len();
    let mut i: usize = 0;
    while i < n
        invariant
            store@ == s,
            n == s.len(),
            0 <= i <= n,
            forall|j: int| 0 <= j < i ==> (#[trigger] s[j]).id != task_id,
        decreases n - i,
    {
        let t = store.tasks[i];
        if t.id == task_id {
            proof {
                assert(store@[i as int] == t);
            }
            return Some(t);
        }
        i = i + 1;
    }
    None
}

/// Read-only snapshot of the whole store, in store order.
pub fn get_all_tasks(store: &QueueStore) -> (r: Vec<PostgresTask>)
    ensures
        r@ == store@,
{
    let ghost s = store@;
    let mut out: Vec<PostgresTask> = Vec::new();
    let n = store.tasks.len();
    let mut i: usize = 0;
    while i < n
        invariant
            store@ == s,
            n == s.len(),
            0 <= i <= n,
            out@ == s.subrange(0, i as int),
        decreases n - i,
    {
        out.push(store.tasks[i]);
        proof {
            assert(out@ == s.subrange(0, i as int + 1));
        }
        i = i + 1;
    }
    proof {
        assert(s.subrange(0, n as int) == s);
    }
    out
}

/// The reaper's one atomic pass: every running task whose last transition
/// is a full lease or more in the past goes back to `Queued` with its
/// timestamp bumped, making it claimable again; every other task is left
/// exactly as it was.
pub fn queue_hanging_tasks(store: &mut QueueStore, now: i64, lease: i64)
    requires
        old(store).wf(),
    ensures
        final(store).wf(),
        final(store)@.len() == old(store)@.len(),
        forall|i: int|
            0 <= i < old(store)@.len() ==> final(store)@[i] == (if stale(
                #[trigger] old(store)@[i],
                now,
                lease,
            ) {
                requeued(old(store)@[i], now)
            } else {
                old(store)@[i]
            }),
{
    let ghost s = store@;
    let n = store.tasks.len();
    let mut i: usize = 0;
    while i < n
        invariant
            n == s.len(),
            store@.len() == s.len(),
            0 <= i <= n,
            forall|j: int|
                0 <= j < i ==> store@[j] == (if stale(#[trigger] s[j], now, lease) {
                    requeued(s[j], now)
                } else {
                    s[j]
                }),
            forall|j: int| i <= j < n ==> store@[j] == #[trigger] s[j],
        decreases n - i,
    {
        let t = store.tasks[i];
        let is_stale = t.status == TaskState::Running && (t.updated_at as i128) + (lease as i128)
            <= (now as i128);
        if is_stale {
            store.tasks[i] = PostgresTask { status: TaskState::Queued, updated_at: now, ..t };
        }
        i = i + 1;
    }
    proof {
        assert forall|a: int, b: int| 0 <= a < b < store@.len() implies #[trigger] store@[a].id
            != #[trigger] store@[b].id by {
            assert(store@[a].id == s[a].id);
            assert(store@[b].id == s[b].id);
        }
    }
}

} // verus!
