//! The key-value realization of the queue store: a FIFO list of
//! immediately-ready tasks and a set of deferred tasks ordered by due
//! time. The real store runs these operations as single commands or
//! watched transactions; here each is one verified transition, so the
//! contracts state exactly what one atomic step does. This realization
//! keeps no durable record of a running task: a claim removes the task
//! from the store outright.

use vstd::prelude::*;

use crate::task::Task;

verus! {

/// A stored task and the id it is filed under.
#[derive(Clone, Copy, Debug)]
pub struct KvEntry {
    pub id: u64,
    pub task: Task,
}

/// The due time an entry is scored by in the deferred set. Entries of the
/// ready queue may carry no due time; they score zero.
pub open spec fn due_of(e: KvEntry) -> i64 {
    match e.task.scheduled_time {
        Some(t) => t,
        None => 0,
    }
}

/// No id repeats, within either structure or across the two.
pub open spec fn kv_unique_ids(q: Seq<KvEntry>, s: Seq<KvEntry>) -> bool {
    &&& forall|i: int, j: int| 0 <= i < j < q.len() ==> #[trigger] q[i].id != #[trigger] q[j].id
    &&& forall|i: int, j: int| 0 <= i < j < s.len() ==> #[trigger] s[i].id != #[trigger] s[j].id
    &&& forall|i: int, j: int|
        0 <= i < q.len() && 0 <= j < s.len() ==> #[trigger] q[i].id != #[trigger] s[j].id
}

/// The deferred set is ordered by due time, earliest first.
pub open spec fn sorted_by_due(s: Seq<KvEntry>) -> bool {
    forall|i: int, j: int| 0 <= i <= j < s.len() ==> due_of(#[trigger] s[i]) <= due_of(
        #[trigger] s[j],
    )
}

/// Every deferred entry carries a due time; only deferred tasks are
/// scored into the set.
pub open spec fn all_deferred(s: Seq<KvEntry>) -> bool {
    forall|i: int| 0 <= i < s.len() ==> (#[trigger] s[i]).task.scheduled_time is Some
}

/// Some entry of the queue or the deferred set carries this id.
pub open spec fn kv_contains_id(q: Seq<KvEntry>, s: Seq<KvEntry>, id: u64) -> bool {
    (exists|i: int| 0 <= i < q.len() && (#[trigger] q[i]).id == id) || (exists|i: int|
        0 <= i < s.len() && (#[trigger] s[i]).id == id)
}

/// Some entry of the queue or the deferred set carries the given id and
/// holds the given task.
pub open spec fn kv_has_task(q: Seq<KvEntry>, s: Seq<KvEntry>, id: u64, t: Task) -> bool {
    (exists|i: int| 0 <= i < q.len() && (#[trigger] q[i]).id == id && q[i].task == t) || (exists|
        i: int,
    | 0 <= i < s.len() && (#[trigger] s[i]).id == id && s[i].task == t)
}

/// Every task sitting in the ready queue is ripe at the given clock
/// reading: it either never had a due time or its due time has passed.
/// Inserts of immediate tasks and promotions of due tasks keep the queue
/// this way, which is why a claim never hands out a deferred task early.
pub open spec fn ripe_queue(q: Seq<KvEntry>, now: i64) -> bool {
    forall|i: int|
        0 <= i < q.len() ==> match (#[trigger] q[i]).task.scheduled_time {
            Some(t) => t <= now,
            None => true,
        }
}

/// The key-value store: a FIFO queue of ready tasks — index zero is the
/// next to be claimed, new tasks enter at the back — and the deferred set
/// ordered by due time.
pub struct KvStore {
    queue: Vec<KvEntry>,
    scheduled: Vec<KvEntry>,
}

impl KvStore {
    /// The ready queue, next-to-claim first.
    pub closed spec fn queue_view(&self) -> Seq<KvEntry> {
        self.queue@
    }

    /// The deferred set, earliest due time first.
    pub closed spec fn scheduled_view(&self) -> Seq<KvEntry> {
        self.scheduled@
    }

    /// Ids never repeat, the deferred set is ordered by due time, and
    /// only deferred tasks sit in it.
    pub open spec fn wf(&self) -> bool {
        &&& kv_unique_ids(self.queue_view(), self.scheduled_view())
        &&& sorted_by_due(self.scheduled_view())
        &&& all_deferred(self.scheduled_view())
    }

    /// An empty store.
    pub fn new() -> (s: KvStore)
        ensures
            s.queue_view() == Seq::<KvEntry>::empty(),
            s.scheduled_view() == Seq::<KvEntry>::empty(),
            s.wf(),
    {
        KvStore { queue: Vec::new(), scheduled: Vec::new() }
    }
}

/// Kinds of failure this realization reports: a lookup or a deletion may
/// name an id no entry carries.
#[derive(Clone, Copy, Debug, PartialEq, Eq, Structural)]
pub enum KvError {
    NotFound,
}

impl KvError {
    /// The message the failure is reported with.
    pub fn message(&self) -> (r: &'static str)
        ensures
            r@ == "Task with given ID does not exist in database."@,
    {
        "Task with given ID does not exist in database."
    }
}

/// The entry's due time, as the deferred set scores it.
fn due_secs(e: &KvEntry) -> (r: i64)
    ensures
        r == due_of(*e),
{
    match e.task.scheduled_time {
        Some(t) => t,
        None => 0,
    }
}

/// Files a deferred task into the set ordered by due time, behind any
/// entries already due at the same time. Only a deferred task can be
/// scored, and the id must be fresh: ids identify at most one live task.
pub fn schedule_task(id: u64, task: Task, store: &mut KvStore)
    requires
        old(store).wf(),
        task.scheduled_time is Some,
        !kv_contains_id(old(store).queue_view(), old(store).scheduled_view(), id),
    ensures
        final(store).wf(),
        final(store).queue_view() == old(store).queue_view(),
        exists|k: int|
            0 <= k <= old(store).scheduled_view().len() && final(store).scheduled_view() == old(
                store,
            ).scheduled_view().insert(k, KvEntry { id, task }) && (forall|j: int|
                0 <= j < k ==> due_of(#[trigger] old(store).scheduled_view()[j]) <= due_of(
                    KvEntry { id, task },
                )) && (forall|j: int|
                k <= j < old(store).scheduled_view().len() ==> due_of(
                    #[trigger] old(store).scheduled_view()[j],
                ) > due_of(KvEntry { id, task })),
{
    let entry = KvEntry { id, task };
    let due = due_secs(&entry);
    let ghost q = store.queue_view();
    let ghost s = store.scheduled_view();
    let n = store.scheduled.len();
    let mut k: usize = 0;
    while k < n && due_secs(&store.scheduled[k]) <= due
        invariant
            store.scheduled@ == s,
            sorted_by_due(s),
            n == s.len(),
            0 <= k <= n,
            due == due_of(entry),
            forall|j: int| 0 <= j < k ==> due_of(#[trigger] s[j]) <= due,
        decreases n - k,
    {
        k = k + 1;
    }
    proof {
        assert forall|j: int| k <= j < n implies due_of(#[trigger] s[j]) > due by {
            assert(due_of(s[k as int]) <= due_of(s[j]));
        }
    }
    store.scheduled.insert(k, entry);
    proof {
        let s2 = store.scheduled@;
        assert(s2 == s.insert(k as int, entry));
        assert forall|a: int, b: int| 0 <= a < b < s2.len() implies #[trigger] s2[a].id
            != #[trigger] s2[b].id by {
            lemma_insert_index(s, k as int, entry, a);
            lemma_insert_index(s, k as int, entry, b);
        }
        assert forall|a: int, b: int|
            0 <= a < q.len() && 0 <= b < s2.len() implies #[trigger] q[a].id
            != #[trigger] s2[b].id by {
            lemma_insert_index(s, k as int, entry, b);
        }
        assert forall|a: int, b: int| 0 <= a <= b < s2.len() implies due_of(#[trigger] s2[a])
            <= due_of(#[trigger] s2[b]) by {
            lemma_insert_index(s, k as int, entry, a);
            lemma_insert_index(s, k as int, entry, b);
        }
        assert forall|a: int| 0 <= a < s2.len() implies (
        #[trigger] s2[a]).task.scheduled_time is Some by {
            lemma_insert_index(s, k as int, entry, a);
        }
    }
}

/// What `Seq::insert` puts at each index: the inserted element at the
/// insertion point, and the old elements shifted around it.
proof fn lemma_insert_index(s: Seq<KvEntry>, k: int, e: KvEntry, a: int)
    requires
        0 <= k <= s.len(),
        0 <= a < s.len() + 1,
    ensures
        a < k ==> s.insert(k, e)[a] == s[a],
        a == k ==> s.insert(k, e)[a] == e,
        a > k ==> s.insert(k, e)[a] == s[a - 1],
{
}

/// Appends an immediately-ready task at the back of the FIFO queue. The
/// id must be fresh: ids identify at most one live task.
pub fn insert_task_to_queue(id: u64, task: Task, store: &mut KvStore)
    requires
        old(store).wf(),
        !kv_contains_id(old(store).queue_view(), old(store).scheduled_view(), id),
    ensures
        final(store).wf(),
        final(store).queue_view() == old(store).queue_view().push(KvEntry { id, task }),
        final(store).scheduled_view() == old(store).scheduled_view(),
{
    let entry = KvEntry { id, task };
    let ghost q = store.queue_view();
    let ghost s = store.scheduled_view();
    store.queue.push(entry);
    proof {
        let q2 = store.queue@;
        assert forall|a: int, b: int| 0 <= a < b < q2.len() implies #[trigger] q2[a].id
            != #[trigger] q2[b].id by {
            if b < q.len() {
                assert(q2[a] == q[a] && q2[b] == q[b]);
            } else {
                assert(q2[a] == q[a] && q2[b] == entry);
            }
        }
        assert forall|a: int, b: int|
            0 <= a < q2.len() && 0 <= b < s.len() implies #[trigger] q2[a].id
            != #[trigger] s[b].id by {
            if a < q.len() {
                assert(q2[a] == q[a]);
            } else {
                assert(q2[a] == entry);
            }
        }
    }
}

/// Claims a task in this realization: pops the front of the FIFO queue.
/// Returns nothing, and changes nothing, exactly when the queue is empty.
/// The popped task leaves the store outright — no record of it remains.
pub fn get_task_from_queue(store: &mut KvStore) -> (r: Option<Task>)
    requires
        old(store).wf(),
    ensures
        final(store).wf(),
        r is None ==> old(store).queue_view().len() == 0 && final(store).queue_view() == old(
            store,
        ).queue_view(),
        r matches Some(t) ==> old(store).queue_view().len() > 0 && t == old(
            store,
        ).queue_view()[0].task && final(store).queue_view() == old(store).queue_view().remove(0),
        final(store).scheduled_view() == old(store).scheduled_view(),
{
    if store.queue.len() == 0 {
        return None;
    }
    let ghost q = store.queue_view();
    let ghost s = store.scheduled_view();
    let entry = store.queue.remove(0);
    proof {
        let q2 = store.queue@;
        assert forall|a: int, b: int| 0 <= a < b < q2.len() implies #[trigger] q2[a].id
            != #[trigger] q2[b].id by {
            assert(q2[a] == q[a + 1] && q2[b] == q[b + 1]);
        }
        assert forall|a: int, b: int|
            0 <= a < q2.len() && 0 <= b < s.len() implies #[trigger] q2[a].id
            != #[trigger] s[b].id by {
            assert(q2[a] == q[a + 1]);
        }
    }
    Some(entry.task)
}

/// Read-only snapshot of both structures: the ready tasks in queue order,
/// next-to-claim first, and the deferred tasks in due-time order.
pub fn fetch_all_tasks(store: &KvStore) -> (r: (Vec<Task>, Vec<Task>))
    ensures
        r.0@ == store.queue_view().map_values(|e: KvEntry| e.task),
        r.1@ == store.scheduled_view().map_values(|e: KvEntry| e.task),
{
    let ghost q = store.queue_view();
    let ghost s = store.scheduled_view();
    let mut queued: Vec<Task> = Vec::new();
    let n = store.queue.len();
    let mut i: usize = 0;
    while i < n
        invariant
            store.queue@ == q,
            n == q.len(),
            0 <= i <= n,
            queued@ == q.subrange(0, i as int).map_values(|e: KvEntry| e.task),
        decreases n - i,
    {
        queued.push(store.queue[i].task);
        proof {
            assert(queued@ =~= q.subrange(0, i as int + 1).map_values(|e: KvEntry| e.task));
        }
        i = i + 1;
    }
    let mut scheduled: Vec<Task> = Vec::new();
    let m = store.scheduled.len();
    let mut j: usize = 0;
    while j < m
        invariant
            store.scheduled@ == s,
            m == s.len(),
            0 <= j <= m,
            scheduled@ == s.subrange(0, j as int).map_values(|e: KvEntry| e.task),
        decreases m - j,
    {
        scheduled.push(store.scheduled[j].task);
        proof {
            assert(scheduled@ =~= s.subrange(0, j as int + 1).map_values(|e: KvEntry| e.task));
        }
        j = j + 1;
    }
    proof {
        assert(q.subrange(0, n as int) == q);
        assert(s.subrange(0, m as int) == s);
    }
    (queued, scheduled)
}

/// Looks a task up by id across both structures. Succeeds exactly when
/// some entry carries the id, and returns that entry's task; since ids
/// never repeat, the entry found is the one entry carrying it.
pub fn fetch_task(task_id: u64, store: &KvStore) -> (r: Result<Task, KvError>)
    requires
        store.wf(),
    ensures
        r matches Ok(t) ==> kv_has_task(store.queue_view(), store.scheduled_view(), task_id, t),
        r is Err ==> r == Err::<Task, KvError>(KvError::NotFound) && !kv_contains_id(
            store.queue_view(),
            store.scheduled_view(),
            task_id,
        ),
{
    let ghost q = store.queue_view();
    let ghost s = store.scheduled_view();
    let n = store.queue.len();
    let mut i: usize = 0;
    while i < n
        invariant
            store.queue@ == q,
            n == q.len(),
            0 <= i <= n,
            forall|j: int| 0 <= j < i ==> (#[trigger] q[j]).id != task_id,
        decreases n - i,
    {
        if store.queue[i].id == task_id {
            proof {
                assert((#[trigger] store.queue_view()[i as int]).id == task_id);
            }
            return Ok(store.queue[i].task);
        }
        i = i + 1;
    }
    let m = store.scheduled.len();
    let mut j: usize = 0;
    while j < m
        invariant
            store.scheduled@ == s,
            m == s.len(),
            0 <= j <= m,
            forall|k: int| 0 <= k < j ==> (#[trigger] s[k]).id != task_id,
        decreases m - j,
    {
        if store.scheduled[j].id == task_id {
            proof {
                assert((#[trigger] store.scheduled_view()[j as int]).id == task_id);
            }
            return Ok(store.scheduled[j].task);
        }
        j = j + 1;
    }
    Err(KvError::NotFound)
}

/// Deletes the task with the given id from whichever structure holds it.
/// Succeeds exactly when some entry carries the id; afterwards no entry
/// does, so a second deletion of the same id reports the id unknown. On
/// failure the store is unchanged.
pub fn remove_task(task_id: u64, store: &mut KvStore) -> (r: Result<(), KvError>)
    requires
        old(store).wf(),
    ensures
        final(store).wf(),
        r is Ok ==> kv_contains_id(old(store).queue_view(), old(store).scheduled_view(), task_id),
        r is Ok ==> (exists|k: int|
            0 <= k < old(store).queue_view().len() && (#[trigger] old(store).queue_view()[k]).id
                == task_id && final(store).queue_view() == old(store).queue_view().remove(k)
                && final(store).scheduled_view() == old(store).scheduled_view()) || (exists|k: int|
            0 <= k < old(store).scheduled_view().len() && (
            #[trigger] old(store).scheduled_view()[k]).id == task_id && final(store).scheduled_view() == old(store).scheduled_view().remove(k) && final(store).queue_view()
                == old(store).queue_view()),
        r is Err ==> r == Err::<(), KvError>(KvError::NotFound) && !kv_contains_id(
            old(store).queue_view(),
            old(store).scheduled_view(),
            task_id,
        ) && final(store).queue_view() == old(store).queue_view() && final(store).scheduled_view()
            == old(store).scheduled_view(),
        !kv_contains_id(final(store).queue_view(), final(store).scheduled_view(), task_id),
{
    let ghost q = store.queue_view();
    let ghost s = store.scheduled_view();
    let n = store.queue.len();
    let mut i: usize = 0;
    while i < n
        invariant
            store.queue@ == q,
            store.scheduled@ == s,
            q == old(store).queue_view(),
            s == old(store).scheduled_view(),
            kv_unique_ids(q, s),
            sorted_by_due(s),
            all_deferred(s),
            n == q.len(),
            0 <= i <= n,
            forall|j: int| 0 <= j < i ==> (#[trigger] q[j]).id != task_id,
        decreases n - i,
    {
        if store.queue[i].id == task_id {
            store.queue.remove(i);
            proof {
                assert(old(store).queue_view()[i as int].id == task_id);
                let q2 = store.queue@;
                assert(q2 == q.remove(i as int));
                assert forall|a: int, b: int| 0 <= a < b < q2.len() implies #[trigger] q2[a].id
                    != #[trigger] q2[b].id by {
                    lemma_remove_index(q, i as int, a);
                    lemma_remove_index(q, i as int, b);
                }
                assert forall|a: int, b: int|
                    0 <= a < q2.len() && 0 <= b < s.len() implies #[trigger] q2[a].id
                    != #[trigger] s[b].id by {
                    lemma_remove_index(q, i as int, a);
                }
                assert forall|j: int| 0 <= j < q2.len() implies (#[trigger] q2[j]).id
                    != task_id by {
                    lemma_remove_index(q, i as int, j);
                }
            }
            return Ok(());
        }
        i = i + 1;
    }
    let m = store.scheduled.len();
    let mut j: usize = 0;
    while j < m
        invariant
            store.queue@ == q,
            store.scheduled@ == s,
            q == old(store).queue_view(),
            s == old(store).scheduled_view(),
            kv_unique_ids(q, s),
            sorted_by_due(s),
            all_deferred(s),
            m == s.len(),
            0 <= j <= m,
            forall|k: int| 0 <= k < q.len() ==> (#[trigger] q[k]).id != task_id,
            forall|k: int| 0 <= k < j ==> (#[trigger] s[k]).id != task_id,
        decreases m - j,
    {
        if store.scheduled[j].id == task_id {
            store.scheduled.remove(j);
            proof {
                assert(old(store).scheduled_view()[j as int].id == task_id);
                let s2 = store.scheduled@;
                assert(s2 == s.remove(j as int));
                assert forall|a: int, b: int| 0 <= a < b < s2.len() implies #[trigger] s2[a].id
                    != #[trigger] s2[b].id by {
                    lemma_remove_index(s, j as int, a);
                    lemma_remove_index(s, j as int, b);
                }
                assert forall|a: int, b: int|
                    0 <= a < q.len() && 0 <= b < s2.len() implies #[trigger] q[a].id
                    != #[trigger] s2[b].id by {
                    lemma_remove_index(s, j as int, b);
                }
                assert forall|a: int, b: int| 0 <= a <= b < s2.len() implies due_of(
                    #[trigger] s2[a],
                ) <= due_of(#[trigger] s2[b]) by {
                    lemma_remove_index(s, j as int, a);
                    lemma_remove_index(s, j as int, b);
                }
                assert forall|a: int| 0 <= a < s2.len() implies (
                #[trigger] s2[a]).task.scheduled_time is Some by {
                    lemma_remove_index(s, j as int, a);
                }
                assert forall|k: int| 0 <= k < s2.len() implies (#[trigger] s2[k]).id
                    != task_id by {
                    lemma_remove_index(s, j as int, k);
                }
            }
            return Ok(());
        }
        j = j + 1;
    }
    Err(KvError::NotFound)
}

/// What `Seq::remove` leaves at each index: the elements around the
/// removed one, shifted together.
proof fn lemma_remove_index(s: Seq<KvEntry>, k: int, a: int)
    requires
        0 <= k < s.len(),
        0 <= a < s.len() - 1,
    ensures
        a < k ==> s.remove(k)[a] == s[a],
        a >= k ==> s.remove(k)[a] == s[a + 1],
{
}

/// One promoter pass: when the earliest-due deferred entry is due, it
/// moves atomically to the back of the ready queue — exactly one entry,
/// exactly once, as the watched transaction of the real store guarantees.
/// When the set is empty or its earliest entry is not yet due, nothing
/// changes. Reports whether an entry moved.
pub fn check_scheduled_tasks(store: &mut KvStore, now: i64) -> (promoted: bool)
    requires
        old(store).wf(),
    ensures
        final(store).wf(),
        promoted <==> old(store).scheduled_view().len() > 0 && due_of(
            old(store).scheduled_view()[0],
        ) <= now,
        promoted ==> final(store).scheduled_view() == old(store).scheduled_view().remove(0) && final(store).queue_view() == old(store).queue_view().push(old(store).scheduled_view()[0]),
        !promoted ==> final(store).queue_view() == old(store).queue_view() && final(store).scheduled_view() == old(store).scheduled_view(),
{
    if store.scheduled.len() == 0 {
        return false;
    }
    let head_due = due_secs(&store.scheduled[0]);
    if head_due > now {
        return false;
    }
    let ghost q = store.queue_view();
    let ghost s = store.scheduled_view();
    let entry = store.scheduled.remove(0);
    store.queue.push(entry);
    proof {
        let q2 = store.queue@;
        let s2 = store.scheduled@;
        assert(entry == s[0]);
        assert forall|a: int, b: int| 0 <= a < b < q2.len() implies #[trigger] q2[a].id
            != #[trigger] q2[b].id by {
            if b < q.len() {
                assert(q2[a] == q[a] && q2[b] == q[b]);
            } else {
                assert(q2[a] == q[a] && q2[b] == s[0]);
            }
        }
        assert forall|a: int, b: int| 0 <= a < b < s2.len() implies #[trigger] s2[a].id
            != #[trigger] s2[b].id by {
            assert(s2[a] == s[a + 1] && s2[b] == s[b + 1]);
        }
        assert forall|a: int, b: int|
            0 <= a < q2.len() && 0 <= b < s2.len() implies #[trigger] q2[a].id
            != #[trigger] s2[b].id by {
            assert(s2[b] == s[b + 1]);
            if a < q.len() {
                assert(q2[a] == q[a]);
            } else {
                assert(q2[a] == s[0]);
            }
        }
        assert forall|a: int, b: int| 0 <= a <= b < s2.len() implies due_of(#[trigger] s2[a])
            <= due_of(#[trigger] s2[b]) by {
            assert(s2[a] == s[a + 1] && s2[b] == s[b + 1]);
        }
        assert forall|a: int| 0 <= a < s2.len() implies (
        #[trigger] s2[a]).task.scheduled_time is Some by {
            assert(s2[a] == s[a + 1]);
        }
    }
    true
}

/// Round trip in this realization: while an entry sits in the store —
/// filed by an insert or a scheduling, neither claimed nor removed since —
/// any task found under its id is that entry's task, kind and due time
/// included, because no other entry carries the id.
pub proof fn lemma_kv_fetch_round_trip(q: Seq<KvEntry>, s: Seq<KvEntry>, e: KvEntry, t: Task)
    requires
        kv_unique_ids(q, s),
        q.contains(e) || s.contains(e),
        kv_has_task(q, s, e.id, t),
    ensures
        t == e.task,
{
    if q.contains(e) {
        let i = choose|i: int| 0 <= i < q.len() && q[i] == e;
        if exists|j: int| 0 <= j < q.len() && (#[trigger] q[j]).id == e.id && q[j].task == t {
            let j = choose|j: int| 0 <= j < q.len() && (#[trigger] q[j]).id == e.id && q[j].task
                == t;
            assert(q[i].id == q[j].id);
            assert(i == j);
        } else {
            let j = choose|j: int| 0 <= j < s.len() && (#[trigger] s[j]).id == e.id && s[j].task
                == t;
            assert(q[i].id != s[j].id);
        }
    } else {
        let i = choose|i: int| 0 <= i < s.len() && s[i] == e;
        if exists|j: int| 0 <= j < s.len() && (#[trigger] s[j]).id == e.id && s[j].task == t {
            let j = choose|j: int| 0 <= j < s.len() && (#[trigger] s[j]).id == e.id && s[j].task
                == t;
            assert(s[i].id == s[j].id);
            assert(i == j);
        } else {
            let j = choose|j: int| 0 <= j < q.len() && (#[trigger] q[j]).id == e.id && q[j].task
                == t;
            assert(q[j].id != s[i].id);
        }
    }
}

/// Sorted promotion is complete: whenever any deferred entry is due, the
/// earliest-due entry — the one a promoter pass moves — is due as well,
/// so a due task is never held back behind one that is not yet due.
pub proof fn lemma_due_head_promoted(s: Seq<KvEntry>, now: i64, j: int)
    requires
        sorted_by_due(s),
        0 <= j < s.len(),
        due_of(s[j]) <= now,
    ensures
        s.len() > 0,
        due_of(s[0]) <= now,
{
    assert(due_of(s[0]) <= due_of(s[j]));
}

/// Promotion never readies a task early: a queue whose tasks are all ripe
/// stays that way under a promoter pass, because the pass moves an entry
/// only once its due time has passed. A claim pops only queue entries, so
/// against a ripe queue it never returns a task before its due time.
pub proof fn lemma_promotion_keeps_queue_ripe(q: Seq<KvEntry>, s: Seq<KvEntry>, now: i64)
    requires
        ripe_queue(q, now),
        s.len() > 0,
        due_of(s[0]) <= now,
        all_deferred(s),
    ensures
        ripe_queue(q.push(s[0]), now),
{
    let q2 = q.push(s[0]);
    assert forall|i: int| 0 <= i < q2.len() implies match (#[trigger] q2[i]).task.scheduled_time {
        Some(t) => t <= now,
        None => true,
    } by {
        if i < q.len() {
            assert(q2[i] == q[i]);
            assert(ripe_queue(q, now));
            assert(match q[i].task.scheduled_time {
                Some(t) => t <= now,
                None => true,
            });
        } else {
            assert(q2[i] == s[0]);
        }
    }
}

} // verus!
