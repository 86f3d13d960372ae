//! The task queue: for each block at most one pending due time.
//!
//! Blocks are few, so the queue is a plain vector that is scanned linearly.
//! Its mathematical model is a finite map from block id to due time.

use vstd::prelude::*;

verus! {

/// A request to render block `id` at `update_time` (milliseconds) or later.
#[derive(Clone, Copy, Debug, PartialEq, Eq, Structural)]
pub struct Task {
    pub id: usize,
    pub update_time: u64,
}

/// `(t1, id1)` comes strictly before `(t2, id2)`: earlier due time first,
/// and among equal due times the lower block id first.
pub open spec fn fires_before(t1: u64, id1: usize, t2: u64, id2: usize) -> bool {
    t1 < t2 || (t1 == t2 && id1 < id2)
}

/// `id` holds the task that fires first among all tasks of `q`.
pub open spec fn is_first(q: Map<usize, u64>, id: usize) -> bool {
    &&& q.contains_key(id)
    &&& forall|other: usize|
        q.contains_key(other) && other != id ==> fires_before(q[id], id, q[other], other)
}

/// The queue after a request to render `id` at `due`: a new task where the
/// block had none, the earlier of the two instants where it had one.
pub open spec fn upserted(q: Map<usize, u64>, id: usize, due: u64) -> Map<usize, u64> {
    if q.contains_key(id) && q[id] <= due {
        q
    } else {
        q.insert(id, due)
    }
}

/// The tasks of `q` that are not yet due at `now`.
pub open spec fn pending_after(q: Map<usize, u64>, now: u64) -> Map<usize, u64> {
    Map::new(|id: usize| q.contains_key(id) && q[id] > now, |id: usize| q[id])
}

/// `q` holds no task.
pub open spec fn no_tasks(q: Map<usize, u64>) -> bool {
    forall|id: usize| !q.contains_key(id)
}

/// No task of `q` is due at `now`.
pub open spec fn none_due(q: Map<usize, u64>, now: u64) -> bool {
    forall|id: usize| q.contains_key(id) ==> q[id] > now
}

spec fn has_id(s: Seq<Task>, id: usize) -> bool {
    exists|i: int| 0 <= i < s.len() && s[i].id == id
}

spec fn position(s: Seq<Task>, id: usize) -> int {
    choose|i: int| 0 <= i < s.len() && s[i].id == id
}

spec fn distinct_ids(s: Seq<Task>) -> bool {
    forall|i: int, j: int| 0 <= i < j < s.len() ==> s[i].id != s[j].id
}

spec fn as_map(s: Seq<Task>) -> Map<usize, u64> {
    Map::new(|id: usize| has_id(s, id), |id: usize| s[position(s, id)].update_time)
}

proof fn lemma_entry(s: Seq<Task>, i: int)
    requires
        distinct_ids(s),
        0 <= i < s.len(),
    ensures
        has_id(s, s[i].id),
        position(s, s[i].id) == i,
        as_map(s).contains_key(s[i].id),
        as_map(s)[s[i].id] == s[i].update_time,
{
    assert(s[position(s, s[i].id)].id == s[i].id);
}

proof fn lemma_push(s: Seq<Task>, t: Task)
    requires
        distinct_ids(s),
        !has_id(s, t.id),
    ensures
        distinct_ids(s.push(t)),
        as_map(s.push(t)) == as_map(s).insert(t.id, t.update_time),
{
    let s2 = s.push(t);
    assert forall|id: usize| #[trigger] has_id(s2, id) <==> (has_id(s, id) || id == t.id) by {
        if has_id(s2, id) {
            assert(s2[position(s2, id)].id == id);
        }
        if has_id(s, id) {
            assert(s2[position(s, id)].id == id);
        }
        if id == t.id {
            assert(s2[s.len() as int].id == id);
        }
    }
}

proof fn lemma_update(s: Seq<Task>, i: int, due: u64)
    requires
        distinct_ids(s),
        0 <= i < s.len(),
    ensures
        distinct_ids(s.update(i, Task { id: s[i].id, update_time: due })),
        as_map(s.update(i, Task { id: s[i].id, update_time: due })) == as_map(s).insert(
            s[i].id,
            due,
        ),
{
    let s2 = s.update(i, Task { id: s[i].id, update_time: due });
    assert forall|id: usize| #[trigger] has_id(s2, id) <==> has_id(s, id) by {
        if has_id(s2, id) {
            assert(s[position(s2, id)].id == id);
        }
        if has_id(s, id) {
            assert(s2[position(s, id)].id == id);
        }
    }
    lemma_entry(s, i);
}

proof fn lemma_remove(s: Seq<Task>, i: int)
    requires
        distinct_ids(s),
        0 <= i < s.len(),
    ensures
        distinct_ids(s.remove(i)),
        as_map(s.remove(i)) == as_map(s).remove(s[i].id),
{
    let s2 = s.remove(i);
    assert forall|id: usize| #[trigger] has_id(s2, id) <==> (has_id(s, id) && id != s[i].id) by {
        if has_id(s2, id) {
            let k: int = position(s2, id);
            let k0: int = if k < i { k } else { k + 1 };
            assert(s[k0].id == id);
        }
        if has_id(s, id) && id != s[i].id {
            let k: int = position(s, id);
            let k2: int = if k < i { k } else { k - 1 };
            assert(s2[k2].id == id);
        }
    }
}

/// The pending tasks, at most one for each block.
pub struct TaskQueue {
    tasks: Vec<Task>,
}

impl View for TaskQueue {
    type V = Map<usize, u64>;

    /// The due time of each block that has a pending task.
    closed spec fn view(&self) -> Map<usize, u64> {
        as_map(self.tasks@)
    }
}

impl TaskQueue {
    #[verifier::type_invariant]
    spec fn distinct(&self) -> bool {
        distinct_ids(self.tasks@)
    }

    /// A queue without tasks.
    pub fn new() -> (q: TaskQueue)
        ensures
            q@ == Map::<usize, u64>::empty(),
    {
        TaskQueue { tasks: Vec::new() }
    }

    /// Whether no task is pending.
    pub fn is_empty(&self) -> (r: bool)
        ensures
            r <==> no_tasks(self@),
            r <==> self@ == Map::<usize, u64>::empty(),
    {
        proof {
            use_type_invariant(self);
            if self.tasks@.len() > 0 {
                lemma_entry(self.tasks@, 0);
            } else {
                assert(self@ =~= Map::<usize, u64>::empty());
            }
        }
        self.tasks.len() == 0
    }

    /// The due time of block `id`, where it has a pending task.
    pub fn due_time(&self, id: usize) -> (r: Option<u64>)
        ensures
            r == (if self@.contains_key(id) {
                Some(self@[id])
            } else {
                None
            }),
    {
        proof {
            use_type_invariant(self);
        }
        let mut i: usize = 0;
        while i < self.tasks.len()
            invariant
                i <= self.tasks@.len(),
                distinct_ids(self.tasks@),
                forall|k: int| 0 <= k < i ==> self.tasks@[k].id != id,
            decreases self.tasks@.len() - i,
        {
            if self.tasks[i].id == id {
                proof {
                    lemma_entry(self.tasks@, i as int);
                }
                return Some(self.tasks[i].update_time);
            }
            i += 1;
        }
        None
    }

    /// The earliest due time over all pending tasks; `None` for an empty
    /// queue.
    pub fn peek_due(&self) -> (r: Option<u64>)
        ensures
            r is None <==> no_tasks(self@),
            r matches Some(t) ==> {
                &&& exists|id: usize| self@.contains_key(id) && self@[id] == t
                &&& forall|id: usize| self@.contains_key(id) ==> t <= self@[id]
            },
    {
        proof {
            use_type_invariant(self);
        }
        if self.tasks.len() == 0 {
            return None;
        }
        let mut best: usize = 0;
        let mut i: usize = 1;
        while i < self.tasks.len()
            invariant
                0 <= best < i <= self.tasks@.len(),
                forall|k: int|
                    0 <= k < i ==> self.tasks@[best as int].update_time
                        <= self.tasks@[k].update_time,
            decreases self.tasks@.len() - i,
        {
            if self.tasks[i].update_time < self.tasks[best].update_time {
                best = i;
            }
            i += 1;
        }
        let t: u64 = self.tasks[best].update_time;
        proof {
            lemma_entry(self.tasks@, best as int);
        }
        Some(t)
    }

    /// Removes and returns the block whose task fires first, if that task is
    /// due at `now`: the earliest due time, and among equal due times the
    /// lowest block id.
    pub fn pop_due(&mut self, now: u64) -> (r: Option<usize>)
        ensures
            match r {
                Some(id) => {
                    &&& is_first(old(self)@, id)
                    &&& old(self)@[id] <= now
                    &&& final(self)@ == old(self)@.remove(id)
                    &&& forall|other: usize|
                        other != id && #[trigger] old(self)@.contains_key(other)
                            ==> final(self)@.contains_key(other)
                },
                None => none_due(old(self)@, now) && final(self)@ == old(self)@,
            },
    {
        proof {
            use_type_invariant(&*self);
        }
        if self.tasks.len() == 0 {
            return None;
        }
        let mut best: usize = 0;
        let mut i: usize = 1;
        while i < self.tasks.len()
            invariant
                0 <= best < i <= self.tasks@.len(),
                distinct_ids(self.tasks@),
                forall|k: int|
                    0 <= k < i && k != best ==> fires_before(
                        self.tasks@[best as int].update_time,
                        self.tasks@[best as int].id,
                        #[trigger] self.tasks@[k].update_time,
                        self.tasks@[k].id,
                    ),
            decreases self.tasks@.len() - i,
        {
            let candidate = self.tasks[i];
            let leader = self.tasks[best];
            if candidate.update_time < leader.update_time || (candidate.update_time
                == leader.update_time && candidate.id < leader.id) {
                best = i;
            }
            i += 1;
        }
        let first = self.tasks[best];
        proof {
            lemma_entry(self.tasks@, best as int);
        }
        if first.update_time <= now {
            let mut tasks: Vec<Task> = Vec::new();
            core::mem::swap(&mut self.tasks, &mut tasks);
            proof {
                lemma_remove(tasks@, best as int);
            }
            tasks.remove(best);
            self.tasks = tasks;
            Some(first.id)
        } else {
            None
        }
    }

    /// Schedules block `id` at `due`. A block without a task gets one; a
    /// block with a task keeps the earlier of the two due times.
    pub fn upsert(&mut self, id: usize, due: u64)
        ensures
            final(self)@ == upserted(old(self)@, id, due),
            final(self)@.contains_key(id),
            forall|other: usize| #[trigger]
                old(self)@.contains_key(other) ==> final(self)@.contains_key(other),
    {
        proof {
            use_type_invariant(&*self);
        }
        let mut i: usize = 0;
        while i < self.tasks.len()
            invariant
                i <= self.tasks@.len(),
                self.tasks@ == old(self).tasks@,
                distinct_ids(self.tasks@),
                forall|k: int| 0 <= k < i ==> self.tasks@[k].id != id,
            decreases self.tasks@.len() - i,
        {
            let current = self.tasks[i];
            if current.id == id {
                proof {
                    lemma_entry(self.tasks@, i as int);
                }
                if due < current.update_time {
                    let mut tasks: Vec<Task> = Vec::new();
                    core::mem::swap(&mut self.tasks, &mut tasks);
                    proof {
                        lemma_update(tasks@, i as int, due);
                    }
                    tasks.set(i, Task { id, update_time: due });
                    self.tasks = tasks;
                }
                return ;
            }
            i += 1;
        }
        let mut tasks: Vec<Task> = Vec::new();
        core::mem::swap(&mut self.tasks, &mut tasks);
        proof {
            lemma_push(tasks@, Task { id, update_time: due });
        }
        tasks.push(Task { id, update_time: due });
        self.tasks = tasks;
    }

    /// The number of pending tasks.
    pub fn len(&self) -> (n: usize)
        ensures
            self@.dom().finite(),
            n == self@.dom().len(),
    {
        proof {
            use_type_invariant(self);
            lemma_len(self.tasks@);
        }
        self.tasks.len()
    }
}

proof fn lemma_len(s: Seq<Task>)
    requires
        distinct_ids(s),
    ensures
        as_map(s).dom().finite(),
        as_map(s).dom().len() == s.len(),
    decreases s.len(),
{
    if s.len() == 0 {
        assert(as_map(s).dom() =~= Set::<usize>::empty());
    } else {
        let last = s.last();
        let rest = s.drop_last();
        lemma_len(rest);
        if has_id(rest, last.id) {
            assert(s[position(rest, last.id)].id == last.id);
        }
        assert(s =~= rest.push(last));
        lemma_push(rest, last);
    }
}

/// Earliest wins: where a block has a task due at `t1`, a request for a
/// later instant leaves the queue as it is, and a request for an earlier
/// instant moves the block's task there and touches no other task.
pub proof fn lemma_earliest_wins(q: Map<usize, u64>, id: usize, t1: u64, t2: u64)
    requires
        q.contains_key(id),
        q[id] == t1,
    ensures
        t2 >= t1 ==> upserted(q, id, t2) == q,
        t2 < t1 ==> upserted(q, id, t2)[id] == t2,
        upserted(q, id, t2).dom() == q.dom(),
        forall|other: usize|
            other != id && q.contains_key(other) ==> #[trigger] upserted(q, id, t2)[other]
                == q[other],
{
}

/// A request never delays a block: after it the block is due, and no later
/// than it was before and no later than requested.
pub proof fn lemma_request_never_delays(q: Map<usize, u64>, id: usize, due: u64)
    ensures
        upserted(q, id, due).contains_key(id),
        upserted(q, id, due)[id] <= due,
        q.contains_key(id) ==> upserted(q, id, due)[id] <= q[id],
        upserted(q, id, due)[id] == due || (q.contains_key(id) && upserted(q, id, due)[id]
            == q[id]),
{
}

} // verus!
