use vstd::prelude::*;
use crate::autonomy::worker::{LoadLevel, Worker, WorkerStatus};
use crate::employee::{memory_file_for, EmployeeRecord};
use crate::text::same_text;

verus! {

/// How many tasks each worker runs, by worker id.
#[derive(Debug)]
pub struct WorkerPool {
    running_counts: Vec<(String, usize)>,
}

/// The entries of `s` have distinct worker ids.
pub open spec fn distinct_keys(s: Seq<(String, usize)>) -> bool {
    forall|i: int, j: int| 0 <= i < j < s.len() ==> (#[trigger] s[i]).0@ != (#[trigger] s[j]).0@
}

/// The count that `s` holds for worker `id`, 0 when it holds none.
pub open spec fn count_in(s: Seq<(String, usize)>, id: Seq<char>) -> nat
    decreases s.len(),
{
    if s.len() == 0 {
        0
    } else if s.last().0@ == id {
        s.last().1 as nat
    } else {
        count_in(s.drop_last(), id)
    }
}

proof fn lemma_count_at(s: Seq<(String, usize)>, i: int)
    requires
        distinct_keys(s),
        0 <= i < s.len(),
    ensures
        count_in(s, s[i].0@) == s[i].1,
    decreases s.len(),
{
    if i < s.len() - 1 {
        assert(s.last().0@ != s[i].0@);
        assert(distinct_keys(s.drop_last()));
        assert(s.drop_last()[i] == s[i]);
        lemma_count_at(s.drop_last(), i);
    }
}

proof fn lemma_count_absent(s: Seq<(String, usize)>, id: Seq<char>)
    requires
        forall|k: int| 0 <= k < s.len() ==> (#[trigger] s[k]).0@ != id,
    ensures
        count_in(s, id) == 0,
    decreases s.len(),
{
    if s.len() > 0 {
        assert(s.last() == s[s.len() - 1]);
        assert forall|k: int| 0 <= k < s.drop_last().len() implies (#[trigger] s.drop_last()[k]).0@ != id by {
            assert(s.drop_last()[k] == s[k]);
        }
        lemma_count_absent(s.drop_last(), id);
    }
}

proof fn lemma_count_update(s: Seq<(String, usize)>, i: int, v: usize, other: Seq<char>)
    requires
        distinct_keys(s),
        0 <= i < s.len(),
        other != s[i].0@,
    ensures
        count_in(s.update(i, (s[i].0, v)), other) == count_in(s, other),
    decreases s.len(),
{
    let t = s.update(i, (s[i].0, v));
    if i == s.len() - 1 {
        assert(t.drop_last() =~= s.drop_last());
    } else {
        assert(t.drop_last() =~= s.drop_last().update(i, (s[i].0, v)));
        assert(distinct_keys(s.drop_last()));
        assert(s.drop_last()[i] == s[i]);
        lemma_count_update(s.drop_last(), i, v, other);
    }
}

proof fn lemma_count_push(s: Seq<(String, usize)>, e: (String, usize), other: Seq<char>)
    requires
        other != e.0@,
    ensures
        count_in(s.push(e), other) == count_in(s, other),
{
    assert(s.push(e).drop_last() =~= s);
}

impl WorkerPool {
    pub closed spec fn wf(&self) -> bool {
        distinct_keys(self.running_counts@)
    }

    /// The number of tasks worker `id` runs.
    pub closed spec fn count(&self, id: Seq<char>) -> nat {
        count_in(self.running_counts@, id)
    }

    /// A pool in which no worker runs anything.
    pub fn new() -> (r: WorkerPool)
        ensures
            r.wf(),
            forall|id: Seq<char>| r.count(id) == 0,
    {
        WorkerPool { running_counts: Vec::new() }
    }

    fn position(&self, worker_id: &str) -> (r: Option<usize>)
        requires
            self.wf(),
        ensures
            match r {
                Some(i) => i < self.running_counts@.len() && self.running_counts@[i as int].0@ == worker_id@,
                None => forall|k: int| 0 <= k < self.running_counts@.len() ==> (#[trigger] self.running_counts@[k]).0@ != worker_id@,
            },
    {
        let mut i: usize = 0;
        while i < self.running_counts.len()
            invariant
                i <= self.running_counts@.len(),
                forall|k: int| 0 <= k < i ==> (#[trigger] self.running_counts@[k]).0@ != worker_id@,
            decreases self.running_counts@.len() - i,
        {
            if same_text(self.running_counts[i].0.as_str(), worker_id) {
                return Some(i);
            }
            i = i + 1;
        }
        None
    }

    /// The number of tasks worker `worker_id` runs.
    pub fn running_count(&self, worker_id: &str) -> (r: usize)
        requires
            self.wf(),
        ensures
            r == self.count(worker_id@),
    {
        match self.position(worker_id) {
            Some(i) => {
                proof {
                    lemma_count_at(self.running_counts@, i as int);
                }
                self.running_counts[i].1
            },
            None => {
                proof {
                    lemma_count_absent(self.running_counts@, worker_id@);
                }
                0
            },
        }
    }

    /// Sets worker `worker_id`'s count to `value`.
    fn set_count(&mut self, worker_id: &str, value: usize)
        requires
            old(self).wf(),
        ensures
            final(self).wf(),
            final(self).count(worker_id@) == value,
            forall|other: Seq<char>| other != worker_id@ ==> final(self).count(other) == old(self).count(other),
    {
        match self.position(worker_id) {
            Some(i) => {
                let ghost s = self.running_counts@;
                let key = self.running_counts[i].0.clone();
                self.running_counts.set(i, (key, value));
                proof {
                    assert(self.running_counts@ == s.update(i as int, (s[i as int].0, value)));
                    assert(distinct_keys(self.running_counts@)) by {
                        assert forall|a: int, b: int| 0 <= a < b < self.running_counts@.len() implies (#[trigger] self.running_counts@[a]).0@ != (#[trigger] self.running_counts@[b]).0@ by {
                            assert(s[a].0@ != s[b].0@);
                        }
                    }
                    lemma_count_at(self.running_counts@, i as int);
                    assert forall|other: Seq<char>| other != worker_id@ implies count_in(self.running_counts@, other) == count_in(s, other) by {
                        lemma_count_update(s, i as int, value, other);
                    }
                }
            },
            None => {
                let ghost s = self.running_counts@;
                self.running_counts.push((worker_id.to_owned(), value));
                proof {
                    let t = self.running_counts@;
                    assert(t == s.push((t[t.len() - 1].0, value)));
                    assert(distinct_keys(t)) by {
                        assert forall|a: int, b: int| 0 <= a < b < t.len() implies (#[trigger] t[a]).0@ != (#[trigger] t[b]).0@ by {
                            if b < s.len() {
                                assert(s[a].0@ != s[b].0@);
                            } else {
                                assert(t[a] == s[a]);
                            }
                        }
                    }
                    lemma_count_at(t, t.len() - 1);
                    assert forall|other: Seq<char>| other != worker_id@ implies count_in(t, other) == count_in(s, other) by {
                        lemma_count_push(s, t[t.len() - 1], other);
                    }
                }
            },
        }
    }

    /// Counts one more task for worker `worker_id` and gives its load against
    /// its quota (1 when the worker could not be read).
    pub fn assign_task(&mut self, worker_id: &str, quota: Option<usize>) -> (r: LoadLevel)
        requires
            old(self).wf(),
            old(self).count(worker_id@) < usize::MAX,
        ensures
            final(self).wf(),
            final(self).count(worker_id@) == old(self).count(worker_id@) + 1,
            forall|other: Seq<char>| other != worker_id@ ==> final(self).count(other) == old(self).count(other),
            r == LoadLevel::of_ratio((old(self).count(worker_id@) + 1) as int, match quota {
                Some(q) => q as int,
                None => 1,
            }),
    {
        let c = self.running_count(worker_id) + 1;
        self.set_count(worker_id, c);
        let q = match quota {
            Some(q) => q,
            None => 1,
        };
        LoadLevel::from_ratio(c, q)
    }

    /// Counts one task less (never below zero) for worker `worker_id` and gives
    /// its load against its quota (1 when the worker could not be read).
    pub fn release_task(&mut self, worker_id: &str, quota: Option<usize>) -> (r: LoadLevel)
        requires
            old(self).wf(),
        ensures
            final(self).wf(),
            final(self).count(worker_id@) == if old(self).count(worker_id@) > 0 { old(self).count(worker_id@) - 1 } else { 0 },
            forall|other: Seq<char>| other != worker_id@ ==> final(self).count(other) == old(self).count(other),
            r == LoadLevel::of_ratio(final(self).count(worker_id@) as int, match quota {
                Some(q) => q as int,
                None => 1,
            }),
    {
        let c = self.running_count(worker_id);
        let c = if c > 0 { c - 1 } else { 0 };
        self.set_count(worker_id, c);
        let q = match quota {
            Some(q) => q,
            None => 1,
        };
        LoadLevel::from_ratio(c, q)
    }

    /// The indices of the workers that take a task now: active, and not
    /// critically loaded by what they run.
    pub fn available_workers(&self, workers: &Vec<Worker>) -> (r: Vec<usize>)
        requires
            self.wf(),
        ensures
            forall|k: int| 0 <= k < r@.len() ==> (#[trigger] r@[k]) < workers@.len(),
            forall|k: int, l: int| 0 <= k < l < r@.len() ==> r@[k] < r@[l],
            forall|i: int| 0 <= i < workers@.len() ==> (r@.contains(i as usize) <==> {
                let w = #[trigger] workers@[i];
                w.status == WorkerStatus::Active && LoadLevel::of_ratio(self.count(w.id@) as int, w.concurrency_quota as int).available()
            }),
    {
        let mut out: Vec<usize> = Vec::new();
        let mut i: usize = 0;
        while i < workers.len()
            invariant
                self.wf(),
                i <= workers@.len(),
                forall|k: int| 0 <= k < out@.len() ==> (#[trigger] out@[k]) < i,
                forall|k: int, l: int| 0 <= k < l < out@.len() ==> out@[k] < out@[l],
                forall|j: int| 0 <= j < i ==> (out@.contains(j as usize) <==> {
                    let w = #[trigger] workers@[j];
                    w.status == WorkerStatus::Active && LoadLevel::of_ratio(self.count(w.id@) as int, w.concurrency_quota as int).available()
                }),
            decreases workers@.len() - i,
        {
            let w = &workers[i];
            let ok = w.status == WorkerStatus::Active
                && LoadLevel::from_ratio(self.running_count(w.id.as_str()), w.concurrency_quota).is_available();
            let ghost before = out@;
            if ok {
                out.push(i);
            }
            proof {
                assert forall|j: int| 0 <= j < i + 1 implies (out@.contains(j as usize) <==> {
                    let w = #[trigger] workers@[j];
                    w.status == WorkerStatus::Active && LoadLevel::of_ratio(self.count(w.id@) as int, w.concurrency_quota as int).available()
                }) by {
                    if j < i {
                        if before.contains(j as usize) {
                            let k = choose|k: int| 0 <= k < before.len() && before[k] == j as usize;
                            assert(out@[k] == j as usize);
                        }
                        if out@.contains(j as usize) {
                            let k = choose|k: int| 0 <= k < out@.len() && out@[k] == j as usize;
                            if k < before.len() {
                                assert(before[k] == j as usize);
                            }
                        }
                    } else {
                        if ok {
                            assert(out@[out@.len() - 1] == i);
                        } else {
                            if out@.contains(j as usize) {
                                let k = choose|k: int| 0 <= k < out@.len() && out@[k] == j as usize;
                                assert(before[k] < i);
                            }
                        }
                    }
                }
            }
            i = i + 1;
        }
        out
    }
}

/// The indices of the workers that can do `cap`.
pub fn workers_with_capability(workers: &Vec<Worker>, cap: &str) -> (r: Vec<usize>)
    ensures
        forall|k: int| 0 <= k < r@.len() ==> (#[trigger] r@[k]) < workers@.len() && workers@[r@[k] as int].capable_of(cap@),
        forall|k: int, l: int| 0 <= k < l < r@.len() ==> r@[k] < r@[l],
        forall|i: int| 0 <= i < workers@.len() && (#[trigger] workers@[i]).capable_of(cap@) ==> r@.contains(i as usize),
{
    let mut out: Vec<usize> = Vec::new();
    let mut i: usize = 0;
    while i < workers.len()
        invariant
            i <= workers@.len(),
            forall|k: int| 0 <= k < out@.len() ==> (#[trigger] out@[k]) < i && workers@[out@[k] as int].capable_of(cap@),
            forall|k: int, l: int| 0 <= k < l < out@.len() ==> out@[k] < out@[l],
            forall|j: int| 0 <= j < i && (#[trigger] workers@[j]).capable_of(cap@) ==> out@.contains(j as usize),
        decreases workers@.len() - i,
    {
        let ghost before = out@;
        if workers[i].has_capability(cap) {
            out.push(i);
            proof {
                assert(out@[out@.len() - 1] == i);
                assert forall|j: int| 0 <= j < i && (#[trigger] workers@[j]).capable_of(cap@) implies out@.contains(j as usize) by {
                    let k = choose|k: int| 0 <= k < before.len() && before[k] == j as usize;
                    assert(out@[k] == j as usize);
                }
            }
        }
        i = i + 1;
    }
    out
}

/// What a worker's record becomes when a task is assigned: it takes the new
/// load and is busy when that load is critical.
pub fn apply_assigned_load(worker: &mut Worker, load: LoadLevel)
    ensures
        final(worker).current_load == load,
        final(worker).status == (if !load.available() { WorkerStatus::Busy } else { old(worker).status }),
        final(worker).id == old(worker).id,
        final(worker).concurrency_quota == old(worker).concurrency_quota,
{
    worker.current_load = load;
    if !load.is_available() {
        worker.status = WorkerStatus::Busy;
    }
}

/// What a worker's record becomes when a task is released: it takes the new
/// load, and a busy worker that is no longer critically loaded is active again.
pub fn apply_released_load(worker: &mut Worker, load: LoadLevel)
    ensures
        final(worker).current_load == load,
        final(worker).status == (if load.available() && old(worker).status == WorkerStatus::Busy {
            WorkerStatus::Active
        } else {
            old(worker).status
        }),
        final(worker).id == old(worker).id,
        final(worker).concurrency_quota == old(worker).concurrency_quota,
{
    worker.current_load = load;
    if load.is_available() && worker.status == WorkerStatus::Busy {
        worker.status = WorkerStatus::Active;
    }
}


/// The worker that stands for employee `emp`, made at `now_ms`: general
/// capability, two tasks at a time, the employee's memory file, active and idle.
pub fn worker_for_employee(emp: &EmployeeRecord, now_ms: u64) -> (r: Worker)
    ensures
        r.id@ == emp.id@,
        r.name@ == emp.name@,
        r.role@ == emp.role@,
        r.capabilities@.len() == 1,
        r.capabilities@[0]@ == "general"@,
        r.concurrency_quota == 2,
        r.memory_file matches Some(m) && m@ == "shachiku/"@ + emp.id@ + "/memory.md"@,
        r.status == WorkerStatus::Active,
        r.current_load == LoadLevel::Idle,
        r.created_at_ms == now_ms,
        r.updated_at_ms == now_ms,
{
    let mut caps: Vec<String> = Vec::new();
    caps.push("general".to_owned());
    Worker {
        id: emp.id.clone(),
        name: emp.name.clone(),
        role: emp.role.clone(),
        capabilities: caps,
        concurrency_quota: 2,
        memory_file: Some(memory_file_for(emp.id.as_str())),
        status: WorkerStatus::Active,
        current_load: LoadLevel::Idle,
        created_at_ms: now_ms,
        updated_at_ms: now_ms,
    }
}

/// The workers of the pool: those already recorded when there are any, else
/// one for each employee, in order, made at `now_ms`.
pub fn workers_from_employees(existing: Vec<Worker>, employees: &Vec<EmployeeRecord>, now_ms: u64) -> (r: Vec<Worker>)
    ensures
        existing@.len() > 0 ==> r@ == existing@,
        existing@.len() == 0 ==> r@.len() == employees@.len(),
        existing@.len() == 0 ==> forall|k: int| 0 <= k < r@.len() ==> {
            &&& (#[trigger] r@[k]).id@ == employees@[k].id@
            &&& r@[k].name@ == employees@[k].name@
            &&& r@[k].role@ == employees@[k].role@
            &&& r@[k].concurrency_quota == 2
            &&& r@[k].status == WorkerStatus::Active
            &&& r@[k].current_load == LoadLevel::Idle
            &&& r@[k].created_at_ms == now_ms
        },
{
    if existing.len() > 0 {
        return existing;
    }
    let mut out: Vec<Worker> = Vec::new();
    let mut i: usize = 0;
    while i < employees.len()
        invariant
            i <= employees@.len(),
            out@.len() == i,
            forall|k: int| 0 <= k < out@.len() ==> {
                &&& (#[trigger] out@[k]).id@ == employees@[k].id@
                &&& out@[k].name@ == employees@[k].name@
                &&& out@[k].role@ == employees@[k].role@
                &&& out@[k].concurrency_quota == 2
                &&& out@[k].status == WorkerStatus::Active
                &&& out@[k].current_load == LoadLevel::Idle
                &&& out@[k].created_at_ms == now_ms
            },
        decreases employees@.len() - i,
    {
        let w = worker_for_employee(&employees[i], now_ms);
        out.push(w);
        i = i + 1;
    }
    out
}

} // verus!
