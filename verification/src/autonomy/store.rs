use vstd::prelude::*;
use crate::autonomy::task::{Task, TaskStatus};
use crate::text::same_text;
use vstd::multiset::Multiset;

verus! {

/// Which tasks a listing keeps.
#[derive(Debug)]
pub enum TaskFilter {
    Status(TaskStatus),
    Assignee(String),
    Plan(String),
    Active,
}

/// Whether `t` passes the filter `f`.
pub open spec fn passes(t: Task, f: TaskFilter) -> bool {
    match f {
        TaskFilter::Status(s) => t.status == s,
        TaskFilter::Assignee(a) => t.assignee matches Some(x) && x@ == a@,
        TaskFilter::Plan(p) => t.plan_id@ == p@,
        TaskFilter::Active => t.status.spec_is_active(),
    }
}

/// The tasks of `s` that pass `f`, in order.
pub open spec fn filtered(s: Seq<Task>, f: TaskFilter) -> Seq<Task>
    decreases s.len(),
{
    if s.len() == 0 {
        seq![]
    } else if passes(s.last(), f) {
        filtered(s.drop_last(), f).push(s.last())
    } else {
        filtered(s.drop_last(), f)
    }
}

/// Whether `t` passes the filter `f`.
fn passes_exec(t: &Task, f: &TaskFilter) -> (r: bool)
    ensures
        r == passes(*t, *f),
{
    match f {
        TaskFilter::Status(s) => t.status == *s,
        TaskFilter::Assignee(a) => match &t.assignee {
            Some(x) => same_text(x.as_str(), a.as_str()),
            None => false,
        },
        TaskFilter::Plan(p) => same_text(t.plan_id.as_str(), p.as_str()),
        TaskFilter::Active => t.status.is_active(),
    }
}

/// The tasks that pass `f`, in the order they came.
pub fn filter_tasks(tasks: Vec<Task>, f: &TaskFilter) -> (r: Vec<Task>)
    ensures
        r@ == filtered(tasks@, *f),
{
    let ghost src = tasks@;
    let mut rest = tasks;
    let mut rev: Vec<Task> = Vec::new();
    while rest.len() > 0
        invariant
            rest@.len() + rev@.len() == src.len(),
            rest@ == src.take(rest@.len() as int),
            forall|k: int| 0 <= k < rev@.len() ==> #[trigger] rev@[k] == src[src.len() - 1 - k],
        decreases rest@.len(),
    {
        let x = rest.pop().unwrap();
        proof {
            assert(src.take(rest@.len() as int) =~= src.take(rest@.len() + 1int).drop_last());
        }
        rev.push(x);
    }
    let n = rev.len();
    let mut out: Vec<Task> = Vec::new();
    proof {
        assert(src.take(0) =~= Seq::<Task>::empty());
    }
    while rev.len() > 0
        invariant
            rev@.len() <= n,
            n == src.len(),
            forall|k: int| 0 <= k < rev@.len() ==> #[trigger] rev@[k] == src[src.len() - 1 - k],
            out@ == filtered(src.take(n - rev@.len()), *f),
        decreases rev@.len(),
    {
        let ghost i = n - rev@.len();
        let x = rev.pop().unwrap();
        assert(x == src[i]);
        proof {
            assert(src.take(i + 1).drop_last() =~= src.take(i));
        }
        if passes_exec(&x, f) {
            out.push(x);
        }
    }
    proof {
        assert(src.take(n as int) =~= src);
    }
    out
}

/// The tasks in `status`.
pub fn tasks_by_status(tasks: Vec<Task>, status: TaskStatus) -> (r: Vec<Task>)
    ensures
        r@ == filtered(tasks@, TaskFilter::Status(status)),
{
    filter_tasks(tasks, &TaskFilter::Status(status))
}

/// The tasks assigned to `assignee`.
pub fn tasks_by_assignee(tasks: Vec<Task>, assignee: String) -> (r: Vec<Task>)
    ensures
        r@ == filtered(tasks@, TaskFilter::Assignee(assignee)),
{
    filter_tasks(tasks, &TaskFilter::Assignee(assignee))
}

/// The tasks of plan `plan_id`.
pub fn tasks_by_plan(tasks: Vec<Task>, plan_id: String) -> (r: Vec<Task>)
    ensures
        r@ == filtered(tasks@, TaskFilter::Plan(plan_id)),
{
    filter_tasks(tasks, &TaskFilter::Plan(plan_id))
}

/// The tasks that hold a worker (running or paused).
pub fn active_tasks(tasks: Vec<Task>) -> (r: Vec<Task>)
    ensures
        r@ == filtered(tasks@, TaskFilter::Active),
{
    filter_tasks(tasks, &TaskFilter::Active)
}

/// Whether failed task `t` is due for another try at `now_ms`: it has retries
/// left and its retry time has come.
pub open spec fn due_for_retry(t: Task, now_ms: u64) -> bool {
    &&& t.status == TaskStatus::Failed
    &&& t.spec_is_retryable()
    &&& t.next_retry_at_ms matches Some(at) && at <= now_ms
}

/// Task `t` put back in the ready state, its retry time cleared.
pub open spec fn readied(t: Task) -> Task {
    Task { status: TaskStatus::Ready, next_retry_at_ms: None, ..t }
}

/// The tasks of `s` due for retry at `now_ms`, each put back in the ready
/// state, in order.
pub open spec fn retried(s: Seq<Task>, now_ms: u64) -> Seq<Task>
    decreases s.len(),
{
    if s.len() == 0 {
        seq![]
    } else if due_for_retry(s.last(), now_ms) {
        retried(s.drop_last(), now_ms).push(readied(s.last()))
    } else {
        retried(s.drop_last(), now_ms)
    }
}

/// The failed tasks whose retry time has come by `now_ms`, made ready again
/// with their retry time cleared, in the order they came.
pub fn tasks_due_for_retry(tasks: Vec<Task>, now_ms: u64) -> (r: Vec<Task>)
    ensures
        r@ == retried(tasks@, now_ms),
{
    let ghost src = tasks@;
    let mut rest = tasks;
    let mut rev: Vec<Task> = Vec::new();
    while rest.len() > 0
        invariant
            rest@.len() + rev@.len() == src.len(),
            rest@ == src.take(rest@.len() as int),
            forall|k: int| 0 <= k < rev@.len() ==> #[trigger] rev@[k] == src[src.len() - 1 - k],
        decreases rest@.len(),
    {
        let x = rest.pop().unwrap();
        proof {
            assert(src.take(rest@.len() as int) =~= src.take(rest@.len() + 1int).drop_last());
        }
        rev.push(x);
    }
    let n = rev.len();
    let mut out: Vec<Task> = Vec::new();
    proof {
        assert(src.take(0) =~= Seq::<Task>::empty());
    }
    while rev.len() > 0
        invariant
            rev@.len() <= n,
            n == src.len(),
            forall|k: int| 0 <= k < rev@.len() ==> #[trigger] rev@[k] == src[src.len() - 1 - k],
            out@ == retried(src.take(n - rev@.len()), now_ms),
        decreases rev@.len(),
    {
        let ghost i = n - rev@.len();
        let mut x = rev.pop().unwrap();
        assert(x == src[i]);
        proof {
            assert(src.take(i + 1).drop_last() =~= src.take(i));
        }
        let due = x.status == TaskStatus::Failed && x.is_retryable() && match x.next_retry_at_ms {
            Some(at) => at <= now_ms,
            None => false,
        };
        if due {
            x.status = TaskStatus::Ready;
            x.next_retry_at_ms = None;
            out.push(x);
        }
    }
    proof {
        assert(src.take(n as int) =~= src);
    }
    out
}

/// `a` may stand before `b` among ready tasks: the more urgent first, then the
/// older.
pub open spec fn ready_le(a: Task, b: Task) -> bool {
    a.priority.rank() < b.priority.rank() || (a.priority.rank() == b.priority.rank() && a.created_at_ms <= b.created_at_ms)
}

/// The ready tasks, the most urgent first and, among equally urgent ones, the
/// oldest first.
pub fn ready_tasks(tasks: Vec<Task>) -> (r: Vec<Task>)
    ensures
        forall|i: int, j: int| 0 <= i < j < r@.len() ==> ready_le(#[trigger] r@[i], #[trigger] r@[j]),
        r@.to_multiset() == filtered(tasks@, TaskFilter::Status(TaskStatus::Ready)).to_multiset(),
{
    let ready = tasks_by_status(tasks, TaskStatus::Ready);
    let ghost src = ready@;
    let mut rest = ready;
    let mut out: Vec<Task> = Vec::new();
    proof {
        assert(src.skip(src.len() as int) =~= Seq::<Task>::empty());
        assert(out@.to_multiset() =~= src.skip(src.len() as int).to_multiset()) by {
            broadcast use vstd::seq_lib::group_to_multiset_ensures;
        }
    }
    while rest.len() > 0
        invariant
            rest@ == src.take(rest@.len() as int),
            rest@.len() <= src.len(),
            forall|i: int, j: int| 0 <= i < j < out@.len() ==> ready_le(#[trigger] out@[i], #[trigger] out@[j]),
            out@.to_multiset() == src.skip(rest@.len() as int).to_multiset(),
        decreases rest@.len(),
    {
        let x = rest.pop().unwrap();
        let ghost k = rest@.len() as int;
        proof {
            assert(src.take(k) =~= src.take(k + 1).drop_last());
            assert(x == src[k]);
        }
        let mut p: usize = 0;
        while p < out.len() && !(x.priority.rank_value() < out[p].priority.rank_value()
            || (x.priority.rank_value() == out[p].priority.rank_value() && x.created_at_ms <= out[p].created_at_ms))
            invariant
                p <= out@.len(),
                forall|q: int| 0 <= q < p ==> !ready_le(x, #[trigger] out@[q]),
            decreases out@.len() - p,
        {
            p = p + 1;
        }
        let ghost before = out@;
        out.insert(p, x);
        proof {
            assert forall|i: int, j: int| 0 <= i < j < out@.len() implies ready_le(#[trigger] out@[i], #[trigger] out@[j]) by {
                if j < p {
                    assert(out@[i] == before[i] && out@[j] == before[j]);
                } else if j == p {
                    assert(out@[i] == before[i]);
                    assert(!ready_le(x, before[i]));
                } else if i == p {
                    assert(out@[j] == before[j - 1]);
                    if j - 1 > p {
                        assert(ready_le(before[p as int], before[j - 1]));
                    }
                } else if i < p {
                    assert(out@[i] == before[i] && out@[j] == before[j - 1]);
                } else {
                    assert(out@[i] == before[i - 1] && out@[j] == before[j - 1]);
                }
            }
            vstd::seq_lib::to_multiset_insert(before, p as int, x);
            assert(src.skip(k) =~= seq![src[k]] + src.skip(k + 1));
            vstd::seq_lib::lemma_multiset_commutative(seq![src[k]], src.skip(k + 1));
            assert(seq![src[k]].to_multiset() =~= Multiset::<Task>::empty().insert(src[k])) by {
                broadcast use vstd::seq_lib::group_to_multiset_ensures;
                assert(seq![src[k]] =~= Seq::<Task>::empty().push(src[k]));
            }
        }
    }
    out
}

/// How many tasks of `s` are in `status`.
pub open spec fn count_status(s: Seq<Task>, status: TaskStatus) -> nat
    decreases s.len(),
{
    if s.len() == 0 {
        0
    } else if s.last().status == status {
        count_status(s.drop_last(), status) + 1
    } else {
        count_status(s.drop_last(), status)
    }
}

/// How many of `tasks` are in `status`.
fn count_of(tasks: &Vec<Task>, status: TaskStatus) -> (r: usize)
    ensures
        r == count_status(tasks@, status),
{
    let mut n: usize = 0;
    let mut i: usize = 0;
    proof {
        assert(tasks@.take(0) =~= Seq::<Task>::empty());
    }
    while i < tasks.len()
        invariant
            i <= tasks@.len(),
            n == count_status(tasks@.take(i as int), status),
            n <= i,
        decreases tasks@.len() - i,
    {
        proof {
            assert(tasks@.take(i + 1).drop_last() =~= tasks@.take(i as int));
        }
        if tasks[i].status == status {
            n = n + 1;
        }
        i = i + 1;
    }
    proof {
        assert(tasks@.take(tasks@.len() as int) =~= tasks@);
    }
    n
}

/// Every status, in declaration order.
pub open spec fn all_statuses() -> Seq<TaskStatus> {
    seq![
        TaskStatus::Pending,
        TaskStatus::Ready,
        TaskStatus::Scheduled,
        TaskStatus::Running,
        TaskStatus::Paused,
        TaskStatus::Completed,
        TaskStatus::Failed,
        TaskStatus::Cancelled,
    ]
}

/// The name and count of each status of `ss` that some task is in, in order.
pub open spec fn counts_for(tasks: Seq<Task>, ss: Seq<TaskStatus>) -> Seq<(Seq<char>, nat)>
    decreases ss.len(),
{
    if ss.len() == 0 {
        seq![]
    } else if count_status(tasks, ss.last()) > 0 {
        counts_for(tasks, ss.drop_last()).push((ss.last().name(), count_status(tasks, ss.last())))
    } else {
        counts_for(tasks, ss.drop_last())
    }
}

/// The entries as name and count.
pub open spec fn entry_views(r: Seq<(String, usize)>) -> Seq<(Seq<char>, nat)> {
    r.map_values(|e: (String, usize)| (e.0@, e.1 as nat))
}

/// How many tasks are in each status that some task is in, by the status's
/// name (in the order the statuses are declared).
pub fn count_by_status(tasks: &Vec<Task>) -> (r: Vec<(String, usize)>)
    ensures
        entry_views(r@) == counts_for(tasks@, all_statuses()),
{
    let statuses = vec![
        TaskStatus::Pending,
        TaskStatus::Ready,
        TaskStatus::Scheduled,
        TaskStatus::Running,
        TaskStatus::Paused,
        TaskStatus::Completed,
        TaskStatus::Failed,
        TaskStatus::Cancelled,
    ];
    assert(statuses@ =~= all_statuses());
    let mut out: Vec<(String, usize)> = Vec::new();
    let mut i: usize = 0;
    proof {
        assert(statuses@.take(0) =~= Seq::<TaskStatus>::empty());
        assert(entry_views(out@) =~= Seq::<(Seq<char>, nat)>::empty());
    }
    while i < statuses.len()
        invariant
            i <= statuses@.len(),
            entry_views(out@) == counts_for(tasks@, statuses@.take(i as int)),
        decreases statuses@.len() - i,
    {
        proof {
            assert(statuses@.take(i + 1).drop_last() =~= statuses@.take(i as int));
        }
        let st = statuses[i];
        let c = count_of(tasks, st);
        if c > 0 {
            let ghost before = entry_views(out@);
            out.push((st.as_str().to_owned(), c));
            assert(entry_views(out@) =~= before.push((st.name(), c as nat)));
        }
        i = i + 1;
    }
    proof {
        assert(statuses@.take(statuses@.len() as int) =~= statuses@);
    }
    out
}

} // verus!
