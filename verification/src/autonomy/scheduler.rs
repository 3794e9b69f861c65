use vstd::prelude::*;
use crate::autonomy::task::{BackoffStrategy, Task, TaskPriority, TaskResult, TaskStatus};
use crate::autonomy::task_graph::{ReadyTask, TaskGraph, TaskNode};
use vstd::multiset::Multiset;
use crate::autonomy::worker::Worker;

verus! {

/// How the scheduler runs.
#[derive(Debug, Clone, Copy, PartialEq, Eq, Structural)]
pub struct SchedulerConfig {
    pub tick_interval_ms: u64,
    pub enable_preemption: bool,
}

impl Default for SchedulerConfig {
    /// Ticks every 100 ms, with preemption.
    fn default() -> (r: SchedulerConfig)
        ensures
            r.tick_interval_ms == 100,
            r.enable_preemption,
    {
        SchedulerConfig { tick_interval_ms: 100, enable_preemption: true }
    }
}

/// Whether worker `w` does general work.
pub open spec fn general(w: Worker) -> bool {
    w.capable_of("general"@)
}

/// The first of the least-loaded general workers among the first `n`.
pub open spec fn best_general(ws: Seq<Worker>, n: int) -> Option<int>
    decreases n,
{
    if n <= 0 || n > ws.len() {
        None
    } else {
        let b = best_general(ws, n - 1);
        if general(ws[n - 1]) {
            match b {
                None => Some(n - 1),
                Some(k) => if ws[n - 1].current_load.rank() < ws[k].current_load.rank() { Some(n - 1) } else { Some(k) },
            }
        } else {
            b
        }
    }
}

/// The worker a task goes to among the available ones: none when there are
/// none; the first when none does general work; else the first of the
/// least-loaded general workers.
pub open spec fn selected_worker(ws: Seq<Worker>) -> Option<int> {
    if ws.len() == 0 {
        None
    } else {
        match best_general(ws, ws.len() as int) {
            None => Some(0),
            Some(k) => Some(k),
        }
    }
}

/// The general worker chosen is no more loaded than any general worker, and
/// every general worker before it is more loaded; with no general worker none
/// is chosen.
pub proof fn lemma_best_general(ws: Seq<Worker>, n: int)
    requires
        0 <= n <= ws.len(),
    ensures
        match best_general(ws, n) {
            Some(k) => {
                &&& 0 <= k < n
                &&& general(ws[k])
                &&& forall|j: int| 0 <= j < n && #[trigger] general(ws[j]) ==> ws[k].current_load.rank() <= ws[j].current_load.rank()
                &&& forall|j: int| 0 <= j < k && #[trigger] general(ws[j]) ==> ws[j].current_load.rank() > ws[k].current_load.rank()
            },
            None => forall|j: int| 0 <= j < n ==> !#[trigger] general(ws[j]),
        },
    decreases n,
{
    if n > 0 {
        lemma_best_general(ws, n - 1);
    }
}

/// The index of the worker a task goes to among the available ones.
pub fn select_worker(available: &Vec<Worker>) -> (r: Option<usize>)
    ensures
        match r {
            Some(i) => selected_worker(available@) == Some(i as int),
            None => selected_worker(available@) is None,
        },
{
    if available.len() == 0 {
        return None;
    }
    let mut best: Option<usize> = None;
    let mut i: usize = 0;
    while i < available.len()
        invariant
            i <= available@.len(),
            best_general(available@, i as int) == match best {
                Some(b) => Some(b as int),
                None => None,
            },
            match best {
                Some(b) => b < i,
                None => true,
            },
        decreases available@.len() - i,
    {
        if available[i].has_capability("general") {
            match best {
                None => {
                    best = Some(i);
                },
                Some(b) => {
                    if available[i].current_load.rank_value() < available[b].current_load.rank_value() {
                        best = Some(i);
                    }
                },
            }
        }
        i = i + 1;
    }
    match best {
        None => Some(0),
        Some(b) => Some(b),
    }
}

/// What one scheduling step did.
#[derive(Debug)]
pub enum ScheduleOutcome {
    /// The task went to the worker.
    Scheduled { task_id: String, worker_id: String },
    /// No worker is free for this critical task: the caller may preempt a
    /// running low-priority task for it, and otherwise puts it back.
    NeedsPreemption { ready: ReadyTask },
    /// No worker is free; the task went back to the queue.
    NoWorker,
    /// Nothing in the queue could be scheduled.
    Empty,
}

/// Whether `t`, queued in `ready`, is outranked by no queued entry whose task
/// is still in the graph.
pub open spec fn best_live(ready: Multiset<ReadyTask>, nodes: Map<Seq<char>, TaskNode>, t: ReadyTask) -> bool {
    &&& ready.count(t) > 0
    &&& forall|x: ReadyTask| #[trigger] ready.count(x) > 0 && nodes.contains_key(x.task_id@) ==> !x.outranks(t)
}

/// Whether `d` is a part of the queue `ready` made only of entries whose task
/// is no longer in the graph: what a scheduling step may drop.
pub open spec fn stale_part(d: Multiset<ReadyTask>, ready: Multiset<ReadyTask>, nodes: Map<Seq<char>, TaskNode>) -> bool {
    &&& d.subset_of(ready)
    &&& forall|x: ReadyTask| #[trigger] d.count(x) > 0 ==> !nodes.contains_key(x.task_id@)
}

/// Node `n` once its task is scheduled to `assignee`.
pub open spec fn scheduled_node(n: TaskNode, assignee: Option<String>) -> TaskNode {
    TaskNode { task: Task { status: TaskStatus::Scheduled, assignee, ..n.task }, ..n }
}

/// One scheduling step: takes the first entry of the ready queue whose task
/// exists (dropping entries whose task is gone) and gives it to the selected
/// worker; without one, a critical task asks for preemption when that is
/// enabled, and any other goes back to the queue. Only entries whose task is
/// gone leave the queue besides the one scheduled or handed back for
/// preemption; no task but the scheduled one changes.
pub fn schedule_next(graph: &mut TaskGraph, available: &Vec<Worker>, config: SchedulerConfig) -> (r: ScheduleOutcome)
    requires
        old(graph).wf(),
    ensures
        final(graph).wf(),
        final(graph).nodes().dom() == old(graph).nodes().dom(),
        final(graph).dependents_map() == old(graph).dependents_map(),
        match r {
            ScheduleOutcome::Scheduled { task_id, worker_id } => {
                &&& selected_worker(available@) matches Some(i) && worker_id@ == available@[i].id@
                &&& exists|t: ReadyTask| #[trigger] best_live(old(graph).ready(), old(graph).nodes(), t) && t.task_id@ == task_id@
                    && exists|d: Multiset<ReadyTask>| #[trigger] stale_part(d, old(graph).ready().remove(t), old(graph).nodes())
                    && final(graph).ready() == old(graph).ready().remove(t).sub(d)
                &&& old(graph).nodes().contains_key(task_id@)
                &&& final(graph).nodes() == old(graph).nodes().insert(
                    task_id@,
                    scheduled_node(old(graph).nodes()[task_id@], final(graph).nodes()[task_id@].task.assignee),
                )
                &&& final(graph).nodes()[task_id@].task.status == TaskStatus::Scheduled
                &&& final(graph).nodes()[task_id@].task.assignee matches Some(a) && a@ == worker_id@
            },
            ScheduleOutcome::NeedsPreemption { ready } => {
                &&& selected_worker(available@) is None
                &&& config.enable_preemption && ready.priority == TaskPriority::Critical
                &&& best_live(old(graph).ready(), old(graph).nodes(), ready)
                &&& exists|d: Multiset<ReadyTask>| #[trigger] stale_part(d, old(graph).ready().remove(ready), old(graph).nodes())
                    && final(graph).ready() == old(graph).ready().remove(ready).sub(d)
                &&& final(graph).nodes() == old(graph).nodes()
                &&& final(graph).nodes().contains_key(ready.task_id@)
            },
            ScheduleOutcome::NoWorker => {
                &&& selected_worker(available@) is None
                &&& exists|d: Multiset<ReadyTask>| #[trigger] stale_part(d, old(graph).ready(), old(graph).nodes())
                    && final(graph).ready() == old(graph).ready().sub(d)
                &&& final(graph).nodes() == old(graph).nodes()
            },
            ScheduleOutcome::Empty => final(graph).ready().len() == 0 && final(graph).nodes() == old(graph).nodes()
                && forall|x: ReadyTask| #[trigger] old(graph).ready().count(x) > 0 ==> !old(graph).nodes().contains_key(x.task_id@),
        },
{
    let choice = select_worker(available);
    proof {
        lemma_best_general(available@, available@.len() as int);
    }
    let ghost mut dropped: Multiset<ReadyTask> = Multiset::empty();
    proof {
        assert(old(graph).ready().sub(dropped) =~= old(graph).ready());
    }
    loop
        invariant
            graph.wf(),
            graph.nodes() == old(graph).nodes(),
            graph.dependents_map() == old(graph).dependents_map(),
            stale_part(dropped, old(graph).ready(), old(graph).nodes()),
            graph.ready() == old(graph).ready().sub(dropped),
            match choice {
                Some(i) => selected_worker(available@) == Some(i as int) && i < available@.len(),
                None => selected_worker(available@) is None,
            },
        decreases graph.ready().len(),
    {
        let ghost before = graph.ready();
        let popped = graph.pop_ready();
        let ready = match popped {
            None => {
                proof {
                    assert forall|x: ReadyTask| #[trigger] old(graph).ready().count(x) > 0 implies !old(graph).nodes().contains_key(x.task_id@) by {
                        assert(before.count(x) == 0);
                        assert(before.count(x) == old(graph).ready().count(x) - dropped.count(x));
                        assert(dropped.count(x) > 0);
                    }
                }
                return ScheduleOutcome::Empty;
            },
            Some(r) => r,
        };
        proof {
            assert(before.count(ready) == old(graph).ready().count(ready) - dropped.count(ready));
        }
        if graph.get_task(ready.task_id.as_str()).is_none() {
            proof {
                let nd = dropped.insert(ready);
                assert forall|x: ReadyTask| #![auto] nd.count(x) <= old(graph).ready().count(x) by {}
                assert(nd.subset_of(old(graph).ready()));
                assert(graph.ready() =~= old(graph).ready().sub(nd));
                dropped = nd;
            }
            continue;
        }
        let ghost rest = old(graph).ready().remove(ready);
        proof {
            assert forall|x: ReadyTask| #[trigger] old(graph).ready().count(x) > 0 && old(graph).nodes().contains_key(x.task_id@) implies !x.outranks(ready) by {
                assert(before.count(x) == old(graph).ready().count(x) - dropped.count(x));
                if dropped.count(x) > 0 {
                    assert(!old(graph).nodes().contains_key(x.task_id@));
                }
                assert(before.count(x) > 0);
            }
            assert(old(graph).ready().count(ready) > 0);
            assert(best_live(old(graph).ready(), old(graph).nodes(), ready));
            assert(dropped.count(ready) == 0);
            assert forall|x: ReadyTask| #![auto] dropped.count(x) <= rest.count(x) by {
                if x == ready {
                    assert(dropped.count(x) == 0);
                }
            }
            assert(dropped.subset_of(rest));
            assert(stale_part(dropped, rest, old(graph).nodes()));
            assert(graph.ready() =~= rest.sub(dropped));
        }
        match choice {
            None => {
                if config.enable_preemption && ready.priority == TaskPriority::Critical {
                    return ScheduleOutcome::NeedsPreemption { ready };
                }
                graph.push_ready(ready);
                proof {
                    assert(graph.ready() =~= old(graph).ready().sub(dropped));
                    assert(stale_part(dropped, old(graph).ready(), old(graph).nodes()));
                }
                return ScheduleOutcome::NoWorker;
            },
            Some(i) => {
                let worker_id = available[i].id.clone();
                let task_id = ready.task_id.clone();
                let ghost g0 = graph.nodes();
                let res = graph.schedule_task(task_id.as_str(), worker_id.as_str());
                proof {
                    assert(res is Ok);
                    let n = g0[task_id@];
                    let nn = graph.nodes()[task_id@];
                    assert(nn == scheduled_node(n, nn.task.assignee));
                    assert(graph.nodes() =~= g0.insert(task_id@, nn));
                    assert(stale_part(dropped, rest, old(graph).nodes()));
                }
                return ScheduleOutcome::Scheduled { task_id, worker_id };
            },
        }
    }
}

/// Records on `task` that it started at `now_ms`.
pub fn record_task_started(task: &mut Task, now_ms: u64)
    ensures
        *final(task) == (Task { status: TaskStatus::Running, started_at_ms: Some(now_ms), ..*old(task) }),
{
    task.status = TaskStatus::Running;
    task.started_at_ms = Some(now_ms);
}

/// Records on `task` that it completed at `now_ms` with `result`.
pub fn record_task_completed(task: &mut Task, result: TaskResult, now_ms: u64)
    ensures
        *final(task) == (Task {
            status: TaskStatus::Completed,
            result: Some(result),
            completed_at_ms: Some(now_ms),
            ..*old(task)
        }),
{
    task.status = TaskStatus::Completed;
    task.result = Some(result);
    task.completed_at_ms = Some(now_ms);
}

/// Whether a retry of `task` can be scheduled at `now_ms` without the
/// arithmetic overflowing.
pub open spec fn retry_fits(task: Task, now_ms: u64) -> bool {
    task.spec_is_retryable() ==> {
        &&& task.retry_policy.backoff_strategy == BackoffStrategy::Linear ==> task.retry_policy.initial_delay_ms * (
        task.retry_count + 1) <= u64::MAX
        &&& now_ms + task.retry_policy.delay(task.retry_count) <= u64::MAX
    }
}

/// Records on `task` that it failed at `now_ms` with `error`: it is failed with
/// that error (exit code 1); when it has retries left it goes back to pending,
/// its retries counted up and its next try set after the policy's delay for
/// the retries so far. Says whether a retry was scheduled.
pub fn record_task_failed(task: &mut Task, error: &str, now_ms: u64) -> (retry: bool)
    requires
        retry_fits(*old(task), now_ms),
    ensures
        retry == old(task).spec_is_retryable(),
        final(task).result matches Some(res) && (!res.success && res.exit_code == 1 && res.output_preview is None
            && res.agent_task_id is None && (res.error matches Some(e) && e@ == error@)),
        !retry ==> *final(task) == (Task { status: TaskStatus::Failed, result: final(task).result, ..*old(task) }),
        retry ==> *final(task) == (Task {
            status: TaskStatus::Pending,
            result: final(task).result,
            retry_count: (old(task).retry_count + 1) as u32,
            next_retry_at_ms: Some((now_ms + old(task).retry_policy.delay(old(task).retry_count)) as u64),
            ..*old(task)
        }),
{
    task.status = TaskStatus::Failed;
    task.result = Some(TaskResult {
        success: false,
        exit_code: 1,
        output_preview: None,
        error: Some(error.to_string()),
        agent_task_id: None,
    });
    if task.is_retryable() {
        let delay = task.retry_policy.next_delay(task.retry_count);
        task.retry_count = task.retry_count + 1;
        task.next_retry_at_ms = Some(now_ms + delay);
        task.status = TaskStatus::Pending;
        true
    } else {
        false
    }
}

/// The running task to pause for a critical one: the first low-priority task
/// among `active`, when someone is working on it.
pub fn preemption_target(active: &Vec<Task>) -> (r: Option<usize>)
    ensures
        match r {
            Some(i) => i < active@.len() && active@[i as int].priority == TaskPriority::Low
                && active@[i as int].assignee is Some && forall|j: int| 0 <= j < i ==> (#[trigger] active@[j]).priority
                != TaskPriority::Low,
            None => forall|j: int| 0 <= j < active@.len() && (#[trigger] active@[j]).priority == TaskPriority::Low
                && (forall|k: int| 0 <= k < j ==> (#[trigger] active@[k]).priority != TaskPriority::Low)
                ==> active@[j].assignee is None,
        },
{
    let mut i: usize = 0;
    while i < active.len()
        invariant
            i <= active@.len(),
            forall|j: int| 0 <= j < i ==> (#[trigger] active@[j]).priority != TaskPriority::Low,
        decreases active@.len() - i,
    {
        if active[i].priority == TaskPriority::Low {
            if active[i].assignee.is_some() {
                return Some(i);
            }
            return None;
        }
        i = i + 1;
    }
    None
}

} // verus!
