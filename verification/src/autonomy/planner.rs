use vstd::prelude::*;
use crate::autonomy::plan::{new_plan_id, Plan, PlanStatus, PlanTrigger};
use crate::autonomy::task::{
    stamped_id, stamped_id_for, BackoffStrategy, ComplexityLevel, RetryPolicy, Task, TaskContext, TaskPriority,
    TaskStatus,
};
use crate::autonomy::task_graph::{GraphError, TaskGraph};
use crate::text::{clone_strings, views};

verus! {

/// What a plan is made from.
#[derive(Debug)]
pub struct PlanningContext {
    pub title: String,
    pub description: String,
    pub trigger: PlanTrigger,
    pub tasks: Vec<TaskSpec>,
}

/// One task a plan is to have.
#[derive(Debug)]
pub struct TaskSpec {
    pub id: Option<String>,
    pub title: String,
    pub description: String,
    pub priority: TaskPriority,
    pub complexity: ComplexityLevel,
    pub dependencies: Vec<String>,
    pub context: TaskContext,
    pub retry_policy: Option<RetryPolicy>,
}

/// Makes plans of tasks for a workspace.
#[derive(Debug)]
pub struct Planner {
    pub workspace: String,
}

/// The seconds a task of `c` is expected to take.
pub open spec fn duration_of(c: ComplexityLevel) -> u64 {
    match c {
        ComplexityLevel::Trivial => 300,
        ComplexityLevel::Simple => 1800,
        ComplexityLevel::Moderate => 7200,
        ComplexityLevel::Complex => 28800,
        ComplexityLevel::VeryComplex => 86400,
    }
}

/// The retry policy a task gets from its spec: the spec's own, else the default.
pub open spec fn policy_of(p: Option<RetryPolicy>) -> RetryPolicy {
    match p {
        Some(q) => q,
        None => RetryPolicy {
            max_retries: 0,
            backoff_strategy: BackoffStrategy::Exponential,
            initial_delay_ms: 5_000,
            max_delay_ms: 300_000,
        },
    }
}

/// The id a task of a plan gets: the spec's own, else `<plan>_<stamp>`.
pub open spec fn spec_task_id(spec: TaskSpec, plan_id: Seq<char>, stamp: u64) -> Seq<char> {
    match spec.id {
        Some(x) => x@,
        None => stamped_id(plan_id, stamp),
    }
}

/// Whether `t` is the task that `spec` makes in plan `plan_id` with id `id`,
/// under `parent`, at `now_ms`: pending, with the spec's fields, the expected
/// duration of its complexity, and nothing run yet.
pub open spec fn is_spec_task(
    t: Task,
    spec: TaskSpec,
    id: Seq<char>,
    plan_id: Seq<char>,
    parent: Option<Seq<char>>,
    now_ms: u64,
) -> bool {
    &&& t.id@ == id
    &&& t.title == spec.title
    &&& t.description == spec.description
    &&& t.status == TaskStatus::Pending
    &&& t.priority == spec.priority
    &&& t.complexity == spec.complexity
    &&& t.estimated_duration_secs == duration_of(spec.complexity)
    &&& t.actual_duration_secs is None
    &&& t.assignee is None
    &&& t.executor_pid is None
    &&& t.dependencies@ == spec.dependencies@
    &&& t.dependents@.len() == 0
    &&& t.plan_id@ == plan_id
    &&& match parent {
        Some(p) => t.parent_task_id matches Some(x) && x@ == p,
        None => t.parent_task_id is None,
    }
    &&& t.sub_tasks@.len() == 0
    &&& t.context == spec.context
    &&& t.result is None
    &&& t.retry_policy == policy_of(spec.retry_policy)
    &&& t.retry_count == 0
    &&& t.next_retry_at_ms is None
    &&& t.created_at_ms == now_ms
    &&& t.started_at_ms is None
    &&& t.completed_at_ms is None
}

/// The ids of the tasks of a plan, from their specs and the stamps of the
/// ones without an id.
pub open spec fn spec_ids(specs: Seq<TaskSpec>, plan_id: Seq<char>, stamps: Seq<u64>) -> Seq<Seq<char>> {
    Seq::new(specs.len(), |i: int| spec_task_id(specs[i], plan_id, stamps[i]))
}

/// The ids among the first `n` of a plan's tasks that depend on nothing.
pub open spec fn root_ids(specs: Seq<TaskSpec>, ids: Seq<Seq<char>>, n: nat) -> Seq<Seq<char>>
    decreases n,
{
    if n == 0 {
        seq![]
    } else if specs[n - 1].dependencies@.len() == 0 {
        root_ids(specs, ids, (n - 1) as nat).push(ids[n - 1])
    } else {
        root_ids(specs, ids, (n - 1) as nat)
    }
}

/// Whether two of `ids` are the same.
pub open spec fn has_repeat(ids: Seq<Seq<char>>) -> bool {
    exists|i: int, j: int| 0 <= i < j < ids.len() && #[trigger] ids[i] == #[trigger] ids[j]
}

fn copy_context(c: &TaskContext) -> (r: TaskContext)
    ensures
        r == *c,
{
    TaskContext {
        requirement_id: match &c.requirement_id {
            Some(x) => Some(x.clone()),
            None => None,
        },
        requirement_phase: match &c.requirement_phase {
            Some(x) => Some(x.clone()),
            None => None,
        },
        branch: match &c.branch {
            Some(x) => Some(x.clone()),
            None => None,
        },
        extra: c.extra.clone(),
    }
}

fn policy_from(p: &Option<RetryPolicy>) -> (r: RetryPolicy)
    ensures
        r == policy_of(*p),
{
    match p {
        Some(q) => RetryPolicy {
            max_retries: q.max_retries,
            backoff_strategy: q.backoff_strategy,
            initial_delay_ms: q.initial_delay_ms,
            max_delay_ms: q.max_delay_ms,
        },
        None => RetryPolicy::default(),
    }
}

impl Planner {
    /// A planner for `workspace`.
    pub fn new(workspace: String) -> (r: Planner)
        ensures
            r.workspace == workspace,
    {
        Planner { workspace }
    }

    /// The seconds a task of complexity `complexity` is expected to take.
    pub fn estimate_duration(complexity: ComplexityLevel) -> (r: u64)
        ensures
            r == duration_of(complexity),
    {
        match complexity {
            ComplexityLevel::Trivial => 300,
            ComplexityLevel::Simple => 1800,
            ComplexityLevel::Moderate => 7200,
            ComplexityLevel::Complex => 28800,
            ComplexityLevel::VeryComplex => 86400,
        }
    }

    /// The id of the task that `spec` makes.
    fn task_id_for(spec: &TaskSpec, plan_id: &str, stamp: u64) -> (r: String)
        ensures
            r@ == spec_task_id(*spec, plan_id@, stamp),
    {
        match &spec.id {
            Some(x) => x.clone(),
            None => stamped_id_for(plan_id, stamp),
        }
    }

    /// The task that `spec` makes in plan `plan_id` with id `id`, under `parent`, at `now_ms`.
    fn task_from_spec(spec: &TaskSpec, id: String, plan_id: &str, parent: Option<String>, now_ms: u64) -> (r: Task)
        ensures
            is_spec_task(r, *spec, id@, plan_id@, match parent { Some(p) => Some(p@), None => None }, now_ms),
    {
        Task {
            id,
            title: spec.title.clone(),
            description: spec.description.clone(),
            status: TaskStatus::Pending,
            priority: spec.priority,
            complexity: spec.complexity,
            estimated_duration_secs: Self::estimate_duration(spec.complexity),
            actual_duration_secs: None,
            assignee: None,
            executor_pid: None,
            dependencies: clone_strings(&spec.dependencies),
            dependents: Vec::new(),
            plan_id: plan_id.to_string(),
            parent_task_id: parent,
            sub_tasks: Vec::new(),
            context: copy_context(&spec.context),
            result: None,
            retry_policy: policy_from(&spec.retry_policy),
            retry_count: 0,
            next_retry_at_ms: None,
            created_at_ms: now_ms,
            started_at_ms: None,
            completed_at_ms: None,
        }
    }

    /// A new plan made at `now_ms` from `ctx`: active and started, with one
    /// pending task per spec (a spec without an id gets `<plan>_<stamp>`, its
    /// stamp taken from `stamps`), the tasks that depend on nothing as its
    /// roots, and the graph of its tasks. Refused when two tasks get the same id.
    pub fn create_plan(&self, ctx: PlanningContext, now_ms: u64, stamps: &Vec<u64>) -> (r: Result<(Plan, Vec<Task>, TaskGraph), GraphError>)
        requires
            stamps@.len() == ctx.tasks@.len(),
        ensures
            r is Err <==> has_repeat(spec_ids(ctx.tasks@, stamped_id("plan"@, now_ms), stamps@)),
            r matches Ok((plan, tasks, graph)) ==> {
                let ids = spec_ids(ctx.tasks@, stamped_id("plan"@, now_ms), stamps@);
                &&& plan.id@ == stamped_id("plan"@, now_ms)
                &&& plan.title == ctx.title
                &&& plan.description == ctx.description
                &&& plan.status == PlanStatus::Active
                &&& plan.trigger == ctx.trigger
                &&& plan.recurrence is None
                &&& views(plan.all_tasks@) == ids
                &&& views(plan.root_tasks@) == root_ids(ctx.tasks@, ids, ctx.tasks@.len())
                &&& plan.progress_percent == 0
                &&& plan.completed_tasks == 0
                &&& plan.failed_tasks == 0
                &&& plan.total_tasks == ctx.tasks@.len()
                &&& plan.created_at_ms == now_ms
                &&& plan.started_at_ms == Some(now_ms)
                &&& plan.completed_at_ms is None
                &&& tasks@.len() == ctx.tasks@.len()
                &&& forall|i: int| 0 <= i < tasks@.len() ==> is_spec_task(
                    #[trigger] tasks@[i],
                    ctx.tasks@[i],
                    ids[i],
                    plan.id@,
                    None,
                    now_ms,
                )
                &&& graph.wf()
                &&& graph.nodes().dom() == ids.to_set()
                &&& exists|gs: Seq<Task>| #[trigger] graph.is_built_from(gs) && gs.len() == ctx.tasks@.len()
                    && forall|k: int| 0 <= k < gs.len() ==> is_spec_task(
                        #[trigger] gs[k],
                        ctx.tasks@[k],
                        ids[k],
                        plan.id@,
                        None,
                        now_ms,
                    )
            },
    {
        let plan_id = new_plan_id(now_ms);
        let ghost ids = spec_ids(ctx.tasks@, plan_id@, stamps@);
        let mut graph = TaskGraph::new();
        let mut tasks: Vec<Task> = Vec::new();
        let mut all: Vec<String> = Vec::new();
        let mut roots: Vec<String> = Vec::new();
        let mut i: usize = 0;
        let ghost mut gs: Seq<Task> = seq![];
        proof {
            assert(views(all@) =~= ids.take(0));
            assert(ids.take(0).to_set() =~= Set::<Seq<char>>::empty());
            assert(graph.is_built_from(gs));
        }
        while i < ctx.tasks.len()
            invariant
                i <= ctx.tasks@.len(),
                stamps@.len() == ctx.tasks@.len(),
                ids == spec_ids(ctx.tasks@, plan_id@, stamps@),
                plan_id@ == stamped_id("plan"@, now_ms),
                graph.wf(),
                graph.nodes().dom() == ids.take(i as int).to_set(),
                !has_repeat(ids.take(i as int)),
                views(all@) == ids.take(i as int),
                views(roots@) == root_ids(ctx.tasks@, ids, i as nat),
                tasks@.len() == i,
                forall|k: int| 0 <= k < i ==> is_spec_task(#[trigger] tasks@[k], ctx.tasks@[k], ids[k], plan_id@, None, now_ms),
                graph.is_built_from(gs),
                gs.len() == i,
                forall|k: int| 0 <= k < i ==> is_spec_task(#[trigger] gs[k], ctx.tasks@[k], ids[k], plan_id@, None, now_ms),
            decreases ctx.tasks@.len() - i,
        {
            let id = Self::task_id_for(&ctx.tasks[i], plan_id.as_str(), stamps[i]);
            assert(id@ == ids[i as int]);
            let task = Self::task_from_spec(&ctx.tasks[i], id.clone(), plan_id.as_str(), None, now_ms);
            let node_task = Self::task_from_spec(&ctx.tasks[i], id.clone(), plan_id.as_str(), None, now_ms);
            let no_deps = ctx.tasks[i].dependencies.len() == 0;
            let ghost nt = node_task;
            let added = graph.add_task(node_task);
            match added {
                Err(e) => {
                    proof {
                        assert(ids.take(i as int).to_set().contains(ids[i as int]));
                        assert(ids.take(i as int).contains(ids[i as int]));
                        let j = choose|j: int| 0 <= j < i && ids.take(i as int)[j] == ids[i as int];
                        assert(ids[j] == ids[i as int]);
                        assert(has_repeat(ids));
                    }
                    return Err(e);
                },
                Ok(()) => {},
            }
            proof {
                let ngs = gs.push(nt);
                assert(ngs.drop_last() =~= gs);
                assert(ngs.last() == nt);
                assert(graph.is_built_from(ngs));
                assert forall|k: int| 0 <= k < i + 1 implies is_spec_task(#[trigger] ngs[k], ctx.tasks@[k], ids[k], plan_id@, None, now_ms) by {
                    if k < i {
                        assert(ngs[k] == gs[k]);
                    }
                }
                gs = ngs;
                assert(ids.take(i + 1) =~= ids.take(i as int).push(ids[i as int]));
                ids.take(i as int).lemma_push_to_set_commute(ids[i as int]);
                assert(ids.take(i + 1).to_set() =~= ids.take(i as int).to_set().insert(ids[i as int]));
                assert(!ids.take(i as int).contains(ids[i as int])) by {
                    if ids.take(i as int).contains(ids[i as int]) {
                        assert(ids.take(i as int).to_set().contains(ids[i as int]));
                    }
                }
                assert(!has_repeat(ids.take(i + 1))) by {
                    let t = ids.take(i + 1);
                    if has_repeat(t) {
                        let (a, b) = choose|a: int, b: int| 0 <= a < b < t.len() && #[trigger] t[a] == #[trigger] t[b];
                        if b == i {
                            assert(ids.take(i as int)[a] == ids[i as int]);
                            assert(ids.take(i as int).contains(ids[i as int]));
                        } else {
                            assert(ids.take(i as int)[a] == ids.take(i as int)[b]);
                        }
                    }
                }
            }
            if no_deps {
                let ghost r0 = views(roots@);
                roots.push(id.clone());
                assert(views(roots@) =~= r0.push(ids[i as int]));
            }
            let ghost a0 = views(all@);
            all.push(id);
            assert(views(all@) =~= a0.push(ids[i as int]));
            tasks.push(task);
            i = i + 1;
        }
        proof {
            assert(ids.take(ids.len() as int) =~= ids);
        }
        let total = ctx.tasks.len();
        let plan = Plan {
            id: plan_id,
            title: ctx.title,
            description: ctx.description,
            status: PlanStatus::Active,
            trigger: ctx.trigger,
            recurrence: None,
            root_tasks: roots,
            all_tasks: all,
            progress_percent: 0,
            completed_tasks: 0,
            failed_tasks: 0,
            total_tasks: total,
            created_at_ms: now_ms,
            started_at_ms: Some(now_ms),
            completed_at_ms: None,
        };
        Ok((plan, tasks, graph))
    }

    /// Adds tasks to `plan` after task `failed_task_id` failed: one pending
    /// task per spec, under the failed task, made at the time given for it in
    /// `times` (a spec without an id gets `<plan>_<stamp>`, its stamp taken
    /// from `stamps`); they join the plan's tasks and count. The new tasks are
    /// returned for saving.
    pub fn replan(
        &self,
        plan: &mut Plan,
        failed_task_id: &str,
        new_specs: &Vec<TaskSpec>,
        stamps: &Vec<u64>,
        times: &Vec<u64>,
    ) -> (r: Vec<Task>)
        requires
            stamps@.len() == new_specs@.len(),
            times@.len() == new_specs@.len(),
            old(plan).total_tasks + new_specs@.len() <= usize::MAX,
        ensures
            ({
                let ids = spec_ids(new_specs@, old(plan).id@, stamps@);
                &&& views(final(plan).all_tasks@) == views(old(plan).all_tasks@) + ids
                &&& final(plan).total_tasks == old(plan).total_tasks + new_specs@.len()
                &&& *final(plan) == (Plan { all_tasks: final(plan).all_tasks, total_tasks: final(plan).total_tasks, ..*old(plan) })
                &&& r@.len() == new_specs@.len()
                &&& forall|i: int| 0 <= i < r@.len() ==> is_spec_task(
                    #[trigger] r@[i],
                    new_specs@[i],
                    ids[i],
                    old(plan).id@,
                    Some(failed_task_id@),
                    times@[i],
                )
            }),
    {
        let ghost ids = spec_ids(new_specs@, plan.id@, stamps@);
        let ghost start = views(plan.all_tasks@);
        let ghost p0 = *plan;
        let mut out: Vec<Task> = Vec::new();
        let mut i: usize = 0;
        proof {
            assert(start + ids.take(0) =~= start);
        }
        while i < new_specs.len()
            invariant
                i <= new_specs@.len(),
                stamps@.len() == new_specs@.len(),
                times@.len() == new_specs@.len(),
                p0.total_tasks + new_specs@.len() <= usize::MAX,
                ids == spec_ids(new_specs@, p0.id@, stamps@),
                views(plan.all_tasks@) == start + ids.take(i as int),
                start == views(p0.all_tasks@),
                plan.total_tasks == p0.total_tasks + i,
                *plan == (Plan { all_tasks: plan.all_tasks, total_tasks: plan.total_tasks, ..p0 }),
                out@.len() == i,
                forall|k: int| 0 <= k < i ==> is_spec_task(
                    #[trigger] out@[k],
                    new_specs@[k],
                    ids[k],
                    p0.id@,
                    Some(failed_task_id@),
                    times@[k],
                ),
            decreases new_specs@.len() - i,
        {
            let id = Self::task_id_for(&new_specs[i], plan.id.as_str(), stamps[i]);
            let task = Self::task_from_spec(
                &new_specs[i],
                id.clone(),
                plan.id.as_str(),
                Some(failed_task_id.to_string()),
                times[i],
            );
            out.push(task);
            let ghost a0 = views(plan.all_tasks@);
            plan.all_tasks.push(id);
            proof {
                assert(views(plan.all_tasks@) =~= a0.push(ids[i as int]));
                assert(ids.take(i + 1) =~= ids.take(i as int).push(ids[i as int]));
                assert(start + ids.take(i + 1) =~= (start + ids.take(i as int)).push(ids[i as int]));
            }
            plan.total_tasks = plan.total_tasks + 1;
            i = i + 1;
        }
        proof {
            assert(ids.take(ids.len() as int) =~= ids);
        }
        out
    }
}

} // verus!
