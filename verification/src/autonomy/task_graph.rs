use vstd::prelude::*;
use crate::autonomy::task::{ComplexityLevel, Task, TaskPriority, TaskStatus};
use crate::text::{same_text, views};
use vstd::multiset::Multiset;

verus! {

broadcast use vstd::seq_lib::group_to_multiset_ensures;

/// A task waiting in the ready queue, with the fields the queue orders by.
#[derive(Debug)]
pub struct ReadyTask {
    pub task_id: String,
    pub priority: TaskPriority,
    pub created_at_ms: u64,
    pub complexity: ComplexityLevel,
}

impl ReadyTask {
    /// `self` comes out of the queue before `other`: a higher priority rank
    /// (`Low` ranks highest), then the earlier creation time, then the lower
    /// complexity.
    pub open spec fn outranks(self, other: ReadyTask) -> bool {
        ||| self.priority.rank() > other.priority.rank()
        ||| (self.priority.rank() == other.priority.rank() && self.created_at_ms
            < other.created_at_ms)
        ||| (self.priority.rank() == other.priority.rank() && self.created_at_ms
            == other.created_at_ms && self.complexity.level() < other.complexity.level())
    }

    /// Of two queued tasks of the same priority, the one created earlier
    /// comes out first; of two different priorities, the higher rank first.
    pub proof fn lemma_earlier_first(a: ReadyTask, b: ReadyTask)
        ensures
            a.priority.rank() == b.priority.rank() && a.created_at_ms < b.created_at_ms ==> a.outranks(b) && !b.outranks(a),
            a.priority.rank() > b.priority.rank() ==> a.outranks(b) && !b.outranks(a),
    {
    }

    pub fn outranks_exec(&self, other: &ReadyTask) -> (r: bool)
        ensures
            r == self.outranks(*other),
    {
        let a = self.priority.rank_value();
        let b = other.priority.rank_value();
        if a != b {
            return a > b;
        }
        if self.created_at_ms != other.created_at_ms {
            return self.created_at_ms < other.created_at_ms;
        }
        self.complexity.level_value() < other.complexity.level_value()
    }

    pub fn duplicate(&self) -> (r: ReadyTask)
        ensures
            r == *self,
    {
        ReadyTask {
            task_id: self.task_id.clone(),
            priority: self.priority,
            created_at_ms: self.created_at_ms,
            complexity: self.complexity,
        }
    }
}

/// The queue entry for `t`.
pub open spec fn ready_entry(t: Task) -> ReadyTask {
    ReadyTask {
        task_id: t.id,
        priority: t.priority,
        created_at_ms: t.created_at_ms,
        complexity: t.complexity,
    }
}

/// A task in the graph, with the number of its dependencies not yet completed.
#[derive(Debug)]
pub struct TaskNode {
    pub task: Task,
    pub remaining_deps: usize,
}

/// Why a graph operation was refused.
#[derive(Debug, Clone, PartialEq, Eq)]
pub enum GraphError {
    TaskAlreadyExists(String),
    TaskNotFound(String),
}

impl GraphError {
    pub open spec fn text(self) -> Seq<char> {
        match self {
            GraphError::TaskAlreadyExists(id) => "task_already_exists: "@ + id@,
            GraphError::TaskNotFound(id) => "task_not_found: "@ + id@,
        }
    }

    /// The error text, `task_already_exists: <id>` or `task_not_found: <id>`.
    pub fn message(&self) -> (r: String)
        ensures
            r@ == self.text(),
    {
        match self {
            GraphError::TaskAlreadyExists(id) => {
                let mut r = String::new();
                r.append("task_already_exists: ");
                r.append(id.as_str());
                r
            },
            GraphError::TaskNotFound(id) => {
                let mut r = String::new();
                r.append("task_not_found: ");
                r.append(id.as_str());
                r
            },
        }
    }
}

struct DependentsEntry {
    key: String,
    ids: Vec<String>,
}

/// Tasks with their dependencies, and the queue of tasks ready to run.
pub struct TaskGraph {
    tasks: Vec<TaskNode>,
    ready_queue: Vec<ReadyTask>,
    dependents: Vec<DependentsEntry>,
}

// ---- maps kept in vectors -------------------------------------------------

pub open spec fn node_key(n: TaskNode) -> Seq<char> {
    n.task.id@
}

pub open spec fn distinct_nodes(v: Seq<TaskNode>) -> bool {
    forall|i: int, j: int|
        0 <= i < v.len() && 0 <= j < v.len() && i != j ==> node_key(#[trigger] v[i]) != node_key(
            #[trigger] v[j],
        )
}

pub open spec fn node_index(v: Seq<TaskNode>, k: Seq<char>) -> int {
    choose|i: int| 0 <= i < v.len() && node_key(v[i]) == k
}

pub open spec fn node_map(v: Seq<TaskNode>) -> Map<Seq<char>, TaskNode> {
    Map::new(
        |k: Seq<char>| exists|i: int| 0 <= i < v.len() && node_key(v[i]) == k,
        |k: Seq<char>| v[node_index(v, k)],
    )
}

proof fn lemma_node_map_at(v: Seq<TaskNode>, i: int)
    requires
        distinct_nodes(v),
        0 <= i < v.len(),
    ensures
        node_map(v).contains_key(node_key(v[i])),
        node_map(v)[node_key(v[i])] == v[i],
        node_index(v, node_key(v[i])) == i,
{
    let k = node_key(v[i]);
    assert(exists|j: int| 0 <= j < v.len() && node_key(v[j]) == k);
    let j = node_index(v, k);
    assert(node_key(v[j]) == k);
}

proof fn lemma_node_map_update(v: Seq<TaskNode>, i: int, n: TaskNode)
    requires
        distinct_nodes(v),
        0 <= i < v.len(),
        node_key(n) == node_key(v[i]),
    ensures
        distinct_nodes(v.update(i, n)),
        node_map(v.update(i, n)) == node_map(v).insert(node_key(n), n),
{
    let w = v.update(i, n);
    assert(distinct_nodes(w)) by {
        assert forall|a: int, b: int|
            0 <= a < w.len() && 0 <= b < w.len() && a != b implies node_key(#[trigger] w[a])
            != node_key(#[trigger] w[b]) by {
            if a != i && b != i {
                assert(w[a] == v[a] && w[b] == v[b]);
            } else if a == i {
                assert(w[b] == v[b]);
            } else {
                assert(w[a] == v[a]);
            }
        }
    }
    lemma_node_map_at(w, i);
    assert forall|k: Seq<char>| #![auto] node_map(w).contains_key(k) == node_map(v).insert(
        node_key(n),
        n,
    ).contains_key(k) by {
        if node_map(w).contains_key(k) {
            let j = choose|j: int| 0 <= j < w.len() && node_key(w[j]) == k;
            if j != i {
                assert(node_key(v[j]) == k);
            }
        }
        if node_map(v).contains_key(k) {
            let j = choose|j: int| 0 <= j < v.len() && node_key(v[j]) == k;
            if j != i {
                assert(node_key(w[j]) == k);
            } else {
                assert(node_key(w[i]) == k);
            }
        }
    }
    assert forall|k: Seq<char>| #[trigger] node_map(w).contains_key(k) implies node_map(w)[k]
        == node_map(v).insert(node_key(n), n)[k] by {
        let j = choose|j: int| 0 <= j < w.len() && node_key(w[j]) == k;
        lemma_node_map_at(w, j);
        if j != i {
            assert(w[j] == v[j]);
            lemma_node_map_at(v, j);
        }
    }
    assert(node_map(w) =~= node_map(v).insert(node_key(n), n));
}

proof fn lemma_node_map_push(v: Seq<TaskNode>, n: TaskNode)
    requires
        distinct_nodes(v),
        !node_map(v).contains_key(node_key(n)),
    ensures
        distinct_nodes(v.push(n)),
        node_map(v.push(n)) == node_map(v).insert(node_key(n), n),
{
    let w = v.push(n);
    assert(distinct_nodes(w)) by {
        assert forall|a: int, b: int|
            0 <= a < w.len() && 0 <= b < w.len() && a != b implies node_key(#[trigger] w[a])
            != node_key(#[trigger] w[b]) by {
            if a < v.len() && b < v.len() {
                assert(w[a] == v[a] && w[b] == v[b]);
            } else if a == v.len() {
                assert(w[b] == v[b]);
                if node_key(v[b]) == node_key(n) {
                    assert(node_map(v).contains_key(node_key(n)));
                }
            } else {
                assert(w[a] == v[a]);
                if node_key(v[a]) == node_key(n) {
                    assert(node_map(v).contains_key(node_key(n)));
                }
            }
        }
    }
    let m = node_map(v).insert(node_key(n), n);
    assert forall|k: Seq<char>| #![auto] node_map(w).contains_key(k) == m.contains_key(k) by {
        if node_map(w).contains_key(k) {
            let j = choose|j: int| 0 <= j < w.len() && node_key(w[j]) == k;
            if j < v.len() {
                assert(node_key(v[j]) == k);
            }
        }
        if node_map(v).contains_key(k) {
            let j = choose|j: int| 0 <= j < v.len() && node_key(v[j]) == k;
            assert(node_key(w[j]) == k);
        }
        if k == node_key(n) {
            assert(node_key(w[v.len() as int]) == k);
        }
    }
    assert forall|k: Seq<char>| #[trigger] node_map(w).contains_key(k) implies node_map(w)[k]
        == m[k] by {
        let j = choose|j: int| 0 <= j < w.len() && node_key(w[j]) == k;
        lemma_node_map_at(w, j);
        if j < v.len() {
            assert(w[j] == v[j]);
            lemma_node_map_at(v, j);
        }
    }
    assert(node_map(w) =~= m);
}

// ---- the dependents relation ----------------------------------------------

/// The identifiers in `ids`, as a set.
pub open spec fn id_set(ids: Seq<String>) -> Set<Seq<char>> {
    Set::new(|k: Seq<char>| exists|i: int| 0 <= i < ids.len() && ids[i]@ == k)
}

pub open spec fn distinct_strings(ids: Seq<String>) -> bool {
    forall|i: int, j: int|
        0 <= i < ids.len() && 0 <= j < ids.len() && i != j ==> (#[trigger] ids[i])@ != (
        #[trigger] ids[j])@
}

spec fn entry_key(e: DependentsEntry) -> Seq<char> {
    e.key@
}

spec fn entries_wf(v: Seq<DependentsEntry>) -> bool {
    &&& forall|i: int, j: int|
        0 <= i < v.len() && 0 <= j < v.len() && i != j ==> entry_key(#[trigger] v[i]) != entry_key(
            #[trigger] v[j],
        )
    &&& forall|i: int| 0 <= i < v.len() ==> distinct_strings((#[trigger] v[i]).ids@)
}

spec fn entry_index(v: Seq<DependentsEntry>, k: Seq<char>) -> int {
    choose|i: int| 0 <= i < v.len() && entry_key(v[i]) == k
}

spec fn entry_map(v: Seq<DependentsEntry>) -> Map<Seq<char>, Set<Seq<char>>> {
    Map::new(
        |k: Seq<char>| exists|i: int| 0 <= i < v.len() && entry_key(v[i]) == k,
        |k: Seq<char>| id_set(v[entry_index(v, k)].ids@),
    )
}

proof fn lemma_entry_map_at(v: Seq<DependentsEntry>, i: int)
    requires
        entries_wf(v),
        0 <= i < v.len(),
    ensures
        entry_map(v).contains_key(entry_key(v[i])),
        entry_map(v)[entry_key(v[i])] == id_set(v[i].ids@),
{
    let k = entry_key(v[i]);
    assert(exists|j: int| 0 <= j < v.len() && entry_key(v[j]) == k);
    let j = entry_index(v, k);
    assert(entry_key(v[j]) == k);
}

/// `n` with its task's status set to `st`.
pub open spec fn with_status(n: TaskNode, st: TaskStatus) -> TaskNode {
    TaskNode { task: Task { status: st, ..n.task }, ..n }
}

proof fn lemma_entry_map_update(v: Seq<DependentsEntry>, i: int, e: DependentsEntry)
    requires
        entries_wf(v),
        0 <= i < v.len(),
        entry_key(e) == entry_key(v[i]),
        distinct_strings(e.ids@),
    ensures
        entries_wf(v.update(i, e)),
        entry_map(v.update(i, e)) == entry_map(v).insert(entry_key(e), id_set(e.ids@)),
{
    let w = v.update(i, e);
    assert forall|a: int, b: int|
        0 <= a < w.len() && 0 <= b < w.len() && a != b implies entry_key(#[trigger] w[a])
        != entry_key(#[trigger] w[b]) by {
        if a != i {
            assert(w[a] == v[a]);
        }
        if b != i {
            assert(w[b] == v[b]);
        }
    }
    assert forall|a: int| 0 <= a < w.len() implies distinct_strings((#[trigger] w[a]).ids@) by {
        if a != i {
            assert(w[a] == v[a]);
        }
    }
    let m = entry_map(v).insert(entry_key(e), id_set(e.ids@));
    lemma_entry_map_at(w, i);
    assert forall|k: Seq<char>| #![auto] entry_map(w).contains_key(k) == m.contains_key(k) by {
        if entry_map(w).contains_key(k) {
            let j = choose|j: int| 0 <= j < w.len() && entry_key(w[j]) == k;
            if j != i {
                assert(entry_key(v[j]) == k);
            }
        }
        if entry_map(v).contains_key(k) {
            let j = choose|j: int| 0 <= j < v.len() && entry_key(v[j]) == k;
            if j != i {
                assert(entry_key(w[j]) == k);
            } else {
                assert(entry_key(w[i]) == k);
            }
        }
    }
    assert forall|k: Seq<char>| #[trigger] entry_map(w).contains_key(k) implies entry_map(w)[k]
        == m[k] by {
        let j = choose|j: int| 0 <= j < w.len() && entry_key(w[j]) == k;
        lemma_entry_map_at(w, j);
        if j != i {
            assert(w[j] == v[j]);
            lemma_entry_map_at(v, j);
        }
    }
    assert(entry_map(w) =~= m);
}

proof fn lemma_entry_map_push(v: Seq<DependentsEntry>, e: DependentsEntry)
    requires
        entries_wf(v),
        !entry_map(v).contains_key(entry_key(e)),
        distinct_strings(e.ids@),
    ensures
        entries_wf(v.push(e)),
        entry_map(v.push(e)) == entry_map(v).insert(entry_key(e), id_set(e.ids@)),
{
    let w = v.push(e);
    assert forall|a: int, b: int|
        0 <= a < w.len() && 0 <= b < w.len() && a != b implies entry_key(#[trigger] w[a])
        != entry_key(#[trigger] w[b]) by {
        if a < v.len() {
            assert(w[a] == v[a]);
        }
        if b < v.len() {
            assert(w[b] == v[b]);
        }
        if a == v.len() && entry_key(v[b]) == entry_key(e) {
            assert(entry_map(v).contains_key(entry_key(e)));
        }
        if b == v.len() && entry_key(v[a]) == entry_key(e) {
            assert(entry_map(v).contains_key(entry_key(e)));
        }
    }
    assert forall|a: int| 0 <= a < w.len() implies distinct_strings((#[trigger] w[a]).ids@) by {
        if a < v.len() {
            assert(w[a] == v[a]);
        }
    }
    let m = entry_map(v).insert(entry_key(e), id_set(e.ids@));
    assert forall|k: Seq<char>| #![auto] entry_map(w).contains_key(k) == m.contains_key(k) by {
        if entry_map(w).contains_key(k) {
            let j = choose|j: int| 0 <= j < w.len() && entry_key(w[j]) == k;
            if j < v.len() {
                assert(entry_key(v[j]) == k);
            }
        }
        if entry_map(v).contains_key(k) {
            let j = choose|j: int| 0 <= j < v.len() && entry_key(v[j]) == k;
            assert(entry_key(w[j]) == k);
        }
        if k == entry_key(e) {
            assert(entry_key(w[v.len() as int]) == k);
        }
    }
    assert forall|k: Seq<char>| #[trigger] entry_map(w).contains_key(k) implies entry_map(w)[k]
        == m[k] by {
        let j = choose|j: int| 0 <= j < w.len() && entry_key(w[j]) == k;
        lemma_entry_map_at(w, j);
        if j < v.len() {
            assert(w[j] == v[j]);
            lemma_entry_map_at(v, j);
        }
    }
    assert(entry_map(w) =~= m);
}

/// `m` with `id` added to the set of each key in `keys`.
pub open spec fn with_dependent(
    m: Map<Seq<char>, Set<Seq<char>>>,
    keys: Seq<String>,
    id: Seq<char>,
) -> Map<Seq<char>, Set<Seq<char>>> {
    Map::new(
        |k: Seq<char>| m.contains_key(k) || id_set(keys).contains(k),
        |k: Seq<char>|
            if id_set(keys).contains(k) {
                (if m.contains_key(k) {
                    m[k]
                } else {
                    Set::empty()
                }).insert(id)
            } else {
                m[k]
            },
    )
}

/// A task added to the graph becomes ready at once when it has no
/// dependency and is pending.
pub open spec fn ready_on_add(t: Task) -> bool {
    t.dependencies@.len() == 0 && t.status == TaskStatus::Pending
}

/// The node that `add_task` stores for `t`.
pub open spec fn added_node(t: Task) -> TaskNode {
    TaskNode {
        task: if ready_on_add(t) {
            Task { status: TaskStatus::Ready, ..t }
        } else {
            t
        },
        remaining_deps: t.dependencies@.len() as usize,
    }
}

/// The nodes of the graph that adding the tasks of `ts`, in order, to an
/// empty graph makes.
pub open spec fn nodes_after_adding(ts: Seq<Task>) -> Map<Seq<char>, TaskNode>
    decreases ts.len(),
{
    if ts.len() == 0 {
        Map::empty()
    } else {
        nodes_after_adding(ts.drop_last()).insert(ts.last().id@, added_node(ts.last()))
    }
}

/// The ready queue of the graph that adding the tasks of `ts`, in order, to
/// an empty graph makes.
pub open spec fn ready_after_adding(ts: Seq<Task>) -> Multiset<ReadyTask>
    decreases ts.len(),
{
    if ts.len() == 0 {
        Multiset::empty()
    } else if ready_on_add(ts.last()) {
        ready_after_adding(ts.drop_last()).insert(ready_entry(added_node(ts.last()).task))
    } else {
        ready_after_adding(ts.drop_last())
    }
}

/// The dependents of the graph that adding the tasks of `ts`, in order, to
/// an empty graph makes.
pub open spec fn dependents_after_adding(ts: Seq<Task>) -> Map<Seq<char>, Set<Seq<char>>>
    decreases ts.len(),
{
    if ts.len() == 0 {
        Map::empty()
    } else {
        with_dependent(dependents_after_adding(ts.drop_last()), ts.last().dependencies@, ts.last().id@)
    }
}

/// A node after one of its dependencies completed: one dependency fewer (not
/// below zero), and ready when none is left and it was pending.
pub open spec fn after_dependency_done(n: TaskNode) -> TaskNode {
    let rem: int = if n.remaining_deps > 0 {
        n.remaining_deps - 1
    } else {
        0
    };
    TaskNode {
        task: if rem == 0 && n.task.status == TaskStatus::Pending {
            Task { status: TaskStatus::Ready, ..n.task }
        } else {
            n.task
        },
        remaining_deps: rem as usize,
    }
}

/// Completing one more dependency makes `n` ready.
pub open spec fn unblocked_by_one(n: TaskNode) -> bool {
    n.remaining_deps <= 1 && n.task.status == TaskStatus::Pending
}

/// `base` with the nodes whose ids are in `done` advanced by one completed
/// dependency.
pub open spec fn advanced(base: Map<Seq<char>, TaskNode>, done: Set<Seq<char>>) -> Map<
    Seq<char>,
    TaskNode,
> {
    Map::new(
        |k: Seq<char>| base.contains_key(k),
        |k: Seq<char>|
            if done.contains(k) {
                after_dependency_done(base[k])
            } else {
                base[k]
            },
    )
}

/// The ids in `done` whose nodes in `base` become ready.
pub open spec fn unblocked(base: Map<Seq<char>, TaskNode>, done: Set<Seq<char>>) -> Set<Seq<char>> {
    Set::new(|k: Seq<char>| done.contains(k) && base.contains_key(k) && unblocked_by_one(base[k]))
}

/// The queue entries of the tasks named in `ids`, once advanced.
pub open spec fn unblocked_entries(base: Map<Seq<char>, TaskNode>, ids: Seq<String>) -> Multiset<
    ReadyTask,
> {
    ids.map_values(|s: String| ready_entry(after_dependency_done(base[s@]).task)).to_multiset()
}

proof fn lemma_advanced_step(base: Map<Seq<char>, TaskNode>, done: Set<Seq<char>>, d: Seq<char>)
    requires
        !done.contains(d),
    ensures
        base.contains_key(d) ==> advanced(base, done).insert(d, after_dependency_done(base[d]))
            == advanced(base, done.insert(d)),
        !base.contains_key(d) ==> advanced(base, done) == advanced(base, done.insert(d)),
{
    assert(advanced(base, done).insert(d, after_dependency_done(base[d])) =~= advanced(
        base,
        done.insert(d),
    ) || !base.contains_key(d));
    assert(advanced(base, done) =~= advanced(base, done.insert(d)) || base.contains_key(d));
}

/// Every task id and every dependency id named by the nodes `v`.
pub open spec fn ids_of_nodes(v: Seq<TaskNode>) -> Seq<Seq<char>>
    decreases v.len(),
{
    if v.len() == 0 {
        seq![]
    } else {
        ids_of_nodes(v.drop_last()).push(node_key(v.last())) + views(
            v.last().task.dependencies@,
        )
    }
}

proof fn lemma_ids_of_nodes(v: Seq<TaskNode>, i: int)
    requires
        0 <= i < v.len(),
    ensures
        ids_of_nodes(v).contains(node_key(v[i])),
        forall|j: int|
            0 <= j < v[i].task.dependencies@.len() ==> ids_of_nodes(v).contains(
                (#[trigger] v[i].task.dependencies@[j])@,
            ),
    decreases v.len(),
{
    let u = v.drop_last();
    let head = ids_of_nodes(u).push(node_key(v.last()));
    let tail = views(v.last().task.dependencies@);
    assert(ids_of_nodes(v) == head + tail);
    if i < v.len() - 1 {
        lemma_ids_of_nodes(u, i);
        assert(u[i] == v[i]);
        let k = choose|k: int| 0 <= k < ids_of_nodes(u).len() && ids_of_nodes(u)[k] == node_key(v[i]);
        assert(ids_of_nodes(v)[k] == node_key(v[i]));
        assert forall|j: int| 0 <= j < v[i].task.dependencies@.len() implies ids_of_nodes(v).contains(
            (#[trigger] v[i].task.dependencies@[j])@) by {
            assert(u[i].task.dependencies@[j] == v[i].task.dependencies@[j]);
            assert(ids_of_nodes(u).contains((u[i].task.dependencies@[j])@));
            let k2 = choose|k2: int| 0 <= k2 < ids_of_nodes(u).len() && ids_of_nodes(u)[k2] == (u[i].task.dependencies@[j])@;
            assert(ids_of_nodes(v)[k2] == ids_of_nodes(u)[k2]);
        }
    } else {
        assert(ids_of_nodes(v)[ids_of_nodes(u).len() as int] == node_key(v[i]));
        assert forall|j: int| 0 <= j < v[i].task.dependencies@.len() implies ids_of_nodes(v).contains(
            (#[trigger] v[i].task.dependencies@[j])@) by {
            assert(ids_of_nodes(v)[head.len() + j] == tail[j]);
        }
    }
}

// ---- the graph's model ----------------------------------------------------

impl TaskGraph {
    /// Internal consistency: one node per task id, one dependents entry per key,
    /// no id twice in an entry.
    pub closed spec fn wf(self) -> bool {
        &&& distinct_nodes(self.tasks@)
        &&& entries_wf(self.dependents@)
    }

    /// The nodes, by task id.
    pub closed spec fn nodes(self) -> Map<Seq<char>, TaskNode> {
        node_map(self.tasks@)
    }

    /// The ready queue, as a multiset: the queue's order is given by `outranks`.
    pub closed spec fn ready(self) -> Multiset<ReadyTask> {
        self.ready_queue@.to_multiset()
    }

    /// For each task id, the ids of the tasks that were added depending on it.
    pub closed spec fn dependents_map(self) -> Map<Seq<char>, Set<Seq<char>>> {
        entry_map(self.dependents@)
    }

    /// The dependents of `id` (none when no task depends on it).
    pub open spec fn dependents_of(self, id: Seq<char>) -> Set<Seq<char>> {
        if self.dependents_map().contains_key(id) {
            self.dependents_map()[id]
        } else {
            Set::empty()
        }
    }

    /// Whether the graph is what adding the tasks of `ts`, in order, to an
    /// empty graph makes.
    pub open spec fn is_built_from(self, ts: Seq<Task>) -> bool {
        &&& self.nodes() == nodes_after_adding(ts)
        &&& self.ready() == ready_after_adding(ts)
        &&& self.dependents_map() == dependents_after_adding(ts)
    }

    /// The ids of the tasks in the graph.
    pub open spec fn ids(self) -> Set<Seq<char>> {
        self.nodes().dom()
    }

    pub fn new() -> (g: TaskGraph)
        ensures
            g.wf(),
            g.nodes() == Map::<Seq<char>, TaskNode>::empty(),
            g.ready() == Multiset::<ReadyTask>::empty(),
            g.dependents_map() == Map::<Seq<char>, Set<Seq<char>>>::empty(),
    {
        let g = TaskGraph { tasks: Vec::new(), ready_queue: Vec::new(), dependents: Vec::new() };
        assert(g.nodes() =~= Map::<Seq<char>, TaskNode>::empty());
        assert(g.dependents_map() =~= Map::<Seq<char>, Set<Seq<char>>>::empty());
        g
    }

    fn find_node(&self, id: &str) -> (r: Option<usize>)
        requires
            self.wf(),
        ensures
            match r {
                Some(i) => i < self.tasks@.len() && node_key(self.tasks@[i as int]) == id@,
                None => !self.nodes().contains_key(id@),
            },
    {
        let mut i: usize = 0;
        while i < self.tasks.len()
            invariant
                i <= self.tasks@.len(),
                forall|j: int| 0 <= j < i ==> node_key(#[trigger] self.tasks@[j]) != id@,
            decreases self.tasks@.len() - i,
        {
            if same_text(self.tasks[i].task.id.as_str(), id) {
                return Some(i);
            }
            i = i + 1;
        }
        None
    }

    /// The task with the given id.
    pub fn get_task(&self, id: &str) -> (r: Option<&Task>)
        requires
            self.wf(),
        ensures
            match r {
                Some(t) => self.nodes().contains_key(id@) && *t == self.nodes()[id@].task,
                None => !self.nodes().contains_key(id@),
            },
    {
        match self.find_node(id) {
            Some(i) => {
                proof {
                    lemma_node_map_at(self.tasks@, i as int);
                }
                Some(&self.tasks[i].task)
            },
            None => None,
        }
    }

    /// The node at `i` with its status set to `status`.
    fn set_status_at(&mut self, i: usize, status: TaskStatus)
        requires
            old(self).wf(),
            i < old(self).tasks@.len(),
        ensures
            final(self).wf(),
            final(self).tasks@ == old(self).tasks@.update(
                i as int,
                with_status(old(self).tasks@[i as int], status),
            ),
            final(self).nodes() == old(self).nodes().insert(
                node_key(old(self).tasks@[i as int]),
                with_status(old(self).tasks@[i as int], status),
            ),
            final(self).ready_queue == old(self).ready_queue,
            final(self).dependents == old(self).dependents,
    {
        let ghost v = self.tasks@;
        self.tasks[i].task.status = status;
        proof {
            lemma_node_map_update(v, i as int, self.tasks@[i as int]);
        }
    }

    /// Sets the status of task `id`; refused when there is no such task.
    fn set_status(&mut self, id: &str, status: TaskStatus) -> (r: Result<(), GraphError>)
        requires
            old(self).wf(),
        ensures
            final(self).wf(),
            final(self).ready() == old(self).ready(),
            final(self).dependents_map() == old(self).dependents_map(),
            match r {
                Ok(()) => old(self).nodes().contains_key(id@) && final(self).nodes() == old(self).nodes().insert(id@, with_status(old(self).nodes()[id@], status)),
                Err(e) => !old(self).nodes().contains_key(id@) && e == GraphError::TaskNotFound(
                    e->TaskNotFound_0,
                ) && e->TaskNotFound_0@ == id@ && final(self).nodes() == old(self).nodes(),
            },
    {
        match self.find_node(id) {
            Some(i) => {
                proof {
                    lemma_node_map_at(self.tasks@, i as int);
                }
                self.set_status_at(i, status);
                Ok(())
            },
            None => Err(GraphError::TaskNotFound(id.to_owned())),
        }
    }

    /// Marks task `id` failed.
    pub fn fail_task(&mut self, id: &str, _error: &str) -> (r: Result<(), GraphError>)
        requires
            old(self).wf(),
        ensures
            final(self).wf(),
            final(self).ready() == old(self).ready(),
            final(self).dependents_map() == old(self).dependents_map(),
            match r {
                Ok(()) => old(self).nodes().contains_key(id@) && final(self).nodes() == old(self).nodes().insert(id@, with_status(old(self).nodes()[id@], TaskStatus::Failed)),
                Err(e) => !old(self).nodes().contains_key(id@) && e->TaskNotFound_0@ == id@
                    && e is TaskNotFound && final(self).nodes() == old(self).nodes(),
            },
    {
        self.set_status(id, TaskStatus::Failed)
    }

    /// Marks task `id` cancelled.
    pub fn cancel_task(&mut self, id: &str) -> (r: Result<(), GraphError>)
        requires
            old(self).wf(),
        ensures
            final(self).wf(),
            final(self).ready() == old(self).ready(),
            final(self).dependents_map() == old(self).dependents_map(),
            match r {
                Ok(()) => old(self).nodes().contains_key(id@) && final(self).nodes() == old(self).nodes().insert(id@, with_status(old(self).nodes()[id@], TaskStatus::Cancelled)),
                Err(e) => !old(self).nodes().contains_key(id@) && e->TaskNotFound_0@ == id@
                    && e is TaskNotFound && final(self).nodes() == old(self).nodes(),
            },
    {
        self.set_status(id, TaskStatus::Cancelled)
    }

    /// Marks task `id` running.
    pub fn start_task(&mut self, id: &str) -> (r: Result<(), GraphError>)
        requires
            old(self).wf(),
        ensures
            final(self).wf(),
            final(self).ready() == old(self).ready(),
            final(self).dependents_map() == old(self).dependents_map(),
            match r {
                Ok(()) => old(self).nodes().contains_key(id@) && final(self).nodes() == old(self).nodes().insert(id@, with_status(old(self).nodes()[id@], TaskStatus::Running)),
                Err(e) => !old(self).nodes().contains_key(id@) && e->TaskNotFound_0@ == id@
                    && e is TaskNotFound && final(self).nodes() == old(self).nodes(),
            },
    {
        self.set_status(id, TaskStatus::Running)
    }

    /// Marks task `id` paused.
    pub fn pause_task(&mut self, id: &str) -> (r: Result<(), GraphError>)
        requires
            old(self).wf(),
        ensures
            final(self).wf(),
            final(self).ready() == old(self).ready(),
            final(self).dependents_map() == old(self).dependents_map(),
            match r {
                Ok(()) => old(self).nodes().contains_key(id@) && final(self).nodes() == old(self).nodes().insert(id@, with_status(old(self).nodes()[id@], TaskStatus::Paused)),
                Err(e) => !old(self).nodes().contains_key(id@) && e->TaskNotFound_0@ == id@
                    && e is TaskNotFound && final(self).nodes() == old(self).nodes(),
            },
    {
        self.set_status(id, TaskStatus::Paused)
    }

    /// Marks task `id` scheduled on `assignee`.
    pub fn schedule_task(&mut self, id: &str, assignee: &str) -> (r: Result<(), GraphError>)
        requires
            old(self).wf(),
        ensures
            final(self).wf(),
            final(self).ready() == old(self).ready(),
            final(self).dependents_map() == old(self).dependents_map(),
            match r {
                Ok(()) => old(self).nodes().contains_key(id@) && ({
                    let n = old(self).nodes()[id@];
                    let t = final(self).nodes()[id@].task;
                    &&& final(self).nodes().dom() == old(self).nodes().dom()
                    &&& forall|k: Seq<char>|
                        k != id@ && #[trigger] old(self).nodes().contains_key(k) ==> final(self).nodes()[k] == old(self).nodes()[k]
                    &&& final(self).nodes()[id@].remaining_deps == n.remaining_deps
                    &&& t.status == TaskStatus::Scheduled
                    &&& t.assignee matches Some(a) && a@ == assignee@
                    &&& t == Task { status: TaskStatus::Scheduled, assignee: t.assignee, ..n.task }
                }),
                Err(e) => !old(self).nodes().contains_key(id@) && e->TaskNotFound_0@ == id@
                    && e is TaskNotFound && final(self).nodes() == old(self).nodes(),
            },
    {
        match self.find_node(id) {
            Some(i) => {
                proof {
                    lemma_node_map_at(self.tasks@, i as int);
                }
                let ghost v = self.tasks@;
                let ghost m = self.nodes();
                self.tasks[i].task.status = TaskStatus::Scheduled;
                self.tasks[i].task.assignee = Some(assignee.to_owned());
                proof {
                    let nn = self.tasks@[i as int];
                    lemma_node_map_update(v, i as int, nn);
                    assert(self.tasks@ == v.update(i as int, nn));
                    assert(self.nodes() == m.insert(id@, nn));
                    assert(m[id@] == v[i as int]);
                    assert(nn.task == Task { status: TaskStatus::Scheduled, assignee: nn.task.assignee, ..v[i as int].task });
                    assert(self.nodes().dom() =~= m.dom());
                }
                Ok(())
            },
            None => Err(GraphError::TaskNotFound(id.to_owned())),
        }
    }

    /// Moves task `id` into the ready queue when it has no dependency left and
    /// is not ready already; refused when there is no such task.
    pub fn mark_ready(&mut self, id: &str) -> (r: Result<(), GraphError>)
        requires
            old(self).wf(),
        ensures
            final(self).wf(),
            final(self).dependents_map() == old(self).dependents_map(),
            match r {
                Ok(()) => old(self).nodes().contains_key(id@) && ({
                    let n = old(self).nodes()[id@];
                    if n.task.status != TaskStatus::Ready && n.remaining_deps == 0 {
                        &&& final(self).nodes() == old(self).nodes().insert(
                            id@,
                            with_status(n, TaskStatus::Ready),
                        )
                        &&& final(self).ready() == old(self).ready().insert(ready_entry(n.task))
                    } else {
                        &&& final(self).nodes() == old(self).nodes()
                        &&& final(self).ready() == old(self).ready()
                    }
                }),
                Err(e) => !old(self).nodes().contains_key(id@) && e->TaskNotFound_0@ == id@
                    && e is TaskNotFound && final(self).nodes() == old(self).nodes()
                    && final(self).ready() == old(self).ready(),
            },
    {
        match self.find_node(id) {
            Some(i) => {
                proof {
                    lemma_node_map_at(self.tasks@, i as int);
                }
                if self.tasks[i].task.status != TaskStatus::Ready && self.tasks[i].remaining_deps
                    == 0 {
                    let entry = ReadyTask {
                        task_id: self.tasks[i].task.id.clone(),
                        priority: self.tasks[i].task.priority,
                        created_at_ms: self.tasks[i].task.created_at_ms,
                        complexity: self.tasks[i].task.complexity,
                    };
                    self.set_status_at(i, TaskStatus::Ready);
                    self.ready_queue.push(entry);
                }
                Ok(())
            },
            None => Err(GraphError::TaskNotFound(id.to_owned())),
        }
    }

    /// Puts an entry back into the ready queue.
    pub fn push_ready(&mut self, ready: ReadyTask)
        ensures
            final(self).ready() == old(self).ready().insert(ready),
            final(self).nodes() == old(self).nodes(),
            final(self).dependents_map() == old(self).dependents_map(),
            final(self).wf() == old(self).wf(),
    {
        self.ready_queue.push(ready);
    }

    /// Takes out the entry that comes first in the queue's order.
    pub fn pop_ready(&mut self) -> (r: Option<ReadyTask>)
        ensures
            final(self).nodes() == old(self).nodes(),
            final(self).dependents_map() == old(self).dependents_map(),
            final(self).wf() == old(self).wf(),
            match r {
                Some(t) => old(self).ready().count(t) > 0 && final(self).ready() == old(self).ready().remove(t) && forall|x: ReadyTask| #[trigger]
                    old(self).ready().count(x) > 0 ==> !x.outranks(t),
                None => old(self).ready().len() == 0 && final(self).ready() == old(self).ready(),
            },
            r matches Some(t) ==> forall|x: ReadyTask| #[trigger] old(self).ready().count(x) > 0 ==> {
                &&& x.priority.rank() <= t.priority.rank()
                &&& x.priority.rank() == t.priority.rank() ==> t.created_at_ms <= x.created_at_ms
            },
    {
        let n = self.ready_queue.len();
        if n == 0 {
            return None;
        }
        let mut best: usize = 0;
        let mut i: usize = 1;
        while i < n
            invariant
                n == self.ready_queue@.len(),
                best < n,
                1 <= i <= n,
                forall|j: int| 0 <= j < i ==> !(#[trigger] self.ready_queue@[j]).outranks(
                    self.ready_queue@[best as int],
                ),
            decreases n - i,
        {
            if self.ready_queue[i].outranks_exec(&self.ready_queue[best]) {
                proof {
                    assert forall|j: int| 0 <= j < i + 1 implies !(
                    #[trigger] self.ready_queue@[j]).outranks(self.ready_queue@[i as int]) by {
                        if j < i {
                            assert(!self.ready_queue@[j].outranks(self.ready_queue@[best as int]));
                        }
                    }
                }
                best = i;
            }
            i = i + 1;
        }
        let ghost q = self.ready_queue@;
        let t = self.ready_queue.remove(best);
        proof {
            assert forall|x: ReadyTask| #[trigger] q.to_multiset().count(x) > 0 implies !x.outranks(t) by {
                assert(q.contains(x));
                let j = choose|j: int| 0 <= j < q.len() && q[j] == x;
            }
        }
        Some(t)
    }

    fn find_entry(&self, key: &str) -> (r: Option<usize>)
        requires
            entries_wf(self.dependents@),
        ensures
            match r {
                Some(i) => i < self.dependents@.len() && entry_key(self.dependents@[i as int])
                    == key@,
                None => !self.dependents_map().contains_key(key@),
            },
    {
        let mut i: usize = 0;
        while i < self.dependents.len()
            invariant
                i <= self.dependents@.len(),
                forall|j: int| 0 <= j < i ==> entry_key(#[trigger] self.dependents@[j]) != key@,
            decreases self.dependents@.len() - i,
        {
            if same_text(self.dependents[i].key.as_str(), key) {
                return Some(i);
            }
            i = i + 1;
        }
        None
    }

    /// Records that `id` depends on `key`.
    fn add_dependent(&mut self, key: &String, id: &String)
        requires
            old(self).wf(),
        ensures
            final(self).wf(),
            final(self).nodes() == old(self).nodes(),
            final(self).ready() == old(self).ready(),
            final(self).dependents_map() == old(self).dependents_map().insert(
                key@,
                old(self).dependents_of(key@).insert(id@),
            ),
    {
        let ghost v = self.dependents@;
        match self.find_entry(key.as_str()) {
            Some(i) => {
                proof {
                    lemma_entry_map_at(v, i as int);
                }
                let mut present = false;
                let mut j: usize = 0;
                let len = self.dependents[i].ids.len();
                while j < len
                    invariant
                        self.dependents@ == v,
                        i < v.len(),
                        len == v[i as int].ids@.len(),
                        j <= len,
                        !present ==> forall|q: int| 0 <= q < j ==> (#[trigger] v[i as int].ids@[q])@ != id@,
                        present ==> id_set(v[i as int].ids@).contains(id@),
                    decreases len - j,
                {
                    if same_text(self.dependents[i].ids[j].as_str(), id.as_str()) {
                        present = true;
                        assert(v[i as int].ids@[j as int]@ == id@);
                    }
                    j = j + 1;
                }
                if !present {
                    let ghost old_ids = v[i as int].ids@;
                    let mut ids = Vec::new();
                    std::mem::swap(&mut ids, &mut self.dependents[i].ids);
                    ids.push(id.clone());
                    let ghost new_ids = ids@;
                    let entry = DependentsEntry { key: key.clone(), ids };
                    proof {
                        assert(new_ids == old_ids.push(*id));
                        assert forall|a: int, b: int|
                            0 <= a < new_ids.len() && 0 <= b < new_ids.len() && a != b implies (
                            #[trigger] new_ids[a])@ != (#[trigger] new_ids[b])@ by {
                            if a < old_ids.len() && b < old_ids.len() {
                                assert(distinct_strings(v[i as int].ids@));
                            }
                        }
                        assert(id_set(new_ids) =~= id_set(old_ids).insert(id@)) by {
                            assert forall|k: Seq<char>| #[trigger] id_set(new_ids).contains(k) implies id_set(old_ids).insert(id@).contains(k) by {
                                let q = choose|q: int| 0 <= q < new_ids.len() && new_ids[q]@ == k;
                                if q < old_ids.len() {
                                    assert(old_ids[q]@ == k);
                                }
                            }
                            assert forall|k: Seq<char>| #[trigger] id_set(old_ids).insert(id@).contains(k) implies id_set(new_ids).contains(k) by {
                                if k == id@ {
                                    assert(new_ids[old_ids.len() as int]@ == k);
                                } else {
                                    let q = choose|q: int| 0 <= q < old_ids.len() && old_ids[q]@ == k;
                                    assert(new_ids[q]@ == k);
                                }
                            }
                        }
                    }
                    let ghost ev = entry;
                    self.dependents.set(i, entry);
                    proof {
                        assert(self.dependents@ =~= v.update(i as int, ev));
                        lemma_entry_map_update(v, i as int, ev);
                        assert(old(self).dependents_of(key@) == id_set(old_ids));
                        assert(self.dependents_map() == old(self).dependents_map().insert(key@, old(self).dependents_of(key@).insert(id@)));
                    }
                } else {
                    proof {
                        assert(old(self).dependents_of(key@).insert(id@) =~= old(self).dependents_of(key@));
                        assert(old(self).dependents_map().insert(key@, old(self).dependents_of(key@)) =~= old(self).dependents_map());
                    }
                    assert(self.dependents_map() == old(self).dependents_map().insert(key@, old(self).dependents_of(key@).insert(id@)));
                }
            },
            None => {
                let mut ids = Vec::new();
                ids.push(id.clone());
                let entry = DependentsEntry { key: key.clone(), ids };
                proof {
                    assert(id_set(entry.ids@) =~= Set::<Seq<char>>::empty().insert(id@)) by {
                        assert(entry.ids@[0]@ == id@);
                    }
                    lemma_entry_map_push(v, entry);
                }
                self.dependents.push(entry);
                assert(self.dependents_map() == old(self).dependents_map().insert(key@, old(self).dependents_of(key@).insert(id@)));
            },
        }
    }

    /// Adds `task`: refused when a task with its id is already in the graph.
    /// Otherwise the task is recorded as a dependent of each of its
    /// dependencies, counts them as not yet completed, and enters the ready
    /// queue at once when it is pending with no dependency.
    pub fn add_task(&mut self, task: Task) -> (r: Result<(), GraphError>)
        requires
            old(self).wf(),
        ensures
            final(self).wf(),
            old(self).nodes().contains_key(task.id@) ==> {
                &&& r matches Err(GraphError::TaskAlreadyExists(id)) && id@ == task.id@
                &&& final(self).nodes() == old(self).nodes()
                &&& final(self).ready() == old(self).ready()
                &&& final(self).dependents_map() == old(self).dependents_map()
            },
            !old(self).nodes().contains_key(task.id@) ==> {
                &&& r is Ok
                &&& final(self).nodes() == old(self).nodes().insert(task.id@, added_node(task))
                &&& final(self).ready() == if ready_on_add(task) {
                    old(self).ready().insert(ready_entry(added_node(task).task))
                } else {
                    old(self).ready()
                }
                &&& final(self).dependents_map() == with_dependent(
                    old(self).dependents_map(),
                    task.dependencies@,
                    task.id@,
                )
            },
    {
        if let Some(_) = self.find_node(task.id.as_str()) {
            return Err(GraphError::TaskAlreadyExists(task.id.clone()));
        }
        let ghost dm0 = self.dependents_map();
        let id = task.id.clone();
        let n = task.dependencies.len();
        let mut j: usize = 0;
        while j < n
            invariant
                self.wf(),
                n == task.dependencies@.len(),
                j <= n,
                id@ == task.id@,
                self.nodes() == old(self).nodes(),
                self.ready() == old(self).ready(),
                self.dependents_map() == with_dependent(dm0, task.dependencies@.take(j as int), id@),
            decreases n - j,
        {
            let ghost before = self.dependents_map();
            self.add_dependent(&task.dependencies[j], &id);
            proof {
                let ks = task.dependencies@.take(j + 1);
                let ks0 = task.dependencies@.take(j as int);
                assert(id_set(ks) =~= id_set(ks0).insert(task.dependencies@[j as int]@)) by {
                    assert forall|k: Seq<char>| #[trigger] id_set(ks).contains(k) implies id_set(ks0).insert(task.dependencies@[j as int]@).contains(k) by {
                        let q = choose|q: int| 0 <= q < ks.len() && ks[q]@ == k;
                        if q < j {
                            assert(ks0[q]@ == k);
                        }
                    }
                    assert forall|k: Seq<char>| #[trigger] id_set(ks0).insert(task.dependencies@[j as int]@).contains(k) implies id_set(ks).contains(k) by {
                        if k == task.dependencies@[j as int]@ {
                            assert(ks[j as int]@ == k);
                        } else {
                            let q = choose|q: int| 0 <= q < ks0.len() && ks0[q]@ == k;
                            assert(ks[q]@ == k);
                        }
                    }
                }
                let target = with_dependent(dm0, ks, id@);
                let k0 = task.dependencies@[j as int]@;
                assert(self.dependents_map().dom() =~= target.dom());
                assert forall|k: Seq<char>| #[trigger] target.contains_key(k) implies self.dependents_map()[k] == target[k] by {
                    if k == k0 {
                        if id_set(ks0).contains(k) {
                            assert(before[k] == (if dm0.contains_key(k) { dm0[k] } else { Set::<Seq<char>>::empty() }).insert(id@));
                            assert(before[k].insert(id@) =~= before[k]);
                        }
                    }
                }
                assert(self.dependents_map() =~= target);
            }
            j = j + 1;
        }
        assert(task.dependencies@.take(n as int) =~= task.dependencies@);
        let ready = n == 0 && task.status == TaskStatus::Pending;
        let mut task = task;
        if ready {
            task.status = TaskStatus::Ready;
        }
        let entry = if ready {
            Some(ReadyTask {
                task_id: task.id.clone(),
                priority: task.priority,
                created_at_ms: task.created_at_ms,
                complexity: task.complexity,
            })
        } else {
            None
        };
        let node = TaskNode { task, remaining_deps: n };
        proof {
            lemma_node_map_push(self.tasks@, node);
        }
        self.tasks.push(node);
        if let Some(e) = entry {
            self.ready_queue.push(e);
        }
        Ok(())
    }

    fn clone_ids(v: &Vec<String>) -> (r: Vec<String>)
        ensures
            r@ == v@,
    {
        let mut r: Vec<String> = Vec::new();
        let mut i: usize = 0;
        while i < v.len()
            invariant
                i <= v@.len(),
                r@ == v@.take(i as int),
            decreases v@.len() - i,
        {
            r.push(v[i].clone());
            assert(v@.take(i + 1) =~= v@.take(i as int).push(v@[i as int]));
            i = i + 1;
        }
        assert(v@.take(v@.len() as int) =~= v@);
        r
    }

    /// The recorded dependents of `id`, as a list without repeats.
    fn dependents_list(&self, id: &str) -> (r: Vec<String>)
        requires
            self.wf(),
        ensures
            distinct_strings(r@),
            id_set(r@) == self.dependents_of(id@),
    {
        match self.find_entry(id) {
            Some(i) => {
                proof {
                    lemma_entry_map_at(self.dependents@, i as int);
                }
                Self::clone_ids(&self.dependents[i].ids)
            },
            None => {
                let r: Vec<String> = Vec::new();
                assert(id_set(r@) =~= Set::<Seq<char>>::empty());
                r
            },
        }
    }

    /// Marks task `id` completed; each task recorded as depending on it has one
    /// dependency fewer, and those of them that were pending with no dependency
    /// left become ready and enter the queue. Returns their ids; refused when
    /// there is no task `id`.
    pub fn complete_task(&mut self, id: &str) -> (r: Result<Vec<String>, GraphError>)
        requires
            old(self).wf(),
        ensures
            final(self).wf(),
            final(self).dependents_map() == old(self).dependents_map(),
            match r {
                Ok(newly) => {
                    let base = old(self).nodes().insert(
                        id@,
                        with_status(old(self).nodes()[id@], TaskStatus::Completed),
                    );
                    let done = old(self).dependents_of(id@);
                    &&& old(self).nodes().contains_key(id@)
                    &&& final(self).nodes() == advanced(base, done)
                    &&& distinct_strings(newly@)
                    &&& id_set(newly@) == unblocked(base, done)
                    &&& final(self).ready() == old(self).ready().add(
                        unblocked_entries(base, newly@),
                    )
                },
                Err(e) => !old(self).nodes().contains_key(id@) && e->TaskNotFound_0@ == id@
                    && e is TaskNotFound && final(self).nodes() == old(self).nodes()
                    && final(self).ready() == old(self).ready(),
            },
    {
        let i = match self.find_node(id) {
            Some(i) => i,
            None => {
                return Err(GraphError::TaskNotFound(id.to_owned()));
            },
        };
        proof {
            lemma_node_map_at(self.tasks@, i as int);
        }
        self.set_status_at(i, TaskStatus::Completed);
        let ghost base = self.nodes();
        let ghost ready0 = self.ready();
        let deps = self.dependents_list(id);
        let ghost done = id_set(deps@);
        let mut newly: Vec<String> = Vec::new();
        let mut q: usize = 0;
        assert(advanced(base, id_set(deps@.take(0))) =~= base);
        assert(unblocked(base, id_set(deps@.take(0))) =~= Set::<Seq<char>>::empty());
        assert(unblocked_entries(base, newly@) =~= Multiset::<ReadyTask>::empty());
        assert(ready0.add(Multiset::<ReadyTask>::empty()) =~= ready0);
        while q < deps.len()
            invariant
                self.wf(),
                q <= deps@.len(),
                distinct_strings(deps@),
                self.dependents_map() == old(self).dependents_map(),
                self.nodes() == advanced(base, id_set(deps@.take(q as int))),
                distinct_strings(newly@),
                id_set(newly@) == unblocked(base, id_set(deps@.take(q as int))),
                self.ready() == ready0.add(unblocked_entries(base, newly@)),
            decreases deps@.len() - q,
        {
            let ghost s0 = id_set(deps@.take(q as int));
            let ghost d = deps@[q as int]@;
            let ghost s1 = id_set(deps@.take(q + 1));
            proof {
                let t0 = deps@.take(q as int);
                let t1 = deps@.take(q + 1);
                assert(s1 =~= s0.insert(d)) by {
                    assert forall|k: Seq<char>| #[trigger] s1.contains(k) implies s0.insert(d).contains(k) by {
                        let w = choose|w: int| 0 <= w < t1.len() && t1[w]@ == k;
                        if w < q {
                            assert(t0[w]@ == k);
                        }
                    }
                    assert forall|k: Seq<char>| #[trigger] s0.insert(d).contains(k) implies s1.contains(k) by {
                        if k == d {
                            assert(t1[q as int]@ == k);
                        } else {
                            let w = choose|w: int| 0 <= w < t0.len() && t0[w]@ == k;
                            assert(t1[w]@ == k);
                        }
                    }
                }
                assert(!s0.contains(d)) by {
                    if s0.contains(d) {
                        let w = choose|w: int| 0 <= w < t0.len() && t0[w]@ == d;
                        assert(deps@[w]@ == deps@[q as int]@);
                    }
                }
                lemma_advanced_step(base, s0, d);
            }
            match self.find_node(deps[q].as_str()) {
                Some(j) => {
                    proof {
                        lemma_node_map_at(self.tasks@, j as int);
                    }
                    let ghost v = self.tasks@;
                    let ghost nd = v[j as int];
                    assert(nd == base[d]);
                    if self.tasks[j].remaining_deps > 0 {
                        self.tasks[j].remaining_deps = self.tasks[j].remaining_deps - 1;
                    }
                    let becomes_ready = self.tasks[j].remaining_deps == 0
                        && self.tasks[j].task.status == TaskStatus::Pending;
                    if becomes_ready {
                        self.tasks[j].task.status = TaskStatus::Ready;
                    }
                    proof {
                        assert(self.tasks@[j as int] == after_dependency_done(nd));
                        assert(self.tasks@ =~= v.update(j as int, after_dependency_done(nd)));
                        lemma_node_map_update(v, j as int, after_dependency_done(nd));
                        assert(unblocked(base, s1) =~= if unblocked_by_one(nd) { unblocked(base, s0).insert(d) } else { unblocked(base, s0) });
                    }
                    if becomes_ready {
                        let entry = ReadyTask {
                            task_id: self.tasks[j].task.id.clone(),
                            priority: self.tasks[j].task.priority,
                            created_at_ms: self.tasks[j].task.created_at_ms,
                            complexity: self.tasks[j].task.complexity,
                        };
                        let ghost old_newly = newly@;
                        self.ready_queue.push(entry);
                        newly.push(deps[q].clone());
                        proof {
                            assert(entry == ready_entry(after_dependency_done(base[d]).task));
                            assert(newly@.map_values(|s: String| ready_entry(after_dependency_done(base[s@]).task))
                                =~= old_newly.map_values(|s: String| ready_entry(after_dependency_done(base[s@]).task)).push(entry));
                            assert(self.ready() =~= ready0.add(unblocked_entries(base, newly@)));
                            assert forall|a: int, b: int|
                                0 <= a < newly@.len() && 0 <= b < newly@.len() && a != b implies (
                                #[trigger] newly@[a])@ != (#[trigger] newly@[b])@ by {
                                if a == old_newly.len() && b < old_newly.len() {
                                    assert(id_set(old_newly).contains(newly@[b]@));
                                }
                                if b == old_newly.len() && a < old_newly.len() {
                                    assert(id_set(old_newly).contains(newly@[a]@));
                                }
                            }
                            assert(id_set(newly@) =~= id_set(old_newly).insert(d)) by {
                                assert forall|k: Seq<char>| #[trigger] id_set(newly@).contains(k) implies id_set(old_newly).insert(d).contains(k) by {
                                    let w = choose|w: int| 0 <= w < newly@.len() && newly@[w]@ == k;
                                    if w < old_newly.len() {
                                        assert(old_newly[w]@ == k);
                                    }
                                }
                                assert forall|k: Seq<char>| #[trigger] id_set(old_newly).insert(d).contains(k) implies id_set(newly@).contains(k) by {
                                    if k == d {
                                        assert(newly@[old_newly.len() as int]@ == k);
                                    } else {
                                        let w = choose|w: int| 0 <= w < old_newly.len() && old_newly[w]@ == k;
                                        assert(newly@[w]@ == k);
                                    }
                                }
                            }
                        }
                    }
                },
                None => {
                    proof {
                        assert(unblocked(base, s1) =~= unblocked(base, s0));
                    }
                },
            }
            q = q + 1;
        }
        assert(deps@.take(deps@.len() as int) =~= deps@);
        Ok(newly)
    }

    /// Task `a` names `b` among its dependencies.
    pub open spec fn depends_on(self, a: Seq<char>, b: Seq<char>) -> bool {
        self.nodes().contains_key(a) && id_set(self.nodes()[a].task.dependencies@).contains(b)
    }

    pub open spec fn step(self, w: Seq<Seq<char>>, i: int) -> bool {
        self.depends_on(w[i], w[i + 1])
    }

    /// Each id in `w` names the next one among its dependencies.
    pub open spec fn is_walk(self, w: Seq<Seq<char>>) -> bool {
        forall|i: int| 0 <= i < w.len() - 1 ==> #[trigger] self.step(w, i)
    }

    /// `w` is a walk of at least one step that ends where it starts.
    pub open spec fn is_cycle(self, w: Seq<Seq<char>>) -> bool {
        w.len() >= 2 && self.is_walk(w) && w[0] == w.last()
    }

    /// Some chain of dependencies leads from a task back to itself.
    pub open spec fn has_cycle(self) -> bool {
        exists|w: Seq<Seq<char>>| #[trigger] self.is_cycle(w)
    }

    /// Every id that the graph names.
    pub closed spec fn universe(self) -> Set<Seq<char>> {
        ids_of_nodes(self.tasks@).to_set()
    }

    /// Dependencies of finished ids are finished earlier.
    pub open spec fn closed_order(self, fin: Seq<Seq<char>>) -> bool {
        forall|i: int, b: Seq<char>|
            0 <= i < fin.len() && #[trigger] self.depends_on(fin[i], b) ==> exists|j: int|
                0 <= j < i && fin[j] == b
    }

    fn contains_id(v: &Vec<String>, id: &str) -> (r: bool)
        ensures
            r == views(v@).contains(id@),
    {
        let mut i: usize = 0;
        while i < v.len()
            invariant
                i <= v@.len(),
                forall|j: int| 0 <= j < i ==> (#[trigger] v@[j])@ != id@,
            decreases v@.len() - i,
        {
            if same_text(v[i].as_str(), id) {
                assert(views(v@)[i as int] == id@);
                return true;
            }
            i = i + 1;
        }
        proof {
            if views(v@).contains(id@) {
                let j = choose|j: int| 0 <= j < views(v@).len() && views(v@)[j] == id@;
                assert(v@[j]@ == id@);
            }
        }
        false
    }

    /// Depth-first search from `u`, following dependencies. `stack` holds the
    /// path from the search's root, `visited` everything reached so far and
    /// `fin` (ghost) the finished ids in finishing order. Returns true when a
    /// dependency leads back onto the path; `cycle` then holds that id and the
    /// path back to the root.
    fn dfs_cycle(
        &self,
        u: &String,
        visited: &mut Vec<String>,
        stack: &mut Vec<String>,
        cycle: &mut Vec<String>,
        Ghost(fin): Ghost<Seq<Seq<char>>>,
    ) -> (r: (bool, Ghost<Seq<Seq<char>>>))
        requires
            self.wf(),
            old(cycle)@.len() == 0,
            views(old(stack)@).no_duplicates(),
            fin.no_duplicates(),
            forall|x: Seq<char>| #[trigger] views(old(visited)@).contains(x) <==> (views(old(stack)@).contains(x) || fin.contains(x)),
            forall|x: Seq<char>| !(#[trigger] views(old(stack)@).contains(x) && fin.contains(x)),
            self.is_walk(views(old(stack)@)),
            views(old(stack)@).len() > 0 ==> self.depends_on(views(old(stack)@).last(), u@),
            !views(old(visited)@).contains(u@),
            self.closed_order(fin),
            views(old(visited)@).to_set().subset_of(self.universe()),
            self.universe().contains(u@),
        ensures
            !r.0 ==> {
                let fin2 = r.1@;
                &&& final(cycle)@.len() == 0
                &&& final(stack)@ == old(stack)@
                &&& fin2.no_duplicates()
                &&& fin.is_prefix_of(fin2)
                &&& fin2.contains(u@)
                &&& forall|x: Seq<char>| #[trigger] views(final(visited)@).contains(x) <==> (views(final(stack)@).contains(x) || fin2.contains(x))
                &&& forall|x: Seq<char>| !(#[trigger] views(final(stack)@).contains(x) && fin2.contains(x))
                &&& self.closed_order(fin2)
                &&& views(final(visited)@).to_set().subset_of(self.universe())
            },
            r.0 ==> exists|w: Seq<Seq<char>>| {
                &&& w.len() > 0
                &&& w[0] == u@
                &&& #[trigger] self.is_walk(views(old(stack)@) + w + seq![views(final(cycle)@)[0]])
                &&& (views(old(stack)@) + w).contains(views(final(cycle)@)[0])
                &&& views(final(cycle)@) == seq![views(final(cycle)@)[0]] + w.reverse()
            },
        decreases self.universe().difference(views(old(visited)@).to_set()).len(),
    {
        broadcast use vstd::seq_lib::seq_to_set_is_finite;
        broadcast use vstd::seq_lib::group_seq_properties;
        let ghost s0 = views(stack@);
        let ghost v0 = views(visited@);
        proof {
            self.universe().lemma_set_insert_diff_decreases(v0.to_set(), u@);
            assert(v0.push(u@).to_set() =~= v0.to_set().insert(u@)) by {
                assert forall|x: Seq<char>| #[trigger] v0.push(u@).contains(x) == v0.to_set().insert(u@).contains(x) by {
                    if v0.push(u@).contains(x) {
                        let i = choose|i: int| 0 <= i < v0.push(u@).len() && v0.push(u@)[i] == x;
                        if i < v0.len() {
                            assert(v0.contains(x));
                        }
                    }
                    if v0.contains(x) {
                        let i = choose|i: int| 0 <= i < v0.len() && v0[i] == x;
                        assert(v0.push(u@)[i] == x);
                    }
                    if x == u@ {
                        assert(v0.push(u@)[v0.len() as int] == x);
                    }
                }
            }
        }
        visited.push(u.clone());
        stack.push(u.clone());
        let ghost sp = stack@;
        assert(sp == old(stack)@.push(*u));
        assert(views(stack@) =~= s0.push(u@));
        assert(views(visited@) =~= v0.push(u@));
        let ghost mut fin_cur = fin;
        match self.find_node(u.as_str()) {
            Some(j) => {
                proof {
                    lemma_node_map_at(self.tasks@, j as int);
                }
                let deps = &self.tasks[j].task.dependencies;
                let mut k: usize = 0;
                while k < deps.len()
                    invariant
                        self.wf(),
                        j < self.tasks@.len(),
                        node_key(self.tasks@[j as int]) == u@,
                        deps == &self.tasks@[j as int].task.dependencies,
                        k <= deps@.len(),
                        stack@ == sp,
                        sp == old(stack)@.push(*u),
                        views(sp) == s0.push(u@),
                        forall|x: Seq<char>| #[trigger] v0.contains(x) <==> (s0.contains(x) || fin.contains(x)),
                        v0.to_set().subset_of(self.universe()),
                        self.universe().difference(v0.to_set().insert(u@)).len() < self.universe().difference(v0.to_set()).len(),
                        v0 == views(old(visited)@),
                        s0 == views(old(stack)@),
                        cycle@.len() == 0,
                        views(stack@) == s0.push(u@),
                        s0.no_duplicates(),
                        !s0.contains(u@),
                        fin_cur.no_duplicates(),
                        fin.is_prefix_of(fin_cur),
                        !fin_cur.contains(u@),
                        forall|x: Seq<char>| #[trigger] views(visited@).contains(x) <==> (views(stack@).contains(x) || fin_cur.contains(x)),
                        forall|x: Seq<char>| !(#[trigger] views(stack@).contains(x) && fin_cur.contains(x)),
                        self.is_walk(s0),
                        s0.len() > 0 ==> self.depends_on(s0.last(), u@),
                        self.closed_order(fin_cur),
                        views(visited@).to_set().subset_of(self.universe()),
                        forall|q: int| 0 <= q < k ==> fin_cur.contains((#[trigger] deps@[q])@),
                    decreases deps@.len() - k,
                {
                    let d = &deps[k];
                    proof {
                        lemma_ids_of_nodes(self.tasks@, j as int);
                        assert(ids_of_nodes(self.tasks@).contains(d@));
                        assert(self.universe().contains(d@));
                        assert(self.depends_on(u@, d@)) by {
                            assert(self.nodes()[u@] == self.tasks@[j as int]);
                            assert(deps@[k as int] == *d);
                        }
                    }
                    if !Self::contains_id(visited, d.as_str()) {
                        assert(self.is_walk(views(stack@))) by {
                            assert forall|i: int| 0 <= i < views(stack@).len() - 1 implies #[trigger] self.step(views(stack@), i) by {
                                if i < s0.len() - 1 {
                                    assert(self.step(s0, i));
                                }
                            }
                        }
                        assert(views(stack@).no_duplicates()) by {
                            assert forall|a: int, b: int| 0 <= a < views(stack@).len() && 0 <= b < views(stack@).len() && a != b implies views(stack@)[a] != views(stack@)[b] by {
                                if a == s0.len() {
                                    assert(s0.contains(views(stack@)[b]));
                                } else if b == s0.len() {
                                    assert(s0.contains(views(stack@)[a]));
                                }
                            }
                        }
                        proof {
                            let uni = self.universe();
                            let a = uni.difference(views(visited@).to_set());
                            let b = uni.difference(v0.to_set().insert(u@));
                            assert(a.subset_of(b)) by {
                                assert forall|x: Seq<char>| #[trigger] a.contains(x) implies b.contains(x) by {
                                    if v0.to_set().insert(u@).contains(x) {
                                        if x == u@ {
                                            assert(views(stack@)[s0.len() as int] == x);
                                            assert(views(stack@).contains(x));
                                        } else {
                                            assert(v0.contains(x));
                                            if s0.contains(x) {
                                                let i = choose|i: int| 0 <= i < s0.len() && s0[i] == x;
                                                assert(views(stack@)[i] == x);
                                                assert(views(stack@).contains(x));
                                            } else {
                                                assert(fin.contains(x));
                                                let i = choose|i: int| 0 <= i < fin.len() && fin[i] == x;
                                                assert(fin_cur[i] == x);
                                                assert(fin_cur.contains(x));
                                            }
                                        }
                                        assert(views(visited@).contains(x));
                                    }
                                }
                            }
                            vstd::set_lib::lemma_len_subset(b, uni);
                            vstd::set_lib::lemma_len_subset(a, b);
                        }
                        let (found, Ghost(fin2)) = self.dfs_cycle(d, visited, stack, cycle, Ghost(fin_cur));
                        if found {
                            let ghost c0 = views(cycle@);
                            let ghost wit = choose|w: Seq<Seq<char>>| {
                                &&& w.len() > 0
                                &&& w[0] == d@
                                &&& #[trigger] self.is_walk(s0.push(u@) + w + seq![c0[0]])
                                &&& (s0.push(u@) + w).contains(c0[0])
                                &&& c0 == seq![c0[0]] + w.reverse()
                            };
                            cycle.push(u.clone());
                            proof {
                                let w2 = seq![u@] + wit;
                                assert(s0.push(u@) + wit =~= s0 + w2);
                                assert(views(cycle@) =~= c0.push(u@));
                                assert(w2.reverse() =~= wit.reverse().push(u@));
                                assert(views(cycle@)[0] == c0[0]);
                                assert(views(cycle@) =~= seq![views(cycle@)[0]] + w2.reverse());
                                assert(s0.push(u@) + wit + seq![c0[0]] =~= s0 + w2 + seq![c0[0]]);
                                assert(w2[0] == u@);
                                assert(self.is_walk(s0 + w2 + seq![views(cycle@)[0]]));
                                assert((s0 + w2).contains(views(cycle@)[0]));
                                assert(exists|w: Seq<Seq<char>>| {
                                    &&& w.len() > 0
                                    &&& w[0] == u@
                                    &&& #[trigger] self.is_walk(s0 + w + seq![views(cycle@)[0]])
                                    &&& (s0 + w).contains(views(cycle@)[0])
                                    &&& views(cycle@) == seq![views(cycle@)[0]] + w.reverse()
                                });
                            }
                            return (true, Ghost(fin2));
                        }
                        proof {
                            fin_cur = fin2;
                            assert(views(stack@) == s0.push(u@));
                            assert(fin.is_prefix_of(fin_cur)) by {
                                assert forall|i: int| 0 <= i < fin.len() implies fin[i] == fin_cur[i] by {
                                }
                            }
                            assert(!fin_cur.contains(u@)) by {
                                assert(views(stack@).contains(u@)) by {
                                    assert(views(stack@)[s0.len() as int] == u@);
                                }
                            }
                            assert forall|q: int| 0 <= q < k + 1 implies fin_cur.contains((#[trigger] deps@[q])@) by {
                                if q < k {
                                    let i0 = choose|i0: int| 0 <= i0 < fin2.len() && fin2[i0] == (deps@[q])@;
                                }
                            }
                        }
                    } else if Self::contains_id(stack, d.as_str()) {
                        cycle.push(d.clone());
                        cycle.push(u.clone());
                        proof {
                            let w = seq![u@];
                            let c = views(cycle@);
                            assert(c =~= seq![d@, u@]);
                            assert(c =~= seq![c[0]] + w.reverse());
                            assert(s0.push(u@) =~= s0 + w);
                            let full = s0 + w + seq![d@];
                            assert forall|i: int| 0 <= i < full.len() - 1 implies #[trigger] self.step(full, i) by {
                                if i < s0.len() - 1 {
                                    assert(self.step(s0, i));
                                    assert(full[i] == s0[i] && full[i + 1] == s0[i + 1]);
                                } else if i == s0.len() - 1 {
                                    assert(full[i] == s0.last() && full[i + 1] == u@);
                                } else {
                                    assert(full[i] == u@ && full[i + 1] == d@);
                                }
                            }
                            assert(self.is_walk(s0 + w + seq![c[0]]));
                            assert((s0 + w).contains(c[0]));
                        }
                        return (true, Ghost(fin_cur));
                    } else {
                        proof {
                            assert(fin_cur.contains(d@));
                        }
                    }
                    k = k + 1;
                }
                proof {
                    assert forall|x: Seq<char>| !(#[trigger] s0.push(u@).contains(x) && fin_cur.contains(x)) by {
                        assert(views(stack@) == s0.push(u@));
                    }
                    let fin3 = fin_cur.push(u@);
                    assert forall|i: int, b: Seq<char>| 0 <= i < fin3.len() && #[trigger] self.depends_on(fin3[i], b)
                        implies exists|jj: int| 0 <= jj < i && fin3[jj] == b by {
                        if i < fin_cur.len() {
                            assert(self.depends_on(fin_cur[i], b));
                            let jj = choose|jj: int| 0 <= jj < i && fin_cur[jj] == b;
                            assert(fin3[jj] == b);
                        } else {
                            assert(fin3[i] == u@);
                            assert(self.nodes()[u@] == self.tasks@[j as int]);
                            let q = choose|q: int| 0 <= q < deps@.len() && deps@[q]@ == b;
                            assert(fin_cur.contains((deps@[q])@));
                            let jj = choose|jj: int| 0 <= jj < fin_cur.len() && fin_cur[jj] == b;
                            assert(fin3[jj] == b);
                        }
                    }
                }
            },
            None => {
                proof {
                    assert forall|x: Seq<char>| !(#[trigger] s0.push(u@).contains(x) && fin_cur.contains(x)) by {
                        if s0.push(u@).contains(x) && fin_cur.contains(x) {
                            let i = choose|i: int| 0 <= i < s0.push(u@).len() && s0.push(u@)[i] == x;
                            if i < s0.len() {
                                assert(s0.contains(x));
                            } else {
                                assert(v0.contains(u@));
                            }
                        }
                    }
                    assert forall|i: int, b: Seq<char>| 0 <= i < fin_cur.push(u@).len() && #[trigger] self.depends_on(fin_cur.push(u@)[i], b)
                        implies exists|jj: int| 0 <= jj < i && fin_cur.push(u@)[jj] == b by {
                        if i < fin_cur.len() {
                            assert(self.depends_on(fin_cur[i], b));
                            let jj = choose|jj: int| 0 <= jj < i && fin_cur[jj] == b;
                            assert(fin_cur.push(u@)[jj] == b);
                        }
                    }
                }
            },
        }
        let ghost st = stack@;
        assert(st == sp);
        assert(views(st) == s0.push(u@));
        stack.pop();
        proof {
            assert(stack@ == st.drop_last());
            assert(stack@ =~= old(stack)@);
            assert(views(stack@) =~= views(st).drop_last());
            assert(views(stack@) =~= s0);
            let fin3 = fin_cur.push(u@);
            assert(fin3.no_duplicates()) by {
                assert forall|a: int, b: int| 0 <= a < fin3.len() && 0 <= b < fin3.len() && a != b implies fin3[a] != fin3[b] by {
                    if a == fin_cur.len() {
                        assert(!fin_cur.contains(fin3[b]) || fin3[b] != u@);
                    } else if b == fin_cur.len() {
                        assert(!fin_cur.contains(fin3[a]) || fin3[a] != u@);
                    }
                }
            }
            assert(fin3[fin_cur.len() as int] == u@);
            assert forall|x: Seq<char>| #[trigger] views(visited@).contains(x) <==> (views(stack@).contains(x) || fin3.contains(x)) by {
                if fin3.contains(x) {
                    let i = choose|i: int| 0 <= i < fin3.len() && fin3[i] == x;
                    if i < fin_cur.len() {
                        assert(fin_cur.contains(x));
                    }
                }
                if fin_cur.contains(x) {
                    let i = choose|i: int| 0 <= i < fin_cur.len() && fin_cur[i] == x;
                    assert(fin3[i] == x);
                }
                if s0.push(u@).contains(x) {
                    let i = choose|i: int| 0 <= i < s0.push(u@).len() && s0.push(u@)[i] == x;
                    if i < s0.len() {
                        assert(s0[i] == x);
                    }
                }
                if s0.contains(x) {
                    let i = choose|i: int| 0 <= i < s0.len() && s0[i] == x;
                    assert(s0.push(u@)[i] == x);
                }
            }
            assert forall|x: Seq<char>| !(#[trigger] views(stack@).contains(x) && fin3.contains(x)) by {
                assert(!(s0.push(u@).contains(x) && fin_cur.contains(x)));
                if s0.contains(x) {
                    let i = choose|i: int| 0 <= i < s0.len() && s0[i] == x;
                    assert(s0.push(u@)[i] == x);
                    if fin3.contains(x) {
                        let i2 = choose|i2: int| 0 <= i2 < fin3.len() && fin3[i2] == x;
                        if i2 < fin_cur.len() {
                            assert(fin_cur.contains(x));
                        }
                    }
                }
            }
            assert(fin.is_prefix_of(fin3)) by {
                assert forall|i: int| 0 <= i < fin.len() implies fin[i] == fin3[i] by {
                    assert(fin[i] == fin_cur[i]);
                }
            }
            fin_cur = fin3;
        }
        (false, Ghost(fin_cur))
    }

    proof fn lemma_walk_descends(self, fin: Seq<Seq<char>>, w: Seq<Seq<char>>, i0: int)
        requires
            self.closed_order(fin),
            self.is_walk(w),
            w.len() >= 2,
            0 <= i0 < fin.len(),
            fin[i0] == w[0],
        ensures
            exists|j: int| 0 <= j < i0 && fin[j] == w.last(),
        decreases w.len(),
    {
        if w.len() == 2 {
            assert(self.step(w, 0));
            assert(self.depends_on(fin[i0], w[1]));
        } else {
            let w2 = w.drop_last();
            assert forall|i: int| 0 <= i < w2.len() - 1 implies #[trigger] self.step(w2, i) by {
                assert(self.step(w, i));
            }
            self.lemma_walk_descends(fin, w2, i0);
            let j2 = choose|j: int| 0 <= j < i0 && fin[j] == w2.last();
            assert(self.step(w, w.len() - 2));
            assert(self.depends_on(fin[j2], w.last()));
        }
    }

    proof fn lemma_subwalk(self, w: Seq<Seq<char>>, a: int)
        requires
            self.is_walk(w),
            0 <= a <= w.len(),
        ensures
            self.is_walk(w.subrange(a, w.len() as int)),
    {
        let t = w.subrange(a, w.len() as int);
        assert forall|i: int| 0 <= i < t.len() - 1 implies #[trigger] self.step(t, i) by {
            assert(self.step(w, a + i));
        }
    }

    /// A chain of dependencies that leads back to where it started, when there
    /// is one: the result read backwards is a walk through the dependencies
    /// whose last id occurs earlier in it. `None` exactly when no task depends,
    /// directly or not, on itself.
    pub fn has_circular_dependency(&self) -> (r: Option<Vec<String>>)
        requires
            self.wf(),
        ensures
            r is None <==> !self.has_cycle(),
            r matches Some(c) ==> c@.len() >= 2 && self.is_walk(views(c@).reverse()) && views(
                c@,
            ).drop_first().contains(views(c@)[0]),
    {
        broadcast use vstd::seq_lib::group_seq_properties;
        let mut visited: Vec<String> = Vec::new();
        let mut stack: Vec<String> = Vec::new();
        let mut cycle: Vec<String> = Vec::new();
        let ghost mut fin: Seq<Seq<char>> = seq![];
        let mut i: usize = 0;
        assert(views(visited@).to_set() =~= Set::<Seq<char>>::empty());
        while i < self.tasks.len()
            invariant
                self.wf(),
                i <= self.tasks@.len(),
                cycle@.len() == 0,
                stack@.len() == 0,
                fin.no_duplicates(),
                forall|x: Seq<char>| #[trigger] views(visited@).contains(x) <==> fin.contains(x),
                self.closed_order(fin),
                views(visited@).to_set().subset_of(self.universe()),
                forall|q: int| 0 <= q < i ==> fin.contains(node_key(#[trigger] self.tasks@[q])),
            decreases self.tasks@.len() - i,
        {
            if !Self::contains_id(&visited, self.tasks[i].task.id.as_str()) {
                proof {
                    lemma_ids_of_nodes(self.tasks@, i as int);
                    assert(views(stack@) =~= Seq::<Seq<char>>::empty());
                    assert(self.is_walk(views(stack@)));
                }
                let ghost st0 = stack@;
                let (found, Ghost(fin2)) = self.dfs_cycle(&self.tasks[i].task.id, &mut visited, &mut stack, &mut cycle, Ghost(fin));
                if found {
                    proof {
                        let c = views(cycle@);
                        let w = choose|w: Seq<Seq<char>>| {
                            &&& w.len() > 0
                            &&& w[0] == node_key(self.tasks@[i as int])
                            &&& #[trigger] self.is_walk(views(st0) + w + seq![c[0]])
                            &&& (views(st0) + w).contains(c[0])
                            &&& c == seq![c[0]] + w.reverse()
                        };
                        assert(views(st0) =~= Seq::<Seq<char>>::empty());
                        assert(views(st0) + w =~= w);
                        let full = w + seq![c[0]];
                        assert(c.reverse() =~= full);
                        assert(c.drop_first() =~= w.reverse());
                        let k = choose|k: int| 0 <= k < w.len() && w[k] == c[0];
                        assert(w.reverse()[w.len() - 1 - k] == c[0]);
                        let cyc = full.subrange(k, full.len() as int);
                        self.lemma_subwalk(full, k);
                        assert(cyc[0] == c[0] && cyc.last() == c[0]);
                        assert(self.is_cycle(cyc));
                    }
                    return Some(cycle);
                }
                proof {
                    assert(views(stack@) =~= Seq::<Seq<char>>::empty());
                    fin = fin2;
                    assert forall|q: int| 0 <= q < i + 1 implies fin.contains(node_key(#[trigger] self.tasks@[q])) by {
                        if q < i {
                            let w = choose|w: int| 0 <= w < fin2.len() && fin2[w] == node_key(self.tasks@[q]);
                        }
                    }
                }
            } else {
                proof {
                    assert(views(visited@).contains(node_key(self.tasks@[i as int])));
                }
            }
            i = i + 1;
        }
        proof {
            assert forall|w: Seq<Seq<char>>| !#[trigger] self.is_cycle(w) by {
                if self.is_cycle(w) {
                    assert(self.step(w, 0));
                    assert(self.nodes().contains_key(w[0]));
                    let q = choose|q: int| 0 <= q < self.tasks@.len() && node_key(self.tasks@[q]) == w[0];
                    assert(fin.contains(node_key(self.tasks@[q])));
                    let i0 = choose|i0: int| 0 <= i0 < fin.len() && fin[i0] == w[0];
                    self.lemma_walk_descends(fin, w, i0);
                }
            }
        }
        None
    }

    /// The number of entries in the ready queue.
    pub fn ready_queue_len(&self) -> (r: usize)
        ensures
            r == self.ready().len(),
    {
        self.ready_queue.len()
    }

    /// All nodes; `node_map` of the result is the graph's nodes.
    pub fn all_tasks(&self) -> (r: &Vec<TaskNode>)
        ensures
            node_map(r@) == self.nodes(),
            self.wf() ==> distinct_nodes(r@),
    {
        &self.tasks
    }
}

} // verus!
