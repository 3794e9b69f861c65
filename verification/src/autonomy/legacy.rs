use vstd::prelude::*;
use crate::employee_todo::{TodoSource, TodoStatus};
use crate::requirement::{RequirementMeta, RequirementPhase, RequirementSummary};
use crate::text::{
    chars_of, find, find_spec, has_prefix, lines_of, lowercase, occurs_at, same_text, split_lines,
    string_from_chars, to_lowercase, trim, trimmed, views,
};

verus! {

/// How often the autonomy loop wakes on its own, in seconds.
pub const AUTONOMY_INTERVAL_SECS: u64 = 900;

/// How long a scheduled exploration waits after the last one, in milliseconds.
pub const AUTONOMY_DEBOUNCE_MS: u64 = 60000;

/// How long an exploration that a finished task or a user asks for waits
/// after the last one, in milliseconds.
pub const PROMPT_DEBOUNCE_MS: u64 = 5000;

/// What an exploration looks at.
#[derive(Debug, Clone, Copy, PartialEq, Eq, Structural)]
pub enum ExplorationMode {
    RequirementPlanning,
    GitExploration,
}

/// What woke an employee's autonomy.
#[derive(Debug, Clone, Copy, PartialEq, Eq, Structural)]
pub enum AutonomyTriggerKind {
    TaskCompleted,
    Scheduled,
    Manual,
}

/// The autonomy loop's state as the API shows it.
#[derive(Debug)]
pub struct AutonomyStatusWire {
    pub enabled: bool,
    pub interval_secs: u64,
    pub pending_employees: Vec<String>,
    pub last_tick_ms: Option<u64>,
}

/// A todo that an exploration proposes.
#[derive(Debug)]
pub struct ParsedAutonomyTodo {
    pub title: String,
    pub description: String,
    pub requirement_id: Option<String>,
    pub requirement_phase: Option<String>,
}

/// A requirement that an exploration proposes.
#[derive(Debug)]
pub struct ParsedNewRequirement {
    pub id: Option<String>,
    pub title: String,
    pub phase: Option<String>,
    pub content: Option<String>,
}

/// What an exploration proposes.
#[derive(Debug)]
pub struct ParsedAutonomyPlan {
    pub mode: Option<String>,
    pub todos: Vec<ParsedAutonomyTodo>,
    pub new_requirements: Vec<ParsedNewRequirement>,
}

/// An agent task as far as autonomy looks at it: its id, who runs it, and
/// whether it is still pending or running.
#[derive(Debug)]
pub struct AgentTaskSummary {
    pub id: String,
    pub executor_id: Option<String>,
    pub pending_or_running: bool,
}

/// The status of the autonomy loop.
pub fn autonomy_status(pending_employees: Vec<String>, last_tick_ms: Option<u64>) -> (r: AutonomyStatusWire)
    ensures
        r.enabled,
        r.interval_secs == AUTONOMY_INTERVAL_SECS,
        r.pending_employees == pending_employees,
        r.last_tick_ms == last_tick_ms,
{
    AutonomyStatusWire { enabled: true, interval_secs: AUTONOMY_INTERVAL_SECS, pending_employees, last_tick_ms }
}

/// Whether some requirement of `s` is still in progress (not released).
pub open spec fn any_in_progress(s: Seq<RequirementSummary>) -> bool {
    exists|i: int| 0 <= i < s.len() && (#[trigger] s[i]).phase != RequirementPhase::Release
}

/// Whether an employee has a requirement to take part in: one not yet released.
pub fn has_participatable_requirements(summaries: &Vec<RequirementSummary>) -> (r: bool)
    ensures
        r == any_in_progress(summaries@),
{
    let mut i: usize = 0;
    while i < summaries.len()
        invariant
            i <= summaries@.len(),
            forall|j: int| 0 <= j < i ==> (#[trigger] summaries@[j]).phase == RequirementPhase::Release,
        decreases summaries@.len() - i,
    {
        if crate::requirement::phase_in_progress(&summaries[i].phase) {
            return true;
        }
        i = i + 1;
    }
    false
}

/// What an exploration looks at: requirements while one is in progress, else
/// the git repositories.
pub fn select_exploration_mode(summaries: &Vec<RequirementSummary>) -> (r: ExplorationMode)
    ensures
        any_in_progress(summaries@) ==> r == ExplorationMode::RequirementPlanning,
        !any_in_progress(summaries@) ==> r == ExplorationMode::GitExploration,
{
    if has_participatable_requirements(summaries) {
        ExplorationMode::RequirementPlanning
    } else {
        ExplorationMode::GitExploration
    }
}

/// Whether some requirement of `summaries` is in development.
pub fn has_development_phase_requirements(summaries: &Vec<RequirementSummary>) -> (r: bool)
    ensures
        r == exists|i: int| 0 <= i < summaries@.len() && (#[trigger] summaries@[i]).phase == RequirementPhase::Development,
{
    let mut i: usize = 0;
    while i < summaries.len()
        invariant
            i <= summaries@.len(),
            forall|j: int| 0 <= j < i ==> (#[trigger] summaries@[j]).phase != RequirementPhase::Development,
        decreases summaries@.len() - i,
    {
        if summaries[i].phase == RequirementPhase::Development {
            return true;
        }
        i = i + 1;
    }
    false
}

/// Whether `task` keeps `employee_id` busy, the task `exclude` aside.
pub open spec fn keeps_busy(task: AgentTaskSummary, employee_id: Seq<char>, exclude: Option<Seq<char>>) -> bool {
    &&& !(exclude matches Some(x) && x == task.id@)
    &&& task.executor_id matches Some(e) && e@ == employee_id
    &&& task.pending_or_running
}

/// Whether an employee runs a pending or running task other than `exclude_task_id`.
pub fn is_employee_busy_excluding(
    tasks: &Vec<AgentTaskSummary>,
    employee_id: &str,
    exclude_task_id: Option<&str>,
) -> (r: bool)
    ensures
        r == exists|i: int|
            0 <= i < tasks@.len() && keeps_busy(
                #[trigger] tasks@[i],
                employee_id@,
                match exclude_task_id {
                    Some(x) => Some(x@),
                    None => None,
                },
            ),
{
    let ghost ex = match exclude_task_id {
        Some(x) => Some(x@),
        None => None::<Seq<char>>,
    };
    let mut i: usize = 0;
    while i < tasks.len()
        invariant
            i <= tasks@.len(),
            ex == match exclude_task_id {
                Some(x) => Some(x@),
                None => None,
            },
            forall|j: int| 0 <= j < i ==> !keeps_busy(#[trigger] tasks@[j], employee_id@, ex),
        decreases tasks@.len() - i,
    {
        let t = &tasks[i];
        let excluded = match exclude_task_id {
            Some(x) => same_text(x, t.id.as_str()),
            None => false,
        };
        let runs = match &t.executor_id {
            Some(e) => same_text(e.as_str(), employee_id),
            None => false,
        };
        if !excluded && runs && t.pending_or_running {
            return true;
        }
        i = i + 1;
    }
    false
}

/// Whether an employee runs a pending or running task.
pub fn is_employee_busy(tasks: &Vec<AgentTaskSummary>, employee_id: &str) -> (r: bool)
    ensures
        r == exists|i: int| 0 <= i < tasks@.len() && keeps_busy(#[trigger] tasks@[i], employee_id@, None),
{
    is_employee_busy_excluding(tasks, employee_id, None)
}

/// Whether at least `gap` milliseconds passed from `last` to `now` (no time
/// passes when `now` is earlier).
pub open spec fn waited(last: Option<u64>, now: u64, gap: u64) -> bool {
    match last {
        None => true,
        Some(l) => (if now >= l { now - l } else { 0 }) >= gap,
    }
}

/// Whether an employee starts an exploration: never while busy; always when
/// forced; for a finished task or a user's request, once 5 s passed since the
/// last one; on schedule, only with no open todo (or development to plan) and
/// once the debounce interval passed.
pub open spec fn should_explore_spec(
    incomplete_todos: usize,
    employee_busy: bool,
    last_autonomy_run_ms: Option<u64>,
    now_ms: u64,
    trigger: AutonomyTriggerKind,
    force: bool,
    development_planning_needed: bool,
) -> bool {
    if employee_busy {
        false
    } else if force {
        true
    } else {
        match trigger {
            AutonomyTriggerKind::Scheduled => (incomplete_todos == 0 || development_planning_needed) && waited(
                last_autonomy_run_ms,
                now_ms,
                AUTONOMY_DEBOUNCE_MS,
            ),
            _ => waited(last_autonomy_run_ms, now_ms, PROMPT_DEBOUNCE_MS),
        }
    }
}

/// A scheduled, unforced round never explores again within a minute of the
/// last exploration (a clock that went back counts as no time passed), nor
/// while the employee still has open todos and no development to plan; an
/// idle employee with nothing open explores once the minute is over. A
/// finished task or a user's request explores again only after five seconds.
pub proof fn lemma_scheduled_round_waits(
    incomplete_todos: usize,
    employee_busy: bool,
    last: u64,
    now_ms: u64,
    development_planning_needed: bool,
)
    ensures
        now_ms < last + 60000 ==> !should_explore_spec(
            incomplete_todos,
            employee_busy,
            Some(last),
            now_ms,
            AutonomyTriggerKind::Scheduled,
            false,
            development_planning_needed,
        ),
        incomplete_todos > 0 && !development_planning_needed ==> !should_explore_spec(
            incomplete_todos,
            employee_busy,
            Some(last),
            now_ms,
            AutonomyTriggerKind::Scheduled,
            false,
            development_planning_needed,
        ),
        !employee_busy && (incomplete_todos == 0 || development_planning_needed) && now_ms >= last + 60000
            ==> should_explore_spec(
            incomplete_todos,
            employee_busy,
            Some(last),
            now_ms,
            AutonomyTriggerKind::Scheduled,
            false,
            development_planning_needed,
        ),
        now_ms < last + 5000 ==> !should_explore_spec(
            incomplete_todos,
            employee_busy,
            Some(last),
            now_ms,
            AutonomyTriggerKind::TaskCompleted,
            false,
            development_planning_needed,
        ) && !should_explore_spec(
            incomplete_todos,
            employee_busy,
            Some(last),
            now_ms,
            AutonomyTriggerKind::Manual,
            false,
            development_planning_needed,
        ),
{
}

/// Whether an employee starts an exploration now.
pub fn should_start_autonomy_exploration(
    incomplete_todos: usize,
    employee_busy: bool,
    last_autonomy_run_ms: Option<u64>,
    now_ms: u64,
    trigger: AutonomyTriggerKind,
    force: bool,
    development_planning_needed: bool,
) -> (r: bool)
    ensures
        r == should_explore_spec(
            incomplete_todos,
            employee_busy,
            last_autonomy_run_ms,
            now_ms,
            trigger,
            force,
            development_planning_needed,
        ),
        !force && trigger == AutonomyTriggerKind::Scheduled && (last_autonomy_run_ms matches Some(l)
            && now_ms < l + 60000) ==> !r,
        !force && trigger == AutonomyTriggerKind::Scheduled && incomplete_todos > 0 && !development_planning_needed ==> !r,
        employee_busy ==> !r,
{
    if employee_busy {
        return false;
    }
    if force {
        return true;
    }
    match trigger {
        AutonomyTriggerKind::TaskCompleted | AutonomyTriggerKind::Manual => {
            match last_autonomy_run_ms {
                Some(last) => now_ms.saturating_sub(last) >= PROMPT_DEBOUNCE_MS,
                None => true,
            }
        },
        AutonomyTriggerKind::Scheduled => {
            if incomplete_todos > 0 && !development_planning_needed {
                return false;
            }
            match last_autonomy_run_ms {
                Some(last) => now_ms.saturating_sub(last) >= AUTONOMY_DEBOUNCE_MS,
                None => true,
            }
        },
    }
}

/// Whether an employee's autonomy explores now, unforced.
pub fn should_run_autonomy(
    incomplete_todos: usize,
    employee_busy: bool,
    last_autonomy_run_ms: Option<u64>,
    now_ms: u64,
    trigger: AutonomyTriggerKind,
    development_planning_needed: bool,
) -> (r: bool)
    ensures
        r == should_explore_spec(
            incomplete_todos,
            employee_busy,
            last_autonomy_run_ms,
            now_ms,
            trigger,
            false,
            development_planning_needed,
        ),
        trigger == AutonomyTriggerKind::Scheduled && (last_autonomy_run_ms matches Some(l) && now_ms < l + 60000) ==> !r,
        trigger == AutonomyTriggerKind::Scheduled && incomplete_todos > 0 && !development_planning_needed ==> !r,
        employee_busy ==> !r,
{
    should_start_autonomy_exploration(
        incomplete_todos,
        employee_busy,
        last_autonomy_run_ms,
        now_ms,
        trigger,
        false,
        development_planning_needed,
    )
}

/// An idle employee with open todos works on the next one.
pub fn should_execute_next_todo(incomplete_todos: usize, employee_busy: bool) -> (r: bool)
    ensures
        r == (!employee_busy && incomplete_todos > 0),
{
    !employee_busy && incomplete_todos > 0
}

/// A busy employee never starts an exploration, forced or not.
pub proof fn lemma_busy_never_explores(
    incomplete_todos: usize,
    last_autonomy_run_ms: Option<u64>,
    now_ms: u64,
    trigger: AutonomyTriggerKind,
    force: bool,
    development_planning_needed: bool,
)
    ensures
        !should_explore_spec(incomplete_todos, true, last_autonomy_run_ms, now_ms, trigger, force, development_planning_needed),
{
}

/// An idle employee explores whenever forced.
pub proof fn lemma_force_explores_when_idle(
    incomplete_todos: usize,
    last_autonomy_run_ms: Option<u64>,
    now_ms: u64,
    trigger: AutonomyTriggerKind,
    development_planning_needed: bool,
)
    ensures
        should_explore_spec(incomplete_todos, false, last_autonomy_run_ms, now_ms, trigger, true, development_planning_needed),
{
}

/// Where an employee's autonomy round stands.
#[derive(Debug, Clone, Copy, PartialEq, Eq, Structural)]
pub enum AutonomyStage {
    /// Nothing was done yet this round.
    Start,
    /// An exploration ran first and the todo list was read again.
    AfterExploration,
}

/// What an employee's autonomy round does next.
#[derive(Debug, Clone, Copy, PartialEq, Eq, Structural)]
pub enum AutonomyAction {
    /// The round ends.
    Stop,
    /// Explore, read the todos again, and continue at `AfterExploration`.
    ExploreThenContinue,
    /// Work on the next todo; the round ends.
    ExecuteNextTodo,
    /// Explore; the round ends.
    Explore,
}

/// The decision of an employee's autonomy round from what is known at a stage:
/// a busy employee does nothing; a finished task or a user's request first
/// explores when it may; then open todos are worked on; with none left, a
/// scheduled round explores when it may.
pub open spec fn autonomy_step_spec(
    stage: AutonomyStage,
    busy: bool,
    trigger: AutonomyTriggerKind,
    incomplete_todos: usize,
    last_autonomy_run_ms: Option<u64>,
    now_ms: u64,
    development_planning_needed: bool,
) -> AutonomyAction {
    if stage == AutonomyStage::Start && busy {
        AutonomyAction::Stop
    } else if stage == AutonomyStage::Start && trigger != AutonomyTriggerKind::Scheduled
        && should_explore_spec(incomplete_todos, false, last_autonomy_run_ms, now_ms, trigger, false, development_planning_needed) {
        AutonomyAction::ExploreThenContinue
    } else if incomplete_todos > 0 {
        AutonomyAction::ExecuteNextTodo
    } else if trigger == AutonomyTriggerKind::Scheduled
        && should_explore_spec(incomplete_todos, false, last_autonomy_run_ms, now_ms, trigger, false, development_planning_needed) {
        AutonomyAction::Explore
    } else {
        AutonomyAction::Stop
    }
}

/// What an employee's autonomy round does next at `stage`.
pub fn process_employee_autonomy(
    stage: AutonomyStage,
    busy: bool,
    trigger: AutonomyTriggerKind,
    incomplete_todos: usize,
    last_autonomy_run_ms: Option<u64>,
    now_ms: u64,
    development_planning_needed: bool,
) -> (r: AutonomyAction)
    ensures
        r == autonomy_step_spec(
            stage,
            busy,
            trigger,
            incomplete_todos,
            last_autonomy_run_ms,
            now_ms,
            development_planning_needed,
        ),
{
    if stage == AutonomyStage::Start {
        if busy {
            return AutonomyAction::Stop;
        }
        if trigger != AutonomyTriggerKind::Scheduled && should_run_autonomy(
            incomplete_todos,
            false,
            last_autonomy_run_ms,
            now_ms,
            trigger,
            development_planning_needed,
        ) {
            return AutonomyAction::ExploreThenContinue;
        }
    }
    if should_execute_next_todo(incomplete_todos, false) {
        return AutonomyAction::ExecuteNextTodo;
    }
    if trigger == AutonomyTriggerKind::Scheduled && should_run_autonomy(
        incomplete_todos,
        false,
        last_autonomy_run_ms,
        now_ms,
        trigger,
        development_planning_needed,
    ) {
        return AutonomyAction::Explore;
    }
    AutonomyAction::Stop
}

/// A round that has explored once does not ask to explore first again, so a
/// round explores at most twice.
pub proof fn lemma_round_explores_first_once(
    busy: bool,
    trigger: AutonomyTriggerKind,
    incomplete_todos: usize,
    last_autonomy_run_ms: Option<u64>,
    now_ms: u64,
    development_planning_needed: bool,
)
    ensures
        autonomy_step_spec(
            AutonomyStage::AfterExploration,
            busy,
            trigger,
            incomplete_todos,
            last_autonomy_run_ms,
            now_ms,
            development_planning_needed,
        ) != AutonomyAction::ExploreThenContinue,
{
}

/// The trigger of each employee at a tick: a finished task when they are
/// marked pending, else the schedule; no employee is woken while the shop is
/// closed (when its status could be read).
pub fn process_autonomy_tick(shop_open: Option<bool>, employee_ids: &Vec<String>, pending: &Vec<String>) -> (r: Option<Vec<AutonomyTriggerKind>>)
    ensures
        shop_open == Some(false) ==> r is None,
        shop_open != Some(false) ==> (r matches Some(ts) && ts@.len() == employee_ids@.len() && forall|i: int|
            0 <= i < ts@.len() ==> #[trigger] ts@[i] == (if views(pending@).contains(employee_ids@[i]@) {
                AutonomyTriggerKind::TaskCompleted
            } else {
                AutonomyTriggerKind::Scheduled
            })),
{
    if shop_open == Some(false) {
        return None;
    }
    let mut out: Vec<AutonomyTriggerKind> = Vec::new();
    let mut i: usize = 0;
    while i < employee_ids.len()
        invariant
            i <= employee_ids@.len(),
            out@.len() == i,
            forall|k: int| 0 <= k < i ==> #[trigger] out@[k] == (if views(pending@).contains(employee_ids@[k]@) {
                AutonomyTriggerKind::TaskCompleted
            } else {
                AutonomyTriggerKind::Scheduled
            }),
        decreases employee_ids@.len() - i,
    {
        let mut found = false;
        let mut j: usize = 0;
        while j < pending.len()
            invariant
                j <= pending@.len(),
                i < employee_ids@.len(),
                !found ==> forall|k: int| 0 <= k < j ==> pending@[k]@ != employee_ids@[i as int]@,
                found ==> views(pending@).contains(employee_ids@[i as int]@),
            decreases pending@.len() - j,
        {
            if same_text(pending[j].as_str(), employee_ids[i].as_str()) {
                assert(views(pending@)[j as int] == employee_ids@[i as int]@);
                found = true;
            }
            j = j + 1;
        }
        proof {
            if !found && views(pending@).contains(employee_ids@[i as int]@) {
                let k = choose|k: int| 0 <= k < views(pending@).len() && views(pending@)[k] == employee_ids@[i as int]@;
                assert(pending@[k]@ == employee_ids@[i as int]@);
            }
        }
        out.push(if found { AutonomyTriggerKind::TaskCompleted } else { AutonomyTriggerKind::Scheduled });
        i = i + 1;
    }
    Some(out)
}

/// `s` opens a JSON object.
pub open spec fn opens_object(s: Seq<char>) -> bool {
    s.len() > 0 && s[0] == '{'
}

/// The trimmed lines of `lines` that open a JSON object.
pub open spec fn object_lines(lines: Seq<Seq<char>>) -> Seq<Seq<char>>
    decreases lines.len(),
{
    if lines.len() == 0 {
        seq![]
    } else if opens_object(trim(lines.last())) {
        object_lines(lines.drop_last()).push(trim(lines.last()))
    } else {
        object_lines(lines.drop_last())
    }
}

/// `s` without a leading `json` or `JSON` tag.
pub open spec fn strip_json_tag(s: Seq<char>) -> Seq<char> {
    if s.len() >= 4 && (has_prefix(s, "json"@) || has_prefix(s, "JSON"@)) {
        s.subrange(4, s.len() as int)
    } else {
        s
    }
}

/// The trimmed bodies of the ``` fenced blocks of `rest` (after an optional
/// `json` tag) that open a JSON object, in order; the search stops at a fence
/// that is not closed.
pub open spec fn fenced_objects(rest: Seq<char>) -> Seq<Seq<char>>
    decreases rest.len(),
{
    match find_spec(rest, "```"@) {
        None => seq![],
        Some(start) => if 0 <= start && start + 3 <= rest.len() {
            let body = strip_json_tag(rest.subrange(start + 3, rest.len() as int));
            match find_spec(body, "```"@) {
                None => seq![],
                Some(end) => if 0 <= end && end + 3 <= body.len() {
                    proof {
                        let a = rest.subrange(start + 3, rest.len() as int);
                        assert(body.len() <= a.len());
                    }
                    let block = trim(body.subrange(0, end));
                    let tail = fenced_objects(body.subrange(end + 3, body.len() as int));
                    if opens_object(block) {
                        seq![block] + tail
                    } else {
                        tail
                    }
                } else {
                    seq![]
                },
            }
        } else {
            seq![]
        },
    }
}

/// The places in an exploration's output where its JSON plan may stand, in the
/// order they are tried: the whole output, each line, each fenced block.
pub open spec fn plan_candidates(output: Seq<char>) -> Seq<Seq<char>> {
    (if opens_object(trim(output)) { seq![trim(output)] } else { seq![] }) + object_lines(split_lines(output))
        + fenced_objects(output)
}

/// The characters `v[a..b]`.
fn chars_range(v: &Vec<char>, a: usize, b: usize) -> (r: Vec<char>)
    requires
        a <= b <= v@.len(),
    ensures
        r@ == v@.subrange(a as int, b as int),
{
    let mut out: Vec<char> = Vec::new();
    let mut k = a;
    while k < b
        invariant
            a <= k <= b <= v@.len(),
            out@ == v@.subrange(a as int, k as int),
        decreases b - k,
    {
        out.push(v[k]);
        assert(v@.subrange(a as int, k + 1) =~= v@.subrange(a as int, k as int).push(v@[k as int]));
        k = k + 1;
    }
    out
}

/// Whether a string opens a JSON object.
fn opens_object_exec(s: &str) -> (r: bool)
    ensures
        r == opens_object(s@),
{
    let v = chars_of(s);
    v.len() > 0 && v[0] == '{'
}

/// Appends the fenced blocks of `rest` that open a JSON object.
fn push_fenced_objects(out: &mut Vec<String>, rest: Vec<char>)
    ensures
        views(final(out)@) == views(old(out)@) + fenced_objects(rest@),
    decreases rest@.len(),
{
    let fence = chars_of("```");
    proof {
        reveal_strlit("```");
        reveal_strlit("json");
        reveal_strlit("JSON");
    }
    assert(fence@.len() == 3);
    match find(&rest, &fence) {
        None => {
            assert(views(out@) + Seq::<Seq<char>>::empty() =~= views(out@));
        },
        Some(start) => {
            let n = rest.len();
            assert(occurs_at(rest@, fence@, start as int));
            assert(start + 3 <= n);
            let after = chars_range(&rest, start + 3, n);
            let has_tag = after.len() >= 4 && ((after[0] == 'j' && after[1] == 's' && after[2] == 'o' && after[3] == 'n')
                || (after[0] == 'J' && after[1] == 'S' && after[2] == 'O' && after[3] == 'N'));
            proof {
                let a = after@;
                if a.len() >= 4 {
                    if has_prefix(a, "json"@) {
                        assert(a.subrange(0, 4) == "json"@);
                        assert(a[0] == a.subrange(0, 4)[0] && a[1] == a.subrange(0, 4)[1] && a[2] == a.subrange(0, 4)[2] && a[3] == a.subrange(0, 4)[3]);
                    }
                    if has_prefix(a, "JSON"@) {
                        assert(a.subrange(0, 4) == "JSON"@);
                        assert(a[0] == a.subrange(0, 4)[0] && a[1] == a.subrange(0, 4)[1] && a[2] == a.subrange(0, 4)[2] && a[3] == a.subrange(0, 4)[3]);
                    }
                    if a[0] == 'j' && a[1] == 's' && a[2] == 'o' && a[3] == 'n' {
                        assert(a.subrange(0, 4) =~= "json"@);
                    }
                    if a[0] == 'J' && a[1] == 'S' && a[2] == 'O' && a[3] == 'N' {
                        assert(a.subrange(0, 4) =~= "JSON"@);
                    }
                }
                assert(has_tag == (a.len() >= 4 && (has_prefix(a, "json"@) || has_prefix(a, "JSON"@))));
            }
            let body = if has_tag { chars_range(&after, 4, after.len()) } else { after };
            assert(body@ == strip_json_tag(rest@.subrange(start + 3, rest@.len() as int)));
            match find(&body, &fence) {
                None => {
                    assert(views(out@) + Seq::<Seq<char>>::empty() =~= views(out@));
                },
                Some(end) => {
                    let raw_block = string_from_chars(&chars_range(&body, 0, end));
                    let block = trimmed(raw_block.as_str());
                    let tail = chars_range(&body, end + 3, body.len());
                    let ghost before = views(out@);
                    if opens_object_exec(block.as_str()) {
                        out.push(block);
                        assert(views(out@) =~= before + seq![trim(body@.subrange(0, end as int))]);
                    }
                    push_fenced_objects(out, tail);
                    assert(views(out@) =~= before + fenced_objects(rest@));
                },
            }
        },
    }
}

/// The places where an exploration's JSON plan may stand, in the order they are tried.
pub fn autonomy_plan_json_candidates(output: &str) -> (r: Vec<String>)
    ensures
        views(r@) == plan_candidates(output@),
{
    let mut out: Vec<String> = Vec::new();
    let whole = trimmed(output);
    if opens_object_exec(whole.as_str()) {
        out.push(whole);
    }
    let ghost first = views(out@);
    assert(first =~= (if opens_object(trim(output@)) { seq![trim(output@)] } else { Seq::<Seq<char>>::empty() }));
    let lines = lines_of(output);
    let ghost ls = views(lines@);
    let mut i: usize = 0;
    proof {
        assert(ls.take(0) =~= Seq::<Seq<char>>::empty());
        assert(first + object_lines(ls.take(0)) =~= first);
    }
    while i < lines.len()
        invariant
            i <= lines@.len(),
            ls == views(lines@),
            ls == split_lines(output@),
            views(out@) == first + object_lines(ls.take(i as int)),
        decreases lines@.len() - i,
    {
        proof {
            assert(ls.take(i + 1).drop_last() =~= ls.take(i as int));
            assert(ls.take(i + 1).last() == lines@[i as int]@);
        }
        let line = trimmed(lines[i].as_str());
        if opens_object_exec(line.as_str()) {
            let ghost before = views(out@);
            out.push(line);
            assert(views(out@) =~= before.push(trim(lines@[i as int]@)));
        }
        i = i + 1;
    }
    proof {
        assert(ls.take(ls.len() as int) =~= ls);
    }
    push_fenced_objects(&mut out, chars_of(output));
    out
}

/// Whether a plan proposes anything.
pub open spec fn plan_usable(p: ParsedAutonomyPlan) -> bool {
    p.todos@.len() > 0 || p.new_requirements@.len() > 0
}

/// Whether the candidate at `i` parsed to a plan that proposes something.
fn usable_at(parsed: &Vec<Option<ParsedAutonomyPlan>>, i: usize) -> (r: bool)
    requires
        i < parsed@.len(),
    ensures
        r == (parsed@[i as int] matches Some(q) && plan_usable(q)),
{
    match &parsed[i] {
        Some(p) => p.todos.len() > 0 || p.new_requirements.len() > 0,
        None => false,
    }
}

/// The plan of an exploration: the first candidate that parsed and proposes
/// something. `parsed` holds, for each candidate in order, the plan it parsed
/// to, if any.
pub fn parse_autonomy_plan_output(parsed: Vec<Option<ParsedAutonomyPlan>>) -> (r: Option<ParsedAutonomyPlan>)
    ensures
        match r {
            Some(p) => exists|i: int|
                0 <= i < parsed@.len() && parsed@[i] == Some(p) && plan_usable(p)
                    && forall|j: int| 0 <= j < i ==> !(#[trigger] parsed@[j] matches Some(q) && plan_usable(q)),
            None => forall|j: int| 0 <= j < parsed@.len() ==> !(#[trigger] parsed@[j] matches Some(q) && plan_usable(q)),
        },
{
    let mut i: usize = 0;
    while i < parsed.len() && !usable_at(&parsed, i)
        invariant
            i <= parsed@.len(),
            forall|j: int| 0 <= j < i ==> !(#[trigger] parsed@[j] matches Some(q) && plan_usable(q)),
        decreases parsed@.len() - i,
    {
        i = i + 1;
    }
    if i == parsed.len() {
        return None;
    }
    let ghost src = parsed@;
    let mut all = parsed;
    let x = all.swap_remove(i);
    assert(x == src[i as int]);
    x
}

/// The phase that an exploration names for a requirement (trimmed,
/// case-insensitive); collection when it names none that is known.
pub open spec fn named_phase(lower: Seq<char>) -> RequirementPhase {
    if lower == "review"@ {
        RequirementPhase::Review
    } else if lower == "confirm"@ {
        RequirementPhase::Confirm
    } else if lower == "development"@ {
        RequirementPhase::Development
    } else if lower == "testing"@ {
        RequirementPhase::Testing
    } else if lower == "release"@ {
        RequirementPhase::Release
    } else {
        RequirementPhase::Collection
    }
}

/// The phase an exploration names for a requirement.
pub fn parse_requirement_phase(raw: &str) -> (r: RequirementPhase)
    ensures
        r == named_phase(lowercase(trim(raw@))),
{
    let t = trimmed(raw);
    let low = to_lowercase(t.as_str());
    phase_named(low.as_str())
}

/// The phase named by `lower`, an exploration's trimmed, lower-cased phase.
pub fn phase_named(lower: &str) -> (r: RequirementPhase)
    ensures
        r == named_phase(lower@),
{
    if same_text(lower, "review") {
        RequirementPhase::Review
    } else if same_text(lower, "confirm") {
        RequirementPhase::Confirm
    } else if same_text(lower, "development") {
        RequirementPhase::Development
    } else if same_text(lower, "testing") {
        RequirementPhase::Testing
    } else if same_text(lower, "release") {
        RequirementPhase::Release
    } else {
        RequirementPhase::Collection
    }
}

/// Where the todos of an exploration come from.
pub fn todo_source_for(mode: ExplorationMode) -> (r: TodoSource)
    ensures
        mode == ExplorationMode::RequirementPlanning ==> r == TodoSource::Requirement,
        mode == ExplorationMode::GitExploration ==> r == TodoSource::GitExploration,
{
    match mode {
        ExplorationMode::RequirementPlanning => TodoSource::Requirement,
        ExplorationMode::GitExploration => TodoSource::GitExploration,
    }
}

/// The body a proposed requirement gets when it brings none.
pub const PROPOSAL_BODY: &'static str = "## Background\n\nAutonomy exploration proposal.\n";

/// The front matter and body of a requirement that an exploration proposes,
/// made at `now`: none when it has no (non-blank) id; the id and title are
/// trimmed, the phase read from what it names (collection by default).
pub fn proposed_requirement(req: &ParsedNewRequirement, now: u64) -> (r: Option<(RequirementMeta, String)>)
    ensures
        match req.id {
            None => r is None,
            Some(id) => if trim(id@).len() == 0 {
                r is None
            } else {
                r matches Some((meta, body)) && {
                    &&& meta.id@ == trim(id@)
                    &&& meta.title@ == trim(req.title@)
                    &&& meta.phase == match req.phase {
                        Some(p) => named_phase(lowercase(trim(p@))),
                        None => RequirementPhase::Collection,
                    }
                    &&& meta.created_at_ms == now && meta.updated_at_ms == now
                    &&& body@ == match req.content {
                        Some(c) => c@,
                        None => PROPOSAL_BODY@,
                    }
                }
            },
        },
{
    let id = match &req.id {
        Some(id) => trimmed(id.as_str()),
        None => {
            return None;
        },
    };
    if id.as_str().is_empty() {
        return None;
    }
    let phase = match &req.phase {
        Some(p) => parse_requirement_phase(p.as_str()),
        None => RequirementPhase::Collection,
    };
    let body = match &req.content {
        Some(c) => c.clone(),
        None => PROPOSAL_BODY.to_owned(),
    };
    let meta = RequirementMeta {
        id,
        title: trimmed(req.title.as_str()),
        phase,
        created_at_ms: now,
        updated_at_ms: now,
    };
    Some((meta, body))
}

/// A proposed todo is added only when its title is not blank.
pub fn todo_is_addable(todo: &ParsedAutonomyTodo) -> (r: bool)
    ensures
        r == (trim(todo.title@).len() > 0),
{
    let t = trimmed(todo.title.as_str());
    !t.as_str().is_empty()
}

/// The requirement a proposed todo belongs to: its trimmed id, when not blank.
pub fn todo_requirement_id(todo: &ParsedAutonomyTodo) -> (r: Option<String>)
    ensures
        match todo.requirement_id {
            None => r is None,
            Some(id) => if trim(id@).len() == 0 { r is None } else { r matches Some(x) && x@ == trim(id@) },
        },
{
    match &todo.requirement_id {
        None => None,
        Some(id) => {
            let t = trimmed(id.as_str());
            if t.as_str().is_empty() {
                None
            } else {
                Some(t)
            }
        },
    }
}

/// Whether `s` equals `development` up to ASCII case.
pub open spec fn is_development_name(s: Seq<char>) -> bool {
    s.len() == 11 && forall|i: int| 0 <= i < 11 ==> #[trigger] ascii_lower(s[i]) == "development"@[i]
}

/// `c` with an ASCII capital made small.
pub open spec fn ascii_lower(c: char) -> char {
    if 'A' <= c && c <= 'Z' {
        ((c as u8) + 32) as char
    } else {
        c
    }
}

/// A proposed todo becomes a development task when its requirement is in
/// development or the todo names the development phase (in any ASCII case).
pub fn todo_targets_development(todo: &ParsedAutonomyTodo, requirement_phase: RequirementPhase) -> (r: bool)
    ensures
        r == (requirement_phase == RequirementPhase::Development || (todo.requirement_phase matches Some(p)
            && is_development_name(p@))),
{
    if requirement_phase == RequirementPhase::Development {
        return true;
    }
    match &todo.requirement_phase {
        None => false,
        Some(p) => {
            let v = chars_of(p.as_str());
            let target = chars_of("development");
            proof {
                reveal_strlit("development");
                assert("development"@.len() == 11);
            }
            if v.len() != 11 {
                return false;
            }
            let mut i: usize = 0;
            while i < 11
                invariant
                    i <= 11,
                    v@.len() == 11,
                    target@ == "development"@,
                    target@.len() == 11,
                    requirement_phase != RequirementPhase::Development,
                    todo.requirement_phase matches Some(q) && q@ == v@,
                    forall|k: int| 0 <= k < i ==> #[trigger] ascii_lower(v@[k]) == "development"@[k],
                decreases 11 - i,
            {
                let c = v[i];
                let lc = if 'A' <= c && c <= 'Z' { ((c as u8) + 32) as char } else { c };
                assert(lc == ascii_lower(v@[i as int]));
                if lc != target[i] {
                    assert(ascii_lower(v@[i as int]) != "development"@[i as int]);
                    return false;
                }
                i = i + 1;
            }
            true
        },
    }
}

/// How a todo stands after an employee worked on it: completed when the run
/// ended with exit code 0, pending again when it failed or could not run.
pub fn todo_status_after_run(exit_code: Option<i32>) -> (r: TodoStatus)
    ensures
        r == (if exit_code == Some(0i32) { TodoStatus::Completed } else { TodoStatus::Pending }),
{
    match exit_code {
        Some(0) => TodoStatus::Completed,
        _ => TodoStatus::Pending,
    }
}

} // verus!
