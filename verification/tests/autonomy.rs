use kaisha_server::autonomy::legacy::{
    autonomy_plan_json_candidates, is_employee_busy, parse_autonomy_plan_output, select_exploration_mode,
    should_run_autonomy, should_start_autonomy_exploration, AgentTaskSummary, AutonomyTriggerKind, ExplorationMode,
    ParsedAutonomyPlan, ParsedAutonomyTodo, ParsedNewRequirement,
};
use kaisha_server::autonomy::plan::{Plan, PlanStatus, PlanTrigger};
use kaisha_server::autonomy::task::{
    BackoffStrategy, ComplexityLevel, RetryPolicy, Task, TaskContext, TaskPriority, TaskStatus,
};
use kaisha_server::autonomy::task_graph::TaskGraph;
use kaisha_server::autonomy::store::tasks_due_for_retry;
use kaisha_server::autonomy::worker::{LoadLevel, WorkerStatus};
use kaisha_server::autonomy::worker_pool::workers_from_employees;
use kaisha_server::employee::EmployeeRecord;
use kaisha_server::autonomy_task::{agent_to_work_status, task_kind_title, AgentTaskStatus, TaskKind, WorkTaskStatus};
use kaisha_server::requirement::{RequirementPhase, RequirementSummary};

fn sample_summary(id: &str, phase: RequirementPhase) -> RequirementSummary {
    RequirementSummary {
        id: id.into(),
        title: format!("Title {id}"),
        phase,
        created_at_ms: 1,
        updated_at_ms: 2,
        dir_path: format!("requirements/{id}"),
    }
}

fn sample_task(executor: &str, status: AgentTaskStatus) -> AgentTaskSummary {
    AgentTaskSummary {
        id: "t1".into(),
        executor_id: Some(executor.into()),
        pending_or_running: matches!(status, AgentTaskStatus::Pending | AgentTaskStatus::Running),
    }
}

fn str_field(v: &serde_json::Value, key: &str) -> Option<String> {
    v.get(key).and_then(|x| x.as_str()).map(|s| s.to_string())
}

/// Reads one candidate the way the server's JSON parser does.
fn parse_candidate(text: &str) -> Option<ParsedAutonomyPlan> {
    let v: serde_json::Value = serde_json::from_str(text).ok()?;
    let obj = v.as_object()?;
    let todos = match obj.get("todos") {
        Some(serde_json::Value::Array(items)) => items
            .iter()
            .map(|t| ParsedAutonomyTodo {
                title: str_field(t, "title").unwrap_or_default(),
                description: str_field(t, "description").unwrap_or_default(),
                requirement_id: str_field(t, "requirement_id"),
                requirement_phase: str_field(t, "requirement_phase"),
            })
            .collect(),
        _ => Vec::new(),
    };
    let new_requirements = match obj.get("new_requirements") {
        Some(serde_json::Value::Array(items)) => items
            .iter()
            .map(|r| ParsedNewRequirement {
                id: str_field(r, "id"),
                title: str_field(r, "title").unwrap_or_default(),
                phase: str_field(r, "phase"),
                content: str_field(r, "content"),
            })
            .collect(),
        _ => Vec::new(),
    };
    Some(ParsedAutonomyPlan { mode: str_field(&v, "mode"), todos, new_requirements })
}

fn parse_plan(output: &str) -> Option<ParsedAutonomyPlan> {
    let parsed = autonomy_plan_json_candidates(output).iter().map(|c| parse_candidate(c)).collect();
    parse_autonomy_plan_output(parsed)
}

fn test_task(id: &str, deps: Vec<&str>) -> Task {
    Task {
        id: id.to_string(),
        title: id.to_string(),
        description: "".to_string(),
        status: TaskStatus::Pending,
        priority: TaskPriority::Medium,
        complexity: ComplexityLevel::Simple,
        estimated_duration_secs: 60,
        actual_duration_secs: None,
        assignee: None,
        executor_pid: None,
        dependencies: deps.into_iter().map(|s| s.to_string()).collect(),
        dependents: Vec::new(),
        plan_id: "plan_1".to_string(),
        parent_task_id: None,
        sub_tasks: Vec::new(),
        context: TaskContext::default(),
        result: None,
        retry_policy: RetryPolicy::default(),
        retry_count: 0,
        next_retry_at_ms: None,
        created_at_ms: 0,
        started_at_ms: None,
        completed_at_ms: None,
    }
}

#[test]
fn selects_git_exploration_when_no_in_progress_requirements() {
    let items = vec![sample_summary("r1", RequirementPhase::Release)];
    assert_eq!(select_exploration_mode(&items), ExplorationMode::GitExploration);
}

#[test]
fn selects_requirement_planning_when_in_progress_exists() {
    let items = vec![sample_summary("r1", RequirementPhase::Development)];
    assert_eq!(select_exploration_mode(&items), ExplorationMode::RequirementPlanning);
}

#[test]
fn should_run_autonomy_when_todos_empty_and_idle() {
    assert!(should_run_autonomy(0, false, None, 100_000, AutonomyTriggerKind::Scheduled, false));
}

#[test]
fn should_not_run_scheduled_autonomy_when_todos_remain() {
    assert!(!should_run_autonomy(2, false, None, 100_000, AutonomyTriggerKind::Scheduled, false));
}

#[test]
fn scheduled_autonomy_runs_when_development_planning_needed() {
    assert!(should_run_autonomy(2, false, None, 100_000, AutonomyTriggerKind::Scheduled, true));
}

#[test]
fn should_run_autonomy_after_task_completed_even_with_debounce() {
    assert!(should_run_autonomy(3, false, Some(99_000), 105_000, AutonomyTriggerKind::TaskCompleted, false));
}

#[test]
fn forced_manual_exploration_bypasses_debounce() {
    let now = 10_000u64;
    let last = Some(9_000u64);
    assert!(!should_start_autonomy_exploration(0, false, last, now, AutonomyTriggerKind::Manual, false, false));
    assert!(should_start_autonomy_exploration(0, false, last, now, AutonomyTriggerKind::Manual, true, false));
}

#[test]
fn is_employee_busy_when_running_task_exists() {
    let tasks = vec![
        sample_task("alice", AgentTaskStatus::Completed),
        sample_task("alice", AgentTaskStatus::Running),
    ];
    assert!(is_employee_busy(&tasks, "alice"));
    assert!(!is_employee_busy(&tasks, "bob"));
}

#[test]
fn parse_autonomy_plan_from_json_line() {
    let output = r#"{"mode":"requirement_planning","todos":[{"title":"Draft test plan","description":"Cover auth flows"}],"new_requirements":[]}"#;
    let plan = parse_plan(output).expect("plan");
    assert_eq!(plan.todos.len(), 1);
    assert_eq!(plan.todos[0].title, "Draft test plan");
}

#[test]
fn parse_autonomy_plan_from_json_codeblock() {
    let output = r#"Here is the plan:
```json
{"mode":"requirement_planning","todos":[{"title":"Build API","description":"Add endpoints","requirement_id":"auth","requirement_phase":"development"}],"new_requirements":[]}
```"#;
    let plan = parse_plan(output).expect("plan");
    assert_eq!(plan.todos.len(), 1);
    assert_eq!(plan.todos[0].requirement_id.as_deref(), Some("auth"));
}

#[test]
fn plan_progress() {
    let mut plan = Plan {
        id: "test".into(),
        title: "Test".into(),
        description: "".into(),
        status: PlanStatus::Executing,
        trigger: PlanTrigger::Manual,
        recurrence: None,
        root_tasks: vec![],
        all_tasks: vec!["a".into(), "b".into(), "c".into()],
        progress_percent: 0,
        completed_tasks: 2,
        failed_tasks: 0,
        total_tasks: 3,
        created_at_ms: 0,
        started_at_ms: None,
        completed_at_ms: None,
    };
    let percent = ((plan.completed_tasks as f64 / plan.total_tasks as f64) * 100.0) as u8;
    plan.update_progress(percent, 5);
    assert_eq!(plan.progress_percent, 66);
}

#[test]
fn retry_policy_exponential() {
    let policy = RetryPolicy {
        max_retries: 3,
        backoff_strategy: BackoffStrategy::Exponential,
        initial_delay_ms: 1000,
        max_delay_ms: 10000,
    };
    assert_eq!(policy.next_delay(0), 1000);
    assert_eq!(policy.next_delay(1), 2000);
    assert_eq!(policy.next_delay(2), 4000);
    assert_eq!(policy.next_delay(3), 8000);
    assert_eq!(policy.next_delay(4), 10000);
}

#[test]
fn task_priority_ordering() {
    assert!(TaskPriority::Critical < TaskPriority::High);
    assert!(TaskPriority::High < TaskPriority::Medium);
    assert!(TaskPriority::Medium < TaskPriority::Low);
}

#[test]
fn add_task_and_complete_unblocks_dependents() {
    let mut graph = TaskGraph::new();
    graph.add_task(test_task("a", vec![])).unwrap();
    graph.add_task(test_task("b", vec!["a"])).unwrap();

    let popped = graph.pop_ready();
    assert_eq!(popped.map(|r| r.task_id), Some("a".to_string()));

    let ready = graph.complete_task("a").unwrap();
    assert!(ready.contains(&"b".to_string()));
    assert_eq!(graph.ready_queue_len(), 1);
}

#[test]
fn circular_dependency_detection() {
    let mut graph = TaskGraph::new();
    graph.add_task(test_task("a", vec!["c"])).unwrap();
    graph.add_task(test_task("b", vec!["a"])).unwrap();
    graph.add_task(test_task("c", vec!["b"])).unwrap();

    let cycle = graph.has_circular_dependency();
    assert!(cycle.is_some());
}

#[test]
fn load_level_calculation() {
    assert!(matches!(LoadLevel::from_ratio(0, 2), LoadLevel::Idle));
    assert!(matches!(LoadLevel::from_ratio(1, 2), LoadLevel::Moderate));
    assert!(matches!(LoadLevel::from_ratio(2, 2), LoadLevel::Critical));
}

#[test]
fn task_kind_title_returns_correct_labels() {
    assert_eq!(task_kind_title(&TaskKind::AutonomyExplore), "探索工作区");
    assert_eq!(task_kind_title(&TaskKind::AutonomyExecute), "执行任务");
    assert_eq!(task_kind_title(&TaskKind::WorkTaskExecute), "执行工作任务");
}

#[test]
fn agent_to_work_status_maps_correctly() {
    assert_eq!(agent_to_work_status(&AgentTaskStatus::Pending), WorkTaskStatus::Pending);
    assert_eq!(agent_to_work_status(&AgentTaskStatus::Running), WorkTaskStatus::InProgress);
    assert_eq!(agent_to_work_status(&AgentTaskStatus::Completed), WorkTaskStatus::Completed);
    assert_eq!(agent_to_work_status(&AgentTaskStatus::Failed), WorkTaskStatus::Failed);
}

#[test]
fn failed_tasks_become_ready_when_their_retry_time_comes() {
    let mut due = test_task("due", vec![]);
    due.status = TaskStatus::Failed;
    due.next_retry_at_ms = Some(1_000);
    due.retry_policy.max_retries = 3;
    let mut later = test_task("later", vec![]);
    later.status = TaskStatus::Failed;
    later.next_retry_at_ms = Some(5_000);
    later.retry_policy.max_retries = 3;
    let mut spent = test_task("spent", vec![]);
    spent.status = TaskStatus::Failed;
    spent.next_retry_at_ms = Some(500);
    spent.retry_policy.max_retries = 3;
    spent.retry_count = 3;
    let pending = test_task("pending", vec![]);
    let out = tasks_due_for_retry(vec![due, later, spent, pending], 2_000);
    assert_eq!(out.len(), 1);
    assert_eq!(out[0].id, "due");
    assert_eq!(out[0].status, TaskStatus::Ready);
    assert_eq!(out[0].next_retry_at_ms, None);
}

#[test]
fn workers_are_made_from_employees_only_when_none_exist() {
    let emp = EmployeeRecord {
        id: "alice".into(),
        name: "Alice".into(),
        department: "eng".into(),
        role: "engineer".into(),
        memory_file: String::new(),
    };
    let made = workers_from_employees(Vec::new(), &vec![emp], 7);
    assert_eq!(made.len(), 1);
    assert_eq!(made[0].id, "alice");
    assert_eq!(made[0].capabilities, vec!["general".to_string()]);
    assert_eq!(made[0].concurrency_quota, 2);
    assert_eq!(made[0].memory_file.as_deref(), Some("shachiku/alice/memory.md"));
    assert_eq!(made[0].status, WorkerStatus::Active);
    assert_eq!(made[0].current_load, LoadLevel::Idle);
    assert_eq!(made[0].created_at_ms, 7);
    let kept = workers_from_employees(made, &vec![], 9);
    assert_eq!(kept.len(), 1);
    assert_eq!(kept[0].created_at_ms, 7);
}
