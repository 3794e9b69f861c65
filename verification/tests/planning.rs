use kaisha_server::git::explorer::{sort_tree_entries, TreeEntry};
use kaisha_server::git::clone_request;
use kaisha_server::git::service::{operation_command, GitError, GitOperation};
use kaisha_server::autonomy::prompts::context_todos_text;
use kaisha_server::requirement::build_optimize_messages;
use kaisha_server::requirement_release::{build_package_messages, build_start_messages};
use kaisha_server::requirement_testing::{build_execute_test_messages, build_split_test_messages};
use kaisha_server::employee::{sort_employee_records, validate_new_employee, EmployeeError, EmployeeRecord};
use kaisha_server::agent_locale::ToolChatMessage;
use kaisha_server::autonomy::legacy::ExplorationMode;
use kaisha_server::autonomy::plan::{PlanStatus, PlanTrigger};
use kaisha_server::autonomy::planner::{Planner, PlanningContext, TaskSpec};
use kaisha_server::autonomy::prompts::{
    build_execute_messages, build_explore_messages, existing_todos_text, format_git_context, primary_repo,
    GIT_EXPLORATION_RULES,
};
use kaisha_server::autonomy::scheduler::{
    schedule_next, ScheduleOutcome, SchedulerConfig, preemption_target, record_task_completed, record_task_failed, record_task_started,
};
use kaisha_server::autonomy::task::{
    BackoffStrategy, ComplexityLevel, RetryPolicy, Task, TaskContext, TaskPriority, TaskResult, TaskStatus,
};
use kaisha_server::autonomy::task_graph::GraphError;
use kaisha_server::autonomy_task::WorkTaskStatus;
use kaisha_server::employee_todo::{EmployeeTodoItem, TodoSource, TodoStatus};
use kaisha_server::git::registry::GitRepoRecord;
use kaisha_server::git::slugify_repo_id;
use kaisha_server::requirement::map_requirement_err;
use kaisha_server::requirement_development::{
    apply_task_update, current_after_delete, DevError, DevTaskStatus, UpdateTaskRequest,
};
use kaisha_server::settings::{check_workspace_change, WorkspaceSource, normalize_workspace_path, validate_address, AddressError, SettingsMenu, WorkspacePathError};

fn spec(id: Option<&str>, deps: Vec<&str>) -> TaskSpec {
    TaskSpec {
        id: id.map(|s| s.to_string()),
        title: "T".into(),
        description: "D".into(),
        priority: TaskPriority::High,
        complexity: ComplexityLevel::Moderate,
        dependencies: deps.into_iter().map(String::from).collect(),
        context: TaskContext::default(),
        retry_policy: None,
    }
}

fn task(id: &str, priority: TaskPriority, assignee: Option<&str>) -> Task {
    Task {
        id: id.into(),
        title: id.into(),
        description: String::new(),
        status: TaskStatus::Running,
        priority,
        complexity: ComplexityLevel::Simple,
        estimated_duration_secs: 60,
        actual_duration_secs: None,
        assignee: assignee.map(String::from),
        executor_pid: None,
        dependencies: vec![],
        dependents: vec![],
        plan_id: "p".into(),
        parent_task_id: None,
        sub_tasks: vec![],
        context: TaskContext::default(),
        result: None,
        retry_policy: RetryPolicy {
            max_retries: 1,
            backoff_strategy: BackoffStrategy::Fixed,
            initial_delay_ms: 500,
            max_delay_ms: 1000,
        },
        retry_count: 0,
        next_retry_at_ms: None,
        created_at_ms: 0,
        started_at_ms: None,
        completed_at_ms: None,
    }
}

#[test]
fn create_plan_builds_tasks_roots_and_graph() {
    let planner = Planner::new("/ws".into());
    let ctx = PlanningContext {
        title: "Plan".into(),
        description: "Desc".into(),
        trigger: PlanTrigger::Manual,
        tasks: vec![spec(Some("a"), vec![]), spec(None, vec!["a"])],
    };
    let (plan, tasks, graph) = planner.create_plan(ctx, 1000, &vec![0, 7]).unwrap();
    assert_eq!(plan.id, "plan_1000");
    assert_eq!(plan.status, PlanStatus::Active);
    assert_eq!(plan.all_tasks, vec!["a".to_string(), "plan_1000_7".to_string()]);
    assert_eq!(plan.root_tasks, vec!["a".to_string()]);
    assert_eq!(plan.total_tasks, 2);
    assert_eq!(plan.started_at_ms, Some(1000));
    assert_eq!(tasks[1].estimated_duration_secs, 7200);
    assert_eq!(tasks[1].retry_policy, RetryPolicy::default());
    assert_eq!(graph.ready_queue_len(), 1);
    assert_eq!(Planner::estimate_duration(ComplexityLevel::VeryComplex), 86400);
}

#[test]
fn create_plan_refuses_repeated_ids() {
    let planner = Planner::new("/ws".into());
    let ctx = PlanningContext {
        title: "Plan".into(),
        description: "".into(),
        trigger: PlanTrigger::Manual,
        tasks: vec![spec(None, vec![]), spec(None, vec![])],
    };
    assert!(matches!(planner.create_plan(ctx, 5, &vec![9, 9]), Err(GraphError::TaskAlreadyExists(_))));
}

#[test]
fn replan_adds_tasks_under_the_failed_one() {
    let planner = Planner::new("/ws".into());
    let ctx = PlanningContext {
        title: "Plan".into(),
        description: "".into(),
        trigger: PlanTrigger::Manual,
        tasks: vec![spec(Some("a"), vec![])],
    };
    let (mut plan, _, _) = planner.create_plan(ctx, 1, &vec![0]).unwrap();
    let added = planner.replan(&mut plan, "a", &vec![spec(Some("b"), vec![])], &vec![0], &vec![42]);
    assert_eq!(added.len(), 1);
    assert_eq!(added[0].parent_task_id.as_deref(), Some("a"));
    assert_eq!(added[0].created_at_ms, 42);
    assert_eq!(plan.all_tasks, vec!["a".to_string(), "b".to_string()]);
    assert_eq!(plan.total_tasks, 2);
}

#[test]
fn task_records_follow_events() {
    let mut t = task("x", TaskPriority::Medium, Some("w"));
    record_task_started(&mut t, 10);
    assert_eq!(t.status, TaskStatus::Running);
    assert_eq!(t.started_at_ms, Some(10));
    assert!(record_task_failed(&mut t, "boom", 100));
    assert_eq!(t.status, TaskStatus::Pending);
    assert_eq!(t.retry_count, 1);
    assert_eq!(t.next_retry_at_ms, Some(600));
    assert_eq!(t.result.as_ref().unwrap().error.as_deref(), Some("boom"));
    assert!(!record_task_failed(&mut t, "again", 200));
    assert_eq!(t.status, TaskStatus::Failed);
    let result = TaskResult { success: true, exit_code: 0, output_preview: None, error: None, agent_task_id: None };
    record_task_completed(&mut t, result, 300);
    assert_eq!(t.status, TaskStatus::Completed);
    assert_eq!(t.completed_at_ms, Some(300));
}

#[test]
fn preemption_takes_first_low_priority_task() {
    let tasks = vec![task("a", TaskPriority::High, Some("w1")), task("b", TaskPriority::Low, Some("w2"))];
    assert_eq!(preemption_target(&tasks), Some(1));
    let unowned = vec![task("a", TaskPriority::Low, None), task("b", TaskPriority::Low, Some("w2"))];
    assert_eq!(preemption_target(&unowned), None);
}

#[test]
fn explore_prompt_holds_contexts_and_todos() {
    let items = vec![
        EmployeeTodoItem {
            id: "t1".into(),
            title: "Write docs".into(),
            description: String::new(),
            status: TodoStatus::InProgress,
            source: TodoSource::Manual,
            requirement_id: None,
            requirement_phase: None,
            created_at_ms: 1,
            updated_at_ms: 1,
        },
        EmployeeTodoItem {
            id: "t2".into(),
            title: "Fix bug".into(),
            description: String::new(),
            status: TodoStatus::Pending,
            source: TodoSource::GitExploration,
            requirement_id: None,
            requirement_phase: None,
            created_at_ms: 1,
            updated_at_ms: 1,
        },
    ];
    let todos = existing_todos_text(&items);
    assert_eq!(todos, "- [inprogress] Write docs (Manual)\n- [pending] Fix bug (GitExploration)\n");
    assert_eq!(existing_todos_text(&vec![]), "(none)\n");
    let msgs: Vec<ToolChatMessage> =
        build_explore_messages(ExplorationMode::GitExploration, false, "REQ", "GIT", &todos);
    assert_eq!(msgs.len(), 2);
    assert!(msgs[0].content.starts_with("You are an employee autonomy planner for a software team.\n\n"));
    assert!(msgs[0].content.contains(GIT_EXPLORATION_RULES));
    assert!(msgs[0].content.contains("## Requirement context\nREQ\n\n## Git context\nGIT\n\n## Existing employee todos\n- [inprogress]"));
    assert_eq!(msgs[1].content, "Plan the next actionable todos for this employee now.");
}

#[test]
fn execute_prompt_names_employee_and_requirement() {
    let long = "x".repeat(1300);
    let msgs = build_execute_messages("Ada", "Dev", "Fix", "Do it", Some(("auth", Some(long.as_str()))));
    assert!(msgs[0].content.starts_with("You are Ada, a Dev executing one assigned todo."));
    assert!(msgs[0].content.contains("Employee: Ada (Dev)\nTodo: Fix\nDescription: Do it\nRequirement id: auth\n"));
    assert!(msgs[0].content.contains(&format!("\nRequirement excerpt:\n{}\n", "x".repeat(1200))));
    assert!(!msgs[0].content.contains(&"x".repeat(1201)));
    assert_eq!(msgs[1].content, "Execute this todo now: Fix");
}

#[test]
fn git_context_uses_primary_repo() {
    let repos = vec![
        GitRepoRecord { id: "docs".into(), name: "Docs".into(), is_main: false, created_at_ms: 1 },
        GitRepoRecord { id: "main".into(), name: "Main".into(), is_main: false, created_at_ms: 1 },
    ];
    assert_eq!(primary_repo(&repos), Some(1));
    assert_eq!(
        format_git_context("/ws", &repos, true),
        "Primary repo: id=main, name=Main, path=/ws/repos/main\nBrowse this repository to find UX and technical improvement opportunities.\n"
    );
    assert_eq!(format_git_context("/ws", &vec![], false), "No git repositories registered.\n");
}

#[test]
fn repo_ids_from_names() {
    assert_eq!(slugify_repo_id("  My App! ", 5), "my-app");
    assert_eq!(slugify_repo_id("--", 5), "repo-5");
    assert_eq!(slugify_repo_id("a_b-C", 5), "a_b-c");
}

#[test]
fn requirement_errors_are_answered() {
    assert_eq!(map_requirement_err("requirement_not_found"), (404, "requirement_not_found".to_string()));
    assert_eq!(map_requirement_err("requirement_title_empty"), (400, "requirement_title_empty".to_string()));
    assert_eq!(map_requirement_err("disk full"), (400, "requirement_id_invalid".to_string()));
}

#[test]
fn dev_task_edits() {
    assert_eq!(DevTaskStatus::Merged.to_work_status(), WorkTaskStatus::Completed);
    assert_eq!(DevTaskStatus::BranchCreated.to_work_status(), WorkTaskStatus::Pending);
    assert_eq!(DevTaskStatus::InReview.to_work_status(), WorkTaskStatus::InProgress);
    let req = UpdateTaskRequest { title: Some("  New ".into()), assignee: Some(" ".into()), progress: Some(250) };
    assert_eq!(apply_task_update(true, "Old".into(), 5, &req), Ok(("New".to_string(), None, 100)));
    let blank = UpdateTaskRequest { title: Some(" ".into()), assignee: None, progress: None };
    assert_eq!(apply_task_update(true, "Old".into(), 5, &blank), Err(DevError::TaskTitleEmpty));
    assert_eq!(apply_task_update(false, "Old".into(), 5, &blank), Err(DevError::TaskNotFound));
    let keep = UpdateTaskRequest { title: None, assignee: Some("bob".into()), progress: None };
    assert_eq!(apply_task_update(true, "Old".into(), 5, &keep), Ok(("Old".to_string(), Some("bob".to_string()), 5)));
    let rest = vec!["task-001".to_string(), "task-003".to_string()];
    assert_eq!(current_after_delete(Some("task-002".into()), "task-002", &rest), Some("task-003".to_string()));
    assert_eq!(current_after_delete(Some("task-001".into()), "task-002", &rest), Some("task-001".to_string()));
    assert_eq!(current_after_delete(Some("task-002".into()), "task-002", &vec![]), None);
}

#[test]
fn settings_addresses_and_menus() {
    assert_eq!(validate_address("tools.codex"), Ok(()));
    assert_eq!(validate_address("  "), Err(AddressError::Empty));
    assert_eq!(validate_address("tools"), Err(AddressError::Format));
    assert_eq!(validate_address("tools..x"), Err(AddressError::EmptySegment));
    assert_eq!(validate_address("tools.a b"), Err(AddressError::SegmentInvalid));
    assert_eq!(validate_address("a b.."), Err(AddressError::SegmentInvalid));
    assert_eq!(AddressError::EmptySegment.key(), "address_empty_segment");
    assert_eq!(SettingsMenu::parse("roles"), Some(SettingsMenu::Roles));
    assert_eq!(SettingsMenu::parse("nope"), None);
    assert!(!SettingsMenu::WorkRules.is_stored());
    assert_eq!(normalize_workspace_path(" ws ", "/home/u"), Ok("/home/u/ws".to_string()));
    assert_eq!(normalize_workspace_path("/abs/ws", "/home/u"), Ok("/abs/ws".to_string()));
    assert_eq!(normalize_workspace_path("   ", "/home/u"), Err(WorkspacePathError::Empty));
}

#[test]
fn agent_prompts_for_requirement_phases() {
    let opt = build_optimize_messages("auth", "Auth", "Body");
    assert!(opt[0].content.contains("This directory is the requirement `auth` package. The requirement body is in `requirement.md`"));
    assert_eq!(opt[1].content, "Optimize requirement **Auth** (`auth`) now.\n\n---\n\nBody");
    let pkg = build_package_messages("/ws", "auth");
    assert!(pkg[0].content.contains("into `/ws/requirements/auth/release/artifacts` (create"));
    assert!(pkg[0].content.contains("summary to `/ws/requirements/auth/release/output.md` describing"));
    let start = build_start_messages("/ws", "auth");
    assert!(start[0].content.contains("`/ws/requirements/auth/release/run.md`"));
    let existing = vec![("test-001".to_string(), "Login".to_string(), "pending".to_string())];
    let split = build_split_test_messages("auth", "Auth", "Body", &existing, 2);
    assert!(split[0].content.contains("## Existing test tasks\n- test-001 — Login [pending]\n"));
    assert!(split[0].content.contains("Start numbering at 002 and increment."));
    let none = build_split_test_messages("auth", "Auth", "Body", &vec![], 1);
    assert!(none[0].content.contains("(none yet)\n"));
    assert_eq!(split[1].content, "Split requirement **Auth** (`auth`) into test tasks now.\n\n---\n\nBody");
    let exec = build_execute_test_messages("test-001", "Login", "Steps", "auth");
    assert!(exec[0].content.starts_with("You are executing a test task for requirement `auth`."));
    assert!(exec[0].content.contains("**Task ID:** test-001\n**Title:** Login"));
    assert!(exec[0].content.ends_with("End your reply with a single line `RESULT: pass` or `RESULT: fail`."));
}

#[test]
fn new_employees_are_checked() {
    assert_eq!(
        validate_new_employee(" Ada Lovelace ", " eng ", " dev ", None),
        Ok(("ada-lovelace".to_string(), "Ada Lovelace".to_string(), "eng".to_string(), "dev".to_string()))
    );
    assert_eq!(validate_new_employee("A", "e", "r", Some(" ADA ")).unwrap().0, "ada");
    assert_eq!(validate_new_employee(" ", "e", "r", None), Err(EmployeeError::NameEmpty));
    assert_eq!(validate_new_employee("A", "", "r", None), Err(EmployeeError::DepartmentEmpty));
    assert_eq!(validate_new_employee("A", "e", " ", None), Err(EmployeeError::RoleEmpty));
    assert_eq!(validate_new_employee("A", "e", "r", Some("a/b")), Err(EmployeeError::IdInvalid));
    let rec = |id: &str| EmployeeRecord {
        id: id.into(),
        name: id.into(),
        department: "d".into(),
        role: "r".into(),
        memory_file: String::new(),
    };
    let sorted = sort_employee_records(vec![rec("zed"), rec("amy"), rec("bob")]);
    let ids: Vec<&str> = sorted.iter().map(|e| e.id.as_str()).collect();
    assert_eq!(ids, vec!["amy", "bob", "zed"]);
}

#[test]
fn autonomy_contexts_list_todos() {
    let item = |title: &str, status: TodoStatus, req: Option<&str>| EmployeeTodoItem {
        id: title.into(),
        title: title.into(),
        description: String::new(),
        status,
        source: TodoSource::Requirement,
        requirement_id: req.map(String::from),
        requirement_phase: None,
        created_at_ms: 1,
        updated_at_ms: 1,
    };
    let items = vec![
        item("Done", TodoStatus::Completed, None),
        item("Next", TodoStatus::Pending, Some("auth")),
        item("Later", TodoStatus::Pending, None),
    ];
    assert_eq!(
        context_todos_text(&items, true),
        Some("- Next (source: Requirement) | requirement: auth\n- Later (source: Requirement)".to_string())
    );
    assert_eq!(
        context_todos_text(&items, false).unwrap(),
        "- [Completed] Done (source: Requirement)\n- [Pending] Next (source: Requirement) | requirement: auth\n- [Pending] Later (source: Requirement)"
    );
    assert_eq!(context_todos_text(&vec![item("Done", TodoStatus::Completed, None)], true), None);
    assert_eq!(context_todos_text(&vec![], false), None);
}

#[test]
fn clone_requests_name_their_directory() {
    let op = GitOperation::Clone { url: "https://example.com/r.git".into(), directory: Some("  ".into()) };
    let (dir, args) = clone_request(&op).unwrap();
    assert_eq!(dir, "clone");
    assert_eq!(args, vec!["clone".to_string(), "https://example.com/r.git".to_string(), "clone".to_string()]);
    let named = GitOperation::Clone { url: "u".into(), directory: Some("web".into()) };
    assert_eq!(clone_request(&named).unwrap().0, "web");
    assert!(clone_request(&GitOperation::Status).is_none());
}

#[test]
fn employees_with_the_same_id_keep_their_order() {
    let rec = |id: &str, name: &str| EmployeeRecord {
        id: id.into(),
        name: name.into(),
        department: "d".into(),
        role: "r".into(),
        memory_file: String::new(),
    };
    let sorted = sort_employee_records(vec![rec("x", "first"), rec("a", "a"), rec("x", "second"), rec("x", "third")]);
    let names: Vec<&str> = sorted.iter().map(|e| e.name.as_str()).collect();
    assert_eq!(names, vec!["a", "first", "second", "third"]);
}

#[test]
fn tree_entries_that_sort_alike_keep_their_order() {
    let e = |name: &str, dir: bool| TreeEntry { name: name.into(), path: name.into(), is_dir: dir, size: 0 };
    let out = sort_tree_entries(&vec![e("B", false), e("a", false), e("b", false), e(".git", true), e("src", true)]);
    let names: Vec<&str> = out.iter().map(|t| t.name.as_str()).collect();
    assert_eq!(names, vec!["src", "a", "B", "b"]);
}

#[test]
fn a_new_plan_queues_exactly_its_root_tasks() {
    let planner = Planner::new("/ws".into());
    let ctx = PlanningContext {
        title: "Plan".into(),
        description: "Desc".into(),
        trigger: PlanTrigger::Manual,
        tasks: vec![spec(Some("a"), vec![]), spec(Some("b"), vec!["a"]), spec(Some("c"), vec![])],
    };
    let (_plan, _tasks, mut graph) = planner.create_plan(ctx, 1000, &vec![0, 0, 0]).unwrap();
    assert_eq!(graph.ready_queue_len(), 2);
    assert_eq!(graph.get_task("a").unwrap().status, TaskStatus::Ready);
    assert_eq!(graph.get_task("b").unwrap().status, TaskStatus::Pending);
    let first = graph.pop_ready().unwrap();
    let second = graph.pop_ready().unwrap();
    let mut ids = vec![first.task_id, second.task_id];
    ids.sort();
    assert_eq!(ids, vec!["a".to_string(), "c".to_string()]);
    assert!(graph.pop_ready().is_none());
}

#[test]
fn without_a_worker_the_task_stays_queued() {
    let planner = Planner::new("/ws".into());
    let ctx = PlanningContext {
        title: "Plan".into(),
        description: "Desc".into(),
        trigger: PlanTrigger::Manual,
        tasks: vec![spec(Some("a"), vec![])],
    };
    let (_plan, _tasks, mut graph) = planner.create_plan(ctx, 1000, &vec![0]).unwrap();
    let config = SchedulerConfig { tick_interval_ms: 100, enable_preemption: true };
    assert!(matches!(schedule_next(&mut graph, &vec![], config), ScheduleOutcome::NoWorker));
    assert_eq!(graph.ready_queue_len(), 1);
    assert!(matches!(schedule_next(&mut graph, &vec![], config), ScheduleOutcome::NoWorker));
    assert_eq!(graph.pop_ready().unwrap().task_id, "a");
}

#[test]
fn git_operations_are_checked_before_running() {
    assert_eq!(operation_command(&GitOperation::Raw { args: vec![] }).unwrap_err(), GitError::ArgsEmpty);
    assert_eq!(
        operation_command(&GitOperation::Raw { args: vec!["-c".into(), "x=y".into(), "status".into()] }).unwrap_err(),
        GitError::ConfigInjectionDenied
    );
    assert_eq!(
        operation_command(&GitOperation::Status).unwrap(),
        vec!["status".to_string(), "--short".to_string(), "--branch".to_string()]
    );
}

#[test]
fn an_env_pinned_workspace_cannot_be_changed() {
    assert_eq!(check_workspace_change(WorkspaceSource::Env), Err("workspace_env_controlled"));
    assert_eq!(check_workspace_change(WorkspaceSource::Config), Ok(()));
    assert_eq!(WorkspaceSource::Env.as_str(), "env");
}
