use kaisha_server::requirement_development::{list_claimable_dev_tasks, ClaimCandidate, DevTaskStatus};
use std::hash::{Hash, Hasher};
use kaisha_server::employee_conversation_stream::diff_conversation;
use kaisha_server::employee::{employee_json_candidates, parse_agent_employee_output};
use kaisha_server::employee::{accept_profile, derive_employee_id, profile_from_text};
use kaisha_server::employee_todo::{normalize_todo_item, repair_unescaped_quotes_in_json, TodoItemDraft, TodoStatus};
use kaisha_server::git::explorer::{file_content, safe_rel_path, sort_tree_entries, TreeEntry};
use kaisha_server::git::registry::{ensure_main_repo, RegistryFile, MAIN_REPO_ID};
use kaisha_server::git::service::GitError;
use kaisha_server::requirement_agents::pick_employee_for_role;
use kaisha_server::requirement_release::build_release_wire;
use kaisha_server::requirement_testing::{default_test_assignee, test_status_of, test_task_id, test_task_title};
use kaisha_server::autonomy_task::WorkTaskStatus;
use kaisha_server::text::{lines_of, trimmed};

fn entry(name: &str, is_dir: bool) -> TreeEntry {
    TreeEntry { name: name.into(), path: name.into(), is_dir, size: 0 }
}

#[test]
fn safe_join_rejects_traversal() {
    assert!(safe_rel_path("../secret").is_err());
    assert!(safe_rel_path("../").is_err());
    assert_eq!(safe_rel_path(".git/config").unwrap_err(), GitError::PathInvalid);
}

#[test]
fn safe_rel_path_strips_leading_slashes() {
    assert_eq!(safe_rel_path("  //src/main.rs ").unwrap(), "src/main.rs");
    assert_eq!(safe_rel_path("").unwrap(), "");
    assert!(safe_rel_path("a/../b").is_err());
    assert_eq!(safe_rel_path("a/..b/.gitignore").unwrap(), "a/..b/.gitignore");
}

#[test]
fn list_tree_sorts_dirs_first_and_hides_git() {
    let raw = vec![entry("readme.md", false), entry(".git", true), entry("Apple.txt", false), entry("src", true)];
    let names: Vec<String> = sort_tree_entries(&raw).into_iter().map(|e| e.name).collect();
    assert_eq!(names, vec!["src".to_string(), "Apple.txt".to_string(), "readme.md".to_string()]);
}

#[test]
fn read_file_detects_binary() {
    let file = file_content("blob.bin".into(), 5, vec![0u8, 1, 2, 3, 0]);
    assert!(file.binary);
    assert!(file.content.is_empty());
    assert!(!file.truncated);
}

#[test]
fn read_file_replaces_invalid_utf8() {
    let file = file_content("t.txt".into(), 3, vec![b'o', b'k', 0xff]);
    assert!(!file.binary);
    assert_eq!(file.content, "ok\u{fffd}");
}

#[test]
fn read_file_cuts_large_files() {
    let size: u64 = 1_048_576 + 2;
    let bytes = vec![b'a'; size as usize];
    let file = file_content("big.txt".into(), size, bytes);
    assert!(file.truncated);
    assert_eq!(file.content.len(), 1_048_576);
}

#[test]
fn ensure_main_repo_creates_registry_and_git_dir() {
    let mut registry = RegistryFile::new_default();
    let (record, changed) = ensure_main_repo(&mut registry, 42);
    assert!(changed);
    assert_eq!(record.id, MAIN_REPO_ID);
    assert!(record.is_main);
    assert_eq!(registry.repos.len(), 1);
    let (again, changed_again) = ensure_main_repo(&mut registry, 43);
    assert!(!changed_again);
    assert_eq!(again.created_at_ms, 42);
}

#[test]
fn load_todos_repairs_unescaped_quotes_in_description() {
    let raw = r#"{
  "employee_id": "alice",
  "items": [
    {
      "id": "todo_1",
      "title": "Research elevation data",
      "description": "Evaluate sources. Prerequisite for "build terrain pipeline".",
      "status": "pending",
      "source": "manual",
      "created_at_ms": 1,
      "updated_at_ms": 1
    }
  ]
}"#;
    assert!(serde_json::from_str::<serde_json::Value>(raw).is_err());
    let repaired = repair_unescaped_quotes_in_json(raw);
    let v: serde_json::Value = serde_json::from_str(&repaired).expect("repaired json");
    let items = v["items"].as_array().unwrap();
    assert_eq!(items.len(), 1);
    assert!(items[0]["description"].as_str().unwrap().contains("build terrain pipeline"));
}

#[test]
fn repair_leaves_valid_json_alone() {
    let raw = r#"{"a": "b \"c\"", "d": [1, 2]}"#;
    assert_eq!(repair_unescaped_quotes_in_json(raw), raw);
}

#[test]
fn load_todos_repairs_items_missing_id() {
    let draft = TodoItemDraft {
        id: None,
        title: "T".into(),
        description: "D".into(),
        status: None,
        source: None,
        requirement_id: None,
        requirement_phase: None,
        created_at_ms: None,
        updated_at_ms: None,
    };
    let item = normalize_todo_item(draft, 77);
    assert!(!item.id.trim().is_empty());
    assert_eq!(item.status, TodoStatus::Pending);
    assert_eq!(item.created_at_ms, 77);
}

#[test]
fn picks_employee_matching_role_key() {
    let keys = vec![Some("product".to_string()), Some("engineering".to_string())];
    assert_eq!(pick_employee_for_role(2, Some(&keys), "engineering"), Some(1));
}

#[test]
fn falls_back_to_first_employee_when_no_role_match() {
    let keys = vec![Some("design".to_string())];
    assert_eq!(pick_employee_for_role(1, Some(&keys), "testing"), Some(0));
    assert_eq!(pick_employee_for_role(1, None, "testing"), Some(0));
}

#[test]
fn returns_none_without_employees() {
    let keys: Vec<Option<String>> = vec![];
    assert_eq!(pick_employee_for_role(0, Some(&keys), "product"), None);
}

#[test]
fn release_wire_reads_output_and_artifacts() {
    let wire = build_release_wire(
        "auth",
        Some("# Built\n\nok".into()),
        None,
        vec!["z.zip".into(), "app.tar.gz".into()],
    );
    assert!(wire.output.unwrap().contains("Built"));
    assert_eq!(wire.artifacts, vec!["app.tar.gz".to_string(), "z.zip".to_string()]);
    assert!(wire.run_log.is_none());
    let blank = build_release_wire("auth", Some("  \n".into()), Some("ran".into()), vec![]);
    assert!(blank.output.is_none());
    assert_eq!(blank.run_log.as_deref(), Some("ran"));
}

#[test]
fn reconcile_creates_work_tasks_from_md_files() {
    assert_eq!(test_task_id("test-001.md").as_deref(), Some("test-001"));
    assert_eq!(test_task_id("notes.txt"), None);
    assert_eq!(test_task_id(".md"), None);
    assert_eq!(test_task_title("# Login works\n\nSteps...", "test-001"), "Login works");
    assert_eq!(test_task_title("no heading", "test-002"), "test-002");
    assert_eq!(test_task_title("intro\n# #  \nmore", "test-003"), "test-003");
    assert_eq!(test_task_title("# # Nested\n", "t"), "Nested");
    assert_eq!(test_status_of(None, WorkTaskStatus::Pending), "pending");
    assert_eq!(test_status_of(None, WorkTaskStatus::InProgress), "running");
    assert_eq!(test_status_of(Some("completed".into()), WorkTaskStatus::Pending), "completed");
    assert_eq!(default_test_assignee(&vec![None, Some("qa".into()), Some("x".into())]), Some("qa".to_string()));
    assert_eq!(default_test_assignee(&vec![Some(" ".into()), Some("qa".into())]), None);
}

#[test]
fn employee_ids_and_profiles() {
    assert_eq!(derive_employee_id("Ada Lovelace").unwrap(), "ada-lovelace");
    assert_eq!(
        accept_profile(" Ada ", "Eng", " Dev "),
        Some(("Ada".to_string(), "Eng".to_string(), "Dev".to_string()))
    );
    assert_eq!(accept_profile("Ada", " ", "Dev"), None);
    assert_eq!(
        profile_from_text("Name: Ada\nDepartment: Eng\nRole: Dev"),
        Some(("Ada".to_string(), "Eng".to_string(), "Dev".to_string()))
    );
}

#[test]
fn trimming_twice_trims_once() {
    for s in ["  a b  ", "\u{3000}x\t", "", "   "] {
        let once = trimmed(s);
        assert_eq!(trimmed(&once), once);
        assert_eq!(once, s.trim());
    }
}

#[test]
fn lines_follow_str_lines() {
    for s in ["a\r\nb\n", "x", "", "\n\n", "a\nb"] {
        let ours = lines_of(s);
        let std_lines: Vec<String> = s.lines().map(|l| l.to_string()).collect();
        assert_eq!(ours, std_lines);
    }
}

fn msg(id: &str, content: &str) -> (String, u64) {
    let mut hasher = std::collections::hash_map::DefaultHasher::new();
    (id, content).hash(&mut hasher);
    (id.to_string(), hasher.finish())
}

#[test]
fn diff_detects_new_changed_and_skips_unchanged() {
    let prev: Vec<(String, u64)> = Vec::new();
    let m1 = msg("a", "hello");
    let d1 = diff_conversation(&prev, &vec![m1.clone()]);
    assert_eq!(d1.changed.len(), 1, "first sighting yields the message");

    let d2 = diff_conversation(&d1.snapshot, &vec![m1.clone()]);
    assert_eq!(d2.changed.len(), 0, "unchanged message is not re-sent");

    let m1b = msg("a", "hello world");
    let d3 = diff_conversation(&d2.snapshot, &vec![m1b.clone()]);
    assert_eq!(d3.changed, vec![0], "changed content is detected");

    let current = vec![m1b.clone(), msg("b", "second")];
    let d4 = diff_conversation(&d3.snapshot, &current);
    assert_eq!(d4.changed.len(), 1, "only the newly appended message is sent");
    assert_eq!(current[d4.changed[0]].0, "b");
}

#[test]
fn hire_prompt_names_the_head_count() {
    let prompt = kaisha_server::employee::build_hire_employee_prompt(3);
    assert!(prompt.contains("There are already 3 employees in the company."));
    assert!(prompt.contains("{\"name\": \"Full Name\", \"department\": \"department_name\", \"role\": \"Specific Role\"}"));
}

#[test]
fn agent_profile_prefers_json_then_text() {
    let output = "Sure:\n  {\"name\": \" Ada \", \"department\": \"eng\", \"role\": \"Dev\"}\nName: Bob\nDepartment: qa\nRole: Tester";
    let candidates = employee_json_candidates(output);
    assert_eq!(candidates.len(), 2);
    assert_eq!(candidates[0], "{\"name\": \" Ada \", \"department\": \"eng\", \"role\": \"Dev\"}");
    assert_eq!(candidates[1], output);
    let parsed: Vec<Option<(String, String, String)>> = candidates
        .iter()
        .map(|c| {
            let v: serde_json::Value = serde_json::from_str(c).ok()?;
            Some((
                v["name"].as_str()?.to_string(),
                v["department"].as_str()?.to_string(),
                v["role"].as_str()?.to_string(),
            ))
        })
        .collect();
    assert_eq!(
        parse_agent_employee_output(&parsed, output),
        Some(("Ada".to_string(), "eng".to_string(), "Dev".to_string()))
    );
    assert_eq!(
        parse_agent_employee_output(&vec![None, None], output),
        Some(("Bob".to_string(), "qa".to_string(), "Tester".to_string()))
    );
}

#[test]
fn dev_task_workdir_resolves_to_main_repo() {
    assert_eq!(kaisha_server::paths::dev_task_workdir("/ws"), "/ws/repos/main");
    assert_eq!(kaisha_server::paths::dev_task_workdir("/ws/"), "/ws/repos/main");
}

#[test]
fn build_dev_task_prompt_includes_task_info() {
    let prompt = kaisha_server::dev_task_executor::build_dev_task_prompt(
        "test-task-001",
        "Implement login feature",
        "Add OAuth2 login endpoint",
        Some("feat-login-001"),
        "test-req",
    );
    assert!(prompt.contains("Implement login feature"));
    assert!(prompt.contains("Add OAuth2 login endpoint"));
    assert!(prompt.contains("feat-login-001"));
    assert!(prompt.contains("test-req"));
}

#[test]
fn catalog_marks_in_progress_and_includes_excerpt() {
    let items = vec![kaisha_server::requirement::RequirementSummary {
        id: "feat-a".into(),
        title: "Feature A".into(),
        phase: kaisha_server::requirement::RequirementPhase::Collection,
        created_at_ms: 1,
        updated_at_ms: 2,
        dir_path: "requirements/feat-a".into(),
    }];
    let bodies = vec![Some("## Acceptance\n\nUser can log in.".to_string())];
    let catalog = kaisha_server::employee_requirement_agent::format_requirement_catalog(&items, &bodies);
    assert!(catalog.contains("feat-a"));
    assert!(catalog.contains("in_progress"));
    assert!(catalog.contains("User can log in"));
}

#[test]
fn build_messages_starts_with_system_and_ends_with_user() {
    let msgs = kaisha_server::employee_requirement_agent::build_requirement_agent_messages(
        "(no requirements)",
        "Add SSO support",
        &vec![],
    );
    assert_eq!(msgs.first().map(|m| m.role.as_str()), Some("system"));
    assert_eq!(msgs.last().map(|m| m.role.as_str()), Some("user"));
    assert!(msgs.last().unwrap().content.contains("Add SSO support"));
}

#[test]
fn list_branches_reports_current() {
    let list = kaisha_server::git::explorer::list_branches(
        true,
        Some("main".to_string()),
        Some("feature\nmain\n".to_string()),
        Some("origin/HEAD\norigin/main".to_string()),
    )
    .expect("branches");
    assert!(list.branches.iter().any(|b| b.current));
    assert_eq!(list.current, "main");
    assert!(list.branches.iter().any(|b| b.remote && b.name == "origin/main"));
    assert!(!list.branches.iter().any(|b| b.name == "origin/HEAD"));
    assert!(kaisha_server::git::explorer::list_branches(false, None, None, None).is_err());
}

#[test]
fn read_file_returns_content() {
    let file = file_content("hello.txt".into(), 11, b"hello world".to_vec());
    assert_eq!(file.content, "hello world");
    assert!(!file.binary);
    assert!(!file.truncated);
}

#[test]
fn find_requirement_id_matches_known_id() {
    let ctx = kaisha_server::intent::context::IntentContext::new(
        "/ws".into(),
        "alice".into(),
        vec!["auth".to_string()],
        vec!["alice".to_string()],
    );
    assert_eq!(ctx.find_requirement_id("对 auth 进行评审"), Some("auth".to_string()));
}

#[test]
fn list_claimable_dev_tasks_prioritizes_assigned_then_unassigned() {
    let make = |id: &str, assignee: Option<&str>, status: DevTaskStatus, pending: bool, at: u64| ClaimCandidate {
        id: id.into(),
        is_development: true,
        auto_executable: true,
        pending,
        dev_status: status,
        assignee: assignee.map(String::from),
        created_at_ms: at,
    };
    let candidates = vec![
        make("task-unassigned", None, DevTaskStatus::BranchCreated, true, 1),
        make("task-alice", Some("alice"), DevTaskStatus::BranchCreated, true, 2),
        make("task-bob", Some("bob"), DevTaskStatus::BranchCreated, true, 3),
        make("task-running", Some("alice"), DevTaskStatus::InDevelopment, false, 4),
    ];
    let (mine, open) = list_claimable_dev_tasks(candidates, "alice");
    let ids: Vec<&str> = mine.iter().chain(open.iter()).map(|t| t.id.as_str()).collect();
    assert_eq!(ids, vec!["task-alice", "task-unassigned"]);
}

fn msg_with_events(id: &str, content: &str, events: &[&str]) -> (String, u64) {
    let mut hasher = std::collections::hash_map::DefaultHasher::new();
    (id, content, events).hash(&mut hasher);
    (id.to_string(), hasher.finish())
}

#[test]
fn diff_detects_growing_stream_events() {
    let prev: Vec<(String, u64)> = Vec::new();
    let running = msg_with_events("p", "", &["a"]);
    let d1 = diff_conversation(&prev, &vec![running]);
    assert_eq!(d1.changed.len(), 1);
    let grown = msg_with_events("p", "", &["a", "b"]);
    let d2 = diff_conversation(&d1.snapshot, &vec![grown]);
    assert_eq!(d2.changed.len(), 1, "appended stream events count as an incremental change");
}

#[test]
fn repair_keeps_chinese_text_and_escapes_inner_quotes() {
    let raw = "{\"d\":\"说 \"好\" 的\"}";
    assert_eq!(repair_unescaped_quotes_in_json(raw), "{\"d\":\"说 \\\"好\\\" 的\"}");
    let valid = "{\"标题\": \"需求 \\\"一\\\"\", \"n\": 1}";
    assert_eq!(repair_unescaped_quotes_in_json(valid), valid);
}

#[test]
fn claimable_tasks_created_together_keep_their_order() {
    let make = |id: &str, assignee: Option<&str>, at: u64| ClaimCandidate {
        id: id.into(),
        is_development: true,
        auto_executable: true,
        pending: true,
        dev_status: DevTaskStatus::BranchCreated,
        assignee: assignee.map(String::from),
        created_at_ms: at,
    };
    let candidates = vec![
        make("late", None, 9),
        make("b", None, 5),
        make("mine-2", Some(" alice "), 3),
        make("a", None, 5),
        make("b", None, 5),
        make("mine-1", Some("alice"), 3),
    ];
    let (mine, open) = list_claimable_dev_tasks(candidates, "alice");
    let mine_ids: Vec<&str> = mine.iter().map(|t| t.id.as_str()).collect();
    let open_ids: Vec<&str> = open.iter().map(|t| t.id.as_str()).collect();
    assert_eq!(mine_ids, vec!["mine-2", "mine-1"]);
    assert_eq!(open_ids, vec!["b", "a", "b", "late"]);
}
