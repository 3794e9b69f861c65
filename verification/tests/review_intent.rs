use kaisha_server::agent_locale::{ensure_language_system_message, ToolChatMessage};
use kaisha_server::employee_chat::{
    assistant_message, conv_messages_to_prior, format_review_assistant_reply, map_process_error,
    count_kept_event, normalize_optional_text, sse_event_name, sse_sends_text, task_process_message, user_message,
    StreamEventKind,
};
use kaisha_server::employee_intent_router::{extract_requirement_id, IntentRouter, IntentType};
use kaisha_server::employee_requirement_agent::prior_conversation_context;
use kaisha_server::intent::context::IntentContext;
use kaisha_server::intent::detectors::{
    AutonomyRunDetector, DetectorKind, DevTaskCreateDetector, DevelopmentStartDetector, RequirementListDetector,
    ReviewIntentDetector,
};
use kaisha_server::intent::handlers::{
    create_default_router, DevTaskListHandler, GeneralChatHandler, RequirementListHandler, ReviewHandler, TaskRow,
    WorkTaskListHandler,
};
use kaisha_server::logging::{default_env_filter, resolve_log_filter};
use kaisha_server::requirement_review::{
    all_reviewers_passed, apply_opinion_user_action, derive_review_conclusion, detect_review_start_intent,
    opinion_item_status, parse_conclusion, parse_opinion_passed, reconcile_review_work_tasks, review_tally,
    OpinionItemStatus, OpinionUserAction, RequirementReviewWire, ReviewConclusion, ReviewError, ReviewOpinionWire,
    ReviewStateFile, ReviewStatus, ReviewTask,
};
use kaisha_server::shop_status::{toggle_shop_status, ShopStatus};

fn sample_opinion(employee_id: &str, status: OpinionItemStatus, passed: Option<bool>) -> ReviewOpinionWire {
    ReviewOpinionWire {
        task_id: format!("review-{employee_id}"),
        biz_type: "requirement".into(),
        biz_id: "r1".into(),
        employee_id: employee_id.into(),
        employee_name: employee_id.to_uppercase(),
        role: "r".into(),
        role_key: None,
        status,
        passed,
        content: None,
    }
}

fn sample_state(participants: Vec<&str>) -> ReviewStateFile {
    ReviewStateFile {
        requirement_id: "r1".into(),
        status: ReviewStatus::InProgress,
        started_at_ms: 0,
        completed_at_ms: None,
        conclusion: None,
        participants: participants.into_iter().map(String::from).collect(),
        current_reviewer_id: None,
        current_task: None,
        abandoned_participants: Vec::new(),
    }
}

fn empty_context() -> IntentContext {
    IntentContext {
        workspace: "/tmp".into(),
        employee_id: "emp-1".into(),
        known_requirement_ids: vec!["req-001".to_string(), "auth".to_string()],
        known_employee_ids: vec!["alice".to_string(), "bob".to_string()],
    }
}

#[test]
fn ensure_language_system_message_appends_to_existing_system_prompt() {
    let messages = vec![
        ToolChatMessage { role: "system".into(), content: "You are a planner.".into() },
        ToolChatMessage { role: "user".into(), content: "Plan work.".into() },
    ];
    let localized = ensure_language_system_message(messages, "zh");
    assert_eq!(localized.len(), 2);
    assert!(localized[0].content.contains("You are a planner."));
    assert!(localized[0].content.contains("简体中文"));
}

#[test]
fn ensure_language_system_message_inserts_system_prompt_when_missing() {
    let messages = vec![ToolChatMessage { role: "user".into(), content: "Run task.".into() }];
    let localized = ensure_language_system_message(messages, "ja");
    assert_eq!(localized.len(), 2);
    assert_eq!(localized[0].role, "system");
    assert!(localized[0].content.contains("日本語"));
}

#[test]
fn normalize_optional_text_trims_and_drops_empty() {
    assert_eq!(normalize_optional_text(Some("  hi  ".into())), Some("hi".into()));
    assert_eq!(normalize_optional_text(Some("   ".into())), None);
    assert_eq!(normalize_optional_text(None), None);
}

#[test]
fn map_process_error_maps_known_codes() {
    assert_eq!(map_process_error("chat_tool_missing"), "chat_tool_missing");
    assert_eq!(map_process_error("employee_not_found"), "employee_not_found");
    assert_eq!(map_process_error("something else"), "chat_tool_run_failed");
}

#[test]
fn format_review_assistant_reply_includes_conclusion_and_summary() {
    let review = RequirementReviewWire {
        requirement_id: "req-1".into(),
        status: ReviewStatus::Completed,
        started_at_ms: 0,
        completed_at_ms: Some(1),
        conclusion: Some(ReviewConclusion::Adopt),
        participants: vec![],
        opinions: vec![],
        summary: Some("All good".into()),
        passed_count: 1,
        failed_count: 0,
        pending_count: 0,
        undecided_count: 0,
        abandoned_count: 0,
        overall_passed: true,
    };
    let text = format_review_assistant_reply(&review);
    assert!(text.contains("req-1"));
    assert!(text.contains("adopt"));
    assert!(text.contains("All good"));
}

#[test]
fn extract_requirement_id_finds_known_id() {
    let ids = vec!["req-001".to_string(), "req-002".to_string()];
    assert_eq!(extract_requirement_id("对 req-001 开始评审", &ids), Some("req-001".to_string()));
}

#[test]
fn extract_requirement_id_returns_first_when_no_match() {
    let ids = vec!["req-001".to_string()];
    assert_eq!(extract_requirement_id("开始评审", &ids), Some("req-001".to_string()));
}

#[test]
fn extract_requirement_id_returns_none_for_empty_ids() {
    let ids: Vec<String> = vec![];
    assert!(extract_requirement_id("开始评审", &ids).is_none());
}

#[test]
fn intent_router_detects_with_confidence() {
    let ctx = IntentContext {
        workspace: "/tmp".into(),
        employee_id: "emp-1".into(),
        known_requirement_ids: vec!["req-001".to_string()],
        known_employee_ids: vec![],
    };
    let mut router = IntentRouter::new();
    router.register_detector(DetectorKind::Review);

    let detection = router.detect("开始评审 now", &ctx);
    assert!(detection.is_some());
    let detection = detection.unwrap();
    assert_eq!(detection.intent_type, IntentType::RequirementReview);
    assert_eq!(detection.confidence_permille, 900);

    assert!(router.detect("random text", &ctx).is_none());
}

#[test]
fn prior_context_skips_latest_message() {
    let rows = vec![
        ("user".to_string(), "a".to_string(), 1u64),
        ("assistant".to_string(), "b".to_string(), 2u64),
        ("user".to_string(), "latest".to_string(), 3u64),
    ];
    let prior = prior_conversation_context(&rows);
    assert_eq!(prior.len(), 2);
    assert!(!prior.iter().any(|(_, c)| c == "latest"));
}

#[test]
fn review_detector_matches_trigger() {
    let ctx = empty_context();
    let result = ReviewIntentDetector.detect("对 auth 开始评审", &ctx);
    assert!(result.is_some());
    assert_eq!(result.as_ref().unwrap().intent_type, IntentType::RequirementReview);
    assert_eq!(result.as_ref().unwrap().requirement_id, Some("auth".to_string()));
}

#[test]
fn requirement_list_detector_matches() {
    let ctx = empty_context();
    let result = RequirementListDetector.detect("列出所有需求", &ctx);
    assert!(result.is_some());
    assert_eq!(result.as_ref().unwrap().intent_type, IntentType::RequirementList);
}

#[test]
fn development_start_detector_matches() {
    let ctx = empty_context();
    let result = DevelopmentStartDetector.detect("开始开发 req-001", &ctx);
    assert!(result.is_some());
    assert_eq!(result.as_ref().unwrap().intent_type, IntentType::DevelopmentStart);
}

#[test]
fn dev_task_create_detector_matches() {
    let ctx = empty_context();
    let result = DevTaskCreateDetector.detect("创建一个任务", &ctx);
    assert!(result.is_some());
    assert_eq!(result.as_ref().unwrap().intent_type, IntentType::DevTaskCreate);
}

#[test]
fn autonomy_run_detector_matches() {
    let ctx = empty_context();
    let result = AutonomyRunDetector.detect("自主运行", &ctx);
    assert!(result.is_some());
    assert_eq!(result.as_ref().unwrap().intent_type, IntentType::AutonomyRun);
}

#[test]
fn detectors_return_none_for_non_matching_input() {
    let ctx = empty_context();
    assert!(ReviewIntentDetector.detect("随便聊聊", &ctx).is_none());
    assert!(RequirementListDetector.detect("今天天气不错", &ctx).is_none());
    assert!(DevelopmentStartDetector.detect("吃了吗", &ctx).is_none());
}

#[test]
fn general_chat_handler_returns_default_result() {
    let handler = GeneralChatHandler;
    assert_eq!(handler.error_key("no_enabled_coding_tool"), "chat_tool_missing");
}

#[test]
fn review_handler_exists() {
    let _handler = ReviewHandler;
}

#[test]
fn requirement_list_handler_exists() {
    let _handler = RequirementListHandler;
}

#[test]
fn create_default_router_has_detectors() {
    let router = create_default_router();
    let ctx = IntentContext {
        workspace: "/tmp".into(),
        employee_id: "emp-1".into(),
        known_requirement_ids: vec!["req-001".to_string()],
        known_employee_ids: vec!["alice".to_string()],
    };
    let result = router.detect("对 req-001 开始评审", &ctx);
    assert!(result.is_some());
    assert_eq!(result.unwrap().intent_type, IntentType::RequirementReview);

    let result = router.detect("列出需求", &ctx);
    assert!(result.is_some());
    assert_eq!(result.unwrap().intent_type, IntentType::RequirementList);

    assert!(router.detect("随便聊聊", &ctx).is_none());
}

#[test]
fn default_env_filter_targets_server_debug() {
    assert!(default_env_filter().contains("server=debug"));
}

#[test]
fn resolve_log_filter_prefers_kaisha_log() {
    assert_eq!(resolve_log_filter(Some("debug"), Some("warn")), "debug");
}

#[test]
fn resolve_log_filter_falls_back_to_rust_log() {
    assert_eq!(resolve_log_filter(None, Some("warn")), "warn");
}

#[test]
fn resolve_log_filter_uses_default_when_unset() {
    assert_eq!(resolve_log_filter(None, None), default_env_filter());
}

#[test]
fn detects_review_intent_with_id() {
    let ids = vec!["sso-login".to_string()];
    assert_eq!(detect_review_start_intent("请对 sso-login 进入需求评审", &ids).as_deref(), Some("sso-login"));
}

#[test]
fn parses_conclusion_from_summary() {
    assert_eq!(parse_conclusion("done\n\nCONCLUSION: adopt"), Some(ReviewConclusion::Adopt));
    assert_eq!(parse_conclusion("CONCLUSION: supplement"), Some(ReviewConclusion::Supplement));
}

#[test]
fn parses_opinion_passed_from_recommendation() {
    assert_eq!(parse_opinion_passed("## Recommendation\napprove"), Some(true));
    assert_eq!(parse_opinion_passed("Recommendation: needs change"), Some(false));
}

#[test]
fn parses_recommendation_block_with_reject_line() {
    assert_eq!(parse_opinion_passed("## Recommendation\nreject"), Some(false));
}

#[test]
fn detects_review_intent_without_explicit_id_when_only_one() {
    let ids = vec!["only-req".to_string()];
    assert_eq!(detect_review_start_intent("开始需求评审", &ids).as_deref(), Some("only-req"));
}

#[test]
fn detects_english_review_trigger() {
    let ids = vec!["feat-x".to_string()];
    assert_eq!(detect_review_start_intent("run requirement review for feat-x", &ids).as_deref(), Some("feat-x"));
}

#[test]
fn opinion_item_status_reflects_current_reviewer() {
    let state = ReviewStateFile {
        requirement_id: "r1".to_string(),
        status: ReviewStatus::InProgress,
        started_at_ms: 0,
        completed_at_ms: None,
        conclusion: None,
        participants: vec!["e1".into(), "e2".into()],
        current_reviewer_id: Some("e2".into()),
        current_task: Some(ReviewTask::Opinion),
        abandoned_participants: vec![],
    };
    assert_eq!(opinion_item_status(&state, "e1", true), OpinionItemStatus::Completed);
    assert_eq!(opinion_item_status(&state, "e2", false), OpinionItemStatus::InProgress);
    assert_eq!(opinion_item_status(&state, "e1", false), OpinionItemStatus::Pending);
}

#[test]
fn opinion_item_status_revising_when_adjusting_requirement() {
    let state = ReviewStateFile {
        requirement_id: "r1".to_string(),
        status: ReviewStatus::InProgress,
        started_at_ms: 0,
        completed_at_ms: None,
        conclusion: None,
        participants: vec!["e1".into()],
        current_reviewer_id: Some("e1".into()),
        current_task: Some(ReviewTask::Revise),
        abandoned_participants: vec![],
    };
    assert_eq!(opinion_item_status(&state, "e1", true), OpinionItemStatus::Revising);
}

#[test]
fn review_tally_counts_pass_and_fail() {
    let opinions = vec![
        sample_opinion("a", OpinionItemStatus::Completed, Some(true)),
        sample_opinion("b", OpinionItemStatus::Completed, Some(false)),
    ];
    let tally = review_tally(&opinions);
    assert_eq!(tally.passed, 1);
    assert_eq!(tally.failed, 1);
}

#[test]
fn overall_pass_requires_every_active_reviewer_approved() {
    let state = sample_state(vec!["a"]);
    let ok = vec![sample_opinion("a", OpinionItemStatus::Completed, Some(true))];
    assert!(all_reviewers_passed(&ok, &state));
    assert_eq!(derive_review_conclusion(&ok, &state), Some(ReviewConclusion::Adopt));

    let state2 = sample_state(vec!["a", "b"]);
    let mixed = vec![
        sample_opinion("a", OpinionItemStatus::Completed, Some(true)),
        sample_opinion("b", OpinionItemStatus::Completed, Some(false)),
    ];
    assert!(!all_reviewers_passed(&mixed, &state2));
    assert_eq!(derive_review_conclusion(&mixed, &state2), Some(ReviewConclusion::Supplement));
}

#[test]
fn abandoned_participant_does_not_block_overall_pass() {
    let mut state = sample_state(vec!["a", "b"]);
    state.abandoned_participants.push("b".into());
    let opinions = vec![sample_opinion("a", OpinionItemStatus::Completed, Some(true))];
    assert!(all_reviewers_passed(&opinions, &state));
}

#[test]
fn default_status_is_open() {
    let status = ShopStatus::default();
    assert!(status.is_open);
}

// ---- further cases of this library ----

#[test]
fn toggle_switches_status() {
    let open = ShopStatus::default();
    let closed = toggle_shop_status(open, 7);
    assert!(!closed.is_open);
    assert_eq!(closed.toggled_at_ms, 7);
    assert!(toggle_shop_status(closed, 8).is_open);
}

#[test]
fn opinion_action_refusals() {
    let mut state = sample_state(vec!["a"]);
    assert_eq!(apply_opinion_user_action(&mut state, "z", OpinionUserAction::Pass, false), Err(ReviewError::NotParticipant));
    assert_eq!(apply_opinion_user_action(&mut state, "a", OpinionUserAction::Pass, true), Err(ReviewError::OpinionBusy));
    assert_eq!(ReviewError::OpinionBusy.key(), "review_opinion_busy");
    assert_eq!(ReviewError::NotStarted.http_status(), 404);
}

#[test]
fn abandon_then_rerun_restores_reviewer() {
    let mut state = sample_state(vec!["a", "b"]);
    state.status = ReviewStatus::Completed;
    state.conclusion = Some(ReviewConclusion::Adopt);
    apply_opinion_user_action(&mut state, "b", OpinionUserAction::Abandon, false).unwrap();
    assert_eq!(state.abandoned_participants, vec!["b".to_string()]);
    assert_eq!(state.status, ReviewStatus::InProgress);
    assert!(state.conclusion.is_none());
    apply_opinion_user_action(&mut state, "b", OpinionUserAction::Abandon, false).unwrap();
    assert_eq!(state.abandoned_participants, vec!["b".to_string()]);
    apply_opinion_user_action(&mut state, "b", OpinionUserAction::Rerun, false).unwrap();
    assert!(state.abandoned_participants.is_empty());
}

#[test]
fn reconcile_gives_each_reviewer_a_status() {
    let mut state = sample_state(vec!["a", "b", "c"]);
    state.abandoned_participants.push("c".into());
    state.current_reviewer_id = Some("b".into());
    state.current_task = Some(ReviewTask::Revise);
    let contents = vec![Some("Recommendation: approve".to_string()), None, None];
    let syncs = reconcile_review_work_tasks(&state, &contents);
    assert_eq!(syncs.len(), 3);
    assert_eq!(syncs[0].opinion_status, OpinionItemStatus::Completed);
    assert_eq!(syncs[0].passed, Some(true));
    assert_eq!(syncs[0].progress, 100);
    assert_eq!(syncs[1].opinion_status, OpinionItemStatus::Revising);
    assert_eq!(syncs[1].phase, ReviewTask::Revise);
    assert_eq!(syncs[2].opinion_status, OpinionItemStatus::Abandoned);
}

fn row(id: &str, assignee: Option<&str>, kind: Option<&str>) -> TaskRow {
    TaskRow {
        id: id.into(),
        title: format!("T {id}"),
        status: "in_progress".into(),
        progress: 40,
        assignee: assignee.map(|a| a.to_string()),
        task_kind: kind.map(|k| k.to_string()),
    }
}

#[test]
fn dev_task_list_reply_lists_each_task() {
    let h = DevTaskListHandler;
    assert_eq!(h.reply("r9", &vec![]), "需求 `r9` 当前没有开发任务。");
    let out = h.reply("r9", &vec![row("t1", Some("e1"), None), row("t2", None, None)]);
    assert_eq!(
        out,
        "## 开发任务列表: r9\n\n- **T t1** (ID: `t1`) — 状态: in_progress, 进度: 40%, 负责人: e1\n\
         - **T t2** (ID: `t2`) — 状态: in_progress, 进度: 40%, 负责人: 未分配\n"
    );
}

#[test]
fn work_task_list_reply_filters_by_employee() {
    let h = WorkTaskListHandler;
    let tasks = vec![row("t1", Some("e1"), Some("development")), row("t2", Some("e2"), None)];
    assert_eq!(
        h.reply("e2", &tasks),
        "## 工作任务列表\n\n- **T t2** (ID: `t2`) — 状态: in_progress, 进度: 40%, 负责人: e2, 类型: unknown\n"
    );
    let all = h.reply("", &tasks);
    assert!(all.contains("类型: development"));
    assert!(all.contains("(ID: `t2`)"));
    assert_eq!(h.reply("e3", &tasks), "员工 `e3` 当前没有任务。");
    assert_eq!(h.reply("", &vec![]), "当前没有工作任务。");
}

#[test]
fn a_chat_turn_records_the_trimmed_post_and_the_reply() {
    assert_eq!(user_message("   ", 5, None, None).unwrap_err(), "chat_prompt_empty");
    let m = user_message("  hello \n", 5, Some("Ann".into()), None).unwrap();
    assert_eq!(m.id, "msg_user_5");
    assert_eq!(m.role, "user");
    assert_eq!(m.content, "hello");
    assert_eq!(m.sender_name.as_deref(), Some("Ann"));
    let a = assistant_message("done", 6);
    assert_eq!(a.id, "msg_assistant_6");
    assert_eq!(a.role, "assistant");
    assert_eq!(a.content, "done");
    let p = task_process_message(7);
    assert_eq!(p.role, "task_process");
    assert_eq!(p.task_status.as_deref(), Some("running"));
    assert!(p.content.is_empty());
    let prior = conv_messages_to_prior(&vec![m, a, p]);
    assert_eq!(prior, vec![("user".to_string(), "hello".to_string()), ("assistant".to_string(), "done".to_string())]);
}

#[test]
fn stream_events_are_forwarded_by_kind_and_saved_in_batches() {
    assert_eq!(sse_event_name(StreamEventKind::AssistantText), "delta");
    assert_eq!(sse_event_name(StreamEventKind::Raw), "delta");
    assert_eq!(sse_event_name(StreamEventKind::ToolUse), "tool_use");
    assert_eq!(sse_event_name(StreamEventKind::Result), "result");
    assert!(sse_sends_text(StreamEventKind::Raw));
    assert!(!sse_sends_text(StreamEventKind::Thinking));
    assert_eq!(count_kept_event(0, 1), (true, 0));
    assert_eq!(count_kept_event(0, 3), (false, 1));
    assert_eq!(count_kept_event(2, 3), (true, 0));
}

#[test]
fn lowered_text_is_read_the_same_way() {
    use_lowered_counterparts();
}

fn use_lowered_counterparts() {
    use_review_counterparts();
    use_router_counterparts();
}

fn use_review_counterparts() {
    assert_eq!(
        kaisha_server::requirement_review::conclusion_of_lowered("conclusion: adopt"),
        Some(ReviewConclusion::Adopt)
    );
    assert_eq!(kaisha_server::requirement_review::keyword_verdict_of("需修改"), Some(false));
    assert_eq!(kaisha_server::requirement_review::keyword_verdict_of("recommendation: approve"), Some(true));
    let lines = vec!["## recommendation".to_string(), "".to_string(), "approve".to_string()];
    assert_eq!(kaisha_server::requirement_review::opinion_verdict_lowered(&lines, "needs change"), Some(true));
    let ids = vec!["r1".to_string(), "r2".to_string()];
    assert_eq!(
        kaisha_server::requirement_review::review_start_lowered("START requirement review r2", "start requirement review r2", &ids),
        Some("r2".to_string())
    );
    assert_eq!(kaisha_server::requirement_review::review_start_lowered("hi", "hi", &ids), None);
    assert_eq!(
        kaisha_server::autonomy::legacy::phase_named("testing"),
        kaisha_server::requirement::RequirementPhase::Testing
    );
    assert_eq!(
        kaisha_server::requirement_development::DevTaskStatus::from_lowered_status("merged"),
        kaisha_server::requirement_development::DevTaskStatus::Merged
    );
    assert_eq!(kaisha_server::git::slugify_lowered("--my repo!--", 7), "my-repo");
    assert_eq!(kaisha_server::git::slugify_lowered("!!!", 7), "repo-7");
    assert_eq!(kaisha_server::employee::check_lowered_employee_id("alice_1".into()).unwrap(), "alice_1");
}

fn use_router_counterparts() {
    let ctx = IntentContext::new("/ws".into(), "emp-1".into(), vec!["req-001".to_string()], vec!["alice".to_string()]);
    let router = create_default_router();
    let d = router.detect_lowered("对 REQ-001 开始评审", "对 req-001 开始评审", &ctx).unwrap();
    assert_eq!(d.intent_type, IntentType::RequirementReview);
    assert!(router.detect_lowered("随便聊聊", "随便聊聊", &ctx).is_none());
    let one = kaisha_server::intent::detectors::detect_lowered(DetectorKind::RequirementList, "列出需求", "列出需求", &ctx);
    assert_eq!(one.unwrap().intent_type, IntentType::RequirementList);
}

#[test]
fn runs_no_longer_followed_are_marked_failed() {
    let mut running = kaisha_server::employee_chat::task_process_message(1);
    running.task_id = Some("t-gone".into());
    let mut alive = kaisha_server::employee_chat::task_process_message(2);
    alive.task_id = Some("t-live".into());
    let done = kaisha_server::employee_chat::assistant_message("ok", 3);
    let (msgs, ids) =
        kaisha_server::employee_chat::mark_crashed_runs(vec![running, alive, done], &vec!["t-live".to_string()]);
    assert_eq!(ids, vec!["t-gone".to_string()]);
    assert_eq!(msgs[0].task_status.as_deref(), Some("failed"));
    assert_eq!(msgs[1].task_status.as_deref(), Some("running"));
    assert_eq!(msgs[2].task_status, None);
    assert_eq!(msgs[2].content, "ok");
}

#[test]
fn dev_state_defaults_fill_blank_fields() {
    use_dev_state_defaults();
}

fn use_dev_state_defaults() {
    let draft = kaisha_server::requirement_development::DevStateDraft {
        requirement_id: Some("  ".into()),
        feature_branch: None,
        feature_branch_created: None,
        current_task_id: Some("t1".into()),
        milestone: None,
        milestone_phase: None,
    };
    let st = kaisha_server::requirement_development::dev_state_from_draft(draft, "auth");
    assert_eq!(st.requirement_id, "auth");
    assert_eq!(st.feature_branch, "feat-auth");
    assert!(!st.feature_branch_created);
    assert_eq!(st.current_task_id.as_deref(), Some("t1"));
}

#[test]
fn a_finished_run_closes_its_process_message() {
    let m = kaisha_server::employee_chat::task_process_message(1);
    let done = kaisha_server::employee_chat::finish_task_process(m, Ok(("t1".into(), "out".into())));
    assert_eq!(done.task_id.as_deref(), Some("t1"));
    assert_eq!(done.task_status.as_deref(), Some("completed"));
    assert_eq!(done.content, "out");
    let mut kept = kaisha_server::employee_chat::task_process_message(2);
    kept.content = "streamed".into();
    let kept = kaisha_server::employee_chat::finish_task_process(kept, Ok(("t2".into(), "out".into())));
    assert_eq!(kept.content, "streamed");
    let m = kaisha_server::employee_chat::task_process_message(3);
    let failed = kaisha_server::employee_chat::finish_task_process(m, Err("boom".into()));
    assert_eq!(failed.task_status.as_deref(), Some("failed"));
    assert_eq!(failed.content, "boom");
    assert_eq!(failed.task_id, None);
}
