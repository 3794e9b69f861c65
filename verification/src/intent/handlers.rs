use vstd::prelude::*;
use crate::employee_chat::format_review_assistant_reply;
use crate::employee_intent_router::{IntentRouter, IntentType};
use crate::intent::detectors::DetectorKind;
use crate::requirement::{RequirementDetail, RequirementPhase, RequirementSummary};
use crate::requirement_review::RequirementReviewWire;
use crate::text::{chars_of, decimal, same_text, string_from_chars, u64_to_decimal};

verus! {

/// How many characters of a reply its preview keeps.
pub const PREVIEW_CHARS: usize = 2000;

/// The preview of a reply: its first characters.
pub fn output_preview(output: &str) -> (r: String)
    ensures
        r@ == (if output@.len() <= PREVIEW_CHARS { output@ } else { output@.take(PREVIEW_CHARS as int) }),
{
    let v = chars_of(output);
    if v.len() <= PREVIEW_CHARS {
        return output.to_owned();
    }
    let mut head: Vec<char> = Vec::new();
    let mut i: usize = 0;
    while i < PREVIEW_CHARS
        invariant
            i <= PREVIEW_CHARS < v@.len(),
            head@ == v@.take(i as int),
        decreases PREVIEW_CHARS - i,
    {
        head.push(v[i]);
        assert(v@.take(i + 1) =~= v@.take(i as int).push(v@[i as int]));
        i = i + 1;
    }
    string_from_chars(&head)
}

/// Answers a request for a requirement review.
#[derive(Debug, Clone, Copy)]
pub struct ReviewHandler;

impl ReviewHandler {
    /// The reply once the review ran.
    pub fn reply(&self, review: &RequirementReviewWire) -> (r: String)
        ensures
            r@ == "Requirement review completed for `"@ + review.requirement_id@ + "`.\n\n**Conclusion:** "@
                + crate::employee_chat::conclusion_name(review.conclusion) + "\n\n## Summary\n\n"@ + match review.summary {
                Some(s) => s@,
                None => "(no summary file)"@,
            },
    {
        format_review_assistant_reply(review)
    }
}

/// The lines of the requirement list.
pub open spec fn requirement_lines(items: Seq<RequirementSummary>) -> Seq<char>
    decreases items.len(),
{
    if items.len() == 0 {
        seq![]
    } else {
        let s = items.last();
        requirement_lines(items.drop_last()) + "- **"@ + s.title@ + "** (ID: `"@ + s.id@ + "`) — 阶段: "@ + s.phase.text()
            + "\n"@
    }
}

/// Answers a request for the list of requirements.
#[derive(Debug, Clone, Copy)]
pub struct RequirementListHandler;

impl RequirementListHandler {
    /// The reply listing `summaries`: each with title, id and phase, then
    /// their number; a note when there are none.
    pub fn reply(&self, summaries: &Vec<RequirementSummary>) -> (r: String)
        ensures
            summaries@.len() == 0 ==> r@ == "当前没有需求记录。请先创建需求。"@,
            summaries@.len() > 0 ==> r@ == "## 当前需求列表\n\n"@ + requirement_lines(summaries@) + "\n共 "@
                + decimal(summaries@.len()) + " 个需求。"@,
    {
        if summaries.len() == 0 {
            return "当前没有需求记录。请先创建需求。".to_owned();
        }
        let mut out = "## 当前需求列表\n\n".to_owned();
        let ghost head = out@;
        let mut i: usize = 0;
        proof {
            assert(summaries@.take(0) =~= Seq::<RequirementSummary>::empty());
            assert(out@ =~= head + requirement_lines(summaries@.take(0)));
        }
        while i < summaries.len()
            invariant
                i <= summaries@.len(),
                out@ == head + requirement_lines(summaries@.take(i as int)),
            decreases summaries@.len() - i,
        {
            proof {
                assert(summaries@.take(i + 1).drop_last() =~= summaries@.take(i as int));
            }
            let s = &summaries[i];
            let ghost before = out@;
            out.append("- **");
            out.append(s.title.as_str());
            out.append("** (ID: `");
            out.append(s.id.as_str());
            out.append("`) — 阶段: ");
            out.append(s.phase.as_str());
            out.append("\n");
            assert(out@ =~= before + ("- **"@ + s.title@ + "** (ID: `"@ + s.id@ + "`) — 阶段: "@ + s.phase.text() + "\n"@));
            i = i + 1;
        }
        proof {
            assert(summaries@.take(summaries@.len() as int) =~= summaries@);
        }
        out.append("\n共 ");
        let n = u64_to_decimal(summaries.len() as u64);
        out.append(n.as_str());
        out.append(" 个需求。");
        out
    }
}

/// Answers a request for a requirement's detail.
#[derive(Debug, Clone, Copy)]
pub struct RequirementDetailHandler;

impl RequirementDetailHandler {
    /// The reply showing a requirement's title, id, phase, creation time and body.
    pub fn reply(&self, detail: &RequirementDetail) -> (r: String)
        ensures
            r@ == "## 需求详情: "@ + detail.title@ + "\n\n**ID:** `"@ + detail.id@ + "`\n**阶段:** "@ + detail.phase.text()
                + "\n**创建时间:** "@ + decimal(detail.created_at_ms as nat) + "\n\n"@ + detail.content@ + "\n"@,
    {
        let mut out = "## 需求详情: ".to_owned();
        out.append(detail.title.as_str());
        out.append("\n\n**ID:** `");
        out.append(detail.id.as_str());
        out.append("`\n**阶段:** ");
        out.append(detail.phase.as_str());
        out.append("\n**创建时间:** ");
        let t = u64_to_decimal(detail.created_at_ms);
        out.append(t.as_str());
        out.append("\n\n");
        out.append(detail.content.as_str());
        out.append("\n");
        out
    }
}

/// Answers a request to start development.
#[derive(Debug, Clone, Copy)]
pub struct DevelopmentStartHandler;

impl DevelopmentStartHandler {
    /// The reply once development started on a feature branch.
    pub fn reply(&self, requirement_id: &str, feature_branch: &str, task_count: u64) -> (r: String)
        ensures
            r@ == "已为需求 `"@ + requirement_id@ + "` 开始开发。\n\n**特性分支:** `"@ + feature_branch@ + "`\n**当前任务数:** "@
                + decimal(task_count as nat) + "\n\n如果有可执行的任务，员工将自主开始工作。"@,
    {
        let mut out = "已为需求 `".to_owned();
        out.append(requirement_id);
        out.append("` 开始开发。\n\n**特性分支:** `");
        out.append(feature_branch);
        out.append("`\n**当前任务数:** ");
        let n = u64_to_decimal(task_count);
        out.append(n.as_str());
        out.append("\n\n如果有可执行的任务，员工将自主开始工作。");
        out
    }
}

/// A work task as a task list shows it.
#[derive(Debug)]
pub struct TaskRow {
    pub id: String,
    pub title: String,
    pub status: String,
    pub progress: u8,
    pub assignee: Option<String>,
    pub task_kind: Option<String>,
}

/// Who a task list names as a task's assignee.
pub open spec fn assignee_text(a: Option<String>) -> Seq<char> {
    match a {
        Some(x) => x@,
        None => "未分配"@,
    }
}

/// The list line of task `t`, with its kind when `with_kind`.
pub open spec fn task_row_line(t: TaskRow, with_kind: bool) -> Seq<char> {
    "- **"@ + t.title@ + "** (ID: `"@ + t.id@ + "`) — 状态: "@ + t.status@ + ", 进度: "@ + decimal(t.progress as nat)
        + "%, 负责人: "@ + assignee_text(t.assignee) + (if with_kind {
        ", 类型: "@ + match t.task_kind {
            Some(k) => k@,
            None => "unknown"@,
        }
    } else {
        seq![]
    }) + "\n"@
}

/// The list lines of the tasks of `ts`.
pub open spec fn task_row_lines(ts: Seq<TaskRow>, with_kind: bool) -> Seq<char>
    decreases ts.len(),
{
    if ts.len() == 0 {
        seq![]
    } else {
        task_row_lines(ts.drop_last(), with_kind) + task_row_line(ts.last(), with_kind)
    }
}

/// The list line of task `t`.
fn task_row_text(t: &TaskRow, with_kind: bool) -> (r: String)
    ensures
        r@ == task_row_line(*t, with_kind),
{
    let mut out = "- **".to_owned();
    out.append(t.title.as_str());
    out.append("** (ID: `");
    out.append(t.id.as_str());
    out.append("`) — 状态: ");
    out.append(t.status.as_str());
    out.append(", 进度: ");
    let p = u64_to_decimal(t.progress as u64);
    out.append(p.as_str());
    out.append("%, 负责人: ");
    match &t.assignee {
        Some(a) => out.append(a.as_str()),
        None => out.append("未分配"),
    }
    if with_kind {
        out.append(", 类型: ");
        match &t.task_kind {
            Some(k) => out.append(k.as_str()),
            None => out.append("unknown"),
        }
    }
    out.append("\n");
    out
}

/// The list lines of `tasks`.
fn task_rows_text(tasks: &Vec<TaskRow>, with_kind: bool) -> (r: String)
    ensures
        r@ == task_row_lines(tasks@, with_kind),
{
    let mut out = String::new();
    let mut i: usize = 0;
    while i < tasks.len()
        invariant
            i <= tasks@.len(),
            out@ == task_row_lines(tasks@.take(i as int), with_kind),
        decreases tasks@.len() - i,
    {
        proof {
            assert(tasks@.take(i + 1).drop_last() =~= tasks@.take(i as int));
            assert(tasks@.take(i + 1).last() == tasks@[i as int]);
        }
        let line = task_row_text(&tasks[i], with_kind);
        out.append(line.as_str());
        i = i + 1;
    }
    proof {
        assert(tasks@.take(tasks@.len() as int) =~= tasks@);
    }
    out
}

/// Answers a request for a requirement's development tasks.
#[derive(Debug, Clone, Copy)]
pub struct DevTaskListHandler;

impl DevTaskListHandler {
    /// The reply listing requirement `requirement_id`'s development tasks; a
    /// note when it has none.
    pub fn reply(&self, requirement_id: &str, tasks: &Vec<TaskRow>) -> (r: String)
        ensures
            tasks@.len() == 0 ==> r@ == "需求 `"@ + requirement_id@ + "` 当前没有开发任务。"@,
            tasks@.len() > 0 ==> r@ == "## 开发任务列表: "@ + requirement_id@ + "\n\n"@ + task_row_lines(tasks@, false),
    {
        if tasks.len() == 0 {
            let mut out = "需求 `".to_owned();
            out.append(requirement_id);
            out.append("` 当前没有开发任务。");
            return out;
        }
        let mut out = "## 开发任务列表: ".to_owned();
        out.append(requirement_id);
        out.append("\n\n");
        let rows = task_rows_text(tasks, false);
        out.append(rows.as_str());
        out
    }
}

/// Whether a task list for `employee_id` shows task `t`: every task when no
/// employee is named, else the tasks assigned to them.
pub open spec fn shows_task(t: TaskRow, employee_id: Seq<char>) -> bool {
    employee_id.len() == 0 || (t.assignee matches Some(a) && a@ == employee_id)
}

/// The tasks of `ts` that a task list for `employee_id` shows.
pub open spec fn shown_tasks(ts: Seq<TaskRow>, employee_id: Seq<char>) -> Seq<TaskRow>
    decreases ts.len(),
{
    if ts.len() == 0 {
        seq![]
    } else if shows_task(ts.last(), employee_id) {
        shown_tasks(ts.drop_last(), employee_id).push(ts.last())
    } else {
        shown_tasks(ts.drop_last(), employee_id)
    }
}

/// Answers a request for an employee's work tasks.
#[derive(Debug, Clone, Copy)]
pub struct WorkTaskListHandler;

impl WorkTaskListHandler {
    /// The reply listing the work tasks of employee `employee_id` (of everyone
    /// when it is empty), with their kinds; a note when there are none.
    pub fn reply(&self, employee_id: &str, tasks: &Vec<TaskRow>) -> (r: String)
        ensures
            shown_tasks(tasks@, employee_id@).len() == 0 ==> r@ == (if employee_id@.len() == 0 {
                "当前没有工作任务。"@
            } else {
                "员工 `"@ + employee_id@ + "` 当前没有任务。"@
            }),
            shown_tasks(tasks@, employee_id@).len() > 0 ==> r@ == "## 工作任务列表\n\n"@ + task_row_lines(
                shown_tasks(tasks@, employee_id@),
                true,
            ),
    {
        let all = employee_id.is_empty();
        let mut rows = String::new();
        let mut count: usize = 0;
        let mut i: usize = 0;
        while i < tasks.len()
            invariant
                i <= tasks@.len(),
                all == (employee_id@.len() == 0),
                count == shown_tasks(tasks@.take(i as int), employee_id@).len(),
                count <= i,
                rows@ == task_row_lines(shown_tasks(tasks@.take(i as int), employee_id@), true),
            decreases tasks@.len() - i,
        {
            let ghost prev = shown_tasks(tasks@.take(i as int), employee_id@);
            proof {
                assert(tasks@.take(i + 1).drop_last() =~= tasks@.take(i as int));
                assert(tasks@.take(i + 1).last() == tasks@[i as int]);
            }
            let t = &tasks[i];
            let keep = all || match &t.assignee {
                Some(a) => same_text(a.as_str(), employee_id),
                None => false,
            };
            assert(keep == shows_task(*t, employee_id@));
            if keep {
                let one = task_row_text(t, true);
                proof {
                    assert(prev.push(*t).drop_last() =~= prev);
                    assert(shown_tasks(tasks@.take(i + 1), employee_id@) == prev.push(*t));
                    assert(task_row_lines(prev.push(*t), true) == task_row_lines(prev, true) + task_row_line(*t, true));
                }
                rows.append(one.as_str());
                count = count + 1;
            }
            i = i + 1;
        }
        proof {
            assert(tasks@.take(tasks@.len() as int) =~= tasks@);
        }
        if count == 0 {
            if all {
                return "当前没有工作任务。".to_owned();
            }
            let mut out = "员工 `".to_owned();
            out.append(employee_id);
            out.append("` 当前没有任务。");
            return out;
        }
        let mut out = "## 工作任务列表\n\n".to_owned();
        out.append(rows.as_str());
        out
    }
}


/// Answers a request to let an employee work on their own.
#[derive(Debug, Clone, Copy)]
pub struct AutonomyRunHandler;

impl AutonomyRunHandler {
    /// The reply once the employee was marked for autonomy.
    pub fn reply(&self, employee_id: &str) -> (r: String)
        ensures
            r@ == "已为员工 `"@ + employee_id@ + "` 启动自主工作模式。\n\n员工将开始自主探索和执行任务。"@,
    {
        let mut out = "已为员工 `".to_owned();
        out.append(employee_id);
        out.append("` 启动自主工作模式。\n\n员工将开始自主探索和执行任务。");
        out
    }
}

/// Answers a request to let an employee explore.
#[derive(Debug, Clone, Copy)]
pub struct AutonomyExploreHandler;

impl AutonomyExploreHandler {
    /// The reply to a request to explore.
    pub fn reply(&self, employee_id: &str) -> (r: String)
        ensures
            r@ == "员工 `"@ + employee_id@ + "` 已启动探索模式。\n\n将自主分析工作区状态并生成任务计划。"@,
    {
        let mut out = "员工 `".to_owned();
        out.append(employee_id);
        out.append("` 已启动探索模式。\n\n将自主分析工作区状态并生成任务计划。");
        out
    }
}

/// Answers everything else through the requirement agent.
#[derive(Debug, Clone, Copy)]
pub struct GeneralChatHandler;

impl GeneralChatHandler {
    /// The error reported when the agent could not run: a missing coding tool
    /// is reported as `chat_tool_missing`, any other cause as itself.
    pub fn error_key(&self, cause: &str) -> (r: String)
        ensures
            cause@ == "no_enabled_coding_tool"@ ==> r@ == "chat_tool_missing"@,
            cause@ != "no_enabled_coding_tool"@ ==> r@ == cause@,
    {
        if same_text(cause, "no_enabled_coding_tool") {
            "chat_tool_missing".to_owned()
        } else {
            cause.to_owned()
        }
    }
}

/// The detectors of the default router, in the order they are registered.
pub open spec fn default_detectors() -> Seq<DetectorKind> {
    seq![
        DetectorKind::Review,
        DetectorKind::RequirementList,
        DetectorKind::RequirementDetail,
        DetectorKind::RequirementConfirm,
        DetectorKind::DevelopmentStart,
        DetectorKind::DevTaskCreate,
        DetectorKind::DevTaskList,
        DetectorKind::WorkTaskList,
        DetectorKind::AutonomyRun,
        DetectorKind::AutonomyExplore,
    ]
}

/// The intents the default router has handlers for.
pub open spec fn default_handled(t: IntentType) -> bool {
    ||| t == IntentType::RequirementReview
    ||| t == IntentType::RequirementList
    ||| t == IntentType::RequirementDetail
    ||| t == IntentType::DevelopmentStart
    ||| t == IntentType::DevTaskList
    ||| t == IntentType::WorkTaskList
    ||| t == IntentType::AutonomyRun
    ||| t == IntentType::AutonomyExplore
}

/// The router with every detector, in order of rank (already their order of
/// registration), and handlers for the intents that have one.
pub fn create_default_router() -> (r: IntentRouter)
    ensures
        r.wf(),
        r.detectors@ == default_detectors(),
        forall|t: IntentType| r.handlers@.contains(t) <==> default_handled(t),
        r.handlers@.no_duplicates(),
        r.handlers@.len() == 8,
{
    let mut router = IntentRouter::new();
    let ds = vec![
        DetectorKind::Review,
        DetectorKind::RequirementList,
        DetectorKind::RequirementDetail,
        DetectorKind::RequirementConfirm,
        DetectorKind::DevelopmentStart,
        DetectorKind::DevTaskCreate,
        DetectorKind::DevTaskList,
        DetectorKind::WorkTaskList,
        DetectorKind::AutonomyRun,
        DetectorKind::AutonomyExplore,
    ];
    assert(ds@ =~= default_detectors());
    let mut i: usize = 0;
    while i < ds.len()
        invariant
            i <= ds@.len(),
            ds@ == default_detectors(),
            router.wf(),
            router.detectors@ == ds@.take(i as int),
            router.handlers@.len() == 0,
        decreases ds@.len() - i,
    {
        let ghost before = router.detectors@;
        router.register_detector(ds[i]);
        proof {
            let p = choose|p: int|
                0 <= p <= before.len() && router.detectors@ == before.insert(p, ds@[i as int])
                    && (forall|k: int| 0 <= k < p ==> (#[trigger] before[k]).rank() >= ds@[i as int].rank())
                    && (forall|k: int| p <= k < before.len() ==> (#[trigger] before[k]).rank() < ds@[i as int].rank());
            if p < before.len() {
                assert(before[p] == ds@[p]);
                assert(before[p].rank() >= ds@[i as int].rank());
            }
            assert(router.detectors@ =~= ds@.take(i + 1));
        }
        i = i + 1;
    }
    assert(ds@.take(ds@.len() as int) =~= ds@);
    router.register_handler(IntentType::RequirementReview);
    router.register_handler(IntentType::RequirementList);
    router.register_handler(IntentType::RequirementDetail);
    router.register_handler(IntentType::DevelopmentStart);
    router.register_handler(IntentType::DevTaskList);
    router.register_handler(IntentType::WorkTaskList);
    router.register_handler(IntentType::AutonomyRun);
    router.register_handler(IntentType::AutonomyExplore);
    assert(router.handlers@ =~= seq![
        IntentType::RequirementReview,
        IntentType::RequirementList,
        IntentType::RequirementDetail,
        IntentType::DevelopmentStart,
        IntentType::DevTaskList,
        IntentType::WorkTaskList,
        IntentType::AutonomyRun,
        IntentType::AutonomyExplore,
    ]);
    proof {
        assert forall|t: IntentType| router.handlers@.contains(t) implies default_handled(t) by {
        }
    }
    router
}

} // verus!
