use vstd::prelude::*;
use crate::text::same_text;

verus! {

/// What an agent task does.
#[derive(Debug, Clone, Copy, PartialEq, Eq, Structural)]
pub enum TaskKind {
    AutonomyExplore,
    AutonomyExecute,
    WorkTaskExecute,
    EmployeeHire,
    Explore,
    RequirementAgent,
    ReviewOpinion,
    ReviewPipeline,
    ReviewRevision,
    ReviewSummary,
}

/// Where an agent task stands.
#[derive(Debug, Clone, Copy, PartialEq, Eq, Structural)]
pub enum AgentTaskStatus {
    Pending,
    Running,
    Completed,
    Failed,
    Cancelled,
}

/// Where a work task stands.
#[derive(Debug, Clone, Copy, PartialEq, Eq, Structural)]
pub enum WorkTaskStatus {
    Pending,
    InProgress,
    Completed,
    Failed,
    Cancelled,
}

/// The business type of work tasks that employees create for themselves.
pub const BIZ_TYPE_EMPLOYEE: &'static str = "employee";

/// The task kind recorded on autonomy work tasks.
pub const TASK_KIND_AUTONOMY: &'static str = "autonomy";

pub open spec fn kind_title(kind: TaskKind) -> Seq<char> {
    match kind {
        TaskKind::AutonomyExplore => "探索工作区"@,
        TaskKind::AutonomyExecute => "执行任务"@,
        TaskKind::WorkTaskExecute => "执行工作任务"@,
        _ => "自主工作"@,
    }
}

/// What a work task that tracks an agent task of `kind` is called.
pub fn task_kind_title(kind: &TaskKind) -> (r: &'static str)
    ensures
        r@ == kind_title(*kind),
{
    match kind {
        TaskKind::AutonomyExplore => "探索工作区",
        TaskKind::AutonomyExecute => "执行任务",
        TaskKind::WorkTaskExecute => "执行工作任务",
        _ => "自主工作",
    }
}

/// The work status that an agent status shows as.
pub fn agent_to_work_status(agent_status: &AgentTaskStatus) -> (r: WorkTaskStatus)
    ensures
        r == match agent_status {
            AgentTaskStatus::Pending => WorkTaskStatus::Pending,
            AgentTaskStatus::Running => WorkTaskStatus::InProgress,
            AgentTaskStatus::Completed => WorkTaskStatus::Completed,
            AgentTaskStatus::Failed => WorkTaskStatus::Failed,
            AgentTaskStatus::Cancelled => WorkTaskStatus::Cancelled,
        },
{
    match agent_status {
        AgentTaskStatus::Pending => WorkTaskStatus::Pending,
        AgentTaskStatus::Running => WorkTaskStatus::InProgress,
        AgentTaskStatus::Completed => WorkTaskStatus::Completed,
        AgentTaskStatus::Failed => WorkTaskStatus::Failed,
        AgentTaskStatus::Cancelled => WorkTaskStatus::Cancelled,
    }
}

/// The title of the work task that makes an autonomous agent task visible.
pub fn autonomy_work_task_title(kind: &TaskKind) -> (r: String)
    ensures
        r@ == "自主工作: "@ + kind_title(*kind),
{
    let mut s = "自主工作: ".to_owned();
    s.append(task_kind_title(kind));
    s
}

/// The description of the work task that makes an autonomous agent task visible.
pub fn autonomy_work_task_description(kind: &TaskKind, agent_task_id: &str) -> (r: String)
    ensures
        r@ == "员工自主执行的"@ + kind_title(*kind) + "任务\n\nAgent Task ID: "@ + agent_task_id@,
{
    let mut s = "员工自主执行的".to_owned();
    s.append(task_kind_title(kind));
    s.append("任务\n\nAgent Task ID: ");
    s.append(agent_task_id);
    s
}

/// The work task to update when agent task `agent_task_id` changes status: the
/// first whose recorded agent task is it, with the work status it takes.
pub fn sync_work_task_status(
    agent_task_ids: &Vec<Option<String>>,
    agent_task_id: &str,
    agent_status: &AgentTaskStatus,
) -> (r: Option<(usize, WorkTaskStatus)>)
    ensures
        match r {
            Some((i, s)) => i < agent_task_ids@.len() && (agent_task_ids@[i as int] matches Some(x) && x@ == agent_task_id@)
                && (forall|j: int| 0 <= j < i ==> !(#[trigger] agent_task_ids@[j] matches Some(x) && x@ == agent_task_id@))
                && s == match agent_status {
                    AgentTaskStatus::Pending => WorkTaskStatus::Pending,
                    AgentTaskStatus::Running => WorkTaskStatus::InProgress,
                    AgentTaskStatus::Completed => WorkTaskStatus::Completed,
                    AgentTaskStatus::Failed => WorkTaskStatus::Failed,
                    AgentTaskStatus::Cancelled => WorkTaskStatus::Cancelled,
                },
            None => forall|j: int| 0 <= j < agent_task_ids@.len() ==> !(#[trigger] agent_task_ids@[j] matches Some(x) && x@ == agent_task_id@),
        },
{
    let mut i: usize = 0;
    while i < agent_task_ids.len()
        invariant
            i <= agent_task_ids@.len(),
            forall|j: int| 0 <= j < i ==> !(#[trigger] agent_task_ids@[j] matches Some(x) && x@ == agent_task_id@),
        decreases agent_task_ids@.len() - i,
    {
        let hit = match &agent_task_ids[i] {
            Some(x) => same_text(x.as_str(), agent_task_id),
            None => false,
        };
        if hit {
            return Some((i, agent_to_work_status(agent_status)));
        }
        i = i + 1;
    }
    None
}

} // verus!
