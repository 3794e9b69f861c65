use vstd::prelude::*;
use crate::autonomy::task::{stamped_id, stamped_id_for};

verus! {

/// The stage a plan is in.
#[derive(Debug, Clone, Copy, PartialEq, Eq, Structural)]
pub enum PlanStatus {
    Draft,
    Active,
    Executing,
    Paused,
    Completed,
    Cancelled,
}

impl PlanStatus {
    pub open spec fn name(self) -> Seq<char> {
        match self {
            PlanStatus::Draft => "draft"@,
            PlanStatus::Active => "active"@,
            PlanStatus::Executing => "executing"@,
            PlanStatus::Paused => "paused"@,
            PlanStatus::Completed => "completed"@,
            PlanStatus::Cancelled => "cancelled"@,
        }
    }

    /// The status's name as it is stored.
    pub fn as_str(&self) -> (r: &'static str)
        ensures
            r@ == self.name(),
    {
        match self {
            PlanStatus::Draft => "draft",
            PlanStatus::Active => "active",
            PlanStatus::Executing => "executing",
            PlanStatus::Paused => "paused",
            PlanStatus::Completed => "completed",
            PlanStatus::Cancelled => "cancelled",
        }
    }
}

/// What starts a plan.
#[derive(Debug, Clone, Copy, PartialEq, Eq, Structural)]
pub enum PlanTrigger {
    Manual,
    Scheduled,
    EventDriven,
    Dependency,
}

/// How often a plan runs again.
#[derive(Debug, Clone, Copy, PartialEq, Eq, Structural)]
pub struct Recurrence {
    pub interval_secs: u64,
    pub max_runs: Option<u32>,
    pub runs_count: u32,
}

/// A plan of tasks.
#[derive(Debug)]
pub struct Plan {
    pub id: String,
    pub title: String,
    pub description: String,
    pub status: PlanStatus,
    pub trigger: PlanTrigger,
    pub recurrence: Option<Recurrence>,
    pub root_tasks: Vec<String>,
    pub all_tasks: Vec<String>,
    pub progress_percent: u8,
    pub completed_tasks: usize,
    pub failed_tasks: usize,
    pub total_tasks: usize,
    pub created_at_ms: u64,
    pub started_at_ms: Option<u64>,
    pub completed_at_ms: Option<u64>,
}

impl Plan {
    /// Records a plan's progress at `now_ms`, `percent` being the share of its
    /// tasks completed: a plan without tasks is at 0 %; a plan whose tasks
    /// all completed or failed is completed at `now_ms`.
    pub fn update_progress(&mut self, percent: u8, now_ms: u64)
        ensures
            old(self).total_tasks == 0 ==> *final(self) == (Plan { progress_percent: 0, ..*old(self) }),
            old(self).total_tasks != 0 ==> final(self).progress_percent == percent,
            old(self).total_tasks != 0 && old(self).completed_tasks + old(self).failed_tasks == old(self).total_tasks
                ==> final(self).status == PlanStatus::Completed && final(self).completed_at_ms == Some(now_ms),
            old(self).total_tasks != 0 && old(self).completed_tasks + old(self).failed_tasks != old(self).total_tasks
                ==> final(self).status == old(self).status && final(self).completed_at_ms == old(self).completed_at_ms,
            final(self).id == old(self).id,
            final(self).total_tasks == old(self).total_tasks,
            final(self).completed_tasks == old(self).completed_tasks,
            final(self).failed_tasks == old(self).failed_tasks,
    {
        if self.total_tasks == 0 {
            self.progress_percent = 0;
            return;
        }
        self.progress_percent = percent;
        if self.completed_tasks as u128 + self.failed_tasks as u128 == self.total_tasks as u128 {
            self.status = PlanStatus::Completed;
            self.completed_at_ms = Some(now_ms);
        }
    }
}

/// The id of a plan made at `now_ms`: `plan_<now>`.
pub fn new_plan_id(now_ms: u64) -> (r: String)
    ensures
        r@ == stamped_id("plan"@, now_ms),
{
    stamped_id_for("plan", now_ms)
}

} // verus!
