use vstd::prelude::*;
use crate::autonomy::task::TaskResult;
use crate::autonomy::worker::{LoadLevel, WorkerStatus};

verus! {

/// Something that happened in the autonomy runtime.
#[derive(Debug)]
pub enum AutonomyEvent {
    TaskCreated { task_id: String, plan_id: String },
    TaskReady { task_id: String },
    TaskScheduled { task_id: String, worker_id: String },
    TaskStarted { task_id: String },
    TaskCompleted { task_id: String, result: TaskResult },
    TaskFailed { task_id: String, error: String },
    TaskCancelled { task_id: String },
    TaskPaused { task_id: String },
    TaskResumed { task_id: String },
    WorkerRegistered { worker_id: String },
    WorkerStatusChanged { worker_id: String, from: WorkerStatus, to: WorkerStatus },
    WorkerLoadChanged { worker_id: String, load: LoadLevel },
    PlanCreated { plan_id: String },
    PlanActivated { plan_id: String },
    PlanCompleted { plan_id: String },
    ShopStatusChanged { is_open: bool },
}

impl AutonomyEvent {
    /// The task an event is about, when it is about a task.
    pub open spec fn about_task(self) -> Option<String> {
        match self {
            AutonomyEvent::TaskCreated { task_id, .. } => Some(task_id),
            AutonomyEvent::TaskReady { task_id } => Some(task_id),
            AutonomyEvent::TaskScheduled { task_id, .. } => Some(task_id),
            AutonomyEvent::TaskStarted { task_id } => Some(task_id),
            AutonomyEvent::TaskCompleted { task_id, .. } => Some(task_id),
            AutonomyEvent::TaskFailed { task_id, .. } => Some(task_id),
            AutonomyEvent::TaskCancelled { task_id } => Some(task_id),
            AutonomyEvent::TaskPaused { task_id } => Some(task_id),
            AutonomyEvent::TaskResumed { task_id } => Some(task_id),
            _ => None,
        }
    }

    /// The task an event is about, when it is about a task.
    pub fn task_id(&self) -> (r: Option<&str>)
        ensures
            match self.about_task() {
                Some(t) => r matches Some(s) && s@ == t@,
                None => r is None,
            },
    {
        match self {
            AutonomyEvent::TaskCreated { task_id, .. } => Some(task_id.as_str()),
            AutonomyEvent::TaskReady { task_id } => Some(task_id.as_str()),
            AutonomyEvent::TaskScheduled { task_id, .. } => Some(task_id.as_str()),
            AutonomyEvent::TaskStarted { task_id } => Some(task_id.as_str()),
            AutonomyEvent::TaskCompleted { task_id, .. } => Some(task_id.as_str()),
            AutonomyEvent::TaskFailed { task_id, .. } => Some(task_id.as_str()),
            AutonomyEvent::TaskCancelled { task_id } => Some(task_id.as_str()),
            AutonomyEvent::TaskPaused { task_id } => Some(task_id.as_str()),
            AutonomyEvent::TaskResumed { task_id } => Some(task_id.as_str()),
            _ => None,
        }
    }
}

} // verus!
