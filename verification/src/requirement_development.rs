use vstd::prelude::*;
use crate::autonomy_task::WorkTaskStatus;
use crate::requirement::{normalize_requirement_id, requirement_id_check, RequirementError};
use crate::text::{decimal, lowercase, same_text, to_lowercase, trim, trimmed, u64_to_decimal};

verus! {

/// Where a development task stands in its pipeline.
#[derive(Debug, Clone, Copy, PartialEq, Eq, Structural)]
pub enum DevTaskStatus {
    BranchCreated,
    InDevelopment,
    DevComplete,
    InReview,
    ReviewComplete,
    Merged,
}

impl DevTaskStatus {
    pub open spec fn name(self) -> Seq<char> {
        match self {
            DevTaskStatus::BranchCreated => "branch_created"@,
            DevTaskStatus::InDevelopment => "in_development"@,
            DevTaskStatus::DevComplete => "dev_complete"@,
            DevTaskStatus::InReview => "in_review"@,
            DevTaskStatus::ReviewComplete => "review_complete"@,
            DevTaskStatus::Merged => "merged"@,
        }
    }

    /// The status's name as it is stored.
    pub fn as_str(&self) -> (r: &'static str)
        ensures
            r@ == self.name(),
    {
        match self {
            DevTaskStatus::BranchCreated => "branch_created",
            DevTaskStatus::InDevelopment => "in_development",
            DevTaskStatus::DevComplete => "dev_complete",
            DevTaskStatus::InReview => "in_review",
            DevTaskStatus::ReviewComplete => "review_complete",
            DevTaskStatus::Merged => "merged",
        }
    }

    /// The status whose stored name is `raw`.
    pub fn from_str(raw: &str) -> (r: Option<DevTaskStatus>)
        ensures
            match r {
                Some(s) => s.name() == raw@,
                None => forall|s: DevTaskStatus| s.name() != raw@,
            },
    {
        if same_text(raw, "branch_created") {
            Some(DevTaskStatus::BranchCreated)
        } else if same_text(raw, "in_development") {
            Some(DevTaskStatus::InDevelopment)
        } else if same_text(raw, "dev_complete") {
            Some(DevTaskStatus::DevComplete)
        } else if same_text(raw, "in_review") {
            Some(DevTaskStatus::InReview)
        } else if same_text(raw, "review_complete") {
            Some(DevTaskStatus::ReviewComplete)
        } else if same_text(raw, "merged") {
            Some(DevTaskStatus::Merged)
        } else {
            None
        }
    }

    pub open spec fn successor(self) -> Option<DevTaskStatus> {
        match self {
            DevTaskStatus::BranchCreated => Some(DevTaskStatus::InDevelopment),
            DevTaskStatus::InDevelopment => Some(DevTaskStatus::DevComplete),
            DevTaskStatus::DevComplete => Some(DevTaskStatus::InReview),
            DevTaskStatus::InReview => Some(DevTaskStatus::ReviewComplete),
            DevTaskStatus::ReviewComplete => Some(DevTaskStatus::Merged),
            DevTaskStatus::Merged => None,
        }
    }

    /// The work status a development task in this status has: pending until
    /// development starts, completed once merged, in progress between.
    pub fn to_work_status(&self) -> (r: WorkTaskStatus)
        ensures
            r == match *self {
                DevTaskStatus::Merged => WorkTaskStatus::Completed,
                DevTaskStatus::BranchCreated => WorkTaskStatus::Pending,
                _ => WorkTaskStatus::InProgress,
            },
    {
        match self {
            DevTaskStatus::Merged => WorkTaskStatus::Completed,
            DevTaskStatus::BranchCreated => WorkTaskStatus::Pending,
            _ => WorkTaskStatus::InProgress,
        }
    }

    /// The status after this one in the pipeline; none after merged.
    pub fn next_status(&self) -> (r: Option<DevTaskStatus>)
        ensures
            r == self.successor(),
    {
        match self {
            DevTaskStatus::BranchCreated => Some(DevTaskStatus::InDevelopment),
            DevTaskStatus::InDevelopment => Some(DevTaskStatus::DevComplete),
            DevTaskStatus::DevComplete => Some(DevTaskStatus::InReview),
            DevTaskStatus::InReview => Some(DevTaskStatus::ReviewComplete),
            DevTaskStatus::ReviewComplete => Some(DevTaskStatus::Merged),
            DevTaskStatus::Merged => None,
        }
    }

    /// The status a planned task's (trimmed, lower-cased) status word stands for.
    pub open spec fn planned(word: Seq<char>) -> DevTaskStatus {
        if word == "in_progress"@ || word == "in_development"@ || word == "running"@ {
            DevTaskStatus::InDevelopment
        } else if word == "dev_complete"@ || word == "complete"@ || word == "completed"@ {
            DevTaskStatus::DevComplete
        } else if word == "in_review"@ || word == "review"@ {
            DevTaskStatus::InReview
        } else if word == "review_complete"@ {
            DevTaskStatus::ReviewComplete
        } else if word == "merged"@ {
            DevTaskStatus::Merged
        } else {
            DevTaskStatus::BranchCreated
        }
    }

    /// The status that a planned task's status word stands for; an unknown
    /// word (or `pending`) means the branch was just created.
    pub fn from_planned_status(raw: &str) -> (r: DevTaskStatus)
        ensures
            r == DevTaskStatus::planned(lowercase(trim(raw@))),
    {
        let t = trimmed(raw);
        let low = to_lowercase(t.as_str());
        DevTaskStatus::from_lowered_status(low.as_str())
    }

    /// The status that `word`, a planned task's trimmed, lower-cased status
    /// word, stands for.
    pub fn from_lowered_status(word: &str) -> (r: DevTaskStatus)
        ensures
            r == DevTaskStatus::planned(word@),
    {
        let w = word;
        if same_text(w, "in_progress") || same_text(w, "in_development") || same_text(w, "running") {
            DevTaskStatus::InDevelopment
        } else if same_text(w, "dev_complete") || same_text(w, "complete") || same_text(w, "completed") {
            DevTaskStatus::DevComplete
        } else if same_text(w, "in_review") || same_text(w, "review") {
            DevTaskStatus::InReview
        } else if same_text(w, "review_complete") {
            DevTaskStatus::ReviewComplete
        } else if same_text(w, "merged") {
            DevTaskStatus::Merged
        } else {
            DevTaskStatus::BranchCreated
        }
    }
}

/// Storing a status and reading it back gives the same status.
pub proof fn lemma_dev_status_name_round_trip(s: DevTaskStatus, t: DevTaskStatus)
    ensures
        s.name() == t.name() ==> s == t,
{
    reveal_strlit("branch_created");
    reveal_strlit("in_development");
    reveal_strlit("dev_complete");
    reveal_strlit("in_review");
    reveal_strlit("review_complete");
    reveal_strlit("merged");
    if s.name() == t.name() && s != t {
        assert(s.name().len() != t.name().len() || s.name()[0] != t.name()[0] || s.name()[1] != t.name()[1]
            || s.name()[3] != t.name()[3]);
    }
}

/// The development state of a requirement.
#[derive(Debug)]
pub struct DevStateFile {
    pub requirement_id: String,
    pub feature_branch: String,
    pub feature_branch_created: bool,
    pub current_task_id: Option<String>,
    pub milestone: Option<String>,
    pub milestone_phase: Option<String>,
}

/// A development state file as read, every field possibly missing.
#[derive(Debug)]
pub struct DevStateDraft {
    pub requirement_id: Option<String>,
    pub feature_branch: Option<String>,
    pub feature_branch_created: Option<bool>,
    pub current_task_id: Option<String>,
    pub milestone: Option<String>,
    pub milestone_phase: Option<String>,
}

/// A text that is kept unless it is missing or blank.
pub open spec fn present_text(o: Option<String>) -> Option<Seq<char>> {
    match o {
        Some(v) => if trim(v@).len() > 0 { Some(v@) } else { None },
        None => None,
    }
}

/// The development state of requirement `id` from its file as read: a blank
/// or missing requirement id becomes `id`, a blank or missing branch
/// `feat-<id>`, a missing branch flag false; the rest is kept.
pub fn dev_state_from_draft(draft: DevStateDraft, id: &str) -> (r: DevStateFile)
    ensures
        r.requirement_id@ == (match present_text(draft.requirement_id) {
            Some(v) => v,
            None => id@,
        }),
        r.feature_branch@ == (match present_text(draft.feature_branch) {
            Some(v) => v,
            None => "feat-"@ + id@,
        }),
        r.feature_branch_created == (match draft.feature_branch_created {
            Some(b) => b,
            None => false,
        }),
        r.current_task_id == draft.current_task_id,
        r.milestone == draft.milestone,
        r.milestone_phase == draft.milestone_phase,
{
    let requirement_id = match draft.requirement_id {
        Some(v) => if trimmed(v.as_str()).as_str().is_empty() { id.to_owned() } else { v },
        None => id.to_owned(),
    };
    let feature_branch = match draft.feature_branch {
        Some(v) => if trimmed(v.as_str()).as_str().is_empty() { feature_branch_for(id) } else { v },
        None => feature_branch_for(id),
    };
    DevStateFile {
        requirement_id,
        feature_branch,
        feature_branch_created: match draft.feature_branch_created {
            Some(b) => b,
            None => false,
        },
        current_task_id: draft.current_task_id,
        milestone: draft.milestone,
        milestone_phase: draft.milestone_phase,
    }
}

/// A development task as the API shows it.
#[derive(Debug)]
pub struct DevTaskWire {
    pub id: String,
    pub title: String,
    pub assignee: Option<String>,
    pub branch: String,
    pub status: String,
    pub progress: u8,
    pub created_at_ms: u64,
    pub updated_at_ms: u64,
    pub biz_type: String,
    pub biz_id: String,
}

/// A requirement's development as the API shows it.
#[derive(Debug)]
pub struct RequirementDevelopmentWire {
    pub requirement_id: String,
    pub feature_branch: String,
    pub feature_branch_created: bool,
    pub tasks: Vec<DevTaskWire>,
    pub current_task_id: Option<String>,
}

/// A request to add a development task.
#[derive(Debug)]
pub struct CreateTaskRequest {
    pub title: String,
    pub assignee: Option<String>,
}

/// A request to change a development task.
#[derive(Debug)]
pub struct UpdateTaskRequest {
    pub title: Option<String>,
    pub assignee: Option<String>,
    pub progress: Option<u8>,
}

/// An action a user asks of a development task.
#[derive(Debug)]
pub struct DevTaskActionPayload {
    pub action: String,
}

/// Why a development request was refused.
#[derive(Debug, Clone, Copy, PartialEq, Eq, Structural)]
pub enum DevError {
    TaskTitleEmpty,
    TaskNotFound,
    TaskActionInvalid,
    TaskActionUnknown,
    FeatureBranchNotCreated,
    DevelopmentNotStarted,
    RequirementNotFound,
    RequirementId(RequirementError),
}

impl DevError {
    pub open spec fn key_text(self) -> Seq<char> {
        match self {
            DevError::TaskTitleEmpty => "task_title_empty"@,
            DevError::TaskNotFound => "task_not_found"@,
            DevError::TaskActionInvalid => "task_action_invalid"@,
            DevError::TaskActionUnknown => "task_action_unknown"@,
            DevError::FeatureBranchNotCreated => "feature_branch_not_created"@,
            DevError::DevelopmentNotStarted => "development_not_started"@,
            DevError::RequirementNotFound => "requirement_not_found"@,
            DevError::RequirementId(e) => e.key_text(),
        }
    }

    /// The error's message key.
    pub fn key(&self) -> (r: &'static str)
        ensures
            r@ == self.key_text(),
    {
        match self {
            DevError::TaskTitleEmpty => "task_title_empty",
            DevError::TaskNotFound => "task_not_found",
            DevError::TaskActionInvalid => "task_action_invalid",
            DevError::TaskActionUnknown => "task_action_unknown",
            DevError::FeatureBranchNotCreated => "feature_branch_not_created",
            DevError::DevelopmentNotStarted => "development_not_started",
            DevError::RequirementNotFound => "requirement_not_found",
            DevError::RequirementId(e) => e.key(),
        }
    }
}

/// The feature branch of a requirement: `feat-<id>`.
pub fn feature_branch_for(requirement_id: &str) -> (r: String)
    ensures
        r@ == "feat-"@ + requirement_id@,
{
    let mut s = "feat-".to_owned();
    s.append(requirement_id);
    s
}

/// Starts development of requirement `requirement_id`: refused with the
/// normalization error when the id is not a valid requirement id, and when no
/// requirement stands under the normalized id (`requirement_exists` tells
/// whether one does); else its development state as `started_state` makes it
/// from the state on file, on the feature branch of the normalized id.
pub fn ensure_development_started(requirement_id: &str, requirement_exists: bool, existing: Option<DevStateFile>) -> (r: Result<DevStateFile, DevError>)
    ensures
        requirement_id_check(requirement_id@) matches Err(e) ==> r == Err::<DevStateFile, DevError>(DevError::RequirementId(e)),
        requirement_id_check(requirement_id@) matches Ok(id) ==> {
            &&& !requirement_exists ==> r == Err::<DevStateFile, DevError>(DevError::RequirementNotFound)
            &&& requirement_exists ==> (r matches Ok(st) && {
                &&& st.feature_branch@ == "feat-"@ + id
                &&& st.feature_branch_created
                &&& match existing {
                    Some(s) => st.requirement_id == s.requirement_id && st.current_task_id == s.current_task_id
                        && st.milestone == s.milestone && st.milestone_phase == s.milestone_phase,
                    None => st.requirement_id@ == id && st.current_task_id is None && st.milestone is None
                        && st.milestone_phase is None,
                }
            })
        },
{
    let id = match normalize_requirement_id(requirement_id) {
        Ok(id) => id,
        Err(e) => return Err(DevError::RequirementId(e)),
    };
    if !requirement_exists {
        return Err(DevError::RequirementNotFound);
    }
    Ok(started_state(existing, id.as_str()))
}

/// A requirement's development state once development started: an existing
/// state keeps its tasks and milestone and gets the feature branch marked as
/// created; a new one starts with no current task.
pub fn started_state(existing: Option<DevStateFile>, requirement_id: &str) -> (r: DevStateFile)
    ensures
        r.feature_branch@ == "feat-"@ + requirement_id@,
        r.feature_branch_created,
        match existing {
            Some(s) => r.requirement_id == s.requirement_id && r.current_task_id == s.current_task_id
                && r.milestone == s.milestone && r.milestone_phase == s.milestone_phase,
            None => r.requirement_id@ == requirement_id@ && r.current_task_id is None && r.milestone is None
                && r.milestone_phase is None,
        },
{
    let branch = feature_branch_for(requirement_id);
    match existing {
        Some(s) => DevStateFile { feature_branch: branch, feature_branch_created: true, ..s },
        None => DevStateFile {
            requirement_id: requirement_id.to_owned(),
            feature_branch: branch,
            feature_branch_created: true,
            current_task_id: None,
            milestone: None,
            milestone_phase: None,
        },
    }
}

/// `n` written with at least three digits, zeros in front.
pub open spec fn padded3(n: nat) -> Seq<char> {
    if n < 10 {
        "00"@ + decimal(n)
    } else if n < 100 {
        "0"@ + decimal(n)
    } else {
        decimal(n)
    }
}

/// The id of a requirement's `n`-th development task: `task-` and `n` in at
/// least three digits.
pub fn dev_task_id(n: u64) -> (r: String)
    ensures
        r@ == "task-"@ + padded3(n as nat),
{
    let mut s = "task-".to_owned();
    if n < 10 {
        s.append("00");
    } else if n < 100 {
        s.append("0");
    }
    let d = u64_to_decimal(n);
    s.append(d.as_str());
    s
}

/// The branch of a development task: the feature branch, `-`, the task id.
pub fn task_branch_name(feature_branch: &str, task_id: &str) -> (r: String)
    ensures
        r@ == feature_branch@ + "-"@ + task_id@,
{
    let mut s = feature_branch.to_owned();
    s.append("-");
    s.append(task_id);
    s
}

/// The file written for a development task.
pub fn task_content(title: &str, description: &str, branch: &str) -> (r: String)
    ensures
        r@ == "# "@ + title@ + "\n\n"@ + description@ + "\n\nBranch: `"@ + branch@ + "`\n"@,
{
    let mut s = "# ".to_owned();
    s.append(title);
    s.append("\n\n");
    s.append(description);
    s.append("\n\nBranch: `");
    s.append(branch);
    s.append("`\n");
    s
}

/// The title of a new development task: refused when blank, else trimmed.
pub fn dev_task_title(title: &str) -> (r: Result<String, DevError>)
    ensures
        trim(title@).len() == 0 ==> r == Err::<String, DevError>(DevError::TaskTitleEmpty),
        trim(title@).len() > 0 ==> (r matches Ok(t) && t@ == trim(title@)),
{
    let t = trimmed(title);
    if t.as_str().is_empty() {
        Err(DevError::TaskTitleEmpty)
    } else {
        Ok(t)
    }
}

/// What an action on a development task does.
#[derive(Debug, Clone, Copy, PartialEq, Eq, Structural)]
pub enum DevActionOutcome {
    /// The coding agent runs again (a review when `review`) and the status stays.
    RunAgent { review: bool },
    /// The task moves to `next`; its progress becomes 100 when `complete`, the
    /// task branch is merged when `merge`, and the coding agent starts when
    /// `start_agent`.
    Transition { next: DevTaskStatus, complete: bool, merge: bool, start_agent: bool },
}

/// What action `action` does to a task in `current`: `continue_development`
/// reruns the agent while in development, `review_code` runs a code review
/// once development completed or while in review; the pipeline actions each
/// move the task one status on from the one they expect; anything else is
/// unknown.
pub open spec fn dev_action_spec(current: DevTaskStatus, action: Seq<char>) -> Result<DevActionOutcome, DevError> {
    if action == "continue_development"@ {
        if current == DevTaskStatus::InDevelopment {
            Ok(DevActionOutcome::RunAgent { review: false })
        } else {
            Err(DevError::TaskActionInvalid)
        }
    } else if action == "review_code"@ {
        if current == DevTaskStatus::DevComplete || current == DevTaskStatus::InReview {
            Ok(DevActionOutcome::RunAgent { review: true })
        } else {
            Err(DevError::TaskActionInvalid)
        }
    } else {
        let expected = if action == "start_development"@ {
            Some(DevTaskStatus::BranchCreated)
        } else if action == "complete_development"@ {
            Some(DevTaskStatus::InDevelopment)
        } else if action == "start_review"@ {
            Some(DevTaskStatus::DevComplete)
        } else if action == "complete_review"@ {
            Some(DevTaskStatus::InReview)
        } else if action == "merge"@ {
            Some(DevTaskStatus::ReviewComplete)
        } else {
            None
        };
        match expected {
            None => Err(DevError::TaskActionUnknown),
            Some(e) => if current != e {
                Err(DevError::TaskActionInvalid)
            } else {
                let next = e.successor().unwrap();
                Ok(DevActionOutcome::Transition {
                    next,
                    complete: next == DevTaskStatus::DevComplete || next == DevTaskStatus::Merged,
                    merge: next == DevTaskStatus::Merged,
                    start_agent: next == DevTaskStatus::InDevelopment,
                })
            },
        }
    }
}

/// What action `action` does to a task in `current`.
pub fn dev_task_action(current: DevTaskStatus, action: &str) -> (r: Result<DevActionOutcome, DevError>)
    ensures
        r == dev_action_spec(current, action@),
        r matches Ok(DevActionOutcome::Transition { next, complete, merge, start_agent }) ==> {
            &&& start_agent == (next == DevTaskStatus::InDevelopment)
            &&& merge == (next == DevTaskStatus::Merged)
            &&& complete == (next == DevTaskStatus::DevComplete || next == DevTaskStatus::Merged)
        },
{
    if same_text(action, "continue_development") {
        return if current == DevTaskStatus::InDevelopment {
            Ok(DevActionOutcome::RunAgent { review: false })
        } else {
            Err(DevError::TaskActionInvalid)
        };
    }
    if same_text(action, "review_code") {
        return if current == DevTaskStatus::DevComplete || current == DevTaskStatus::InReview {
            Ok(DevActionOutcome::RunAgent { review: true })
        } else {
            Err(DevError::TaskActionInvalid)
        };
    }
    let expected = if same_text(action, "start_development") {
        DevTaskStatus::BranchCreated
    } else if same_text(action, "complete_development") {
        DevTaskStatus::InDevelopment
    } else if same_text(action, "start_review") {
        DevTaskStatus::DevComplete
    } else if same_text(action, "complete_review") {
        DevTaskStatus::InReview
    } else if same_text(action, "merge") {
        DevTaskStatus::ReviewComplete
    } else {
        return Err(DevError::TaskActionUnknown);
    };
    if current != expected {
        return Err(DevError::TaskActionInvalid);
    }
    let next = match expected.next_status() {
        Some(n) => n,
        None => DevTaskStatus::Merged,
    };
    Ok(DevActionOutcome::Transition {
        next,
        complete: next == DevTaskStatus::DevComplete || next == DevTaskStatus::Merged,
        merge: next == DevTaskStatus::Merged,
        start_agent: next == DevTaskStatus::InDevelopment,
    })
}

/// An accepted pipeline step starts the coding agent exactly when the task
/// enters development, merges exactly when it reaches `merged`, and completes
/// the work task exactly when it reaches `dev_complete` or `merged`.
pub proof fn lemma_transition_effects(current: DevTaskStatus, action: Seq<char>)
    ensures
        dev_action_spec(current, action) matches Ok(DevActionOutcome::Transition { next, complete, merge, start_agent }) ==> {
            &&& start_agent == (next == DevTaskStatus::InDevelopment)
            &&& merge == (next == DevTaskStatus::Merged)
            &&& complete == (next == DevTaskStatus::DevComplete || next == DevTaskStatus::Merged)
        },
        action == "start_development"@ && current == DevTaskStatus::BranchCreated ==> (dev_action_spec(current, action)
            matches Ok(DevActionOutcome::Transition { next, start_agent, .. }) && next == DevTaskStatus::InDevelopment
            && start_agent),
{
    reveal_strlit("start_development");
    reveal_strlit("continue_development");
    reveal_strlit("review_code");
    assert("start_development"@[0] != "continue_development"@[0]);
    assert("start_development"@[0] != "review_code"@[0]);
    assert(DevTaskStatus::BranchCreated.successor() == Some(DevTaskStatus::InDevelopment));
}

/// Every accepted pipeline action moves a task exactly one status along its
/// pipeline.
pub proof fn lemma_action_follows_pipeline(current: DevTaskStatus, action: Seq<char>)
    ensures
        dev_action_spec(current, action) matches Ok(DevActionOutcome::Transition { next, .. }) ==> current.successor() == Some(next),
{
}

/// A pending development task a worker may claim.
#[derive(Debug)]
pub struct ClaimCandidate {
    pub id: String,
    pub is_development: bool,
    pub auto_executable: bool,
    pub pending: bool,
    pub dev_status: DevTaskStatus,
    pub assignee: Option<String>,
    pub created_at_ms: u64,
}

/// Whether a candidate is open at all: a development task that runs by
/// itself, is pending and has only its branch.
pub open spec fn claimable(c: ClaimCandidate) -> bool {
    c.is_development && c.auto_executable && c.pending && c.dev_status == DevTaskStatus::BranchCreated
}

/// Who a candidate is assigned to, when anybody (a blank name is nobody).
pub open spec fn owner_of(c: ClaimCandidate) -> Option<Seq<char>> {
    match c.assignee {
        Some(a) => if trim(a@).len() > 0 { Some(trim(a@)) } else { None },
        None => None,
    }
}

/// Whether `s` is ordered oldest first.
pub open spec fn oldest_first(s: Seq<ClaimCandidate>) -> bool {
    forall|i: int, j: int| 0 <= i < j < s.len() ==> (#[trigger] s[i]).created_at_ms <= (#[trigger] s[j]).created_at_ms
}

/// The candidates of `s` created at `t`, in order.
pub open spec fn created_at(s: Seq<ClaimCandidate>, t: u64) -> Seq<ClaimCandidate>
    decreases s.len(),
{
    if s.len() == 0 {
        seq![]
    } else if s.last().created_at_ms == t {
        created_at(s.drop_last(), t).push(s.last())
    } else {
        created_at(s.drop_last(), t)
    }
}

/// Whether a claim list keeps candidate `c`: it is open, and assigned to
/// `employee_id` when `mine`, else to nobody.
pub open spec fn kept_for(c: ClaimCandidate, employee_id: Seq<char>, mine: bool) -> bool {
    claimable(c) && if mine {
        owner_of(c) == Some(employee_id)
    } else {
        owner_of(c) is None
    }
}

/// The candidates of `s` that a claim list keeps, in order.
pub open spec fn kept(s: Seq<ClaimCandidate>, employee_id: Seq<char>, mine: bool) -> Seq<ClaimCandidate>
    decreases s.len(),
{
    if s.len() == 0 {
        seq![]
    } else if kept_for(s.last(), employee_id, mine) {
        kept(s.drop_last(), employee_id, mine).push(s.last())
    } else {
        kept(s.drop_last(), employee_id, mine)
    }
}

proof fn lemma_created_at_add(a: Seq<ClaimCandidate>, b: Seq<ClaimCandidate>, t: u64)
    ensures
        created_at(a + b, t) == created_at(a, t) + created_at(b, t),
    decreases b.len(),
{
    if b.len() == 0 {
        assert(a + b =~= a);
        assert(created_at(a, t) + created_at(b, t) =~= created_at(a, t));
    } else {
        assert((a + b).drop_last() =~= a + b.drop_last());
        assert((a + b).last() == b.last());
        lemma_created_at_add(a, b.drop_last(), t);
        if b.last().created_at_ms == t {
            assert(created_at(a, t) + created_at(b.drop_last(), t).push(b.last()) =~= (created_at(a, t)
                + created_at(b.drop_last(), t)).push(b.last()));
        }
    }
}

proof fn lemma_created_at_none(s: Seq<ClaimCandidate>, t: u64)
    requires
        forall|k: int| 0 <= k < s.len() ==> (#[trigger] s[k]).created_at_ms != t,
    ensures
        created_at(s, t) == Seq::<ClaimCandidate>::empty(),
    decreases s.len(),
{
    if s.len() > 0 {
        assert(s.last() == s[s.len() - 1]);
        lemma_created_at_none(s.drop_last(), t);
    }
}

/// Inserts `x` into `out` (oldest first) after every candidate no younger,
/// so that candidates created at the same time keep the order they came in.
fn insert_by_age(out: &mut Vec<ClaimCandidate>, x: ClaimCandidate)
    requires
        oldest_first(old(out)@),
    ensures
        oldest_first(final(out)@),
        final(out)@.to_multiset() == old(out)@.to_multiset().insert(x),
        forall|t: u64| #[trigger] created_at(final(out)@, t) == (if x.created_at_ms == t {
            created_at(old(out)@, t).push(x)
        } else {
            created_at(old(out)@, t)
        }),
{
    let mut p: usize = 0;
    while p < out.len() && out[p].created_at_ms <= x.created_at_ms
        invariant
            p <= out@.len(),
            forall|k: int| 0 <= k < p ==> (#[trigger] out@[k]).created_at_ms <= x.created_at_ms,
        decreases out@.len() - p,
    {
        p = p + 1;
    }
    let ghost before = out@;
    proof {
        assert forall|k: int| p <= k < before.len() implies (#[trigger] before[k]).created_at_ms > x.created_at_ms by {
            assert(before[p as int].created_at_ms > x.created_at_ms);
            if k > p {
                assert(before[p as int].created_at_ms <= before[k].created_at_ms);
            }
        }
    }
    out.insert(p, x);
    proof {
        assert forall|i: int, j: int| 0 <= i < j < out@.len() implies (#[trigger] out@[i]).created_at_ms <= (#[trigger] out@[j]).created_at_ms by {
            if j < p {
                assert(out@[i] == before[i] && out@[j] == before[j]);
            } else if j == p {
                assert(out@[i] == before[i]);
            } else if i == p {
                assert(out@[j] == before[j - 1]);
            } else if i < p {
                assert(out@[i] == before[i] && out@[j] == before[j - 1]);
            } else {
                assert(out@[i] == before[i - 1] && out@[j] == before[j - 1]);
            }
        }
        vstd::seq_lib::to_multiset_insert(before, p as int, x);
        let head = before.take(p as int);
        let tail = before.skip(p as int);
        assert(before =~= head + tail);
        assert(out@ =~= head + (seq![x] + tail));
        assert forall|t: u64| #[trigger] created_at(out@, t) == (if x.created_at_ms == t {
            created_at(before, t).push(x)
        } else {
            created_at(before, t)
        }) by {
            lemma_created_at_add(head, seq![x] + tail, t);
            lemma_created_at_add(seq![x], tail, t);
            lemma_created_at_add(head, tail, t);
            assert(seq![x].drop_last() =~= Seq::<ClaimCandidate>::empty());
            assert(seq![x].last() == x);
            assert(created_at(Seq::<ClaimCandidate>::empty(), t) =~= Seq::<ClaimCandidate>::empty());
            assert(created_at(seq![x].drop_last(), t) =~= Seq::<ClaimCandidate>::empty());
            if x.created_at_ms == t {
                assert forall|k: int| 0 <= k < tail.len() implies (#[trigger] tail[k]).created_at_ms != t by {
                    assert(tail[k] == before[p + k]);
                }
                lemma_created_at_none(tail, t);
                assert(created_at(seq![x], t) =~= seq![x]);
                assert(created_at(before, t) =~= created_at(head, t));
                assert(created_at(out@, t) =~= created_at(head, t).push(x));
            } else {
                assert(created_at(seq![x], t) =~= Seq::<ClaimCandidate>::empty());
                assert(created_at(out@, t) =~= created_at(head, t) + created_at(tail, t));
            }
        }
    }
}

/// Who candidate `c` is assigned to, when anybody.
fn owner_exec(c: &ClaimCandidate) -> (r: Option<String>)
    ensures
        match (r, owner_of(*c)) {
            (Some(a), Some(b)) => a@ == b,
            (None, None) => true,
            _ => false,
        },
{
    match &c.assignee {
        Some(a) => {
            let t = trimmed(a.as_str());
            if t.as_str().is_empty() {
                None
            } else {
                Some(t)
            }
        },
        None => None,
    }
}

/// The development tasks that `employee_id` may pick up: open ones assigned to
/// them, then open unassigned ones, each list oldest first, those created at
/// the same time in the order they came; those of other employees are left
/// out. The result is the pair of those lists.
pub fn list_claimable_dev_tasks(candidates: Vec<ClaimCandidate>, employee_id: &str) -> (r: (Vec<ClaimCandidate>, Vec<ClaimCandidate>))
    ensures
        oldest_first(r.0@),
        oldest_first(r.1@),
        forall|t: u64| #[trigger] created_at(r.0@, t) == created_at(kept(candidates@, employee_id@, true), t),
        forall|t: u64| #[trigger] created_at(r.1@, t) == created_at(kept(candidates@, employee_id@, false), t),
        forall|k: int| 0 <= k < r.0@.len() ==> claimable(#[trigger] r.0@[k]) && owner_of(r.0@[k]) == Some(employee_id@),
        forall|k: int| 0 <= k < r.1@.len() ==> claimable(#[trigger] r.1@[k]) && owner_of(r.1@[k]) is None,
{
    let ghost src = candidates@;
    let mut rest = candidates;
    let mut rev: Vec<ClaimCandidate> = Vec::new();
    while rest.len() > 0
        invariant
            rest@.len() + rev@.len() == src.len(),
            rest@ == src.take(rest@.len() as int),
            forall|k: int| 0 <= k < rev@.len() ==> #[trigger] rev@[k] == src[src.len() - 1 - k],
        decreases rest@.len(),
    {
        let x = rest.pop().unwrap();
        proof {
            assert(src.take(rest@.len() as int) =~= src.take(rest@.len() + 1int).drop_last());
        }
        rev.push(x);
    }
    let n = rev.len();
    let mut assigned: Vec<ClaimCandidate> = Vec::new();
    let mut unassigned: Vec<ClaimCandidate> = Vec::new();
    proof {
        assert(src.take(0) =~= Seq::<ClaimCandidate>::empty());
    }
    while rev.len() > 0
        invariant
            rev@.len() <= n,
            n == src.len(),
            forall|k: int| 0 <= k < rev@.len() ==> #[trigger] rev@[k] == src[src.len() - 1 - k],
            oldest_first(assigned@),
            oldest_first(unassigned@),
            forall|t: u64| #[trigger] created_at(assigned@, t) == created_at(kept(src.take(n - rev@.len()), employee_id@, true), t),
            forall|t: u64| #[trigger] created_at(unassigned@, t) == created_at(kept(src.take(n - rev@.len()), employee_id@, false), t),
            forall|k: int| 0 <= k < assigned@.len() ==> claimable(#[trigger] assigned@[k]) && owner_of(assigned@[k]) == Some(employee_id@),
            forall|k: int| 0 <= k < unassigned@.len() ==> claimable(#[trigger] unassigned@[k]) && owner_of(unassigned@[k]) is None,
        decreases rev@.len(),
    {
        let ghost i = n - rev@.len();
        let c = rev.pop().unwrap();
        assert(c == src[i]);
        let ghost pre = src.take(i);
        proof {
            assert(src.take(i + 1).drop_last() =~= pre);
            assert(src.take(i + 1).last() == c);
        }
        let ghost a0 = assigned@;
        let ghost u0 = unassigned@;
        let open = c.is_development && c.auto_executable && c.pending && c.dev_status == DevTaskStatus::BranchCreated;
        let owner = owner_exec(&c);
        let mine = match &owner {
            Some(o) => same_text(o.as_str(), employee_id),
            None => false,
        };
        assert(mine == (owner_of(c) == Some(employee_id@)));
        if open && owner.is_none() {
            let ghost cv = c;
            insert_by_age(&mut unassigned, c);
            proof {
                assert(kept(src.take(i + 1), employee_id@, false) == kept(pre, employee_id@, false).push(cv));
                assert(kept(src.take(i + 1), employee_id@, true) == kept(pre, employee_id@, true));
                assert forall|t: u64| #[trigger] created_at(unassigned@, t) == created_at(kept(src.take(i + 1), employee_id@, false), t) by {
                    assert(kept(pre, employee_id@, false).push(cv).drop_last() =~= kept(pre, employee_id@, false));
                }
                assert forall|k: int| 0 <= k < unassigned@.len() implies claimable(#[trigger] unassigned@[k]) && owner_of(unassigned@[k]) is None by {
                    broadcast use vstd::seq_lib::group_to_multiset_ensures;
                    broadcast use vstd::multiset::group_multiset_axioms;
                    assert(unassigned@.to_multiset().count(unassigned@[k]) > 0);
                    if unassigned@[k] != cv {
                        assert(u0.to_multiset().count(unassigned@[k]) > 0);
                    }
                }
            }
        } else if open && mine {
            let ghost cv = c;
            insert_by_age(&mut assigned, c);
            proof {
                assert(kept(src.take(i + 1), employee_id@, true) == kept(pre, employee_id@, true).push(cv));
                assert(kept(src.take(i + 1), employee_id@, false) == kept(pre, employee_id@, false));
                assert forall|t: u64| #[trigger] created_at(assigned@, t) == created_at(kept(src.take(i + 1), employee_id@, true), t) by {
                    assert(kept(pre, employee_id@, true).push(cv).drop_last() =~= kept(pre, employee_id@, true));
                }
                assert forall|k: int| 0 <= k < assigned@.len() implies claimable(#[trigger] assigned@[k]) && owner_of(assigned@[k]) == Some(employee_id@) by {
                    broadcast use vstd::seq_lib::group_to_multiset_ensures;
                    broadcast use vstd::multiset::group_multiset_axioms;
                    assert(assigned@.to_multiset().count(assigned@[k]) > 0);
                    if assigned@[k] != cv {
                        assert(a0.to_multiset().count(assigned@[k]) > 0);
                    }
                }
            }
        } else {
            proof {
                assert(kept(src.take(i + 1), employee_id@, true) == kept(pre, employee_id@, true));
                assert(kept(src.take(i + 1), employee_id@, false) == kept(pre, employee_id@, false));
            }
        }
    }
    proof {
        assert(src.take(n as int) =~= src);
    }
    (assigned, unassigned)
}

/// Whether a development task can be claimed: it must be a development task
/// that has only its branch.
pub fn check_claim(is_development: bool, status: DevTaskStatus) -> (r: Result<(), DevError>)
    ensures
        !is_development ==> r == Err::<(), DevError>(DevError::TaskNotFound),
        is_development && status != DevTaskStatus::BranchCreated ==> r == Err::<(), DevError>(DevError::TaskActionInvalid),
        is_development && status == DevTaskStatus::BranchCreated ==> r is Ok,
{
    if !is_development {
        return Err(DevError::TaskNotFound);
    }
    if status != DevTaskStatus::BranchCreated {
        return Err(DevError::TaskActionInvalid);
    }
    Ok(())
}

/// Who a claimed task is assigned to: the claiming employee unless someone
/// (non-blank) already holds it.
pub fn claim_assignee(assignee: Option<String>, employee_id: &str) -> (r: Option<String>)
    ensures
        match assignee {
            Some(a) => if trim(a@).len() > 0 { r == Some(a) } else { r matches Some(x) && x@ == employee_id@ },
            None => r matches Some(x) && x@ == employee_id@,
        },
{
    match assignee {
        Some(a) => {
            let t = trimmed(a.as_str());
            if t.as_str().is_empty() {
                Some(employee_id.to_owned())
            } else {
                Some(a)
            }
        },
        None => Some(employee_id.to_owned()),
    }
}

/// Claims a development task for `employee_id`: refused as `check_claim`
/// says, else the task's new assignee (it then moves to `InDevelopment`).
pub fn claim_dev_task(is_development: bool, status: DevTaskStatus, assignee: Option<String>, employee_id: &str) -> (r: Result<Option<String>, DevError>)
    ensures
        !is_development ==> r == Err::<Option<String>, DevError>(DevError::TaskNotFound),
        is_development && status != DevTaskStatus::BranchCreated ==> r == Err::<Option<String>, DevError>(DevError::TaskActionInvalid),
        is_development && status == DevTaskStatus::BranchCreated ==> (r matches Ok(a) && match assignee {
            Some(x) => if trim(x@).len() > 0 { a == Some(x) } else { a matches Some(y) && y@ == employee_id@ },
            None => a matches Some(y) && y@ == employee_id@,
        }),
{
    match check_claim(is_development, status) {
        Err(e) => Err(e),
        Ok(()) => Ok(claim_assignee(assignee, employee_id)),
    }
}

/// The editable fields of a development task after `payload` is applied: a
/// given title replaces the old one trimmed (refused when blank); the assignee
/// becomes the given one unless it is absent or blank, then none; a given
/// progress replaces the old one, capped at 100. Refused with `TaskNotFound`
/// when the task is not a development task of the requirement.
pub fn apply_task_update(
    belongs: bool,
    title: String,
    progress: u8,
    payload: &UpdateTaskRequest,
) -> (r: Result<(String, Option<String>, u8), DevError>)
    ensures
        !belongs ==> r == Err::<(String, Option<String>, u8), DevError>(DevError::TaskNotFound),
        belongs && (payload.title matches Some(t) && trim(t@).len() == 0) ==> r == Err::<(String, Option<String>, u8), DevError>(DevError::TaskTitleEmpty),
        belongs && !(payload.title matches Some(t) && trim(t@).len() == 0) ==> (r matches Ok((t2, a2, p2)) && {
            &&& t2@ == match payload.title { Some(t) => trim(t@), None => title@ }
            &&& a2 == match payload.assignee { Some(a) => if trim(a@).len() > 0 { Some(a) } else { None }, None => None }
            &&& p2 == match payload.progress { Some(p) => if p <= 100 { p } else { 100u8 }, None => progress }
        }),
{
    if !belongs {
        return Err(DevError::TaskNotFound);
    }
    let new_title = match &payload.title {
        Some(t) => {
            let tt = trimmed(t.as_str());
            if tt.as_str().is_empty() {
                return Err(DevError::TaskTitleEmpty);
            }
            tt
        },
        None => title,
    };
    let assignee = match &payload.assignee {
        Some(a) => {
            let ta = trimmed(a.as_str());
            if ta.as_str().is_empty() {
                None
            } else {
                Some(a.clone())
            }
        },
        None => None,
    };
    let new_progress = match payload.progress {
        Some(p) => if p <= 100 { p } else { 100 },
        None => progress,
    };
    Ok((new_title, assignee, new_progress))
}

/// The requirement's current task after task `deleted` was deleted: the last
/// remaining development task when the deleted one was current, else unchanged.
pub fn current_after_delete(current: Option<String>, deleted: &str, remaining: &Vec<String>) -> (r: Option<String>)
    ensures
        (current matches Some(c) && c@ == deleted@) ==> r == (if remaining@.len() > 0 { Some(remaining@.last()) } else { None::<String> }),
        !(current matches Some(c) && c@ == deleted@) ==> r == current,
{
    match current {
        Some(c) => {
            if same_text(c.as_str(), deleted) {
                if remaining.len() > 0 {
                    Some(remaining[remaining.len() - 1].clone())
                } else {
                    None
                }
            } else {
                Some(c)
            }
        },
        None => None,
    }
}

} // verus!
