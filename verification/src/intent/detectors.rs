use vstd::prelude::*;
use crate::employee_intent_router::{
    extract_requirement_id, named_or_first, IntentDetection, IntentType, lemma_context_then_first,
};
use crate::intent::context::{named_or_only, IntentContext};
use crate::text::{contains, has_substring, lowercase, to_lowercase, views};

verus! {

/// The views of string literals.
pub open spec fn strs(v: Seq<&str>) -> Seq<Seq<char>> {
    v.map_values(|s: &str| s@)
}

/// Whether `lower` holds one of `triggers`.
pub open spec fn mentions_any(lower: Seq<char>, triggers: Seq<Seq<char>>) -> bool {
    exists|i: int| 0 <= i < triggers.len() && has_substring(lower, #[trigger] triggers[i])
}

/// Whether `lower` holds one of `triggers`.
fn contains_any(lower: &str, triggers: &Vec<&str>) -> (r: bool)
    ensures
        r == mentions_any(lower@, strs(triggers@)),
{
    let mut i: usize = 0;
    while i < triggers.len()
        invariant
            i <= triggers@.len(),
            forall|j: int| 0 <= j < i ==> !has_substring(lower@, #[trigger] strs(triggers@)[j]),
        decreases triggers@.len() - i,
    {
        assert(strs(triggers@)[i as int] == triggers@[i as int]@);
        if contains(lower, triggers[i]) {
            return true;
        }
        i = i + 1;
    }
    false
}

/// The detectors that the router knows.
#[derive(Debug, Clone, Copy, PartialEq, Eq, Structural)]
pub enum DetectorKind {
    Review,
    RequirementList,
    RequirementDetail,
    RequirementConfirm,
    DevelopmentStart,
    DevTaskCreate,
    DevTaskList,
    WorkTaskList,
    AutonomyRun,
    AutonomyExplore,
}

/// How a detector names the requirement in what it finds.
#[derive(Debug, Clone, Copy, PartialEq, Eq, Structural)]
pub enum RequirementParam {
    /// It names none.
    Unused,
    /// It names one when it can.
    Optional,
    /// It finds nothing unless it can name one.
    Required,
}

impl DetectorKind {
    /// The phrases that make the detector fire (matched in the lower-cased message).
    pub open spec fn triggers(self) -> Seq<Seq<char>> {
        match self {
            DetectorKind::Review => seq![
                "进入需求评审"@, "开始需求评审"@, "启动需求评审"@, "需求评审"@, "开始评审"@, "进入评审"@,
                "start requirement review"@, "enter requirement review"@, "run requirement review"@,
                "开始评审需求"@, "发起评审"@,
            ],
            DetectorKind::RequirementList => seq![
                "列出需求"@, "所有需求"@, "需求列表"@, "查看需求"@, "显示需求"@, "list requirements"@,
                "show requirements"@, "all requirements"@, "requirement list"@, "查看有哪些需求"@, "需求有哪些"@,
            ],
            DetectorKind::RequirementDetail => seq![
                "查看需求详情"@, "需求详情"@, "看看需求"@, "需求详情"@, "requirement detail"@, "show requirement"@,
                "查看需求"@, "看下需求"@, "查看详情"@,
            ],
            DetectorKind::RequirementConfirm => seq![
                "确认需求"@, "需求确认"@, "确认这个需求"@, "confirm requirement"@, "confirm requirement"@,
                "需求通过"@, "通过需求"@,
            ],
            DetectorKind::DevelopmentStart => seq![
                "开始开发"@, "启动开发"@, "开始编码"@, "进入开发"@, "start development"@, "start coding"@,
                "begin development"@, "开始写代码"@, "开发这个需求"@, "开始做"@,
            ],
            DetectorKind::DevTaskCreate => seq![
                "创建任务"@, "新建任务"@, "添加任务"@, "创建开发任务"@, "create task"@, "add task"@, "new task"@,
                "创建一个任务"@, "新建一个开发任务"@,
            ],
            DetectorKind::DevTaskList => seq![
                "任务列表"@, "开发任务列表"@, "查看任务"@, "显示任务"@, "task list"@, "show tasks"@, "list tasks"@,
                "有哪些任务"@, "查看开发任务"@, "开发任务有哪些"@,
            ],
            DetectorKind::WorkTaskList => seq![
                "我的任务"@, "工作任务"@, "任务列表"@, "查看我的任务"@, "my tasks"@, "work tasks"@, "show my tasks"@,
                "我有什么任务"@, "分配给我的任务"@,
            ],
            DetectorKind::AutonomyRun => seq![
                "自主运行"@, "开始工作"@, "自主工作"@, "run autonomy"@, "start autonomy"@, "autonomous work"@,
                "自己工作"@, "自主模式"@, "开始自主"@,
            ],
            DetectorKind::AutonomyExplore => seq![
                "探索代码"@, "探索"@, "explore code"@, "start explore"@, "探索模式"@, "分析代码"@, "explore"@,
                "开始探索"@,
            ],
        }
    }

    /// The phrases that make the detector fire.
    pub fn trigger_list(&self) -> (r: Vec<&'static str>)
        ensures
            strs(r@) == self.triggers(),
    {
        let r = match self {
            DetectorKind::Review => vec![
                "进入需求评审", "开始需求评审", "启动需求评审", "需求评审", "开始评审", "进入评审",
                "start requirement review", "enter requirement review", "run requirement review",
                "开始评审需求", "发起评审",
            ],
            DetectorKind::RequirementList => vec![
                "列出需求", "所有需求", "需求列表", "查看需求", "显示需求", "list requirements",
                "show requirements", "all requirements", "requirement list", "查看有哪些需求", "需求有哪些",
            ],
            DetectorKind::RequirementDetail => vec![
                "查看需求详情", "需求详情", "看看需求", "需求详情", "requirement detail", "show requirement",
                "查看需求", "看下需求", "查看详情",
            ],
            DetectorKind::RequirementConfirm => vec![
                "确认需求", "需求确认", "确认这个需求", "confirm requirement", "confirm requirement",
                "需求通过", "通过需求",
            ],
            DetectorKind::DevelopmentStart => vec![
                "开始开发", "启动开发", "开始编码", "进入开发", "start development", "start coding",
                "begin development", "开始写代码", "开发这个需求", "开始做",
            ],
            DetectorKind::DevTaskCreate => vec![
                "创建任务", "新建任务", "添加任务", "创建开发任务", "create task", "add task", "new task",
                "创建一个任务", "新建一个开发任务",
            ],
            DetectorKind::DevTaskList => vec![
                "任务列表", "开发任务列表", "查看任务", "显示任务", "task list", "show tasks", "list tasks",
                "有哪些任务", "查看开发任务", "开发任务有哪些",
            ],
            DetectorKind::WorkTaskList => vec![
                "我的任务", "工作任务", "任务列表", "查看我的任务", "my tasks", "work tasks", "show my tasks",
                "我有什么任务", "分配给我的任务",
            ],
            DetectorKind::AutonomyRun => vec![
                "自主运行", "开始工作", "自主工作", "run autonomy", "start autonomy", "autonomous work",
                "自己工作", "自主模式", "开始自主",
            ],
            DetectorKind::AutonomyExplore => vec![
                "探索代码", "探索", "explore code", "start explore", "探索模式", "分析代码", "explore",
                "开始探索",
            ],
        };
        assert(strs(r@) =~= self.triggers());
        r
    }

    /// The intent the detector finds.
    pub open spec fn intent(self) -> IntentType {
        match self {
            DetectorKind::Review => IntentType::RequirementReview,
            DetectorKind::RequirementList => IntentType::RequirementList,
            DetectorKind::RequirementDetail => IntentType::RequirementDetail,
            DetectorKind::RequirementConfirm => IntentType::RequirementConfirm,
            DetectorKind::DevelopmentStart => IntentType::DevelopmentStart,
            DetectorKind::DevTaskCreate => IntentType::DevTaskCreate,
            DetectorKind::DevTaskList => IntentType::DevTaskList,
            DetectorKind::WorkTaskList => IntentType::WorkTaskList,
            DetectorKind::AutonomyRun => IntentType::AutonomyRun,
            DetectorKind::AutonomyExplore => IntentType::AutonomyExplore,
        }
    }

    /// How sure the detector is of what it finds, in thousandths.
    pub open spec fn confidence(self) -> u16 {
        match self {
            DetectorKind::Review | DetectorKind::RequirementList => 900,
            DetectorKind::WorkTaskList | DetectorKind::AutonomyRun | DetectorKind::AutonomyExplore => 800,
            _ => 850,
        }
    }

    /// How the detector names a requirement.
    pub open spec fn requirement_param(self) -> RequirementParam {
        match self {
            DetectorKind::Review | DetectorKind::RequirementDetail | DetectorKind::RequirementConfirm => RequirementParam::Required,
            DetectorKind::DevelopmentStart | DetectorKind::DevTaskCreate | DetectorKind::DevTaskList => RequirementParam::Optional,
            _ => RequirementParam::Unused,
        }
    }

    /// The detector's rank: those of higher rank are asked first.
    pub open spec fn rank(self) -> i32 {
        match self {
            DetectorKind::Review => 100,
            DetectorKind::RequirementList | DetectorKind::RequirementDetail | DetectorKind::RequirementConfirm => 90,
            DetectorKind::DevelopmentStart | DetectorKind::DevTaskCreate | DetectorKind::DevTaskList => 80,
            DetectorKind::WorkTaskList => 70,
            _ => 60,
        }
    }

    /// The detector's rank.
    pub fn priority(&self) -> (r: i32)
        ensures
            r == self.rank(),
    {
        match self {
            DetectorKind::Review => 100,
            DetectorKind::RequirementList | DetectorKind::RequirementDetail | DetectorKind::RequirementConfirm => 90,
            DetectorKind::DevelopmentStart | DetectorKind::DevTaskCreate | DetectorKind::DevTaskList => 80,
            DetectorKind::WorkTaskList => 70,
            _ => 60,
        }
    }
}

/// What a detection says: intent, confidence and the ids it names.
pub open spec fn detection_view(d: IntentDetection) -> (IntentType, u16, Option<Seq<char>>, Option<Seq<char>>) {
    (
        d.intent_type,
        d.confidence_permille,
        match d.requirement_id {
            Some(x) => Some(x@),
            None => None,
        },
        match d.employee_id {
            Some(x) => Some(x@),
            None => None,
        },
    )
}

/// What detector `kind` finds in `input`, whose lower-cased text is `lower`:
/// nothing unless `lower` holds one of its phrases; then its intent and confidence, the requirement
/// that the input names (or the known one to fall back on) where it uses one
/// (nothing at all when it needs one and there is none), and the chatting
/// employee for the work-task list.
pub open spec fn expected_detection_lowered(kind: DetectorKind, input: Seq<char>, lower: Seq<char>, ctx: IntentContext) -> Option<
    (IntentType, u16, Option<Seq<char>>, Option<Seq<char>>),
> {
    if !mentions_any(lower, kind.triggers()) {
        None
    } else {
        let req = named_or_first(input, views(ctx.known_requirement_ids@));
        let emp = if kind == DetectorKind::WorkTaskList { Some(ctx.employee_id@) } else { None };
        match kind.requirement_param() {
            RequirementParam::Unused => Some((kind.intent(), kind.confidence(), None, emp)),
            RequirementParam::Optional => Some((kind.intent(), kind.confidence(), req, emp)),
            RequirementParam::Required => if req is Some {
                Some((kind.intent(), kind.confidence(), req, emp))
            } else {
                None
            },
        }
    }
}

/// A work-task list that is detected is the chatting employee's: it names
/// `ctx.employee_id`, so the list shows that employee's tasks alone; no other
/// detector names an employee.
pub proof fn lemma_work_task_list_names_chatter(kind: DetectorKind, input: Seq<char>, lower: Seq<char>, ctx: IntentContext)
    ensures
        expected_detection_lowered(kind, input, lower, ctx) matches Some(d) ==> {
            &&& d.0 == kind.intent()
            &&& kind == DetectorKind::WorkTaskList ==> d.3 == Some(ctx.employee_id@)
            &&& kind != DetectorKind::WorkTaskList ==> d.3 is None
        },
        kind.intent() == IntentType::WorkTaskList ==> kind == DetectorKind::WorkTaskList,
{
}

/// What detector `kind` finds in `input`, matching its phrases in the
/// lower-cased input.
pub open spec fn expected_detection(kind: DetectorKind, input: Seq<char>, ctx: IntentContext) -> Option<
    (IntentType, u16, Option<Seq<char>>, Option<Seq<char>>),
> {
    expected_detection_lowered(kind, input, lowercase(input), ctx)
}

/// What detector `kind` finds in `input`.
pub fn detect_with(kind: DetectorKind, input: &str, ctx: &IntentContext) -> (r: Option<IntentDetection>)
    ensures
        match r {
            Some(d) => expected_detection(kind, input@, *ctx) == Some(detection_view(d)),
            None => expected_detection(kind, input@, *ctx) is None,
        },        r matches Some(d) ==> {
            &&& d.intent_type == kind.intent()
            &&& kind == DetectorKind::WorkTaskList ==> (d.employee_id matches Some(e) && e@ == ctx.employee_id@)
            &&& kind != DetectorKind::WorkTaskList ==> d.employee_id is None
        },
{
    let lower = to_lowercase(input);
    detect_lowered(kind, input, lower.as_str(), ctx)
}

/// What detector `kind` finds in `input`, given its lower-cased text `lower`.
pub fn detect_lowered(kind: DetectorKind, input: &str, lower: &str, ctx: &IntentContext) -> (r: Option<IntentDetection>)
    ensures
        match r {
            Some(d) => expected_detection_lowered(kind, input@, lower@, *ctx) == Some(detection_view(d)),
            None => expected_detection_lowered(kind, input@, lower@, *ctx) is None,
        },        r matches Some(d) ==> {
            &&& d.intent_type == kind.intent()
            &&& kind == DetectorKind::WorkTaskList ==> (d.employee_id matches Some(e) && e@ == ctx.employee_id@)
            &&& kind != DetectorKind::WorkTaskList ==> d.employee_id is None
        },
{
    let triggers = kind.trigger_list();
    if !contains_any(lower, &triggers) {
        return None;
    }
    proof {
        lemma_context_then_first(input@, views(ctx.known_requirement_ids@));
    }
    let req = match ctx.find_requirement_id(input) {
        Some(x) => Some(x),
        None => extract_requirement_id(input, &ctx.known_requirement_ids),
    };
    let confidence: u16 = match kind {
        DetectorKind::Review | DetectorKind::RequirementList => 900,
        DetectorKind::WorkTaskList | DetectorKind::AutonomyRun | DetectorKind::AutonomyExplore => 800,
        _ => 850,
    };
    let intent_type = match kind {
        DetectorKind::Review => IntentType::RequirementReview,
        DetectorKind::RequirementList => IntentType::RequirementList,
        DetectorKind::RequirementDetail => IntentType::RequirementDetail,
        DetectorKind::RequirementConfirm => IntentType::RequirementConfirm,
        DetectorKind::DevelopmentStart => IntentType::DevelopmentStart,
        DetectorKind::DevTaskCreate => IntentType::DevTaskCreate,
        DetectorKind::DevTaskList => IntentType::DevTaskList,
        DetectorKind::WorkTaskList => IntentType::WorkTaskList,
        DetectorKind::AutonomyRun => IntentType::AutonomyRun,
        DetectorKind::AutonomyExplore => IntentType::AutonomyExplore,
    };
    let employee_id = if kind == DetectorKind::WorkTaskList { Some(ctx.employee_id.clone()) } else { None };
    match kind {
        DetectorKind::Review | DetectorKind::RequirementDetail | DetectorKind::RequirementConfirm => {
            if req.is_none() {
                return None;
            }
            Some(IntentDetection { intent_type, confidence_permille: confidence, requirement_id: req, employee_id })
        },
        DetectorKind::DevelopmentStart | DetectorKind::DevTaskCreate | DetectorKind::DevTaskList => {
            Some(IntentDetection { intent_type, confidence_permille: confidence, requirement_id: req, employee_id })
        },
        _ => Some(IntentDetection { intent_type, confidence_permille: confidence, requirement_id: None, employee_id }),
    }
}

/// Finds requests for a requirement review.
#[derive(Debug, Clone, Copy)]
pub struct ReviewIntentDetector;

impl ReviewIntentDetector {
    /// What this detector finds in `input`.
    pub fn detect(&self, input: &str, ctx: &IntentContext) -> (r: Option<IntentDetection>)
        ensures
            match r {
                Some(d) => expected_detection(DetectorKind::Review, input@, *ctx) == Some(detection_view(d)),
                None => expected_detection(DetectorKind::Review, input@, *ctx) is None,
            },
    {
        detect_with(DetectorKind::Review, input, ctx)
    }

    /// This detector's rank.
    pub fn priority(&self) -> (r: i32)
        ensures
            r == DetectorKind::Review.rank(),
    {
        DetectorKind::Review.priority()
    }
}

/// Finds requests for a requirement list.
#[derive(Debug, Clone, Copy)]
pub struct RequirementListDetector;

impl RequirementListDetector {
    /// What this detector finds in `input`.
    pub fn detect(&self, input: &str, ctx: &IntentContext) -> (r: Option<IntentDetection>)
        ensures
            match r {
                Some(d) => expected_detection(DetectorKind::RequirementList, input@, *ctx) == Some(detection_view(d)),
                None => expected_detection(DetectorKind::RequirementList, input@, *ctx) is None,
            },
    {
        detect_with(DetectorKind::RequirementList, input, ctx)
    }

    /// This detector's rank.
    pub fn priority(&self) -> (r: i32)
        ensures
            r == DetectorKind::RequirementList.rank(),
    {
        DetectorKind::RequirementList.priority()
    }
}

/// Finds requests for a requirement detail.
#[derive(Debug, Clone, Copy)]
pub struct RequirementDetailDetector;

impl RequirementDetailDetector {
    /// What this detector finds in `input`.
    pub fn detect(&self, input: &str, ctx: &IntentContext) -> (r: Option<IntentDetection>)
        ensures
            match r {
                Some(d) => expected_detection(DetectorKind::RequirementDetail, input@, *ctx) == Some(detection_view(d)),
                None => expected_detection(DetectorKind::RequirementDetail, input@, *ctx) is None,
            },
    {
        detect_with(DetectorKind::RequirementDetail, input, ctx)
    }

    /// This detector's rank.
    pub fn priority(&self) -> (r: i32)
        ensures
            r == DetectorKind::RequirementDetail.rank(),
    {
        DetectorKind::RequirementDetail.priority()
    }
}

/// Finds requests for a requirement confirmation.
#[derive(Debug, Clone, Copy)]
pub struct RequirementConfirmDetector;

impl RequirementConfirmDetector {
    /// What this detector finds in `input`.
    pub fn detect(&self, input: &str, ctx: &IntentContext) -> (r: Option<IntentDetection>)
        ensures
            match r {
                Some(d) => expected_detection(DetectorKind::RequirementConfirm, input@, *ctx) == Some(detection_view(d)),
                None => expected_detection(DetectorKind::RequirementConfirm, input@, *ctx) is None,
            },
    {
        detect_with(DetectorKind::RequirementConfirm, input, ctx)
    }

    /// This detector's rank.
    pub fn priority(&self) -> (r: i32)
        ensures
            r == DetectorKind::RequirementConfirm.rank(),
    {
        DetectorKind::RequirementConfirm.priority()
    }
}

/// Finds requests for a development start.
#[derive(Debug, Clone, Copy)]
pub struct DevelopmentStartDetector;

impl DevelopmentStartDetector {
    /// What this detector finds in `input`.
    pub fn detect(&self, input: &str, ctx: &IntentContext) -> (r: Option<IntentDetection>)
        ensures
            match r {
                Some(d) => expected_detection(DetectorKind::DevelopmentStart, input@, *ctx) == Some(detection_view(d)),
                None => expected_detection(DetectorKind::DevelopmentStart, input@, *ctx) is None,
            },
    {
        detect_with(DetectorKind::DevelopmentStart, input, ctx)
    }

    /// This detector's rank.
    pub fn priority(&self) -> (r: i32)
        ensures
            r == DetectorKind::DevelopmentStart.rank(),
    {
        DetectorKind::DevelopmentStart.priority()
    }
}

/// Finds requests for a development task creation.
#[derive(Debug, Clone, Copy)]
pub struct DevTaskCreateDetector;

impl DevTaskCreateDetector {
    /// What this detector finds in `input`.
    pub fn detect(&self, input: &str, ctx: &IntentContext) -> (r: Option<IntentDetection>)
        ensures
            match r {
                Some(d) => expected_detection(DetectorKind::DevTaskCreate, input@, *ctx) == Some(detection_view(d)),
                None => expected_detection(DetectorKind::DevTaskCreate, input@, *ctx) is None,
            },
    {
        detect_with(DetectorKind::DevTaskCreate, input, ctx)
    }

    /// This detector's rank.
    pub fn priority(&self) -> (r: i32)
        ensures
            r == DetectorKind::DevTaskCreate.rank(),
    {
        DetectorKind::DevTaskCreate.priority()
    }
}

/// Finds requests for a development task list.
#[derive(Debug, Clone, Copy)]
pub struct DevTaskListDetector;

impl DevTaskListDetector {
    /// What this detector finds in `input`.
    pub fn detect(&self, input: &str, ctx: &IntentContext) -> (r: Option<IntentDetection>)
        ensures
            match r {
                Some(d) => expected_detection(DetectorKind::DevTaskList, input@, *ctx) == Some(detection_view(d)),
                None => expected_detection(DetectorKind::DevTaskList, input@, *ctx) is None,
            },
    {
        detect_with(DetectorKind::DevTaskList, input, ctx)
    }

    /// This detector's rank.
    pub fn priority(&self) -> (r: i32)
        ensures
            r == DetectorKind::DevTaskList.rank(),
    {
        DetectorKind::DevTaskList.priority()
    }
}

/// Finds requests for a work task list.
#[derive(Debug, Clone, Copy)]
pub struct WorkTaskListDetector;

impl WorkTaskListDetector {
    /// What this detector finds in `input`.
    pub fn detect(&self, input: &str, ctx: &IntentContext) -> (r: Option<IntentDetection>)
        ensures
            match r {
                Some(d) => expected_detection(DetectorKind::WorkTaskList, input@, *ctx) == Some(detection_view(d)),
                None => expected_detection(DetectorKind::WorkTaskList, input@, *ctx) is None,
            },            r matches Some(d) ==> d.intent_type == IntentType::WorkTaskList && (d.employee_id matches Some(e)
                && e@ == ctx.employee_id@),
    {
        detect_with(DetectorKind::WorkTaskList, input, ctx)
    }

    /// This detector's rank.
    pub fn priority(&self) -> (r: i32)
        ensures
            r == DetectorKind::WorkTaskList.rank(),
    {
        DetectorKind::WorkTaskList.priority()
    }
}

/// Finds requests for a autonomy run.
#[derive(Debug, Clone, Copy)]
pub struct AutonomyRunDetector;

impl AutonomyRunDetector {
    /// What this detector finds in `input`.
    pub fn detect(&self, input: &str, ctx: &IntentContext) -> (r: Option<IntentDetection>)
        ensures
            match r {
                Some(d) => expected_detection(DetectorKind::AutonomyRun, input@, *ctx) == Some(detection_view(d)),
                None => expected_detection(DetectorKind::AutonomyRun, input@, *ctx) is None,
            },
    {
        detect_with(DetectorKind::AutonomyRun, input, ctx)
    }

    /// This detector's rank.
    pub fn priority(&self) -> (r: i32)
        ensures
            r == DetectorKind::AutonomyRun.rank(),
    {
        DetectorKind::AutonomyRun.priority()
    }
}

/// Finds requests for a autonomy exploration.
#[derive(Debug, Clone, Copy)]
pub struct AutonomyExploreDetector;

impl AutonomyExploreDetector {
    /// What this detector finds in `input`.
    pub fn detect(&self, input: &str, ctx: &IntentContext) -> (r: Option<IntentDetection>)
        ensures
            match r {
                Some(d) => expected_detection(DetectorKind::AutonomyExplore, input@, *ctx) == Some(detection_view(d)),
                None => expected_detection(DetectorKind::AutonomyExplore, input@, *ctx) is None,
            },
    {
        detect_with(DetectorKind::AutonomyExplore, input, ctx)
    }

    /// This detector's rank.
    pub fn priority(&self) -> (r: i32)
        ensures
            r == DetectorKind::AutonomyExplore.rank(),
    {
        DetectorKind::AutonomyExplore.priority()
    }
}

} // verus!
