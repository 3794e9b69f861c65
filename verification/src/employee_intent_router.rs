use vstd::prelude::*;
use crate::intent::context::{first_contained, first_named, named_or_only, IntentContext};
use crate::intent::detectors::{
    detect_lowered, detection_view, expected_detection_lowered, lemma_work_task_list_names_chatter, DetectorKind,
};
use crate::text::{has_substring, lowercase, to_lowercase, views};

verus! {

/// What a chat message asks for.
#[derive(Debug, Clone, Copy, PartialEq, Eq, Structural)]
pub enum IntentType {
    RequirementReview,
    RequirementList,
    RequirementDetail,
    RequirementConfirm,
    DevelopmentStart,
    DevTaskCreate,
    DevTaskList,
    WorkTaskList,
    WorkTaskDetail,
    WorkTaskAssign,
    AutonomyRun,
    AutonomyExplore,
    GeneralChat,
}

impl IntentType {
    pub open spec fn terminal(self) -> bool {
        ||| self == IntentType::RequirementReview
        ||| self == IntentType::RequirementList
        ||| self == IntentType::RequirementDetail
        ||| self == IntentType::RequirementConfirm
    }

    /// Whether the intent is answered without a coding agent.
    pub fn is_terminal(&self) -> (r: bool)
        ensures
            r == self.terminal(),
    {
        matches!(
            self,
            IntentType::RequirementReview | IntentType::RequirementList | IntentType::RequirementDetail
                | IntentType::RequirementConfirm
        )
    }

    /// Whether the intent needs a coding agent: every one that is not terminal.
    pub fn requires_code_agent(&self) -> (r: bool)
        ensures
            r == !self.terminal(),
    {
        !self.is_terminal()
    }
}

/// An intent found in a message, how sure the finding is (in thousandths),
/// and the ids it names.
#[derive(Debug)]
pub struct IntentDetection {
    pub intent_type: IntentType,
    pub confidence_permille: u16,
    pub requirement_id: Option<String>,
    pub employee_id: Option<String>,
}

/// What handling an intent produced.
#[derive(Debug)]
pub struct IntentResult {
    pub output: String,
    pub exit_code: Option<i32>,
    pub tool_instance_id: Option<String>,
    pub task_id: Option<String>,
    pub output_preview: Option<String>,
}

/// The id of `ids` that `input` names first, else the first id.
pub open spec fn named_or_first(input: Seq<char>, ids: Seq<Seq<char>>) -> Option<Seq<char>> {
    if exists|i: int| 0 <= i < ids.len() && has_substring(input, #[trigger] ids[i]) {
        Some(ids[first_contained(input, ids)])
    } else if ids.len() > 0 {
        Some(ids[0])
    } else {
        None
    }
}

/// The id that `input` names first among `ids`, else the first of them.
fn named_or_first_exec(input: &str, ids: &Vec<String>) -> (r: Option<String>)
    ensures
        match r {
            Some(x) => named_or_first(input@, views(ids@)) == Some(x@),
            None => named_or_first(input@, views(ids@)) is None,
        },
{
    let ghost vs = views(ids@);
    match first_named(input, ids) {
        Some(i) => {
            proof {
                assert(vs[i as int] == ids@[i as int]@);
                assert forall|j: int| 0 <= j < i implies !has_substring(input@, #[trigger] vs[j]) by {
                    assert(vs[j] == ids@[j]@);
                }
                let k = first_contained(input@, vs);
                assert(0 <= k < vs.len() && has_substring(input@, vs[k]) && forall|j: int| 0 <= j < k ==> !has_substring(input@, #[trigger] vs[j]));
                if k < i {
                    assert(!has_substring(input@, vs[k]));
                }
                if (i as int) < k {
                    assert(!has_substring(input@, vs[i as int]));
                }
            }
            Some(ids[i].clone())
        },
        None => {
            proof {
                assert forall|j: int| 0 <= j < vs.len() implies !has_substring(input@, #[trigger] vs[j]) by {
                    assert(vs[j] == ids@[j]@);
                }
            }
            if ids.len() > 0 {
                Some(ids[0].clone())
            } else {
                None
            }
        },
    }
}

/// The requirement that `input` names first, else the first known one.
pub fn extract_requirement_id(input: &str, known_ids: &Vec<String>) -> (r: Option<String>)
    ensures
        match r {
            Some(x) => named_or_first(input@, views(known_ids@)) == Some(x@),
            None => named_or_first(input@, views(known_ids@)) is None,
        },
{
    named_or_first_exec(input, known_ids)
}

/// The employee that `input` names first, else the first known one.
pub fn extract_employee_id(input: &str, known_ids: &Vec<String>) -> (r: Option<String>)
    ensures
        match r {
            Some(x) => named_or_first(input@, views(known_ids@)) == Some(x@),
            None => named_or_first(input@, views(known_ids@)) is None,
        },
{
    named_or_first_exec(input, known_ids)
}

/// Asking the context first and falling back to the first known id names the
/// same requirement as `named_or_first`.
pub proof fn lemma_context_then_first(input: Seq<char>, ids: Seq<Seq<char>>)
    ensures
        (match named_or_only(input, ids) {
            Some(x) => Some(x),
            None => named_or_first(input, ids),
        }) == named_or_first(input, ids),
{
}

/// The detectors in the order they are asked and the intents that have a
/// handler of their own.
#[derive(Debug)]
pub struct IntentRouter {
    pub detectors: Vec<DetectorKind>,
    pub handlers: Vec<IntentType>,
}

/// Whether the detectors are ordered by falling rank.
pub open spec fn ranks_descending(ds: Seq<DetectorKind>) -> bool {
    forall|i: int, j: int| 0 <= i < j < ds.len() ==> (#[trigger] ds[i]).rank() >= (#[trigger] ds[j]).rank()
}

/// The first finding, from detector `i` on, that is surer than one half, for
/// `input` whose lower-cased text is `lower`.
pub open spec fn first_detection_lowered(ds: Seq<DetectorKind>, input: Seq<char>, lower: Seq<char>, ctx: IntentContext, i: int) -> Option<
    (IntentType, u16, Option<Seq<char>>, Option<Seq<char>>),
>
    decreases ds.len() - i,
{
    if i < 0 || i >= ds.len() {
        None
    } else {
        match expected_detection_lowered(ds[i], input, lower, ctx) {
            Some(d) => if d.1 > 500 { Some(d) } else { first_detection_lowered(ds, input, lower, ctx, i + 1) },
            None => first_detection_lowered(ds, input, lower, ctx, i + 1),
        }
    }
}

/// The first finding, from detector `i` on, that is surer than one half.
pub open spec fn first_detection(ds: Seq<DetectorKind>, input: Seq<char>, ctx: IntentContext, i: int) -> Option<
    (IntentType, u16, Option<Seq<char>>, Option<Seq<char>>),
> {
    first_detection_lowered(ds, input, lowercase(input), ctx, i)
}

impl IntentRouter {
    /// The router's invariant: its detectors are ordered by falling rank.
    pub open spec fn wf(&self) -> bool {
        ranks_descending(self.detectors@)
    }

    /// A router with no detector and no handler.
    pub fn new() -> (r: IntentRouter)
        ensures
            r.wf(),
            r.detectors@.len() == 0,
            r.handlers@.len() == 0,
    {
        IntentRouter { detectors: Vec::new(), handlers: Vec::new() }
    }

    /// Adds a detector after every one of the same or higher rank.
    pub fn register_detector(&mut self, detector: DetectorKind)
        requires
            old(self).wf(),
        ensures
            final(self).wf(),
            final(self).handlers == old(self).handlers,
            exists|p: int|
                0 <= p <= old(self).detectors@.len() && final(self).detectors@ == old(self).detectors@.insert(p, detector)
                    && (forall|k: int| 0 <= k < p ==> (#[trigger] old(self).detectors@[k]).rank() >= detector.rank())
                    && (forall|k: int| p <= k < old(self).detectors@.len() ==> (#[trigger] old(self).detectors@[k]).rank() < detector.rank()),
    {
        let rank = detector.priority();
        let mut p: usize = 0;
        while p < self.detectors.len() && self.detectors[p].priority() >= rank
            invariant
                p <= self.detectors@.len(),
                rank == detector.rank(),
                forall|k: int| 0 <= k < p ==> (#[trigger] self.detectors@[k]).rank() >= rank,
            decreases self.detectors@.len() - p,
        {
            p = p + 1;
        }
        let ghost before = self.detectors@;
        proof {
            assert forall|k: int| p <= k < before.len() implies (#[trigger] before[k]).rank() < rank by {
                assert(before[p as int].rank() < rank);
                if k > p {
                    assert(before[p as int].rank() >= before[k].rank());
                }
            }
        }
        self.detectors.insert(p, detector);
        proof {
            let d = self.detectors@;
            assert forall|i: int, j: int| 0 <= i < j < d.len() implies (#[trigger] d[i]).rank() >= (#[trigger] d[j]).rank() by {
                if j < p {
                    assert(d[i] == before[i] && d[j] == before[j]);
                } else if j == p {
                    assert(d[i] == before[i]);
                } else if i == p {
                    assert(d[j] == before[j - 1]);
                } else if i < p {
                    assert(d[i] == before[i] && d[j] == before[j - 1]);
                } else {
                    assert(d[i] == before[i - 1] && d[j] == before[j - 1]);
                }
            }
        }
    }

    /// Gives `intent_type` a handler of its own.
    pub fn register_handler(&mut self, intent_type: IntentType)
        ensures
            final(self).detectors == old(self).detectors,
            final(self).handlers@.contains(intent_type),
            forall|t: IntentType| old(self).handlers@.contains(t) ==> final(self).handlers@.contains(t),
            forall|t: IntentType| final(self).handlers@.contains(t) ==> old(self).handlers@.contains(t) || t == intent_type,
            final(self).handlers@ == (if old(self).handlers@.contains(intent_type) {
                old(self).handlers@
            } else {
                old(self).handlers@.push(intent_type)
            }),
    {
        if !self.handles(intent_type) {
            let ghost before = self.handlers@;
            self.handlers.push(intent_type);
            assert(self.handlers@ == before.push(intent_type));
            assert forall|t: IntentType| before.contains(t) implies self.handlers@.contains(t) by {
                let k = choose|k: int| 0 <= k < before.len() && before[k] == t;
                assert(self.handlers@[k] == t);
            }
            assert forall|t: IntentType| self.handlers@.contains(t) implies before.contains(t) || t == intent_type by {
                let k = choose|k: int| 0 <= k < self.handlers@.len() && self.handlers@[k] == t;
                if k < before.len() {
                    assert(before[k] == t);
                }
            }
            assert(self.handlers@[self.handlers@.len() - 1] == intent_type);
        }
    }

    /// Whether `intent_type` has a handler of its own.
    pub fn handles(&self, intent_type: IntentType) -> (r: bool)
        ensures
            r == self.handlers@.contains(intent_type),
    {
        let mut i: usize = 0;
        while i < self.handlers.len()
            invariant
                i <= self.handlers@.len(),
                forall|j: int| 0 <= j < i ==> self.handlers@[j] != intent_type,
            decreases self.handlers@.len() - i,
        {
            if self.handlers[i] == intent_type {
                return true;
            }
            i = i + 1;
        }
        false
    }

    /// The first finding of the detectors, in order, that is surer than one half.
    pub fn detect(&self, input: &str, ctx: &IntentContext) -> (r: Option<IntentDetection>)
        ensures
            match r {
                Some(d) => first_detection(self.detectors@, input@, *ctx, 0) == Some(detection_view(d)),
                None => first_detection(self.detectors@, input@, *ctx, 0) is None,
            },
            r matches Some(d) ==> (d.intent_type == IntentType::WorkTaskList ==> (d.employee_id matches Some(e)
                && e@ == ctx.employee_id@)),
    {
        let lower = to_lowercase(input);
        self.detect_lowered(input, lower.as_str(), ctx)
    }

    /// The first finding of the detectors, in order, that is surer than one
    /// half, for `input` whose lower-cased text is `lower`.
    pub fn detect_lowered(&self, input: &str, lower: &str, ctx: &IntentContext) -> (r: Option<IntentDetection>)
        ensures
            match r {
                Some(d) => first_detection_lowered(self.detectors@, input@, lower@, *ctx, 0) == Some(detection_view(d)),
                None => first_detection_lowered(self.detectors@, input@, lower@, *ctx, 0) is None,
            },
            r matches Some(d) ==> (d.intent_type == IntentType::WorkTaskList ==> (d.employee_id matches Some(e)
                && e@ == ctx.employee_id@)),
    {
        let mut i: usize = 0;
        while i < self.detectors.len()
            invariant
                i <= self.detectors@.len(),
                first_detection_lowered(self.detectors@, input@, lower@, *ctx, 0) == first_detection_lowered(self.detectors@, input@, lower@, *ctx, i as int),
            decreases self.detectors@.len() - i,
        {
            if let Some(d) = detect_lowered(self.detectors[i], input, lower, ctx) {
                proof {
                    lemma_work_task_list_names_chatter(self.detectors@[i as int], input@, lower@, *ctx);
                }
                if d.confidence_permille > 500 {
                    return Some(d);
                }
            }
            i = i + 1;
        }
        None
    }

    /// The intent a message is answered by: the one detected when it has a
    /// handler, else general chat.
    pub fn route(&self, detection: &Option<IntentDetection>) -> (r: IntentType)
        ensures
            r == match detection {
                Some(d) => if self.handlers@.contains(d.intent_type) { d.intent_type } else { IntentType::GeneralChat },
                None => IntentType::GeneralChat,
            },
    {
        match detection {
            Some(d) => if self.handles(d.intent_type) { d.intent_type } else { IntentType::GeneralChat },
            None => IntentType::GeneralChat,
        }
    }

    /// The intent detected in a message, if any.
    pub fn detect_intent_type(&self, input: &str, ctx: &IntentContext) -> (r: Option<IntentType>)
        ensures
            match first_detection(self.detectors@, input@, *ctx, 0) {
                Some(d) => r == Some(d.0),
                None => r is None,
            },
    {
        match self.detect(input, ctx) {
            Some(d) => Some(d.intent_type),
            None => None,
        }
    }
}

} // verus!
