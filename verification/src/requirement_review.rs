use vstd::prelude::*;
use crate::requirement::RequirementPhase;
use crate::text::{
    contains, decimal, u64_to_decimal, has_prefix, has_substring, lines_of, lowercase, same_text, split_lines, starts_with,
    to_lowercase, trim, trimmed, views,
};

verus! {

/// Whether a review is still running.
#[derive(Debug, Clone, Copy, PartialEq, Eq, Structural)]
pub enum ReviewStatus {
    InProgress,
    Completed,
}

/// The outcome of a finished review.
#[derive(Debug, Clone, Copy, PartialEq, Eq, Structural)]
pub enum ReviewConclusion {
    Adopt,
    Supplement,
}

/// Where one participant's opinion stands.
#[derive(Debug, Clone, Copy, PartialEq, Eq, Structural)]
pub enum OpinionItemStatus {
    Pending,
    InProgress,
    Revising,
    Completed,
    Abandoned,
}

/// What the current participant is doing.
#[derive(Debug, Clone, Copy, PartialEq, Eq, Structural)]
pub enum ReviewTask {
    Opinion,
    Revise,
}

/// The stored state of a requirement's review.
#[derive(Debug)]
pub struct ReviewStateFile {
    pub requirement_id: String,
    pub status: ReviewStatus,
    pub started_at_ms: u64,
    pub completed_at_ms: Option<u64>,
    pub conclusion: Option<ReviewConclusion>,
    pub participants: Vec<String>,
    pub current_reviewer_id: Option<String>,
    pub current_task: Option<ReviewTask>,
    pub abandoned_participants: Vec<String>,
}

/// One participant's opinion as the API shows it.
#[derive(Debug)]
pub struct ReviewOpinionWire {
    pub task_id: String,
    pub biz_type: String,
    pub biz_id: String,
    pub employee_id: String,
    pub employee_name: String,
    pub role: String,
    pub role_key: Option<String>,
    pub status: OpinionItemStatus,
    pub passed: Option<bool>,
    pub content: Option<String>,
}

/// How many opinions passed, failed, are still open, or gave no verdict.
#[derive(Debug, Clone, Copy, PartialEq, Eq, Structural)]
pub struct ReviewTally {
    pub passed: u32,
    pub failed: u32,
    pub pending: u32,
    pub undecided: u32,
}

/// A review as the API shows it.
#[derive(Debug)]
pub struct RequirementReviewWire {
    pub requirement_id: String,
    pub status: ReviewStatus,
    pub started_at_ms: u64,
    pub completed_at_ms: Option<u64>,
    pub conclusion: Option<ReviewConclusion>,
    pub participants: Vec<String>,
    pub opinions: Vec<ReviewOpinionWire>,
    pub summary: Option<String>,
    pub passed_count: u32,
    pub failed_count: u32,
    pub pending_count: u32,
    pub undecided_count: u32,
    pub abandoned_count: u32,
    pub overall_passed: bool,
}

/// What a user can do to one participant's opinion.
#[derive(Debug, Clone, Copy, PartialEq, Eq, Structural)]
pub enum OpinionUserAction {
    Rerun,
    Pass,
    Fail,
    Abandon,
}

// ---------------------------------------------------------------------------
// Tally

/// The counts of `ops`: passed, failed, open (pending, in progress or
/// revising), and completed without a verdict; abandoned ones count nowhere.
pub open spec fn tally_of(ops: Seq<ReviewOpinionWire>) -> (nat, nat, nat, nat)
    decreases ops.len(),
{
    if ops.len() == 0 {
        (0, 0, 0, 0)
    } else {
        let t = tally_of(ops.drop_last());
        let o = ops.last();
        match o.status {
            OpinionItemStatus::Abandoned => t,
            OpinionItemStatus::Completed => match o.passed {
                Some(true) => ((t.0 + 1) as nat, t.1, t.2, t.3),
                Some(false) => (t.0, (t.1 + 1) as nat, t.2, t.3),
                None => (t.0, t.1, t.2, (t.3 + 1) as nat),
            },
            _ => (t.0, t.1, (t.2 + 1) as nat, t.3),
        }
    }
}

/// The number of abandoned opinions in `ops`.
pub open spec fn abandoned_of(ops: Seq<ReviewOpinionWire>) -> nat
    decreases ops.len(),
{
    if ops.len() == 0 {
        0
    } else if ops.last().status == OpinionItemStatus::Abandoned {
        abandoned_of(ops.drop_last()) + 1
    } else {
        abandoned_of(ops.drop_last())
    }
}

proof fn lemma_tally_bounded(ops: Seq<ReviewOpinionWire>)
    ensures
        tally_of(ops).0 + tally_of(ops).1 + tally_of(ops).2 + tally_of(ops).3 + abandoned_of(ops) == ops.len(),
    decreases ops.len(),
{
    if ops.len() > 0 {
        lemma_tally_bounded(ops.drop_last());
    }
}

/// Counts the opinions by where they stand.
pub fn review_tally(opinions: &Vec<ReviewOpinionWire>) -> (r: ReviewTally)
    requires
        opinions@.len() <= u32::MAX,
    ensures
        (r.passed as nat, r.failed as nat, r.pending as nat, r.undecided as nat) == tally_of(opinions@),
{
    let mut t = ReviewTally { passed: 0, failed: 0, pending: 0, undecided: 0 };
    let mut i: usize = 0;
    proof {
        assert(opinions@.take(0) =~= Seq::<ReviewOpinionWire>::empty());
    }
    while i < opinions.len()
        invariant
            i <= opinions@.len() <= u32::MAX,
            (t.passed as nat, t.failed as nat, t.pending as nat, t.undecided as nat) == tally_of(opinions@.take(i as int)),
        decreases opinions@.len() - i,
    {
        proof {
            assert(opinions@.take(i + 1).drop_last() =~= opinions@.take(i as int));
            lemma_tally_bounded(opinions@.take(i as int));
        }
        match opinions[i].status {
            OpinionItemStatus::Abandoned => {},
            OpinionItemStatus::Completed => match opinions[i].passed {
                Some(true) => {
                    t.passed = t.passed + 1;
                },
                Some(false) => {
                    t.failed = t.failed + 1;
                },
                None => {
                    t.undecided = t.undecided + 1;
                },
            },
            _ => {
                t.pending = t.pending + 1;
            },
        }
        i = i + 1;
    }
    proof {
        assert(opinions@.take(opinions@.len() as int) =~= opinions@);
    }
    t
}

/// The number of abandoned opinions.
pub fn abandoned_count(opinions: &Vec<ReviewOpinionWire>) -> (r: u32)
    requires
        opinions@.len() <= u32::MAX,
    ensures
        r == abandoned_of(opinions@),
{
    let mut n: u32 = 0;
    let mut i: usize = 0;
    proof {
        assert(opinions@.take(0) =~= Seq::<ReviewOpinionWire>::empty());
    }
    while i < opinions.len()
        invariant
            i <= opinions@.len() <= u32::MAX,
            n == abandoned_of(opinions@.take(i as int)),
        decreases opinions@.len() - i,
    {
        proof {
            assert(opinions@.take(i + 1).drop_last() =~= opinions@.take(i as int));
            lemma_tally_bounded(opinions@.take(i as int));
        }
        if opinions[i].status == OpinionItemStatus::Abandoned {
            n = n + 1;
        }
        i = i + 1;
    }
    proof {
        assert(opinions@.take(opinions@.len() as int) =~= opinions@);
    }
    n
}

/// Every opinion is counted once: in the tally or as abandoned.
pub proof fn lemma_tally_counts_every_opinion(ops: Seq<ReviewOpinionWire>)
    ensures
        tally_of(ops).0 + tally_of(ops).1 + tally_of(ops).2 + tally_of(ops).3 + abandoned_of(ops) == ops.len(),
{
    lemma_tally_bounded(ops);
}

// ---------------------------------------------------------------------------
// Participants and the overall verdict

/// The ids of `parts` that `abandoned` does not hold, in order.
pub open spec fn active_ids(parts: Seq<Seq<char>>, abandoned: Seq<Seq<char>>) -> Seq<Seq<char>>
    decreases parts.len(),
{
    if parts.len() == 0 {
        seq![]
    } else if abandoned.contains(parts.last()) {
        active_ids(parts.drop_last(), abandoned)
    } else {
        active_ids(parts.drop_last(), abandoned).push(parts.last())
    }
}

/// The participants of a review that were not abandoned.
pub open spec fn active_of(state: ReviewStateFile) -> Seq<Seq<char>> {
    active_ids(views(state.participants@), views(state.abandoned_participants@))
}

/// Whether `id` is among `v`.
fn holds_id(v: &Vec<String>, id: &str) -> (r: bool)
    ensures
        r == views(v@).contains(id@),
{
    let mut i: usize = 0;
    while i < v.len()
        invariant
            i <= v@.len(),
            forall|j: int| 0 <= j < i ==> v@[j]@ != id@,
        decreases v@.len() - i,
    {
        if same_text(v[i].as_str(), id) {
            assert(views(v@)[i as int] == id@);
            return true;
        }
        i = i + 1;
    }
    proof {
        if views(v@).contains(id@) {
            let k = choose|k: int| 0 <= k < views(v@).len() && views(v@)[k] == id@;
            assert(v@[k]@ == id@);
        }
    }
    false
}

/// The participants of the review that were not abandoned, in order.
pub fn active_participant_ids(state: &ReviewStateFile) -> (r: Vec<String>)
    ensures
        views(r@) == active_of(*state),
{
    let ghost parts = views(state.participants@);
    let ghost ab = views(state.abandoned_participants@);
    let mut out: Vec<String> = Vec::new();
    let mut i: usize = 0;
    proof {
        assert(parts.take(0) =~= Seq::<Seq<char>>::empty());
        assert(views(out@) =~= Seq::<Seq<char>>::empty());
    }
    while i < state.participants.len()
        invariant
            i <= state.participants@.len(),
            parts == views(state.participants@),
            ab == views(state.abandoned_participants@),
            views(out@) == active_ids(parts.take(i as int), ab),
        decreases state.participants@.len() - i,
    {
        proof {
            assert(parts.take(i + 1).drop_last() =~= parts.take(i as int));
            assert(parts.take(i + 1).last() == state.participants@[i as int]@);
        }
        if !holds_id(&state.abandoned_participants, state.participants[i].as_str()) {
            let ghost before = views(out@);
            out.push(state.participants[i].clone());
            assert(views(out@) =~= before.push(state.participants@[i as int]@));
        }
        i = i + 1;
    }
    proof {
        assert(parts.take(parts.len() as int) =~= parts);
    }
    out
}

/// `ops[i]` is the first opinion of the participant `id`.
pub open spec fn first_opinion(ops: Seq<ReviewOpinionWire>, id: Seq<char>, i: int) -> bool {
    &&& 0 <= i < ops.len()
    &&& ops[i].employee_id@ == id
    &&& forall|j: int| 0 <= j < i ==> (#[trigger] ops[j]).employee_id@ != id
}

/// The participant `id`'s first opinion is completed.
pub open spec fn reviewer_completed(ops: Seq<ReviewOpinionWire>, id: Seq<char>) -> bool {
    exists|i: int| first_opinion(ops, id, i) && (#[trigger] ops[i]).status == OpinionItemStatus::Completed
}

/// The participant `id`'s first opinion is completed and passed.
pub open spec fn reviewer_passed(ops: Seq<ReviewOpinionWire>, id: Seq<char>) -> bool {
    exists|i: int|
        first_opinion(ops, id, i) && (#[trigger] ops[i]).status == OpinionItemStatus::Completed
            && ops[i].passed == Some(true)
}

/// Whether every active participant (there being one at least) passed.
pub open spec fn all_passed_spec(ops: Seq<ReviewOpinionWire>, active: Seq<Seq<char>>) -> bool {
    active.len() > 0 && forall|k: int| 0 <= k < active.len() ==> reviewer_passed(ops, #[trigger] active[k])
}

/// Whether every active participant has completed an opinion.
pub open spec fn all_completed_spec(ops: Seq<ReviewOpinionWire>, active: Seq<Seq<char>>) -> bool {
    forall|k: int| 0 <= k < active.len() ==> reviewer_completed(ops, #[trigger] active[k])
}

/// The conclusion that the opinions decide: none while there is no active
/// participant or one has not completed; adopt when all passed, else
/// supplement.
pub open spec fn conclusion_spec(ops: Seq<ReviewOpinionWire>, active: Seq<Seq<char>>) -> Option<ReviewConclusion> {
    if active.len() == 0 || !all_completed_spec(ops, active) {
        None
    } else if all_passed_spec(ops, active) {
        Some(ReviewConclusion::Adopt)
    } else {
        Some(ReviewConclusion::Supplement)
    }
}

/// The index of the first opinion of participant `id`.
fn find_opinion(ops: &Vec<ReviewOpinionWire>, id: &str) -> (r: Option<usize>)
    ensures
        match r {
            Some(i) => first_opinion(ops@, id@, i as int),
            None => forall|j: int| 0 <= j < ops@.len() ==> (#[trigger] ops@[j]).employee_id@ != id@,
        },
{
    let mut i: usize = 0;
    while i < ops.len()
        invariant
            i <= ops@.len(),
            forall|j: int| 0 <= j < i ==> (#[trigger] ops@[j]).employee_id@ != id@,
        decreases ops@.len() - i,
    {
        if same_text(ops[i].employee_id.as_str(), id) {
            return Some(i);
        }
        i = i + 1;
    }
    None
}

/// Whether participant `id`'s first opinion is completed (and, when `need_pass`,
/// passed).
fn reviewer_done(ops: &Vec<ReviewOpinionWire>, id: &str, need_pass: bool) -> (r: bool)
    ensures
        need_pass ==> r == reviewer_passed(ops@, id@),
        !need_pass ==> r == reviewer_completed(ops@, id@),
{
    match find_opinion(ops, id) {
        Some(i) => {
            let o = &ops[i];
            let r = o.status == OpinionItemStatus::Completed && (!need_pass || o.passed == Some(true));
            proof {
                assert forall|k: int| first_opinion(ops@, id@, k) implies k == i by {
                    if k < i {
                        assert(ops@[k].employee_id@ != id@);
                    }
                    if k > i {
                        assert(ops@[i as int].employee_id@ != id@);
                    }
                }
            }
            r
        },
        None => false,
    }
}

/// Whether every active participant in `active` has a completed (and, when
/// `need_pass`, passed) first opinion.
fn every_reviewer(ops: &Vec<ReviewOpinionWire>, active: &Vec<String>, need_pass: bool) -> (r: bool)
    ensures
        need_pass ==> r == forall|k: int| 0 <= k < active@.len() ==> reviewer_passed(ops@, #[trigger] views(active@)[k]),
        !need_pass ==> r == forall|k: int| 0 <= k < active@.len() ==> reviewer_completed(ops@, #[trigger] views(active@)[k]),
{
    let mut i: usize = 0;
    while i < active.len()
        invariant
            i <= active@.len(),
            need_pass ==> forall|k: int| 0 <= k < i ==> reviewer_passed(ops@, #[trigger] views(active@)[k]),
            !need_pass ==> forall|k: int| 0 <= k < i ==> reviewer_completed(ops@, #[trigger] views(active@)[k]),
        decreases active@.len() - i,
    {
        if !reviewer_done(ops, active[i].as_str(), need_pass) {
            assert(views(active@)[i as int] == active@[i as int]@);
            return false;
        }
        assert(views(active@)[i as int] == active@[i as int]@);
        i = i + 1;
    }
    true
}

/// Whether the review passed as a whole: there is an active participant and
/// each one's opinion is completed and passed.
pub fn all_reviewers_passed(opinions: &Vec<ReviewOpinionWire>, state: &ReviewStateFile) -> (r: bool)
    ensures
        r == all_passed_spec(opinions@, active_of(*state)),
{
    let active = active_participant_ids(state);
    if active.len() == 0 {
        return false;
    }
    every_reviewer(opinions, &active, true)
}

/// The conclusion that the opinions decide, if they decide one yet.
pub fn derive_review_conclusion(opinions: &Vec<ReviewOpinionWire>, state: &ReviewStateFile) -> (r: Option<ReviewConclusion>)
    ensures
        r == conclusion_spec(opinions@, active_of(*state)),
{
    let active = active_participant_ids(state);
    if active.len() == 0 {
        return None;
    }
    if !every_reviewer(opinions, &active, false) {
        return None;
    }
    if all_reviewers_passed(opinions, state) {
        Some(ReviewConclusion::Adopt)
    } else {
        Some(ReviewConclusion::Supplement)
    }
}

/// A review is adopted exactly when every active participant passed it.
pub proof fn lemma_adopt_iff_all_passed(ops: Seq<ReviewOpinionWire>, active: Seq<Seq<char>>)
    ensures
        (conclusion_spec(ops, active) == Some(ReviewConclusion::Adopt)) == all_passed_spec(ops, active),
{
    if all_passed_spec(ops, active) {
        assert forall|k: int| 0 <= k < active.len() implies reviewer_completed(ops, #[trigger] active[k]) by {
            assert(reviewer_passed(ops, active[k]));
            let i = choose|i: int|
                first_opinion(ops, active[k], i) && (#[trigger] ops[i]).status == OpinionItemStatus::Completed
                    && ops[i].passed == Some(true);
            assert(first_opinion(ops, active[k], i) && ops[i].status == OpinionItemStatus::Completed);
        }
    }
}

// ---------------------------------------------------------------------------
// One participant's status

/// Whether `o` holds `Some(id)`.
pub open spec fn names_reviewer(o: Option<String>, id: Seq<char>) -> bool {
    o matches Some(c) && c@ == id
}

/// Where participant `employee_id`'s opinion stands: abandoned when the review
/// dropped them; in progress (or revising) while the running review has them
/// at work; else completed when they wrote an opinion, pending when not.
pub open spec fn opinion_status_spec(state: ReviewStateFile, employee_id: Seq<char>, has_opinion: bool) -> OpinionItemStatus {
    if views(state.abandoned_participants@).contains(employee_id) {
        OpinionItemStatus::Abandoned
    } else if state.status == ReviewStatus::InProgress && names_reviewer(state.current_reviewer_id, employee_id) {
        if state.current_task == Some(ReviewTask::Revise) {
            OpinionItemStatus::Revising
        } else {
            OpinionItemStatus::InProgress
        }
    } else if has_opinion {
        OpinionItemStatus::Completed
    } else {
        OpinionItemStatus::Pending
    }
}

/// Whether `o` holds `Some(id)`.
fn is_some_id(o: &Option<String>, id: &str) -> (r: bool)
    ensures
        r == names_reviewer(*o, id@),
{
    match o {
        Some(c) => same_text(c.as_str(), id),
        None => false,
    }
}

/// Where participant `employee_id`'s opinion stands.
pub fn opinion_item_status(state: &ReviewStateFile, employee_id: &str, has_nonempty_opinion: bool) -> (r: OpinionItemStatus)
    ensures
        r == opinion_status_spec(*state, employee_id@, has_nonempty_opinion),
{
    if holds_id(&state.abandoned_participants, employee_id) {
        return OpinionItemStatus::Abandoned;
    }
    if state.status == ReviewStatus::InProgress && is_some_id(&state.current_reviewer_id, employee_id) {
        if state.current_task == Some(ReviewTask::Revise) {
            return OpinionItemStatus::Revising;
        }
        return OpinionItemStatus::InProgress;
    }
    if has_nonempty_opinion {
        return OpinionItemStatus::Completed;
    }
    OpinionItemStatus::Pending
}

impl OpinionItemStatus {
    pub open spec fn text(self) -> Seq<char> {
        match self {
            OpinionItemStatus::Pending => "pending"@,
            OpinionItemStatus::InProgress => "in_progress"@,
            OpinionItemStatus::Revising => "revising"@,
            OpinionItemStatus::Completed => "completed"@,
            OpinionItemStatus::Abandoned => "abandoned"@,
        }
    }

    /// The status's name as it is stored.
    pub fn as_str(&self) -> (r: &'static str)
        ensures
            r@ == self.text(),
    {
        match self {
            OpinionItemStatus::Pending => "pending",
            OpinionItemStatus::InProgress => "in_progress",
            OpinionItemStatus::Revising => "revising",
            OpinionItemStatus::Completed => "completed",
            OpinionItemStatus::Abandoned => "abandoned",
        }
    }
}

/// The action a request names: `rerun`, `pass`, `fail` or `abandon`.
pub fn parse_opinion_user_action(action: &str) -> (r: Option<OpinionUserAction>)
    ensures
        r == (if action@ == "rerun"@ {
            Some(OpinionUserAction::Rerun)
        } else if action@ == "pass"@ {
            Some(OpinionUserAction::Pass)
        } else if action@ == "fail"@ {
            Some(OpinionUserAction::Fail)
        } else if action@ == "abandon"@ {
            Some(OpinionUserAction::Abandon)
        } else {
            None
        }),
{
    if same_text(action, "rerun") {
        Some(OpinionUserAction::Rerun)
    } else if same_text(action, "pass") {
        Some(OpinionUserAction::Pass)
    } else if same_text(action, "fail") {
        Some(OpinionUserAction::Fail)
    } else if same_text(action, "abandon") {
        Some(OpinionUserAction::Abandon)
    } else {
        None
    }
}

// ---------------------------------------------------------------------------
// Reading verdicts out of text

/// Whether the lower-cased input asks to start a requirement review.
pub open spec fn asks_for_review(lower: Seq<char>) -> bool {
    ||| has_substring(lower, "进入需求评审"@)
    ||| has_substring(lower, "开始需求评审"@)
    ||| has_substring(lower, "启动需求评审"@)
    ||| has_substring(lower, "需求评审"@)
    ||| has_substring(lower, "start requirement review"@)
    ||| has_substring(lower, "enter requirement review"@)
    ||| has_substring(lower, "run requirement review"@)
}

/// The requirement that a request to start a review names: the first known id
/// that the input holds, else the first known id; none when the input does
/// not ask for a review.
pub fn detect_review_start_intent(input: &str, known_ids: &Vec<String>) -> (r: Option<String>)
    ensures
        !asks_for_review(lowercase(input@)) ==> r is None,
        asks_for_review(lowercase(input@)) ==> match r {
            Some(id) => (exists|i: int|
                0 <= i < known_ids@.len() && known_ids@[i]@ == id@ && has_substring(input@, id@)
                    && forall|j: int| 0 <= j < i ==> !has_substring(input@, (#[trigger] known_ids@[j])@))
                || ((forall|j: int| 0 <= j < known_ids@.len() ==> !has_substring(input@, (#[trigger] known_ids@[j])@))
                    && known_ids@.len() > 0 && id@ == known_ids@[0]@),
            None => known_ids@.len() == 0,
        },
{
    let lower = to_lowercase(input);
    review_start_lowered(input, lower.as_str(), known_ids)
}

/// The requirement that a request to start a review names, for `input` whose
/// lower-cased text is `lower`.
pub fn review_start_lowered(input: &str, lower: &str, known_ids: &Vec<String>) -> (r: Option<String>)
    ensures
        !asks_for_review(lower@) ==> r is None,
        asks_for_review(lower@) ==> match r {
            Some(id) => (exists|i: int|
                0 <= i < known_ids@.len() && known_ids@[i]@ == id@ && has_substring(input@, id@)
                    && forall|j: int| 0 <= j < i ==> !has_substring(input@, (#[trigger] known_ids@[j])@))
                || ((forall|j: int| 0 <= j < known_ids@.len() ==> !has_substring(input@, (#[trigger] known_ids@[j])@))
                    && known_ids@.len() > 0 && id@ == known_ids@[0]@),
            None => known_ids@.len() == 0,
        },
{
    let l = lower;
    let asked = contains(l, "进入需求评审") || contains(l, "开始需求评审") || contains(l, "启动需求评审")
        || contains(l, "需求评审") || contains(l, "start requirement review")
        || contains(l, "enter requirement review") || contains(l, "run requirement review");
    if !asked {
        return None;
    }
    let mut i: usize = 0;
    while i < known_ids.len()
        invariant
            i <= known_ids@.len(),
            asks_for_review(lower@),
            forall|j: int| 0 <= j < i ==> !has_substring(input@, (#[trigger] known_ids@[j])@),
        decreases known_ids@.len() - i,
    {
        if contains(input, known_ids[i].as_str()) {
            return Some(known_ids[i].clone());
        }
        i = i + 1;
    }
    if known_ids.len() == 0 {
        None
    } else {
        Some(known_ids[0].clone())
    }
}

/// What one line after a `Recommendation` header says: `approve` (alone or
/// followed by a space) passes; `needs change`, `need change`, `reject` or a
/// bare `supplement` fails; anything else says nothing.
pub open spec fn verdict_line(rest: Seq<char>) -> Option<bool> {
    if rest == "approve"@ || has_prefix(rest, "approve "@) {
        Some(true)
    } else if has_substring(rest, "needs change"@) || has_substring(rest, "need change"@)
        || has_substring(rest, "reject"@) || rest == "supplement"@ {
        Some(false)
    } else {
        None
    }
}

/// A line that heads a recommendation block: it says `recommendation` and has
/// no `:`.
pub open spec fn is_rec_header(line: Seq<char>) -> bool {
    has_substring(line, "recommendation"@) && !line.contains(':')
}

/// The index of the first non-empty line from `k` on.
pub open spec fn next_nonempty(lines: Seq<Seq<char>>, k: int) -> Option<int>
    decreases lines.len() - k,
{
    if k < 0 || k >= lines.len() {
        None
    } else if lines[k].len() > 0 {
        Some(k)
    } else {
        next_nonempty(lines, k + 1)
    }
}

/// The verdict of the block that line `i` heads, if it heads one that has one.
pub open spec fn header_verdict(lines: Seq<Seq<char>>, i: int) -> Option<bool> {
    if 0 <= i < lines.len() && is_rec_header(lines[i]) {
        match next_nonempty(lines, i + 1) {
            Some(j) => verdict_line(lines[j]),
            None => None,
        }
    } else {
        None
    }
}

/// The verdict of the first recommendation block from line `i` on that has one.
pub open spec fn block_verdict_from(lines: Seq<Seq<char>>, i: int) -> Option<bool>
    decreases lines.len() - i,
{
    if i < 0 || i >= lines.len() {
        None
    } else if header_verdict(lines, i) is Some {
        header_verdict(lines, i)
    } else {
        block_verdict_from(lines, i + 1)
    }
}

/// The lines of `content`, each trimmed and lower-cased.
pub open spec fn verdict_lines(content: Seq<char>) -> Seq<Seq<char>> {
    split_lines(content).map_values(|l: Seq<char>| lowercase(trim(l)))
}

/// What the keywords of a (lower-cased) opinion say when no recommendation
/// block decides: the failing ones are looked for first.
pub open spec fn keyword_verdict(lower: Seq<char>) -> Option<bool> {
    if has_substring(lower, "recommendation: needs change"@) || has_substring(lower, "recommendation:needs change"@)
        || has_substring(lower, "recommendation: reject"@) || has_substring(lower, "recommendation:reject"@)
        || has_substring(lower, "needs change"@) || has_substring(lower, "need change"@)
        || has_substring(lower, "conclusion: supplement"@) || has_substring(lower, "不通过"@)
        || has_substring(lower, "需修改"@) || has_substring(lower, "需补充"@) || has_substring(lower, "❌"@) {
        Some(false)
    } else if has_substring(lower, "recommendation: approve"@) || has_substring(lower, "recommendation:approve"@)
        || has_substring(lower, "conclusion: approve"@) || has_substring(lower, "✅"@)
        || (has_substring(lower, "通过"@) && !has_substring(lower, "不通过"@))
        || (has_substring(lower, "采纳"@) && !has_substring(lower, "不采纳"@)) {
        Some(true)
    } else {
        None
    }
}

/// Whether an opinion passed: the first recommendation block that decides,
/// else its keywords; none when neither does.
pub open spec fn opinion_verdict(content: Seq<char>) -> Option<bool> {
    match block_verdict_from(verdict_lines(content), 0) {
        Some(v) => Some(v),
        None => keyword_verdict(lowercase(content)),
    }
}

/// What one line after a recommendation header says.
fn verdict_of_line(rest: &str) -> (r: Option<bool>)
    ensures
        r == verdict_line(rest@),
{
    if same_text(rest, "approve") || starts_with(rest, "approve ") {
        Some(true)
    } else if contains(rest, "needs change") || contains(rest, "need change") || contains(rest, "reject")
        || same_text(rest, "supplement") {
        Some(false)
    } else {
        None
    }
}

/// Whether `s` holds the character `c`.
fn has_char(s: &str, c: char) -> (r: bool)
    ensures
        r == s@.contains(c),
{
    let v = crate::text::chars_of(s);
    let mut i: usize = 0;
    while i < v.len()
        invariant
            i <= v@.len(),
            v@ == s@,
            forall|j: int| 0 <= j < i ==> v@[j] != c,
        decreases v@.len() - i,
    {
        if v[i] == c {
            return true;
        }
        i = i + 1;
    }
    false
}

/// The verdict of the first recommendation block of `content` that has one.
fn recommendation_block_verdict(content: &str) -> (r: Option<bool>)
    ensures
        r == block_verdict_from(verdict_lines(content@), 0),
{
    let raw = lines_of(content);
    let ghost ls = verdict_lines(content@);
    let mut lines: Vec<String> = Vec::new();
    let mut k: usize = 0;
    while k < raw.len()
        invariant
            k <= raw@.len(),
            views(raw@) == split_lines(content@),
            ls == verdict_lines(content@),
            views(lines@) == ls.take(k as int),
        decreases raw@.len() - k,
    {
        let t = trimmed(raw[k].as_str());
        let low = to_lowercase(t.as_str());
        let ghost before = views(lines@);
        lines.push(low);
        proof {
            assert(views(raw@)[k as int] == raw@[k as int]@);
            assert(views(lines@) =~= before.push(ls[k as int]));
            assert(ls.take(k + 1) =~= ls.take(k as int).push(ls[k as int]));
        }
        k = k + 1;
    }
    proof {
        assert(ls.take(raw@.len() as int) =~= ls);
    }
    block_verdict(&lines)
}

/// The verdict of the first recommendation block that has one, among `lines`,
/// an opinion's lines each trimmed and lower-cased.
pub fn block_verdict(lines: &Vec<String>) -> (r: Option<bool>)
    ensures
        r == block_verdict_from(views(lines@), 0),
{
    let ghost ls = views(lines@);
    let n = lines.len();
    let mut i: usize = 0;
    while i < n
        invariant
            i <= n,
            n == lines@.len(),
            views(lines@) == ls,
            block_verdict_from(ls, 0) == block_verdict_from(ls, i as int),
        decreases n - i,
    {
        let line = lines[i].as_str();
        assert(ls[i as int] == line@);
        if contains(line, "recommendation") && !has_char(line, ':') {
            let mut j = i + 1;
            while j < n && lines[j].as_str().is_empty()
                invariant
                    i < j <= n,
                    n == lines@.len(),
                    views(lines@) == ls,
                    next_nonempty(ls, i + 1) == next_nonempty(ls, j as int),
                decreases n - j,
            {
                assert(ls[j as int] == lines@[j as int]@);
                j = j + 1;
            }
            if j < n {
                assert(ls[j as int] == lines@[j as int]@);
                let v = verdict_of_line(lines[j].as_str());
                if v.is_some() {
                    assert(next_nonempty(ls, j as int) == Some(j as int));
                    assert(is_rec_header(ls[i as int]));
                    assert(header_verdict(ls, i as int) == v);
                    assert(block_verdict_from(ls, i as int) == v);
                    return v;
                }
            }
        }
        i = i + 1;
    }
    None
}

/// Whether an opinion passed, read from its text.
pub fn parse_opinion_passed(content: &str) -> (r: Option<bool>)
    ensures
        r == opinion_verdict(content@),
{
    if let Some(v) = recommendation_block_verdict(content) {
        return Some(v);
    }
    let lower = to_lowercase(content);
    keyword_verdict_of(lower.as_str())
}

/// Whether an opinion passed, from `lines`, its lines each trimmed and
/// lower-cased, and `lower`, its whole text lower-cased.
pub fn opinion_verdict_lowered(lines: &Vec<String>, lower: &str) -> (r: Option<bool>)
    ensures
        r == match block_verdict_from(views(lines@), 0) {
            Some(v) => Some(v),
            None => keyword_verdict(lower@),
        },
{
    if let Some(v) = block_verdict(lines) {
        return Some(v);
    }
    keyword_verdict_of(lower)
}

/// What the keywords of `lower`, an opinion's lower-cased text, say.
pub fn keyword_verdict_of(lower: &str) -> (r: Option<bool>)
    ensures
        r == keyword_verdict(lower@),
{
    let l = lower;
    if contains(l, "recommendation: needs change") || contains(l, "recommendation:needs change")
        || contains(l, "recommendation: reject") || contains(l, "recommendation:reject")
        || contains(l, "needs change") || contains(l, "need change") || contains(l, "conclusion: supplement")
        || contains(l, "不通过") || contains(l, "需修改") || contains(l, "需补充") || contains(l, "❌") {
        return Some(false);
    }
    if contains(l, "recommendation: approve") || contains(l, "recommendation:approve")
        || contains(l, "conclusion: approve") || contains(l, "✅")
        || (contains(l, "通过") && !contains(l, "不通过"))
        || (contains(l, "采纳") && !contains(l, "不采纳")) {
        return Some(true);
    }
    None
}

/// Whether a lower-cased summary has the line stating adoption.
pub open spec fn states_adopt(lower: Seq<char>) -> bool {
    has_substring(lower, "conclusion: adopt"@) || has_substring(lower, "conclusion:adopt"@)
}

/// Whether a lower-cased summary has the line asking for a supplement.
pub open spec fn states_supplement(lower: Seq<char>) -> bool {
    has_substring(lower, "conclusion: supplement"@) || has_substring(lower, "conclusion:supplement"@)
}

/// An explicit conclusion line decides: a summary that states
/// `conclusion: adopt` and no `conclusion: supplement` is adopted, whatever
/// else it mentions (a bare "supplement" in its prose included); one that
/// states `conclusion: supplement` asks for a supplement.
pub proof fn lemma_conclusion_line_decides(lower: Seq<char>)
    ensures
        states_adopt(lower) && !states_supplement(lower) ==> summary_conclusion(lower) == Some(ReviewConclusion::Adopt),
        states_supplement(lower) ==> summary_conclusion(lower) == Some(ReviewConclusion::Supplement),
{
}

/// The conclusion that a (lower-cased) summary states.
pub open spec fn summary_conclusion(lower: Seq<char>) -> Option<ReviewConclusion> {
    if has_substring(lower, "conclusion: supplement"@) || has_substring(lower, "conclusion:supplement"@) {
        Some(ReviewConclusion::Supplement)
    } else if has_substring(lower, "conclusion: adopt"@) || has_substring(lower, "conclusion:adopt"@) {
        Some(ReviewConclusion::Adopt)
    } else if has_substring(lower, "supplement"@) || has_substring(lower, "补充"@) {
        Some(ReviewConclusion::Supplement)
    } else if has_substring(lower, "adopt"@) || has_substring(lower, "采纳"@) {
        Some(ReviewConclusion::Adopt)
    } else {
        None
    }
}

/// The conclusion that a review summary states, if it states one.
pub fn parse_conclusion(text: &str) -> (r: Option<ReviewConclusion>)
    ensures
        r == summary_conclusion(lowercase(text@)),
        states_adopt(lowercase(text@)) && !states_supplement(lowercase(text@)) ==> r == Some(ReviewConclusion::Adopt),
        states_supplement(lowercase(text@)) ==> r == Some(ReviewConclusion::Supplement),
{
    let lower = to_lowercase(text);
    conclusion_of_lowered(lower.as_str())
}

/// The conclusion that `lower`, a review summary lower-cased, states.
pub fn conclusion_of_lowered(lower: &str) -> (r: Option<ReviewConclusion>)
    ensures
        r == summary_conclusion(lower@),
        states_adopt(lower@) && !states_supplement(lower@) ==> r == Some(ReviewConclusion::Adopt),
        states_supplement(lower@) ==> r == Some(ReviewConclusion::Supplement),
{
    let l = lower;
    if contains(l, "conclusion: supplement") || contains(l, "conclusion:supplement") {
        return Some(ReviewConclusion::Supplement);
    }
    if contains(l, "conclusion: adopt") || contains(l, "conclusion:adopt") {
        return Some(ReviewConclusion::Adopt);
    }
    if contains(l, "supplement") || contains(l, "补充") {
        return Some(ReviewConclusion::Supplement);
    }
    if contains(l, "adopt") || contains(l, "采纳") {
        return Some(ReviewConclusion::Adopt);
    }
    None
}

// ---------------------------------------------------------------------------
// Opinions and the review's course

/// The ids of the participants whose opinion failed, in order.
pub open spec fn failed_ids(ops: Seq<ReviewOpinionWire>) -> Seq<Seq<char>>
    decreases ops.len(),
{
    if ops.len() == 0 {
        seq![]
    } else if ops.last().passed == Some(false) {
        failed_ids(ops.drop_last()).push(ops.last().employee_id@)
    } else {
        failed_ids(ops.drop_last())
    }
}

/// The ids of the participants whose opinion failed, who revise next.
pub fn failed_participant_ids(opinions: &Vec<ReviewOpinionWire>) -> (r: Vec<String>)
    ensures
        views(r@) == failed_ids(opinions@),
{
    let mut out: Vec<String> = Vec::new();
    let mut i: usize = 0;
    proof {
        assert(opinions@.take(0) =~= Seq::<ReviewOpinionWire>::empty());
        assert(views(out@) =~= Seq::<Seq<char>>::empty());
    }
    while i < opinions.len()
        invariant
            i <= opinions@.len(),
            views(out@) == failed_ids(opinions@.take(i as int)),
        decreases opinions@.len() - i,
    {
        proof {
            assert(opinions@.take(i + 1).drop_last() =~= opinions@.take(i as int));
        }
        if opinions[i].passed == Some(false) {
            let ghost before = views(out@);
            out.push(opinions[i].employee_id.clone());
            assert(views(out@) =~= before.push(opinions@[i as int].employee_id@));
        }
        i = i + 1;
    }
    proof {
        assert(opinions@.take(opinions@.len() as int) =~= opinions@);
    }
    out
}

/// The opinion a participant has on file: none when the file is missing or blank.
pub fn opinion_on_file(file: Option<String>) -> (r: Option<String>)
    ensures
        match file {
            None => r is None,
            Some(c) => if trim(c@).len() == 0 { r is None } else { r == Some(c) },
        },
{
    match file {
        None => None,
        Some(c) => {
            let t = trimmed(c.as_str());
            if t.as_str().is_empty() {
                None
            } else {
                Some(c)
            }
        },
    }
}

/// A participant needs a first review unless the opinion on file passed.
pub fn employee_needs_initial_review(opinion: &Option<String>) -> (r: bool)
    ensures
        r == match opinion {
            None => true,
            Some(c) => opinion_verdict(c@) != Some(true),
        },
{
    match opinion {
        None => true,
        Some(c) => parse_opinion_passed(c.as_str()) != Some(true),
    }
}

/// The text stored as an opinion when the agent wrote no file: its trimmed
/// reply, or a note that it produced none.
pub fn opinion_body(agent_output: &str) -> (r: String)
    ensures
        trim(agent_output@).len() == 0 ==> r@ == "_No opinion file produced by agent._"@,
        trim(agent_output@).len() > 0 ==> r@ == trim(agent_output@),
{
    let t = trimmed(agent_output);
    if t.as_str().is_empty() {
        "_No opinion file produced by agent._".to_owned()
    } else {
        t
    }
}

/// The opinion recorded when the user passes or fails a participant by hand.
pub fn manual_opinion_body(passed: bool, now_ms: u64) -> (r: String)
    ensures
        r@ == "## Manual review (user)\n\nRecorded at "@ + decimal(now_ms as nat) + " ms.\n\n"@
            + (if passed { "Recommendation: approve"@ } else { "Recommendation: needs change"@ }) + "\n"@,
{
    let mut s = "## Manual review (user)\n\nRecorded at ".to_owned();
    let ts = u64_to_decimal(now_ms);
    s.append(ts.as_str());
    s.append(" ms.\n\n");
    if passed {
        s.append("Recommendation: approve");
    } else {
        s.append("Recommendation: needs change");
    }
    s.append("\n");
    s
}

/// The section a participant's memory gets about a review.
pub fn memory_section_review(requirement_id: &str, title: &str, body: &str) -> (r: String)
    ensures
        r@ == "Requirement `"@ + requirement_id@ + "` ("@ + title@ + ")\n\n"@ + body@,
{
    let mut s = "Requirement `".to_owned();
    s.append(requirement_id);
    s.append("` (");
    s.append(title);
    s.append(")\n\n");
    s.append(body);
    s
}

/// The id of the work task that carries a participant's opinion.
pub fn review_work_task_id(employee_id: &str) -> (r: String)
    ensures
        r@ == "review-"@ + employee_id@,
{
    let mut s = "review-".to_owned();
    s.append(employee_id);
    s
}

/// The opinions listed for the review facilitator.
pub open spec fn catalog_of(ops: Seq<ReviewOpinionWire>) -> Seq<char>
    decreases ops.len(),
{
    if ops.len() == 0 {
        seq![]
    } else {
        let o = ops.last();
        let body = match o.content {
            Some(c) => c@,
            None => "(no opinion body)"@,
        };
        catalog_of(ops.drop_last()) + "### "@ + o.employee_name@ + " ("@ + o.role@ + ") — "@ + o.employee_id@
            + "\n"@ + body + "\n\n"@
    }
}

/// The catalog of opinions that the facilitator's summary is written from.
pub fn opinion_catalog(opinions: &Vec<ReviewOpinionWire>) -> (r: String)
    ensures
        catalog_of(opinions@).len() == 0 ==> r@ == "(no opinions recorded)\n"@,
        catalog_of(opinions@).len() > 0 ==> r@ == catalog_of(opinions@),
{
    let mut s = String::new();
    let mut i: usize = 0;
    proof {
        assert(opinions@.take(0) =~= Seq::<ReviewOpinionWire>::empty());
    }
    while i < opinions.len()
        invariant
            i <= opinions@.len(),
            s@ == catalog_of(opinions@.take(i as int)),
        decreases opinions@.len() - i,
    {
        proof {
            assert(opinions@.take(i + 1).drop_last() =~= opinions@.take(i as int));
        }
        let o = &opinions[i];
        s.append("### ");
        s.append(o.employee_name.as_str());
        s.append(" (");
        s.append(o.role.as_str());
        s.append(") — ");
        s.append(o.employee_id.as_str());
        s.append("\n");
        match &o.content {
            Some(c) => s.append(c.as_str()),
            None => s.append("(no opinion body)"),
        }
        s.append("\n\n");
        i = i + 1;
    }
    proof {
        assert(opinions@.take(opinions@.len() as int) =~= opinions@);
    }
    if s.as_str().is_empty() {
        "(no opinions recorded)\n".to_owned()
    } else {
        s
    }
}

/// Why a review request was refused.
#[derive(Debug, Clone, Copy, PartialEq, Eq, Structural)]
pub enum ReviewError {
    RequirementNotFound,
    NotStarted,
    NoEmployees,
    AlreadyCompleted,
    OpinionBusy,
    NotParticipant,
    InvalidAction,
    NoCodingTool,
}

impl ReviewError {
    pub open spec fn key_text(self) -> Seq<char> {
        match self {
            ReviewError::RequirementNotFound => "requirement_not_found"@,
            ReviewError::NotStarted => "review_not_started"@,
            ReviewError::NoEmployees => "review_no_employees"@,
            ReviewError::AlreadyCompleted => "review_already_completed"@,
            ReviewError::OpinionBusy => "review_opinion_busy"@,
            ReviewError::NotParticipant => "review_opinion_not_participant"@,
            ReviewError::InvalidAction => "review_opinion_invalid_action"@,
            ReviewError::NoCodingTool => "no_enabled_coding_tool"@,
        }
    }

    /// The error's key.
    pub fn key(&self) -> (r: &'static str)
        ensures
            r@ == self.key_text(),
    {
        match self {
            ReviewError::RequirementNotFound => "requirement_not_found",
            ReviewError::NotStarted => "review_not_started",
            ReviewError::NoEmployees => "review_no_employees",
            ReviewError::AlreadyCompleted => "review_already_completed",
            ReviewError::OpinionBusy => "review_opinion_busy",
            ReviewError::NotParticipant => "review_opinion_not_participant",
            ReviewError::InvalidAction => "review_opinion_invalid_action",
            ReviewError::NoCodingTool => "no_enabled_coding_tool",
        }
    }

    /// The HTTP status the error is answered with: 404 for a missing
    /// requirement or review, 409 when no coding tool is enabled, 400 else.
    pub fn http_status(&self) -> (r: u16)
        ensures
            r == match self {
                ReviewError::RequirementNotFound | ReviewError::NotStarted => 404u16,
                ReviewError::NoCodingTool => 409u16,
                _ => 400u16,
            },
    {
        match self {
            ReviewError::RequirementNotFound | ReviewError::NotStarted => 404,
            ReviewError::NoCodingTool => 409,
            _ => 400,
        }
    }

    /// The message key the error is answered with.
    pub fn message_key(&self) -> (r: &'static str)
        ensures
            *self == ReviewError::NoCodingTool ==> r@ == "chat_tool_missing"@,
            *self != ReviewError::NoCodingTool ==> r@ == self.key_text(),
    {
        match self {
            ReviewError::NoCodingTool => "chat_tool_missing",
            _ => self.key(),
        }
    }
}

/// A new review of requirement `id` started at `now` with the given participants;
/// refused when there is no one to review.
pub fn new_review_state(requirement_id: String, participants: Vec<String>, now: u64) -> (r: Result<ReviewStateFile, ReviewError>)
    ensures
        participants@.len() == 0 ==> r == Err::<ReviewStateFile, ReviewError>(ReviewError::NoEmployees),
        participants@.len() > 0 ==> (r matches Ok(st) && {
            &&& st.requirement_id == requirement_id
            &&& st.status == ReviewStatus::InProgress
            &&& st.started_at_ms == now
            &&& st.completed_at_ms is None && st.conclusion is None
            &&& st.participants == participants
            &&& st.current_reviewer_id is None && st.current_task is None
            &&& st.abandoned_participants@.len() == 0
        }),
{
    if participants.len() == 0 {
        return Err(ReviewError::NoEmployees);
    }
    Ok(ReviewStateFile {
        requirement_id,
        status: ReviewStatus::InProgress,
        started_at_ms: now,
        completed_at_ms: None,
        conclusion: None,
        participants,
        current_reviewer_id: None,
        current_task: None,
        abandoned_participants: Vec::new(),
    })
}

/// The review reopened: a completed one runs again with no conclusion and no
/// one at work; a running one stays as it is. Says whether it changed.
pub fn reopen_review(state: &mut ReviewStateFile) -> (changed: bool)
    ensures
        changed == (old(state).status == ReviewStatus::Completed),
        !changed ==> *final(state) == *old(state),
        changed ==> final(state).status == ReviewStatus::InProgress && final(state).completed_at_ms is None
            && final(state).conclusion is None && final(state).current_reviewer_id is None
            && final(state).current_task is None,
        final(state).requirement_id == old(state).requirement_id,
        final(state).started_at_ms == old(state).started_at_ms,
        final(state).participants == old(state).participants,
        final(state).abandoned_participants == old(state).abandoned_participants,
{
    if state.status != ReviewStatus::Completed {
        return false;
    }
    state.status = ReviewStatus::InProgress;
    state.completed_at_ms = None;
    state.conclusion = None;
    state.current_reviewer_id = None;
    state.current_task = None;
    true
}

/// Whether a user may act on participant `employee_id`'s opinion now: they must
/// take part, and no participant may be at work.
pub fn check_opinion_action(state: &ReviewStateFile, employee_id: &str, task_running: bool) -> (r: Result<(), ReviewError>)
    ensures
        !views(state.participants@).contains(employee_id@) ==> r == Err::<(), ReviewError>(ReviewError::NotParticipant),
        views(state.participants@).contains(employee_id@) && (state.current_reviewer_id is Some || task_running)
            ==> r == Err::<(), ReviewError>(ReviewError::OpinionBusy),
        views(state.participants@).contains(employee_id@) && !(state.current_reviewer_id is Some || task_running)
            ==> r is Ok,
{
    if !holds_id(&state.participants, employee_id) {
        return Err(ReviewError::NotParticipant);
    }
    if state.current_reviewer_id.is_some() || task_running {
        return Err(ReviewError::OpinionBusy);
    }
    Ok(())
}

/// `v` without the occurrences of `id`.
pub open spec fn without_id(v: Seq<Seq<char>>, id: Seq<char>) -> Seq<Seq<char>>
    decreases v.len(),
{
    if v.len() == 0 {
        seq![]
    } else if v.last() == id {
        without_id(v.drop_last(), id)
    } else {
        without_id(v.drop_last(), id).push(v.last())
    }
}

proof fn lemma_without_id_lacks(v: Seq<Seq<char>>, id: Seq<char>)
    ensures
        !without_id(v, id).contains(id),
    decreases v.len(),
{
    if v.len() > 0 {
        lemma_without_id_lacks(v.drop_last(), id);
        let w = without_id(v.drop_last(), id);
        if v.last() != id {
            assert forall|k: int| 0 <= k < w.push(v.last()).len() implies w.push(v.last())[k] != id by {
                if k < w.len() {
                    assert(w[k] != id) by {
                        if w[k] == id {
                            assert(w.contains(id));
                        }
                    }
                }
            }
        }
    }
}

/// Removes every occurrence of `id` from `v`, keeping the order of the rest.
fn remove_id(v: &mut Vec<String>, id: &str)
    ensures
        views(final(v)@) == without_id(views(old(v)@), id@),
{
    let ghost src = views(v@);
    let mut out: Vec<String> = Vec::new();
    let mut i: usize = 0;
    proof {
        assert(src.take(0) =~= Seq::<Seq<char>>::empty());
        assert(views(out@) =~= Seq::<Seq<char>>::empty());
    }
    while i < v.len()
        invariant
            i <= v@.len(),
            src == views(v@),
            views(out@) == without_id(src.take(i as int), id@),
        decreases v@.len() - i,
    {
        proof {
            assert(src.take(i + 1).drop_last() =~= src.take(i as int));
            assert(src.take(i + 1).last() == v@[i as int]@);
        }
        if !same_text(v[i].as_str(), id) {
            let ghost before = views(out@);
            out.push(v[i].clone());
            assert(views(out@) =~= before.push(v@[i as int]@));
        }
        i = i + 1;
    }
    proof {
        assert(src.take(src.len() as int) =~= src);
    }
    *v = out;
}

/// What a user's action on participant `employee_id` does to the review's list of
/// abandoned participants: abandoning adds them (once); any other action takes
/// them off it.
pub fn apply_action_to_state(state: &mut ReviewStateFile, employee_id: &str, action: OpinionUserAction)
    ensures
        action == OpinionUserAction::Abandon && views(old(state).abandoned_participants@).contains(employee_id@)
            ==> final(state).abandoned_participants == old(state).abandoned_participants,
        action == OpinionUserAction::Abandon && !views(old(state).abandoned_participants@).contains(employee_id@)
            ==> views(final(state).abandoned_participants@) == views(old(state).abandoned_participants@).push(employee_id@),
        action != OpinionUserAction::Abandon ==> views(final(state).abandoned_participants@) == without_id(
            views(old(state).abandoned_participants@),
            employee_id@,
        ),
        final(state).requirement_id == old(state).requirement_id,
        final(state).status == old(state).status,
        final(state).participants == old(state).participants,
        final(state).current_reviewer_id == old(state).current_reviewer_id,
        final(state).current_task == old(state).current_task,
        final(state).conclusion == old(state).conclusion,
        final(state).started_at_ms == old(state).started_at_ms,
        final(state).completed_at_ms == old(state).completed_at_ms,
{
    match action {
        OpinionUserAction::Abandon => {
            if !holds_id(&state.abandoned_participants, employee_id) {
                let ghost before = views(state.abandoned_participants@);
                state.abandoned_participants.push(employee_id.to_owned());
                assert(views(state.abandoned_participants@) =~= before.push(employee_id@));
            }
        },
        _ => {
            remove_id(&mut state.abandoned_participants, employee_id);
        },
    }
}

/// After a user's action, participant `employee_id` counts as abandoned exactly
/// when the action abandoned them.
pub proof fn lemma_action_sets_abandonment(
    before: ReviewStateFile,
    after: ReviewStateFile,
    employee_id: Seq<char>,
    action: OpinionUserAction,
)
    requires
        action == OpinionUserAction::Abandon && views(before.abandoned_participants@).contains(employee_id)
            ==> after.abandoned_participants == before.abandoned_participants,
        action == OpinionUserAction::Abandon && !views(before.abandoned_participants@).contains(employee_id)
            ==> views(after.abandoned_participants@) == views(before.abandoned_participants@).push(employee_id),
        action != OpinionUserAction::Abandon ==> views(after.abandoned_participants@) == without_id(
            views(before.abandoned_participants@),
            employee_id,
        ),
    ensures
        views(after.abandoned_participants@).contains(employee_id) == (action == OpinionUserAction::Abandon),
{
    if action == OpinionUserAction::Abandon {
        if !views(before.abandoned_participants@).contains(employee_id) {
            let w = views(before.abandoned_participants@).push(employee_id);
            assert(w[w.len() - 1] == employee_id);
        }
    } else {
        lemma_without_id_lacks(views(before.abandoned_participants@), employee_id);
    }
}

/// A user's action on participant `employee_id`'s opinion, as far as the review's
/// state goes: refused as `check_opinion_action` says, else the review is
/// reopened if it had completed and the action is applied to its list of
/// abandoned participants. What the action then does to the opinion file and the
/// participant's work task follows from the action alone.
pub fn apply_opinion_user_action(
    state: &mut ReviewStateFile,
    employee_id: &str,
    action: OpinionUserAction,
    task_running: bool,
) -> (r: Result<(), ReviewError>)
    ensures
        !views(old(state).participants@).contains(employee_id@) ==> r == Err::<(), ReviewError>(ReviewError::NotParticipant),
        views(old(state).participants@).contains(employee_id@) && (old(state).current_reviewer_id is Some || task_running)
            ==> r == Err::<(), ReviewError>(ReviewError::OpinionBusy),
        r is Err ==> *final(state) == *old(state),
        views(old(state).participants@).contains(employee_id@) && !(old(state).current_reviewer_id is Some || task_running)
            ==> r is Ok,
        r is Ok ==> {
            &&& final(state).requirement_id == old(state).requirement_id
            &&& final(state).participants == old(state).participants
            &&& final(state).started_at_ms == old(state).started_at_ms
            &&& old(state).status == ReviewStatus::Completed ==> (final(state).status == ReviewStatus::InProgress
                && final(state).completed_at_ms is None && final(state).conclusion is None
                && final(state).current_task is None)
            &&& old(state).status != ReviewStatus::Completed ==> (final(state).status == old(state).status
                && final(state).completed_at_ms == old(state).completed_at_ms && final(state).conclusion == old(state).conclusion
                && final(state).current_task == old(state).current_task)
            &&& final(state).current_reviewer_id is None
            &&& (action == OpinionUserAction::Abandon && views(old(state).abandoned_participants@).contains(employee_id@)
                ==> final(state).abandoned_participants == old(state).abandoned_participants)
            &&& (action == OpinionUserAction::Abandon && !views(old(state).abandoned_participants@).contains(employee_id@)
                ==> views(final(state).abandoned_participants@) == views(old(state).abandoned_participants@).push(employee_id@))
            &&& (action != OpinionUserAction::Abandon ==> views(final(state).abandoned_participants@) == without_id(
                views(old(state).abandoned_participants@),
                employee_id@,
            ))
        },
{
    match check_opinion_action(state, employee_id, task_running) {
        Err(e) => Err(e),
        Ok(()) => {
            reopen_review(state);
            apply_action_to_state(state, employee_id, action);
            Ok(())
        },
    }
}

/// Marks participant `employee_id` as at work on `task`.
pub fn begin_reviewer_task(state: &mut ReviewStateFile, employee_id: &str, task: ReviewTask)
    ensures
        final(state).current_reviewer_id matches Some(c) && c@ == employee_id@,
        final(state).current_task == Some(task),
        final(state).status == old(state).status,
        final(state).participants == old(state).participants,
        final(state).abandoned_participants == old(state).abandoned_participants,
        final(state).conclusion == old(state).conclusion,
        final(state).requirement_id == old(state).requirement_id,
{
    state.current_reviewer_id = Some(employee_id.to_owned());
    state.current_task = Some(task);
}

/// Marks that no participant is at work.
pub fn end_reviewer_task(state: &mut ReviewStateFile)
    ensures
        final(state).current_reviewer_id is None,
        final(state).current_task is None,
        final(state).status == old(state).status,
        final(state).participants == old(state).participants,
        final(state).abandoned_participants == old(state).abandoned_participants,
        final(state).conclusion == old(state).conclusion,
        final(state).requirement_id == old(state).requirement_id,
{
    state.current_reviewer_id = None;
    state.current_task = None;
}

/// Closes the review at `now` with `conclusion`.
pub fn complete_review(state: &mut ReviewStateFile, conclusion: ReviewConclusion, now: u64)
    ensures
        final(state).status == ReviewStatus::Completed,
        final(state).completed_at_ms == Some(now),
        final(state).conclusion == Some(conclusion),
        final(state).current_reviewer_id is None,
        final(state).current_task is None,
        final(state).participants == old(state).participants,
        final(state).abandoned_participants == old(state).abandoned_participants,
        final(state).requirement_id == old(state).requirement_id,
        final(state).started_at_ms == old(state).started_at_ms,
{
    state.status = ReviewStatus::Completed;
    state.completed_at_ms = Some(now);
    state.conclusion = Some(conclusion);
    state.current_reviewer_id = None;
    state.current_task = None;
}

/// Passes the review at `now` on the user's word: it closes adopted.
pub fn force_pass_review(state: &mut ReviewStateFile, now: u64)
    ensures
        final(state).status == ReviewStatus::Completed,
        final(state).completed_at_ms == Some(now),
        final(state).conclusion == Some(ReviewConclusion::Adopt),
        final(state).current_reviewer_id is None,
        final(state).current_task is None,
        final(state).participants == old(state).participants,
        final(state).abandoned_participants == old(state).abandoned_participants,
        final(state).requirement_id == old(state).requirement_id,
{
    complete_review(state, ReviewConclusion::Adopt, now);
}

/// The summary written when the user passes a review by hand.
pub fn force_pass_summary(title: &str, requirement_id: &str) -> (r: String)
    ensures
        r@ == "# Review summary (force passed)\n\nRequirement **"@ + title@ + "** (`"@ + requirement_id@
            + "`) was manually approved by the user.\n\nCONCLUSION: adopt\n"@,
{
    let mut s = "# Review summary (force passed)\n\nRequirement **".to_owned();
    s.append(title);
    s.append("** (`");
    s.append(requirement_id);
    s.append("`) was manually approved by the user.\n\nCONCLUSION: adopt\n");
    s
}

/// How a review ends: as the opinions decide, else as the summary file states,
/// else as the facilitator's reply states, else supplement.
pub open spec fn final_conclusion_spec(
    decided: Option<ReviewConclusion>,
    summary_text: Seq<char>,
    output: Seq<char>,
) -> ReviewConclusion {
    match decided {
        Some(c) => c,
        None => match summary_conclusion(lowercase(summary_text)) {
            Some(c) => c,
            None => match summary_conclusion(lowercase(output)) {
                Some(c) => c,
                None => ReviewConclusion::Supplement,
            },
        },
    }
}

/// How a review ends, given its opinions, its summary and the facilitator's reply.
pub fn final_conclusion(
    opinions: &Vec<ReviewOpinionWire>,
    state: &ReviewStateFile,
    summary_text: &str,
    output: &str,
) -> (r: ReviewConclusion)
    ensures
        r == final_conclusion_spec(conclusion_spec(opinions@, active_of(*state)), summary_text@, output@),
{
    match derive_review_conclusion(opinions, state) {
        Some(c) => c,
        None => match parse_conclusion(summary_text) {
            Some(c) => c,
            None => match parse_conclusion(output) {
                Some(c) => c,
                None => ReviewConclusion::Supplement,
            },
        },
    }
}

/// The phase a requirement moves to when its review ends: confirm when adopted,
/// back to collection when it needs more.
pub fn phase_after_review(conclusion: ReviewConclusion) -> (r: RequirementPhase)
    ensures
        conclusion == ReviewConclusion::Adopt ==> r == RequirementPhase::Confirm,
        conclusion == ReviewConclusion::Supplement ==> r == RequirementPhase::Collection,
{
    match conclusion {
        ReviewConclusion::Adopt => RequirementPhase::Confirm,
        ReviewConclusion::Supplement => RequirementPhase::Collection,
    }
}

/// A review as the API shows it: the state's fields, the opinions and their
/// counts, and whether it passed as a whole (completed, every active participant
/// passed).
pub fn review_wire(
    requirement_id: String,
    state: ReviewStateFile,
    opinions: Vec<ReviewOpinionWire>,
    summary: Option<String>,
) -> (r: RequirementReviewWire)
    requires
        opinions@.len() <= u32::MAX,
    ensures
        r.requirement_id == requirement_id,
        r.status == state.status,
        r.started_at_ms == state.started_at_ms,
        r.completed_at_ms == state.completed_at_ms,
        r.conclusion == state.conclusion,
        r.participants == state.participants,
        r.opinions == opinions,
        r.summary == summary,
        (r.passed_count as nat, r.failed_count as nat, r.pending_count as nat, r.undecided_count as nat)
            == tally_of(opinions@),
        r.abandoned_count == abandoned_of(opinions@),
        r.overall_passed == (state.status == ReviewStatus::Completed && all_passed_spec(opinions@, active_of(state))),
{
    let tally = review_tally(&opinions);
    let abandoned = abandoned_count(&opinions);
    let overall = state.status == ReviewStatus::Completed && all_reviewers_passed(&opinions, &state);
    RequirementReviewWire {
        requirement_id,
        status: state.status,
        started_at_ms: state.started_at_ms,
        completed_at_ms: state.completed_at_ms,
        conclusion: state.conclusion,
        participants: state.participants,
        opinions,
        summary,
        passed_count: tally.passed,
        failed_count: tally.failed,
        pending_count: tally.pending,
        undecided_count: tally.undecided,
        abandoned_count: abandoned,
        overall_passed: overall,
    }
}

/// What a participant's work task is brought to when the review is reconciled.
#[derive(Debug, Clone, Copy, PartialEq, Eq, Structural)]
pub struct ReviewTaskSync {
    pub opinion_status: OpinionItemStatus,
    pub phase: ReviewTask,
    pub passed: Option<bool>,
    pub progress: u8,
}

/// The verdict a finished review's conclusion stands for.
pub open spec fn conclusion_verdict(c: Option<ReviewConclusion>) -> Option<bool> {
    match c {
        Some(ReviewConclusion::Adopt) => Some(true),
        Some(ReviewConclusion::Supplement) => Some(false),
        None => None,
    }
}

/// What reconciling gives for participant `participant_id` whose opinion on file
/// is `content`: abandoned ones are cancelled; in a finished review, or with
/// an opinion on file, the task is done (its verdict read from the opinion,
/// else from the review's conclusion when finished); the participant at work is
/// in progress or revising; the rest wait.
pub open spec fn reconcile_spec(state: ReviewStateFile, participant_id: Seq<char>, content: Option<String>) -> ReviewTaskSync {
    let read = match content {
        Some(c) => opinion_verdict(c@),
        None => None,
    };
    if views(state.abandoned_participants@).contains(participant_id) {
        ReviewTaskSync { opinion_status: OpinionItemStatus::Abandoned, phase: ReviewTask::Opinion, passed: None, progress: 0 }
    } else if state.status == ReviewStatus::Completed {
        ReviewTaskSync {
            opinion_status: OpinionItemStatus::Completed,
            phase: ReviewTask::Opinion,
            passed: if read is Some { read } else { conclusion_verdict(state.conclusion) },
            progress: 100,
        }
    } else if content is Some {
        ReviewTaskSync { opinion_status: OpinionItemStatus::Completed, phase: ReviewTask::Opinion, passed: read, progress: 100 }
    } else if names_reviewer(state.current_reviewer_id, participant_id) {
        if state.current_task == Some(ReviewTask::Revise) {
            ReviewTaskSync { opinion_status: OpinionItemStatus::Revising, phase: ReviewTask::Revise, passed: None, progress: 0 }
        } else {
            ReviewTaskSync { opinion_status: OpinionItemStatus::InProgress, phase: ReviewTask::Opinion, passed: None, progress: 0 }
        }
    } else {
        ReviewTaskSync { opinion_status: OpinionItemStatus::Pending, phase: ReviewTask::Opinion, passed: None, progress: 0 }
    }
}

/// What reconciling the review brings participant `participant_id`'s task to.
pub fn reconcile_participant(state: &ReviewStateFile, participant_id: &str, content: &Option<String>) -> (r: ReviewTaskSync)
    ensures
        r == reconcile_spec(*state, participant_id@, *content),
{
    let read = match content {
        Some(c) => parse_opinion_passed(c.as_str()),
        None => None,
    };
    if holds_id(&state.abandoned_participants, participant_id) {
        ReviewTaskSync { opinion_status: OpinionItemStatus::Abandoned, phase: ReviewTask::Opinion, passed: None, progress: 0 }
    } else if state.status == ReviewStatus::Completed {
        let passed = if read.is_some() {
            read
        } else {
            match state.conclusion {
                Some(ReviewConclusion::Adopt) => Some(true),
                Some(ReviewConclusion::Supplement) => Some(false),
                None => None,
            }
        };
        ReviewTaskSync { opinion_status: OpinionItemStatus::Completed, phase: ReviewTask::Opinion, passed, progress: 100 }
    } else if content.is_some() {
        ReviewTaskSync { opinion_status: OpinionItemStatus::Completed, phase: ReviewTask::Opinion, passed: read, progress: 100 }
    } else if is_some_id(&state.current_reviewer_id, participant_id) {
        if state.current_task == Some(ReviewTask::Revise) {
            ReviewTaskSync { opinion_status: OpinionItemStatus::Revising, phase: ReviewTask::Revise, passed: None, progress: 0 }
        } else {
            ReviewTaskSync { opinion_status: OpinionItemStatus::InProgress, phase: ReviewTask::Opinion, passed: None, progress: 0 }
        }
    } else {
        ReviewTaskSync { opinion_status: OpinionItemStatus::Pending, phase: ReviewTask::Opinion, passed: None, progress: 0 }
    }
}

/// What reconciling the review brings each participant's task to, in the order of
/// the review's participants; `contents` holds each one's opinion on file.
pub fn reconcile_review_work_tasks(state: &ReviewStateFile, contents: &Vec<Option<String>>) -> (r: Vec<ReviewTaskSync>)
    requires
        contents@.len() == state.participants@.len(),
    ensures
        r@.len() == state.participants@.len(),
        forall|i: int| 0 <= i < r@.len() ==> #[trigger] r@[i] == reconcile_spec(*state, state.participants@[i]@, contents@[i]),
{
    let mut out: Vec<ReviewTaskSync> = Vec::new();
    let mut i: usize = 0;
    while i < state.participants.len()
        invariant
            i <= state.participants@.len(),
            contents@.len() == state.participants@.len(),
            out@.len() == i,
            forall|k: int| 0 <= k < i ==> #[trigger] out@[k] == reconcile_spec(*state, state.participants@[k]@, contents@[k]),
        decreases state.participants@.len() - i,
    {
        let sync = reconcile_participant(state, state.participants[i].as_str(), &contents[i]);
        out.push(sync);
        i = i + 1;
    }
    out
}

} // verus!
