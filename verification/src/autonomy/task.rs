use vstd::prelude::*;
use crate::text::{decimal, u64_to_decimal};
use std::time::{Duration, SystemTime, SystemTimeError};

verus! {

/// Lifecycle state of an autonomy task.
#[derive(Debug, Clone, Copy, PartialEq, Eq, Structural, PartialOrd, Ord)]
pub enum TaskStatus {
    Pending,
    Ready,
    Scheduled,
    Running,
    Paused,
    Completed,
    Failed,
    Cancelled,
}

impl TaskStatus {
    /// Completed, failed and cancelled tasks are finished for good.
    pub open spec fn spec_is_terminal(self) -> bool {
        self is Completed || self is Failed || self is Cancelled
    }

    /// Running and paused tasks hold a worker.
    pub open spec fn spec_is_active(self) -> bool {
        self is Running || self is Paused
    }

    /// The snake_case name the status is stored under.
    pub open spec fn name(self) -> Seq<char> {
        match self {
            TaskStatus::Pending => "pending"@,
            TaskStatus::Ready => "ready"@,
            TaskStatus::Scheduled => "scheduled"@,
            TaskStatus::Running => "running"@,
            TaskStatus::Paused => "paused"@,
            TaskStatus::Completed => "completed"@,
            TaskStatus::Failed => "failed"@,
            TaskStatus::Cancelled => "cancelled"@,
        }
    }

    pub fn is_terminal(&self) -> (r: bool)
        ensures
            r == self.spec_is_terminal(),
    {
        match self {
            TaskStatus::Completed | TaskStatus::Failed | TaskStatus::Cancelled => true,
            _ => false,
        }
    }

    pub fn is_active(&self) -> (r: bool)
        ensures
            r == self.spec_is_active(),
    {
        match self {
            TaskStatus::Running | TaskStatus::Paused => true,
            _ => false,
        }
    }

    pub fn as_str(&self) -> (r: &'static str)
        ensures
            r@ == self.name(),
    {
        match self {
            TaskStatus::Pending => "pending",
            TaskStatus::Ready => "ready",
            TaskStatus::Scheduled => "scheduled",
            TaskStatus::Running => "running",
            TaskStatus::Paused => "paused",
            TaskStatus::Completed => "completed",
            TaskStatus::Failed => "failed",
            TaskStatus::Cancelled => "cancelled",
        }
    }
}

/// Urgency of a task; `Critical` is the most urgent and orders first.
#[derive(Debug, Clone, Copy, PartialEq, Eq, Structural, PartialOrd, Ord)]
pub enum TaskPriority {
    Critical,
    High,
    Medium,
    Low,
}

impl TaskPriority {
    /// Position in the order Critical < High < Medium < Low.
    pub open spec fn rank(self) -> int {
        match self {
            TaskPriority::Critical => 0,
            TaskPriority::High => 1,
            TaskPriority::Medium => 2,
            TaskPriority::Low => 3,
        }
    }

    pub open spec fn name(self) -> Seq<char> {
        match self {
            TaskPriority::Critical => "critical"@,
            TaskPriority::High => "high"@,
            TaskPriority::Medium => "medium"@,
            TaskPriority::Low => "low"@,
        }
    }

    pub fn as_str(&self) -> (r: &'static str)
        ensures
            r@ == self.name(),
    {
        match self {
            TaskPriority::Critical => "critical",
            TaskPriority::High => "high",
            TaskPriority::Medium => "medium",
            TaskPriority::Low => "low",
        }
    }

    /// The rank as a number.
    pub fn rank_value(&self) -> (r: u8)
        ensures
            r == self.rank(),
    {
        match self {
            TaskPriority::Critical => 0,
            TaskPriority::High => 1,
            TaskPriority::Medium => 2,
            TaskPriority::Low => 3,
        }
    }
}

/// Estimated difficulty of a task, from 1 (trivial) to 5 (very complex).
#[derive(Debug, Clone, Copy, PartialEq, Eq, Structural, PartialOrd, Ord)]
pub enum ComplexityLevel {
    Trivial,
    Simple,
    Moderate,
    Complex,
    VeryComplex,
}

impl ComplexityLevel {
    pub open spec fn level(self) -> int {
        match self {
            ComplexityLevel::Trivial => 1,
            ComplexityLevel::Simple => 2,
            ComplexityLevel::Moderate => 3,
            ComplexityLevel::Complex => 4,
            ComplexityLevel::VeryComplex => 5,
        }
    }

    pub fn level_value(&self) -> (r: u8)
        ensures
            r == self.level(),
    {
        match self {
            ComplexityLevel::Trivial => 1,
            ComplexityLevel::Simple => 2,
            ComplexityLevel::Moderate => 3,
            ComplexityLevel::Complex => 4,
            ComplexityLevel::VeryComplex => 5,
        }
    }
}

#[derive(Debug, Clone, Copy, PartialEq, Eq, Structural)]
pub enum BackoffStrategy {
    Fixed,
    Linear,
    Exponential,
}

/// How often, and after which delays, a failed task is retried.
#[derive(Debug, Clone, PartialEq, Eq, Structural)]
pub struct RetryPolicy {
    pub max_retries: u32,
    pub backoff_strategy: BackoffStrategy,
    pub initial_delay_ms: u64,
    pub max_delay_ms: u64,
}

impl Default for RetryPolicy {
    fn default() -> (r: Self)
        ensures
            r.max_retries == 0,
            r.backoff_strategy == BackoffStrategy::Exponential,
            r.initial_delay_ms == 5_000,
            r.max_delay_ms == 300_000,
    {
        RetryPolicy {
            max_retries: 0,
            backoff_strategy: BackoffStrategy::Exponential,
            initial_delay_ms: 5_000,
            max_delay_ms: 300_000,
        }
    }
}

/// `x` capped at `u64::MAX`.
pub open spec fn saturate(x: int) -> int {
    if x > u64::MAX {
        u64::MAX as int
    } else {
        x
    }
}

pub open spec fn pow2(e: nat) -> nat
    decreases e,
{
    if e == 0 {
        1
    } else {
        2 * pow2((e - 1) as nat)
    }
}

impl RetryPolicy {
    /// The delay before retry number `retry_count + 1`: fixed, growing linearly,
    /// or doubling each time (saturating, then capped at `max_delay_ms`).
    pub open spec fn delay(self, retry_count: u32) -> int {
        match self.backoff_strategy {
            BackoffStrategy::Fixed => self.initial_delay_ms as int,
            BackoffStrategy::Linear => self.initial_delay_ms * (retry_count + 1),
            BackoffStrategy::Exponential => {
                let d = saturate(self.initial_delay_ms * pow2(retry_count as nat));
                if d <= self.max_delay_ms {
                    d
                } else {
                    self.max_delay_ms as int
                }
            },
        }
    }

    pub fn next_delay(&self, retry_count: u32) -> (r: u64)
        requires
            self.backoff_strategy == BackoffStrategy::Linear ==> self.initial_delay_ms * (
            retry_count + 1) <= u64::MAX,
        ensures
            r == self.delay(retry_count),
    {
        match self.backoff_strategy {
            BackoffStrategy::Fixed => self.initial_delay_ms,
            BackoffStrategy::Linear => self.initial_delay_ms * (retry_count as u64 + 1),
            BackoffStrategy::Exponential => {
                let d = saturating_scaled(self.initial_delay_ms, retry_count);
                if d <= self.max_delay_ms {
                    d
                } else {
                    self.max_delay_ms
                }
            },
        }
    }
}

proof fn lemma_pow2_grows(e: nat)
    ensures
        pow2(e) >= e + 1,
    decreases e,
{
    if e > 0 {
        lemma_pow2_grows((e - 1) as nat);
    }
}

/// `base * 2^e`, saturating at `u64::MAX`.
fn saturating_scaled(base: u64, e: u32) -> (r: u64)
    ensures
        r == saturate(base * pow2(e as nat)),
{
    if base == 0 {
        assert(base * pow2(e as nat) == 0);
        return 0;
    }
    let mut acc: u64 = base;
    let mut i: u32 = 0;
    assert(pow2(0) == 1);
    assert(base * pow2(0) == base);
    while i < e
        invariant
            i <= e,
            base > 0,
            acc == base * pow2(i as nat),
        decreases e - i,
    {
        match acc.checked_mul(2) {
            Some(v) => {
                assert(base * pow2((i + 1) as nat) == (base * pow2(i as nat)) * 2) by (nonlinear_arith)
                    requires pow2((i + 1) as nat) == 2 * pow2(i as nat);
                acc = v;
                i = i + 1;
            },
            None => {
                proof {
                    lemma_pow2_mono((i + 1) as nat, e as nat);
                    assert(pow2((i + 1) as nat) == 2 * pow2(i as nat));
                    assert(base * pow2(e as nat) >= acc * 2) by (nonlinear_arith)
                        requires
                            pow2(e as nat) >= pow2((i + 1) as nat),
                            pow2((i + 1) as nat) == 2 * pow2(i as nat),
                            acc == base * pow2(i as nat),
                            base > 0;
                }
                return u64::MAX;
            },
        }
    }
    acc
}

proof fn lemma_pow2_mono(a: nat, b: nat)
    requires
        a <= b,
    ensures
        pow2(a) <= pow2(b),
    decreases b,
{
    if a < b {
        lemma_pow2_mono(a, (b - 1) as nat);
    }
}

/// Requirement and branch a task belongs to, plus any further context fields
/// as a JSON object text.
#[derive(Debug, Clone, PartialEq, Eq)]
pub struct TaskContext {
    pub requirement_id: Option<String>,
    pub requirement_phase: Option<String>,
    pub branch: Option<String>,
    pub extra: String,
}

impl Default for TaskContext {
    /// No requirement, phase or branch, and no further fields.
    fn default() -> (r: TaskContext)
        ensures
            r.requirement_id is None,
            r.requirement_phase is None,
            r.branch is None,
            r.extra@ == "{}"@,
    {
        TaskContext { requirement_id: None, requirement_phase: None, branch: None, extra: "{}".to_string() }
    }
}

/// Outcome of one execution of a task.
#[derive(Debug, Clone, PartialEq, Eq)]
pub struct TaskResult {
    pub success: bool,
    pub exit_code: i32,
    pub output_preview: Option<String>,
    pub error: Option<String>,
    pub agent_task_id: Option<String>,
}

/// A unit of autonomous work, with its dependencies and retry state.
#[derive(Debug, Clone, PartialEq, Eq)]
pub struct Task {
    pub id: String,
    pub title: String,
    pub description: String,
    pub status: TaskStatus,
    pub priority: TaskPriority,
    pub complexity: ComplexityLevel,
    pub estimated_duration_secs: u64,
    pub actual_duration_secs: Option<u64>,
    pub assignee: Option<String>,
    pub executor_pid: Option<u32>,
    pub dependencies: Vec<String>,
    pub dependents: Vec<String>,
    pub plan_id: String,
    pub parent_task_id: Option<String>,
    pub sub_tasks: Vec<String>,
    pub context: TaskContext,
    pub result: Option<TaskResult>,
    pub retry_policy: RetryPolicy,
    pub retry_count: u32,
    pub next_retry_at_ms: Option<u64>,
    pub created_at_ms: u64,
    pub started_at_ms: Option<u64>,
    pub completed_at_ms: Option<u64>,
}

impl Task {
    pub open spec fn spec_is_retryable(self) -> bool {
        self.retry_count < self.retry_policy.max_retries
    }

    /// A failed task may be retried while it has retries left.
    pub fn is_retryable(&self) -> (r: bool)
        ensures
            r == self.spec_is_retryable(),
    {
        self.retry_count < self.retry_policy.max_retries
    }
}

proof fn lemma_pow2_monotone(a: nat, b: nat)
    requires
        a <= b,
    ensures
        pow2(a) <= pow2(b),
    decreases b,
{
    if a < b {
        lemma_pow2_monotone(a, (b - 1) as nat);
    }
}

/// Under exponential backoff the delay before a retry never exceeds the
/// policy's maximum, and it never shrinks as retries add up.
pub proof fn lemma_exponential_backoff_capped_and_growing(p: RetryPolicy, m: u32, n: u32)
    requires
        p.backoff_strategy == BackoffStrategy::Exponential,
        m <= n,
    ensures
        p.delay(n) <= p.max_delay_ms,
        p.delay(m) <= p.delay(n),
{
    lemma_pow2_monotone(m as nat, n as nat);
    assert(p.initial_delay_ms * pow2(m as nat) <= p.initial_delay_ms * pow2(n as nat)) by (nonlinear_arith)
        requires
            pow2(m as nat) <= pow2(n as nat),
    ;
}

#[verifier::external_type_specification]
#[verifier::external_body]
pub struct ExSystemTime(std::time::SystemTime);

#[verifier::external_type_specification]
#[verifier::external_body]
pub struct ExSystemTimeError(std::time::SystemTimeError);

/// Calls `SystemTime::now`: the clock's reading, of which nothing is stated.
#[verifier::external_body]
fn clock_now() -> SystemTime {
    SystemTime::now()
}

/// Calls `SystemTime::duration_since` with the Unix epoch: the time since the
/// epoch, or an error when the reading is before it. Nothing is stated of
/// either, since a reading is opaque here.
#[verifier::external_body]
fn since_epoch(t: SystemTime) -> Result<Duration, SystemTimeError> {
    t.duration_since(std::time::UNIX_EPOCH)
}

/// Calls `Duration::as_millis`: the whole milliseconds of `d`. Nothing is
/// stated of the value, since a duration is opaque here.
#[verifier::external_body]
fn whole_millis(d: Duration) -> u128 {
    d.as_millis()
}

/// The milliseconds since the Unix epoch by the clock, cut to 64 bits; 0 when
/// the clock reads before the epoch. Nothing is stated of the value: it is
/// the time.
pub fn now_ms() -> u64 {
    match since_epoch(clock_now()) {
        Ok(d) => {
            let ms = whole_millis(d);
            #[verifier::truncate]
            let r = ms as u64;
            r
        },
        Err(_) => 0,
    }
}

/// `prefix` followed by `_` and the decimal numeral of `ms`.
pub open spec fn stamped_id(prefix: Seq<char>, ms: u64) -> Seq<char> {
    prefix + "_"@ + decimal(ms as nat)
}

/// The identifier `<prefix>_<ms>`.
pub fn stamped_id_for(prefix: &str, ms: u64) -> (r: String)
    ensures
        r@ == stamped_id(prefix@, ms),
{
    let mut r = prefix.to_owned();
    r.append("_");
    let digits = u64_to_decimal(ms);
    r.append(digits.as_str());
    r
}

/// A fresh task identifier `task_<now in ms>`.
pub fn new_task_id() -> (r: String)
    ensures
        exists|ms: u64| r@ == stamped_id("task"@, ms),
{
    let ms = now_ms();
    stamped_id_for("task", ms)
}

} // verus!
