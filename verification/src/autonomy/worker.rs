use vstd::prelude::*;
use crate::autonomy::task::{stamped_id, stamped_id_for};
use crate::text::{same_text, views};

verus! {

/// Whether a worker takes tasks.
#[derive(Debug, Clone, Copy, PartialEq, Eq, Structural)]
pub enum WorkerStatus {
    Active,
    Busy,
    Paused,
    Offline,
}

/// How loaded a worker is, from idle to critical.
#[derive(Debug, Clone, Copy, PartialEq, Eq, Structural, PartialOrd, Ord)]
pub enum LoadLevel {
    Idle,
    Light,
    Moderate,
    Heavy,
    Critical,
}

impl LoadLevel {
    /// Position in the order Idle < Light < Moderate < Heavy < Critical.
    pub open spec fn rank(self) -> int {
        match self {
            LoadLevel::Idle => 0,
            LoadLevel::Light => 1,
            LoadLevel::Moderate => 2,
            LoadLevel::Heavy => 3,
            LoadLevel::Critical => 4,
        }
    }

    /// The rank as a number.
    pub fn rank_value(&self) -> (r: u8)
        ensures
            r == self.rank(),
    {
        match self {
            LoadLevel::Idle => 0,
            LoadLevel::Light => 1,
            LoadLevel::Moderate => 2,
            LoadLevel::Heavy => 3,
            LoadLevel::Critical => 4,
        }
    }

    /// The load of a worker running `running` tasks of its `quota`: idle at
    /// none, light up to 40 %, moderate up to 70 %, heavy up to 90 %, critical
    /// above that or with no quota.
    pub open spec fn of_ratio(running: int, quota: int) -> LoadLevel {
        if quota == 0 {
            LoadLevel::Critical
        } else if running == 0 {
            LoadLevel::Idle
        } else if 10 * running <= 4 * quota {
            LoadLevel::Light
        } else if 10 * running <= 7 * quota {
            LoadLevel::Moderate
        } else if 10 * running <= 9 * quota {
            LoadLevel::Heavy
        } else {
            LoadLevel::Critical
        }
    }

    /// The load of a worker running `running` tasks of its `quota`, the
    /// thresholds compared as exact fractions.
    pub fn from_ratio(running: usize, quota: usize) -> (r: LoadLevel)
        ensures
            r == LoadLevel::of_ratio(running as int, quota as int),
    {
        if quota == 0 {
            return LoadLevel::Critical;
        }
        let r10 = (running as u128) * 10;
        let q = quota as u128;
        if running == 0 {
            LoadLevel::Idle
        } else if r10 <= 4 * q {
            LoadLevel::Light
        } else if r10 <= 7 * q {
            LoadLevel::Moderate
        } else if r10 <= 9 * q {
            LoadLevel::Heavy
        } else {
            LoadLevel::Critical
        }
    }

    pub open spec fn available(self) -> bool {
        self != LoadLevel::Critical
    }

    /// A worker takes tasks unless its load is critical.
    pub fn is_available(&self) -> (r: bool)
        ensures
            r == self.available(),
    {
        !matches!(self, LoadLevel::Critical)
    }
}

/// More running tasks never make a worker less loaded.
pub proof fn lemma_load_monotonic(a: int, b: int, quota: int)
    requires
        0 <= a <= b,
        quota >= 0,
    ensures
        LoadLevel::of_ratio(a, quota).rank() <= LoadLevel::of_ratio(b, quota).rank(),
{
}

/// An autonomy worker.
#[derive(Debug)]
pub struct Worker {
    pub id: String,
    pub name: String,
    pub role: String,
    pub capabilities: Vec<String>,
    pub concurrency_quota: usize,
    pub memory_file: Option<String>,
    pub status: WorkerStatus,
    pub current_load: LoadLevel,
    pub created_at_ms: u64,
    pub updated_at_ms: u64,
}

impl Worker {
    pub open spec fn capable_of(self, cap: Seq<char>) -> bool {
        self.capabilities@.len() == 0 || views(self.capabilities@).contains(cap)
    }

    /// A worker with no listed capability can do anything; else it can do
    /// what it lists.
    pub fn has_capability(&self, cap: &str) -> (r: bool)
        ensures
            r == self.capable_of(cap@),
    {
        if self.capabilities.len() == 0 {
            return true;
        }
        let mut i: usize = 0;
        while i < self.capabilities.len()
            invariant
                i <= self.capabilities@.len(),
                forall|j: int| 0 <= j < i ==> self.capabilities@[j]@ != cap@,
            decreases self.capabilities@.len() - i,
        {
            if same_text(self.capabilities[i].as_str(), cap) {
                assert(views(self.capabilities@)[i as int] == cap@);
                return true;
            }
            i = i + 1;
        }
        proof {
            if views(self.capabilities@).contains(cap@) {
                let k = choose|k: int| 0 <= k < views(self.capabilities@).len() && views(self.capabilities@)[k] == cap@;
                assert(self.capabilities@[k]@ == cap@);
            }
        }
        false
    }
}

/// The id of a worker made at `now_ms`: `worker_<now>`.
pub fn new_worker_id(now_ms: u64) -> (r: String)
    ensures
        r@ == stamped_id("worker"@, now_ms),
{
    stamped_id_for("worker", now_ms)
}

/// A worker after an update at `now_ms`: only its update time changes.
pub fn update_worker(worker: &mut Worker, now_ms: u64)
    ensures
        *final(worker) == (Worker { updated_at_ms: now_ms, ..*old(worker) }),
{
    worker.updated_at_ms = now_ms;
}

} // verus!
