use vstd::prelude::*;
use crate::text::same_text;

verus! {

/// How often, in milliseconds, the watch loop looks at the conversation file.
pub const POLL_INTERVAL_MS: u64 = 100;

/// What changed in a conversation since the last look: the positions of the
/// messages that are new or changed, and the snapshot (message id and content
/// hash of each message, in order) to compare the next look with.
#[derive(Debug)]
pub struct ConversationDiff {
    pub changed: Vec<usize>,
    pub snapshot: Vec<(String, u64)>,
}

/// The hash that `snapshot` records for message `id`: the one recorded last.
pub open spec fn recorded_hash(snapshot: Seq<(String, u64)>, id: Seq<char>) -> Option<u64>
    decreases snapshot.len(),
{
    if snapshot.len() == 0 {
        None
    } else if snapshot.last().0@ == id {
        Some(snapshot.last().1)
    } else {
        recorded_hash(snapshot.drop_last(), id)
    }
}

/// Whether message `m` (its id and content hash) is new or changed against `prev`.
pub open spec fn is_changed(prev: Seq<(String, u64)>, m: (String, u64)) -> bool {
    recorded_hash(prev, m.0@) != Some(m.1)
}

/// The positions among the first `n` of `messages` that are new or changed.
pub open spec fn changed_positions(prev: Seq<(String, u64)>, messages: Seq<(String, u64)>, n: nat) -> Seq<usize>
    decreases n,
{
    if n == 0 {
        seq![]
    } else if is_changed(prev, messages[n - 1]) {
        changed_positions(prev, messages, (n - 1) as nat).push((n - 1) as usize)
    } else {
        changed_positions(prev, messages, (n - 1) as nat)
    }
}

/// The hash that `snapshot` records for message `id`.
fn lookup_hash(snapshot: &Vec<(String, u64)>, id: &str) -> (r: Option<u64>)
    ensures
        r == recorded_hash(snapshot@, id@),
{
    let mut k: usize = snapshot.len();
    assert(snapshot@.take(k as int) =~= snapshot@);
    while k > 0
        invariant
            k <= snapshot@.len(),
            recorded_hash(snapshot@, id@) == recorded_hash(snapshot@.take(k as int), id@),
        decreases k,
    {
        assert(snapshot@.take(k as int).last() == snapshot@[k - 1]);
        if same_text(snapshot[k - 1].0.as_str(), id) {
            return Some(snapshot[k - 1].1);
        }
        assert(snapshot@.take(k as int).drop_last() =~= snapshot@.take(k - 1));
        k = k - 1;
    }
    None
}

/// Compares the messages of a conversation (each one's id and content hash, in
/// order) with the snapshot of the last look: a message is sent again when its
/// id is new or its hash changed. The new snapshot is the messages themselves.
pub fn diff_conversation(prev: &Vec<(String, u64)>, messages: &Vec<(String, u64)>) -> (r: ConversationDiff)
    ensures
        r.snapshot@ == messages@,
        r.changed@ == changed_positions(prev@, messages@, messages@.len()),
{
    let mut changed: Vec<usize> = Vec::new();
    let mut snapshot: Vec<(String, u64)> = Vec::new();
    let mut i: usize = 0;
    while i < messages.len()
        invariant
            i <= messages@.len(),
            snapshot@ == messages@.take(i as int),
            changed@ == changed_positions(prev@, messages@, i as nat),
        decreases messages@.len() - i,
    {
        let id = messages[i].0.clone();
        let hash = messages[i].1;
        match lookup_hash(prev, id.as_str()) {
            Some(h) if h == hash => {},
            _ => {
                changed.push(i);
            },
        }
        snapshot.push((id, hash));
        assert(messages@.take(i + 1) =~= messages@.take(i as int).push(messages@[i as int]));
        i = i + 1;
    }
    assert(messages@.take(messages@.len() as int) =~= messages@);
    ConversationDiff { changed, snapshot }
}

/// Whether no two messages of `ms` share an id.
pub open spec fn distinct_ids(ms: Seq<(String, u64)>) -> bool {
    forall|i: int, j: int| 0 <= i < j < ms.len() ==> (#[trigger] ms[i]).0@ != (#[trigger] ms[j]).0@
}

proof fn lemma_recorded_own_hash(s: Seq<(String, u64)>, k: int)
    requires
        distinct_ids(s),
        0 <= k < s.len(),
    ensures
        recorded_hash(s, s[k].0@) == Some(s[k].1),
    decreases s.len(),
{
    if k < s.len() - 1 {
        assert(s.last().0@ != s[k].0@);
        let t = s.drop_last();
        assert(t[k] == s[k]);
        assert(distinct_ids(t)) by {
            assert forall|i: int, j: int| 0 <= i < j < t.len() implies (#[trigger] t[i]).0@ != (#[trigger] t[j]).0@ by {
                assert(t[i] == s[i] && t[j] == s[j]);
            }
        }
        lemma_recorded_own_hash(t, k);
    }
}

proof fn lemma_no_change_upto(ms: Seq<(String, u64)>, n: nat)
    requires
        distinct_ids(ms),
        n <= ms.len(),
    ensures
        changed_positions(ms, ms, n).len() == 0,
    decreases n,
{
    if n > 0 {
        lemma_recorded_own_hash(ms, n - 1);
        lemma_no_change_upto(ms, (n - 1) as nat);
    }
}

/// Comparing a conversation with the snapshot of itself finds nothing to send,
/// when no two of its messages share an id.
pub proof fn lemma_unchanged_conversation_sends_nothing(ms: Seq<(String, u64)>)
    requires
        distinct_ids(ms),
    ensures
        changed_positions(ms, ms, ms.len()) == Seq::<usize>::empty(),
{
    lemma_no_change_upto(ms, ms.len());
}

} // verus!
