use vstd::prelude::*;
use crate::text::{contains, has_substring, views};

verus! {

/// What intent detection knows about the chat it reads.
#[derive(Debug)]
pub struct IntentContext {
    pub workspace: String,
    pub employee_id: String,
    pub known_requirement_ids: Vec<String>,
    pub known_employee_ids: Vec<String>,
}

/// The id of `ids` that the input names: the first one it holds; else the
/// only one, when there is exactly one; else none.
pub open spec fn named_or_only(input: Seq<char>, ids: Seq<Seq<char>>) -> Option<Seq<char>> {
    if exists|i: int| 0 <= i < ids.len() && has_substring(input, #[trigger] ids[i]) {
        Some(ids[first_contained(input, ids)])
    } else if ids.len() == 1 {
        Some(ids[0])
    } else {
        None
    }
}

/// The index of the first id of `ids` that `input` holds.
pub open spec fn first_contained(input: Seq<char>, ids: Seq<Seq<char>>) -> int {
    choose|i: int|
        0 <= i < ids.len() && has_substring(input, ids[i]) && forall|j: int|
            0 <= j < i ==> !has_substring(input, #[trigger] ids[j])
}

/// Finds the first id of `ids` that `input` holds.
pub fn first_named(input: &str, ids: &Vec<String>) -> (r: Option<usize>)
    ensures
        match r {
            Some(i) => i < ids@.len() && has_substring(input@, ids@[i as int]@) && forall|j: int|
                0 <= j < i ==> !has_substring(input@, #[trigger] ids@[j]@),
            None => forall|j: int| 0 <= j < ids@.len() ==> !has_substring(input@, #[trigger] ids@[j]@),
        },
{
    let mut i: usize = 0;
    while i < ids.len()
        invariant
            i <= ids@.len(),
            forall|j: int| 0 <= j < i ==> !has_substring(input@, #[trigger] ids@[j]@),
        decreases ids@.len() - i,
    {
        if contains(input, ids[i].as_str()) {
            return Some(i);
        }
        i = i + 1;
    }
    None
}

proof fn lemma_first_contained(input: Seq<char>, ids: Seq<Seq<char>>, i: int)
    requires
        0 <= i < ids.len(),
        has_substring(input, ids[i]),
        forall|j: int| 0 <= j < i ==> !has_substring(input, #[trigger] ids[j]),
    ensures
        first_contained(input, ids) == i,
{
    let k = first_contained(input, ids);
    assert(0 <= k < ids.len() && has_substring(input, ids[k]) && forall|j: int| 0 <= j < k ==> !has_substring(input, #[trigger] ids[j]));
    if k < i {
        assert(!has_substring(input, ids[k]));
    }
    if i < k {
        assert(!has_substring(input, ids[i]));
    }
}

/// The id that `input` names among `ids`, or the only one.
pub fn find_named_or_only(input: &str, ids: &Vec<String>) -> (r: Option<String>)
    ensures
        match r {
            Some(x) => named_or_only(input@, views(ids@)) == Some(x@),
            None => named_or_only(input@, views(ids@)) is None,
        },
{
    let ghost vs = views(ids@);
    match first_named(input, ids) {
        Some(i) => {
            proof {
                assert(vs[i as int] == ids@[i as int]@);
                assert forall|j: int| 0 <= j < i implies !has_substring(input@, #[trigger] vs[j]) by {
                    assert(vs[j] == ids@[j]@);
                }
                lemma_first_contained(input@, vs, i as int);
            }
            Some(ids[i].clone())
        },
        None => {
            proof {
                assert forall|j: int| 0 <= j < vs.len() implies !has_substring(input@, #[trigger] vs[j]) by {
                    assert(vs[j] == ids@[j]@);
                }
            }
            if ids.len() == 1 {
                Some(ids[0].clone())
            } else {
                None
            }
        },
    }
}

impl IntentContext {
    /// The context of a chat with `employee_id` in `workspace`, knowing the
    /// requirement and employee ids that exist.
    pub fn new(
        workspace: String,
        employee_id: String,
        known_requirement_ids: Vec<String>,
        known_employee_ids: Vec<String>,
    ) -> (r: IntentContext)
        ensures
            r.workspace == workspace,
            r.employee_id == employee_id,
            r.known_requirement_ids == known_requirement_ids,
            r.known_employee_ids == known_employee_ids,
    {
        IntentContext { workspace, employee_id, known_requirement_ids, known_employee_ids }
    }

    /// The requirement that `input` names, or the only one there is.
    pub fn find_requirement_id(&self, input: &str) -> (r: Option<String>)
        ensures
            match r {
                Some(x) => named_or_only(input@, views(self.known_requirement_ids@)) == Some(x@),
                None => named_or_only(input@, views(self.known_requirement_ids@)) is None,
            },
    {
        find_named_or_only(input, &self.known_requirement_ids)
    }

    /// The employee that `input` names, or the only one there is.
    pub fn find_employee_id(&self, input: &str) -> (r: Option<String>)
        ensures
            match r {
                Some(x) => named_or_only(input@, views(self.known_employee_ids@)) == Some(x@),
                None => named_or_only(input@, views(self.known_employee_ids@)) is None,
            },
    {
        find_named_or_only(input, &self.known_employee_ids)
    }
}

} // verus!
