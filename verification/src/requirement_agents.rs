use vstd::prelude::*;
use crate::employee::EmployeeRecord;
use crate::text::same_text;

verus! {

/// Which employee a background agent run was given to.
#[derive(Debug)]
pub struct AgentDispatchWire {
    pub employee_id: String,
    pub employee_name: String,
    pub role: String,
}

impl AgentDispatchWire {
    /// The dispatch answer naming `employee`.
    pub fn from_employee(employee: &EmployeeRecord) -> (r: AgentDispatchWire)
        ensures
            r.employee_id == employee.id,
            r.employee_name == employee.name,
            r.role == employee.role,
    {
        AgentDispatchWire {
            employee_id: employee.id.clone(),
            employee_name: employee.name.clone(),
            role: employee.role.clone(),
        }
    }
}

/// Whether `k` is the role key `role_key`.
pub open spec fn resolves_to(k: Option<String>, role_key: Seq<char>) -> bool {
    k matches Some(x) && x@ == role_key
}

/// Whether some key of `ks` is the role key `role_key`.
pub open spec fn any_resolves_to(ks: Seq<Option<String>>, role_key: Seq<char>) -> bool {
    exists|i: int| 0 <= i < ks.len() && resolves_to(#[trigger] ks[i], role_key)
}

/// The employee to give work of role `role_key`: the first whose role the work
/// rules resolve to it (when the rules could be read; `resolved` holds each
/// employee's resolved key), else the first employee; none when there is no
/// employee. The result is an index into the employees.
pub fn pick_employee_for_role(employee_count: usize, resolved: Option<&Vec<Option<String>>>, role_key: &str) -> (r: Option<usize>)
    requires
        resolved matches Some(ks) ==> ks@.len() == employee_count,
    ensures
        employee_count == 0 ==> r is None,
        employee_count > 0 ==> (r matches Some(i) && i < employee_count),
        resolved is None ==> employee_count > 0 ==> r == Some(0usize),
        (resolved matches Some(ks) && any_resolves_to(ks@, role_key@)) ==> (
            r matches Some(i) && (resolved matches Some(ks) && resolves_to(ks@[i as int], role_key@) && forall|j: int|
                0 <= j < i ==> !resolves_to(#[trigger] ks@[j], role_key@))),
        (resolved matches Some(ks) && !any_resolves_to(ks@, role_key@))
            ==> employee_count > 0 ==> r == Some(0usize),
{
    if employee_count == 0 {
        return None;
    }
    if let Some(ks) = resolved {
        let mut i: usize = 0;
        while i < ks.len()
            invariant
                i <= ks@.len(),
                ks@.len() == employee_count,
                employee_count > 0,
                resolved == Some(ks),
                forall|j: int| 0 <= j < i ==> !resolves_to(#[trigger] ks@[j], role_key@),
            decreases ks@.len() - i,
        {
            let hit = match &ks[i] {
                Some(x) => same_text(x.as_str(), role_key),
                None => false,
            };
            if hit {
                assert(resolves_to(ks@[i as int], role_key@));
                assert(any_resolves_to(ks@, role_key@));
                return Some(i);
            }
            i = i + 1;
        }
    }
    Some(0)
}

} // verus!
