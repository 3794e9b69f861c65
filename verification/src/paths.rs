use vstd::prelude::*;
use crate::text::chars_of;

verus! {

/// `base` with `comp` pushed on, as `PathBuf::push` does on Unix: an absolute
/// `comp` replaces `base`; otherwise a `/` separates them unless `base` is
/// empty or ends with one.
pub open spec fn joined(base: Seq<char>, comp: Seq<char>) -> Seq<char> {
    if comp.len() > 0 && comp[0] == '/' {
        comp
    } else if base.len() == 0 || base.last() == '/' {
        base + comp
    } else {
        base + "/"@ + comp
    }
}

/// `base` with `comp` pushed on.
pub fn join_path(base: &str, comp: &str) -> (r: String)
    ensures
        r@ == joined(base@, comp@),
{
    let b = chars_of(base);
    let c = chars_of(comp);
    if c.len() > 0 && c[0] == '/' {
        return comp.to_owned();
    }
    let mut s = base.to_owned();
    if !(b.len() == 0 || b[b.len() - 1] == '/') {
        s.append("/");
    }
    s.append(comp);
    s
}

/// Where a workspace keeps its requirements.
pub fn requirements_root(workspace: &str) -> (r: String)
    ensures
        r@ == joined(workspace@, "requirements"@),
{
    join_path(workspace, "requirements")
}

/// The directory of requirement `id`.
pub fn requirement_dir(workspace: &str, id: &str) -> (r: String)
    ensures
        r@ == joined(joined(workspace@, "requirements"@), id@),
{
    let root = requirements_root(workspace);
    join_path(root.as_str(), id)
}

/// Where a workspace keeps its archived requirements.
pub fn archived_requirement_root(workspace: &str) -> (r: String)
    ensures
        r@ == joined(joined(workspace@, "requirements"@), "archived"@),
{
    let root = requirements_root(workspace);
    join_path(root.as_str(), "archived")
}

/// Where a requirement's review is kept.
pub fn review_root(workspace: &str, requirement_id: &str) -> (r: String)
    ensures
        r@ == joined(joined(joined(workspace@, "requirements"@), requirement_id@), "review"@),
{
    let dir = requirement_dir(workspace, requirement_id);
    join_path(dir.as_str(), "review")
}

/// The directory a requirement's agents work in: the requirement's own.
pub fn requirement_workdir(workspace: &str, requirement_id: &str) -> (r: String)
    ensures
        r@ == joined(joined(workspace@, "requirements"@), requirement_id@),
{
    requirement_dir(workspace, requirement_id)
}

/// The directory a requirement agent works in: the requirements root.
pub fn requirement_agent_workdir(workspace: &str) -> (r: String)
    ensures
        r@ == joined(workspace@, "requirements"@),
{
    requirements_root(workspace)
}

/// The directory of the autonomy runtime's records of kind `kind`.
fn autonomy_dir(workspace: &str, kind: &str) -> (r: String)
    ensures
        r@ == joined(joined(workspace@, "autonomy"@), kind@),
{
    let a = join_path(workspace, "autonomy");
    join_path(a.as_str(), kind)
}

/// Where the autonomy runtime keeps its tasks.
pub fn tasks_root(workspace: &str) -> (r: String)
    ensures
        r@ == joined(joined(workspace@, "autonomy"@), "tasks"@),
{
    autonomy_dir(workspace, "tasks")
}

/// Where the autonomy runtime keeps its workers.
pub fn workers_root(workspace: &str) -> (r: String)
    ensures
        r@ == joined(joined(workspace@, "autonomy"@), "workers"@),
{
    autonomy_dir(workspace, "workers")
}

/// Where the autonomy runtime keeps its plans.
pub fn plans_root(workspace: &str) -> (r: String)
    ensures
        r@ == joined(joined(workspace@, "autonomy"@), "plans"@),
{
    autonomy_dir(workspace, "plans")
}

/// Where the employees' records are kept.
pub fn employee_root(workspace: &str) -> (r: String)
    ensures
        r@ == joined(workspace@, "shachiku"@),
{
    join_path(workspace, "shachiku")
}

/// Where fired employees' records are kept.
pub fn archived_employee_root(workspace: &str) -> (r: String)
    ensures
        r@ == joined(joined(workspace@, "shachiku"@), "archived"@),
{
    let root = employee_root(workspace);
    join_path(root.as_str(), "archived")
}

/// Where the files that a fired employee hands over are put.
pub fn handover_dir(workspace: &str, employee_id: &str) -> (r: String)
    ensures
        r@ == joined(joined(workspace@, "handovers"@), employee_id@),
{
    let root = join_path(workspace, "handovers");
    join_path(root.as_str(), employee_id)
}

/// The review opinion that employee `employee_id` wrote on a requirement.
pub fn opinion_file(workspace: &str, requirement_id: &str, employee_id: &str) -> (r: String)
    ensures
        r@ == joined(
            joined(joined(joined(joined(workspace@, "requirements"@), requirement_id@), "review"@), "opinions"@),
            employee_id@ + ".md"@,
        ),
{
    let review = review_root(workspace, requirement_id);
    let dir = join_path(review.as_str(), "opinions");
    let mut name = employee_id.to_owned();
    name.append(".md");
    join_path(dir.as_str(), name.as_str())
}

/// The todo list file of an employee.
pub fn todo_path(workspace: &str, employee_id: &str) -> (r: String)
    ensures
        r@ == joined(joined(joined(workspace@, "shachiku"@), employee_id@), "todos.json"@),
{
    let root = employee_root(workspace);
    let dir = join_path(root.as_str(), employee_id);
    join_path(dir.as_str(), "todos.json")
}

/// Where the workspace's git repositories are kept.
pub fn repos_root(workspace: &str) -> (r: String)
    ensures
        r@ == joined(workspace@, "repos"@),
{
    join_path(workspace, "repos")
}

/// The directory of repository `repo_id`.
pub fn repo_dir(workspace: &str, repo_id: &str) -> (r: String)
    ensures
        r@ == joined(joined(workspace@, "repos"@), repo_id@),
{
    let root = repos_root(workspace);
    join_path(root.as_str(), repo_id)
}

/// The directory development tasks run in: the main repository's.
pub fn dev_task_workdir(workspace: &str) -> (r: String)
    ensures
        r@ == joined(joined(workspace@, "repos"@), "main"@),
{
    repo_dir(workspace, "main")
}

} // verus!
