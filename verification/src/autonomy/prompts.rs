use vstd::prelude::*;
use crate::agent_locale::ToolChatMessage;
use crate::autonomy::legacy::ExplorationMode;
use crate::employee_todo::{EmployeeTodoItem, TodoSource, TodoStatus};
use crate::git::registry::{GitRepoRecord, MAIN_REPO_ID};
use crate::paths::{joined, repo_dir};
use crate::text::{chars_of, same_text, string_from_chars};

verus! {

/// What an exploration is told to do when development-phase requirements need
/// breaking down.
pub const DEVELOPMENT_PLANNING_RULES: &'static str = "Requirements in the `development` phase need implementation breakdown now.\n\nRules:\n1. Read each development-phase requirement's content excerpt and existing development tasks.\n2. Break the requirement into concrete implementation todos for this employee's role duty.\n3. Every todo MUST include `requirement_id` and `requirement_phase: \"development\"`.\n4. Each todo becomes both an employee todo and a requirement development task.\n5. Prefer 2-5 focused tasks that can be executed in separate sessions.\n6. Do not duplicate todos already listed in the employee todo file or development task list.";

/// What an exploration is told to do when it plans work on in-progress requirements.
pub const REQUIREMENT_PLANNING_RULES: &'static str = "Review in-progress requirements and create actionable todos aligned with each requirement's phase and the employee's role duty.\n\nRules:\n1. Prefer updating work on existing in-progress requirements.\n2. Each todo must be concrete and executable in one focused session.\n3. Link todos to requirement_id and requirement_phase when applicable.\n4. Do not duplicate todos already listed in the employee todo file.";

/// What an exploration is told to do when no requirement is in progress.
pub const GIT_EXPLORATION_RULES: &'static str = "No in-progress requirements are available for this employee to join. Browse the product git repository, analyze UX and technical issues, and propose improvement work.\n\nRules:\n1. Inspect code, docs, and recent structure in the repo working directory when available.\n2. You may propose new experience requirements or technical refactor requirements.\n3. Put executable todos in `todos` and new requirement proposals in `new_requirements`.\n4. New requirements must use phase `collection` unless clearly ready for review.";

/// The exploration prompt before its instructions.
pub const EXPLORE_HEAD: &'static str = "You are an employee autonomy planner for a software team.\n\n";

/// The exploration prompt between its instructions and the requirement context.
pub const EXPLORE_FORMAT: &'static str = "\n\nRespond with ONLY one JSON object:\n{\n  \"mode\": \"requirement_planning\" | \"git_exploration\",\n  \"todos\": [\n    {\n      \"title\": \"short actionable title\",\n      \"description\": \"what to do and expected outcome\",\n      \"requirement_id\": \"optional\",\n      \"requirement_phase\": \"optional\"\n    }\n  ],\n  \"new_requirements\": [\n    {\n      \"id\": \"kebab-case-id\",\n      \"title\": \"requirement title\",\n      \"phase\": \"collection\",\n      \"content\": \"markdown body\"\n    }\n  ]\n}\n\n## Requirement context\n";

/// The exploration prompt between the requirement context and the git context.
pub const EXPLORE_GIT_HEADING: &'static str = "\n\n## Git context\n";

/// The exploration prompt between the git context and the employee's todos.
pub const EXPLORE_TODOS_HEADING: &'static str = "\n\n## Existing employee todos\n";

/// The end of the exploration prompt.
pub const EXPLORE_END: &'static str = "\n";

/// What the exploration is then asked.
pub const EXPLORE_REQUEST: &'static str = "Plan the next actionable todos for this employee now.";

/// The instructions of an exploration in `mode`; `development_needed` says
/// whether development-phase requirements need breaking down.
pub open spec fn mode_rules(mode: ExplorationMode, development_needed: bool) -> Seq<char> {
    match mode {
        ExplorationMode::RequirementPlanning => if development_needed {
            DEVELOPMENT_PLANNING_RULES@
        } else {
            REQUIREMENT_PLANNING_RULES@
        },
        ExplorationMode::GitExploration => GIT_EXPLORATION_RULES@,
    }
}

/// The instructions of an exploration in `mode`.
pub fn mode_instructions(mode: ExplorationMode, development_needed: bool) -> (r: &'static str)
    ensures
        r@ == mode_rules(mode, development_needed),
{
    match mode {
        ExplorationMode::RequirementPlanning => if development_needed {
            DEVELOPMENT_PLANNING_RULES
        } else {
            REQUIREMENT_PLANNING_RULES
        },
        ExplorationMode::GitExploration => GIT_EXPLORATION_RULES,
    }
}

/// How a todo's status reads in the exploration prompt.
pub open spec fn status_label(s: TodoStatus) -> Seq<char> {
    match s {
        TodoStatus::Pending => "pending"@,
        TodoStatus::InProgress => "inprogress"@,
        TodoStatus::Completed => "completed"@,
        TodoStatus::Cancelled => "cancelled"@,
    }
}

/// How a todo's source reads in the exploration prompt.
pub open spec fn source_label(s: TodoSource) -> Seq<char> {
    match s {
        TodoSource::Requirement => "Requirement"@,
        TodoSource::GitExploration => "GitExploration"@,
        TodoSource::Manual => "Manual"@,
    }
}

fn status_label_exec(s: TodoStatus) -> (r: &'static str)
    ensures
        r@ == status_label(s),
{
    match s {
        TodoStatus::Pending => "pending",
        TodoStatus::InProgress => "inprogress",
        TodoStatus::Completed => "completed",
        TodoStatus::Cancelled => "cancelled",
    }
}

fn source_label_exec(s: TodoSource) -> (r: &'static str)
    ensures
        r@ == source_label(s),
{
    match s {
        TodoSource::Requirement => "Requirement",
        TodoSource::GitExploration => "GitExploration",
        TodoSource::Manual => "Manual",
    }
}

/// One todo as the exploration prompt lists it: `- [status] title (Source)`.
pub open spec fn todo_line(item: EmployeeTodoItem) -> Seq<char> {
    "- ["@ + status_label(item.status) + "] "@ + item.title@ + " ("@ + source_label(item.source) + ")"@
}

/// The lines of `items`, each after a newline but the first.
pub open spec fn todo_lines(items: Seq<EmployeeTodoItem>) -> Seq<char>
    decreases items.len(),
{
    if items.len() == 0 {
        seq![]
    } else if items.len() == 1 {
        todo_line(items[0])
    } else {
        todo_lines(items.drop_last()) + "\n"@ + todo_line(items.last())
    }
}

/// The employee's todos as the exploration prompt lists them.
pub open spec fn todos_text(items: Seq<EmployeeTodoItem>) -> Seq<char> {
    if items.len() == 0 {
        "(none)\n"@
    } else {
        todo_lines(items) + "\n"@
    }
}

/// The employee's todos as the exploration prompt lists them.
pub fn existing_todos_text(items: &Vec<EmployeeTodoItem>) -> (r: String)
    ensures
        r@ == todos_text(items@),
{
    if items.len() == 0 {
        return "(none)\n".to_string();
    }
    let mut out = String::new();
    let mut i: usize = 0;
    while i < items.len()
        invariant
            i <= items@.len(),
            items@.len() > 0,
            out@ == todo_lines(items@.take(i as int)),
        decreases items@.len() - i,
    {
        proof {
            assert(items@.take(i + 1).drop_last() =~= items@.take(i as int));
            assert(items@.take(i + 1).last() == items@[i as int]);
        }
        if i > 0 {
            out.append("\n");
        }
        out.append("- [");
        out.append(status_label_exec(items[i].status));
        out.append("] ");
        out.append(items[i].title.as_str());
        out.append(" (");
        out.append(source_label_exec(items[i].source));
        out.append(")");
        proof {
            if i == 0 {
                assert(items@.take(1).len() == 1);
            }
        }
        i = i + 1;
    }
    proof {
        assert(items@.take(items@.len() as int) =~= items@);
    }
    out.append("\n");
    out
}

/// A todo's status as the autonomy contexts name it.
pub open spec fn status_name(s: TodoStatus) -> Seq<char> {
    match s {
        TodoStatus::Pending => "Pending"@,
        TodoStatus::InProgress => "InProgress"@,
        TodoStatus::Completed => "Completed"@,
        TodoStatus::Cancelled => "Cancelled"@,
    }
}

fn status_name_exec(s: TodoStatus) -> (r: &'static str)
    ensures
        r@ == status_name(s),
{
    match s {
        TodoStatus::Pending => "Pending",
        TodoStatus::InProgress => "InProgress",
        TodoStatus::Completed => "Completed",
        TodoStatus::Cancelled => "Cancelled",
    }
}

/// One todo as an autonomy context lists it: its status when `with_status`,
/// its title and source, and the requirement it belongs to, if any.
pub open spec fn context_todo_line(item: EmployeeTodoItem, with_status: bool) -> Seq<char> {
    "- "@ + (if with_status { "["@ + status_name(item.status) + "] "@ } else { seq![] }) + item.title@ + " (source: "@
        + source_label(item.source) + ")"@ + match item.requirement_id {
        Some(r) => " | requirement: "@ + r@,
        None => seq![],
    }
}

/// Whether an autonomy context lists `item`: every todo, or with
/// `pending_only` the pending ones.
pub open spec fn listed(item: EmployeeTodoItem, pending_only: bool) -> bool {
    !pending_only || item.status == TodoStatus::Pending
}

/// The lines of the todos of `items` that an autonomy context lists.
pub open spec fn context_todo_lines(items: Seq<EmployeeTodoItem>, with_status: bool, pending_only: bool) -> Seq<Seq<char>>
    decreases items.len(),
{
    if items.len() == 0 {
        seq![]
    } else if listed(items.last(), pending_only) {
        context_todo_lines(items.drop_last(), with_status, pending_only).push(context_todo_line(items.last(), with_status))
    } else {
        context_todo_lines(items.drop_last(), with_status, pending_only)
    }
}

/// `ls` joined by line breaks.
pub open spec fn join_lines(ls: Seq<Seq<char>>) -> Seq<char>
    decreases ls.len(),
{
    if ls.len() == 0 {
        seq![]
    } else if ls.len() == 1 {
        ls[0]
    } else {
        join_lines(ls.drop_last()) + "\n"@ + ls.last()
    }
}

/// One todo as an autonomy context lists it.
fn context_todo_line_exec(item: &EmployeeTodoItem, with_status: bool) -> (r: String)
    ensures
        r@ == context_todo_line(*item, with_status),
{
    let mut out = "- ".to_string();
    if with_status {
        out.append("[");
        out.append(status_name_exec(item.status));
        out.append("] ");
    }
    out.append(item.title.as_str());
    out.append(" (source: ");
    out.append(source_label_exec(item.source));
    out.append(")");
    match &item.requirement_id {
        Some(r) => {
            out.append(" | requirement: ");
            out.append(r.as_str());
        },
        None => {},
    }
    out
}

/// The todos of an autonomy context, one per line: with `pending_only`, the
/// pending ones; else all of them, each with its status. None when no todo
/// is listed.
pub fn context_todos_text(items: &Vec<EmployeeTodoItem>, pending_only: bool) -> (r: Option<String>)
    ensures
        context_todo_lines(items@, !pending_only, pending_only).len() == 0 ==> r is None,
        context_todo_lines(items@, !pending_only, pending_only).len() > 0 ==> (r matches Some(t)
            && t@ == join_lines(context_todo_lines(items@, !pending_only, pending_only))),
{
    let with_status = !pending_only;
    let mut out = String::new();
    let mut count: usize = 0;
    let mut i: usize = 0;
    while i < items.len()
        invariant
            i <= items@.len(),
            with_status == !pending_only,
            count == context_todo_lines(items@.take(i as int), with_status, pending_only).len(),
            count <= i,
            out@ == join_lines(context_todo_lines(items@.take(i as int), with_status, pending_only)),
        decreases items@.len() - i,
    {
        let ghost prev = context_todo_lines(items@.take(i as int), with_status, pending_only);
        proof {
            assert(items@.take(i + 1).drop_last() =~= items@.take(i as int));
            assert(items@.take(i + 1).last() == items@[i as int]);
        }
        if !pending_only || items[i].status == TodoStatus::Pending {
            let line = context_todo_line_exec(&items[i], with_status);
            if count > 0 {
                out.append("\n");
            }
            out.append(line.as_str());
            proof {
                let next = prev.push(line@);
                assert(next.drop_last() =~= prev);
                if prev.len() == 0 {
                    assert(out@ =~= line@);
                }
            }
            count = count + 1;
        }
        i = i + 1;
    }
    proof {
        assert(items@.take(items@.len() as int) =~= items@);
    }
    if count > 0 {
        Some(out)
    } else {
        None
    }
}

/// The system prompt of an exploration.
pub open spec fn explore_prompt(rules: Seq<char>, requirement_ctx: Seq<char>, git_ctx: Seq<char>, todos: Seq<char>) -> Seq<char> {
    EXPLORE_HEAD@ + rules + EXPLORE_FORMAT@ + requirement_ctx + EXPLORE_GIT_HEADING@ + git_ctx + EXPLORE_TODOS_HEADING@ + todos
        + EXPLORE_END@
}

/// The messages of an exploration in `mode`: the system prompt with its
/// instructions, the requirement and git contexts and the employee's todos as
/// listed, then the request to plan.
pub fn build_explore_messages(
    mode: ExplorationMode,
    development_needed: bool,
    requirement_ctx: &str,
    git_ctx: &str,
    existing_todos: &str,
) -> (r: Vec<ToolChatMessage>)
    ensures
        r@.len() == 2,
        r@[0].role@ == "system"@,
        r@[0].content@ == explore_prompt(mode_rules(mode, development_needed), requirement_ctx@, git_ctx@, existing_todos@),
        r@[1].role@ == "user"@,
        r@[1].content@ == EXPLORE_REQUEST@,
{
    let mut system = EXPLORE_HEAD.to_string();
    system.append(mode_instructions(mode, development_needed));
    system.append(EXPLORE_FORMAT);
    system.append(requirement_ctx);
    system.append(EXPLORE_GIT_HEADING);
    system.append(git_ctx);
    system.append(EXPLORE_TODOS_HEADING);
    system.append(existing_todos);
    system.append(EXPLORE_END);
    let mut out: Vec<ToolChatMessage> = Vec::new();
    out.push(ToolChatMessage { role: "system".to_string(), content: system });
    out.push(ToolChatMessage { role: "user".to_string(), content: EXPLORE_REQUEST.to_string() });
    out
}

/// The first `n` characters of `s` (all of it when it is shorter).
pub open spec fn first_chars(s: Seq<char>, n: nat) -> Seq<char> {
    if s.len() <= n {
        s
    } else {
        s.take(n as int)
    }
}

/// How many characters of a requirement an executing employee is shown.
pub const EXECUTE_EXCERPT_CHARS: usize = 1200;

/// The context an employee executing a todo is given: who they are, the todo,
/// and the requirement it belongs to with the start of its body (when the
/// requirement could be read).
pub open spec fn execute_context(
    name: Seq<char>,
    role: Seq<char>,
    title: Seq<char>,
    description: Seq<char>,
    requirement: Option<(Seq<char>, Option<Seq<char>>)>,
) -> Seq<char> {
    let head = "Employee: "@ + name + " ("@ + role + ")\nTodo: "@ + title + "\nDescription: "@ + description + "\n"@;
    match requirement {
        None => head,
        Some((id, content)) => {
            let with_id = head + "Requirement id: "@ + id + "\n"@;
            match content {
                None => with_id,
                Some(c) => with_id + "\nRequirement excerpt:\n"@ + first_chars(c, EXECUTE_EXCERPT_CHARS as nat) + "\n"@,
            }
        },
    }
}

/// The system prompt before the employee's name.
pub const EXECUTE_HEAD: &'static str = "You are ";

/// The system prompt between the employee's name and role.
pub const EXECUTE_ROLE: &'static str = ", a ";

/// The system prompt between the employee's role and the context.
pub const EXECUTE_RULES: &'static str = " executing one assigned todo.\n\nWorking directory is the workspace root. Use file tools and git as needed.\nWhen finished, summarize what you changed or learned.\n\n";

/// The first `n` characters of `s`.
fn first_chars_exec(s: &str, n: usize) -> (r: String)
    ensures
        r@ == first_chars(s@, n as nat),
{
    let v = chars_of(s);
    if v.len() <= n {
        return s.to_string();
    }
    let mut out: Vec<char> = Vec::new();
    let mut i: usize = 0;
    while i < n
        invariant
            i <= n < v@.len(),
            v@ == s@,
            out@ == v@.take(i as int),
        decreases n - i,
    {
        out.push(v[i]);
        assert(v@.take(i + 1) =~= v@.take(i as int).push(v@[i as int]));
        i = i + 1;
    }
    string_from_chars(&out)
}

/// The messages that have an employee execute one todo: the system prompt
/// naming them and giving the context, then the request to execute. The
/// requirement is given by its id and, when it could be read, its body.
pub fn build_execute_messages(
    name: &str,
    role: &str,
    title: &str,
    description: &str,
    requirement: Option<(&str, Option<&str>)>,
) -> (r: Vec<ToolChatMessage>)
    ensures
        r@.len() == 2,
        r@[0].role@ == "system"@,
        r@[0].content@ == EXECUTE_HEAD@ + name@ + EXECUTE_ROLE@ + role@ + EXECUTE_RULES@ + execute_context(
            name@,
            role@,
            title@,
            description@,
            match requirement {
                None => None,
                Some((id, content)) => Some((id@, match content {
                    None => None,
                    Some(c) => Some(c@),
                })),
            },
        ),
        r@[1].role@ == "user"@,
        r@[1].content@ == "Execute this todo now: "@ + title@,
{
    let mut ctx = "Employee: ".to_string();
    ctx.append(name);
    ctx.append(" (");
    ctx.append(role);
    ctx.append(")\nTodo: ");
    ctx.append(title);
    ctx.append("\nDescription: ");
    ctx.append(description);
    ctx.append("\n");
    match requirement {
        None => {},
        Some((id, content)) => {
            ctx.append("Requirement id: ");
            ctx.append(id);
            ctx.append("\n");
            match content {
                None => {},
                Some(c) => {
                    let excerpt = first_chars_exec(c, EXECUTE_EXCERPT_CHARS);
                    ctx.append("\nRequirement excerpt:\n");
                    ctx.append(excerpt.as_str());
                    ctx.append("\n");
                },
            }
        },
    }
    let mut system = EXECUTE_HEAD.to_string();
    system.append(name);
    system.append(EXECUTE_ROLE);
    system.append(role);
    system.append(EXECUTE_RULES);
    system.append(ctx.as_str());
    let mut user = "Execute this todo now: ".to_string();
    user.append(title);
    let mut out: Vec<ToolChatMessage> = Vec::new();
    out.push(ToolChatMessage { role: "system".to_string(), content: system });
    out.push(ToolChatMessage { role: "user".to_string(), content: user });
    out
}

/// Whether `r` is the main repository, by flag or by id.
pub open spec fn is_primary(r: GitRepoRecord) -> bool {
    r.is_main || r.id@ == MAIN_REPO_ID@
}

/// The position of the first main repository among `repos`.
pub open spec fn first_primary(repos: Seq<GitRepoRecord>) -> Option<int>
    decreases repos.len(),
{
    if repos.len() == 0 {
        None
    } else if is_primary(repos[0]) {
        Some(0)
    } else {
        match first_primary(repos.drop_first()) {
            Some(k) => Some(k + 1),
            None => None,
        }
    }
}

/// The repository an exploration looks at: the first main one, else the first.
pub open spec fn primary_repo_spec(repos: Seq<GitRepoRecord>) -> Option<int> {
    match first_primary(repos) {
        Some(k) => Some(k),
        None => if repos.len() > 0 { Some(0) } else { None },
    }
}

proof fn lemma_first_primary_bound(repos: Seq<GitRepoRecord>)
    ensures
        first_primary(repos) matches Some(k) ==> 0 <= k < repos.len(),
    decreases repos.len(),
{
    if repos.len() > 0 {
        lemma_first_primary_bound(repos.drop_first());
    }
}

/// The repository an exploration looks at.
pub fn primary_repo(repos: &Vec<GitRepoRecord>) -> (r: Option<usize>)
    ensures
        match r {
            Some(i) => primary_repo_spec(repos@) == Some(i as int) && i < repos@.len(),
            None => primary_repo_spec(repos@) is None,
        },
{
    let mut i: usize = 0;
    assert(repos@.subrange(0, repos@.len() as int) =~= repos@);
    while i < repos.len()
        invariant
            i <= repos@.len(),
            first_primary(repos@) == match first_primary(repos@.subrange(i as int, repos@.len() as int)) {
                Some(k) => Some(k + i),
                None => None,
            },
        decreases repos@.len() - i,
    {
        let ghost rest = repos@.subrange(i as int, repos@.len() as int);
        assert(rest[0] == repos@[i as int]);
        if repos[i].is_main || same_text(repos[i].id.as_str(), MAIN_REPO_ID) {
            return Some(i);
        }
        assert(rest.drop_first() =~= repos@.subrange(i + 1, repos@.len() as int));
        i = i + 1;
    }
    proof {
        lemma_first_primary_bound(repos@);
    }
    if repos.len() > 0 {
        Some(0)
    } else {
        None
    }
}

/// The git context of an exploration: the primary repository's id, name and
/// directory under `workspace`, and whether that directory exists
/// (`dir_exists`); a note when no repository is registered.
pub open spec fn git_context_text(workspace: Seq<char>, repos: Seq<GitRepoRecord>, dir_exists: bool) -> Seq<char> {
    match primary_repo_spec(repos) {
        None => "No git repositories registered.\n"@,
        Some(i) => "Primary repo: id="@ + repos[i].id@ + ", name="@ + repos[i].name@ + ", path="@ + joined(
            joined(workspace, "repos"@),
            repos[i].id@,
        ) + "\n"@ + if dir_exists {
            "Browse this repository to find UX and technical improvement opportunities.\n"@
        } else {
            "Repository directory does not exist yet.\n"@
        },
    }
}

/// The git context of an exploration; `dir_exists` says whether the primary
/// repository's directory exists.
pub fn format_git_context(workspace: &str, repos: &Vec<GitRepoRecord>, dir_exists: bool) -> (r: String)
    ensures
        r@ == git_context_text(workspace@, repos@, dir_exists),
{
    match primary_repo(repos) {
        None => "No git repositories registered.\n".to_string(),
        Some(i) => {
            let mut out = "Primary repo: id=".to_string();
            out.append(repos[i].id.as_str());
            out.append(", name=");
            out.append(repos[i].name.as_str());
            out.append(", path=");
            let dir = repo_dir(workspace, repos[i].id.as_str());
            out.append(dir.as_str());
            out.append("\n");
            if dir_exists {
                out.append("Browse this repository to find UX and technical improvement opportunities.\n");
            } else {
                out.append("Repository directory does not exist yet.\n");
            }
            out
        },
    }
}

} // verus!
