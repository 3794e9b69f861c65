use vstd::prelude::*;
use crate::autonomy_task::WorkTaskStatus;
use crate::agent_locale::ToolChatMessage;
use crate::requirement_development::padded3;
use crate::text::{u64_to_decimal, chars_of, has_prefix, has_suffix, lines_of, split_lines, starts_with, string_from_chars, trim, trimmed, views};

verus! {

/// Directory of a requirement package that holds the testing phase.
pub const TESTING_DIR: &'static str = "testing";

/// Directory under the testing directory that holds one file per test task.
pub const TASKS_DIR: &'static str = "tasks";

/// A test task as the testing view shows it.
#[derive(Debug)]
pub struct TestTaskWire {
    pub id: String,
    pub title: String,
    pub assignee: Option<String>,
    pub status: String,
    pub progress: u8,
    pub created_at_ms: u64,
    pub updated_at_ms: u64,
    pub biz_type: String,
    pub biz_id: String,
}

/// The testing phase of a requirement: its test tasks.
#[derive(Debug)]
pub struct RequirementTestingWire {
    pub requirement_id: String,
    pub tasks: Vec<TestTaskWire>,
}

/// The test status shown for a work task of status `status`.
pub open spec fn status_test_name(status: WorkTaskStatus) -> Seq<char> {
    match status {
        WorkTaskStatus::Completed => "completed"@,
        WorkTaskStatus::InProgress => "running"@,
        WorkTaskStatus::Failed => "failed"@,
        _ => "pending"@,
    }
}

/// The test status of a test task: the one recorded on it, else the one that
/// its work status shows as.
pub fn test_status_of(recorded: Option<String>, status: WorkTaskStatus) -> (r: String)
    ensures
        r@ == match recorded {
            Some(s) => s@,
            None => status_test_name(status),
        },
{
    match recorded {
        Some(s) => s,
        None => match status {
            WorkTaskStatus::Completed => "completed".to_string(),
            WorkTaskStatus::InProgress => "running".to_string(),
            WorkTaskStatus::Failed => "failed".to_string(),
            _ => "pending".to_string(),
        },
    }
}

/// `s` with every leading `"# "` removed.
pub open spec fn strip_heading_marks(s: Seq<char>) -> Seq<char>
    decreases s.len(),
{
    if s.len() >= 2 && s[0] == '#' && s[1] == ' ' {
        strip_heading_marks(s.subrange(2, s.len() as int))
    } else {
        s
    }
}

/// The first of `lines` that starts with `"# "`.
pub open spec fn first_heading(lines: Seq<Seq<char>>) -> Option<Seq<char>>
    decreases lines.len(),
{
    if lines.len() == 0 {
        None
    } else if has_prefix(lines[0], "# "@) {
        Some(lines[0])
    } else {
        first_heading(lines.drop_first())
    }
}

/// The title of a test task whose file is `description`: the text of its first
/// level-1 heading, or the task id where there is none or it is blank.
pub open spec fn test_title(description: Seq<char>, task_id: Seq<char>) -> Seq<char> {
    match first_heading(split_lines(description)) {
        Some(l) => if trim(strip_heading_marks(l)).len() > 0 {
            trim(strip_heading_marks(l))
        } else {
            task_id
        },
        None => task_id,
    }
}

/// `l` with every leading `"# "` removed.
fn strip_heading_marks_exec(l: &str) -> (r: String)
    ensures
        r@ == strip_heading_marks(l@),
{
    let v = chars_of(l);
    let n = v.len();
    let mut i: usize = 0;
    assert(v@.subrange(0, n as int) =~= v@);
    while n - i >= 2 && v[i] == '#' && v[i + 1] == ' '
        invariant
            i <= n,
            n == v@.len(),
            strip_heading_marks(v@) == strip_heading_marks(v@.subrange(i as int, n as int)),
        decreases n - i,
    {
        assert(v@.subrange(i as int, n as int).subrange(2, (n - i) as int) =~= v@.subrange(i + 2, n as int));
        i = i + 2;
    }
    let mut out: Vec<char> = Vec::new();
    let mut k = i;
    while k < n
        invariant
            i <= k <= n,
            n == v@.len(),
            out@ == v@.subrange(i as int, k as int),
        decreases n - k,
    {
        out.push(v[k]);
        assert(v@.subrange(i as int, k + 1) =~= v@.subrange(i as int, k as int).push(v@[k as int]));
        k = k + 1;
    }
    string_from_chars(&out)
}

/// The title of a test task from its file `description` and its id.
pub fn test_task_title(description: &str, task_id: &str) -> (r: String)
    ensures
        r@ == test_title(description@, task_id@),
{
    let lines = lines_of(description);
    let mut i: usize = 0;
    assert(views(lines@).subrange(0, lines@.len() as int) =~= views(lines@));
    while i < lines.len()
        invariant
            i <= lines@.len(),
            views(lines@) == split_lines(description@),
            first_heading(split_lines(description@)) == first_heading(views(lines@).subrange(i as int, lines@.len() as int)),
        decreases lines@.len() - i,
    {
        let ghost rest = views(lines@).subrange(i as int, lines@.len() as int);
        assert(rest[0] == lines@[i as int]@);
        if starts_with(lines[i].as_str(), "# ") {
            let t = trimmed(strip_heading_marks_exec(lines[i].as_str()).as_str());
            if t.as_str().is_empty() {
                return task_id.to_string();
            }
            return t;
        }
        assert(rest.drop_first() =~= views(lines@).subrange(i + 1, lines@.len() as int));
        i = i + 1;
    }
    task_id.to_string()
}

/// The id of the test task kept in the file `file_name`: its name without the
/// `.md` extension; none for a file of another kind.
pub open spec fn task_file_id(file_name: Seq<char>) -> Option<Seq<char>> {
    if file_name.len() > 3 && has_suffix(file_name, ".md"@) {
        Some(file_name.subrange(0, file_name.len() - 3))
    } else {
        None
    }
}

/// The id of the test task kept in the file `file_name`, if it is a test task file.
pub fn test_task_id(file_name: &str) -> (r: Option<String>)
    ensures
        match task_file_id(file_name@) {
            Some(id) => r matches Some(s) && s@ == id,
            None => r is None,
        },
{
    let v = chars_of(file_name);
    let n = v.len();
    if n > 3 && v[n - 3] == '.' && v[n - 2] == 'm' && v[n - 1] == 'd' {
        proof {
            reveal_strlit(".md");
            assert(v@.subrange(n - 3, n as int) =~= ".md"@);
        }
        let mut out: Vec<char> = Vec::new();
        let mut k: usize = 0;
        while k < n - 3
            invariant
                k <= n - 3,
                n == v@.len(),
                out@ == v@.subrange(0, k as int),
            decreases n - 3 - k,
        {
            out.push(v[k]);
            assert(v@.subrange(0, k + 1) =~= v@.subrange(0, k as int).push(v@[k as int]));
            k = k + 1;
        }
        Some(string_from_chars(&out))
    } else {
        proof {
            reveal_strlit(".md");
            if n > 3 && has_suffix(v@, ".md"@) {
                assert(v@.subrange(n - 3, n as int)[0] == v@[n - 3]);
                assert(v@.subrange(n - 3, n as int)[1] == v@[n - 2]);
                assert(v@.subrange(n - 3, n as int)[2] == v@[n - 1]);
            }
        }
        None
    }
}

/// The first of `assignees` that is set.
pub open spec fn first_assignee(assignees: Seq<Option<String>>) -> Option<String>
    decreases assignees.len(),
{
    if assignees.len() == 0 {
        None
    } else if assignees[0] is Some {
        assignees[0]
    } else {
        first_assignee(assignees.drop_first())
    }
}

/// The assignee that new test tasks get: the first assignee that one of the
/// existing test tasks has, unless it is blank.
pub fn default_test_assignee(assignees: &Vec<Option<String>>) -> (r: Option<String>)
    ensures
        r == match first_assignee(assignees@) {
            Some(a) => if trim(a@).len() > 0 { Some(a) } else { None },
            None => None,
        },
{
    let mut i: usize = 0;
    assert(assignees@.subrange(0, assignees@.len() as int) =~= assignees@);
    while i < assignees.len()
        invariant
            i <= assignees@.len(),
            first_assignee(assignees@) == first_assignee(assignees@.subrange(i as int, assignees@.len() as int)),
        decreases assignees@.len() - i,
    {
        let ghost rest = assignees@.subrange(i as int, assignees@.len() as int);
        assert(rest[0] == assignees@[i as int]);
        match &assignees[i] {
            Some(a) => {
                let t = trimmed(a.as_str());
                if t.as_str().is_empty() {
                    return None;
                }
                return Some(a.clone());
            },
            None => {},
        }
        assert(rest.drop_first() =~= assignees@.subrange(i + 1, assignees@.len() as int));
        i = i + 1;
    }
    None
}

/// One existing test task as the splitting agent is shown it.
pub open spec fn test_task_line(t: (String, String, String)) -> Seq<char> {
    "- "@ + t.0@ + " — "@ + t.1@ + " ["@ + t.2@ + "]\n"@
}

/// The existing test tasks (id, title and test status of each) as the
/// splitting agent is shown them.
pub open spec fn test_task_lines(ts: Seq<(String, String, String)>) -> Seq<char>
    decreases ts.len(),
{
    if ts.len() == 0 {
        seq![]
    } else {
        test_task_lines(ts.drop_last()) + test_task_line(ts.last())
    }
}

/// The existing test tasks as the splitting agent is shown them; a note when
/// there are none.
pub open spec fn existing_tests_text(ts: Seq<(String, String, String)>) -> Seq<char> {
    if ts.len() == 0 {
        "(none yet)\n"@
    } else {
        test_task_lines(ts)
    }
}

/// The splitting instructions before the requirement's id.
pub const SPLIT_HEAD: &'static str = "You are a QA engineer breaking a requirement into concrete test tasks.\n\n## Working directory\nThis directory is the requirement `";

/// The splitting instructions between the requirement's id and the existing tasks.
pub const SPLIT_EXISTING: &'static str = "` package. The requirement body is in `requirement.md`. Test tasks live as Markdown files under `testing/tasks/`.\n\n## Existing test tasks\n";

/// The splitting instructions between the existing tasks and the first new number.
pub const SPLIT_RULES: &'static str = "\n\n## Task\n1. Read `requirement.md` and the existing test tasks above.\n2. Decide which test scenarios are still needed (do NOT duplicate existing tasks). Cover functional cases, edge cases, error handling and any non-functional requirements. Prefer 2-8 focused test tasks.\n3. For each new test task, create a Markdown file `testing/tasks/test-NNN.md` where NNN is a zero-padded 3-digit number. Start numbering at ";

/// The splitting instructions after the first new number.
pub const SPLIT_TAIL: &'static str = " and increment. Do not overwrite existing files.\n4. Each test task file MUST start with a level-1 heading containing the test title, for example `# Login with valid credentials`, followed by preconditions, steps and expected results.\n5. Reply briefly listing the test task files you created and their titles.\n\nDo not only describe intent — create the files.";

/// The messages that have a QA agent split requirement `requirement_id` into
/// test tasks: its instructions, listing the existing test tasks (id, title and
/// test status of each) and numbering new ones from `next_index`, then the
/// request with the requirement's title and body.
pub fn build_split_test_messages(
    requirement_id: &str,
    title: &str,
    content: &str,
    existing_tasks: &Vec<(String, String, String)>,
    next_index: u64,
) -> (r: Vec<ToolChatMessage>)
    ensures
        r@.len() == 2,
        r@[0].role@ == "system"@,
        r@[0].content@ == SPLIT_HEAD@ + requirement_id@ + SPLIT_EXISTING@ + existing_tests_text(existing_tasks@)
            + SPLIT_RULES@ + padded3(next_index as nat) + SPLIT_TAIL@,
        r@[1].role@ == "user"@,
        r@[1].content@ == "Split requirement **"@ + title@ + "** (`"@ + requirement_id@
            + "`) into test tasks now.\n\n---\n\n"@ + content@,
{
    let mut existing = String::new();
    if existing_tasks.len() == 0 {
        existing.append("(none yet)\n");
    } else {
        let mut i: usize = 0;
        assert(existing_tasks@.take(0) =~= Seq::<(String, String, String)>::empty());
        while i < existing_tasks.len()
            invariant
                i <= existing_tasks@.len(),
                existing@ == test_task_lines(existing_tasks@.take(i as int)),
            decreases existing_tasks@.len() - i,
        {
            assert(existing_tasks@.take(i + 1).drop_last() =~= existing_tasks@.take(i as int));
            existing.append("- ");
            existing.append(existing_tasks[i].0.as_str());
            existing.append(" — ");
            existing.append(existing_tasks[i].1.as_str());
            existing.append(" [");
            existing.append(existing_tasks[i].2.as_str());
            existing.append("]\n");
            i = i + 1;
        }
        assert(existing_tasks@.take(existing_tasks@.len() as int) =~= existing_tasks@);
    }
    let mut system = SPLIT_HEAD.to_string();
    system.append(requirement_id);
    system.append(SPLIT_EXISTING);
    system.append(existing.as_str());
    system.append(SPLIT_RULES);
    if next_index < 10 {
        system.append("00");
    } else if next_index < 100 {
        system.append("0");
    }
    let digits = u64_to_decimal(next_index);
    system.append(digits.as_str());
    system.append(SPLIT_TAIL);
    let mut user = "Split requirement **".to_string();
    user.append(title);
    user.append("** (`");
    user.append(requirement_id);
    user.append("`) into test tasks now.\n\n---\n\n");
    user.append(content);
    let mut out: Vec<ToolChatMessage> = Vec::new();
    out.push(ToolChatMessage { role: "system".to_string(), content: system });
    out.push(ToolChatMessage { role: "user".to_string(), content: user });
    out
}

/// The test instructions before the requirement's id.
pub const EXECUTE_TEST_HEAD: &'static str = "You are executing a test task for requirement `";

/// The test instructions between the requirement's id and the task's id.
pub const EXECUTE_TEST_ID: &'static str = "`.\n\n## Test task\n**Task ID:** ";

/// The test instructions between the task's id and its title.
pub const EXECUTE_TEST_TITLE: &'static str = "\n**Title:** ";

/// The test instructions between the task's title and its specification.
pub const EXECUTE_TEST_SPEC: &'static str = "\n\n## Test specification\n";

/// The test instructions after the task's specification.
pub const EXECUTE_TEST_TAIL: &'static str = "\n\n## Instructions\n1. Set up the project as needed inside this repository working directory.\n2. Execute the test scenario described above (run the relevant automated tests or perform the verification steps).\n3. Report the result clearly: pass or fail, with evidence (command output, observed vs expected behavior).\n4. If the test fails, describe the defect precisely so engineering can fix it.\n\nEnd your reply with a single line `RESULT: pass` or `RESULT: fail`.";

/// The message that has an agent execute test task `task_id` of requirement
/// `requirement_id`, with the task's title and specification.
pub fn build_execute_test_messages(task_id: &str, title: &str, description: &str, requirement_id: &str) -> (r: Vec<ToolChatMessage>)
    ensures
        r@.len() == 1,
        r@[0].role@ == "user"@,
        r@[0].content@ == EXECUTE_TEST_HEAD@ + requirement_id@ + EXECUTE_TEST_ID@ + task_id@ + EXECUTE_TEST_TITLE@ + title@
            + EXECUTE_TEST_SPEC@ + description@ + EXECUTE_TEST_TAIL@,
{
    let mut prompt = EXECUTE_TEST_HEAD.to_string();
    prompt.append(requirement_id);
    prompt.append(EXECUTE_TEST_ID);
    prompt.append(task_id);
    prompt.append(EXECUTE_TEST_TITLE);
    prompt.append(title);
    prompt.append(EXECUTE_TEST_SPEC);
    prompt.append(description);
    prompt.append(EXECUTE_TEST_TAIL);
    let mut out: Vec<ToolChatMessage> = Vec::new();
    out.push(ToolChatMessage { role: "user".to_string(), content: prompt });
    out
}

} // verus!
