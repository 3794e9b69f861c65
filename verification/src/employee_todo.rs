use vstd::prelude::*;
use crate::text::{chars_of, decimal, push_char, trim, trimmed, u64_to_decimal};

verus! {

/// Where an employee's todo stands.
#[derive(Debug, Clone, Copy, PartialEq, Eq, Structural)]
pub enum TodoStatus {
    Pending,
    InProgress,
    Completed,
    Cancelled,
}

/// Where a todo came from.
#[derive(Debug, Clone, Copy, PartialEq, Eq, Structural)]
pub enum TodoSource {
    Requirement,
    GitExploration,
    Manual,
}

/// One item of an employee's todo list.
#[derive(Debug)]
pub struct EmployeeTodoItem {
    pub id: String,
    pub title: String,
    pub description: String,
    pub status: TodoStatus,
    pub source: TodoSource,
    pub requirement_id: Option<String>,
    pub requirement_phase: Option<String>,
    pub created_at_ms: u64,
    pub updated_at_ms: u64,
}

/// An employee's todo list.
#[derive(Debug)]
pub struct EmployeeTodoFile {
    pub employee_id: String,
    pub items: Vec<EmployeeTodoItem>,
    pub last_autonomy_run_ms: Option<u64>,
}

/// A todo item as a damaged or older file may hold it: any field may be missing.
#[derive(Debug)]
pub struct TodoItemDraft {
    pub id: Option<String>,
    pub title: String,
    pub description: String,
    pub status: Option<TodoStatus>,
    pub source: Option<TodoSource>,
    pub requirement_id: Option<String>,
    pub requirement_phase: Option<String>,
    pub created_at_ms: Option<u64>,
    pub updated_at_ms: Option<u64>,
}

/// A todo list as a damaged or older file may hold it.
#[derive(Debug)]
pub struct TodoFileDraft {
    pub employee_id: Option<String>,
    pub items: Vec<TodoItemDraft>,
    pub last_autonomy_run_ms: Option<u64>,
}

/// The id given at `now_ms` to a todo that has none.
pub fn new_todo_id(now_ms: u64) -> (r: String)
    ensures
        r@ == "todo_"@ + decimal(now_ms as nat),
{
    let mut s = "todo_".to_owned();
    let d = u64_to_decimal(now_ms);
    s.append(d.as_str());
    s
}

/// A draft value that is present and not blank.
pub open spec fn present(o: Option<String>) -> bool {
    o matches Some(v) && trim(v@).len() > 0
}

/// A todo item completed from its draft at `now_ms`: a missing or blank id
/// becomes `todo_<now>`, a missing status pending, a missing source manual,
/// missing times `now_ms`.
pub fn normalize_todo_item(draft: TodoItemDraft, now_ms: u64) -> (r: EmployeeTodoItem)
    ensures
        present(draft.id) ==> Some(r.id) == draft.id,
        !present(draft.id) ==> r.id@ == "todo_"@ + decimal(now_ms as nat),
        r.title == draft.title,
        r.description == draft.description,
        r.status == match draft.status {
            Some(s) => s,
            None => TodoStatus::Pending,
        },
        r.source == match draft.source {
            Some(s) => s,
            None => TodoSource::Manual,
        },
        r.requirement_id == draft.requirement_id,
        r.requirement_phase == draft.requirement_phase,
        r.created_at_ms == match draft.created_at_ms {
            Some(t) => t,
            None => now_ms,
        },
        r.updated_at_ms == match draft.updated_at_ms {
            Some(t) => t,
            None => now_ms,
        },
{
    let id = match draft.id {
        Some(v) => {
            let t = trimmed(v.as_str());
            if t.as_str().is_empty() {
                new_todo_id(now_ms)
            } else {
                v
            }
        },
        None => new_todo_id(now_ms),
    };
    EmployeeTodoItem {
        id,
        title: draft.title,
        description: draft.description,
        status: match draft.status {
            Some(s) => s,
            None => TodoStatus::Pending,
        },
        source: match draft.source {
            Some(s) => s,
            None => TodoSource::Manual,
        },
        requirement_id: draft.requirement_id,
        requirement_phase: draft.requirement_phase,
        created_at_ms: match draft.created_at_ms {
            Some(t) => t,
            None => now_ms,
        },
        updated_at_ms: match draft.updated_at_ms {
            Some(t) => t,
            None => now_ms,
        },
    }
}

/// A todo list completed from its draft at `now_ms`: the owner defaults to
/// `employee_id`, and each item is completed as `normalize_todo_item` does.
pub fn normalize_todo_file(draft: TodoFileDraft, employee_id: &str, now_ms: u64) -> (r: EmployeeTodoFile)
    ensures
        present(draft.employee_id) ==> Some(r.employee_id) == draft.employee_id,
        !present(draft.employee_id) ==> r.employee_id@ == employee_id@,
        r.items@.len() == draft.items@.len(),
        forall|i: int| 0 <= i < r.items@.len() ==> {
            let d = #[trigger] draft.items@[i];
            let it = r.items@[i];
            &&& it.title == d.title
            &&& it.description == d.description
            &&& present(d.id) ==> Some(it.id) == d.id
            &&& !present(d.id) ==> it.id@ == "todo_"@ + decimal(now_ms as nat)
            &&& it.status == match d.status {
                Some(s) => s,
                None => TodoStatus::Pending,
            }
        },
        r.last_autonomy_run_ms == draft.last_autonomy_run_ms,
{
    let owner = match draft.employee_id {
        Some(v) => {
            let t = trimmed(v.as_str());
            if t.as_str().is_empty() {
                employee_id.to_owned()
            } else {
                v
            }
        },
        None => employee_id.to_owned(),
    };
    let ghost src = draft.items@;
    let mut drafts = draft.items;
    let mut rev: Vec<EmployeeTodoItem> = Vec::new();
    while drafts.len() > 0
        invariant
            drafts@.len() + rev@.len() == src.len(),
            drafts@ == src.take(drafts@.len() as int),
            forall|k: int| 0 <= k < rev@.len() ==> {
                let d = #[trigger] src[src.len() - 1 - k];
                let it = rev@[k];
                &&& it.title == d.title
                &&& it.description == d.description
                &&& present(d.id) ==> Some(it.id) == d.id
                &&& !present(d.id) ==> it.id@ == "todo_"@ + decimal(now_ms as nat)
                &&& it.status == match d.status {
                    Some(s) => s,
                    None => TodoStatus::Pending,
                }
            },
        decreases drafts@.len(),
    {
        let d = drafts.pop().unwrap();
        proof {
            assert(src.take(drafts@.len() as int) =~= src.take(drafts@.len() + 1int).drop_last());
        }
        rev.push(normalize_todo_item(d, now_ms));
    }
    let mut items: Vec<EmployeeTodoItem> = Vec::new();
    let n = rev.len();
    while rev.len() > 0
        invariant
            rev@.len() + items@.len() == n,
            n == src.len(),
            forall|k: int| 0 <= k < rev@.len() ==> {
                let d = #[trigger] src[src.len() - 1 - k];
                let it = rev@[k];
                &&& it.title == d.title
                &&& it.description == d.description
                &&& present(d.id) ==> Some(it.id) == d.id
                &&& !present(d.id) ==> it.id@ == "todo_"@ + decimal(now_ms as nat)
                &&& it.status == match d.status {
                    Some(s) => s,
                    None => TodoStatus::Pending,
                }
            },
            forall|i: int| 0 <= i < items@.len() ==> {
                let d = #[trigger] src[i];
                let it = items@[i];
                &&& it.title == d.title
                &&& it.description == d.description
                &&& present(d.id) ==> Some(it.id) == d.id
                &&& !present(d.id) ==> it.id@ == "todo_"@ + decimal(now_ms as nat)
                &&& it.status == match d.status {
                    Some(s) => s,
                    None => TodoStatus::Pending,
                }
            },
        decreases rev@.len(),
    {
        let it = rev.pop().unwrap();
        proof {
            let k = rev@.len() as int;
            assert(src.len() - 1 - k == items@.len());
        }
        items.push(it);
    }
    EmployeeTodoFile { employee_id: owner, items, last_autonomy_run_ms: draft.last_autonomy_run_ms }
}

/// Whitespace that the look past a quote skips: the ASCII white space.
pub open spec fn ascii_ws(c: char) -> bool {
    ('\u{9}' <= c && c <= '\u{d}') || c == ' '
}

/// Whether the quote before `s[j..]` closes a string: what follows it, past
/// ASCII whitespace, is `,`, `}`, `]`, `:` or the end.
pub open spec fn closes_string(s: Seq<char>, j: int) -> bool
    decreases s.len() - j,
{
    if j < 0 || j >= s.len() {
        true
    } else if ascii_ws(s[j]) {
        closes_string(s, j + 1)
    } else {
        s[j] == ',' || s[j] == '}' || s[j] == ']' || s[j] == ':'
    }
}

/// The repaired text of `s[i..]`, read with `in_string` telling whether a JSON
/// string is open: a backslash inside a string keeps the character after it;
/// a quote opens a string, closes it when a closing character follows, and is
/// escaped otherwise; every other character stays as it is.
pub open spec fn repaired_from(s: Seq<char>, i: int, in_string: bool) -> Seq<char>
    decreases s.len() - i,
{
    if i < 0 || i >= s.len() {
        seq![]
    } else if in_string && s[i] == '\\' && i + 1 < s.len() {
        seq![s[i], s[i + 1]] + repaired_from(s, i + 2, true)
    } else if s[i] == '"' {
        if !in_string {
            seq!['"'] + repaired_from(s, i + 1, true)
        } else if closes_string(s, i + 1) {
            seq!['"'] + repaired_from(s, i + 1, false)
        } else {
            seq!['\\', '"'] + repaired_from(s, i + 1, true)
        }
    } else {
        seq![s[i]] + repaired_from(s, i + 1, in_string)
    }
}

/// Whether the quote before `chars[index..]` closes a string.
fn is_closing_string_quote(chars: &Vec<char>, index: usize) -> (r: bool)
    requires
        index <= chars@.len(),
    ensures
        r == closes_string(chars@, index as int),
{
    let mut i = index;
    while i < chars.len()
        invariant
            index <= i <= chars@.len(),
            closes_string(chars@, index as int) == closes_string(chars@, i as int),
        decreases chars@.len() - i,
    {
        let c = chars[i];
        if ('\u{9}' <= c && c <= '\u{d}') || c == ' ' {
            i = i + 1;
            continue;
        }
        return c == ',' || c == '}' || c == ']' || c == ':';
    }
    true
}

/// Repairs JSON that holds unescaped quotes inside its strings (as a model's
/// output often does, say Chinese text quoting a phrase with ASCII quotes):
/// such a quote gets a backslash, and every other character is kept.
pub fn repair_unescaped_quotes_in_json(raw: &str) -> (r: String)
    ensures
        r@ == repaired_from(raw@, 0, false),
{
    let chars = chars_of(raw);
    let ghost s = chars@;
    let mut out = String::new();
    let mut index: usize = 0;
    let mut in_string = false;
    while index < chars.len()
        invariant
            index <= chars@.len(),
            s == chars@,
            s == raw@,
            out@ + repaired_from(s, index as int, in_string) == repaired_from(s, 0, false),
        decreases chars@.len() - index,
    {
        let c = chars[index];
        if in_string && c == '\\' && index + 1 < chars.len() {
            let d = chars[index + 1];
            let ghost before = out@;
            push_char(&mut out, c);
            push_char(&mut out, d);
            assert(out@ =~= before + seq![s[index as int], s[index + 1]]);
            index = index + 2;
            continue;
        }
        let ghost before = out@;
        if c == '"' {
            if !in_string {
                in_string = true;
                push_char(&mut out, c);
                assert(out@ =~= before + seq!['"']);
            } else if is_closing_string_quote(&chars, index + 1) {
                in_string = false;
                push_char(&mut out, c);
                assert(out@ =~= before + seq!['"']);
            } else {
                push_char(&mut out, '\\');
                push_char(&mut out, c);
                assert(out@ =~= before + seq!['\\', '"']);
            }
            index = index + 1;
            continue;
        }
        push_char(&mut out, c);
        assert(out@ =~= before + seq![s[index as int]]);
        index = index + 1;
    }
    assert(out@ + Seq::<char>::empty() =~= out@);
    out
}

} // verus!
