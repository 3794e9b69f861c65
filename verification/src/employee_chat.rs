use vstd::prelude::*;
use crate::requirement_review::{ReviewConclusion, RequirementReviewWire};
use crate::employee_requirement_agent::{prior_conversation_context, MAX_PRIOR_MESSAGES};
use crate::text::{decimal, same_text, trim, trimmed, u64_to_decimal, views};

verus! {

/// A message a user posts to an employee.
#[derive(Debug)]
pub struct PostMessageBody {
    pub content: String,
    pub sender_name: Option<String>,
    pub sender_avatar_url: Option<String>,
}

/// What the last agent run of a chat turn reported.
#[derive(Debug)]
pub struct PostMessageResultMeta {
    pub exit_code: i32,
    pub tool_instance_id: String,
    pub tool_kind: String,
    pub model: String,
    pub prompt_tokens: u64,
    pub completion_tokens: u64,
    pub total_tokens: u64,
    pub task_id: Option<String>,
    pub output_preview: Option<String>,
}

/// An optional text trimmed, and dropped when nothing is left.
pub fn normalize_optional_text(value: Option<String>) -> (r: Option<String>)
    ensures
        match value {
            None => r is None,
            Some(s) => if trim(s@).len() == 0 { r is None } else { r matches Some(t) && t@ == trim(s@) },
        },
{
    match value {
        None => None,
        Some(s) => {
            let t = trimmed(s.as_str());
            if t.as_str().is_empty() {
                None
            } else {
                Some(t)
            }
        },
    }
}

/// The name a review conclusion is shown by, `pending` when there is none.
pub open spec fn conclusion_name(c: Option<ReviewConclusion>) -> Seq<char> {
    match c {
        Some(ReviewConclusion::Adopt) => "adopt"@,
        Some(ReviewConclusion::Supplement) => "supplement"@,
        None => "pending"@,
    }
}

/// The assistant's reply when a requirement review finished.
pub fn format_review_assistant_reply(review: &RequirementReviewWire) -> (r: String)
    ensures
        r@ == "Requirement review completed for `"@ + review.requirement_id@ + "`.\n\n**Conclusion:** "@
            + conclusion_name(review.conclusion) + "\n\n## Summary\n\n"@ + match review.summary {
            Some(s) => s@,
            None => "(no summary file)"@,
        },
{
    let conclusion = match review.conclusion {
        Some(ReviewConclusion::Adopt) => "adopt",
        Some(ReviewConclusion::Supplement) => "supplement",
        None => "pending",
    };
    let mut s = "Requirement review completed for `".to_owned();
    s.append(review.requirement_id.as_str());
    s.append("`.\n\n**Conclusion:** ");
    s.append(conclusion);
    s.append("\n\n## Summary\n\n");
    match &review.summary {
        Some(t) => s.append(t.as_str()),
        None => s.append("(no summary file)"),
    }
    s
}

/// The message key a failed chat turn is answered with: the known failures
/// keep their key (a missing coding tool is reported as `chat_tool_missing`),
/// anything else is `chat_tool_run_failed`.
pub open spec fn process_error_key(err: Seq<char>) -> Seq<char> {
    if err == "no_enabled_coding_tool"@ || err == "chat_tool_missing"@ {
        "chat_tool_missing"@
    } else if err == "shop_is_closed"@ {
        "shop_is_closed"@
    } else if err == "employee_not_found"@ {
        "employee_not_found"@
    } else if err == "chat_prompt_empty"@ {
        "chat_prompt_empty"@
    } else {
        "chat_tool_run_failed"@
    }
}

/// The message key a failed chat turn is answered with.
pub fn map_process_error(err: &str) -> (r: &'static str)
    ensures
        r@ == process_error_key(err@),
{
    if same_text(err, "no_enabled_coding_tool") || same_text(err, "chat_tool_missing") {
        return "chat_tool_missing";
    }
    if same_text(err, "shop_is_closed") {
        return "shop_is_closed";
    }
    if same_text(err, "employee_not_found") {
        "employee_not_found"
    } else if same_text(err, "chat_prompt_empty") {
        "chat_prompt_empty"
    } else {
        "chat_tool_run_failed"
    }
}

/// The HTTP status a failed chat turn's key is answered with.
pub fn status_for_process_key(key: &str) -> (r: u16)
    ensures
        r == (if key@ == "employee_not_found"@ {
            404u16
        } else if key@ == "chat_prompt_empty"@ {
            400u16
        } else if key@ == "chat_tool_missing"@ {
            409u16
        } else if key@ == "shop_is_closed"@ {
            503u16
        } else {
            502u16
        }),
{
    if same_text(key, "employee_not_found") {
        404
    } else if same_text(key, "chat_prompt_empty") {
        400
    } else if same_text(key, "chat_tool_missing") {
        409
    } else if same_text(key, "shop_is_closed") {
        503
    } else {
        502
    }
}

/// A message id made at `now_ms`: the prefix, `_`, and the time.
pub fn new_message_id(prefix: &str, now_ms: u64) -> (r: String)
    ensures
        r@ == prefix@ + "_"@ + decimal(now_ms as nat),
{
    let mut s = prefix.to_owned();
    s.append("_");
    let d = u64_to_decimal(now_ms);
    s.append(d.as_str());
    s
}


/// A message of an employee's conversation.
#[derive(Debug)]
pub struct ChatMessage {
    pub id: String,
    pub role: String,
    pub content: String,
    pub created_at_ms: u64,
    pub sender_name: Option<String>,
    pub sender_avatar_url: Option<String>,
    pub task_id: Option<String>,
    pub task_status: Option<String>,
}

/// The message a user's post adds to the conversation at `now_ms`: its text
/// trimmed, with the sender as given; `chat_prompt_empty` when only blanks
/// were posted.
pub fn user_message(
    content: &str,
    now_ms: u64,
    sender_name: Option<String>,
    sender_avatar_url: Option<String>,
) -> (r: Result<ChatMessage, &'static str>)
    ensures
        r is Err <==> trim(content@).len() == 0,
        r matches Err(k) ==> k@ == "chat_prompt_empty"@,
        r matches Ok(m) ==> {
            &&& m.id@ == "msg_user"@ + "_"@ + decimal(now_ms as nat)
            &&& m.role@ == "user"@
            &&& m.content@ == trim(content@)
            &&& m.created_at_ms == now_ms
            &&& m.sender_name == sender_name
            &&& m.sender_avatar_url == sender_avatar_url
            &&& m.task_id is None
            &&& m.task_status is None
        },
{
    let text = trimmed(content);
    if text.as_str().is_empty() {
        return Err("chat_prompt_empty");
    }
    Ok(ChatMessage {
        id: new_message_id("msg_user", now_ms),
        role: "user".to_owned(),
        content: text,
        created_at_ms: now_ms,
        sender_name,
        sender_avatar_url,
        task_id: None,
        task_status: None,
    })
}

/// The reply a turn adds to the conversation at `now_ms`.
pub fn assistant_message(output: &str, now_ms: u64) -> (r: ChatMessage)
    ensures
        r.id@ == "msg_assistant"@ + "_"@ + decimal(now_ms as nat),
        r.role@ == "assistant"@,
        r.content@ == output@,
        r.created_at_ms == now_ms,
        r.sender_name is None,
        r.sender_avatar_url is None,
        r.task_id is None,
        r.task_status is None,
{
    ChatMessage {
        id: new_message_id("msg_assistant", now_ms),
        role: "assistant".to_owned(),
        content: output.to_owned(),
        created_at_ms: now_ms,
        sender_name: None,
        sender_avatar_url: None,
        task_id: None,
        task_status: None,
    }
}

/// The message that tracks an agent run started at `now_ms`: empty, running.
pub fn task_process_message(now_ms: u64) -> (r: ChatMessage)
    ensures
        r.id@ == "msg_task_process"@ + "_"@ + decimal(now_ms as nat),
        r.role@ == "task_process"@,
        r.content@.len() == 0,
        r.created_at_ms == now_ms,
        r.sender_name is None,
        r.sender_avatar_url is None,
        r.task_id is None,
        r.task_status matches Some(s) && s@ == "running"@,
{
    ChatMessage {
        id: new_message_id("msg_task_process", now_ms),
        role: "task_process".to_owned(),
        content: String::new(),
        created_at_ms: now_ms,
        sender_name: None,
        sender_avatar_url: None,
        task_id: None,
        task_status: Some("running".to_owned()),
    }
}

/// The turns before the latest message of `messages`, at most the last eight,
/// as role and content.
pub fn conv_messages_to_prior(messages: &Vec<ChatMessage>) -> (r: Vec<(String, String)>)
    ensures
        ({
            let end = if messages@.len() > 0 { messages@.len() - 1 } else { 0int };
            let start = if end > MAX_PRIOR_MESSAGES { end - MAX_PRIOR_MESSAGES } else { 0int };
            &&& r@.len() == end - start
            &&& forall|k: int| 0 <= k < r@.len() ==> #[trigger] r@[k] == (messages@[start + k].role, messages@[start + k].content)
        }),
{
    let mut rows: Vec<(String, String, u64)> = Vec::new();
    let mut i: usize = 0;
    while i < messages.len()
        invariant
            i <= messages@.len(),
            rows@.len() == i,
            forall|k: int| 0 <= k < i ==> #[trigger] rows@[k] == (messages@[k].role, messages@[k].content, messages@[k].created_at_ms),
        decreases messages@.len() - i,
    {
        let m = &messages[i];
        rows.push((m.role.clone(), m.content.clone(), m.created_at_ms));
        i = i + 1;
    }
    prior_conversation_context(&rows)
}


/// The kinds of event an agent run streams.
#[derive(Debug, Clone, Copy, PartialEq, Eq, Structural)]
pub enum StreamEventKind {
    Start,
    AssistantText,
    Thinking,
    ToolUse,
    ToolResult,
    Result,
    Raw,
}

/// The server-sent event name an agent event is forwarded under: text, raw
/// or not, goes out as `delta`; the others keep a name of their own.
pub fn sse_event_name(kind: StreamEventKind) -> (r: &'static str)
    ensures
        r@ == match kind {
            StreamEventKind::Start => "start"@,
            StreamEventKind::AssistantText => "delta"@,
            StreamEventKind::Thinking => "thinking"@,
            StreamEventKind::ToolUse => "tool_use"@,
            StreamEventKind::ToolResult => "tool_result"@,
            StreamEventKind::Result => "result"@,
            StreamEventKind::Raw => "delta"@,
        },
{
    match kind {
        StreamEventKind::Start => "start",
        StreamEventKind::AssistantText => "delta",
        StreamEventKind::Thinking => "thinking",
        StreamEventKind::ToolUse => "tool_use",
        StreamEventKind::ToolResult => "tool_result",
        StreamEventKind::Result => "result",
        StreamEventKind::Raw => "delta",
    }
}

/// Whether an event is forwarded as `{"text": ...}` rather than as itself:
/// assistant text and raw output are.
pub fn sse_sends_text(kind: StreamEventKind) -> (r: bool)
    ensures
        r <==> (kind == StreamEventKind::AssistantText || kind == StreamEventKind::Raw),
{
    match kind {
        StreamEventKind::AssistantText | StreamEventKind::Raw => true,
        _ => false,
    }
}

/// One more event kept while a run streams: whether the conversation is
/// saved now, and how many events then wait for the next save. It is saved
/// once `interval` events have gathered since the last save.
pub fn count_kept_event(since_save: usize, interval: usize) -> (r: (bool, usize))
    requires
        since_save < usize::MAX,
    ensures
        r.0 <==> since_save + 1 >= interval,
        r.1 == (if r.0 { 0 } else { since_save + 1 }),
{
    let n = since_save + 1;
    if n >= interval {
        (true, 0)
    } else {
        (false, n)
    }
}


/// Whether message `m` tracks a run that still reads as running although
/// its task is not among `followed`, the tasks the runtime still follows.
pub open spec fn crashed(m: ChatMessage, followed: Seq<Seq<char>>) -> bool {
    &&& m.task_status matches Some(s) && s@ == "running"@
    &&& m.task_id matches Some(t) && !followed.contains(t@)
}

/// The task ids of the crashed runs among `ms`, in order.
pub open spec fn crashed_ids(ms: Seq<ChatMessage>, followed: Seq<Seq<char>>) -> Seq<Seq<char>>
    decreases ms.len(),
{
    if ms.len() == 0 {
        seq![]
    } else if crashed(ms.last(), followed) {
        crashed_ids(ms.drop_last(), followed).push(ms.last().task_id->Some_0@)
    } else {
        crashed_ids(ms.drop_last(), followed)
    }
}

/// Whether `after` is message `before` with a crashed run marked failed, or
/// `before` itself when its run did not crash.
pub open spec fn marked(before: ChatMessage, after: ChatMessage, followed: Seq<Seq<char>>) -> bool {
    &&& after.id == before.id
    &&& after.role == before.role
    &&& after.content == before.content
    &&& after.created_at_ms == before.created_at_ms
    &&& after.sender_name == before.sender_name
    &&& after.sender_avatar_url == before.sender_avatar_url
    &&& after.task_id == before.task_id
    &&& if crashed(before, followed) {
        after.task_status matches Some(s) && s@ == "failed"@
    } else {
        after.task_status == before.task_status
    }
}

/// Whether `s` holds a string equal to `t`.
fn holds_text(s: &Vec<String>, t: &str) -> (r: bool)
    ensures
        r == views(s@).contains(t@),
{
    let mut i: usize = 0;
    while i < s.len()
        invariant
            i <= s@.len(),
            forall|j: int| 0 <= j < i ==> s@[j]@ != t@,
        decreases s@.len() - i,
    {
        if same_text(s[i].as_str(), t) {
            proof {
                assert(views(s@)[i as int] == t@);
            }
            return true;
        }
        i = i + 1;
    }
    proof {
        if views(s@).contains(t@) {
            let k = choose|k: int| 0 <= k < views(s@).len() && views(s@)[k] == t@;
            assert(s@[k]@ == t@);
        }
    }
    false
}

/// Marks failed the messages whose run still reads as running although the
/// runtime no longer tracks its task (the process running it is gone), and
/// gives the messages back with the ids of those tasks, in order.
pub fn mark_crashed_runs(messages: Vec<ChatMessage>, followed: &Vec<String>) -> (r: (Vec<ChatMessage>, Vec<String>))
    ensures
        r.0@.len() == messages@.len(),
        forall|k: int| 0 <= k < messages@.len() ==> marked(messages@[k], #[trigger] r.0@[k], views(followed@)),
        views(r.1@) == crashed_ids(messages@, views(followed@)),
{
    let ghost src = messages@;
    let ghost tr = views(followed@);
    let mut rest = messages;
    let mut rev: Vec<ChatMessage> = Vec::new();
    while rest.len() > 0
        invariant
            rest@.len() + rev@.len() == src.len(),
            rest@ == src.take(rest@.len() as int),
            forall|k: int| 0 <= k < rev@.len() ==> #[trigger] rev@[k] == src[src.len() - 1 - k],
        decreases rest@.len(),
    {
        let x = rest.pop().unwrap();
        proof {
            assert(src.take(rest@.len() as int) =~= src.take(rest@.len() + 1int).drop_last());
        }
        rev.push(x);
    }
    let n = rev.len();
    let mut out: Vec<ChatMessage> = Vec::new();
    let mut ids: Vec<String> = Vec::new();
    proof {
        assert(src.take(0) =~= Seq::<ChatMessage>::empty());
        assert(views(ids@) =~= Seq::<Seq<char>>::empty());
    }
    while rev.len() > 0
        invariant
            rev@.len() <= n,
            n == src.len(),
            tr == views(followed@),
            forall|k: int| 0 <= k < rev@.len() ==> #[trigger] rev@[k] == src[src.len() - 1 - k],
            out@.len() == n - rev@.len(),
            forall|k: int| 0 <= k < out@.len() ==> marked(src[k], #[trigger] out@[k], tr),
            views(ids@) == crashed_ids(src.take(n - rev@.len()), tr),
        decreases rev@.len(),
    {
        let ghost i = n - rev@.len();
        let mut m = rev.pop().unwrap();
        assert(m == src[i]);
        proof {
            assert(src.take(i + 1).drop_last() =~= src.take(i));
            assert(src.take(i + 1).last() == m);
        }
        let ghost m0 = m;
        let running = match &m.task_status {
            Some(st) => same_text(st.as_str(), "running"),
            None => false,
        };
        let gone = match &m.task_id {
            Some(t) => !holds_text(followed, t.as_str()),
            None => false,
        };
        if running && gone {
            let t = match &m.task_id {
                Some(t) => t.clone(),
                None => String::new(),
            };
            let ghost before = views(ids@);
            ids.push(t);
            proof {
                assert(views(ids@) =~= before.push(m0.task_id->Some_0@));
            }
            m.task_status = Some("failed".to_owned());
        }
        out.push(m);
        proof {
            assert(out@[out@.len() - 1] == m);
            assert(marked(src[i], m, tr));
        }
    }
    proof {
        assert(src.take(n as int) =~= src);
    }
    (out, ids)
}


/// The message that tracked an agent run, once the run is over: on success
/// (`Ok` with the task's id and output) it is completed, names the task, and
/// takes the output when it holds nothing yet; on failure it is failed and
/// holds the error.
pub fn finish_task_process(m: ChatMessage, outcome: Result<(String, String), String>) -> (r: ChatMessage)
    ensures
        r.id == m.id,
        r.role == m.role,
        r.created_at_ms == m.created_at_ms,
        r.sender_name == m.sender_name,
        r.sender_avatar_url == m.sender_avatar_url,
        match outcome {
            Ok((task_id, output)) => {
                &&& r.task_id == Some(task_id)
                &&& r.task_status matches Some(s) && s@ == "completed"@
                &&& r.content@ == (if m.content@.len() == 0 { output@ } else { m.content@ })
            },
            Err(e) => {
                &&& r.task_id == m.task_id
                &&& r.task_status matches Some(s) && s@ == "failed"@
                &&& r.content == e
            },
        },
{
    let mut m = m;
    match outcome {
        Ok((task_id, output)) => {
            m.task_id = Some(task_id);
            m.task_status = Some("completed".to_owned());
            if m.content.as_str().is_empty() {
                m.content = output;
            }
        },
        Err(e) => {
            m.task_status = Some("failed".to_owned());
            m.content = e;
        },
    }
    m
}

} // verus!
