use vstd::prelude::*;
use crate::agent_locale::ToolChatMessage;
use crate::requirement::{phase_in_progress, RequirementPhase, RequirementSummary, REQUIREMENT_FILE};
use crate::text::{chars_of, decimal, lines_of, split_lines, string_from_chars, trim, trimmed, u64_to_decimal, views};

verus! {

/// How many earlier turns a requirement agent is shown.
pub const MAX_PRIOR_MESSAGES: usize = 8;

/// How many characters of a requirement's body its catalog entry quotes.
pub const CONTENT_EXCERPT_CHARS: usize = 480;

/// The turns before the latest message, at most the last eight of them, as
/// role and content.
pub fn prior_conversation_context(messages: &Vec<(String, String, u64)>) -> (r: Vec<(String, String)>)
    ensures
        ({
            let end = if messages@.len() > 0 { messages@.len() - 1 } else { 0int };
            let start = if end > MAX_PRIOR_MESSAGES { end - MAX_PRIOR_MESSAGES } else { 0int };
            &&& r@.len() == end - start
            &&& forall|k: int| 0 <= k < r@.len() ==> #[trigger] r@[k] == (messages@[start + k].0, messages@[start + k].1)
        }),
{
    let end = if messages.len() > 0 { messages.len() - 1 } else { 0 };
    let start = if end > MAX_PRIOR_MESSAGES { end - MAX_PRIOR_MESSAGES } else { 0 };
    let mut out: Vec<(String, String)> = Vec::new();
    let mut i = start;
    while i < end
        invariant
            start <= i <= end,
            end <= messages@.len(),
            out@.len() == i - start,
            forall|k: int| 0 <= k < out@.len() ==> #[trigger] out@[k] == (messages@[start + k].0, messages@[start + k].1),
        decreases end - i,
    {
        let m = &messages[i];
        out.push((m.0.clone(), m.1.clone()));
        i = i + 1;
    }
    out
}

/// A body shortened for a catalog: trimmed, and cut to `max_chars` characters
/// with `…` after when it is longer.
pub open spec fn excerpt_spec(content: Seq<char>, max_chars: usize) -> Seq<char> {
    let t = trim(content);
    if t.len() <= max_chars {
        t
    } else {
        t.take(max_chars as int) + "…"@
    }
}

/// A body shortened for a catalog.
pub fn excerpt_text(content: &str, max_chars: usize) -> (r: String)
    ensures
        r@ == excerpt_spec(content@, max_chars),
{
    let t = trimmed(content);
    let v = chars_of(t.as_str());
    if v.len() <= max_chars {
        return t;
    }
    let mut head: Vec<char> = Vec::new();
    let mut i: usize = 0;
    while i < max_chars
        invariant
            i <= max_chars < v@.len(),
            head@ == v@.take(i as int),
        decreases max_chars - i,
    {
        head.push(v[i]);
        assert(v@.take(i + 1) =~= v@.take(i as int).push(v@[i as int]));
        i = i + 1;
    }
    let mut s = string_from_chars(&head);
    s.append("…");
    s
}

/// Whether a requirement is still in progress or already released, as the
/// catalog says it.
pub open spec fn progress_word(phase: RequirementPhase) -> Seq<char> {
    if phase != RequirementPhase::Release { "in_progress"@ } else { "released"@ }
}

/// The excerpt lines of a catalog entry, each indented by four spaces.
pub open spec fn indented_lines(lines: Seq<Seq<char>>) -> Seq<char>
    decreases lines.len(),
{
    if lines.len() == 0 {
        seq![]
    } else {
        indented_lines(lines.drop_last()) + "    "@ + lines.last() + "\n"@
    }
}

/// The catalog entry of one requirement, given its body when it is in progress
/// and its body could be read.
pub open spec fn catalog_entry(item: RequirementSummary, body: Option<String>) -> Seq<char> {
    let head = "- id: "@ + item.id@ + "\n  title: "@ + item.title@ + "\n  phase: "@ + item.phase.text() + " ("@
        + progress_word(item.phase) + ")\n  file: "@ + item.id@ + "/"@ + REQUIREMENT_FILE@ + "\n  updated_at_ms: "@
        + decimal(item.updated_at_ms as nat) + "\n"@;
    let quote = match body {
        Some(b) => if item.phase != RequirementPhase::Release && excerpt_spec(b@, CONTENT_EXCERPT_CHARS).len() > 0 {
            "  content_excerpt: |\n"@ + indented_lines(split_lines(excerpt_spec(b@, CONTENT_EXCERPT_CHARS)))
        } else {
            seq![]
        },
        None => seq![],
    };
    head + quote + "\n"@
}

/// The catalog of requirements.
pub open spec fn catalog_spec(items: Seq<RequirementSummary>, bodies: Seq<Option<String>>) -> Seq<char>
    decreases items.len(),
{
    if items.len() == 0 {
        seq![]
    } else {
        catalog_spec(items.drop_last(), bodies.take(items.len() - 1)) + catalog_entry(items.last(), bodies[items.len() - 1])
    }
}

/// Appends each line indented by four spaces.
fn push_indented(out: &mut String, text: &str)
    ensures
        final(out)@ == old(out)@ + indented_lines(split_lines(text@)),
{
    let lines = lines_of(text);
    let ghost ls = views(lines@);
    let ghost start = out@;
    let mut i: usize = 0;
    proof {
        assert(ls.take(0) =~= Seq::<Seq<char>>::empty());
        assert(start + indented_lines(ls.take(0)) =~= start);
    }
    while i < lines.len()
        invariant
            i <= lines@.len(),
            ls == views(lines@),
            ls == split_lines(text@),
            out@ == start + indented_lines(ls.take(i as int)),
        decreases lines@.len() - i,
    {
        proof {
            assert(ls.take(i + 1).drop_last() =~= ls.take(i as int));
            assert(ls.take(i + 1).last() == lines@[i as int]@);
        }
        let ghost before = out@;
        out.append("    ");
        out.append(lines[i].as_str());
        out.append("\n");
        assert(out@ =~= before + ("    "@ + lines@[i as int]@ + "\n"@));
        i = i + 1;
    }
    proof {
        assert(ls.take(ls.len() as int) =~= ls);
    }
}

/// Appends the catalog entry of one requirement.
fn push_catalog_entry(out: &mut String, item: &RequirementSummary, body: &Option<String>)
    ensures
        final(out)@ == old(out)@ + catalog_entry(*item, *body),
{
    let ghost before = out@;
    out.append("- id: ");
    out.append(item.id.as_str());
    out.append("\n  title: ");
    out.append(item.title.as_str());
    out.append("\n  phase: ");
    out.append(item.phase.as_str());
    out.append(" (");
    out.append(if phase_in_progress(&item.phase) { "in_progress" } else { "released" });
    out.append(")\n  file: ");
    out.append(item.id.as_str());
    out.append("/");
    out.append(REQUIREMENT_FILE);
    out.append("\n  updated_at_ms: ");
    let d = u64_to_decimal(item.updated_at_ms);
    out.append(d.as_str());
    out.append("\n");
    let ghost mid = out@;
    if phase_in_progress(&item.phase) {
        if let Some(b) = body {
            let ex = excerpt_text(b.as_str(), CONTENT_EXCERPT_CHARS);
            if !ex.as_str().is_empty() {
                out.append("  content_excerpt: |\n");
                push_indented(out, ex.as_str());
            }
        }
    }
    let ghost mid2 = out@;
    out.append("\n");
    assert(out@ =~= before + catalog_entry(*item, *body));
}

/// The catalog of requirements a requirement agent is shown: one entry per
/// requirement (id, title, phase and whether it is in progress, file, update
/// time), with an excerpt of the body of those in progress; a note when there
/// are none. `bodies` holds each requirement's body, when it could be read.
pub fn format_requirement_catalog(items: &Vec<RequirementSummary>, bodies: &Vec<Option<String>>) -> (r: String)
    requires
        bodies@.len() == items@.len(),
    ensures
        items@.len() == 0 ==> r@ == "(no requirements yet)\n"@,
        items@.len() > 0 ==> r@ == catalog_spec(items@, bodies@),
{
    if items.len() == 0 {
        return "(no requirements yet)\n".to_owned();
    }
    let mut out = String::new();
    let mut i: usize = 0;
    proof {
        assert(items@.take(0) =~= Seq::<RequirementSummary>::empty());
    }
    while i < items.len()
        invariant
            i <= items@.len(),
            bodies@.len() == items@.len(),
            out@ == catalog_spec(items@.take(i as int), bodies@.take(i as int)),
        decreases items@.len() - i,
    {
        proof {
            assert(items@.take(i + 1).drop_last() =~= items@.take(i as int));
            assert(bodies@.take(i + 1).take(i as int) =~= bodies@.take(i as int));
        }
        push_catalog_entry(&mut out, &items[i], &bodies[i]);
        i = i + 1;
    }
    proof {
        assert(items@.take(items@.len() as int) =~= items@);
        assert(bodies@.take(items@.len() as int) =~= bodies@);
    }
    out
}

/// The instructions a requirement agent works by, before its catalog.
pub const AGENT_INSTRUCTIONS: &'static str = "You are a requirement management agent. Your ONLY job on this turn is to analyze the user's latest input and organize it into the requirement repository.\n\n## Working directory\nYour current working directory IS the requirements root. All paths are relative to this directory (e.g. `my-feature/requirement.md`).\n\n## Requirement storage layout\n- Each requirement lives in its own directory: `<requirement-id>/`\n- Metadata + body live in `<requirement-id>/requirement.md`\n- File format: YAML frontmatter between `---` lines, then Markdown body.\n\nExample:\n---\nid: user-auth\ntitle: User authentication\nphase: collection\ncreated_at_ms: 1710000000000\nupdated_at_ms: 1710000000000\n---\n\n# Goals\n...\n\n## Phases (use exactly these values in frontmatter)\n- collection — gathering information\n- review — under review\n- confirm — confirmed scope\n- development — implementation\n- testing — QA / verification\n- release — shipped / closed\n\n## In-progress requirements\nRequirements in phases other than `release` are still active. Prefer updating an existing in-progress requirement when the user input clearly extends or refines it. Create a new requirement directory when the input is a distinct new topic.\n\n## Your tasks\n1. Read the catalog and any existing files you need.\n2. Create or update `requirement.md` files using valid frontmatter (id must match directory name, update `updated_at_ms` on edits, preserve `created_at_ms` on updates).\n3. You may create subdirectories under a requirement for process artifacts (notes, designs) when helpful.\n4. If the user explicitly asks to **start requirement review** for a requirement id, ensure that requirement's phase is `review` in its frontmatter. Tell them to use chat phrase \"进入需求评审\" with the requirement id, or use the Review button in the UI (the server runs the multi-role review pipeline).\n5. Reply in plain language summarizing what you created or changed (ids, titles, phases). Do not only describe intent — perform the file operations.\n\n## Current catalog\n";

/// The system prompt of a requirement agent: its instructions, then the catalog.
pub fn system_instructions(catalog: &str) -> (r: String)
    ensures
        r@ == AGENT_INSTRUCTIONS@ + catalog@ + "\n"@,
{
    let mut s = AGENT_INSTRUCTIONS.to_owned();
    s.append(catalog);
    s.append("\n");
    s
}

/// The request a requirement agent gets for the latest input.
pub open spec fn latest_input_prompt(user_input: Seq<char>) -> Seq<char> {
    "## Latest user input (analyze and apply to requirements now)\n\n"@ + user_input
        + "\n\nUse file tools to create or update requirements in this directory, then summarize what you did."@
}

/// The earlier turns that are shown again: those not blank, trimmed.
pub open spec fn shown_turns(prior: Seq<(String, String)>) -> Seq<(Seq<char>, Seq<char>)>
    decreases prior.len(),
{
    if prior.len() == 0 {
        seq![]
    } else if trim(prior.last().1@).len() == 0 {
        shown_turns(prior.drop_last())
    } else {
        shown_turns(prior.drop_last()).push((prior.last().0@, trim(prior.last().1@)))
    }
}

/// The messages of a chat as role and content.
pub open spec fn message_views(m: Seq<ToolChatMessage>) -> Seq<(Seq<char>, Seq<char>)> {
    m.map_values(|x: ToolChatMessage| (x.role@, x.content@))
}

/// The messages of a requirement agent's turn: its system prompt over the
/// catalog, the earlier turns that are not blank (trimmed), and the latest
/// input last.
pub fn build_requirement_agent_messages(catalog: &str, user_input: &str, prior_messages: &Vec<(String, String)>) -> (r: Vec<ToolChatMessage>)
    ensures
        message_views(r@) == seq![("system"@, AGENT_INSTRUCTIONS@ + catalog@ + "\n"@)] + shown_turns(prior_messages@)
            + seq![("user"@, latest_input_prompt(user_input@))],
{
    let mut out: Vec<ToolChatMessage> = Vec::new();
    out.push(ToolChatMessage { role: "system".to_owned(), content: system_instructions(catalog) });
    let ghost first = message_views(out@);
    let mut i: usize = 0;
    proof {
        assert(prior_messages@.take(0) =~= Seq::<(String, String)>::empty());
        assert(message_views(out@) =~= first + shown_turns(prior_messages@.take(0)));
    }
    while i < prior_messages.len()
        invariant
            i <= prior_messages@.len(),
            message_views(out@) == first + shown_turns(prior_messages@.take(i as int)),
        decreases prior_messages@.len() - i,
    {
        proof {
            assert(prior_messages@.take(i + 1).drop_last() =~= prior_messages@.take(i as int));
        }
        let t = trimmed(prior_messages[i].1.as_str());
        if !t.as_str().is_empty() {
            let ghost before = message_views(out@);
            out.push(ToolChatMessage { role: prior_messages[i].0.clone(), content: t });
            assert(message_views(out@) =~= before.push((prior_messages@[i as int].0@, trim(prior_messages@[i as int].1@))));
        }
        i = i + 1;
    }
    proof {
        assert(prior_messages@.take(prior_messages@.len() as int) =~= prior_messages@);
    }
    let mut u = "## Latest user input (analyze and apply to requirements now)\n\n".to_owned();
    u.append(user_input);
    u.append("\n\nUse file tools to create or update requirements in this directory, then summarize what you did.");
    let ghost before = message_views(out@);
    out.push(ToolChatMessage { role: "user".to_owned(), content: u });
    assert(message_views(out@) =~= before.push(("user"@, latest_input_prompt(user_input@))));
    out
}

} // verus!
