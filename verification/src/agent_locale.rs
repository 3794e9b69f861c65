use vstd::prelude::*;
use crate::text::{contains, has_prefix, has_substring, same_text, starts_with, trim, trimmed};

verus! {

/// One message of a chat with a coding agent.
#[derive(Debug)]
pub struct ToolChatMessage {
    pub role: String,
    pub content: String,
}

impl ToolChatMessage {
    pub fn duplicate(&self) -> (r: ToolChatMessage)
        ensures
            r == *self,
    {
        ToolChatMessage { role: self.role.clone(), content: self.content.clone() }
    }
}

/// The language a language tag stands for: `zh` or `ja` by its start, `en`
/// otherwise.
pub open spec fn lang_of(tag: Seq<char>) -> Seq<char> {
    if has_prefix(tag, "zh"@) {
        "zh"@
    } else if has_prefix(tag, "ja"@) {
        "ja"@
    } else {
        "en"@
    }
}

/// The language of a (trimmed) language tag.
pub fn normalize_lang(raw: &str) -> (r: &'static str)
    ensures
        r@ == lang_of(trim(raw@)),
{
    let t = trimmed(raw);
    if starts_with(t.as_str(), "zh") {
        "zh"
    } else if starts_with(t.as_str(), "ja") {
        "ja"
    } else {
        "en"
    }
}

/// The language a request asks for: its `x-lang` header when that names
/// Chinese or Japanese, else its `accept-language` header when that does, else
/// English.
pub fn parse_lang(x_lang: Option<&str>, accept_language: Option<&str>) -> (r: &'static str)
    ensures
        r@ == match x_lang {
            Some(x) if lang_of(x@) != "en"@ => lang_of(x@),
            _ => match accept_language {
                Some(a) => lang_of(a@),
                None => "en"@,
            },
        },
{
    proof {
        reveal_strlit("en");
        reveal_strlit("zh");
        reveal_strlit("ja");
    }
    if let Some(x) = x_lang {
        if starts_with(x, "zh") {
            return "zh";
        }
        if starts_with(x, "ja") {
            return "ja";
        }
    }
    if let Some(a) = accept_language {
        if starts_with(a, "zh") {
            return "zh";
        }
        if starts_with(a, "ja") {
            return "ja";
        }
    }
    "en"
}

/// The language a workspace stores, English when it stores none.
pub fn resolve_lang_for_workspace(stored: Option<&str>) -> (r: &'static str)
    ensures
        r@ == match stored {
            Some(s) => lang_of(trim(s@)),
            None => "en"@,
        },
{
    match stored {
        Some(s) => normalize_lang(s),
        None => "en",
    }
}

/// The instruction that makes an agent answer in `lang`: Chinese and Japanese
/// are asked for by name; English needs none.
pub open spec fn directive_text(lang: Seq<char>) -> Seq<char> {
    if lang == "zh"@ {
        "Always reply in 简体中文 (Simplified Chinese), including file contents you write for people."@
    } else if lang == "ja"@ {
        "Always reply in 日本語 (Japanese), including file contents you write for people."@
    } else {
        ""@
    }
}

/// The instruction that makes an agent answer in `lang`.
pub fn agent_language_directive(lang: &str) -> (r: String)
    ensures
        r@ == directive_text(lang@),
{
    if same_text(lang, "zh") {
        "Always reply in 简体中文 (Simplified Chinese), including file contents you write for people.".to_owned()
    } else if same_text(lang, "ja") {
        "Always reply in 日本語 (Japanese), including file contents you write for people.".to_owned()
    } else {
        "".to_owned()
    }
}

/// The messages with the language instruction for `lang` in their system
/// prompt: appended (after a blank line) to a leading system message that
/// lacks it, or sent first as a system message of its own; unchanged when
/// `lang` needs none.
pub fn ensure_language_system_message(messages: Vec<ToolChatMessage>, lang: &str) -> (r: Vec<ToolChatMessage>)
    ensures
        ({
            let d = directive_text(lang@);
            if trim(d).len() == 0 {
                r@ == messages@
            } else if messages@.len() > 0 && messages@[0].role@ == "system"@ {
                &&& r@.len() == messages@.len()
                &&& r@.skip(1) == messages@.skip(1)
                &&& r@[0].role == messages@[0].role
                &&& if has_substring(messages@[0].content@, d) {
                    r@[0].content == messages@[0].content
                } else {
                    r@[0].content@ == messages@[0].content@ + "\n\n"@ + d
                }
            } else {
                &&& r@.len() == messages@.len() + 1
                &&& r@[0].role@ == "system"@
                &&& r@[0].content@ == d
                &&& r@.skip(1) == messages@
            }
        }),
{
    let directive = agent_language_directive(lang);
    let t = trimmed(directive.as_str());
    if t.as_str().is_empty() {
        return messages;
    }
    let mut messages = messages;
    if messages.len() > 0 && same_text(messages[0].role.as_str(), "system") {
        if !contains(messages[0].content.as_str(), directive.as_str()) {
            let ghost before = messages@;
            let mut c = messages[0].content.clone();
            c.append("\n\n");
            c.append(directive.as_str());
            let role = messages[0].role.clone();
            messages.set(0, ToolChatMessage { role, content: c });
            assert(messages@.skip(1) =~= before.skip(1));
        }
        return messages;
    }
    let mut out: Vec<ToolChatMessage> = Vec::new();
    out.push(ToolChatMessage { role: "system".to_owned(), content: directive });
    let ghost head = out@;
    let mut i: usize = 0;
    while i < messages.len()
        invariant
            i <= messages@.len(),
            out@.len() == i + 1,
            out@[0] == head[0],
            out@.skip(1) == messages@.take(i as int),
        decreases messages@.len() - i,
    {
        out.push(messages[i].duplicate());
        assert(out@.skip(1) =~= messages@.take(i + 1));
        i = i + 1;
    }
    assert(messages@.take(messages@.len() as int) =~= messages@);
    out
}

} // verus!
