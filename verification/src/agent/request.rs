//! What goes into a request to the model and what is made of a reply: the system
//! prompt, the messages sent (with the roles a provider accepts), the Anthropic form of
//! a request, and tool calls written inline in a reply, with their results merged back.
//! Sending the request, reading the reply's JSON and running tools happen outside the
//! library.

use vstd::prelude::*;
use crate::agent::conversation::{message_views, Message, MessageView};
use crate::sentences::{trim_str, trim_ws};
use crate::text::{chars_of, concat3, joined, push_char, push_str, str_eq, str_to_string, string_views};

verus! {

/// The system prompt, with the list of tools (`- <name>: <description>` lines) and the
/// current local time (`%Y-%m-%d %H:%M:%S`) put in.
pub open spec fn system_prompt_text(tool_lines: Seq<char>, now: Seq<char>) -> Seq<char> {
    "You are Mahakala Agent, an intelligent AI assistant. Your role is to help users complete various tasks including code writing, file operations, system management, data analysis, etc.\n\n## Core Capabilities\nYou can use the following tools to help users:\n"@
        + tool_lines
        + "\n\n## Skill System\nYou can call installed skills to perform specific tasks:\n- code_review: Code review\n- ci_cd_pipeline: CI/CD automation\n- creative_writing: Creative writing\n- web_research: Web research\n- document_summary: Document summary\n- email_assistant: Email assistant\n- image_generation: Image generation\n- data_analysis: Data analysis\n\n## Plugin System\nYou can call loaded plugins to extend functionality:\n- disk_cleanup: Disk cleanup\n- network_monitor: Network monitoring\n- memory_plugin: Memory management\n- log_manager: Log management\n- scheduler_plugin: Task scheduling\n- security_scanner: Security scanning\n\n## Working Principles\n1. When user requests require tools, proactively call the appropriate tools\n2. Ensure parameters are correct when using tools\n3. Confirm safety before executing system commands\n4. Confirm path correctness before file operations\n5. Maintain a friendly and professional attitude\n6. Reply to users in Chinese\n\n## Tool Call Format\nWhen you need to call a tool, use the following format:\n<tool_call>\n{{\"name\": \"tool_name\", \"arguments\": {{\"param\": \"value\"}}}}\n</tool_call>\n\nCurrent time: "@
        + now
}

/// The line listing one tool.
pub open spec fn tool_list_line(t: (Seq<char>, Seq<char>)) -> Seq<char> {
    "- "@ + t.0 + ": "@ + t.1
}

/// The values of some pairs of texts.
pub open spec fn text_pairs(v: Seq<(String, String)>) -> Seq<(Seq<char>, Seq<char>)> {
    v.map_values(|p: (String, String)| (p.0@, p.1@))
}

/// The system prompt for the tools `tools` (name and description of each) at the local
/// time `now`.
pub fn system_prompt(tools: &Vec<(String, String)>, now: &str) -> (r: String)
    ensures
        r@ == system_prompt_text(joined(text_pairs(tools@).map_values(|t: (Seq<char>, Seq<char>)| tool_list_line(t)), "\n"@), now@),
{
    let ghost tv = text_pairs(tools@);
    let mut lines: Vec<String> = Vec::new();
    let mut i: usize = 0;
    while i < tools.len()
        invariant
            i <= tools@.len(),
            tv == text_pairs(tools@),
            string_views(lines@) == tv.take(i as int).map_values(|t: (Seq<char>, Seq<char>)| tool_list_line(t)),
        decreases tools.len() - i,
    {
        let ghost before = string_views(lines@);
        let line = concat3("- ", tools[i].0.as_str(), ": ");
        let mut line = line;
        push_str(&mut line, tools[i].1.as_str());
        lines.push(line);
        proof {
            assert(tv[i as int] == (tools@[i as int].0@, tools@[i as int].1@));
            assert(string_views(lines@) =~= before.push(tool_list_line(tv[i as int])));
            assert(tv.take(i + 1).map_values(|t: (Seq<char>, Seq<char>)| tool_list_line(t))
                =~= tv.take(i as int).map_values(|t: (Seq<char>, Seq<char>)| tool_list_line(t)).push(tool_list_line(tv[i as int])));
        }
        i = i + 1;
    }
    assert(tv.take(tv.len() as int) =~= tv);
    let list = crate::text::join_strings(&lines, "\n");
    let mut s = str_to_string("You are Mahakala Agent, an intelligent AI assistant. Your role is to help users complete various tasks including code writing, file operations, system management, data analysis, etc.\n\n## Core Capabilities\nYou can use the following tools to help users:\n");
    push_str(&mut s, list.as_str());
    push_str(&mut s, "\n\n## Skill System\nYou can call installed skills to perform specific tasks:\n- code_review: Code review\n- ci_cd_pipeline: CI/CD automation\n- creative_writing: Creative writing\n- web_research: Web research\n- document_summary: Document summary\n- email_assistant: Email assistant\n- image_generation: Image generation\n- data_analysis: Data analysis\n\n## Plugin System\nYou can call loaded plugins to extend functionality:\n- disk_cleanup: Disk cleanup\n- network_monitor: Network monitoring\n- memory_plugin: Memory management\n- log_manager: Log management\n- scheduler_plugin: Task scheduling\n- security_scanner: Security scanning\n\n## Working Principles\n1. When user requests require tools, proactively call the appropriate tools\n2. Ensure parameters are correct when using tools\n3. Confirm safety before executing system commands\n4. Confirm path correctness before file operations\n5. Maintain a friendly and professional attitude\n6. Reply to users in Chinese\n\n## Tool Call Format\nWhen you need to call a tool, use the following format:\n<tool_call>\n{{\"name\": \"tool_name\", \"arguments\": {{\"param\": \"value\"}}}}\n</tool_call>\n\nCurrent time: ");
    push_str(&mut s, now);
    s
}

/// Whether some message has the role `system`.
pub open spec fn has_system(ms: Seq<MessageView>) -> bool {
    exists|i: int| 0 <= i < ms.len() && #[trigger] ms[i].role == "system"@
}

/// The role a message is sent with: for Anthropic, `system` and `tool` become `user`.
pub open spec fn sent_role(role: Seq<char>, anthropic: bool) -> Seq<char> {
    if anthropic && (role == "system"@ || role == "tool"@) { "user"@ } else { role }
}

/// The messages of a request: the history, after a system message with `prompt` when
/// the history has none, with each role as the provider takes it.
pub open spec fn request_message_views(history: Seq<MessageView>, prompt: Seq<char>, anthropic: bool) -> Seq<MessageView> {
    let all = if has_system(history) {
        history
    } else {
        seq![MessageView { role: "system"@, content: prompt, tool_calls: None, tool_call_id: None, reasoning: None }] + history
    };
    all.map_values(|m: MessageView| MessageView { role: sent_role(m.role, anthropic), ..m })
}

fn send_role(role: &str, anthropic: bool) -> (r: String)
    ensures
        r@ == sent_role(role@, anthropic),
{
    if anthropic && (str_eq(role, "system") || str_eq(role, "tool")) {
        str_to_string("user")
    } else {
        str_to_string(role)
    }
}

/// The messages of a request built from `history`, the system prompt `prompt` and
/// whether the provider is Anthropic.
pub fn request_messages(history: &Vec<Message>, prompt: &str, anthropic: bool) -> (r: Vec<Message>)
    ensures
        message_views(r@) == request_message_views(message_views(history@), prompt@, anthropic),
{
    let ghost hv = message_views(history@);
    let mut found = false;
    let mut i: usize = 0;
    while i < history.len()
        invariant
            i <= history@.len(),
            hv == message_views(history@),
            found == exists|j: int| 0 <= j < i && #[trigger] hv[j].role == "system"@,
        decreases history.len() - i,
    {
        assert(hv[i as int].role == history@[i as int].role@);
        if str_eq(history[i].role.as_str(), "system") {
            found = true;
        }
        i = i + 1;
    }
    assert(found == has_system(hv));
    let mut all: Vec<Message> = Vec::new();
    if !found {
        all.push(Message { role: str_to_string("system"), content: str_to_string(prompt), tool_calls: None, tool_call_id: None, reasoning: None });
    }
    let ghost base = message_views(all@);
    let mut k: usize = 0;
    while k < history.len()
        invariant
            k <= history@.len(),
            hv == message_views(history@),
            message_views(all@) == base + hv.take(k as int),
        decreases history.len() - k,
    {
        let ghost before = message_views(all@);
        all.push(history[k].clone());
        proof {
            assert(message_views(all@) =~= before.push(hv[k as int]));
            assert(hv.take(k + 1) =~= hv.take(k as int).push(hv[k as int]));
        }
        k = k + 1;
    }
    assert(hv.take(hv.len() as int) =~= hv);
    let ghost av = message_views(all@);
    let mut out: Vec<Message> = Vec::new();
    let mut j: usize = 0;
    while j < all.len()
        invariant
            j <= all@.len(),
            av == message_views(all@),
            out@.len() == j,
            forall|t: int| 0 <= t < j ==> (#[trigger] out@[t])@ == (MessageView { role: sent_role(av[t].role, anthropic), ..av[t] }),
        decreases all.len() - j,
    {
        let mut m = all[j].clone();
        m.role = send_role(all[j].role.as_str(), anthropic);
        out.push(m);
        j = j + 1;
    }
    proof {
        let expect = request_message_views(hv, prompt@, anthropic);
        if has_system(hv) {
            assert(av =~= hv) by {
                assert(base =~= Seq::<MessageView>::empty());
            }
        } else {
            assert(av =~= seq![MessageView { role: "system"@, content: prompt@, tool_calls: None, tool_call_id: None, reasoning: None }] + hv);
        }
        assert(message_views(out@) =~= expect);
    }
    out
}

/// Whether the request carries the tool schemas: there are some and the provider is not
/// Ollama (whose chat API takes none).
pub fn sends_tools(schema_count: usize, ollama: bool) -> (r: bool)
    ensures
        r == (schema_count > 0 && !ollama),
{
    schema_count > 0 && !ollama
}

/// The Anthropic form of a request's messages: the content of the first system message
/// (empty when there is none) and every other message as its role and content.
pub open spec fn anthropic_system(ms: Seq<MessageView>) -> Seq<char>
    decreases ms.len(),
{
    if ms.len() == 0 {
        Seq::empty()
    } else if ms[0].role == "system"@ {
        ms[0].content
    } else {
        anthropic_system(ms.drop_first())
    }
}

/// The messages other than system messages, as role and content.
pub open spec fn anthropic_turns(ms: Seq<MessageView>) -> Seq<(Seq<char>, Seq<char>)> {
    ms.filter(|m: MessageView| m.role != "system"@).map_values(|m: MessageView| (m.role, m.content))
}

/// The Anthropic form of a request's messages.
pub fn anthropic_payload(messages: &Vec<Message>) -> (r: (String, Vec<(String, String)>))
    ensures
        r.0@ == anthropic_system(message_views(messages@)),
        text_pairs(r.1@) == anthropic_turns(message_views(messages@)),
{
    let ghost mv = message_views(messages@);
    let ghost p = |m: MessageView| m.role != "system"@;
    let mut system: Option<String> = None;
    let mut turns: Vec<(String, String)> = Vec::new();
    let mut i: usize = 0;
    proof {
        reveal(Seq::filter);
        assert(mv.take(0).filter(p) =~= Seq::<MessageView>::empty());
        assert(text_pairs(turns@) =~= Seq::<(Seq<char>, Seq<char>)>::empty());
        assert(mv.skip(0) =~= mv);
    }
    while i < messages.len()
        invariant
            i <= messages@.len(),
            mv == message_views(messages@),
            p == (|m: MessageView| m.role != "system"@),
            text_pairs(turns@) == mv.take(i as int).filter(p).map_values(|m: MessageView| (m.role, m.content)),
            match system {
                Some(s) => s@ == anthropic_system(mv),
                None => anthropic_system(mv) == anthropic_system(mv.skip(i as int)),
            },
        decreases messages.len() - i,
    {
        let ghost before = text_pairs(turns@);
        let m = &messages[i];
        proof {
            assert(mv[i as int] == m@);
            assert(mv.take(i + 1) =~= mv.take(i as int).push(mv[i as int]));
            mv.take(i as int).lemma_filter_push(mv[i as int], p);
            assert(mv.skip(i as int).drop_first() =~= mv.skip(i + 1));
            assert(mv.skip(i as int)[0] == mv[i as int]);
        }
        if str_eq(m.role.as_str(), "system") {
            if system.is_none() {
                system = Some(m.content.clone());
            }
        } else {
            turns.push((m.role.clone(), m.content.clone()));
            proof {
                assert(text_pairs(turns@) =~= before.push((m@.role, m@.content)));
            }
        }
        i = i + 1;
    }
    assert(mv.take(mv.len() as int) =~= mv);
    let s = match system {
        Some(s) => s,
        None => {
            assert(mv.skip(mv.len() as int) =~= Seq::<MessageView>::empty());
            String::new()
        },
    };
    (s, turns)
}

/// The text of a tool call's outcome as it goes back to the model: the output, or
/// `Error: ` and the error.
pub fn tool_outcome_text(outcome: Result<String, String>) -> (r: String)
    ensures
        r@ == match outcome {
            Ok(out) => out@,
            Err(e) => "Error: "@ + e@,
        },
{
    match outcome {
        Ok(out) => out,
        Err(e) => {
            let mut t = str_to_string("Error: ");
            push_str(&mut t, e.as_str());
            t
        },
    }
}

/// The pattern of a tool call written inline: `<tool_call>`, a JSON object, `</tool_call>`.
pub const INLINE_CALL_PATTERN: &'static str = r"<tool_call>\s*(\{.*?\})\s*</tool_call>";

/// The matches of a regular expression in a text, left to right and not overlapping,
/// each with the text of its first group where that group took part: what the `regex`
/// crate's `captures_iter` yields; none when the pattern is not a valid expression.
pub uninterp spec fn regex_captures(pattern: Seq<char>, text: Seq<char>) -> Option<Seq<(Seq<char>, Option<Seq<char>>)>>;

/// The values of some captures.
pub open spec fn capture_views(v: Seq<(String, Option<String>)>) -> Seq<(Seq<char>, Option<Seq<char>>)> {
    v.map_values(|c: (String, Option<String>)| (c.0@, match c.1 { Some(g) => Some(g@), None => None }))
}

/// `regex::Regex::new(pattern)` and its `captures_iter(text)`: each match's text and
/// its first group's. The result is named `regex_captures` of the pattern and the text.
#[verifier::external_body]
fn captures(pattern: &str, text: &str) -> (r: Option<Vec<(String, Option<String>)>>)
    ensures
        match r {
            Some(v) => regex_captures(pattern@, text@) == Some(capture_views(v@)),
            None => regex_captures(pattern@, text@) is None,
        },
{
    let re = regex::Regex::new(pattern).ok()?;
    Some(re.captures_iter(text).map(|c| (c[0].to_string(), c.get(1).map(|g| g.as_str().to_string()))).collect())
}

/// The `name` (when it is a string) and the `arguments` (as JSON text) of a JSON object
/// text: what parsing it with `serde_json` and reading those fields gives; none when the
/// text is not JSON.
pub uninterp spec fn json_call_fields(text: Seq<char>) -> Option<(Option<Seq<char>>, Option<Seq<char>>)>;

/// `serde_json::from_str` into a `Value`, then its `name` field as a string and its
/// `arguments` field written back as JSON. The result is named `json_call_fields` of the
/// text.
#[verifier::external_body]
fn call_fields(text: &str) -> (r: Option<(Option<String>, Option<String>)>)
    ensures
        json_call_fields(text@) == match r {
            Some((n, a)) => Some((match n { Some(x) => Some(x@), None => None }, match a { Some(x) => Some(x@), None => None })),
            None => None,
        },
{
    let v: serde_json::Value = serde_json::from_str(text).ok()?;
    Some((v.get("name").and_then(|n| n.as_str()).map(|n| n.to_string()), v.get("arguments").map(|a| a.to_string())))
}

/// A tool call written inline in a reply: the whole text of the call, the tool's name
/// and its arguments as JSON.
#[derive(Debug)]
pub struct InlineCall {
    pub whole: String,
    pub name: String,
    pub arguments: String,
}

/// The value of an inline call.
pub open spec fn inline_view(c: InlineCall) -> (Seq<char>, Seq<char>, Seq<char>) {
    (c.whole@, c.name@, c.arguments@)
}

/// The values of some inline calls.
pub open spec fn inline_views(v: Seq<InlineCall>) -> Seq<(Seq<char>, Seq<char>, Seq<char>)> {
    v.map_values(|c: InlineCall| inline_view(c))
}

/// The inline calls made of some captures: each whose group is a JSON object, with the
/// tool's name (empty when missing) and its arguments (`{}` when missing).
pub open spec fn calls_of(caps: Seq<(Seq<char>, Option<Seq<char>>)>) -> Seq<(Seq<char>, Seq<char>, Seq<char>)>
    decreases caps.len(),
{
    if caps.len() == 0 {
        Seq::empty()
    } else {
        let prev = calls_of(caps.drop_last());
        let (whole, group) = caps.last();
        match group {
            Some(g) => match json_call_fields(g) {
                Some((n, a)) => prev.push((
                    whole,
                    match n { Some(x) => x, None => Seq::<char>::empty() },
                    match a { Some(x) => x, None => "{}"@ },
                )),
                None => prev,
            },
            None => prev,
        }
    }
}

/// The tool calls written inline in `content`, in order.
pub fn find_inline_tool_calls(content: &str) -> (r: Vec<InlineCall>)
    ensures
        match regex_captures(INLINE_CALL_PATTERN@, content@) {
            Some(caps) => inline_views(r@) == calls_of(caps),
            None => r@.len() == 0,
        },
{
    let caps = match captures(INLINE_CALL_PATTERN, content) {
        Some(c) => c,
        None => return Vec::new(),
    };
    let ghost cv = capture_views(caps@);
    let mut out: Vec<InlineCall> = Vec::new();
    let mut i: usize = 0;
    proof {
        assert(cv.take(0) =~= Seq::<(Seq<char>, Option<Seq<char>>)>::empty());
        assert(inline_views(out@) =~= Seq::<(Seq<char>, Seq<char>, Seq<char>)>::empty());
    }
    while i < caps.len()
        invariant
            i <= caps@.len(),
            cv == capture_views(caps@),
            inline_views(out@) == calls_of(cv.take(i as int)),
        decreases caps.len() - i,
    {
        let ghost before = inline_views(out@);
        proof {
            assert(cv.take(i + 1).drop_last() =~= cv.take(i as int));
            assert(cv.take(i + 1).last() == cv[i as int]);
        }
        match &caps[i].1 {
            Some(g) => {
                match call_fields(g.as_str()) {
                    Some((n, a)) => {
                        let name = match n {
                            Some(x) => x,
                            None => String::new(),
                        };
                        let arguments = match a {
                            Some(x) => x,
                            None => str_to_string("{}"),
                        };
                        let ghost nv = (caps@[i as int].0@, name@, arguments@);
                        out.push(InlineCall { whole: caps[i].0.clone(), name, arguments });
                        proof {
                            assert(inline_views(out@) =~= before.push(nv));
                        }
                    },
                    None => {},
                }
            },
            None => {},
        }
        i = i + 1;
    }
    assert(cv.take(cv.len() as int) =~= cv);
    out
}

/// The text with every occurrence of `p` (taken left to right, not overlapping) removed,
/// as `str::replace(p, "")` gives it for a non-empty `p`.
pub open spec fn remove_all(s: Seq<char>, p: Seq<char>) -> Seq<char>
    decreases s.len(),
{
    if p.len() == 0 || s.len() < p.len() {
        s
    } else if s.take(p.len() as int) == p {
        remove_all(s.skip(p.len() as int), p)
    } else {
        seq![s[0]] + remove_all(s.skip(1), p)
    }
}

/// The text with every occurrence of `p` removed.
pub fn remove_occurrences(s: &str, p: &str) -> (r: String)
    ensures
        r@ == remove_all(s@, p@),
{
    let cs = chars_of(s);
    let ps = chars_of(p);
    let r = remove_chars(&cs, 0, &ps);
    assert(cs@.skip(0) =~= cs@);
    crate::text::string_from_chars(&r)
}

fn remove_chars(cs: &Vec<char>, start: usize, ps: &Vec<char>) -> (r: Vec<char>)
    requires
        start <= cs@.len(),
    ensures
        r@ == remove_all(cs@.skip(start as int), ps@),
    decreases cs@.len() - start,
{
    let rest = cs.len() - start;
    if ps.len() == 0 || rest < ps.len() {
        let mut out: Vec<char> = Vec::new();
        let mut i = start;
        while i < cs.len()
            invariant
                start <= i <= cs@.len(),
                out@ == cs@.subrange(start as int, i as int),
            decreases cs.len() - i,
        {
            out.push(cs[i]);
            assert(cs@.subrange(start as int, i + 1) =~= cs@.subrange(start as int, i as int).push(cs@[i as int]));
            i = i + 1;
        }
        assert(cs@.subrange(start as int, cs@.len() as int) =~= cs@.skip(start as int));
        return out;
    }
    let mut k: usize = 0;
    while k < ps.len() && cs[start + k] == ps[k]
        invariant
            k <= ps@.len(),
            start + ps@.len() <= cs@.len(),
            start + k <= cs@.len(),
            cs@.len() <= usize::MAX,
            forall|t: int| 0 <= t < k ==> cs@[start + t] == ps@[t],
        decreases ps.len() - k,
    {
        k = k + 1;
    }
    let ghost tail = cs@.skip(start as int);
    if k == ps.len() {
        assert(tail.take(ps@.len() as int) =~= ps@);
        assert(tail.skip(ps@.len() as int) =~= cs@.skip(start + ps@.len()));
        remove_chars(cs, start + ps.len(), ps)
    } else {
        assert(tail.take(ps@.len() as int)[k as int] != ps@[k as int]);
        assert(tail.take(ps@.len() as int) != ps@);
        let rest_out = remove_chars(cs, start + 1, ps);
        let mut out: Vec<char> = Vec::new();
        out.push(cs[start]);
        let mut j: usize = 0;
        while j < rest_out.len()
            invariant
                j <= rest_out@.len(),
                out@ == seq![cs@[start as int]] + rest_out@.take(j as int),
            decreases rest_out.len() - j,
        {
            out.push(rest_out[j]);
            assert(rest_out@.take(j + 1) =~= rest_out@.take(j as int).push(rest_out@[j as int]));
            j = j + 1;
        }
        assert(rest_out@.take(rest_out@.len() as int) =~= rest_out@);
        assert(tail.skip(1) =~= cs@.skip(start + 1));
        assert(tail[0] == cs@[start as int]);
        out
    }
}

/// The line reporting an inline call's outcome.
pub open spec fn inline_result_line(name: Seq<char>, outcome: Result<Seq<char>, Seq<char>>) -> Seq<char> {
    match outcome {
        Ok(out) => "工具 '"@ + name + "' 执行结果:\n"@ + out,
        Err(e) => "工具 '"@ + name + "' 执行失败: "@ + e,
    }
}

/// The reply after its inline calls ran: each call's text removed from it, then, when
/// any ran, the trimmed reply, a blank line, and the outcome lines separated by blank
/// lines.
pub open spec fn merged_reply(content: Seq<char>, ran: Seq<(Seq<char>, Seq<char>, Result<Seq<char>, Seq<char>>)>) -> Seq<char> {
    let stripped = strip_calls(content, ran);
    if ran.len() == 0 {
        stripped
    } else {
        trim_ws(stripped) + "\n\n"@ + joined(ran.map_values(|c: (Seq<char>, Seq<char>, Result<Seq<char>, Seq<char>>)| inline_result_line(c.1, c.2)), "\n\n"@)
    }
}

/// The reply with the text of each call removed, call after call.
pub open spec fn strip_calls(content: Seq<char>, ran: Seq<(Seq<char>, Seq<char>, Result<Seq<char>, Seq<char>>)>) -> Seq<char>
    decreases ran.len(),
{
    if ran.len() == 0 {
        content
    } else {
        remove_all(strip_calls(content, ran.drop_last()), ran.last().0)
    }
}

/// The value of an inline call with its outcome.
pub open spec fn ran_views(v: Seq<(InlineCall, Result<String, String>)>) -> Seq<(Seq<char>, Seq<char>, Result<Seq<char>, Seq<char>>)> {
    v.map_values(|e: (InlineCall, Result<String, String>)| (e.0.whole@, e.0.name@, match e.1 {
        Ok(o) => Ok(o@),
        Err(x) => Err(x@),
    }))
}

/// The reply after its inline calls ran, each with its outcome (the tool's output, or
/// the error's text).
pub fn merge_inline_results(content: &str, ran: &Vec<(InlineCall, Result<String, String>)>) -> (r: String)
    ensures
        r@ == merged_reply(content@, ran_views(ran@)),
{
    let ghost rv = ran_views(ran@);
    let mut result = str_to_string(content);
    let mut lines: Vec<String> = Vec::new();
    let mut i: usize = 0;
    proof {
        assert(rv.take(0) =~= Seq::<(Seq<char>, Seq<char>, Result<Seq<char>, Seq<char>>)>::empty());
    }
    while i < ran.len()
        invariant
            i <= ran@.len(),
            rv == ran_views(ran@),
            result@ == strip_calls(content@, rv.take(i as int)),
            string_views(lines@) == rv.take(i as int).map_values(|c: (Seq<char>, Seq<char>, Result<Seq<char>, Seq<char>>)| inline_result_line(c.1, c.2)),
        decreases ran.len() - i,
    {
        let ghost before = string_views(lines@);
        let (call, outcome) = &ran[i];
        let line = match outcome {
            Ok(out) => {
                let mut l = concat3("工具 '", call.name.as_str(), "' 执行结果:\n");
                push_str(&mut l, out.as_str());
                l
            },
            Err(e) => {
                let mut l = concat3("工具 '", call.name.as_str(), "' 执行失败: ");
                push_str(&mut l, e.as_str());
                l
            },
        };
        lines.push(line);
        result = remove_occurrences(result.as_str(), call.whole.as_str());
        proof {
            assert(rv[i as int].0 == call.whole@);
            assert(rv.take(i + 1).drop_last() =~= rv.take(i as int));
            assert(rv.take(i + 1).last() == rv[i as int]);
            assert(string_views(lines@) =~= before.push(inline_result_line(rv[i as int].1, rv[i as int].2)));
            assert(rv.take(i + 1).map_values(|c: (Seq<char>, Seq<char>, Result<Seq<char>, Seq<char>>)| inline_result_line(c.1, c.2))
                =~= rv.take(i as int).map_values(|c: (Seq<char>, Seq<char>, Result<Seq<char>, Seq<char>>)| inline_result_line(c.1, c.2)).push(inline_result_line(rv[i as int].1, rv[i as int].2)));
        }
        i = i + 1;
    }
    assert(rv.take(rv.len() as int) =~= rv);
    if lines.len() == 0 {
        result
    } else {
        let mut out = trim_str(result.as_str());
        push_str(&mut out, "\n\n");
        let joined_lines = crate::text::join_strings(&lines, "\n\n");
        push_str(&mut out, joined_lines.as_str());
        out
    }
}

} // verus!
