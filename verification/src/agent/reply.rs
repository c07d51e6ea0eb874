//! What a model's reply says: its text, its reasoning, the tool calls it asks for and
//! its token counts, read from the reply's JSON in the OpenAI or the Anthropic form; and
//! which calls a round runs and how the history records them.

use vstd::prelude::*;
use crate::agent::conversation::{call_views, ToolCall, ToolCallView, ToolFunction};
use crate::audit::opt_view;
use crate::text::str_to_string;
use crate::tools::{json_error, json_syntax_error};

verus! {

/// The fields of a tool call as a reply gives them: whether it has a `function`, and its
/// id, type, function name and arguments where they are strings.
#[derive(Debug)]
pub struct CallFields {
    pub has_function: bool,
    pub id: Option<String>,
    pub call_type: Option<String>,
    pub name: Option<String>,
    pub arguments: Option<String>,
}

/// The value of a call's fields.
pub type CallFieldsView = (bool, Option<Seq<char>>, Option<Seq<char>>, Option<Seq<char>>, Option<Seq<char>>);

impl View for CallFields {
    type V = CallFieldsView;

    open spec fn view(&self) -> CallFieldsView {
        (self.has_function, opt_view(self.id), opt_view(self.call_type), opt_view(self.name), opt_view(self.arguments))
    }
}

/// The values of some calls' fields.
pub open spec fn call_field_views(v: Seq<CallFields>) -> Seq<CallFieldsView> {
    v.map_values(|c: CallFields| c@)
}

/// The first choice's message of an OpenAI-form reply: its `content` when a string, its
/// `reasoning_content` and `reasoning` members (present or not, and their text when
/// strings), and its `tool_calls` member written as JSON; none when the reply has no such
/// message.
pub uninterp spec fn json_openai_message(text: Seq<char>)
    -> Option<(Option<Seq<char>>, Option<Option<Seq<char>>>, Option<Option<Seq<char>>>, Option<Seq<char>>)>;

/// `serde_json::from_str` into a `Value`, then `choices[0].message` and its members. The
/// result is named `json_openai_message` of the text.
#[verifier::external_body]
fn openai_message(text: &str) -> (r: Option<(Option<String>, Option<Option<String>>, Option<Option<String>>, Option<String>)>)
    ensures
        json_openai_message(text@) == match r {
            Some((c, rc, rs, t)) => Some((opt_view(c), match rc { Some(x) => Some(opt_view(x)), None => None }, match rs {
                Some(x) => Some(opt_view(x)),
                None => None,
            }, opt_view(t))),
            None => None,
        },
{
    let v: serde_json::Value = serde_json::from_str(text).ok()?;
    let m = v.get("choices")?.as_array()?.first()?.get("message")?;
    let text_of = |k: &str| m.get(k).map(|x| x.as_str().map(|s| s.to_string()));
    Some((m.get("content").and_then(|c| c.as_str()).map(|c| c.to_string()), text_of("reasoning_content"), text_of("reasoning"), m.get("tool_calls").map(|t| t.to_string())))
}

/// The calls of a JSON list of tool calls, each by its fields; none when the text is not
/// a JSON list.
pub uninterp spec fn json_call_list(text: Seq<char>) -> Option<Seq<CallFieldsView>>;

/// `serde_json::from_str` into a `Value`, then `as_array` and each element's `id`,
/// `type`, `function.name` and `function.arguments`. The result is named `json_call_list`
/// of the text.
#[verifier::external_body]
fn call_list(text: &str) -> (r: Option<Vec<CallFields>>)
    ensures
        match r {
            Some(v) => json_call_list(text@) == Some(call_field_views(v@)),
            None => json_call_list(text@) is None,
        },
{
    let v: serde_json::Value = serde_json::from_str(text).ok()?;
    let s = |o: Option<&serde_json::Value>, k: &str| o.and_then(|x| x.get(k)).and_then(|x| x.as_str()).map(|x| x.to_string());
    Some(v.as_array()?.iter().map(|c| CallFields { has_function: c.get("function").is_some(), id: s(Some(c), "id"), call_type: s(Some(c), "type"), name: s(c.get("function"), "name"), arguments: s(c.get("function"), "arguments") }).collect())
}

/// A content block of an Anthropic-form reply: its type, text, id and name where they
/// are strings, and its `input` written as JSON.
#[derive(Debug)]
pub struct ReplyBlock {
    pub kind: Option<String>,
    pub text: Option<String>,
    pub id: Option<String>,
    pub name: Option<String>,
    pub input: Option<String>,
}

/// The value of a block.
pub type ReplyBlockView = (Option<Seq<char>>, Option<Seq<char>>, Option<Seq<char>>, Option<Seq<char>>, Option<Seq<char>>);

impl View for ReplyBlock {
    type V = ReplyBlockView;

    open spec fn view(&self) -> ReplyBlockView {
        (opt_view(self.kind), opt_view(self.text), opt_view(self.id), opt_view(self.name), opt_view(self.input))
    }
}

/// The values of some blocks.
pub open spec fn block_views(v: Seq<ReplyBlock>) -> Seq<ReplyBlockView> {
    v.map_values(|b: ReplyBlock| b@)
}

/// The blocks of the `content` list of an Anthropic-form reply; none when there is no
/// such list.
pub uninterp spec fn json_reply_blocks(text: Seq<char>) -> Option<Seq<ReplyBlockView>>;

/// `serde_json::from_str` into a `Value`, then `content` as a list and each block's
/// members. The result is named `json_reply_blocks` of the text.
#[verifier::external_body]
fn reply_blocks(text: &str) -> (r: Option<Vec<ReplyBlock>>)
    ensures
        match r {
            Some(v) => json_reply_blocks(text@) == Some(block_views(v@)),
            None => json_reply_blocks(text@) is None,
        },
{
    let v: serde_json::Value = serde_json::from_str(text).ok()?;
    let s = |b: &serde_json::Value, k: &str| b.get(k).and_then(|x| x.as_str()).map(|x| x.to_string());
    Some(v.get("content")?.as_array()?.iter().map(|b| ReplyBlock { kind: s(b, "type"), text: s(b, "text"), id: s(b, "id"), name: s(b, "name"), input: b.get("input").map(|i| i.to_string()) }).collect())
}

/// The three counts under `usage` in a reply, by the given member names, where they are
/// unsigned integers; none when the reply has no `usage`.
pub uninterp spec fn json_usage(text: Seq<char>, first: Seq<char>, second: Seq<char>, third: Seq<char>)
    -> Option<(Option<u64>, Option<u64>, Option<u64>)>;

/// `serde_json::from_str` into a `Value`, then `usage` and the three members' `as_u64`.
/// The result is named `json_usage` of the text and the names.
#[verifier::external_body]
fn usage_counts(text: &str, first: &str, second: &str, third: &str) -> (r: Option<(Option<u64>, Option<u64>, Option<u64>)>)
    ensures
        r == json_usage(text@, first@, second@, third@),
{
    let v: serde_json::Value = serde_json::from_str(text).ok()?;
    let u = v.get("usage")?;
    Some((u.get(first).and_then(|x| x.as_u64()), u.get(second).and_then(|x| x.as_u64()), u.get(third).and_then(|x| x.as_u64())))
}

/// What a reply says.
#[derive(Debug)]
pub struct ModelReply {
    pub content: String,
    pub reasoning: Option<String>,
    pub calls: Option<Vec<CallFields>>,
    pub usage: Option<(Option<u64>, Option<u64>, Option<u64>)>,
}

/// The value of what a reply says.
pub struct ModelReplyView {
    pub content: Seq<char>,
    pub reasoning: Option<Seq<char>>,
    pub calls: Option<Seq<CallFieldsView>>,
    pub usage: Option<(Option<u64>, Option<u64>, Option<u64>)>,
}

impl View for ModelReply {
    type V = ModelReplyView;

    open spec fn view(&self) -> ModelReplyView {
        ModelReplyView {
            content: self.content@,
            reasoning: opt_view(self.reasoning),
            calls: match self.calls {
                Some(v) => Some(call_field_views(v@)),
                None => None,
            },
            usage: self.usage,
        }
    }
}

/// The text and the tool call of an Anthropic reply's blocks, the last of each kind
/// winning: a `text` block gives the text (empty when it has none); a `tool_use` block
/// gives one call of type `function` with its id and name (empty when missing) and its
/// input as arguments (`{}` when missing).
pub open spec fn anthropic_parts(bs: Seq<ReplyBlockView>) -> (Seq<char>, Option<Seq<CallFieldsView>>)
    decreases bs.len(),
{
    if bs.len() == 0 {
        (Seq::empty(), None)
    } else {
        let (content, calls) = anthropic_parts(bs.drop_last());
        let b = bs.last();
        if b.0 == Some("text"@) {
            (match b.1 { Some(t) => t, None => Seq::empty() }, calls)
        } else if b.0 == Some("tool_use"@) {
            let call: CallFieldsView = (
                true,
                Some(match b.2 { Some(i) => i, None => Seq::empty() }),
                Some("function"@),
                Some(match b.3 { Some(n) => n, None => Seq::empty() }),
                Some(match b.4 { Some(i) => i, None => "{}"@ }),
            );
            (content, Some(seq![call]))
        } else {
            (content, calls)
        }
    }
}

/// The reasoning of an OpenAI reply: `reasoning_content` when the member is present
/// (its text when a string), else `reasoning`'s text.
pub open spec fn openai_reasoning(rc: Option<Option<Seq<char>>>, rs: Option<Option<Seq<char>>>) -> Option<Seq<char>> {
    match rc {
        Some(x) => x,
        None => match rs {
            Some(y) => y,
            None => None,
        },
    }
}

/// What the reply text `text` says, in the Anthropic form or the OpenAI form; an error
/// with serde_json's message when it is not JSON.
pub open spec fn reply_of(text: Seq<char>, anthropic: bool) -> Result<ModelReplyView, Seq<char>> {
    match json_syntax_error(text) {
        Some(e) => Err(e),
        None => if anthropic {
            let (content, calls) = anthropic_parts(match json_reply_blocks(text) {
                Some(bs) => bs,
                None => Seq::empty(),
            });
            Ok(ModelReplyView {
                content,
                reasoning: None,
                calls,
                usage: json_usage(text, "input_tokens"@, "output_tokens"@, "total_tokens"@),
            })
        } else {
            let usage = json_usage(text, "prompt_tokens"@, "completion_tokens"@, "total_tokens"@);
            match json_openai_message(text) {
                Some((c, rc, rs, t)) => Ok(ModelReplyView {
                    content: match c { Some(x) => x, None => Seq::empty() },
                    reasoning: openai_reasoning(rc, rs),
                    calls: match t {
                        Some(j) => json_call_list(j),
                        None => None,
                    },
                    usage,
                }),
                None => Ok(ModelReplyView { content: Seq::empty(), reasoning: None, calls: None, usage }),
            }
        },
    }
}

fn text_or_empty(o: Option<String>) -> (r: String)
    ensures
        r@ == match o { Some(t) => t@, None => Seq::<char>::empty() },
{
    match o {
        Some(t) => t,
        None => String::new(),
    }
}

/// Reads the text and tool call of an Anthropic reply's blocks.
fn read_blocks(bs: Vec<ReplyBlock>) -> (r: (String, Option<Vec<CallFields>>))
    ensures
        (r.0@, match r.1 { Some(v) => Some(call_field_views(v@)), None => None }) == anthropic_parts(block_views(bs@)),
{
    let ghost bv = block_views(bs@);
    let mut content = String::new();
    let mut calls: Option<Vec<CallFields>> = None;
    let mut rest = bs;
    let mut i: usize = 0;
    let n = rest.len();
    proof {
        assert(bv.take(0) =~= Seq::<ReplyBlockView>::empty());
    }
    while i < n
        invariant
            n == bv.len(),
            i <= n,
            rest@.len() == n - i,
            forall|k: int| 0 <= k < rest@.len() ==> #[trigger] rest@[k]@ == bv[(i + k) as int],
            (content@, match calls { Some(v) => Some(call_field_views(v@)), None => None }) == anthropic_parts(bv.take(i as int)),
        decreases n - i,
    {
        let ghost before = rest@;
        let b = rest.remove(0);
        proof {
            assert(b@ == bv[i as int]);
            assert(bv.take(i + 1).drop_last() =~= bv.take(i as int));
            assert(bv.take(i + 1).last() == bv[i as int]);
            reveal_strlit("text");
            reveal_strlit("tool_use");
            reveal_strlit("function");
            reveal_strlit("{}");
        }
        let is_some_kind = b.kind.is_some();
        let kind = text_or_empty(b.kind);
        if is_some_kind && crate::text::str_eq(kind.as_str(), "text") {
            content = text_or_empty(b.text);
        } else if is_some_kind && crate::text::str_eq(kind.as_str(), "tool_use") {
            let call = CallFields {
                has_function: true,
                id: Some(text_or_empty(b.id)),
                call_type: Some(str_to_string("function")),
                name: Some(text_or_empty(b.name)),
                arguments: Some(match b.input { Some(x) => x, None => str_to_string("{}") }),
            };
            let ghost cv = call@;
            let v = vec![call];
            proof {
                assert(call_field_views(v@) =~= seq![cv]);
            }
            calls = Some(v);
        }
        i = i + 1;
        proof {
            assert forall|k: int| 0 <= k < rest@.len() implies #[trigger] rest@[k]@ == bv[(i + k) as int] by {
                assert(rest@[k] == before[k + 1]);
            }
        }
    }
    assert(bv.take(n as int) =~= bv);
    (content, calls)
}

/// Reads what the reply text `text` says, in the Anthropic form when `anthropic` holds,
/// else in the OpenAI form.
pub fn read_reply(text: &str, anthropic: bool) -> (r: Result<ModelReply, String>)
    ensures
        reply_of(text@, anthropic) == match r {
            Ok(m) => Ok(m@),
            Err(e) => Err(e@),
        },
{
    if let Some(e) = json_error(text) {
        return Err(e);
    }
    if anthropic {
        let blocks = match reply_blocks(text) {
            Some(bs) => bs,
            None => Vec::new(),
        };
        proof {
            if json_reply_blocks(text@) is None {
                assert(block_views(blocks@) =~= Seq::<ReplyBlockView>::empty());
            }
        }
        let (content, calls) = read_blocks(blocks);
        let usage = usage_counts(text, "input_tokens", "output_tokens", "total_tokens");
        Ok(ModelReply { content, reasoning: None, calls, usage })
    } else {
        let usage = usage_counts(text, "prompt_tokens", "completion_tokens", "total_tokens");
        match openai_message(text) {
            Some((c, rc, rs, t)) => {
                let reasoning = match rc {
                    Some(x) => x,
                    None => match rs {
                        Some(y) => y,
                        None => None,
                    },
                };
                let calls = match t {
                    Some(j) => call_list(j.as_str()),
                    None => None,
                };
                Ok(ModelReply { content: text_or_empty(c), reasoning, calls, usage })
            },
            None => Ok(ModelReply { content: String::new(), reasoning: None, calls: None, usage }),
        }
    }
}

/// The text of an optional field, or `d` when it is missing.
pub open spec fn or_default(o: Option<Seq<char>>, d: Seq<char>) -> Seq<char> {
    match o {
        Some(x) => x,
        None => d,
    }
}

/// The calls a round runs, in order: each call that has a function, by its id and name
/// (empty when missing) and arguments (`{}` when missing).
pub open spec fn runs_of(cs: Seq<CallFieldsView>) -> Seq<(Seq<char>, Seq<char>, Seq<char>)>
    decreases cs.len(),
{
    if cs.len() == 0 {
        Seq::empty()
    } else {
        let c = cs.last();
        if c.0 {
            runs_of(cs.drop_last()).push((or_default(c.1, Seq::empty()), or_default(c.3, Seq::empty()), or_default(c.4, "{}"@)))
        } else {
            runs_of(cs.drop_last())
        }
    }
}

/// Whether a call has every field the history keeps.
pub open spec fn complete_call(c: CallFieldsView) -> bool {
    c.0 && c.1 is Some && c.2 is Some && c.3 is Some && c.4 is Some
}

/// The calls as the history records them, when every call has all its fields.
pub open spec fn recorded_calls(cs: Seq<CallFieldsView>) -> Option<Seq<ToolCallView>> {
    if forall|i: int| 0 <= i < cs.len() ==> complete_call(#[trigger] cs[i]) {
        Some(cs.map_values(|c: CallFieldsView| (
            or_default(c.1, Seq::empty()),
            or_default(c.2, Seq::empty()),
            or_default(c.3, Seq::empty()),
            or_default(c.4, Seq::empty()),
        )))
    } else {
        None
    }
}

/// The calls a round of tool calls runs (id, name, arguments), and the calls as the
/// history records them (none unless every call has all its fields).
pub fn tool_round(calls: &Vec<CallFields>) -> (r: (Vec<(String, String, String)>, Option<Vec<ToolCall>>))
    ensures
        r.0@.map_values(|x: (String, String, String)| (x.0@, x.1@, x.2@)) == runs_of(call_field_views(calls@)),
        match r.1 {
            Some(v) => recorded_calls(call_field_views(calls@)) == Some(call_views(v@)),
            None => recorded_calls(call_field_views(calls@)) is None,
        },
{
    let ghost cv = call_field_views(calls@);
    let mut runs: Vec<(String, String, String)> = Vec::new();
    let mut recorded: Vec<ToolCall> = Vec::new();
    let mut complete = true;
    let mut i: usize = 0;
    proof {
        assert(cv.take(0) =~= Seq::<CallFieldsView>::empty());
        reveal_strlit("{}");
    }
    while i < calls.len()
        invariant
            i <= calls@.len(),
            cv == call_field_views(calls@),
            runs@.map_values(|x: (String, String, String)| (x.0@, x.1@, x.2@)) == runs_of(cv.take(i as int)),
            complete == forall|j: int| 0 <= j < i ==> complete_call(#[trigger] cv[j]),
            complete ==> call_views(recorded@) == cv.take(i as int).map_values(|c: CallFieldsView| (
                or_default(c.1, Seq::empty()),
                or_default(c.2, Seq::empty()),
                or_default(c.3, Seq::empty()),
                or_default(c.4, Seq::empty()),
            )),
        decreases calls.len() - i,
    {
        let c = &calls[i];
        proof {
            assert(cv[i as int] == c@);
            assert(cv.take(i + 1).drop_last() =~= cv.take(i as int));
            assert(cv.take(i + 1).last() == c@);
        }
        let id = match &c.id {
            Some(x) => x.clone(),
            None => String::new(),
        };
        let name = match &c.name {
            Some(x) => x.clone(),
            None => String::new(),
        };
        let arguments = match &c.arguments {
            Some(x) => x.clone(),
            None => str_to_string("{}"),
        };
        if c.has_function {
            let ghost before = runs@;
            runs.push((id.clone(), name.clone(), arguments.clone()));
            proof {
                assert(runs@.map_values(|x: (String, String, String)| (x.0@, x.1@, x.2@))
                    =~= before.map_values(|x: (String, String, String)| (x.0@, x.1@, x.2@)).push((id@, name@, arguments@)));
            }
        }
        let full = c.has_function && c.id.is_some() && c.call_type.is_some() && c.name.is_some() && c.arguments.is_some();
        if complete && full {
            let call_type = match &c.call_type {
                Some(x) => x.clone(),
                None => String::new(),
            };
            let ghost before = recorded@;
            recorded.push(ToolCall { id, call_type, function: ToolFunction { name, arguments } });
            proof {
                assert(call_views(recorded@) =~= call_views(before).push(call_views(recorded@).last()));
                assert(cv.take(i + 1).map_values(|c: CallFieldsView| (
                    or_default(c.1, Seq::empty()),
                    or_default(c.2, Seq::empty()),
                    or_default(c.3, Seq::empty()),
                    or_default(c.4, Seq::empty()),
                )) =~= cv.take(i as int).map_values(|c: CallFieldsView| (
                    or_default(c.1, Seq::empty()),
                    or_default(c.2, Seq::empty()),
                    or_default(c.3, Seq::empty()),
                    or_default(c.4, Seq::empty()),
                )).push((
                    or_default(c@.1, Seq::empty()),
                    or_default(c@.2, Seq::empty()),
                    or_default(c@.3, Seq::empty()),
                    or_default(c@.4, Seq::empty()),
                )));
            }
        }
        if !full {
            complete = false;
        }
        i = i + 1;
    }
    proof {
        assert(cv.take(calls@.len() as int) =~= cv);
    }
    if complete {
        (runs, Some(recorded))
    } else {
        (runs, None)
    }
}

} // verus!
