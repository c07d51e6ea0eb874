//! Messages of a conversation, the system prompt assembled around them, and the
//! bookkeeping of one user turn: the history grows by the user's message, by each round
//! of tool calls and their results, and by the final answer; at most
//! `MAX_TOOL_ITERATIONS` tool rounds are taken before the turn gives up.

use vstd::prelude::*;
use crate::keyed::{
    has_key, lemma_map_of_absent, lemma_map_of_empty, lemma_map_of_index, lemma_map_of_push,
    lemma_map_of_update, map_of, unique_keys,
};
use crate::agent::provider::{spec_usage, usage_from_counts};
use crate::agent::reply::{call_field_views, recorded_calls, runs_of, tool_round, ModelReply};
use crate::agent::request::{
    calls_of, find_inline_tool_calls, inline_views, merge_inline_results, merged_reply, ran_views, regex_captures,
    InlineCall, INLINE_CALL_PATTERN,
};
use crate::text::{push_str, str_eq, str_to_string};

verus! {

/// The number of tool rounds after which a turn stops.
pub const MAX_TOOL_ITERATIONS: usize = 50;

/// A function the model asked to run, with its arguments as JSON text.
#[derive(Debug)]
pub struct ToolFunction {
    pub name: String,
    pub arguments: String,
}

/// A tool call requested by the model.
#[derive(Debug)]
pub struct ToolCall {
    pub id: String,
    pub call_type: String,
    pub function: ToolFunction,
}

/// The output of one tool call.
#[derive(Debug)]
pub struct ToolCallResult {
    pub tool_call_id: String,
    pub content: String,
}

/// Token counts of the last exchange.
#[derive(Debug, Clone, Copy)]
pub struct TokenUsage {
    pub prompt_tokens: u32,
    pub completion_tokens: u32,
    pub total_tokens: u32,
}

/// One message of a conversation.
#[derive(Debug)]
pub struct Message {
    pub role: String,
    pub content: String,
    pub tool_calls: Option<Vec<ToolCall>>,
    pub tool_call_id: Option<String>,
    pub reasoning: Option<String>,
}

/// The value of a tool call: id, type, function name, arguments.
pub type ToolCallView = (Seq<char>, Seq<char>, Seq<char>, Seq<char>);

/// The value of a message.
pub struct MessageView {
    pub role: Seq<char>,
    pub content: Seq<char>,
    pub tool_calls: Option<Seq<ToolCallView>>,
    pub tool_call_id: Option<Seq<char>>,
    pub reasoning: Option<Seq<char>>,
}

impl View for ToolCall {
    type V = ToolCallView;

    open spec fn view(&self) -> ToolCallView {
        (self.id@, self.call_type@, self.function.name@, self.function.arguments@)
    }
}

/// The view of an optional text.
pub open spec fn opt_text(s: Option<String>) -> Option<Seq<char>> {
    match s {
        Some(x) => Some(x@),
        None => None,
    }
}

/// The views of tool calls.
pub open spec fn call_views(v: Seq<ToolCall>) -> Seq<ToolCallView> {
    v.map_values(|c: ToolCall| c@)
}

impl View for Message {
    type V = MessageView;

    open spec fn view(&self) -> MessageView {
        MessageView {
            role: self.role@,
            content: self.content@,
            tool_calls: match self.tool_calls {
                Some(v) => Some(call_views(v@)),
                None => None,
            },
            tool_call_id: opt_text(self.tool_call_id),
            reasoning: opt_text(self.reasoning),
        }
    }
}

fn clone_opt(s: &Option<String>) -> (r: Option<String>)
    ensures
        opt_text(r) == opt_text(*s),
{
    match s {
        Some(x) => Some(x.clone()),
        None => None,
    }
}

impl Clone for ToolCall {
    fn clone(&self) -> (r: Self)
        ensures
            r@ == self@,
    {
        ToolCall {
            id: self.id.clone(),
            call_type: self.call_type.clone(),
            function: ToolFunction { name: self.function.name.clone(), arguments: self.function.arguments.clone() },
        }
    }
}

fn clone_calls(v: &Vec<ToolCall>) -> (r: Vec<ToolCall>)
    ensures
        call_views(r@) == call_views(v@),
{
    let mut r: Vec<ToolCall> = Vec::new();
    let mut i: usize = 0;
    while i < v.len()
        invariant
            i <= v@.len(),
            r@.len() == i,
            forall|j: int| 0 <= j < i ==> #[trigger] r@[j]@ == v@[j]@,
        decreases v.len() - i,
    {
        r.push(v[i].clone());
        i = i + 1;
    }
    assert(call_views(r@) =~= call_views(v@));
    r
}

impl Clone for Message {
    fn clone(&self) -> (r: Self)
        ensures
            r@ == self@,
    {
        Message {
            role: self.role.clone(),
            content: self.content.clone(),
            tool_calls: match &self.tool_calls {
                Some(v) => Some(clone_calls(v)),
                None => None,
            },
            tool_call_id: clone_opt(&self.tool_call_id),
            reasoning: clone_opt(&self.reasoning),
        }
    }
}

/// The views of messages.
pub open spec fn message_views(v: Seq<Message>) -> Seq<MessageView> {
    v.map_values(|m: Message| m@)
}

/// A message with only a role and a text.
pub open spec fn plain_message(role: Seq<char>, content: Seq<char>, reasoning: Option<Seq<char>>) -> MessageView {
    MessageView { role, content, tool_calls: None, tool_call_id: None, reasoning }
}

fn new_message(role: &str, content: String, reasoning: Option<String>) -> (m: Message)
    ensures
        m@ == plain_message(role@, content@, opt_text(reasoning)),
{
    Message { role: str_to_string(role), content, tool_calls: None, tool_call_id: None, reasoning }
}

/// The context lines appended to a system prompt: one `- key: value` line per entry.
pub open spec fn context_lines(ctx: Seq<(Seq<char>, Seq<char>)>) -> Seq<char>
    decreases ctx.len(),
{
    if ctx.len() == 0 {
        Seq::empty()
    } else {
        context_lines(ctx.drop_last()) + "- "@ + ctx.last().0 + ": "@ + ctx.last().1 + "\n"@
    }
}

/// The system prompt with its context section, when there is context.
pub open spec fn system_content(prompt: Seq<char>, ctx: Seq<(Seq<char>, Seq<char>)>) -> Seq<char> {
    if ctx.len() == 0 {
        prompt
    } else {
        prompt + "\n\n## Context Information\n"@ + context_lines(ctx)
    }
}

/// A system prompt, the conversation so far, tool schemas and context entries.
pub struct PromptBuilder {
    system_prompt: String,
    conversation: Vec<Message>,
    tools: Vec<serde_json::Value>,
    context: Vec<(String, String)>,
}

impl PromptBuilder {
    pub closed spec fn context_entries(&self) -> Seq<(Seq<char>, Seq<char>)> {
        self.context@.map_values(|e: (String, String)| (e.0@, e.1@))
    }

    /// The context values, by key.
    pub closed spec fn context_view(&self) -> Map<Seq<char>, Seq<char>> {
        map_of(self.context_entries())
    }

    /// The system prompt.
    pub closed spec fn prompt_view(&self) -> Seq<char> {
        self.system_prompt@
    }

    /// The conversation messages, in order.
    pub closed spec fn conversation_view(&self) -> Seq<MessageView> {
        message_views(self.conversation@)
    }

    /// The tool schemas, in the order they were added.
    pub closed spec fn tools_view(&self) -> Seq<serde_json::Value> {
        self.tools@
    }

    /// Each context key is held once.
    pub closed spec fn wf(&self) -> bool {
        unique_keys(self.context_entries())
    }

    /// A builder with a system prompt and nothing else.
    pub fn new(system_prompt: &str) -> (r: Self)
        ensures
            r.wf(),
            r.prompt_view() == system_prompt@,
            r.conversation_view() == Seq::<MessageView>::empty(),
            r.tools_view() == Seq::<serde_json::Value>::empty(),
            r.context_view() == Map::<Seq<char>, Seq<char>>::empty(),
    {
        let r = PromptBuilder {
            system_prompt: str_to_string(system_prompt),
            conversation: Vec::new(),
            tools: Vec::new(),
            context: Vec::new(),
        };
        proof {
            lemma_map_of_empty(r.context_entries());
            assert(r.conversation_view() =~= Seq::<MessageView>::empty());
        }
        r
    }

    /// Appends a message to the conversation.
    pub fn add_message(&mut self, message: Message)
        ensures
            final(self).prompt_view() == old(self).prompt_view(),
            final(self).conversation_view() == old(self).conversation_view().push(message@),
            final(self).tools_view() == old(self).tools_view(),
            final(self).context_view() == old(self).context_view(),
            final(self).wf() == old(self).wf(),
    {
        let ghost before = self.conversation@;
        let ghost mv = message@;
        self.conversation.push(message);
        assert(self.conversation_view() =~= message_views(before).push(mv));
        assert(self.context_entries() =~= old(self).context_entries());
    }

    /// Adds a tool schema.
    pub fn add_tool(&mut self, tool_schema: serde_json::Value)
        ensures
            final(self).prompt_view() == old(self).prompt_view(),
            final(self).conversation_view() == old(self).conversation_view(),
            final(self).tools_view() == old(self).tools_view().push(tool_schema),
            final(self).context_view() == old(self).context_view(),
            final(self).wf() == old(self).wf(),
    {
        self.tools.push(tool_schema);
        assert(self.context_entries() =~= old(self).context_entries());
        assert(self.conversation_view() =~= old(self).conversation_view());
    }

    /// Sets the context entry `key` to `value`.
    #[verifier::loop_isolation(false)]
    pub fn set_context(&mut self, key: &str, value: &str)
        requires
            old(self).wf(),
        ensures
            final(self).wf(),
            final(self).prompt_view() == old(self).prompt_view(),
            final(self).conversation_view() == old(self).conversation_view(),
            final(self).tools_view() == old(self).tools_view(),
            final(self).context_view() == old(self).context_view().insert(key@, value@),
    {
        let ghost old_entries = self.context_entries();
        let mut found: Option<usize> = None;
        let mut i: usize = 0;
        while i < self.context.len()
            invariant
                i <= self.context@.len(),
                self.context_entries() == old_entries,
                self.system_prompt == old(self).system_prompt,
                self.conversation == old(self).conversation,
                self.tools == old(self).tools,
                self.context == old(self).context,
                found is None,
                forall|j: int| 0 <= j < i ==> #[trigger] self.context@[j].0@ != key@,
            decreases self.context.len() - i,
        {
            if str_eq(self.context[i].0.as_str(), key) {
                found = Some(i);
                assert(self.context_entries()[i as int].0 == key@);
                let entry = (str_to_string(key), str_to_string(value));
                self.context.set(i, entry);
                proof {
                    assert(self.context_entries() =~= old_entries.update(i as int, (old_entries[i as int].0, value@)));
                    lemma_map_of_update(old_entries, i as int, value@);
                    assert(self.conversation_view() =~= old(self).conversation_view());
                }
                return;
            }
            i = i + 1;
        }
        self.context.push((str_to_string(key), str_to_string(value)));
        proof {
            assert(self.context_entries() =~= old_entries.push((key@, value@)));
            if has_key(old_entries, key@) {
                let j = choose|j: int| 0 <= j < old_entries.len() && old_entries[j].0 == key@;
                assert(old_entries[j].0 == self.context@[j].0@);
            }
            lemma_map_of_push(old_entries, key@, value@);
            assert(self.conversation_view() =~= old(self).conversation_view());
        }
    }

    /// The messages to send: the system prompt (with a context section listing each
    /// entry, in the order keys were first set) unless the prompt is empty, then the
    /// conversation.
    #[verifier::loop_isolation(false)]
    pub fn build_messages(&self) -> (r: Vec<Message>)
        ensures
            message_views(r@) == if self.prompt_view().len() == 0 {
                self.conversation_view()
            } else {
                seq![plain_message("system"@, system_content(self.prompt_view(), self.context_entries()), None)]
                    + self.conversation_view()
            },
    {
        let mut messages: Vec<Message> = Vec::new();
        if self.system_prompt.as_str().unicode_len() > 0 {
            let mut content = self.system_prompt.clone();
            if self.context.len() > 0 {
                push_str(&mut content, "\n\n## Context Information\n");
                let ghost start = content@;
                let ghost ctx = self.context_entries();
                let mut i: usize = 0;
                while i < self.context.len()
                    invariant
                        i <= self.context@.len(),
                        ctx == self.context_entries(),
                        content@ == start + context_lines(ctx.subrange(0, i as int)),
                    decreases self.context.len() - i,
                {
                    push_str(&mut content, "- ");
                    push_str(&mut content, self.context[i].0.as_str());
                    push_str(&mut content, ": ");
                    push_str(&mut content, self.context[i].1.as_str());
                    push_str(&mut content, "\n");
                    proof {
                        let sub = ctx.subrange(0, i + 1);
                        assert(sub.drop_last() =~= ctx.subrange(0, i as int));
                        assert(content@ =~= start + context_lines(sub));
                    }
                    i = i + 1;
                }
                assert(ctx.subrange(0, ctx.len() as int) =~= ctx);
            }
            messages.push(new_message("system", content, None));
        }
        let ghost prefix = message_views(messages@);
        let mut i: usize = 0;
        while i < self.conversation.len()
            invariant
                i <= self.conversation@.len(),
                message_views(messages@) == prefix + self.conversation_view().subrange(0, i as int),
            decreases self.conversation.len() - i,
        {
            let ghost before = messages@;
            let m = self.conversation[i].clone();
            messages.push(m);
            proof {
                assert(messages@ == before.push(m));
                assert(m@ == self.conversation_view()[i as int]);
                assert(message_views(messages@) == message_views(before).push(m@));
                assert(message_views(messages@) =~= prefix + self.conversation_view().subrange(0, i + 1));
            }
            i = i + 1;
        }
        assert(self.conversation_view().subrange(0, self.conversation@.len() as int) =~= self.conversation_view());
        assert(prefix.len() == 0 ==> prefix + self.conversation_view() =~= self.conversation_view());
        messages
    }

    /// The tool schemas, in the order they were added.
    pub fn build_tool_schemas(&self) -> (r: Vec<serde_json::Value>)
        ensures
            r@ == self.tools_view(),
    {
        let mut r: Vec<serde_json::Value> = Vec::new();
        let mut i: usize = 0;
        while i < self.tools.len()
            invariant
                i <= self.tools@.len(),
                r@ == self.tools@.take(i as int),
            decreases self.tools.len() - i,
        {
            r.push(self.tools[i].clone());
            assert(self.tools@.take(i + 1) =~= self.tools@.take(i as int).push(self.tools@[i as int]));
            i = i + 1;
        }
        assert(self.tools@.take(self.tools@.len() as int) =~= self.tools@);
        r
    }
}

/// The history and tool-round counter of a conversation, and where its current turn
/// stands.
pub struct Conversation {
    history: Vec<Message>,
    iteration: usize,
    usage: TokenUsage,
    phase: TurnPhase,
}

/// Where a turn stands, with what it keeps until the outside work is done.
enum TurnPhase {
    Idle,
    AwaitingReply,
    AwaitingTools { content: String, reasoning: Option<String>, calls: Option<Vec<ToolCall>> },
    AwaitingInline { content: String, reasoning: Option<String>, usage: TokenUsage },
}

/// Where a turn stands: no turn under way; waiting for the model's reply; waiting for
/// the outcomes of a round of tool calls (with the messages the round's request adds to
/// the history); waiting for the outcomes of inline calls (with the reply's text, its
/// reasoning and the usage it reported).
pub enum TurnPhaseView {
    Idle,
    AwaitingReply,
    AwaitingTools(Seq<MessageView>),
    AwaitingInline(Seq<char>, Option<Seq<char>>, TokenUsage),
}

/// What a turn does next.
#[derive(Debug)]
pub enum TurnStep {
    /// Send a request to the model and hand its reply to `on_reply`.
    Request,
    /// Run these tool calls (id, name, arguments), in order, and hand their outcomes to
    /// `on_tool_results`.
    RunTools(Vec<(String, String, String)>),
    /// Run these inline calls, in order, and hand their outcomes to `on_inline_results`.
    RunInline(Vec<InlineCall>),
    /// The turn is over; this is its answer.
    Done(String),
}

/// The value of a turn's next step.
pub enum TurnStepView {
    Request,
    RunTools(Seq<(Seq<char>, Seq<char>, Seq<char>)>),
    RunInline(Seq<(Seq<char>, Seq<char>, Seq<char>)>),
    Done(Seq<char>),
}

impl View for TurnStep {
    type V = TurnStepView;

    open spec fn view(&self) -> TurnStepView {
        match self {
            TurnStep::Request => TurnStepView::Request,
            TurnStep::RunTools(v) => TurnStepView::RunTools(v@.map_values(|x: (String, String, String)| (x.0@, x.1@, x.2@))),
            TurnStep::RunInline(v) => TurnStepView::RunInline(inline_views(v@)),
            TurnStep::Done(s) => TurnStepView::Done(s@),
        }
    }
}

/// The step after `rounds` rounds of tools in a turn: another request while fewer than
/// `MAX_TOOL_ITERATIONS` were taken, else the end of the turn with `limit_reply`.
pub open spec fn step_after_rounds(rounds: nat) -> TurnStepView {
    if rounds < MAX_TOOL_ITERATIONS {
        TurnStepView::Request
    } else {
        TurnStepView::Done(limit_reply())
    }
}

/// The number of rounds after which a turn whose every reply asks for tools ends,
/// counting on from `rounds` rounds taken.
pub open spec fn rounds_until_done(rounds: nat) -> nat
    decreases MAX_TOOL_ITERATIONS - rounds,
{
    if rounds < MAX_TOOL_ITERATIONS {
        rounds_until_done(rounds + 1)
    } else {
        rounds
    }
}

/// The messages a round's request adds to the history: the assistant's message with its
/// calls, when they could be read; else none.
pub open spec fn round_request(content: Seq<char>, calls: Option<Seq<ToolCallView>>, reasoning: Option<Seq<char>>) -> Seq<MessageView> {
    match calls {
        Some(c) => seq![tool_request_message(content, c, reasoning)],
        None => Seq::empty(),
    }
}

/// The usage a turn keeps after a reply: the counts the reply reported, else `before`.
pub open spec fn usage_after(anthropic: bool, reported: Option<(Option<u64>, Option<u64>, Option<u64>)>, before: TokenUsage) -> TokenUsage {
    match reported {
        Some((p, c, t)) => {
            let u = spec_usage(anthropic, p, c, t);
            TokenUsage { prompt_tokens: u.0, completion_tokens: u.1, total_tokens: u.2 }
        },
        None => before,
    }
}

/// The tool calls written inline in a reply's text, in order.
pub open spec fn inline_calls_in(content: Seq<char>) -> Seq<(Seq<char>, Seq<char>, Seq<char>)> {
    match regex_captures(INLINE_CALL_PATTERN@, content) {
        Some(caps) => calls_of(caps),
        None => Seq::empty(),
    }
}

/// Whether a reply asks for a round of tool calls: it has a non-empty list of calls.
pub open spec fn asks_for_tools(calls: Option<Seq<crate::agent::reply::CallFieldsView>>) -> bool {
    match calls {
        Some(c) => c.len() > 0,
        None => false,
    }
}

/// The message recorded for an assistant reply that asked for tools.
pub open spec fn tool_request_message(content: Seq<char>, calls: Seq<ToolCallView>, reasoning: Option<Seq<char>>) -> MessageView {
    MessageView { role: "assistant"@, content, tool_calls: Some(calls), tool_call_id: None, reasoning }
}

/// The message recorded for a tool's output.
pub open spec fn tool_result_message(r: (Seq<char>, Seq<char>)) -> MessageView {
    MessageView { role: "tool"@, content: r.1, tool_calls: None, tool_call_id: Some(r.0), reasoning: None }
}

/// The assistant's request message when its calls could be read, else nothing.
pub open spec fn request_part(content: Seq<char>, calls: Option<Vec<ToolCall>>, reasoning: Option<Seq<char>>) -> Seq<MessageView> {
    match calls {
        Some(c) => seq![tool_request_message(content, call_views(c@), reasoning)],
        None => Seq::empty(),
    }
}

/// The views of tool results: call id and content.
pub open spec fn result_views(v: Seq<ToolCallResult>) -> Seq<(Seq<char>, Seq<char>)> {
    v.map_values(|r: ToolCallResult| (r.tool_call_id@, r.content@))
}

/// The reply of a turn that ran out of tool rounds.
pub open spec fn limit_reply() -> Seq<char> {
    "已达到最大工具调用次数限制"@
}

impl Conversation {
    /// The messages so far, oldest first.
    pub closed spec fn history_view(&self) -> Seq<MessageView> {
        message_views(self.history@)
    }

    /// The tool rounds taken in the current turn.
    pub closed spec fn iteration_view(&self) -> nat {
        self.iteration as nat
    }

    /// The token usage of the last finished turn.
    pub closed spec fn usage_view(&self) -> TokenUsage {
        self.usage
    }

    /// Where the current turn stands.
    pub closed spec fn phase_view(&self) -> TurnPhaseView {
        match self.phase {
            TurnPhase::Idle => TurnPhaseView::Idle,
            TurnPhase::AwaitingReply => TurnPhaseView::AwaitingReply,
            TurnPhase::AwaitingTools { content, reasoning, calls } => TurnPhaseView::AwaitingTools(
                request_part(content@, calls, opt_text(reasoning)),
            ),
            TurnPhase::AwaitingInline { content, reasoning, usage } => TurnPhaseView::AwaitingInline(
                content@,
                opt_text(reasoning),
                usage,
            ),
        }
    }

    /// An empty conversation with zero usage.
    pub fn new() -> (r: Self)
        ensures
            r.history_view() == Seq::<MessageView>::empty(),
            r.iteration_view() == 0,
            r.usage_view() == (TokenUsage { prompt_tokens: 0, completion_tokens: 0, total_tokens: 0 }),
            r.phase_view() == TurnPhaseView::Idle,
    {
        let r = Conversation {
            history: Vec::new(),
            iteration: 0,
            usage: TokenUsage { prompt_tokens: 0, completion_tokens: 0, total_tokens: 0 },
            phase: TurnPhase::Idle,
        };
        assert(r.history_view() =~= Seq::<MessageView>::empty());
        r
    }

    /// Starts a turn: records the user's message and resets the round counter.
    pub fn begin_turn(&mut self, user_message: &str)
        ensures
            final(self).history_view() == old(self).history_view().push(plain_message("user"@, user_message@, None)),
            final(self).iteration_view() == 0,
            final(self).usage_view() == old(self).usage_view(),
    {
        let ghost before = self.history@;
        let m = new_message("user", str_to_string(user_message), None);
        self.history.push(m);
        self.iteration = 0;
        assert(self.history@ == before.push(m));
        assert(self.history_view() =~= message_views(before).push(m@));
    }

    /// Whether another request may be sent in this turn; when not, the turn ends with
    /// `limit_reply`.
    pub fn may_request(&self) -> (r: bool)
        ensures
            r == (self.iteration_view() < MAX_TOOL_ITERATIONS),
    {
        self.iteration < MAX_TOOL_ITERATIONS
    }

    /// The reply of a turn that ran out of tool rounds.
    pub fn limit_reached_reply(&self) -> (r: String)
        ensures
            r@ == limit_reply(),
    {
        str_to_string("已达到最大工具调用次数限制")
    }

    /// Records a round of tool calls: the assistant's request when its calls could be
    /// read, then one tool message per result, in order; counts the round.
    #[verifier::loop_isolation(false)]
    pub fn record_tool_round(
        &mut self,
        content: String,
        reasoning: Option<String>,
        calls: Option<Vec<ToolCall>>,
        results: Vec<ToolCallResult>,
    )
        requires
            old(self).iteration_view() < MAX_TOOL_ITERATIONS,
        ensures
            final(self).history_view() == old(self).history_view() + request_part(content@, calls, opt_text(reasoning))
                + result_views(results@).map_values(|r: (Seq<char>, Seq<char>)| tool_result_message(r)),
            final(self).iteration_view() == old(self).iteration_view() + 1,
            final(self).usage_view() == old(self).usage_view(),
            final(self).phase_view() == old(self).phase_view(),
    {
        let ghost h0 = self.history_view();
        let ghost request = request_part(content@, calls, opt_text(reasoning));
        if let Some(c) = calls {
            let ghost before = self.history@;
            let m = Message {
                role: str_to_string("assistant"),
                content,
                tool_calls: Some(c),
                tool_call_id: None,
                reasoning,
            };
            self.history.push(m);
            assert(self.history@ == before.push(m));
        }
        assert(self.history_view() =~= h0 + request);
        let ghost h1 = self.history_view();
        let ghost rs = result_views(results@).map_values(|r: (Seq<char>, Seq<char>)| tool_result_message(r));
        let mut i: usize = 0;
        while i < results.len()
            invariant
                i <= results@.len(),
                rs == result_views(results@).map_values(|r: (Seq<char>, Seq<char>)| tool_result_message(r)),
                self.iteration == old(self).iteration,
                self.usage == old(self).usage,
                self.phase == old(self).phase,
                self.history_view() == h1 + rs.subrange(0, i as int),
            decreases results.len() - i,
        {
            let ghost before = self.history@;
            let m = Message {
                role: str_to_string("tool"),
                content: results[i].content.clone(),
                tool_calls: None,
                tool_call_id: Some(results[i].tool_call_id.clone()),
                reasoning: None,
            };
            self.history.push(m);
            proof {
                assert(self.history@ == before.push(m));
                assert(m@ == rs[i as int]);
                assert(self.history_view() == message_views(before).push(m@));
                assert(self.history_view() =~= h1 + rs.subrange(0, i + 1));
            }
            i = i + 1;
        }
        assert(rs.subrange(0, rs.len() as int) =~= rs);
        self.iteration = self.iteration + 1;
    }

    /// Ends the turn: records the assistant's answer and the token usage, and returns the answer.
    pub fn finish_turn(&mut self, content: String, reasoning: Option<String>, usage: TokenUsage) -> (r: String)
        ensures
            r@ == content@,
            final(self).history_view() == old(self).history_view().push(plain_message("assistant"@, content@, opt_text(reasoning))),
            final(self).iteration_view() == old(self).iteration_view(),
            final(self).usage_view() == usage,
            final(self).phase_view() == old(self).phase_view(),
    {
        let ghost before = self.history@;
        let reply = content.clone();
        let m = new_message("assistant", content, reasoning);
        self.history.push(m);
        self.usage = usage;
        assert(self.history@ == before.push(m));
        assert(self.history_view() =~= message_views(before).push(m@));
        reply
    }

    /// The token usage of the last finished turn.
    pub fn usage(&self) -> (r: TokenUsage)
        ensures
            r == self.usage_view(),
    {
        self.usage
    }

    /// The messages so far, oldest first.
    pub fn history(&self) -> (r: &Vec<Message>)
        ensures
            message_views(r@) == self.history_view(),
    {
        &self.history
    }

    /// Starts a turn with the user's message: records it, resets the round counter, and
    /// asks for a request to the model.
    pub fn start_turn(&mut self, user_message: &str) -> (r: TurnStep)
        ensures
            final(self).history_view() == old(self).history_view().push(plain_message("user"@, user_message@, None)),
            final(self).iteration_view() == 0,
            final(self).usage_view() == old(self).usage_view(),
            r@ == step_after_rounds(0),
            final(self).phase_view() == TurnPhaseView::AwaitingReply,
    {
        self.begin_turn(user_message);
        self.phase = TurnPhase::AwaitingReply;
        TurnStep::Request
    }

    /// Takes the model's reply. When it asks for tools, the round's calls are to be run
    /// (the request is recorded with their outcomes); else, with Ollama (`ollama`), the
    /// calls written inline in its text are to be run; else the turn ends with its text.
    /// The usage the reply reports is kept when the turn ends.
    pub fn on_reply(&mut self, reply: ModelReply, ollama: bool, anthropic: bool) -> (r: TurnStep)
        requires
            old(self).phase_view() == TurnPhaseView::AwaitingReply,
        ensures
            final(self).iteration_view() == old(self).iteration_view(),
            ({
                let rv = reply@;
                let usage = usage_after(anthropic, rv.usage, old(self).usage_view());
                if asks_for_tools(rv.calls) {
                    let cs = rv.calls->Some_0;
                    &&& r@ == TurnStepView::RunTools(runs_of(cs))
                    &&& final(self).phase_view() == TurnPhaseView::AwaitingTools(round_request(rv.content, recorded_calls(cs), rv.reasoning))
                    &&& final(self).history_view() == old(self).history_view()
                    &&& final(self).usage_view() == old(self).usage_view()
                } else if ollama {
                    &&& r@ == TurnStepView::RunInline(inline_calls_in(rv.content))
                    &&& final(self).phase_view() == TurnPhaseView::AwaitingInline(rv.content, rv.reasoning, usage)
                    &&& final(self).history_view() == old(self).history_view()
                    &&& final(self).usage_view() == old(self).usage_view()
                } else {
                    &&& r@ == TurnStepView::Done(rv.content)
                    &&& final(self).phase_view() == TurnPhaseView::Idle
                    &&& final(self).history_view() == old(self).history_view().push(plain_message("assistant"@, rv.content, rv.reasoning))
                    &&& final(self).usage_view() == usage
                }
            }),
    {
        let ghost rv = reply@;
        let ModelReply { content, reasoning, calls, usage } = reply;
        let new_usage = match usage {
            Some((p, c, t)) => usage_from_counts(anthropic, p, c, t),
            None => self.usage,
        };
        let asks = match &calls {
            Some(cs) => cs.len() > 0,
            None => false,
        };
        if asks {
            let cs = calls.unwrap();
            let (runs, recorded) = tool_round(&cs);
            assert(request_part(content@, recorded, opt_text(reasoning)) == round_request(rv.content, recorded_calls(call_field_views(cs@)), rv.reasoning));
            self.phase = TurnPhase::AwaitingTools { content, reasoning, calls: recorded };
            TurnStep::RunTools(runs)
        } else if ollama {
            let found = find_inline_tool_calls(content.as_str());
            proof {
                if regex_captures(INLINE_CALL_PATTERN@, content@) is None {
                    assert(inline_views(found@) =~= Seq::<(Seq<char>, Seq<char>, Seq<char>)>::empty());
                }
            }
            self.phase = TurnPhase::AwaitingInline { content, reasoning, usage: new_usage };
            TurnStep::RunInline(found)
        } else {
            let answer = self.finish_turn(content, reasoning, new_usage);
            self.phase = TurnPhase::Idle;
            TurnStep::Done(answer)
        }
    }

    /// Takes the outcomes of a round of tool calls: records the round's request and one
    /// tool message per outcome, in order, and counts the round; the next step is another
    /// request while fewer than `MAX_TOOL_ITERATIONS` rounds were taken, else the turn ends
    /// with `limit_reply`.
    pub fn on_tool_results(&mut self, results: Vec<ToolCallResult>) -> (r: TurnStep)
        requires
            old(self).phase_view() is AwaitingTools,
            old(self).iteration_view() < MAX_TOOL_ITERATIONS,
        ensures
            final(self).history_view() == old(self).history_view() + old(self).phase_view()->AwaitingTools_0
                + result_views(results@).map_values(|r: (Seq<char>, Seq<char>)| tool_result_message(r)),
            final(self).iteration_view() == old(self).iteration_view() + 1,
            final(self).usage_view() == old(self).usage_view(),
            r@ == step_after_rounds(final(self).iteration_view()),
            final(self).phase_view() == if r is Request { TurnPhaseView::AwaitingReply } else { TurnPhaseView::Idle },
    {
        let mut phase = TurnPhase::Idle;
        std::mem::swap(&mut phase, &mut self.phase);
        match phase {
            TurnPhase::AwaitingTools { content, reasoning, calls } => {
                self.record_tool_round(content, reasoning, calls, results);
            },
            _ => {},
        }
        if self.may_request() {
            self.phase = TurnPhase::AwaitingReply;
            TurnStep::Request
        } else {
            TurnStep::Done(self.limit_reached_reply())
        }
    }

    /// Takes the outcomes of the inline calls: the turn ends with the reply they were
    /// merged into, recorded with the reply's reasoning and usage.
    pub fn on_inline_results(&mut self, ran: Vec<(InlineCall, Result<String, String>)>) -> (r: TurnStep)
        requires
            old(self).phase_view() is AwaitingInline,
        ensures
            ({
                let content = old(self).phase_view()->AwaitingInline_0;
                let reasoning = old(self).phase_view()->AwaitingInline_1;
                let usage = old(self).phase_view()->AwaitingInline_2;
                &&& r@ == TurnStepView::Done(merged_reply(content, ran_views(ran@)))
                &&& final(self).history_view() == old(self).history_view().push(
                    plain_message("assistant"@, merged_reply(content, ran_views(ran@)), reasoning),
                )
                &&& final(self).usage_view() == usage
            }),
            final(self).iteration_view() == old(self).iteration_view(),
            final(self).phase_view() == TurnPhaseView::Idle,
    {
        let mut phase = TurnPhase::Idle;
        std::mem::swap(&mut phase, &mut self.phase);
        match phase {
            TurnPhase::AwaitingInline { content, reasoning, usage } => {
                let merged = merge_inline_results(content.as_str(), &ran);
                TurnStep::Done(self.finish_turn(merged, reasoning, usage))
            },
            _ => TurnStep::Done(String::new()),
        }
    }
}

proof fn lemma_rounds_until_done(rounds: nat)
    requires
        rounds <= MAX_TOOL_ITERATIONS,
    ensures
        rounds_until_done(rounds) == MAX_TOOL_ITERATIONS,
    decreases MAX_TOOL_ITERATIONS - rounds,
{
    if rounds < MAX_TOOL_ITERATIONS {
        lemma_rounds_until_done(rounds + 1);
    }
}

/// A turn whose every reply asks for tools sends exactly `MAX_TOOL_ITERATIONS` requests
/// and then answers with the limit reply: it starts with a request (the step after no
/// rounds); after each round of tools the next step is another request while fewer than
/// `MAX_TOOL_ITERATIONS` rounds were taken; the turn ends after round
/// `MAX_TOOL_ITERATIONS` with `limit_reply`, so no request follows the last round.
pub proof fn law_tool_rounds_limit()
    ensures
        step_after_rounds(0) == TurnStepView::Request,
        rounds_until_done(0) == MAX_TOOL_ITERATIONS,
        forall|k: nat| k < MAX_TOOL_ITERATIONS ==> #[trigger] step_after_rounds(k) == TurnStepView::Request,
        step_after_rounds(MAX_TOOL_ITERATIONS as nat) == TurnStepView::Done(limit_reply()),
{
    lemma_rounds_until_done(0);
}

} // verus!
