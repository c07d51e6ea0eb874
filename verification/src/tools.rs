//! The agent's built-in tools: a registry of tools by name, and the tools that only
//! compute: the calculator, text processing, JSON processing and the to-do list's
//! changes. Tools that touch files, the network, the shell or the clock are run outside
//! the library.

use vstd::prelude::*;
use crate::audit::opt_view;
use crate::json::{json_null, json_value_of, parse_json};
use crate::store::{record_entries, Record, Store};
use crate::sentences::{trim_str, trim_ws};
use crate::text::{
    seq_contains, chars_of, concat3, join_strings, joined, lowercase, nat_decimal, push_str, push_u64_decimal,
    split_kept, split_text, str_eq, str_to_string, string_from_chars, string_views, to_lowercase,
};

verus! {

// ----- Reading tool arguments -----

/// The message of serde_json's error when `text` is not JSON; none when it is.
pub uninterp spec fn json_syntax_error(text: Seq<char>) -> Option<Seq<char>>;

/// `serde_json::from_str` into a `Value`, keeping only its error's message. The result
/// is named `json_syntax_error` of the text.
#[verifier::external_body]
pub(crate) fn json_error(text: &str) -> (r: Option<String>)
    ensures
        opt_view(r) == json_syntax_error(text@),
{
    serde_json::from_str::<serde_json::Value>(text).err().map(|e| e.to_string())
}

/// The string held under `key` in the JSON object `text`; none when the text is not
/// JSON, or holds no such member, or the member is not a string.
pub uninterp spec fn json_str_member(text: Seq<char>, key: Seq<char>) -> Option<Seq<char>>;

/// `serde_json::from_str` into a `Value`, then `get(key)` and `as_str`. The result is
/// named `json_str_member` of the text and the key.
#[verifier::external_body]
fn str_member(text: &str, key: &str) -> (r: Option<String>)
    ensures
        opt_view(r) == json_str_member(text@, key@),
{
    let v: serde_json::Value = serde_json::from_str(text).ok()?;
    v.get(key).and_then(|m| m.as_str()).map(|m| m.to_string())
}

/// The unsigned integer held under `key` in the JSON object `text`; none when the text
/// is not JSON, or holds no such member, or the member is not an unsigned integer.
pub uninterp spec fn json_u64_member(text: Seq<char>, key: Seq<char>) -> Option<u64>;

/// `serde_json::from_str` into a `Value`, then `get(key)` and `as_u64`. The result is
/// named `json_u64_member` of the text and the key.
#[verifier::external_body]
fn u64_member(text: &str, key: &str) -> (r: Option<u64>)
    ensures
        r == json_u64_member(text@, key@),
{
    let v: serde_json::Value = serde_json::from_str(text).ok()?;
    v.get(key).and_then(|m| m.as_u64())
}

/// What `serde_json::to_string_pretty` writes for the JSON value `text` holds: the
/// indented text, or the message of the error met on the way.
pub uninterp spec fn json_pretty(text: Seq<char>) -> Result<Seq<char>, Seq<char>>;

/// `serde_json::from_str` into a `Value`, then `serde_json::to_string_pretty`. The
/// result is named `json_pretty` of the text.
#[verifier::external_body]
fn pretty_json(text: &str) -> (r: Result<String, String>)
    ensures
        json_pretty(text@) == match r {
            Ok(s) => Ok(s@),
            Err(e) => Err(e@),
        },
{
    let v: serde_json::Value = serde_json::from_str(text).map_err(|e| e.to_string())?;
    serde_json::to_string_pretty(&v).map_err(|e| e.to_string())
}

/// The keys of the JSON object `text` holds, in the order serde_json's map keeps them;
/// none when the text is not a JSON object.
pub uninterp spec fn json_object_keys(text: Seq<char>) -> Option<Seq<Seq<char>>>;

/// `serde_json::from_str` into a `Value`, then `as_object` and its keys. The result is
/// named `json_object_keys` of the text.
#[verifier::external_body]
fn object_keys(text: &str) -> (r: Option<Vec<String>>)
    ensures
        match r {
            Some(ks) => json_object_keys(text@) == Some(string_views(ks@)),
            None => json_object_keys(text@) is None,
        },
{
    let v: serde_json::Value = serde_json::from_str(text).ok()?;
    v.as_object().map(|o| o.keys().cloned().collect())
}

// ----- The calculator -----

/// What evalexpr's `eval` gives for an expression: its value as `Display` writes it, or
/// its error's message.
pub uninterp spec fn evalexpr_result(expr: Seq<char>) -> Result<Seq<char>, Seq<char>>;

/// The names of evalexpr's built-in functions that can panic instead of failing:
/// `str::substring` slices off a character boundary on non-ASCII text, `shl` and `shr`
/// overflow on a shift of 64 or more, and `math::abs` overflows on the least `i64`.
pub open spec fn panicking_builtins() -> Seq<Seq<char>> {
    seq!["str::substring"@, "shl"@, "shr"@, "math::abs"@]
}

/// The longest expression the calculator evaluates. evalexpr builds and evaluates its
/// tree by recursion, one level per bracket, unary operator or chained operator, with no
/// limit of its own: a longer text could overflow the stack.
pub const MAX_EXPRESSION_LEN: usize = 1024;

/// Whether an expression is one the calculator evaluates: at most `MAX_EXPRESSION_LEN`
/// characters long, and naming none of the built-in functions that can panic.
pub open spec fn safe_expression(expr: Seq<char>) -> bool {
    &&& expr.len() <= MAX_EXPRESSION_LEN
    &&& forall|i: int| 0 <= i < panicking_builtins().len() ==> !seq_contains(expr, #[trigger] panicking_builtins()[i])
}

/// `evalexpr::eval`, with the value or the error written by `Display`. The result is
/// named `evalexpr_result` of the expression. Expressions that name a built-in function
/// that can panic, and expressions long enough to nest deeper than the stack allows, are
/// left out.
#[verifier::external_body]
fn eval_expression(expr: &str) -> (r: Result<String, String>)
    requires
        safe_expression(expr@),
    ensures
        evalexpr_result(expr@) == match r {
            Ok(s) => Ok(s@),
            Err(e) => Err(e@),
        },
{
    evalexpr::eval(expr).map(|v| format!("{}", v)).map_err(|e| format!("{}", e))
}

/// What the calculator answers for the evaluation result of its expression: the value,
/// or a note that evaluation failed.
pub open spec fn calculator_answer(res: Result<Seq<char>, Seq<char>>) -> Seq<char> {
    match res {
        Ok(v) => v,
        Err(e) => "Error evaluating expression: "@ + e,
    }
}

/// The note the calculator answers for an expression it does not evaluate.
pub open spec fn unsupported_expression() -> Seq<char> {
    "Error evaluating expression: expressions longer than 1024 characters and the functions str::substring, shl, shr and math::abs are not supported"@
}

/// The calculator's reply to the argument text `args`: an error when the text is not
/// JSON or names no expression; a note when the expression is longer than
/// `MAX_EXPRESSION_LEN` or names a built-in function that can panic; else the answer for
/// its expression.
pub open spec fn calculator_reply(args: Seq<char>) -> Result<Seq<char>, Seq<char>> {
    match json_syntax_error(args) {
        Some(e) => Err(e),
        None => match json_str_member(args, "expression"@) {
            None => Err("Missing 'expression' parameter"@),
            Some(x) => if safe_expression(x) {
                Ok(calculator_answer(evalexpr_result(x)))
            } else {
                Ok(unsupported_expression())
            },
        },
    }
}

/// Whether an expression is one the calculator evaluates.
pub fn is_safe_expression(expr: &str) -> (r: bool)
    ensures
        r == safe_expression(expr@),
{
    if chars_of(expr).len() > MAX_EXPRESSION_LEN {
        return false;
    }
    let names = vec![str_to_string("str::substring"), str_to_string("shl"), str_to_string("shr"), str_to_string("math::abs")];
    assert(string_views(names@) =~= panicking_builtins());
    let mut i: usize = 0;
    while i < names.len()
        invariant
            i <= names@.len(),
            string_views(names@) == panicking_builtins(),
            forall|j: int| 0 <= j < i ==> !seq_contains(expr@, #[trigger] panicking_builtins()[j]),
        decreases names.len() - i,
    {
        assert(string_views(names@)[i as int] == names@[i as int]@);
        if crate::text::str_contains(expr, names[i].as_str()) {
            return false;
        }
        i = i + 1;
    }
    true
}

/// The calculator's answer for an evaluation result.
pub fn calculator_answer_for(res: Result<String, String>) -> (r: String)
    ensures
        r@ == calculator_answer(match res {
            Ok(s) => Ok(s@),
            Err(e) => Err(e@),
        }),
{
    proof {
        reveal_strlit("");
    }
    match res {
        Ok(v) => v,
        Err(e) => concat3("Error evaluating expression: ", e.as_str(), ""),
    }
}

/// The calculator tool: evaluates the `expression` of its JSON arguments.
pub fn calculator(args: &str) -> (r: Result<String, String>)
    ensures
        calculator_reply(args@) == match r {
            Ok(s) => Ok(s@),
            Err(e) => Err(e@),
        },
{
    if let Some(e) = json_error(args) {
        return Err(e);
    }
    match str_member(args, "expression") {
        None => Err(str_to_string("Missing 'expression' parameter")),
        Some(x) => {
            if !is_safe_expression(x.as_str()) {
                return Ok(str_to_string("Error evaluating expression: expressions longer than 1024 characters and the functions str::substring, shl, shr and math::abs are not supported"));
            }
            let res = eval_expression(x.as_str());
            proof {
                reveal_strlit("");
            }
            let a = calculator_answer_for(res);
            Ok(a)
        },
    }
}

// ----- Text processing -----

/// The upper-case form of a text, as std's `str::to_uppercase` computes it (Unicode case
/// mapping, which tables of many pages define).
pub uninterp spec fn uppercase(s: Seq<char>) -> Seq<char>;

/// std's `str::to_uppercase`. Its result is named `uppercase` of the argument.
#[verifier::external_body]
fn to_uppercase(s: &str) -> (r: String)
    ensures
        r@ == uppercase(s@),
{
    s.to_uppercase()
}

/// The number of line feeds in a text.
pub open spec fn newline_count(s: Seq<char>) -> nat
    decreases s.len(),
{
    if s.len() == 0 {
        0
    } else {
        newline_count(s.drop_last()) + if s.last() == '\n' { 1nat } else { 0nat }
    }
}

/// The number of lines std's `str::lines` yields: one per line feed, and one more for
/// text after the last line feed.
pub open spec fn line_count(s: Seq<char>) -> nat {
    newline_count(s) + if s.len() > 0 && s.last() != '\n' { 1nat } else { 0nat }
}

/// The word, character and line counts of a text, as the text tool reports them.
pub open spec fn count_report(text: Seq<char>) -> Seq<char> {
    "Words: "@ + nat_decimal(split_kept(text, false, 0).len()) + ", Characters: "@
        + nat_decimal(text.len()) + ", Lines: "@ + nat_decimal(line_count(text))
}

/// What the text tool does with `action` on `text`.
pub open spec fn text_action_result(action: Seq<char>, text: Seq<char>) -> Result<Seq<char>, Seq<char>> {
    if action == "count"@ {
        Ok(count_report(text))
    } else if action == "uppercase"@ {
        Ok(uppercase(text))
    } else if action == "lowercase"@ {
        Ok(lowercase(text))
    } else if action == "reverse"@ {
        Ok(text.reverse())
    } else if action == "trim"@ {
        Ok(trim_ws(text))
    } else {
        Err("Unknown action: "@ + action)
    }
}

/// The text tool's reply to the argument text `args`: an error when it is not JSON, else
/// its `action` (by default `count`) applied to its `text` (by default empty).
pub open spec fn text_tool_reply(args: Seq<char>) -> Result<Seq<char>, Seq<char>> {
    match json_syntax_error(args) {
        Some(e) => Err("Invalid arguments: "@ + e),
        None => text_action_result(
            match json_str_member(args, "action"@) {
                Some(a) => a,
                None => "count"@,
            },
            match json_str_member(args, "text"@) {
                Some(t) => t,
                None => Seq::empty(),
            },
        ),
    }
}

proof fn lemma_newline_count_bound(s: Seq<char>)
    ensures
        newline_count(s) <= s.len(),
    decreases s.len(),
{
    if s.len() > 0 {
        lemma_newline_count_bound(s.drop_last());
    }
}

/// The number of lines of a text.
pub fn count_lines(cs: &Vec<char>) -> (n: usize)
    ensures
        n == line_count(cs@),
{
    let mut n: usize = 0;
    let mut i: usize = 0;
    while i < cs.len()
        invariant
            i <= cs@.len(),
            n == newline_count(cs@.take(i as int)),
            n <= i,
        decreases cs.len() - i,
    {
        assert(cs@.take(i + 1).drop_last() =~= cs@.take(i as int));
        if cs[i] == '\n' {
            n = n + 1;
        }
        i = i + 1;
    }
    assert(cs@.take(cs@.len() as int) =~= cs@);
    if cs.len() > 0 && cs[cs.len() - 1] != '\n' {
        proof {
            lemma_newline_count_bound(cs@.drop_last());
        }
        n = n + 1;
    }
    n
}

/// The characters of a text in reverse order.
pub fn reversed(cs: &Vec<char>) -> (r: Vec<char>)
    ensures
        r@ == cs@.reverse(),
{
    let mut r: Vec<char> = Vec::new();
    let mut i: usize = cs.len();
    while i > 0
        invariant
            i <= cs@.len(),
            r@.len() == cs@.len() - i,
            forall|k: int| 0 <= k < r@.len() ==> r@[k] == cs@[cs@.len() - 1 - k],
        decreases i,
    {
        i = i - 1;
        r.push(cs[i]);
    }
    assert(r@ =~= cs@.reverse());
    r
}

/// The word, character and line counts of a text.
pub fn count_text(text: &str) -> (r: String)
    ensures
        r@ == count_report(text@),
{
    let cs = chars_of(text);
    let words = split_text(&cs, false, 0);
    let lines = count_lines(&cs);
    let mut s = str_to_string("Words: ");
    push_u64_decimal(&mut s, words.len() as u64);
    push_str(&mut s, ", Characters: ");
    push_u64_decimal(&mut s, cs.len() as u64);
    push_str(&mut s, ", Lines: ");
    push_u64_decimal(&mut s, lines as u64);
    proof {
        assert(string_views(words@).len() == words@.len());
    }
    s
}

/// Applies a text action to a text.
pub fn text_action(action: &str, text: &str) -> (r: Result<String, String>)
    ensures
        text_action_result(action@, text@) == match r {
            Ok(s) => Ok(s@),
            Err(e) => Err(e@),
        },
{
    proof {
        reveal_strlit("count");
        reveal_strlit("uppercase");
        reveal_strlit("lowercase");
        reveal_strlit("reverse");
        reveal_strlit("trim");
        reveal_strlit("");
    }
    if str_eq(action, "count") {
        Ok(count_text(text))
    } else if str_eq(action, "uppercase") {
        Ok(to_uppercase(text))
    } else if str_eq(action, "lowercase") {
        Ok(to_lowercase(text))
    } else if str_eq(action, "reverse") {
        let cs = chars_of(text);
        Ok(string_from_chars(&reversed(&cs)))
    } else if str_eq(action, "trim") {
        Ok(trim_str(text))
    } else {
        Err(concat3("Unknown action: ", action, ""))
    }
}

/// The text tool: counts, changes the case of, reverses or trims the `text` of its
/// JSON arguments, as their `action` says.
pub fn text_tool(args: &str) -> (r: Result<String, String>)
    ensures
        text_tool_reply(args@) == match r {
            Ok(s) => Ok(s@),
            Err(e) => Err(e@),
        },
{
    proof {
        reveal_strlit("");
    }
    if let Some(e) = json_error(args) {
        return Err(concat3("Invalid arguments: ", e.as_str(), ""));
    }
    let action = match str_member(args, "action") {
        Some(a) => a,
        None => str_to_string("count"),
    };
    let text = match str_member(args, "text") {
        Some(t) => t,
        None => String::new(),
    };
    text_action(action.as_str(), text.as_str())
}

// ----- JSON processing -----

/// What the JSON tool does with `action` on the JSON text `data`, which is known to be
/// JSON.
pub open spec fn json_action_result(action: Seq<char>, data: Seq<char>) -> Result<Seq<char>, Seq<char>> {
    if action == "parse"@ || action == "format"@ {
        match json_pretty(data) {
            Ok(p) => Ok(p),
            Err(e) => Err("Failed to format JSON: "@ + e),
        }
    } else if action == "validate"@ {
        Ok("Valid JSON"@)
    } else if action == "keys"@ {
        match json_object_keys(data) {
            Some(ks) => Ok("Keys: "@ + joined(ks, ", "@)),
            None => Ok("Not a JSON object"@),
        }
    } else {
        Err("Unknown action: "@ + action)
    }
}

/// The JSON tool's reply to the argument text `args`: an error when it is not JSON or
/// its `data` (by default empty) is not JSON, else its `action` (by default `parse`)
/// applied to the data.
pub open spec fn json_tool_reply(args: Seq<char>) -> Result<Seq<char>, Seq<char>> {
    let data = match json_str_member(args, "data"@) {
        Some(d) => d,
        None => Seq::empty(),
    };
    match json_syntax_error(args) {
        Some(e) => Err("Invalid arguments: "@ + e),
        None => match json_syntax_error(data) {
            Some(e) => Err("Invalid JSON: "@ + e),
            None => json_action_result(
                match json_str_member(args, "action"@) {
                    Some(a) => a,
                    None => "parse"@,
                },
                data,
            ),
        },
    }
}

/// Applies a JSON action to JSON text.
pub fn json_action(action: &str, data: &str) -> (r: Result<String, String>)
    ensures
        json_action_result(action@, data@) == match r {
            Ok(s) => Ok(s@),
            Err(e) => Err(e@),
        },
{
    proof {
        reveal_strlit("parse");
        reveal_strlit("format");
        reveal_strlit("validate");
        reveal_strlit("keys");
        reveal_strlit("");
    }
    if str_eq(action, "parse") || str_eq(action, "format") {
        match pretty_json(data) {
            Ok(p) => Ok(p),
            Err(e) => Err(concat3("Failed to format JSON: ", e.as_str(), "")),
        }
    } else if str_eq(action, "validate") {
        Ok(str_to_string("Valid JSON"))
    } else if str_eq(action, "keys") {
        match object_keys(data) {
            Some(ks) => {
                let j = join_strings(&ks, ", ");
                Ok(concat3("Keys: ", j.as_str(), ""))
            },
            None => Ok(str_to_string("Not a JSON object")),
        }
    } else {
        Err(concat3("Unknown action: ", action, ""))
    }
}

/// The JSON tool: formats, validates or lists the keys of the `data` of its JSON
/// arguments, as their `action` says.
pub fn json_tool(args: &str) -> (r: Result<String, String>)
    ensures
        json_tool_reply(args@) == match r {
            Ok(s) => Ok(s@),
            Err(e) => Err(e@),
        },
{
    proof {
        reveal_strlit("");
    }
    if let Some(e) = json_error(args) {
        return Err(concat3("Invalid arguments: ", e.as_str(), ""));
    }
    let action = match str_member(args, "action") {
        Some(a) => a,
        None => str_to_string("parse"),
    };
    let data = match str_member(args, "data") {
        Some(d) => d,
        None => String::new(),
    };
    if let Some(e) = json_error(data.as_str()) {
        return Err(concat3("Invalid JSON: ", e.as_str(), ""));
    }
    json_action(action.as_str(), data.as_str())
}

// ----- The to-do list -----

/// The to-do list serde_json reads from the stored text: its strings, or no to-dos when
/// the text is not a JSON list of strings.
pub uninterp spec fn json_string_list(text: Seq<char>) -> Seq<Seq<char>>;

/// `serde_json::from_str::<Vec<String>>`, with `unwrap_or_default`. The result is named
/// `json_string_list` of the text.
#[verifier::external_body]
fn string_list(text: &str) -> (r: Vec<String>)
    ensures
        string_views(r@) == json_string_list(text@),
{
    serde_json::from_str::<Vec<String>>(text).unwrap_or_default()
}

/// What `serde_json::to_string_pretty` writes for a list of strings, or its error's
/// message.
pub uninterp spec fn json_pretty_strings(v: Seq<Seq<char>>) -> Result<Seq<char>, Seq<char>>;

/// `serde_json::to_string_pretty` of a list of strings. The result is named
/// `json_pretty_strings` of the list.
#[verifier::external_body]
fn pretty_strings(v: &Vec<String>) -> (r: Result<String, String>)
    ensures
        json_pretty_strings(string_views(v@)) == match r {
            Ok(s) => Ok(s@),
            Err(e) => Err(e@),
        },
{
    serde_json::to_string_pretty(v).map_err(|e| e.to_string())
}

/// A request to the to-do tool: the action, the task (for `add`) and the 1-based index
/// (for `complete` and `remove`; zero when none was given).
#[derive(Debug)]
pub struct TodoRequest {
    pub action: String,
    pub task: Option<String>,
    pub index: u64,
}

/// The to-do tool's request in the argument text `args`: an error when it is not JSON or
/// names no action.
pub open spec fn todo_request_of(args: Seq<char>) -> Result<(Seq<char>, Option<Seq<char>>, u64), Seq<char>> {
    match json_syntax_error(args) {
        Some(e) => Err(e),
        None => match json_str_member(args, "action"@) {
            None => Err("Missing 'action' parameter"@),
            Some(a) => Ok((
                a,
                json_str_member(args, "task"@),
                match json_u64_member(args, "index"@) {
                    Some(i) => i,
                    None => 0u64,
                },
            )),
        },
    }
}

/// Reads the to-do tool's request from its JSON arguments.
pub fn todo_request(args: &str) -> (r: Result<TodoRequest, String>)
    ensures
        todo_request_of(args@) == match r {
            Ok(q) => Ok((q.action@, opt_view(q.task), q.index)),
            Err(e) => Err(e@),
        },
{
    if let Some(e) = json_error(args) {
        return Err(e);
    }
    match str_member(args, "action") {
        None => Err(str_to_string("Missing 'action' parameter")),
        Some(action) => {
            let task = str_member(args, "task");
            let index = match u64_member(args, "index") {
                Some(i) => i,
                None => 0,
            };
            Ok(TodoRequest { action, task, index })
        },
    }
}

/// The to-dos as the list shows them: `1. first`, `2. second`, ...
pub open spec fn numbered(todos: Seq<Seq<char>>) -> Seq<Seq<char>> {
    Seq::new(todos.len(), |i: int| nat_decimal((i + 1) as nat) + ". "@ + todos[i])
}

/// The listing of the to-dos: one numbered line each, or `No todos`.
pub open spec fn todo_listing(todos: Seq<Seq<char>>) -> Seq<char> {
    if todos.len() == 0 {
        "No todos"@
    } else {
        joined(numbered(todos), "\n"@)
    }
}

/// What a request does to the to-dos: the reply, and the new to-dos when they change.
/// `add` appends the task; `list` lists; `complete` and `remove` take out the to-do at
/// the 1-based index, when there is one.
pub open spec fn todo_change(todos: Seq<Seq<char>>, action: Seq<char>, task: Option<Seq<char>>, index: u64)
    -> Result<(Seq<char>, Option<Seq<Seq<char>>>), Seq<char>>
{
    if action == "add"@ {
        match task {
            None => Err("Missing 'task' for add action"@),
            Some(t) => Ok(("Added todo: "@ + t, Some(todos.push(t)))),
        }
    } else if action == "list"@ {
        Ok((todo_listing(todos), None))
    } else if action == "complete"@ || action == "remove"@ {
        if 0 < index && index <= todos.len() {
            let t = todos[index - 1];
            let verb = if action == "complete"@ { "Completed: "@ } else { "Removed: "@ };
            Ok((verb + t, Some(todos.remove(index - 1))))
        } else {
            Ok(("Invalid index"@, None))
        }
    } else {
        Err("Unknown action: "@ + action)
    }
}

/// The to-do tool's reply to a request, given the stored list's text (none when nothing
/// is stored yet): the reply and the text to store, when the list changed.
pub open spec fn todo_reply(stored: Option<Seq<char>>, action: Seq<char>, task: Option<Seq<char>>, index: u64)
    -> Result<(Seq<char>, Option<Seq<char>>), Seq<char>>
{
    let todos = match stored {
        Some(t) => json_string_list(t),
        None => Seq::empty(),
    };
    match todo_change(todos, action, task, index) {
        Err(e) => Err(e),
        Ok((msg, None)) => Ok((msg, None)),
        Ok((msg, Some(changed))) => match json_pretty_strings(changed) {
            Ok(c) => Ok((msg, Some(c))),
            Err(e) => Err(e),
        },
    }
}

/// The listing of some to-dos.
pub fn list_todos(todos: &Vec<String>) -> (r: String)
    ensures
        r@ == todo_listing(string_views(todos@)),
{
    if todos.len() == 0 {
        proof {
            reveal_strlit("No todos");
        }
        return str_to_string("No todos");
    }
    let ghost tv = string_views(todos@);
    let mut lines: Vec<String> = Vec::new();
    let mut i: usize = 0;
    while i < todos.len()
        invariant
            i <= todos@.len(),
            tv == string_views(todos@),
            string_views(lines@) == numbered(tv).take(i as int),
        decreases todos.len() - i,
    {
        let mut line = String::new();
        push_u64_decimal(&mut line, (i + 1) as u64);
        push_str(&mut line, ". ");
        push_str(&mut line, todos[i].as_str());
        let ghost before = lines@;
        lines.push(line);
        proof {
            assert(string_views(lines@) =~= string_views(before).push(line@));
            assert(numbered(tv).take(i + 1) =~= numbered(tv).take(i as int).push(numbered(tv)[i as int]));
        }
        i = i + 1;
    }
    assert(numbered(tv).take(todos@.len() as int) =~= numbered(tv));
    join_strings(&lines, "\n")
}

/// Carries out a to-do request on the stored list (none when nothing is stored yet):
/// the reply, and the text to store when the list changed.
pub fn apply_todo(stored: Option<&str>, req: &TodoRequest) -> (r: Result<(String, Option<String>), String>)
    ensures
        todo_reply(
            match stored {
                Some(t) => Some(t@),
                None => None,
            },
            req.action@,
            opt_view(req.task),
            req.index,
        ) == match r {
            Ok((m, c)) => Ok((m@, opt_view(c))),
            Err(e) => Err(e@),
        },
{
    proof {
        reveal_strlit("add");
        reveal_strlit("list");
        reveal_strlit("complete");
        reveal_strlit("remove");
        reveal_strlit("");
    }
    let mut todos = match stored {
        Some(t) => string_list(t),
        None => Vec::new(),
    };
    let ghost tv = string_views(todos@);
    proof {
        if stored is None {
            assert(tv =~= Seq::<Seq<char>>::empty());
        }
    }
    let action = req.action.as_str();
    if str_eq(action, "add") {
        match &req.task {
            None => Err(str_to_string("Missing 'task' for add action")),
            Some(t) => {
                todos.push(t.clone());
                proof {
                    assert(string_views(todos@) =~= tv.push(t@));
                }
                match pretty_strings(&todos) {
                    Ok(c) => Ok((concat3("Added todo: ", t.as_str(), ""), Some(c))),
                    Err(e) => Err(e),
                }
            },
        }
    } else if str_eq(action, "list") {
        Ok((list_todos(&todos), None))
    } else if str_eq(action, "complete") || str_eq(action, "remove") {
        if req.index > 0 && req.index <= todos.len() as u64 {
            let k = (req.index - 1) as usize;
            let t = todos.remove(k);
            proof {
                assert(string_views(todos@) =~= tv.remove(k as int));
            }
            match pretty_strings(&todos) {
                Ok(c) => {
                    let verb = if str_eq(action, "complete") { "Completed: " } else { "Removed: " };
                    proof {
                        reveal_strlit("Completed: ");
                        reveal_strlit("Removed: ");
                    }
                    Ok((concat3(verb, t.as_str(), ""), Some(c)))
                },
                Err(e) => Err(e),
            }
        } else {
            Ok((str_to_string("Invalid index"), None))
        }
    } else {
        Err(concat3("Unknown action: ", action, ""))
    }
}

// ----- The registry -----

/// A registered tool: its name, what it does, and its schema as the model is shown it.
#[derive(Debug)]
pub struct ToolEntry {
    pub name: String,
    pub description: String,
    pub schema: serde_json::Value,
}

/// The value of a registered tool.
pub struct ToolEntryView {
    pub name: Seq<char>,
    pub description: Seq<char>,
    pub schema: serde_json::Value,
}

impl View for ToolEntry {
    type V = ToolEntryView;

    open spec fn view(&self) -> ToolEntryView {
        ToolEntryView { name: self.name@, description: self.description@, schema: self.schema }
    }
}

impl Record for ToolEntry {
    open spec fn key_of(v: ToolEntryView) -> Seq<char> {
        v.name
    }

    fn key(&self) -> (r: &str) {
        self.name.as_str()
    }

    fn duplicate(&self) -> (r: Self) {
        ToolEntry { name: self.name.clone(), description: self.description.clone(), schema: self.schema.clone() }
    }
}

/// How a call of a registered tool is carried out.
#[derive(Debug)]
pub enum ToolRun {
    /// The tool only computes; this is its reply.
    Done(Result<String, String>),
    /// The tool reads or changes the world (files, the network, the shell, the clock):
    /// the caller runs it.
    External,
}

/// The tools that only compute, by name: the calculator, the text tool and the JSON tool.
pub open spec fn computed_reply(name: Seq<char>, args: Seq<char>) -> Option<Result<Seq<char>, Seq<char>>> {
    if name == "calculator"@ {
        Some(calculator_reply(args))
    } else if name == "text_tool"@ {
        Some(text_tool_reply(args))
    } else if name == "json_tool"@ {
        Some(json_tool_reply(args))
    } else {
        None
    }
}

/// The tools the agent can call, by name.
pub struct ToolRegistry {
    tools: Store<ToolEntry>,
}

impl ToolRegistry {
    /// The registered tools, by name.
    pub closed spec fn tools_view(&self) -> Map<Seq<char>, ToolEntryView> {
        self.tools.view_map()
    }

    /// The registry's invariant: each name is registered once.
    pub closed spec fn wf(&self) -> bool {
        self.tools.wf()
    }

    /// A registry with no tools.
    pub fn new() -> (r: Self)
        ensures
            r.wf(),
            r.tools_view() == Map::<Seq<char>, ToolEntryView>::empty(),
    {
        ToolRegistry { tools: Store::new() }
    }

    /// Registers a tool, replacing any tool of the same name.
    pub fn register(&mut self, tool: ToolEntry)
        requires
            old(self).wf(),
        ensures
            final(self).wf(),
            final(self).tools_view() == old(self).tools_view().insert(tool.name@, tool@),
    {
        self.tools.insert(tool);
    }

    /// The number of registered tools.
    pub fn count(&self) -> (n: usize)
        requires
            self.wf(),
        ensures
            n == self.tools_view().dom().len(),
    {
        self.tools.len()
    }

    /// The names of the registered tools, in the registry's own order.
    pub closed spec fn tool_names(&self) -> Seq<Seq<char>> {
        self.tools.entries().map_values(|e: (Seq<char>, ToolEntryView)| e.0)
    }

    /// The schemas of the registered tools, one per tool, in the registry's order: each
    /// name once, every registered name among them.
    pub fn get_tool_schemas(&self) -> (r: Vec<serde_json::Value>)
        requires
            self.wf(),
        ensures
            self.tool_names().no_duplicates(),
            forall|k: Seq<char>| self.tools_view().dom().contains(k) <==> self.tool_names().contains(k),
            r@ == self.tool_names().map_values(|k: Seq<char>| self.tools_view()[k].schema),
    {
        let items = self.tools.records();
        let ghost es = record_entries(items@);
        let ghost names = self.tool_names();
        let mut r: Vec<serde_json::Value> = Vec::new();
        let mut i: usize = 0;
        while i < items.len()
            invariant
                i <= items@.len(),
                r@.len() == i,
                es == record_entries(items@),
                es == self.tools.entries(),
                self.wf(),
                forall|j: int| 0 <= j < i ==> #[trigger] r@[j] == items@[j].schema,
            decreases items.len() - i,
        {
            r.push(items[i].schema.clone());
            i = i + 1;
        }
        proof {
            assert forall|j: int| 0 <= j < r@.len() implies #[trigger] r@[j] == self.tools_view()[names[j]].schema by {
                crate::keyed::lemma_map_of_index(es, j);
                assert(es[j].0 == items@[j].name@);
                assert(names[j] == es[j].0);
            }
            assert(r@ =~= names.map_values(|k: Seq<char>| self.tools_view()[k].schema));
            assert forall|a: int, b: int| 0 <= a < names.len() && 0 <= b < names.len() && a != b implies names[a] != names[b] by {
                assert(names[a] == es[a].0 && names[b] == es[b].0);
            }
            assert forall|k: Seq<char>| self.tools_view().dom().contains(k) <==> names.contains(k) by {
                if self.tools_view().dom().contains(k) {
                    assert(crate::keyed::has_key(es, k));
                    let j = choose|j: int| 0 <= j < es.len() && es[j].0 == k;
                    assert(names[j] == k);
                }
                if names.contains(k) {
                    let j = choose|j: int| 0 <= j < names.len() && names[j] == k;
                    crate::keyed::lemma_map_of_index(es, j);
                }
            }
        }
        r
    }

    /// Starts a call of the tool `name` with the JSON arguments `args`: an error when no
    /// such tool is registered; the reply of a tool that only computes; else word that the
    /// caller runs it.
    pub fn execute_tool(&self, name: &str, args: &str) -> (r: Result<ToolRun, String>)
        requires
            self.wf(),
        ensures
            !self.tools_view().dom().contains(name@) <==> r is Err,
            r is Err ==> r->Err_0@ == "Tool not found: "@ + name@,
            r matches Ok(ToolRun::Done(x)) ==> computed_reply(name@, args@) == Some(match x {
                Ok(s) => Ok(s@),
                Err(e) => Err(e@),
            }),
            r matches Ok(ToolRun::External) ==> computed_reply(name@, args@) is None,
    {
        proof {
            reveal_strlit("calculator");
            reveal_strlit("text_tool");
            reveal_strlit("json_tool");
            reveal_strlit("");
        }
        if !self.tools.contains(name) {
            return Err(concat3("Tool not found: ", name, ""));
        }
        if str_eq(name, "calculator") {
            Ok(ToolRun::Done(calculator(args)))
        } else if str_eq(name, "text_tool") {
            Ok(ToolRun::Done(text_tool(args)))
        } else if str_eq(name, "json_tool") {
            Ok(ToolRun::Done(json_tool(args)))
        } else {
            Ok(ToolRun::External)
        }
    }
}

// ----- The built-in tools -----

/// A registry entry whose schema is the JSON text `schema` (null should the text not
/// be JSON).
pub fn tool_entry(name: &str, description: &str, schema: &str) -> (r: ToolEntry)
    ensures
        r.name@ == name@,
        r.description@ == description@,
        json_value_of(schema@) matches Some(v) ==> r.schema == v,
{
    let schema = match parse_json(schema) {
        Some(v) => v,
        None => json_null(),
    };
    ToolEntry { name: str_to_string(name), description: str_to_string(description), schema }
}

/// The built-in tools, in the order they are registered, the `i`-th with the schema
/// `schemas[i]`.
pub open spec fn builtin_tool_views(schemas: Seq<serde_json::Value>) -> Seq<ToolEntryView> {
    seq![
        ToolEntryView { name: "shell_exec"@, description: "Execute a shell command and return the output"@, schema: schemas[0] },
        ToolEntryView { name: "file_read"@, description: "Read the contents of a file"@, schema: schemas[1] },
        ToolEntryView { name: "file_write"@, description: "Write content to a file"@, schema: schemas[2] },
        ToolEntryView { name: "file_list"@, description: "List files in a directory"@, schema: schemas[3] },
        ToolEntryView { name: "web_fetch"@, description: "Fetch content from a URL"@, schema: schemas[4] },
        ToolEntryView { name: "calculator"@, description: "Perform mathematical calculations"@, schema: schemas[5] },
        ToolEntryView { name: "memory"@, description: "Store or retrieve information from memory"@, schema: schemas[6] },
        ToolEntryView { name: "todo"@, description: "Manage todo list"@, schema: schemas[7] },
        ToolEntryView { name: "get_date"@, description: "Get current date and time in various formats"@, schema: schemas[8] },
        ToolEntryView { name: "json_tool"@, description: "Parse, format, validate, and transform JSON data"@, schema: schemas[9] },
        ToolEntryView { name: "text_tool"@, description: "Text processing utilities (count words, characters, lines, transform case, etc.)"@, schema: schemas[10] },
        ToolEntryView { name: "env_tool"@, description: "Get system environment information (OS, architecture, hostname, etc.)"@, schema: schemas[11] },
        ToolEntryView { name: "file_search"@, description: "Search for files and directories by name or pattern"@, schema: schemas[12] },
        ToolEntryView { name: "file_delete"@, description: "Delete files and directories safely"@, schema: schemas[13] },
        ToolEntryView { name: "http_request"@, description: "Make HTTP requests (GET, POST, PUT, DELETE) to external APIs"@, schema: schemas[14] },
    ]
}

/// The built-in tools, each with the schema the model is shown.
pub fn builtin_tools() -> (r: Vec<ToolEntry>)
    ensures
        r@.map_values(|t: ToolEntry| t@) == builtin_tool_views(r@.map_values(|t: ToolEntry| t.schema)),
{
    let r = vec![
        tool_entry("shell_exec", "Execute a shell command and return the output", r#"{"type":"function","function":{"name":"shell_exec","description":"Execute a shell command and return the output","parameters":{"type":"object","properties":{"command":{"type":"string","description":"The shell command to execute"}},"required":["command"]}}}"#),
        tool_entry("file_read", "Read the contents of a file", r#"{"type":"function","function":{"name":"file_read","description":"Read the contents of a file","parameters":{"type":"object","properties":{"path":{"type":"string","description":"Path to the file to read"}},"required":["path"]}}}"#),
        tool_entry("file_write", "Write content to a file", r#"{"type":"function","function":{"name":"file_write","description":"Write content to a file","parameters":{"type":"object","properties":{"path":{"type":"string","description":"Path to the file"},"content":{"type":"string","description":"Content to write"}},"required":["path","content"]}}}"#),
        tool_entry("file_list", "List files in a directory", r#"{"type":"function","function":{"name":"file_list","description":"List files in a directory","parameters":{"type":"object","properties":{"path":{"type":"string","description":"Directory path to list"}},"required":["path"]}}}"#),
        tool_entry("web_fetch", "Fetch content from a URL", r#"{"type":"function","function":{"name":"web_fetch","description":"Fetch content from a URL","parameters":{"type":"object","properties":{"url":{"type":"string","description":"URL to fetch"}},"required":["url"]}}}"#),
        tool_entry("calculator", "Perform mathematical calculations", r#"{"type":"function","function":{"name":"calculator","description":"Perform mathematical calculations","parameters":{"type":"object","properties":{"expression":{"type":"string","description":"Mathematical expression to evaluate"}},"required":["expression"]}}}"#),
        tool_entry("memory", "Store or retrieve information from memory", r#"{"type":"function","function":{"name":"memory","description":"Store or retrieve information from memory","parameters":{"type":"object","properties":{"action":{"type":"string","enum":["store","retrieve","list"],"description":"Action to perform"},"key":{"type":"string","description":"Key for the memory entry"},"value":{"type":"string","description":"Value to store (for store action)"}},"required":["action"]}}}"#),
        tool_entry("todo", "Manage todo list", r#"{"type":"function","function":{"name":"todo","description":"Manage todo list","parameters":{"type":"object","properties":{"action":{"type":"string","enum":["add","list","complete","remove"],"description":"Action to perform"},"task":{"type":"string","description":"Task description (for add action)"},"index":{"type":"integer","description":"Task index (for complete/remove action)"}},"required":["action"]}}}"#),
        tool_entry("get_date", "Get current date and time in various formats", r#"{"type":"function","function":{"name":"get_date","description":"Get current date and time in various formats","parameters":{"type":"object","properties":{"format":{"type":"string","description":"Date format (e.g., 'iso', 'unix', 'human')","enum":["iso","unix","human"]},"timezone":{"type":"string","description":"Timezone offset (e.g., '+08:00')"}},"required":[]}}}"#),
        tool_entry("json_tool", "Parse, format, validate, and transform JSON data", r#"{"type":"function","function":{"name":"json_tool","description":"Parse, format, validate, and transform JSON data","parameters":{"type":"object","properties":{"action":{"type":"string","description":"Action to perform (parse, format, validate, keys)","enum":["parse","format","validate","keys"]},"data":{"type":"string","description":"JSON data to process"},"path":{"type":"string","description":"JSON path to extract (e.g., 'foo.bar.baz')"}},"required":["action","data"]}}}"#),
        tool_entry("text_tool", "Text processing utilities (count words, characters, lines, transform case, etc.)", r#"{"type":"function","function":{"name":"text_tool","description":"Text processing utilities (count words, characters, lines, transform case, etc.)","parameters":{"type":"object","properties":{"action":{"type":"string","description":"Action to perform (count, uppercase, lowercase, reverse, trim)","enum":["count","uppercase","lowercase","reverse","trim"]},"text":{"type":"string","description":"Text to process"}},"required":["action","text"]}}}"#),
        tool_entry("env_tool", "Get system environment information (OS, architecture, hostname, etc.)", r#"{"type":"function","function":{"name":"env_tool","description":"Get system environment information (OS, architecture, hostname, etc.)","parameters":{"type":"object","properties":{"info_type":{"type":"string","description":"Type of information to get (os, arch, hostname, cwd, env_var)","enum":["os","arch","hostname","cwd","env_var"]},"var_name":{"type":"string","description":"Environment variable name (for env_var action)"}},"required":["info_type"]}}}"#),
        tool_entry("file_search", "Search for files and directories by name or pattern", r#"{"type":"function","function":{"name":"file_search","description":"Search for files and directories by name or pattern","parameters":{"type":"object","properties":{"path":{"type":"string","description":"Directory to search in (default: current directory)"},"pattern":{"type":"string","description":"File name pattern to search for"},"file_type":{"type":"string","description":"Filter by file type (file, directory, all)","enum":["file","directory","all"]},"max_depth":{"type":"integer","description":"Maximum search depth (default: 3)"}},"required":["pattern"]}}}"#),
        tool_entry("file_delete", "Delete files and directories safely", r#"{"type":"function","function":{"name":"file_delete","description":"Delete files and directories safely","parameters":{"type":"object","properties":{"path":{"type":"string","description":"File or directory path to delete"},"recursive":{"type":"boolean","description":"Delete directory recursively (default: false)"}},"required":["path"]}}}"#),
        tool_entry("http_request", "Make HTTP requests (GET, POST, PUT, DELETE) to external APIs", r#"{"type":"function","function":{"name":"http_request","description":"Make HTTP requests (GET, POST, PUT, DELETE) to external APIs","parameters":{"type":"object","properties":{"method":{"type":"string","description":"HTTP method (GET, POST, PUT, DELETE)","enum":["GET","POST","PUT","DELETE"]},"url":{"type":"string","description":"URL to send request to"},"headers":{"type":"object","description":"HTTP headers to include"},"body":{"type":"string","description":"Request body (for POST/PUT)"}},"required":["method","url"]}}}"#),
    ];
    assert(r@.map_values(|t: ToolEntry| t@) =~= builtin_tool_views(r@.map_values(|t: ToolEntry| t.schema)));
    r
}

/// The tools held after registering `ts` in order, starting from `m`.
pub open spec fn with_tools(m: Map<Seq<char>, ToolEntryView>, ts: Seq<ToolEntryView>) -> Map<Seq<char>, ToolEntryView>
    decreases ts.len(),
{
    if ts.len() == 0 {
        m
    } else {
        with_tools(m, ts.drop_last()).insert(ts.last().name, ts.last())
    }
}

/// Registers every built-in tool.
pub fn register_all_tools(registry: &mut ToolRegistry)
    requires
        old(registry).wf(),
    ensures
        final(registry).wf(),
        exists|schemas: Seq<serde_json::Value>|
            final(registry).tools_view() == #[trigger] with_tools(old(registry).tools_view(), builtin_tool_views(schemas)),
{
    let tools = builtin_tools();
    let ghost schemas = tools@.map_values(|t: ToolEntry| t.schema);
    let ghost tv = builtin_tool_views(schemas);
    let ghost start = registry.tools_view();
    let mut rest = tools;
    let mut i: usize = 0;
    let n = rest.len();
    proof {
        assert(tv.take(0) =~= Seq::<ToolEntryView>::empty());
    }
    while i < n
        invariant
            n == tv.len(),
            i <= n,
            rest@.len() == n - i,
            forall|k: int| 0 <= k < rest@.len() ==> #[trigger] rest@[k]@ == tv[(i + k) as int],
            registry.wf(),
            registry.tools_view() == with_tools(start, tv.take(i as int)),
        decreases n - i,
    {
        let ghost before = rest@;
        let t = rest.remove(0);
        proof {
            assert(t@ == tv[i as int]);
            assert(tv.take(i + 1).drop_last() =~= tv.take(i as int));
            assert(tv.take(i + 1).last() == tv[i as int]);
        }
        registry.register(t);
        i = i + 1;
        proof {
            assert forall|k: int| 0 <= k < rest@.len() implies #[trigger] rest@[k]@ == tv[(i + k) as int] by {
                assert(rest@[k] == before[k + 1]);
            }
        }
    }
    assert(tv.take(n as int) =~= tv);
    assert(registry.tools_view() == with_tools(start, builtin_tool_views(schemas)));
}

// ----- Reports of the file tools -----

/// An entry met while walking a directory: its file name, its path, whether it is a
/// directory, and its size in bytes when that could be read.
#[derive(Debug)]
pub struct FoundEntry {
    pub name: String,
    pub path: String,
    pub is_dir: bool,
    pub size: Option<u64>,
}

/// The value of a found entry.
pub struct FoundEntryView {
    pub name: Seq<char>,
    pub path: Seq<char>,
    pub is_dir: bool,
    pub size: Option<u64>,
}

impl View for FoundEntry {
    type V = FoundEntryView;

    open spec fn view(&self) -> FoundEntryView {
        FoundEntryView { name: self.name@, path: self.path@, is_dir: self.is_dir, size: self.size }
    }
}

/// Whether the file search reports an entry: its name holds the pattern, and it is of
/// the kind asked for (`file`, `directory`, or anything else for both).
pub open spec fn search_hit(e: FoundEntryView, pattern: Seq<char>, kind: Seq<char>) -> bool {
    &&& seq_contains(e.name, pattern)
    &&& !(kind == "file"@ && e.is_dir)
    &&& !(kind == "directory"@ && !e.is_dir)
}

/// The line reporting an entry: its path, whether it is a directory or a file, and its
/// size (`N/A` for a directory, `Unknown` when it could not be read).
pub open spec fn search_line(e: FoundEntryView) -> Seq<char> {
    e.path + " ("@ + (if e.is_dir { "dir"@ } else { "file"@ }) + ") - "@ + if e.is_dir {
        "N/A"@
    } else {
        match e.size {
            Some(n) => nat_decimal(n as nat) + " bytes"@,
            None => "Unknown"@,
        }
    }
}

/// The entries the file search reports, in the order they were met.
pub open spec fn search_hits(es: Seq<FoundEntryView>, pattern: Seq<char>, kind: Seq<char>) -> Seq<FoundEntryView>
    decreases es.len(),
{
    if es.len() == 0 {
        Seq::empty()
    } else if search_hit(es.last(), pattern, kind) {
        search_hits(es.drop_last(), pattern, kind).push(es.last())
    } else {
        search_hits(es.drop_last(), pattern, kind)
    }
}

/// The file search's reply for the entries met: their count and lines, or a note that
/// nothing matched.
pub open spec fn search_report_text(es: Seq<FoundEntryView>, pattern: Seq<char>, kind: Seq<char>) -> Seq<char> {
    let hits = search_hits(es, pattern, kind);
    if hits.len() == 0 {
        "No files found matching pattern: '"@ + pattern + "'"@
    } else {
        "Found "@ + nat_decimal(hits.len()) + " files:\n"@ + joined(hits.map_values(|e: FoundEntryView| search_line(e)), "\n"@)
    }
}

/// The line reporting one entry.
fn search_line_for(e: &FoundEntry) -> (r: String)
    ensures
        r@ == search_line(e@),
{
    let mut s = str_to_string(e.path.as_str());
    push_str(&mut s, " (");
    push_str(&mut s, if e.is_dir { "dir" } else { "file" });
    push_str(&mut s, ") - ");
    if e.is_dir {
        push_str(&mut s, "N/A");
    } else {
        match e.size {
            Some(n) => {
                push_u64_decimal(&mut s, n);
                push_str(&mut s, " bytes");
            },
            None => push_str(&mut s, "Unknown"),
        }
    }
    proof {
        reveal_strlit("dir");
        reveal_strlit("file");
    }
    s
}

/// The file search's reply for the entries met while walking, the name pattern and the
/// kind of entry asked for.
pub fn search_report(entries: &Vec<FoundEntry>, pattern: &str, kind: &str) -> (r: String)
    ensures
        r@ == search_report_text(entries@.map_values(|e: FoundEntry| e@), pattern@, kind@),
{
    proof {
        reveal_strlit("file");
        reveal_strlit("directory");
    }
    let ghost ev = entries@.map_values(|e: FoundEntry| e@);
    let mut lines: Vec<String> = Vec::new();
    let mut i: usize = 0;
    proof {
        assert(ev.take(0) =~= Seq::<FoundEntryView>::empty());
    }
    while i < entries.len()
        invariant
            i <= entries@.len(),
            ev == entries@.map_values(|e: FoundEntry| e@),
            string_views(lines@) == search_hits(ev.take(i as int), pattern@, kind@).map_values(|e: FoundEntryView| search_line(e)),
        decreases entries.len() - i,
    {
        let e = &entries[i];
        proof {
            assert(ev.take(i + 1).drop_last() =~= ev.take(i as int));
            assert(ev.take(i + 1).last() == e@);
        }
        let hit = crate::text::str_contains(e.name.as_str(), pattern)
            && !(str_eq(kind, "file") && e.is_dir)
            && !(str_eq(kind, "directory") && !e.is_dir);
        if hit {
            let line = search_line_for(e);
            let ghost before = string_views(lines@);
            lines.push(line);
            proof {
                let h = search_hits(ev.take(i as int), pattern@, kind@);
                assert(search_hits(ev.take(i + 1), pattern@, kind@) == h.push(e@));
                assert(h.push(e@).map_values(|x: FoundEntryView| search_line(x)) =~= h.map_values(|x: FoundEntryView| search_line(x)).push(search_line(e@)));
                assert(string_views(lines@) =~= before.push(line@));
            }
        } else {
            proof {
                assert(search_hits(ev.take(i + 1), pattern@, kind@) == search_hits(ev.take(i as int), pattern@, kind@));
            }
        }
        i = i + 1;
    }
    proof {
        assert(ev.take(entries@.len() as int) =~= ev);
        reveal_strlit("");
    }
    if lines.len() == 0 {
        concat3("No files found matching pattern: '", pattern, "'")
    } else {
        let mut s = str_to_string("Found ");
        push_u64_decimal(&mut s, lines.len() as u64);
        push_str(&mut s, " files:\n");
        let body = join_strings(&lines, "\n");
        push_str(&mut s, body.as_str());
        proof {
            assert(string_views(lines@).len() == lines@.len());
        }
        s
    }
}

/// The line listing a directory entry: `[D] ` before a directory's name, four spaces
/// before a file's.
pub open spec fn listing_line(e: (Seq<char>, bool)) -> Seq<char> {
    (if e.1 { "[D] "@ } else { "    "@ }) + e.0
}

/// The listing of a directory's entries (name, and whether it is a directory), one line
/// each.
pub fn directory_listing(entries: &Vec<(String, bool)>) -> (r: String)
    ensures
        r@ == joined(entries@.map_values(|e: (String, bool)| listing_line((e.0@, e.1))), "\n"@),
{
    let ghost lv = entries@.map_values(|e: (String, bool)| listing_line((e.0@, e.1)));
    let mut lines: Vec<String> = Vec::new();
    let mut i: usize = 0;
    while i < entries.len()
        invariant
            i <= entries@.len(),
            lv == entries@.map_values(|e: (String, bool)| listing_line((e.0@, e.1))),
            string_views(lines@) == lv.take(i as int),
        decreases entries.len() - i,
    {
        let line = concat3(if entries[i].1 { "[D] " } else { "    " }, entries[i].0.as_str(), "");
        proof {
            reveal_strlit("");
            reveal_strlit("[D] ");
            reveal_strlit("    ");
        }
        let ghost before = string_views(lines@);
        lines.push(line);
        proof {
            assert(string_views(lines@) =~= before.push(line@));
            assert(lv.take(i + 1) =~= lv.take(i as int).push(lv[i as int]));
        }
        i = i + 1;
    }
    assert(lv.take(entries@.len() as int) =~= lv);
    join_strings(&lines, "\n")
}

// ----- Laws -----

/// Completing the to-do just added undoes the addition: adding a task puts it last, and
/// completing the last to-do gives the list back as it was, replying with that task.
pub proof fn law_complete_undoes_add(todos: Seq<Seq<char>>, task: Seq<char>)
    requires
        todos.len() < u64::MAX,
    ensures
        todo_change(todos, "add"@, Some(task), 0) == Ok::<(Seq<char>, Option<Seq<Seq<char>>>), Seq<char>>(
            ("Added todo: "@ + task, Some(todos.push(task))),
        ),
        todo_change(todos.push(task), "complete"@, None, (todos.len() + 1) as u64)
            == Ok::<(Seq<char>, Option<Seq<Seq<char>>>), Seq<char>>(("Completed: "@ + task, Some(todos))),
{
    reveal_strlit("add");
    reveal_strlit("list");
    reveal_strlit("complete");
    reveal_strlit("remove");
    assert("add"@ != "list"@) by {
        assert("add"@.len() != "list"@.len());
    }
    assert("complete"@ != "add"@) by {
        assert("complete"@.len() != "add"@.len());
    }
    assert("complete"@ != "list"@) by {
        assert("complete"@.len() != "list"@.len());
    }
    let n = (todos.len() + 1) as u64;
    assert(todos.push(task)[n - 1] == task);
    assert(todos.push(task).remove(todos.len() as int) =~= todos);
}

/// Listing never changes the to-dos.
pub proof fn law_listing_changes_nothing(todos: Seq<Seq<char>>, index: u64)
    ensures
        todo_change(todos, "list"@, None, index) == Ok::<(Seq<char>, Option<Seq<Seq<char>>>), Seq<char>>(
            (todo_listing(todos), None),
        ),
{
    reveal_strlit("add");
    reveal_strlit("list");
    assert("list"@ != "add"@) by {
        assert("list"@.len() != "add"@.len());
    }
}

/// A registered tool can be called: once a tool is registered under a name, a call of
/// that name is not answered with "Tool not found", whatever else is registered after
/// under other names.
pub proof fn law_registered_tool_is_found(m: Map<Seq<char>, ToolEntryView>, t: ToolEntryView, others: Seq<ToolEntryView>)
    requires
        forall|i: int| 0 <= i < others.len() ==> (#[trigger] others[i]).name != t.name,
    ensures
        with_tools(m.insert(t.name, t), others).dom().contains(t.name),
        with_tools(m.insert(t.name, t), others)[t.name] == t,
    decreases others.len(),
{
    if others.len() > 0 {
        assert forall|i: int| 0 <= i < others.drop_last().len() implies (#[trigger] others.drop_last()[i]).name != t.name by {
            assert(others.drop_last()[i] == others[i]);
        }
        law_registered_tool_is_found(m, t, others.drop_last());
        assert(others.last() == others[others.len() - 1]);
    }
}

// ----- The memory tool -----

/// The key/value memories serde_json reads from the stored text, in key order (each key
/// once, the last value of a repeated key kept); none when the text is not a JSON object
/// of strings.
pub uninterp spec fn json_string_table(text: Seq<char>) -> Seq<(Seq<char>, Seq<char>)>;

/// `serde_json::from_str::<BTreeMap<String, String>>`, with `unwrap_or_default`, as a
/// list of pairs. The result is named `json_string_table` of the text.
#[verifier::external_body]
fn string_table(text: &str) -> (r: Vec<(String, String)>)
    ensures
        r@.map_values(|p: (String, String)| (p.0@, p.1@)) == json_string_table(text@),
{
    serde_json::from_str::<std::collections::BTreeMap<String, String>>(text).unwrap_or_default().into_iter().collect()
}

/// What `serde_json::to_string_pretty` writes for the JSON object with these members, in
/// key order, or its error's message.
pub uninterp spec fn json_pretty_table(pairs: Seq<(Seq<char>, Seq<char>)>) -> Result<Seq<char>, Seq<char>>;

/// The pairs collected into a `BTreeMap`, then `serde_json::to_string_pretty`. The result
/// is named `json_pretty_table` of the pairs.
#[verifier::external_body]
fn pretty_table(pairs: &Vec<(String, String)>) -> (r: Result<String, String>)
    ensures
        json_pretty_table(pairs@.map_values(|p: (String, String)| (p.0@, p.1@))) == match r {
            Ok(s) => Ok(s@),
            Err(e) => Err(e@),
        },
{
    let m: std::collections::BTreeMap<&String, &String> = pairs.iter().map(|(k, v)| (k, v)).collect();
    serde_json::to_string_pretty(&m).map_err(|e| e.to_string())
}

/// How `Debug` writes a list of strings: each quoted with its special characters escaped,
/// separated by `, `, in square brackets.
pub uninterp spec fn debug_string_list(v: Seq<Seq<char>>) -> Seq<char>;

/// `format!("{:?}", v)`. The result is named `debug_string_list` of the strings.
#[verifier::external_body]
fn debug_strings(v: &Vec<String>) -> (r: String)
    ensures
        r@ == debug_string_list(string_views(v@)),
{
    format!("{:?}", v)
}

/// The memories after storing `value` under `key`: it replaces the value of that key,
/// or comes after the others.
pub open spec fn table_insert(t: Seq<(Seq<char>, Seq<char>)>, key: Seq<char>, value: Seq<char>) -> Seq<(Seq<char>, Seq<char>)>
    decreases t.len(),
{
    if t.len() == 0 {
        seq![(key, value)]
    } else if t[0].0 == key {
        t.update(0, (key, value))
    } else {
        seq![t[0]] + table_insert(t.drop_first(), key, value)
    }
}

/// The value stored under `key`, if any.
pub open spec fn table_get(t: Seq<(Seq<char>, Seq<char>)>, key: Seq<char>) -> Option<Seq<char>>
    decreases t.len(),
{
    if t.len() == 0 {
        None
    } else if t[0].0 == key {
        Some(t[0].1)
    } else {
        table_get(t.drop_first(), key)
    }
}

/// The memory tool's reply to the argument text `args`, given the stored memories' text
/// (none when nothing is stored yet): the reply, and the text to store when the memories
/// changed.
pub open spec fn memory_reply(stored: Option<Seq<char>>, args: Seq<char>) -> Result<(Seq<char>, Option<Seq<char>>), Seq<char>> {
    let t = match stored {
        Some(s) => json_string_table(s),
        None => Seq::empty(),
    };
    match json_syntax_error(args) {
        Some(e) => Err(e),
        None => match json_str_member(args, "action"@) {
            None => Err("Missing 'action' parameter"@),
            Some(action) => if action == "store"@ {
                match json_str_member(args, "key"@) {
                    None => Err("Missing 'key' for store action"@),
                    Some(k) => match json_str_member(args, "value"@) {
                        None => Err("Missing 'value' for store action"@),
                        Some(v) => match json_pretty_table(table_insert(t, k, v)) {
                            Ok(text) => Ok(("Stored memory: "@ + k, Some(text))),
                            Err(e) => Err(e),
                        },
                    },
                }
            } else if action == "retrieve"@ {
                match json_str_member(args, "key"@) {
                    None => Err("Missing 'key' for retrieve action"@),
                    Some(k) => match table_get(t, k) {
                        Some(v) => Ok((v, None)),
                        None => Ok(("No memory found for key: "@ + k, None)),
                    },
                }
            } else if action == "list"@ {
                Ok(("Memory keys: "@ + debug_string_list(t.map_values(|p: (Seq<char>, Seq<char>)| p.0)), None))
            } else {
                Err("Unknown action: "@ + action)
            },
        },
    }
}

/// The values of some key/value pairs.
pub open spec fn table_views(v: Seq<(String, String)>) -> Seq<(Seq<char>, Seq<char>)> {
    v.map_values(|p: (String, String)| (p.0@, p.1@))
}

/// Stores `value` under `key` in the memories.
fn insert_pair(t: &mut Vec<(String, String)>, key: &str, value: &str)
    ensures
        table_views(final(t)@) == table_insert(table_views(old(t)@), key@, value@),
{
    let ghost orig = table_views(t@);
    let mut i: usize = 0;
    while i < t.len()
        invariant
            i <= t@.len(),
            t@ == old(t)@,
            orig == table_views(t@),
            forall|j: int| 0 <= j < i ==> (#[trigger] t@[j]).0@ != key@,
        decreases t.len() - i,
    {
        if str_eq(t[i].0.as_str(), key) {
            let ghost before = t@;
            t.set(i, (str_to_string(key), str_to_string(value)));
            proof {
                lemma_table_insert_at(orig, key@, value@, i as int);
                assert(table_views(t@) =~= orig.update(i as int, (key@, value@)));
            }
            return;
        }
        i = i + 1;
    }
    t.push((str_to_string(key), str_to_string(value)));
    proof {
        lemma_table_insert_absent(orig, key@, value@);
        assert(table_views(t@) =~= orig.push((key@, value@)));
    }
}

proof fn lemma_table_insert_at(t: Seq<(Seq<char>, Seq<char>)>, key: Seq<char>, value: Seq<char>, i: int)
    requires
        0 <= i < t.len(),
        t[i].0 == key,
        forall|j: int| 0 <= j < i ==> (#[trigger] t[j]).0 != key,
    ensures
        table_insert(t, key, value) == t.update(i, (key, value)),
    decreases i,
{
    if i > 0 {
        let r = t.drop_first();
        assert forall|j: int| 0 <= j < i - 1 implies (#[trigger] r[j]).0 != key by {
            assert(r[j] == t[j + 1]);
        }
        lemma_table_insert_at(r, key, value, i - 1);
        assert(t[0].0 != key);
        assert(seq![t[0]] + r.update(i - 1, (key, value)) =~= t.update(i, (key, value)));
    }
}

proof fn lemma_table_insert_absent(t: Seq<(Seq<char>, Seq<char>)>, key: Seq<char>, value: Seq<char>)
    requires
        forall|j: int| 0 <= j < t.len() ==> (#[trigger] t[j]).0 != key,
    ensures
        table_insert(t, key, value) == t.push((key, value)),
    decreases t.len(),
{
    if t.len() > 0 {
        let r = t.drop_first();
        assert forall|j: int| 0 <= j < r.len() implies (#[trigger] r[j]).0 != key by {
            assert(r[j] == t[j + 1]);
        }
        lemma_table_insert_absent(r, key, value);
        assert(t[0].0 != key);
        assert(seq![t[0]] + r.push((key, value)) =~= t.push((key, value)));
    }
}

/// The value stored under `key`, if any.
fn get_pair(t: &Vec<(String, String)>, key: &str) -> (r: Option<String>)
    ensures
        opt_view(r) == table_get(table_views(t@), key@),
{
    let ghost tv = table_views(t@);
    let mut i: usize = 0;
    assert(tv.skip(0) =~= tv);
    while i < t.len()
        invariant
            i <= t@.len(),
            tv == table_views(t@),
            table_get(tv, key@) == table_get(tv.skip(i as int), key@),
        decreases t.len() - i,
    {
        proof {
            assert(tv.skip(i as int)[0] == tv[i as int]);
            assert(tv.skip(i as int).drop_first() =~= tv.skip(i + 1));
        }
        if str_eq(t[i].0.as_str(), key) {
            return Some(t[i].1.clone());
        }
        i = i + 1;
    }
    proof {
        assert(tv.skip(t@.len() as int) =~= Seq::<(Seq<char>, Seq<char>)>::empty());
    }
    None
}

/// The memory tool: stores, retrieves or lists key/value memories, given their stored
/// text (none when nothing is stored yet); the reply, and the text to store when the
/// memories changed.
pub fn memory_tool(stored: Option<&str>, args: &str) -> (r: Result<(String, Option<String>), String>)
    ensures
        memory_reply(
            match stored {
                Some(s) => Some(s@),
                None => None,
            },
            args@,
        ) == match r {
            Ok((m, c)) => Ok((m@, opt_view(c))),
            Err(e) => Err(e@),
        },
{
    proof {
        reveal_strlit("store");
        reveal_strlit("retrieve");
        reveal_strlit("list");
        reveal_strlit("");
    }
    let mut t = match stored {
        Some(s) => string_table(s),
        None => Vec::new(),
    };
    let ghost tv = table_views(t@);
    proof {
        if stored is None {
            assert(tv =~= Seq::<(Seq<char>, Seq<char>)>::empty());
        }
    }
    if let Some(e) = json_error(args) {
        return Err(e);
    }
    let action = match str_member(args, "action") {
        Some(a) => a,
        None => return Err(str_to_string("Missing 'action' parameter")),
    };
    if str_eq(action.as_str(), "store") {
        let key = match str_member(args, "key") {
            Some(k) => k,
            None => return Err(str_to_string("Missing 'key' for store action")),
        };
        let value = match str_member(args, "value") {
            Some(v) => v,
            None => return Err(str_to_string("Missing 'value' for store action")),
        };
        insert_pair(&mut t, key.as_str(), value.as_str());
        match pretty_table(&t) {
            Ok(text) => Ok((concat3("Stored memory: ", key.as_str(), ""), Some(text))),
            Err(e) => Err(e),
        }
    } else if str_eq(action.as_str(), "retrieve") {
        let key = match str_member(args, "key") {
            Some(k) => k,
            None => return Err(str_to_string("Missing 'key' for retrieve action")),
        };
        match get_pair(&t, key.as_str()) {
            Some(v) => Ok((v, None)),
            None => Ok((concat3("No memory found for key: ", key.as_str(), ""), None)),
        }
    } else if str_eq(action.as_str(), "list") {
        let mut keys: Vec<String> = Vec::new();
        let mut i: usize = 0;
        while i < t.len()
            invariant
                i <= t@.len(),
                tv == table_views(t@),
                string_views(keys@) == tv.take(i as int).map_values(|p: (Seq<char>, Seq<char>)| p.0),
            decreases t.len() - i,
        {
            let ghost before = string_views(keys@);
            keys.push(t[i].0.clone());
            proof {
                assert(string_views(keys@) =~= before.push(tv[i as int].0));
                assert(tv.take(i + 1).map_values(|p: (Seq<char>, Seq<char>)| p.0)
                    =~= tv.take(i as int).map_values(|p: (Seq<char>, Seq<char>)| p.0).push(tv[i as int].0));
            }
            i = i + 1;
        }
        proof {
            assert(tv.take(t@.len() as int) =~= tv);
        }
        let d = debug_strings(&keys);
        Ok((concat3("Memory keys: ", d.as_str(), ""), None))
    } else {
        Err(concat3("Unknown action: ", action.as_str(), ""))
    }
}

/// A stored memory reads back: after storing `value` under `key`, retrieving `key` gives
/// `value`, and every other key keeps its value.
pub proof fn law_memory_read_after_write(t: Seq<(Seq<char>, Seq<char>)>, key: Seq<char>, value: Seq<char>, other: Seq<char>)
    requires
        other != key,
    ensures
        table_get(table_insert(t, key, value), key) == Some(value),
        table_get(table_insert(t, key, value), other) == table_get(t, other),
    decreases t.len(),
{
    if t.len() > 0 && t[0].0 != key {
        law_memory_read_after_write(t.drop_first(), key, value, other);
        let r = seq![t[0]] + table_insert(t.drop_first(), key, value);
        assert(r[0] == t[0]);
        assert(r.drop_first() =~= table_insert(t.drop_first(), key, value));
        assert(table_insert(t, key, value) == r);
        assert(table_get(r, other) == table_get(t, other));
    } else if t.len() > 0 {
        assert(t.update(0, (key, value)).drop_first() =~= t.drop_first());
        assert(table_get(t.update(0, (key, value)), other) == table_get(t, other));
    } else {
        let one = seq![(key, value)];
        assert(one[0].0 == key);
        assert(one.drop_first() =~= Seq::<(Seq<char>, Seq<char>)>::empty());
        assert(table_get(one.drop_first(), other) is None);
        assert(table_insert(t, key, value) == one);
    }
}

// ----- Reading the arguments of the tools that touch the world -----

/// The members of the `headers` object of a JSON text, in the order serde_json's map
/// keeps them, each with its value's text when the value is a string; none when there is
/// no such object.
pub uninterp spec fn json_header_members(text: Seq<char>) -> Seq<(Seq<char>, Option<Seq<char>>)>;

/// `serde_json::from_str` into a `Value`, then `headers` as an object and each member's
/// `as_str`. The result is named `json_header_members` of the text.
#[verifier::external_body]
fn header_members(text: &str) -> (r: Vec<(String, Option<String>)>)
    ensures
        r@.map_values(|m: (String, Option<String>)| (m.0@, opt_view(m.1))) == json_header_members(text@),
{
    let v: serde_json::Value = serde_json::from_str(text).unwrap_or_default();
    let o = v.get("headers").and_then(|h| h.as_object());
    o.map(|o| o.iter().map(|(k, x)| (k.clone(), x.as_str().map(|s| s.to_string()))).collect()).unwrap_or_default()
}

/// The boolean held under `key` in the JSON object `text`; none when the text is not
/// JSON, or holds no such member, or the member is not a boolean.
pub uninterp spec fn json_bool_member(text: Seq<char>, key: Seq<char>) -> Option<bool>;

/// `serde_json::from_str` into a `Value`, then `get(key)` and `as_bool`. The result is
/// named `json_bool_member` of the text and the key.
#[verifier::external_body]
fn bool_member(text: &str, key: &str) -> (r: Option<bool>)
    ensures
        r == json_bool_member(text@, key@),
{
    let v: serde_json::Value = serde_json::from_str(text).ok()?;
    v.get(key).and_then(|m| m.as_bool())
}

/// The string members of a header object, in order.
pub open spec fn string_members(ms: Seq<(Seq<char>, Option<Seq<char>>)>) -> Seq<(Seq<char>, Seq<char>)>
    decreases ms.len(),
{
    if ms.len() == 0 {
        Seq::empty()
    } else {
        let last = ms.last();
        match last.1 {
            Some(v) => string_members(ms.drop_last()).push((last.0, v)),
            None => string_members(ms.drop_last()),
        }
    }
}

/// An HTTP request the HTTP tool makes: method, URL, headers and body.
#[derive(Debug)]
pub struct HttpRequest {
    pub method: String,
    pub url: String,
    pub headers: Vec<(String, String)>,
    pub body: Option<String>,
}

/// The value of an HTTP request.
pub struct HttpRequestView {
    pub method: Seq<char>,
    pub url: Seq<char>,
    pub headers: Seq<(Seq<char>, Seq<char>)>,
    pub body: Option<Seq<char>>,
}

impl View for HttpRequest {
    type V = HttpRequestView;

    open spec fn view(&self) -> HttpRequestView {
        HttpRequestView { method: self.method@, url: self.url@, headers: table_views(self.headers@), body: opt_view(self.body) }
    }
}

/// The methods the HTTP tool makes requests with.
pub open spec fn http_method_supported(m: Seq<char>) -> bool {
    m == "GET"@ || m == "POST"@ || m == "PUT"@ || m == "DELETE"@
}

/// The request the HTTP tool makes for the argument text `args`: an error when it is not
/// JSON or has no `url`, or its `method` (by default `GET`) is not one of GET, POST, PUT
/// and DELETE; else that method and URL, the string-valued headers and the string body.
pub open spec fn http_request_spec(args: Seq<char>) -> Result<HttpRequestView, Seq<char>> {
    match json_syntax_error(args) {
        Some(e) => Err("Invalid arguments: "@ + e),
        None => {
            let method = match json_str_member(args, "method"@) {
                Some(m) => m,
                None => "GET"@,
            };
            match json_str_member(args, "url"@) {
                None => Err("url is required"@),
                Some(u) => if http_method_supported(method) {
                    Ok(HttpRequestView {
                        method,
                        url: u,
                        headers: string_members(json_header_members(args)),
                        body: json_str_member(args, "body"@),
                    })
                } else {
                    Err("Unsupported HTTP method: "@ + method)
                },
            }
        },
    }
}

fn keep_string_members(ms: Vec<(String, Option<String>)>) -> (r: Vec<(String, String)>)
    ensures
        table_views(r@) == string_members(ms@.map_values(|m: (String, Option<String>)| (m.0@, opt_view(m.1)))),
{
    let ghost mv = ms@.map_values(|m: (String, Option<String>)| (m.0@, opt_view(m.1)));
    let mut out: Vec<(String, String)> = Vec::new();
    let mut i: usize = 0;
    while i < ms.len()
        invariant
            i <= ms@.len(),
            mv == ms@.map_values(|m: (String, Option<String>)| (m.0@, opt_view(m.1))),
            table_views(out@) == string_members(mv.take(i as int)),
        decreases ms.len() - i,
    {
        proof {
            assert(mv.take(i + 1).drop_last() =~= mv.take(i as int));
            assert(mv.take(i + 1).last() == mv[i as int]);
        }
        match &ms[i].1 {
            Some(v) => {
                let ghost before = table_views(out@);
                out.push((ms[i].0.clone(), v.clone()));
                proof {
                    assert(table_views(out@) =~= before.push((ms@[i as int].0@, v@)));
                }
            },
            None => {},
        }
        i = i + 1;
    }
    assert(mv.take(ms@.len() as int) =~= mv);
    out
}

/// Reads the HTTP tool's request from its JSON arguments.
pub fn http_request_of(args: &str) -> (r: Result<HttpRequest, String>)
    ensures
        http_request_spec(args@) == match r {
            Ok(q) => Ok(q@),
            Err(e) => Err(e@),
        },
{
    proof {
        reveal_strlit("GET");
        reveal_strlit("POST");
        reveal_strlit("PUT");
        reveal_strlit("DELETE");
        reveal_strlit("");
    }
    if let Some(e) = json_error(args) {
        return Err(concat3("Invalid arguments: ", e.as_str(), ""));
    }
    let method = match str_member(args, "method") {
        Some(m) => m,
        None => str_to_string("GET"),
    };
    let url = match str_member(args, "url") {
        Some(u) => u,
        None => return Err(str_to_string("url is required")),
    };
    let m = method.as_str();
    if !(str_eq(m, "GET") || str_eq(m, "POST") || str_eq(m, "PUT") || str_eq(m, "DELETE")) {
        return Err(concat3("Unsupported HTTP method: ", m, ""));
    }
    let headers = keep_string_members(header_members(args));
    let body = str_member(args, "body");
    Ok(HttpRequest { method, url, headers, body })
}

/// The HTTP tool's reply: the response's status line and its body.
pub fn http_reply(status: &str, body: &str) -> (r: String)
    ensures
        r@ == "Status: "@ + status@ + "\n\n"@ + body@,
{
    let mut s = concat3("Status: ", status, "\n\n");
    push_str(&mut s, body);
    s
}

/// The first argument of a tool that must be present: the argument text's parse error
/// (prefixed with `Invalid arguments: ` when `prefixed`), else the `missing` message when
/// the string member `key` is absent, else the member.
pub open spec fn required_arg_spec(args: Seq<char>, key: Seq<char>, missing: Seq<char>, prefixed: bool) -> Result<Seq<char>, Seq<char>> {
    match json_syntax_error(args) {
        Some(e) => Err(if prefixed { "Invalid arguments: "@ + e } else { e }),
        None => match json_str_member(args, key) {
            Some(v) => Ok(v),
            None => Err(missing),
        },
    }
}

/// Reads a string argument that must be present.
pub fn required_arg(args: &str, key: &str, missing: &str, prefixed: bool) -> (r: Result<String, String>)
    ensures
        required_arg_spec(args@, key@, missing@, prefixed) == match r {
            Ok(s) => Ok(s@),
            Err(e) => Err(e@),
        },
{
    proof {
        reveal_strlit("");
    }
    if let Some(e) = json_error(args) {
        return Err(if prefixed { concat3("Invalid arguments: ", e.as_str(), "") } else { e });
    }
    match str_member(args, key) {
        Some(v) => Ok(v),
        None => Err(str_to_string(missing)),
    }
}

/// A string argument, or `default` when it is absent (the argument text is known to be
/// JSON).
pub fn arg_or(args: &str, key: &str, default: &str) -> (r: String)
    ensures
        r@ == match json_str_member(args@, key@) {
            Some(v) => v,
            None => default@,
        },
{
    match str_member(args, key) {
        Some(v) => v,
        None => str_to_string(default),
    }
}

/// What the file search is asked for: where to look, the name pattern, the kind of
/// entry and how deep to walk.
#[derive(Debug)]
pub struct SearchRequest {
    pub path: String,
    pub pattern: String,
    pub kind: String,
    pub max_depth: u64,
}

/// The file search's request in the argument text: an error when it is not JSON; the
/// path (by default `.`), the pattern (by default empty), the kind (by default `all`)
/// and the depth (by default 3).
pub open spec fn search_request_spec(args: Seq<char>) -> Result<(Seq<char>, Seq<char>, Seq<char>, u64), Seq<char>> {
    match json_syntax_error(args) {
        Some(e) => Err("Invalid arguments: "@ + e),
        None => Ok((
            match json_str_member(args, "path"@) { Some(v) => v, None => "."@ },
            match json_str_member(args, "pattern"@) { Some(v) => v, None => Seq::empty() },
            match json_str_member(args, "file_type"@) { Some(v) => v, None => "all"@ },
            match json_u64_member(args, "max_depth"@) { Some(d) => d, None => 3u64 },
        )),
    }
}

/// Reads the file search's request from its JSON arguments.
pub fn search_request(args: &str) -> (r: Result<SearchRequest, String>)
    ensures
        search_request_spec(args@) == match r {
            Ok(q) => Ok((q.path@, q.pattern@, q.kind@, q.max_depth)),
            Err(e) => Err(e@),
        },
{
    proof {
        reveal_strlit("");
    }
    if let Some(e) = json_error(args) {
        return Err(concat3("Invalid arguments: ", e.as_str(), ""));
    }
    let max_depth = match u64_member(args, "max_depth") {
        Some(d) => d,
        None => 3,
    };
    let path = arg_or(args, "path", ".");
    let pattern = arg_or(args, "pattern", "");
    let kind = arg_or(args, "file_type", "all");
    assert(pattern@ == match json_str_member(args@, "pattern"@) { Some(v) => v, None => Seq::<char>::empty() });
    Ok(SearchRequest { path, pattern, kind, max_depth })
}

/// What the file deletion is asked for: the path and whether to remove a directory tree.
pub open spec fn delete_request_spec(args: Seq<char>) -> Result<(Seq<char>, bool), Seq<char>> {
    match required_arg_spec(args, "path"@, "path is required"@, true) {
        Err(e) => Err(e),
        Ok(p) => Ok((p, match json_bool_member(args, "recursive"@) { Some(b) => b, None => false })),
    }
}

/// Reads the file deletion's request from its JSON arguments.
pub fn delete_request(args: &str) -> (r: Result<(String, bool), String>)
    ensures
        delete_request_spec(args@) == match r {
            Ok((p, b)) => Ok((p@, b)),
            Err(e) => Err(e@),
        },
{
    let path = required_arg(args, "path", "path is required", true)?;
    let recursive = match bool_member(args, "recursive") {
        Some(b) => b,
        None => false,
    };
    Ok((path, recursive))
}

/// How a path is removed: a whole directory tree, an empty directory, or a file.
#[derive(Debug, PartialEq, Eq, Structural)]
pub enum DeleteAction {
    Tree,
    EmptyDirectory,
    File,
}

/// How the file deletion removes `path`, given whether it exists and is a directory: an
/// error when it does not exist; a directory tree when it is a directory and `recursive`
/// holds; else an empty directory or a file.
pub fn delete_action(path: &str, exists: bool, is_dir: bool, recursive: bool) -> (r: Result<DeleteAction, String>)
    ensures
        !exists <==> r is Err,
        r is Err ==> r->Err_0@ == "Path not found: "@ + path@,
        r is Ok ==> r->Ok_0 == if is_dir && recursive {
            DeleteAction::Tree
        } else if is_dir {
            DeleteAction::EmptyDirectory
        } else {
            DeleteAction::File
        },
{
    proof {
        reveal_strlit("");
    }
    if !exists {
        Err(concat3("Path not found: ", path, ""))
    } else if is_dir && recursive {
        Ok(DeleteAction::Tree)
    } else if is_dir {
        Ok(DeleteAction::EmptyDirectory)
    } else {
        Ok(DeleteAction::File)
    }
}

/// The reply of a deletion of `path` done as `a`.
pub fn delete_reply(a: DeleteAction, path: &str) -> (r: String)
    ensures
        r@ == (match a {
            DeleteAction::Tree => "Directory deleted: "@,
            DeleteAction::EmptyDirectory => "Empty directory deleted: "@,
            DeleteAction::File => "File deleted: "@,
        }) + path@,
{
    proof {
        reveal_strlit("");
    }
    match a {
        DeleteAction::Tree => concat3("Directory deleted: ", path, ""),
        DeleteAction::EmptyDirectory => concat3("Empty directory deleted: ", path, ""),
        DeleteAction::File => concat3("File deleted: ", path, ""),
    }
}

/// What the environment tool is asked for.
#[derive(Debug)]
pub enum EnvQuery {
    Os,
    Arch,
    Hostname,
    Cwd,
    Var(String),
}

/// The environment tool's request in the argument text: an error when it is not JSON,
/// names an unknown `info_type` (by default `os`), or asks for a variable without naming
/// it.
pub open spec fn env_query_spec(args: Seq<char>) -> Result<(Seq<char>, Option<Seq<char>>), Seq<char>> {
    match json_syntax_error(args) {
        Some(e) => Err("Invalid arguments: "@ + e),
        None => {
            let t = match json_str_member(args, "info_type"@) { Some(v) => v, None => "os"@ };
            if t == "os"@ || t == "arch"@ || t == "hostname"@ || t == "cwd"@ {
                Ok((t, None))
            } else if t == "env_var"@ {
                match json_str_member(args, "var_name"@) {
                    Some(n) => Ok((t, Some(n))),
                    None => Err("var_name is required for env_var action"@),
                }
            } else {
                Err("Unknown info_type: "@ + t)
            }
        },
    }
}

/// Reads the environment tool's request from its JSON arguments.
pub fn env_query(args: &str) -> (r: Result<EnvQuery, String>)
    ensures
        env_query_spec(args@) == match r {
            Ok(EnvQuery::Os) => Ok(("os"@, None)),
            Ok(EnvQuery::Arch) => Ok(("arch"@, None)),
            Ok(EnvQuery::Hostname) => Ok(("hostname"@, None)),
            Ok(EnvQuery::Cwd) => Ok(("cwd"@, None)),
            Ok(EnvQuery::Var(n)) => Ok(("env_var"@, Some(n@))),
            Err(e) => Err(e@),
        },
{
    proof {
        reveal_strlit("os");
        reveal_strlit("arch");
        reveal_strlit("hostname");
        reveal_strlit("cwd");
        reveal_strlit("env_var");
        reveal_strlit("");
    }
    if let Some(e) = json_error(args) {
        return Err(concat3("Invalid arguments: ", e.as_str(), ""));
    }
    let t = arg_or(args, "info_type", "os");
    let ts = t.as_str();
    if str_eq(ts, "os") {
        Ok(EnvQuery::Os)
    } else if str_eq(ts, "arch") {
        Ok(EnvQuery::Arch)
    } else if str_eq(ts, "hostname") {
        Ok(EnvQuery::Hostname)
    } else if str_eq(ts, "cwd") {
        Ok(EnvQuery::Cwd)
    } else if str_eq(ts, "env_var") {
        match str_member(args, "var_name") {
            Some(n) => Ok(EnvQuery::Var(n)),
            None => Err(str_to_string("var_name is required for env_var action")),
        }
    } else {
        Err(concat3("Unknown info_type: ", ts, ""))
    }
}

/// The date tool's format in the argument text: an error when it is not JSON; else its
/// `format` member, by default `human`.
pub fn date_format(args: &str) -> (r: Result<String, String>)
    ensures
        match json_syntax_error(args@) {
            Some(e) => r is Err && r->Err_0@ == "Invalid arguments: "@ + e,
            None => r is Ok && r->Ok_0@ == match json_str_member(args@, "format"@) {
                Some(v) => v,
                None => "human"@,
            },
        },
{
    proof {
        reveal_strlit("");
    }
    if let Some(e) = json_error(args) {
        return Err(concat3("Invalid arguments: ", e.as_str(), ""));
    }
    Ok(arg_or(args, "format", "human"))
}

} // verus!
