use mahakala::agent::conversation::Message;
use mahakala::agent::request::{
    anthropic_payload, find_inline_tool_calls, merge_inline_results, remove_occurrences,
    request_messages, sends_tools, system_prompt, tool_outcome_text,
};

fn msg(role: &str, content: &str) -> Message {
    Message { role: role.to_string(), content: content.to_string(), tool_calls: None, tool_call_id: None, reasoning: None }
}

#[test]
fn system_prompt_lists_tools_and_time() {
    let tools = vec![
        ("calculator".to_string(), "Perform mathematical calculations".to_string()),
        ("todo".to_string(), "Manage todo list".to_string()),
    ];
    let p = system_prompt(&tools, "2024-01-02 03:04:05");
    assert!(p.starts_with("You are Mahakala Agent"));
    assert!(p.contains("following tools to help users:\n- calculator: Perform mathematical calculations\n- todo: Manage todo list\n\n## Skill System"));
    assert!(p.contains("<tool_call>\n{{\"name\": \"tool_name\", \"arguments\": {{\"param\": \"value\"}}}}\n</tool_call>"));
    assert!(p.ends_with("Current time: 2024-01-02 03:04:05"));
}

#[test]
fn request_messages_adds_system_prompt_once() {
    let history = vec![msg("user", "hi")];
    let r = request_messages(&history, "PROMPT", false);
    assert_eq!(r.len(), 2);
    assert_eq!(r[0].role, "system");
    assert_eq!(r[0].content, "PROMPT");
    assert_eq!(r[1].content, "hi");

    let with_system = vec![msg("system", "own"), msg("user", "hi")];
    let r = request_messages(&with_system, "PROMPT", false);
    assert_eq!(r.len(), 2);
    assert_eq!(r[0].content, "own");
}

#[test]
fn request_messages_for_anthropic_sends_system_and_tool_as_user() {
    let history = vec![msg("user", "hi"), msg("assistant", "calling"), msg("tool", "4")];
    let r = request_messages(&history, "PROMPT", true);
    let roles: Vec<&str> = r.iter().map(|m| m.role.as_str()).collect();
    assert_eq!(roles, vec!["user", "user", "assistant", "user"]);
}

#[test]
fn tools_are_sent_unless_ollama_or_none() {
    assert!(sends_tools(3, false));
    assert!(!sends_tools(3, true));
    assert!(!sends_tools(0, false));
}

#[test]
fn anthropic_payload_splits_out_system() {
    let ms = vec![msg("system", "S1"), msg("user", "u"), msg("system", "S2"), msg("assistant", "a")];
    let (system, turns) = anthropic_payload(&ms);
    assert_eq!(system, "S1");
    assert_eq!(turns, vec![("user".to_string(), "u".to_string()), ("assistant".to_string(), "a".to_string())]);
    let (system, turns) = anthropic_payload(&vec![msg("user", "u")]);
    assert_eq!(system, "");
    assert_eq!(turns.len(), 1);
}

#[test]
fn tool_outcome_text_marks_errors() {
    assert_eq!(tool_outcome_text(Ok("4".to_string())), "4");
    assert_eq!(tool_outcome_text(Err("boom".to_string())), "Error: boom");
}

#[test]
fn inline_tool_calls_are_found_in_order() {
    let content = "first <tool_call>{\"name\": \"calculator\", \"arguments\": {\"expression\": \"2+2\"}}</tool_call> then <tool_call> {\"name\": \"todo\"} </tool_call>";
    let calls = find_inline_tool_calls(content);
    assert_eq!(calls.len(), 2);
    assert_eq!(calls[0].name, "calculator");
    assert_eq!(calls[0].arguments, "{\"expression\":\"2+2\"}");
    assert_eq!(calls[1].name, "todo");
    assert_eq!(calls[1].arguments, "{}");
    assert!(calls[1].whole.starts_with("<tool_call>"));
}

#[test]
fn inline_calls_that_are_not_json_are_skipped() {
    let calls = find_inline_tool_calls("<tool_call>{not json}</tool_call>");
    assert!(calls.is_empty());
    assert!(find_inline_tool_calls("no calls here").is_empty());
}

#[test]
fn remove_occurrences_removes_every_match() {
    assert_eq!(remove_occurrences("abcabcab", "ab"), "cc");
    assert_eq!(remove_occurrences("aaa", "aa"), "a");
    assert_eq!(remove_occurrences("text", ""), "text");
}

#[test]
fn inline_results_are_merged_into_reply() {
    let content = "Let me compute. <tool_call>{\"name\": \"calculator\", \"arguments\": {\"expression\": \"2+2\"}}</tool_call>";
    let calls = find_inline_tool_calls(content);
    let ran: Vec<_> = calls.into_iter().map(|c| (c, Ok("4".to_string()))).collect();
    let merged = merge_inline_results(content, &ran);
    assert_eq!(merged, "Let me compute.\n\n工具 'calculator' 执行结果:\n4");
}

#[test]
fn failed_inline_results_are_reported() {
    let content = "<tool_call>{\"name\": \"x\"}</tool_call>";
    let calls = find_inline_tool_calls(content);
    let ran: Vec<_> = calls.into_iter().map(|c| (c, Err("no tool".to_string()))).collect();
    assert_eq!(merge_inline_results(content, &ran), "\n\n工具 'x' 执行失败: no tool");
    assert_eq!(merge_inline_results("plain", &vec![]), "plain");
}
