use mahakala::agent::reply::{read_reply, tool_round};

#[test]
fn openai_reply_is_read() {
    let text = r#"{"choices":[{"message":{"content":"hi","reasoning_content":"think","tool_calls":[{"id":"c1","type":"function","function":{"name":"calculator","arguments":"{\"expression\":\"1+1\"}"}}]}}],"usage":{"prompt_tokens":3,"completion_tokens":4,"total_tokens":7}}"#;
    let r = read_reply(text, false).unwrap();
    assert_eq!(r.content, "hi");
    assert_eq!(r.reasoning.as_deref(), Some("think"));
    assert_eq!(r.usage, Some((Some(3), Some(4), Some(7))));
    let calls = r.calls.unwrap();
    assert_eq!(calls.len(), 1);
    let (runs, recorded) = tool_round(&calls);
    assert_eq!(runs, vec![("c1".to_string(), "calculator".to_string(), "{\"expression\":\"1+1\"}".to_string())]);
    let recorded = recorded.unwrap();
    assert_eq!(recorded[0].call_type, "function");
    assert_eq!(recorded[0].function.name, "calculator");
}

#[test]
fn openai_reasoning_falls_back_and_content_defaults() {
    let r = read_reply(r#"{"choices":[{"message":{"reasoning":"r","content":null}}]}"#, false).unwrap();
    assert_eq!(r.content, "");
    assert_eq!(r.reasoning.as_deref(), Some("r"));
    assert!(r.calls.is_none());
    assert!(r.usage.is_none());
    let r = read_reply(r#"{"choices":[{"message":{"reasoning_content":5,"reasoning":"r"}}]}"#, false).unwrap();
    assert!(r.reasoning.is_none());
    let r = read_reply(r#"{"other":1}"#, false).unwrap();
    assert_eq!(r.content, "");
}

#[test]
fn anthropic_reply_is_read() {
    let text = r#"{"content":[{"type":"text","text":"first"},{"type":"tool_use","id":"t1","name":"todo","input":{"action":"list"}},{"type":"text","text":"last"}],"usage":{"input_tokens":5,"output_tokens":6}}"#;
    let r = read_reply(text, true).unwrap();
    assert_eq!(r.content, "last");
    assert!(r.reasoning.is_none());
    assert_eq!(r.usage, Some((Some(5), Some(6), None)));
    let calls = r.calls.unwrap();
    let (runs, recorded) = tool_round(&calls);
    assert_eq!(runs, vec![("t1".to_string(), "todo".to_string(), "{\"action\":\"list\"}".to_string())]);
    assert_eq!(recorded.unwrap()[0].id, "t1");
}

#[test]
fn replies_that_are_not_json_are_errors() {
    assert!(read_reply("not json", false).is_err());
    assert!(read_reply("{", true).is_err());
}

#[test]
fn incomplete_calls_run_but_are_not_recorded() {
    let text = r#"{"choices":[{"message":{"content":"","tool_calls":[{"function":{"name":"todo"}},{"id":"x"}]}}]}"#;
    let calls = read_reply(text, false).unwrap().calls.unwrap();
    assert_eq!(calls.len(), 2);
    let (runs, recorded) = tool_round(&calls);
    assert_eq!(runs, vec![("".to_string(), "todo".to_string(), "{}".to_string())]);
    assert!(recorded.is_none());
}
