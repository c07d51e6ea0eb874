use mahakala::agent::conversation::{Conversation, ToolCallResult, TurnStep, MAX_TOOL_ITERATIONS};
use mahakala::agent::provider::api_response;
use mahakala::agent::reply::read_reply;

const TOOL_REPLY: &str = r#"{"choices":[{"message":{"content":"","tool_calls":[{"id":"c1","type":"function","function":{"name":"calculator","arguments":"{}"}}]}}]}"#;

#[test]
fn a_turn_of_tool_replies_sends_fifty_requests_then_gives_up() {
    let mut c = Conversation::new();
    let mut step = c.start_turn("hi");
    let mut requests = 0;
    let answer = loop {
        step = match step {
            TurnStep::Request => {
                requests += 1;
                c.on_reply(read_reply(TOOL_REPLY, false).unwrap(), false, false)
            }
            TurnStep::RunTools(runs) => {
                assert_eq!(runs, vec![("c1".to_string(), "calculator".to_string(), "{}".to_string())]);
                c.on_tool_results(vec![ToolCallResult { tool_call_id: "c1".to_string(), content: "2".to_string() }])
            }
            TurnStep::RunInline(_) => panic!("no inline calls without Ollama"),
            TurnStep::Done(a) => break a,
        };
    };
    assert_eq!(requests, MAX_TOOL_ITERATIONS);
    assert_eq!(answer, "已达到最大工具调用次数限制");
    // The user's message, then per round the request and one result.
    assert_eq!(c.history().len(), 1 + 2 * MAX_TOOL_ITERATIONS);
}

#[test]
fn a_plain_reply_ends_the_turn_with_its_usage() {
    let mut c = Conversation::new();
    assert!(matches!(c.start_turn("hello"), TurnStep::Request));
    let reply = read_reply(r#"{"choices":[{"message":{"content":"hi there"}}],"usage":{"prompt_tokens":3,"completion_tokens":4,"total_tokens":7}}"#, false).unwrap();
    match c.on_reply(reply, false, false) {
        TurnStep::Done(a) => assert_eq!(a, "hi there"),
        other => panic!("unexpected step {:?}", other),
    }
    let u = c.usage();
    assert_eq!((u.prompt_tokens, u.completion_tokens, u.total_tokens), (3, 4, 7));
    assert_eq!(c.history().len(), 2);
    assert_eq!(c.history()[1].content, "hi there");
}

#[test]
fn ollama_replies_run_their_inline_calls() {
    let mut c = Conversation::new();
    c.start_turn("hello");
    let text = r#"{"choices":[{"message":{"content":"Result: <tool_call>{\"name\": \"calculator\", \"arguments\": {\"expression\": \"1+1\"}}</tool_call>"}}]}"#;
    let reply = read_reply(text, false).unwrap();
    let calls = match c.on_reply(reply, true, false) {
        TurnStep::RunInline(calls) => calls,
        other => panic!("unexpected step {:?}", other),
    };
    assert_eq!(calls.len(), 1);
    assert_eq!(calls[0].name, "calculator");
    let ran: Vec<_> = calls.into_iter().map(|call| (call, Ok("2".to_string()))).collect();
    match c.on_inline_results(ran) {
        TurnStep::Done(a) => assert_eq!(a, "Result:\n\n工具 'calculator' 执行结果:\n2"),
        other => panic!("unexpected step {:?}", other),
    }
}

#[test]
fn api_responses_by_status() {
    assert_eq!(api_response(200, "200 OK", "body".to_string()), Ok("body".to_string()));
    assert_eq!(api_response(299, "299", "b".to_string()), Ok("b".to_string()));
    assert_eq!(
        api_response(404, "404 Not Found", "nope".to_string()),
        Err("API error 404 Not Found: nope".to_string())
    );
    assert_eq!(api_response(199, "199", "x".to_string()).unwrap_err(), "API error 199: x");
}
