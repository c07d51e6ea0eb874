use mahakala::tools::{
    arg_or, calculator, date_format, delete_action, delete_reply, delete_request, env_query, http_reply, http_request_of,
    is_safe_expression, required_arg, search_request, DeleteAction, EnvQuery,
};

#[test]
fn calculator_refuses_panicking_functions() {
    assert!(!is_safe_expression("str::substring(\"é\", 0, 1)"));
    assert!(!is_safe_expression("shl(1, 70)"));
    assert!(is_safe_expression("1 + 2"));
    let r = calculator(r#"{"expression": "shr(1, 2)"}"#).unwrap();
    assert_eq!(r, "Error evaluating expression: expressions longer than 1024 characters and the functions str::substring, shl, shr and math::abs are not supported");
    let long = format!("{}1", "-".repeat(1024));
    assert!(!is_safe_expression(&long));
    let args = format!("{{\"expression\": \"{}\"}}", long);
    assert!(calculator(&args).unwrap().starts_with("Error evaluating expression: expressions longer than 1024"));
}

#[test]
fn calculator_survives_the_deepest_expressions_it_accepts() {
    let brackets = format!("{}1{}", "(".repeat(511), ")".repeat(511));
    let minus = format!("{}1", "-".repeat(1023));
    let sum = format!("1{}", "+1".repeat(511));
    for e in [brackets, minus, sum] {
        assert!(is_safe_expression(&e));
        let args = format!("{{\"expression\": \"{}\"}}", e);
        assert!(calculator(&args).is_ok());
    }
    let args = format!("{{\"expression\": \"{}\"}}", format!("1{}", "+1".repeat(511)));
    assert_eq!(calculator(&args).unwrap(), "512");
}

#[test]
fn http_request_defaults_to_get() {
    let q = http_request_of(r#"{"url": "http://example.com", "headers": {"A": "1", "B": 2}, "body": "x"}"#).unwrap();
    assert_eq!(q.method, "GET");
    assert_eq!(q.url, "http://example.com");
    assert_eq!(q.headers, vec![("A".to_string(), "1".to_string())]);
    assert_eq!(q.body, Some("x".to_string()));
}

#[test]
fn http_request_errors() {
    assert_eq!(http_request_of(r#"{"method": "POST"}"#).unwrap_err(), "url is required");
    assert_eq!(
        http_request_of(r#"{"method": "PATCH", "url": "http://a"}"#).unwrap_err(),
        "Unsupported HTTP method: PATCH"
    );
    assert!(http_request_of("{").unwrap_err().starts_with("Invalid arguments: "));
    let q = http_request_of(r#"{"method": "DELETE", "url": "http://a"}"#).unwrap();
    assert_eq!(q.method, "DELETE");
    assert!(q.headers.is_empty());
    assert_eq!(q.body, None);
}

#[test]
fn http_reply_layout() {
    assert_eq!(http_reply("200 OK", "hi"), "Status: 200 OK\n\nhi");
}

#[test]
fn required_arg_messages() {
    assert_eq!(required_arg(r#"{"path": "/tmp"}"#, "path", "Missing 'path' parameter", false).unwrap(), "/tmp");
    assert_eq!(
        required_arg(r#"{}"#, "path", "Missing 'path' parameter", false).unwrap_err(),
        "Missing 'path' parameter"
    );
    let plain = required_arg("[", "path", "m", false).unwrap_err();
    let prefixed = required_arg("[", "path", "m", true).unwrap_err();
    assert_eq!(prefixed, format!("Invalid arguments: {}", plain));
    assert_eq!(arg_or(r#"{"a": "b"}"#, "c", "d"), "d");
    assert_eq!(arg_or(r#"{"a": "b"}"#, "a", "d"), "b");
}

#[test]
fn search_request_defaults() {
    let q = search_request("{}").unwrap();
    assert_eq!((q.path.as_str(), q.pattern.as_str(), q.kind.as_str(), q.max_depth), (".", "", "all", 3));
    let q = search_request(r#"{"path": "src", "pattern": ".rs", "file_type": "file", "max_depth": 1}"#).unwrap();
    assert_eq!((q.path.as_str(), q.pattern.as_str(), q.kind.as_str(), q.max_depth), ("src", ".rs", "file", 1));
    assert!(search_request("x").is_err());
}

#[test]
fn delete_request_and_action() {
    assert_eq!(delete_request(r#"{"path": "a", "recursive": true}"#).unwrap(), ("a".to_string(), true));
    assert_eq!(delete_request(r#"{"path": "a"}"#).unwrap(), ("a".to_string(), false));
    assert_eq!(delete_request("{}").unwrap_err(), "path is required");
    assert_eq!(delete_action("a", false, false, false).unwrap_err(), "Path not found: a");
    assert_eq!(delete_action("a", true, true, true).unwrap(), DeleteAction::Tree);
    assert_eq!(delete_action("a", true, true, false).unwrap(), DeleteAction::EmptyDirectory);
    assert_eq!(delete_action("a", true, false, true).unwrap(), DeleteAction::File);
    assert_eq!(delete_reply(DeleteAction::Tree, "d"), "Directory deleted: d");
    assert_eq!(delete_reply(DeleteAction::EmptyDirectory, "d"), "Empty directory deleted: d");
    assert_eq!(delete_reply(DeleteAction::File, "f"), "File deleted: f");
}

#[test]
fn env_and_date_arguments() {
    assert!(matches!(env_query("{}").unwrap(), EnvQuery::Os));
    assert!(matches!(env_query(r#"{"info_type": "cwd"}"#).unwrap(), EnvQuery::Cwd));
    assert!(matches!(env_query(r#"{"info_type": "env_var", "var_name": "HOME"}"#).unwrap(), EnvQuery::Var(n) if n == "HOME"));
    assert_eq!(env_query(r#"{"info_type": "env_var"}"#).unwrap_err(), "var_name is required for env_var action");
    assert_eq!(env_query(r#"{"info_type": "x"}"#).unwrap_err(), "Unknown info_type: x");
    assert_eq!(date_format("{}").unwrap(), "human");
    assert_eq!(date_format(r#"{"format": "iso"}"#).unwrap(), "iso");
}
