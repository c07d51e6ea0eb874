use mahakala::tools::{
    apply_todo, calculator, directory_listing, memory_tool, register_all_tools, search_report, FoundEntry, json_tool, list_todos, text_tool, todo_request, ToolEntry, ToolRegistry, ToolRun,
};

fn entry(name: &str) -> ToolEntry {
    ToolEntry {
        name: name.to_string(),
        description: format!("{} tool", name),
        schema: serde_json::from_str(&format!("{{\"type\": \"function\", \"function\": {{\"name\": \"{}\"}}}}", name)).unwrap(),
    }
}

#[test]
fn test_tool_registry_registration() {
    let mut registry = ToolRegistry::new();
    register_all_tools(&mut registry);
    assert!(registry.count() > 0, "Tools should be registered");
}

#[test]
fn test_calculator_tool() {
    let mut registry = ToolRegistry::new();
    register_all_tools(&mut registry);
    let result = match registry.execute_tool("calculator", r#"{"expression": "2 + 2"}"#) {
        Ok(ToolRun::Done(result)) => result,
        _ => panic!("the calculator runs in the library"),
    };
    assert!(result.is_ok(), "Calculator should execute successfully");
    assert_eq!(result.unwrap(), "4", "2 + 2 should equal 4");
}

#[test]
fn test_tool_schemas() {
    let mut registry = ToolRegistry::new();
    register_all_tools(&mut registry);
    let schemas = registry.get_tool_schemas();
    assert!(!schemas.is_empty(), "Tool schemas should not be empty");
    for schema in &schemas {
        assert!(schema.get("type").is_some(), "Each schema should have a type field");
        let function = schema.get("function").expect("Schema should have a function object");
        assert!(function.get("name").is_some(), "Each function should have a name");
        assert!(function.get("description").is_some(), "Each function should have a description");
        assert!(function.get("parameters").is_some(), "Each function should have parameters");
    }
}

#[test]
fn registering_replaces_by_name() {
    let mut registry = ToolRegistry::new();
    register_all_tools(&mut registry);
    assert_eq!(registry.count(), 15);
    registry.register(entry("calculator"));
    assert_eq!(registry.count(), 15);
    registry.register(entry("extra"));
    assert_eq!(registry.count(), 16);
}

#[test]
fn calculator_errors() {
    assert_eq!(calculator(r#"{"expression": "2 * (3 + 4)"}"#).unwrap(), "14");
    assert!(calculator(r#"{"expression": "1 +"}"#).unwrap().starts_with("Error evaluating expression: "));
    assert_eq!(calculator(r#"{}"#).unwrap_err(), "Missing 'expression' parameter");
    assert!(calculator("not json").is_err());
}

#[test]
fn unknown_and_external_tools() {
    let mut registry = ToolRegistry::new();
    registry.register(entry("shell_exec"));
    assert_eq!(registry.execute_tool("nope", "{}").unwrap_err(), "Tool not found: nope");
    assert!(matches!(registry.execute_tool("shell_exec", "{}"), Ok(ToolRun::External)));
}

#[test]
fn text_tool_actions() {
    assert_eq!(text_tool(r#"{"action": "count", "text": "hello big\nworld"}"#).unwrap(), "Words: 3, Characters: 15, Lines: 2");
    assert_eq!(text_tool(r#"{"text": ""}"#).unwrap(), "Words: 0, Characters: 0, Lines: 0");
    assert_eq!(text_tool(r#"{"action": "count", "text": "a\n"}"#).unwrap(), "Words: 1, Characters: 2, Lines: 1");
    assert_eq!(text_tool(r#"{"action": "uppercase", "text": "abc"}"#).unwrap(), "ABC");
    assert_eq!(text_tool(r#"{"action": "lowercase", "text": "AbC"}"#).unwrap(), "abc");
    assert_eq!(text_tool(r#"{"action": "reverse", "text": "abc"}"#).unwrap(), "cba");
    assert_eq!(text_tool(r#"{"action": "trim", "text": "  x  "}"#).unwrap(), "x");
    assert_eq!(text_tool(r#"{"action": "shout", "text": "x"}"#).unwrap_err(), "Unknown action: shout");
    assert!(text_tool("{").unwrap_err().starts_with("Invalid arguments: "));
}

#[test]
fn json_tool_actions() {
    assert_eq!(json_tool(r#"{"action": "validate", "data": "[1]"}"#).unwrap(), "Valid JSON");
    assert_eq!(json_tool(r#"{"action": "keys", "data": "{\"b\": 1, \"a\": 2}"}"#).unwrap(), "Keys: a, b");
    assert_eq!(json_tool(r#"{"action": "keys", "data": "[1]"}"#).unwrap(), "Not a JSON object");
    assert_eq!(json_tool(r#"{"data": "{\"a\":1}"}"#).unwrap(), "{\n  \"a\": 1\n}");
    assert!(json_tool(r#"{"action": "keys", "data": "{"}"#).unwrap_err().starts_with("Invalid JSON: "));
    assert_eq!(json_tool(r#"{"action": "drop", "data": "1"}"#).unwrap_err(), "Unknown action: drop");
}

#[test]
fn todo_list_changes() {
    let add = todo_request(r#"{"action": "add", "task": "buy milk"}"#).unwrap();
    let (msg, stored) = apply_todo(None, &add).unwrap();
    assert_eq!(msg, "Added todo: buy milk");
    let stored = stored.unwrap();
    assert_eq!(stored, "[\n  \"buy milk\"\n]");

    let add2 = todo_request(r#"{"action": "add", "task": "walk"}"#).unwrap();
    let (_, stored) = apply_todo(Some(&stored), &add2).unwrap();
    let stored = stored.unwrap();

    let list = todo_request(r#"{"action": "list"}"#).unwrap();
    assert_eq!(apply_todo(Some(&stored), &list).unwrap(), ("1. buy milk\n2. walk".to_string(), None));
    assert_eq!(apply_todo(None, &list).unwrap(), ("No todos".to_string(), None));

    let done = todo_request(r#"{"action": "complete", "index": 1}"#).unwrap();
    let (msg, after) = apply_todo(Some(&stored), &done).unwrap();
    assert_eq!(msg, "Completed: buy milk");
    assert_eq!(after.unwrap(), "[\n  \"walk\"\n]");

    let bad = todo_request(r#"{"action": "remove", "index": 5}"#).unwrap();
    assert_eq!(apply_todo(Some(&stored), &bad).unwrap(), ("Invalid index".to_string(), None));
    let rm = todo_request(r#"{"action": "remove"}"#).unwrap();
    assert_eq!(rm.index, 0);
    assert_eq!(apply_todo(Some(&stored), &rm).unwrap().0, "Invalid index");

    assert_eq!(todo_request(r#"{"task": "x"}"#).unwrap_err(), "Missing 'action' parameter");
    let missing = todo_request(r#"{"action": "add"}"#).unwrap();
    assert_eq!(apply_todo(None, &missing).unwrap_err(), "Missing 'task' for add action");
    let odd = todo_request(r#"{"action": "sort"}"#).unwrap();
    assert_eq!(apply_todo(None, &odd).unwrap_err(), "Unknown action: sort");
    assert_eq!(list_todos(&vec!["a".to_string()]), "1. a");
}

#[test]
fn file_search_reports_matching_entries() {
    let entries = vec![
        FoundEntry { name: "src".to_string(), path: "./src".to_string(), is_dir: true, size: None },
        FoundEntry { name: "main.rs".to_string(), path: "./src/main.rs".to_string(), is_dir: false, size: Some(120) },
        FoundEntry { name: "lib.rs".to_string(), path: "./src/lib.rs".to_string(), is_dir: false, size: None },
    ];
    assert_eq!(search_report(&entries, "rs", "all"), "Found 2 files:\n./src/main.rs (file) - 120 bytes\n./src/lib.rs (file) - Unknown");
    assert_eq!(search_report(&entries, "", "directory"), "Found 1 files:\n./src (dir) - N/A");
    assert_eq!(search_report(&entries, "src", "file"), "No files found matching pattern: 'src'");
}

#[test]
fn directory_listings_mark_directories() {
    let entries = vec![("docs".to_string(), true), ("a.txt".to_string(), false)];
    assert_eq!(directory_listing(&entries), "[D] docs\n    a.txt");
    assert_eq!(directory_listing(&vec![]), "");
}

#[test]
fn memory_tool_stores_and_retrieves() {
    let (reply, stored) = memory_tool(None, r#"{"action": "store", "key": "b", "value": "2"}"#).unwrap();
    assert_eq!(reply, "Stored memory: b");
    let stored = stored.unwrap();
    assert_eq!(stored, "{\n  \"b\": \"2\"\n}");
    let (_, stored) = memory_tool(Some(&stored), r#"{"action": "store", "key": "a", "value": "1"}"#).unwrap();
    let stored = stored.unwrap();
    assert_eq!(stored, "{\n  \"a\": \"1\",\n  \"b\": \"2\"\n}");
    assert_eq!(memory_tool(Some(&stored), r#"{"action": "retrieve", "key": "a"}"#).unwrap(), ("1".to_string(), None));
    assert_eq!(memory_tool(Some(&stored), r#"{"action": "retrieve", "key": "z"}"#).unwrap().0, "No memory found for key: z");
    assert_eq!(memory_tool(Some(&stored), r#"{"action": "list"}"#).unwrap().0, "Memory keys: [\"a\", \"b\"]");
    assert_eq!(memory_tool(None, r#"{"action": "store", "key": "k"}"#).unwrap_err(), "Missing 'value' for store action");
    assert_eq!(memory_tool(None, r#"{"key": "k"}"#).unwrap_err(), "Missing 'action' parameter");
    assert_eq!(memory_tool(None, r#"{"action": "wipe"}"#).unwrap_err(), "Unknown action: wipe");
}
