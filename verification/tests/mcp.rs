use mahakala::mcp::{object_schema_text, McpClient, McpToolCall};

fn add(client: &mut McpClient, id: &str, name: &str, url: &str, description: &str) {
    client.add_server(id.to_string(), name.to_string(), url.to_string(), description.to_string()).unwrap();
}

#[test]
fn test_add_server() {
    let mut client = McpClient::new();
    let result = client.add_server(
        "test_server".to_string(),
        "Test Server".to_string(),
        "http://localhost:3000".to_string(),
        "Test MCP server".to_string(),
    );
    assert!(result.is_ok());
    assert_eq!(client.get_server_count(), 1);
}

#[test]
fn test_connect_server() {
    let mut client = McpClient::new();
    add(&mut client, "test_server", "Test Server", "http://localhost:3000", "Test MCP server");

    let tools = client.connect_server("test_server");
    assert!(tools.is_ok());
    assert!(!tools.unwrap().is_empty());
}

#[test]
fn test_list_servers() {
    let mut client = McpClient::new();
    let servers = client.list_servers();
    assert!(servers.is_empty());

    add(&mut client, "server1", "Server 1", "http://localhost:3001", "Server 1");

    let servers = client.list_servers();
    assert_eq!(servers.len(), 1);
}

#[test]
fn mcp_connected_server_offers_two_tools() {
    let mut client = McpClient::new();
    add(&mut client, "s", "S", "u", "d");
    let tools = client.connect_server("s").unwrap();
    assert_eq!(tools[0].name, "s_search");
    assert_eq!(tools[0].description, "Search using S");
    assert_eq!(tools[1].name, "s_fetch");
    assert_eq!(tools[1].description, "Fetch content using S");
    assert_eq!(tools[0].schema["required"][0], "query");
    assert_eq!(tools[1].schema["properties"]["url"]["description"], "URL to fetch");
    assert_eq!(client.get_all_tools().len(), 2);
    assert_eq!(client.get_connected_count(), 1);
    client.disconnect_server("s").unwrap();
    assert!(client.get_all_tools().is_empty());
}

#[test]
fn mcp_schema_text_is_json() {
    let text = object_schema_text("query", "Search query");
    let v: serde_json::Value = serde_json::from_str(&text).unwrap();
    assert_eq!(v["type"], "object");
    assert_eq!(v["properties"]["query"]["type"], "string");
}

#[test]
fn mcp_execute_tool_checks_server_and_tool() {
    let mut client = McpClient::new();
    add(&mut client, "s", "S", "u", "d");
    let call = |name: &str| McpToolCall { server_id: "s".to_string(), tool_name: name.to_string(), arguments: serde_json::Value::Bool(true) };
    assert_eq!(client.execute_tool(call("s_search")).unwrap_err().to_text(), "Internal error: MCP server s is not connected");
    client.connect_server("s").unwrap();
    assert_eq!(client.execute_tool(call("s_search")).unwrap(), "MCP tool s_search executed with args: true");
    assert_eq!(client.execute_tool(call("other")).unwrap_err().to_text(), "Not found: Tool other not found in server s");
}
