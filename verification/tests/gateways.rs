use mahakala::gateways::{GatewayConfig, GatewayManager};

fn gateway(id: &str, platform: &str, name: &str, enabled: bool) -> GatewayConfig {
    GatewayConfig {
        id: id.to_string(),
        platform: platform.to_string(),
        name: name.to_string(),
        enabled,
        token: "test_token".to_string(),
        webhook_url: None,
        settings: serde_json::Value::Object(serde_json::Map::new()),
    }
}

#[test]
fn test_add_gateway() {
    let mut manager = GatewayManager::new();
    let result = manager.add_gateway(gateway("telegram_1", "telegram", "Telegram Bot", false));
    assert!(result.is_ok());
    assert_eq!(manager.list_gateways().len(), 1);
}

#[test]
fn test_enable_disable_gateway() {
    let mut manager = GatewayManager::new();
    manager.add_gateway(gateway("discord_1", "discord", "Discord Bot", false)).unwrap();
    manager.enable_gateway("discord_1").unwrap();

    let g = manager.get_gateway("discord_1").unwrap();
    assert!(g.enabled);

    manager.disable_gateway("discord_1").unwrap();
    let g = manager.get_gateway("discord_1").unwrap();
    assert!(!g.enabled);
}

#[test]
fn test_send_message() {
    let mut manager = GatewayManager::new();
    manager.add_gateway(gateway("slack_1", "slack", "Slack Bot", true)).unwrap();
    let result = manager.send_message("slack_1", "channel_1", "Hello!");
    assert!(result.is_ok());
    assert_eq!(manager.get_message_count("slack_1"), 1);
}

#[test]
fn gateways_disabled_gateway_refuses_to_send() {
    let mut manager = GatewayManager::new();
    manager.add_gateway(gateway("g", "slack", "G", false)).unwrap();
    assert_eq!(manager.send_message("g", "c", "x").unwrap_err().to_text(), "Internal error: Gateway g is not enabled");
    assert_eq!(manager.send_message("h", "c", "x").unwrap_err().to_text(), "Not found: Gateway h not found");
    assert_eq!(manager.get_message_count("g"), 0);
}

#[test]
fn gateways_report_names_platform_and_message() {
    let mut manager = GatewayManager::new();
    manager.add_gateway(gateway("g", "slack", "G", true)).unwrap();
    let report = manager.send_message_as("g", "c", "x", "m-1").unwrap();
    assert_eq!(report, "Message sent via slack: m-1");
    let status = manager.get_status("g").unwrap();
    assert!(status.connected);
    assert_eq!(status.message_count, 1);
    assert_eq!(manager.list_statuses().len(), 1);
}
