use mahakala::gateway::GatewayManager;

#[test]
fn gateway_hub_starts_with_five_platforms() {
    let manager = GatewayManager::new();
    assert_eq!(manager.list_platforms().len(), 5);
    assert!(manager.list_connected().is_empty());
    assert_eq!(manager.get_platform("qqbot").unwrap().platform_type, "qq");
}

#[test]
fn gateway_connect_and_disconnect() {
    let mut manager = GatewayManager::new();
    let p = manager.connect_platform("telegram").unwrap();
    assert!(p.connected && p.enabled);
    assert_eq!(manager.list_connected().len(), 1);
    let p = manager.disconnect_platform("telegram").unwrap();
    assert!(!p.connected && p.enabled);
    assert_eq!(manager.connect_platform("x").unwrap_err().to_text(), "Not found: Platform x not found");
}

#[test]
fn gateway_messages_and_read_marks() {
    let mut manager = GatewayManager::new();
    let m1 = manager.add_message("wechat", "hi", "alice");
    let _m2 = manager.add_message("discord", "yo", "bob");
    assert_eq!(manager.list_messages().len(), 2);
    assert_eq!(manager.list_messages_by_platform("wechat").len(), 1);
    assert_eq!(manager.get_unread_count(), 2);
    assert_eq!(manager.mark_read(&m1.id).unwrap(), true);
    assert_eq!(manager.get_unread_count(), 1);
    assert!(manager.mark_read("nope").is_err());
}

#[test]
fn platform_config_is_replaced_and_kept() {
    let mut hub = GatewayManager::new();
    assert_eq!(hub.get_platform("telegram").unwrap().config, serde_json::Value::Null);
    let config: serde_json::Value = serde_json::from_str(r#"{"token": "t"}"#).unwrap();
    let p = hub.update_platform_config("telegram", config.clone()).unwrap();
    assert_eq!(p.config, config);
    hub.connect_platform("telegram").unwrap();
    assert_eq!(hub.get_platform("telegram").unwrap().config, config);
    assert!(hub.update_platform_config("nope", config).is_err());
}
