use mahakala::browser::{BrowserConfig, BrowserManager};

fn manager() -> BrowserManager {
    BrowserManager::new(BrowserConfig {
        browser_type: "chromium".to_string(),
        headless: true,
        viewport_width: 1920,
        viewport_height: 1080,
        user_agent: None,
    })
}

#[test]
fn test_launch_browser() {
    let mut manager = manager();
    let id = manager.launch_browser(None);
    assert!(id.is_ok());
    assert_eq!(manager.list_instances().len(), 1);
}

#[test]
fn test_navigate_and_close() {
    let mut manager = manager();
    let id = manager.launch_browser(None).unwrap();
    manager.navigate(&id, "https://example.com").unwrap();

    let instances = manager.list_instances();
    assert_eq!(instances[0].url, Some("https://example.com".to_string()));

    manager.close_browser(&id).unwrap();
    let instances = manager.list_instances();
    assert!(!instances[0].is_active);
}

#[test]
fn test_get_content() {
    let mut manager = manager();
    let id = manager.launch_browser(None).unwrap();
    manager.navigate(&id, "https://example.com").unwrap();

    let content = manager.get_content(&id);
    assert!(content.is_ok());
    assert_eq!(content.unwrap().url, "https://example.com");
}

#[test]
fn browser_actions_report_page() {
    let mut manager = manager();
    let id = manager.launch_browser(Some("firefox".to_string())).unwrap();
    assert_eq!(manager.click(&id, "#go").unwrap(), "Clicked on '#go' in unknown");
    manager.navigate(&id, "https://a.b").unwrap();
    assert_eq!(manager.fill(&id, "#q", "x").unwrap(), "Filled '#q' with 'x' in https://a.b");
    assert_eq!(manager.evaluate(&id, "1+1").unwrap(), "Evaluated script in https://a.b: 1+1");
    assert_eq!(manager.get_content(&id).unwrap().title, "Page: https://a.b");
    let shot = manager.screenshot(&id, "/tmp/s.png", "png").unwrap();
    assert_eq!((shot.width, shot.height), (1920, 1080));
    assert_eq!(manager.list_instances()[0].browser_type, "firefox");
}

#[test]
fn browser_closed_instance_refuses_actions() {
    let mut manager = manager();
    let id = manager.launch_browser(None).unwrap();
    manager.close_browser(&id).unwrap();
    assert_eq!(manager.click(&id, "a").unwrap_err().to_text(), format!("Internal error: Browser instance {} is not active", id));
    assert_eq!(manager.navigate("nope", "u").unwrap_err().to_text(), "Not found: Browser instance nope not found");
    let stats = manager.get_stats();
    assert_eq!(stats.total_instances, 1);
    assert_eq!(stats.active_instances, 0);
}
