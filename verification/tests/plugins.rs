use mahakala::plugins::{plugin_id_of, PluginCreate, PluginManager, PluginManifest, PluginRegistry, PluginSource};

fn manager() -> PluginManager {
    PluginManager::new("/tmp/mahakala-test-plugins".to_string())
}

#[test]
fn test_plugin_load_unload() {
    let mut manager = manager();

    let result = manager.load("disk_cleanup");
    assert!(result.is_ok(), "Plugin load should succeed");
    assert!(result.unwrap().loaded, "Plugin should be loaded");

    let result = manager.unload("disk_cleanup");
    assert!(result.is_ok(), "Plugin unload should succeed");
    assert!(!result.unwrap().loaded, "Plugin should be unloaded");
}

#[test]
fn test_plugin_list() {
    let manager = manager();
    let plugins = manager.list();
    assert!(!plugins.is_empty(), "Should have default plugins");
}

#[test]
fn test_plugin_add_remove() {
    let mut manager = manager();

    let create = PluginCreate {
        name: "test_plugin".to_string(),
        description: Some("Test plugin".to_string()),
        version: Some("1.0.0".to_string()),
    };

    let result = manager.add_plugin(create);
    assert!(result.is_ok(), "Plugin add should succeed");

    let plugin = result.unwrap();
    assert_eq!(plugin.name, "test_plugin");

    let result = manager.remove_plugin(&plugin.id);
    assert!(result.is_ok(), "Plugin remove should succeed");
    assert!(result.unwrap(), "Plugin should be removed");
}

#[test]
fn test_plugin_loaded_list() {
    let mut manager = manager();
    manager.load("disk_cleanup").unwrap();

    let loaded = manager.list_loaded();
    assert!(!loaded.is_empty(), "Should have loaded plugins");
}

#[test]
fn plugins_defaults_are_six_with_two_loaded() {
    let manager = manager();
    assert_eq!(manager.list().len(), 6);
    let mut loaded: Vec<String> = manager.list_loaded().into_iter().map(|p| p.id).collect();
    loaded.sort();
    assert_eq!(loaded, vec!["disk_cleanup".to_string(), "memory_plugin".to_string()]);
}

#[test]
fn plugins_id_is_lowercase_with_underscores() {
    assert_eq!(plugin_id_of("My Cool Plugin"), "my_cool_plugin");
}

#[test]
fn plugins_user_plugin_defaults() {
    let mut manager = manager();
    let p = manager.add_plugin(PluginCreate { name: "Fancy Tool".to_string(), description: None, version: None }).unwrap();
    assert_eq!(p.id, "fancy_tool");
    assert_eq!(p.description, "");
    assert_eq!(p.version, "1.0.0");
    assert_eq!(p.source, PluginSource::UserInstalled);
    assert!(!p.loaded);
}

#[test]
fn plugins_unknown_plugin_is_not_found() {
    let mut manager = manager();
    assert_eq!(manager.load("nope").unwrap_err().to_text(), "Not found: Plugin nope not found");
}

fn manifest(name: &str) -> PluginManifest {
    PluginManifest { name: name.to_string(), description: "d".to_string(), version: "0.1.0".to_string(), entry: None, config: None }
}

#[test]
fn plugins_scan_skips_known_ids() {
    let mut registry = PluginRegistry::new("/tmp/mahakala-test-plugins".to_string());
    let found = vec![
        (manifest("Disk Cleanup"), "/p/a/plugin.json".to_string()),
        (manifest("New One"), "/p/b/plugin.json".to_string()),
        (manifest("new one"), "/p/c/plugin.json".to_string()),
    ];
    let n = registry.reload_plugins(found);
    assert_eq!(n, 7);
    let p = registry.get("new_one").unwrap();
    assert_eq!(p.source, PluginSource::Dynamic);
    assert_eq!(p.manifest_path.as_deref(), Some("/p/b/plugin.json"));
    assert_eq!(registry.get("disk_cleanup").unwrap().source, PluginSource::Builtin);
}
