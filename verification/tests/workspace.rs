use mahakala::workspace::{sort_file_entries, FileEntry, WorkspaceManager};

fn entry(name: &str, is_dir: bool) -> FileEntry {
    FileEntry { name: name.to_string(), path: format!("/w/{}", name), is_dir, size: 0, modified: 0 }
}

#[test]
fn workspace_entries_list_directories_first_then_by_name() {
    let sorted = sort_file_entries(vec![entry("b.txt", false), entry("zdir", true), entry("a.txt", false), entry("adir", true)]);
    let names: Vec<&str> = sorted.iter().map(|e| e.name.as_str()).collect();
    assert_eq!(names, vec!["adir", "zdir", "a.txt", "b.txt"]);
}

#[test]
fn workspace_create_and_activate() {
    let mut manager = WorkspaceManager::new();
    let a = manager.create_workspace_at("A", "/tmp/a", "12-34-ab", 5).unwrap();
    assert_eq!(a.id, "ws_1234ab");
    assert!(!a.active);
    let b = manager.create_workspace("B", "/tmp/b").unwrap();
    assert!(b.id.starts_with("ws_"));
    assert!(!b.id.contains('-'));

    let active = manager.set_active(&a.id).unwrap();
    assert!(active.active);
    assert_eq!(manager.get_active().unwrap().id, a.id);

    manager.set_active(&b.id).unwrap();
    assert!(!manager.get_workspace(&a.id).unwrap().active);
    assert_eq!(manager.get_active().unwrap().id, b.id);

    assert_eq!(manager.delete_workspace(&b.id).unwrap(), true);
    assert!(manager.get_active().is_none());
    assert_eq!(manager.list_workspaces().len(), 1);
}

#[test]
fn workspace_unknown_is_not_found() {
    let mut manager = WorkspaceManager::new();
    assert_eq!(manager.set_active("ws_x").unwrap_err().to_text(), "Not found: Workspace ws_x not found");
    assert!(manager.root_of("ws_x").is_err());
}
