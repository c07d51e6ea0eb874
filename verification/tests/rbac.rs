use mahakala::rbac::{RbacConfig, RbacSystem};

fn create_test_system() -> RbacSystem {
    RbacSystem::new(RbacConfig { max_roles: 10, max_users_per_role: 100, enable_default_roles: false })
}

#[test]
fn test_create_role() {
    let mut system = create_test_system();
    let permissions = vec!["user:read".to_string(), "user:write".to_string()];
    let result = system.create_role("test_role".to_string(), "Test Role".to_string(), permissions);
    assert!(result.is_ok());
}

#[test]
fn test_list_roles() {
    let mut system = create_test_system();
    let _ = system.create_role("role1".to_string(), "Role 1".to_string(), vec![]);
    let _ = system.create_role("role2".to_string(), "Role 2".to_string(), vec![]);
    let roles = system.list_roles();
    assert_eq!(roles.len(), 2);
}

#[test]
fn test_create_user() {
    let mut system = create_test_system();
    let role_id = system.create_role("admin".to_string(), "Admin".to_string(), vec!["*".to_string()]).unwrap();
    let result = system.create_user("testuser".to_string(), "test@example.com".to_string(), role_id);
    assert!(result.is_ok());
}

#[test]
fn test_check_permission() {
    let mut system = create_test_system();
    let permissions = vec!["user:read".to_string(), "user:write".to_string()];
    let role_id = system.create_role("editor".to_string(), "Editor".to_string(), permissions).unwrap();
    let user_id = system.create_user("editor1".to_string(), "editor@example.com".to_string(), role_id).unwrap();

    let has_read = system.check_permission(&user_id, "user:read").unwrap();
    assert!(has_read);

    let has_delete = system.check_permission(&user_id, "user:delete").unwrap();
    assert!(!has_delete);
}

#[test]
fn test_update_user_role() {
    let mut system = create_test_system();
    let role1_id = system.create_role("viewer".to_string(), "Viewer".to_string(), vec!["user:read".to_string()]).unwrap();
    let role2_id = system.create_role("admin".to_string(), "Admin".to_string(), vec!["*".to_string()]).unwrap();
    let user_id = system.create_user("testuser".to_string(), "test@example.com".to_string(), role1_id).unwrap();

    let result = system.update_user_role(&user_id, &role2_id);
    assert!(result.is_ok());

    let has_all = system.check_permission(&user_id, "user:delete").unwrap();
    assert!(has_all);
}

#[test]
fn test_get_user_permissions() {
    let mut system = create_test_system();
    let permissions = vec!["tool:execute".to_string(), "skill:execute".to_string()];
    let role_id = system.create_role("operator".to_string(), "Operator".to_string(), permissions.clone()).unwrap();
    let user_id = system.create_user("operator1".to_string(), "op@example.com".to_string(), role_id).unwrap();

    let user_perms = system.get_user_permissions(&user_id).unwrap();
    assert_eq!(user_perms.len(), 2);
    assert!(user_perms.contains(&"tool:execute".to_string()));
    assert!(user_perms.contains(&"skill:execute".to_string()));
}

#[test]
fn test_delete_role() {
    let mut system = create_test_system();
    let role_id = system.create_role("temp".to_string(), "Temporary".to_string(), vec![]).unwrap();
    let result = system.delete_role(&role_id);
    assert!(result.is_ok());

    let roles = system.list_roles();
    assert!(roles.is_empty());
}

#[test]
fn mod_test_delete_user() {
    let mut system = create_test_system();
    let role_id = system.create_role("admin".to_string(), "Admin".to_string(), vec![]).unwrap();
    let user_id = system.create_user("tempuser".to_string(), "temp@example.com".to_string(), role_id).unwrap();

    let result = system.delete_user(&user_id);
    assert!(result.is_ok());

    let users = system.list_users();
    assert!(users.is_empty());
}

#[test]
fn mod_test_get_stats() {
    let mut system = create_test_system();
    let role_id = system.create_role("admin".to_string(), "Admin".to_string(), vec![]).unwrap();
    let _ = system.create_user("user1".to_string(), "user1@example.com".to_string(), role_id.clone()).unwrap();
    let _ = system.create_user("user2".to_string(), "user2@example.com".to_string(), role_id).unwrap();

    let stats = system.get_stats();
    assert_eq!(stats.total_roles, 1);
    assert_eq!(stats.total_users, 2);
}

#[test]
fn test_default_roles_initialization() {
    let system = RbacSystem::new(RbacConfig::default());
    let roles = system.list_roles();
    assert!(roles.len() >= 3);

    let has_admin = roles.iter().any(|r| r.name == "admin");
    let has_editor = roles.iter().any(|r| r.name == "editor");
    let has_viewer = roles.iter().any(|r| r.name == "viewer");

    assert!(has_admin);
    assert!(has_editor);
    assert!(has_viewer);
}

#[test]
fn rbac_unknown_user_is_not_found() {
    let system = create_test_system();
    let err = system.check_permission("nobody", "user:read").unwrap_err();
    assert_eq!(err.to_text(), "Not found: User nobody not found");
}

#[test]
fn rbac_role_limit_is_enforced() {
    let mut system = RbacSystem::new(RbacConfig { max_roles: 1, max_users_per_role: 100, enable_default_roles: false });
    assert!(system.create_role("a".to_string(), "A".to_string(), vec![]).is_ok());
    assert!(system.create_role("b".to_string(), "B".to_string(), vec![]).is_err());
}
