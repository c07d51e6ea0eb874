use mahakala::terminal::{DockerConfig, DockerManager, SshManager};

fn docker() -> DockerManager {
    DockerManager::new(DockerConfig { host: "localhost".to_string(), port: 2375, api_version: "1.41".to_string() })
}

#[test]
fn test_docker_create_container() {
    let mut manager = docker();
    let id = manager.create_container("test_container".to_string(), "nginx:latest".to_string());
    assert!(id.is_ok());
    assert_eq!(manager.list_containers().len(), 1);
}

#[test]
fn test_docker_start_stop_container() {
    let mut manager = docker();
    let id = manager.create_container("test_container".to_string(), "nginx:latest".to_string()).unwrap();

    manager.start_container(&id).unwrap();
    let containers = manager.list_containers();
    assert_eq!(containers[0].status, "running");

    manager.stop_container(&id).unwrap();
    let containers = manager.list_containers();
    assert_eq!(containers[0].status, "stopped");
}

#[test]
fn test_ssh_add_connection() {
    let mut manager = SshManager::new();
    let id = manager.add_connection("192.168.1.100".to_string(), 22, "user".to_string());
    assert!(id.is_ok());
    assert_eq!(manager.list_connections().len(), 1);
}

#[test]
fn test_ssh_connect_disconnect() {
    let mut manager = SshManager::new();
    let id = manager.add_connection("192.168.1.100".to_string(), 22, "user".to_string()).unwrap();

    manager.connect(&id).unwrap();
    let connections = manager.list_connections();
    assert!(connections[0].connected);

    manager.disconnect(&id).unwrap();
    let connections = manager.list_connections();
    assert!(!connections[0].connected);
}

#[test]
fn terminal_exec_reports_and_needs_container() {
    let mut manager = docker();
    let id = manager.create_container("c".to_string(), "img".to_string()).unwrap();
    assert_eq!(manager.exec_in_container(&id, "ls").unwrap(), format!("Executed 'ls' in container {}", id));
    assert_eq!(manager.get_container_logs(&id).unwrap(), format!("Logs for container {}", id));
    assert_eq!(manager.exec_in_container("x", "ls").unwrap_err().to_text(), "Not found: Container x not found");
}

#[test]
fn terminal_stats_count_statuses() {
    let mut manager = docker();
    let a = manager.create_container("a".to_string(), "img".to_string()).unwrap();
    let _b = manager.create_container("b".to_string(), "img".to_string()).unwrap();
    manager.start_container(&a).unwrap();
    let stats = manager.get_stats();
    assert_eq!(stats.total_containers, 2);
    assert_eq!(stats.running, 1);
    assert_eq!(stats.stopped, 0);
    assert_eq!(stats.host, "localhost");
    assert_eq!(stats.port, 2375);
}

#[test]
fn terminal_ssh_command_needs_connection() {
    let mut manager = SshManager::new();
    let id = manager.add_connection("10.0.0.1".to_string(), 2222, "bob".to_string()).unwrap();
    let err = manager.execute_command(&id, "uptime").unwrap_err();
    assert_eq!(err.to_text(), format!("Internal error: SSH connection {} is not connected", id));
    manager.connect(&id).unwrap();
    let out = manager.execute_command(&id, "uptime").unwrap();
    assert_eq!(out, "Command 'uptime' executed on bob@10.0.0.1:2222");
    let sessions = manager.list_sessions();
    assert_eq!(sessions.len(), 1);
    assert_eq!(sessions[0].target, "bob@10.0.0.1:2222");
    assert_eq!(sessions[0].output, vec!["$ uptime".to_string(), "Command executed successfully".to_string()]);
}
