use mahakala::delegation::{parallel_assignments, DelegationSystem, SubAgentConfig, TaskStatus};
use mahakala::error::AppError;

#[test]
fn test_create_sub_agent() {
    let mut system = DelegationSystem::new();

    let config = SubAgentConfig {
        id: "test_agent".to_string(),
        name: "Test Agent".to_string(),
        role: "Test role".to_string(),
        model: "test-model".to_string(),
        provider: Some("ollama".to_string()),
        api_base_url: Some("http://localhost:11434/v1".to_string()),
        api_key: None,
        max_tokens: Some(1000),
        temperature_bits: Some(0.7f64.to_bits()),
        tools: vec![],
    };

    let result = system.create_sub_agent(config);
    assert!(result.is_ok());
    assert_eq!(result.unwrap(), "test_agent");
}

#[test]
fn test_create_task() {
    let mut system = DelegationSystem::new();

    let task_id = system.create_task("Test task", 1);
    assert!(!task_id.is_empty());

    let task = system.get_task(&task_id);
    assert!(task.is_some());
    assert_eq!(task.unwrap().description, "Test task");
}

#[test]
fn test_list_sub_agents() {
    let mut system = DelegationSystem::new();

    let agents = system.list_sub_agents();
    assert!(agents.is_empty());

    let config = SubAgentConfig {
        id: "agent1".to_string(),
        name: "Agent 1".to_string(),
        role: "Role 1".to_string(),
        model: "model1".to_string(),
        provider: None,
        api_base_url: None,
        api_key: None,
        max_tokens: None,
        temperature_bits: None,
        tools: vec![],
    };

    system.create_sub_agent(config).unwrap();
    let agents = system.list_sub_agents();
    assert_eq!(agents.len(), 1);
}

fn agent(id: &str) -> SubAgentConfig {
    SubAgentConfig {
        id: id.to_string(),
        name: id.to_string(),
        role: "r".to_string(),
        model: "m".to_string(),
        provider: None,
        api_base_url: None,
        api_key: None,
        max_tokens: None,
        temperature_bits: None,
        tools: vec![],
    }
}

#[test]
fn delegation_begin_and_finish() {
    let mut system = DelegationSystem::new();
    system.create_sub_agent(agent("a1")).unwrap();
    let task_id = system.create_task("Do it", 2);

    let running = system.begin_delegation(&task_id, "a1").unwrap();
    assert_eq!(running.status, TaskStatus::Running);
    assert_eq!(running.assigned_to.as_deref(), Some("a1"));

    let done = system.finish_delegation(&task_id, "a1", Ok("all done".to_string()));
    assert_eq!(done.status, TaskStatus::Completed);
    assert_eq!(done.result, "all done");
    let task = system.get_task(&task_id).unwrap();
    assert_eq!(task.status, TaskStatus::Completed);
    assert_eq!(task.result.as_deref(), Some("all done"));
    assert!(task.completed_at.is_some());
}

#[test]
fn delegation_failed_run_is_recorded() {
    let mut system = DelegationSystem::new();
    system.create_sub_agent(agent("a1")).unwrap();
    let task_id = system.create_task("Do it", 2);
    let _ = system.begin_delegation(&task_id, "a1").unwrap();
    let r = system.finish_delegation(&task_id, "a1", Err(AppError::Agent("boom".to_string())));
    assert_eq!(r.status, TaskStatus::Failed);
    assert_eq!(r.result, "Agent error: boom");
    let task = system.get_task(&task_id).unwrap();
    assert_eq!(task.result.as_deref(), Some("Task execution failed"));
}

#[test]
fn delegation_unknown_agent_or_task_is_not_found() {
    let mut system = DelegationSystem::new();
    let task_id = system.create_task("Do it", 2);
    assert_eq!(system.begin_delegation(&task_id, "ghost").unwrap_err().to_text(), "Not found: SubAgent ghost not found");
    system.create_sub_agent(agent("a1")).unwrap();
    assert_eq!(system.begin_delegation("nope", "a1").unwrap_err().to_text(), "Not found: Task nope not found");
}

#[test]
fn delegation_parallel_assignments_go_round_robin() {
    let tasks = vec!["t1".to_string(), "t2".to_string(), "t3".to_string()];
    let agents = vec!["a".to_string(), "b".to_string()];
    let pairs = parallel_assignments(&tasks, &agents);
    assert_eq!(
        pairs,
        vec![
            ("t1".to_string(), "a".to_string()),
            ("t2".to_string(), "b".to_string()),
            ("t3".to_string(), "a".to_string())
        ]
    );
}

#[test]
fn delegation_stats_count_statuses() {
    let mut system = DelegationSystem::new();
    system.create_sub_agent(agent("a1")).unwrap();
    let t1 = system.create_task("one", 1);
    let _t2 = system.create_task("two", 1);
    let _ = system.begin_delegation(&t1, "a1").unwrap();
    let stats = system.get_stats();
    assert_eq!(stats.total_tasks, 2);
    assert_eq!(stats.pending, 1);
    assert_eq!(stats.running, 1);
    assert_eq!(stats.sub_agents, 1);
}
