use mahakala::multiagent::{CollaborationConfig, MultiAgentFramework, FULL_PROGRESS_BITS};

fn framework(max: usize) -> MultiAgentFramework {
    MultiAgentFramework::new(CollaborationConfig { max_agents: max, default_role: "assistant".to_string(), enable_auto_assignment: true })
}

#[test]
fn test_register_agent() {
    let mut framework = framework(10);
    let id = framework.register_agent("Agent1".to_string(), "researcher".to_string(), vec!["search".to_string(), "analyze".to_string()]);
    assert!(id.is_ok());
    assert_eq!(framework.list_agents().len(), 1);
}

#[test]
fn test_create_and_complete_task() {
    let mut framework = framework(10);

    let agent1 = framework.register_agent("Agent1".to_string(), "researcher".to_string(), vec![]).unwrap();
    let agent2 = framework.register_agent("Agent2".to_string(), "writer".to_string(), vec![]).unwrap();

    let task_id = framework
        .create_collaboration_task("Research Task".to_string(), "Research and write a report".to_string(), vec![agent1, agent2])
        .unwrap();

    framework.start_task(&task_id).unwrap();
    let progress = 50.0f64.min(100.0);
    framework.update_task_progress(&task_id, progress.to_bits(), progress >= 100.0).unwrap();

    let task = framework.get_task(&task_id).unwrap();
    assert_eq!(task.status, "in_progress");
    assert_eq!(f64::from_bits(task.progress_bits), 50.0);

    framework.complete_task(&task_id).unwrap();
    let task = framework.get_task(&task_id).unwrap();
    assert_eq!(task.status, "completed");
    assert_eq!(f64::from_bits(task.progress_bits), 100.0);
}

#[test]
fn mod_test_send_message() {
    let mut framework = framework(10);

    let agent1 = framework.register_agent("Agent1".to_string(), "researcher".to_string(), vec![]).unwrap();
    let agent2 = framework.register_agent("Agent2".to_string(), "writer".to_string(), vec![]).unwrap();

    let msg_id = framework.send_message(&agent1, &agent2, "Hello!", "text").unwrap();
    assert!(!msg_id.is_empty());

    let messages = framework.get_agent_messages(&agent1);
    assert_eq!(messages.len(), 1);
    assert_eq!(messages[0].content, "Hello!");
}

#[test]
fn multiagent_limit_is_enforced() {
    let mut framework = framework(1);
    assert!(framework.register_agent("A".to_string(), "r".to_string(), vec![]).is_ok());
    let err = framework.register_agent("B".to_string(), "r".to_string(), vec![]).unwrap_err();
    assert_eq!(err.to_text(), "Internal error: Maximum agent limit (1) reached");
}

#[test]
fn multiagent_task_counts_follow_assignment() {
    let mut framework = framework(10);
    let a = framework.register_agent("A".to_string(), "r".to_string(), vec![]).unwrap();
    let _t = framework
        .create_collaboration_task("T".to_string(), "D".to_string(), vec![a.clone(), a.clone(), "unknown".to_string()])
        .unwrap();
    assert_eq!(framework.get_agent(&a).unwrap().task_count, 2);
}

#[test]
fn multiagent_full_progress_bits_are_one_hundred() {
    assert_eq!(f64::from_bits(FULL_PROGRESS_BITS), 100.0);
}

#[test]
fn multiagent_stats_count_statuses() {
    let mut framework = framework(10);
    let a = framework.register_agent("A".to_string(), "r".to_string(), vec![]).unwrap();
    let t = framework.create_collaboration_task("T".to_string(), "D".to_string(), vec![a.clone()]).unwrap();
    let _u = framework.create_collaboration_task("U".to_string(), "D".to_string(), vec![]).unwrap();
    framework.start_task(&t).unwrap();
    let _ = framework.send_message(&a, "b", "hi", "text");
    let stats = framework.get_stats();
    assert_eq!(stats.total_agents, 1);
    assert_eq!(stats.active_agents, 1);
    assert_eq!(stats.total_tasks, 2);
    assert_eq!(stats.pending_tasks, 1);
    assert_eq!(stats.in_progress_tasks, 1);
    assert_eq!(stats.completed_tasks, 0);
    assert_eq!(stats.total_messages, 1);
    assert_eq!(stats.max_agents, 10);
}
