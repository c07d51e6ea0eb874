use mahakala::memory_prompt::{MemoryPrompt, MemoryPromptConfig, MemoryPromptingSystem, PromptResponse, PromptSchedule};

fn create_test_system() -> MemoryPromptingSystem {
    MemoryPromptingSystem::new()
}

fn create_test_schedule() -> PromptSchedule {
    PromptSchedule {
        id: "schedule1".to_string(),
        name: "Daily Check-in".to_string(),
        description: "Daily memory check-in".to_string(),
        cron_expression: "0 9 * * *".to_string(),
        prompt_type: "check_in".to_string(),
        target_users: vec!["user1".to_string()],
        is_active: true,
        last_triggered: None,
        trigger_count: 0,
        created_at: chrono::Utc::now().timestamp(),
    }
}

fn create_test_prompt() -> MemoryPrompt {
    MemoryPrompt {
        id: "prompt1".to_string(),
        user_id: "user1".to_string(),
        prompt_type: "check_in".to_string(),
        content: "How are you feeling today?".to_string(),
        context: Vec::new(),
        priority: 5,
        created_at: chrono::Utc::now().timestamp(),
        scheduled_at: chrono::Utc::now().timestamp(),
        triggered_at: None,
        is_active: true,
        metadata: Vec::new(),
    }
}

#[test]
fn test_create_schedule() {
    let mut system = create_test_system();
    let schedule = create_test_schedule();
    let result = system.create_schedule(schedule);
    assert!(result.is_ok());

    let retrieved = system.get_schedule("schedule1").unwrap();
    assert_eq!(retrieved.name, "Daily Check-in");
}

#[test]
fn test_list_schedules() {
    let mut system = create_test_system();
    let schedule1 = create_test_schedule();
    let mut schedule2 = create_test_schedule();
    schedule2.id = "schedule2".to_string();

    let _ = system.create_schedule(schedule1);
    let _ = system.create_schedule(schedule2);

    let schedules = system.list_schedules(false);
    assert_eq!(schedules.len(), 2);

    let active = system.list_schedules(true);
    assert_eq!(active.len(), 2);
}

#[test]
fn test_create_prompt() {
    let mut system = create_test_system();
    let prompt = create_test_prompt();
    let result = system.create_prompt(prompt);
    assert!(result.is_ok());

    let retrieved = system.get_prompt("prompt1").unwrap();
    assert_eq!(retrieved.content, "How are you feeling today?");
}

#[test]
fn test_trigger_prompt() {
    let mut system = create_test_system();
    let prompt = create_test_prompt();
    let _ = system.create_prompt(prompt);

    let result = system.trigger_prompt("prompt1");
    assert!(result.is_ok());

    let prompt = system.get_prompt("prompt1").unwrap();
    assert!(prompt.triggered_at.is_some());
}

#[test]
fn test_submit_response() {
    let mut system = create_test_system();
    let prompt = create_test_prompt();
    let _ = system.create_prompt(prompt);

    let response = PromptResponse {
        id: "response1".to_string(),
        prompt_id: "prompt1".to_string(),
        user_id: "user1".to_string(),
        response: "I'm feeling great!".to_string(),
        sentiment_bits: 0.8f64.to_bits(),
        timestamp: chrono::Utc::now().timestamp(),
        follow_up_required: false,
    };

    let result = system.submit_response(response);
    assert!(result.is_ok());

    let responses = system.get_responses("prompt1");
    assert_eq!(responses.len(), 1);
}

#[test]
fn test_set_user_config() {
    let mut system = create_test_system();
    let config = MemoryPromptConfig {
        user_id: "user1".to_string(),
        prompt_frequency_hours: 24,
        preferred_prompt_types: vec!["check_in".to_string()],
        max_prompts_per_day: 5,
        quiet_hours_start: 22,
        quiet_hours_end: 7,
        enable_adaptive_scheduling: true,
    };

    let result = system.set_user_config(config);
    assert!(result.is_ok());

    let retrieved = system.get_user_config("user1").unwrap();
    assert_eq!(retrieved.prompt_frequency_hours, 24);
}

#[test]
fn test_get_due_prompts() {
    let mut system = create_test_system();
    let mut prompt = create_test_prompt();
    prompt.scheduled_at = chrono::Utc::now().timestamp() - 3600;
    let _ = system.create_prompt(prompt);

    let due = system.get_due_prompts();
    assert_eq!(due.len(), 1);
}

#[test]
fn test_deactivate_prompt() {
    let mut system = create_test_system();
    let prompt = create_test_prompt();
    let _ = system.create_prompt(prompt);

    let result = system.deactivate_prompt("prompt1");
    assert!(result.is_ok());

    let retrieved = system.get_prompt("prompt1").unwrap();
    assert!(!retrieved.is_active);
}

#[test]
fn test_activate_prompt() {
    let mut system = create_test_system();
    let mut prompt = create_test_prompt();
    prompt.is_active = false;
    let _ = system.create_prompt(prompt);

    let result = system.activate_prompt("prompt1");
    assert!(result.is_ok());

    let retrieved = system.get_prompt("prompt1").unwrap();
    assert!(retrieved.is_active);
}

#[test]
fn test_get_user_prompt_stats() {
    let mut system = create_test_system();
    let prompt = create_test_prompt();
    let _ = system.create_prompt(prompt);

    let stats = system.get_user_prompt_stats("user1");
    assert_eq!(stats.total_prompts, 1);
    assert_eq!(stats.active_prompts, 1);
}

#[test]
fn memory_prompt_test_get_stats() {
    let mut system = create_test_system();
    let schedule = create_test_schedule();
    let prompt = create_test_prompt();

    let _ = system.create_schedule(schedule);
    let _ = system.create_prompt(prompt);

    let stats = system.get_stats();
    assert_eq!(stats.total_prompts, 1);
    assert_eq!(stats.total_schedules, 1);
}

#[test]
fn test_list_prompts_with_filters() {
    let mut system = create_test_system();
    let prompt1 = create_test_prompt();
    let mut prompt2 = create_test_prompt();
    prompt2.id = "prompt2".to_string();
    prompt2.user_id = "user2".to_string();

    let _ = system.create_prompt(prompt1);
    let _ = system.create_prompt(prompt2);

    let all_prompts = system.list_prompts(None, false);
    assert_eq!(all_prompts.len(), 2);

    let user1_prompts = system.list_prompts(Some("user1"), false);
    assert_eq!(user1_prompts.len(), 1);

    let active_prompts = system.list_prompts(None, true);
    assert_eq!(active_prompts.len(), 2);
}

#[test]
fn memory_prompt_inactive_prompt_cannot_trigger() {
    let mut system = create_test_system();
    let mut prompt = create_test_prompt();
    prompt.is_active = false;
    let _ = system.create_prompt(prompt);
    let err = system.trigger_prompt("prompt1").unwrap_err();
    assert_eq!(err.to_text(), "Internal error: Prompt is not active");
    let err = system.trigger_prompt("missing").unwrap_err();
    assert_eq!(err.to_text(), "Not found: Prompt missing not found");
}

#[test]
fn memory_prompt_future_prompt_is_not_due() {
    let mut system = create_test_system();
    let mut prompt = create_test_prompt();
    prompt.scheduled_at = 2_000;
    let _ = system.create_prompt(prompt);
    assert_eq!(system.get_due_prompts_at(1_999).len(), 0);
    assert_eq!(system.get_due_prompts_at(2_000).len(), 1);
}
