use mahakala::config::{api_key_variables, chat_refusal, needs_env_api_key, AppConfig, DEFAULT_TEMPERATURE_BITS};

#[test]
fn default_settings() {
    let c = AppConfig::default();
    assert_eq!(c.model, "llama3.2");
    assert_eq!(c.provider.as_deref(), Some("ollama"));
    assert_eq!(c.temperature_bits.map(f64::from_bits), Some(0.7));
    assert_eq!(DEFAULT_TEMPERATURE_BITS, 0.7f64.to_bits());
    assert_eq!(c.port, 3000);
    assert_eq!(c.models.len(), 4);
}

#[test]
fn environment_key_is_wanted_for_cloud_providers_only() {
    let some = |s: &str| Some(s.to_string());
    assert!(needs_env_api_key(&some("openai"), &None));
    assert!(!needs_env_api_key(&some("ollama"), &None));
    assert!(!needs_env_api_key(&None, &None));
    assert!(!needs_env_api_key(&some(""), &None));
    assert!(!needs_env_api_key(&some("openai"), &some("k")));
    assert_eq!(api_key_variables(), vec!["OPENAI_API_KEY", "ANTHROPIC_API_KEY", "DEEPSEEK_API_KEY"]);
}

#[test]
fn chats_need_a_key_unless_local() {
    let some = |s: &str| Some(s.to_string());
    assert!(chat_refusal(&some("ollama"), &None).is_none());
    assert!(chat_refusal(&None, &None).is_none());
    assert!(chat_refusal(&some("openai"), &some("sk")).is_none());
    assert_eq!(
        chat_refusal(&some("openai"), &some("")).unwrap(),
        "API Key not configured. Please configure your AI model in settings or pass apiKey in request."
    );
    assert!(chat_refusal(&some("anthropic"), &None).is_some());
}
