use mahakala::honcho::{
    add_goal, advance_dialectic, check_interaction_limit, communication_style, sentiment_hits, top_topics, user_not_found, word_counts, DialecticalState,
    HonchoConfig,
};
use mahakala::error::AppError;

#[test]
fn default_config_values() {
    let c = HonchoConfig::default();
    assert_eq!(c.max_interactions_per_user, 10000);
    assert!(c.enable_dialectical_analysis && c.enable_sentiment_tracking && c.enable_learning_progress);
    assert_eq!(c.personality_dimensions.len(), 5);
    assert_eq!(c.knowledge_domains, vec!["technical", "creative", "analytical", "social"]);
}

#[test]
fn dialectic_fills_thesis_antithesis_then_synthesis() {
    let mut s = DialecticalState::initial("user1", 1);
    assert_eq!(s.emotional_state, "neutral");
    advance_dialectic(&mut s, "I believe X is true", 2);
    assert_eq!(s.thesis, "I believe X is true");
    assert!(s.antithesis.is_empty());
    advance_dialectic(&mut s, "I believe X is true", 3);
    assert!(s.antithesis.is_empty());
    advance_dialectic(&mut s, "But Y might also be valid", 4);
    assert_eq!(s.antithesis, "But Y might also be valid");
    assert!(s.synthesis.is_empty());
    advance_dialectic(&mut s, "anything", 5);
    assert_eq!(s.synthesis, "Synthesis of: I believe X is true and But Y might also be valid");
    assert_eq!(s.current_position, s.synthesis);
    advance_dialectic(&mut s, "later", 6);
    assert_eq!(s.thesis, "I believe X is true");
    assert_eq!(s.last_updated, 6);
}

#[test]
fn communication_styles() {
    assert_eq!(communication_style("Please help", "neutral"), "polite");
    assert_eq!(communication_style("THANKS a lot?", "neutral"), "polite");
    assert_eq!(communication_style("How are you?", "neutral"), "inquisitive");
    assert_eq!(communication_style(&"a".repeat(201), "neutral"), "detailed");
    assert_eq!(communication_style(&"a".repeat(200), "neutral"), "neutral");
    assert_eq!(communication_style("ok", "polite"), "polite");
}

#[test]
fn goals_are_added_once() {
    let mut goals = vec![];
    add_goal(&mut goals, "Learn Rust".to_string());
    add_goal(&mut goals, "Learn Rust".to_string());
    add_goal(&mut goals, "Ship".to_string());
    assert_eq!(goals, vec!["Learn Rust", "Ship"]);
}

#[test]
fn interaction_limit_and_missing_user() {
    assert!(check_interaction_limit(4, 5).is_ok());
    match check_interaction_limit(5, 5) {
        Err(AppError::Internal(m)) => assert_eq!(m, "Maximum interaction limit reached"),
        _ => panic!("expected the limit error"),
    }
    match user_not_found("u9") {
        AppError::NotFound(m) => assert_eq!(m, "User u9 not found"),
        _ => panic!("expected not found"),
    }
}

#[test]
fn score_inputs() {
    assert_eq!(sentiment_hits("This is GREAT, thanks! But the worst part..."), (2, 1));
    assert_eq!(sentiment_hits("neutral words"), (0, 0));
    assert_eq!(word_counts("a b a  c"), (4, 3));
    assert_eq!(word_counts(""), (0, 0));
}

#[test]
fn topics_are_ranked_by_count() {
    let topics: Vec<String> = ["rust", "go", "rust", "c", "rust", "go"].iter().map(|s| s.to_string()).collect();
    assert_eq!(top_topics(&topics), vec!["rust", "go", "c"]);
    let many: Vec<String> = (0..8).map(|i| format!("t{}", i)).collect();
    assert_eq!(top_topics(&many).len(), 5);
}
