use mahakala::memory::{entity_attributes, fact_record, like_pattern, memory_stats, new_entity, new_fact, MemoryStats};

#[test]
fn fact_gets_default_category() {
    let f = fact_record("id1".to_string(), "likes tea", None, 42);
    assert_eq!(f.id, "id1");
    assert_eq!(f.content, "likes tea");
    assert_eq!(f.category, "general");
    assert_eq!(f.created_at, 42);
    assert_eq!(f.updated_at, 42);
    let g = fact_record("id2".to_string(), "x", Some("prefs"), 7);
    assert_eq!(g.category, "prefs");
}

#[test]
fn new_facts_have_fresh_ids() {
    let a = new_fact("a", None);
    let b = new_fact("b", Some("c"));
    assert_ne!(a.id, b.id);
    assert_eq!(a.created_at, a.updated_at);
    assert_eq!(b.category, "c");
}

#[test]
fn entities_keep_their_attributes() {
    let attrs = serde_json::from_str::<serde_json::Value>("{\"age\": 3}").unwrap();
    let e = new_entity("Rex", "dog", attrs.clone());
    assert_eq!(e.name, "Rex");
    assert_eq!(e.entity_type, "dog");
    assert_eq!(e.attributes, attrs);
    assert_eq!(entity_attributes("{\"a\":1}")["a"], 1);
    assert!(entity_attributes("not json").is_null());
}

#[test]
fn search_pattern_and_stats() {
    assert_eq!(like_pattern("tea"), "%tea%");
    assert_eq!(memory_stats(3, 1), MemoryStats { facts: 3, entities: 1, dimensions: 384 });
}
