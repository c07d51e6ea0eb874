use mahakala::fts_search::{words_of_lowered, FtsConfig, FtsSearchEngine, SearchDocument};

fn create_test_engine() -> FtsSearchEngine {
    FtsSearchEngine::new(FtsConfig::default())
}

fn create_test_document(id: &str, title: &str, content: &str, doc_type: &str) -> SearchDocument {
    SearchDocument {
        id: id.to_string(),
        title: title.to_string(),
        content: content.to_string(),
        document_type: doc_type.to_string(),
        tags: vec!["test".to_string()],
        created_at: chrono::Utc::now().timestamp(),
        updated_at: chrono::Utc::now().timestamp(),
        metadata: Vec::new(),
    }
}

#[test]
fn test_add_document() {
    let mut engine = create_test_engine();
    let doc = create_test_document("doc1", "Test Document", "This is a test document content", "article");
    let result = engine.add_document(doc);
    assert!(result.is_ok());
}

#[test]
fn test_search_documents() {
    let mut engine = create_test_engine();
    let doc1 = create_test_document("doc1", "Rust Programming", "Rust is a systems programming language", "article");
    let doc2 = create_test_document("doc2", "Python Guide", "Python is great for data science", "guide");

    let _ = engine.add_document(doc1);
    let _ = engine.add_document(doc2);

    let results = engine.search("rust programming", None);
    assert!(!results.is_empty());
    assert!(results[0].document.id == "doc1");
}

#[test]
fn test_delete_document() {
    let mut engine = create_test_engine();
    let doc = create_test_document("doc1", "Test", "Test content", "article");
    let _ = engine.add_document(doc);

    let result = engine.delete_document("doc1");
    assert!(result.is_ok());

    let results = engine.search("test", None);
    assert!(results.is_empty());
}

#[test]
fn test_generate_summary() {
    let mut engine = create_test_engine();
    let content = "This is the first sentence. This is the second sentence. This is the third sentence. This is the fourth sentence.";
    let doc = create_test_document("doc1", "Test Summary", content, "article");
    let _ = engine.add_document(doc);

    let summary = engine.generate_summary("doc1").unwrap();
    assert!(!summary.summary.is_empty());
    assert!(!summary.key_points.is_empty());
}

#[test]
fn test_get_summary() {
    let mut engine = create_test_engine();
    let doc = create_test_document("doc1", "Test", "Test content for summary", "article");
    let _ = engine.add_document(doc);

    let _ = engine.generate_summary("doc1");
    let summary = engine.get_summary("doc1").unwrap();
    assert_eq!(summary.document_id, "doc1");
}

#[test]
fn test_list_documents() {
    let mut engine = create_test_engine();
    let doc1 = create_test_document("doc1", "Test 1", "Content 1", "article");
    let doc2 = create_test_document("doc2", "Test 2", "Content 2", "guide");

    let _ = engine.add_document(doc1);
    let _ = engine.add_document(doc2);

    let documents = engine.list_documents(None);
    assert_eq!(documents.len(), 2);

    let filters = vec![("document_type".to_string(), "article".to_string())];
    let filtered = engine.list_documents(Some(filters));
    assert_eq!(filtered.len(), 1);
}

#[test]
fn test_search_with_filters() {
    let mut engine = create_test_engine();
    let doc1 = create_test_document("doc1", "Rust Article", "Rust programming article", "article");
    let doc2 = create_test_document("doc2", "Rust Guide", "Rust programming guide", "guide");

    let _ = engine.add_document(doc1);
    let _ = engine.add_document(doc2);

    let filters = vec![("document_type".to_string(), "article".to_string())];
    let results = engine.search("rust", Some(filters));
    assert_eq!(results.len(), 1);
    assert_eq!(results[0].document.id, "doc1");
}

#[test]
fn fts_test_get_stats() {
    let mut engine = create_test_engine();
    let doc = create_test_document("doc1", "Test", "Test content", "article");
    let _ = engine.add_document(doc);

    let stats = engine.get_stats();
    assert_eq!(stats.total_documents, 1);
}

#[test]
fn test_update_document() {
    let mut engine = create_test_engine();
    let doc = create_test_document("doc1", "Original", "Original content", "article");
    let _ = engine.add_document(doc);

    let updated_doc = SearchDocument {
        id: "doc1".to_string(),
        title: "Updated".to_string(),
        content: "Updated content".to_string(),
        document_type: "article".to_string(),
        tags: vec!["test".to_string(), "updated".to_string()],
        created_at: chrono::Utc::now().timestamp(),
        updated_at: chrono::Utc::now().timestamp(),
        metadata: Vec::new(),
    };

    let result = engine.update_document(updated_doc);
    assert!(result.is_ok());

    let results = engine.search("updated", None);
    assert!(!results.is_empty());
}

#[test]
fn test_search_history() {
    let mut engine = create_test_engine();
    let doc = create_test_document("doc1", "Test", "Test content for search", "article");
    let _ = engine.add_document(doc);

    let _ = engine.search("test", None);
    let _ = engine.search("content", None);

    let history = engine.get_search_history(10);
    assert_eq!(history.len(), 2);
}

#[test]
fn fts_tokenize_lowercases_and_splits() {
    let engine = create_test_engine();
    let words = engine.tokenize("Hello, World! a Rust-lang");
    assert_eq!(words, vec!["hello".to_string(), "world".to_string(), "rust".to_string(), "lang".to_string()]);
}

#[test]
fn fts_short_query_finds_nothing_and_is_not_recorded() {
    let mut engine = create_test_engine();
    let _ = engine.add_document(create_test_document("doc1", "A", "a b c", "article"));
    let results = engine.search("a", None);
    assert!(results.is_empty());
    assert!(engine.get_search_history(10).is_empty());
}

#[test]
fn fts_removed_document_is_not_found() {
    let mut engine = create_test_engine();
    let _ = engine.add_document(create_test_document("doc1", "Rust", "Rust text", "article"));
    let _ = engine.delete_document("doc1");
    assert!(engine.get_document("doc1").is_err());
    assert!(engine.search("rust", None).is_empty());
}

#[test]
fn words_of_lowered_text() {
    assert_eq!(words_of_lowered("hello, world! a bc", 2), vec!["hello", "world", "bc"]);
    assert_eq!(words_of_lowered("   ", 1), Vec::<String>::new());
}

#[test]
fn score_counts_query_words_in_title_and_content() {
    let mut engine = create_test_engine();
    engine.add_document(create_test_document("a", "Apple notes", "apple pie and apple juice", "note")).unwrap();
    engine.add_document(create_test_document("b", "Banana", "banana bread with one apple", "note")).unwrap();
    engine.update_document(create_test_document("b", "Banana", "banana bread", "note")).unwrap();
    let results = engine.search("apple", None);
    assert_eq!(results.len(), 1);
    assert_eq!(results[0].document.id, "a");
    assert_eq!(results[0].score as u64, 3);
    engine.delete_document("a").unwrap();
    assert!(engine.search("apple", None).is_empty());
}

#[test]
fn reads_follow_the_latest_change() {
    let mut engine = create_test_engine();
    assert!(engine.get_document("d").is_err());
    engine.add_document(create_test_document("d", "One", "first text here", "note")).unwrap();
    engine.update_document(create_test_document("d", "Two", "second text here", "note")).unwrap();
    assert_eq!(engine.get_document("d").unwrap().title, "Two");
    engine.delete_document("d").unwrap();
    assert!(engine.get_document("d").is_err());
    assert!(engine.update_document(create_test_document("d", "Three", "x", "note")).is_err());
    assert!(engine.get_document("d").is_err());
}

#[test]
fn summary_reads_give_the_latest_generated() {
    let mut engine = create_test_engine();
    engine.add_document(create_test_document("s", "T", "Alpha beta gamma. Delta epsilon.", "note")).unwrap();
    assert_eq!(engine.get_summary("s").unwrap_err().to_text(), "Not found: Summary for document s not found");
    let first = engine.generate_summary("s").unwrap();
    assert_eq!(engine.get_summary("s").unwrap().summary, first.summary);
    engine.update_document(create_test_document("s", "T", "Zeta eta.", "note")).unwrap();
    let second = engine.generate_summary("s").unwrap();
    assert_eq!(engine.get_summary("s").unwrap().summary, second.summary);
    assert!(engine.generate_summary("missing").is_err());
    assert!(engine.get_summary("missing").is_err());
}
