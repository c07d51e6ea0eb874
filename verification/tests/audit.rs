use mahakala::audit::{AuditConfig, AuditExport, AuditSystem};

fn create_test_system() -> AuditSystem {
    AuditSystem::new(AuditConfig {
        max_log_entries: 1000,
        retention_days: 30,
        enable_compliance_reports: true,
        log_level: "info".to_string(),
    })
}

fn empty_details() -> serde_json::Value {
    serde_json::Value::Object(serde_json::Map::new())
}

fn log_simple(system: &mut AuditSystem, user: &str, action: &str, resource: &str, status: &str, severity: &str) -> String {
    system
        .log_action(
            user.to_string(),
            action.to_string(),
            resource.to_string(),
            None,
            empty_details(),
            None,
            None,
            status.to_string(),
            severity.to_string(),
        )
        .unwrap()
}

#[test]
fn test_log_action() {
    let mut system = create_test_system();
    let result = system.log_action(
        "user1".to_string(),
        "login".to_string(),
        "auth".to_string(),
        None,
        empty_details(),
        Some("127.0.0.1".to_string()),
        Some("test-agent".to_string()),
        "success".to_string(),
        "info".to_string(),
    );
    assert!(result.is_ok());
}

#[test]
fn test_get_logs() {
    let mut system = create_test_system();
    let _ = system.log_action(
        "user1".to_string(),
        "login".to_string(),
        "auth".to_string(),
        None,
        empty_details(),
        None,
        None,
        "success".to_string(),
        "info".to_string(),
    );
    let _ = system.log_action(
        "user2".to_string(),
        "delete".to_string(),
        "resource".to_string(),
        Some("res1".to_string()),
        empty_details(),
        None,
        None,
        "success".to_string(),
        "high".to_string(),
    );

    let logs = system.get_logs(None);
    assert_eq!(logs.len(), 2);

    let filters = vec![("user_id".to_string(), "user1".to_string())];
    let filtered = system.get_logs(Some(filters));
    assert_eq!(filtered.len(), 1);
    assert_eq!(filtered[0].user_id, "user1");
}

#[test]
fn test_delete_log() {
    let mut system = create_test_system();
    let log_id = log_simple(&mut system, "user1", "test", "test", "success", "info");

    let result = system.delete_log(&log_id);
    assert!(result.is_ok());

    let logs = system.get_logs(None);
    assert!(logs.is_empty());
}

#[test]
fn test_purge_old_logs() {
    let mut system = create_test_system();
    let _ = log_simple(&mut system, "user1", "test", "test", "success", "info");

    let removed = system.purge_old_logs(0).unwrap();
    assert!(removed > 0);

    let logs = system.get_logs(None);
    assert!(logs.is_empty());
}

#[test]
fn test_generate_compliance_report() {
    let mut system = create_test_system();
    let _ = log_simple(&mut system, "user1", "login", "auth", "failed", "high");

    let now = chrono::Utc::now().timestamp();
    let report_id = system.generate_compliance_report("security_audit".to_string(), now - 86400, now).unwrap();

    let report = system.get_report(&report_id).unwrap();
    assert_eq!(report.report_type, "security_audit");
    assert!(!report.findings.is_empty());
}

#[test]
fn audit_test_get_stats() {
    let mut system = create_test_system();
    let _ = log_simple(&mut system, "user1", "login", "auth", "success", "info");
    let _ = system.log_action(
        "user2".to_string(),
        "delete".to_string(),
        "resource".to_string(),
        Some("res1".to_string()),
        empty_details(),
        None,
        None,
        "success".to_string(),
        "high".to_string(),
    );

    let stats = system.get_stats();
    assert_eq!(stats.total_logs, 2);
    assert!(stats.severity_counts.iter().any(|(k, _)| k == "info"));
    assert!(stats.severity_counts.iter().any(|(k, _)| k == "high"));
}

#[test]
fn test_export_logs_json() {
    let mut system = create_test_system();
    let _ = log_simple(&mut system, "user1", "test", "test", "success", "info");

    let exported = system.export_logs("json").unwrap();
    match exported {
        AuditExport::Json(logs) => {
            let text = format!("{:?}", logs);
            assert!(text.contains("user1"));
            assert!(text.contains("test"));
        }
        AuditExport::Csv(_) => panic!("expected the logs for JSON"),
    }
}

#[test]
fn test_export_logs_csv() {
    let mut system = create_test_system();
    let _ = log_simple(&mut system, "user1", "test", "test", "success", "info");

    let exported = system.export_logs("csv").unwrap();
    match exported {
        AuditExport::Csv(text) => {
            assert!(text.contains("id,timestamp,user_id,action,resource"));
            assert!(text.contains("user1"));
        }
        AuditExport::Json(_) => panic!("expected CSV text"),
    }
}

#[test]
fn test_get_log_by_id() {
    let mut system = create_test_system();
    let log_id = log_simple(&mut system, "user1", "test", "test", "success", "info");

    let log = system.get_log(&log_id).unwrap();
    assert_eq!(log.id, log_id);
    assert_eq!(log.user_id, "user1");
}

#[test]
fn test_max_log_entries() {
    let mut system = AuditSystem::new(AuditConfig {
        max_log_entries: 5,
        retention_days: 30,
        enable_compliance_reports: true,
        log_level: "info".to_string(),
    });

    for i in 0..10 {
        let _ = log_simple(&mut system, &format!("user{}", i), "test", "test", "success", "info");
    }

    let logs = system.get_logs(None);
    assert_eq!(logs.len(), 5);
    assert_eq!(logs[0].user_id, "user5");
}

#[test]
fn audit_unsupported_export_format_is_refused() {
    let system = create_test_system();
    let err = system.export_logs("xml").unwrap_err();
    assert_eq!(err.to_text(), "Internal error: Unsupported export format: xml");
}

#[test]
fn audit_csv_line_is_exact() {
    let mut system = create_test_system();
    let id = log_simple(&mut system, "u", "a", "r", "s", "low");
    let log = system.get_log(&id).unwrap();
    match system.export_logs("csv").unwrap() {
        AuditExport::Csv(text) => {
            let expected = format!("id,timestamp,user_id,action,resource,resource_id,status,severity\n{},{},u,a,r,,s,low\n", id, log.timestamp);
            assert_eq!(text, expected);
        }
        AuditExport::Json(_) => panic!("expected CSV text"),
    }
}

#[test]
fn audit_missing_log_is_not_found() {
    let system = create_test_system();
    assert!(system.get_log("nope").is_err());
}

#[test]
fn logged_details_are_kept() {
    let mut system = create_test_system();
    let details: serde_json::Value = serde_json::from_str(r#"{"reason": "test", "n": 3}"#).unwrap();
    system
        .log_action(
            "u".to_string(),
            "a".to_string(),
            "r".to_string(),
            None,
            details.clone(),
            None,
            None,
            "success".to_string(),
            "info".to_string(),
        )
        .unwrap();
    let logs = system.get_logs(None);
    assert_eq!(logs.len(), 1);
    assert_eq!(logs[0].details, details);
}
