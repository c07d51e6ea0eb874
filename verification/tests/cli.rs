use mahakala::cli::CliManager;

#[test]
fn commands_run_after_lower_casing() {
    let m = CliManager::new("linux");
    assert_eq!(m.execute("EXIT").unwrap(), "Goodbye!");
    assert_eq!(m.run_command("exit", &vec![]).unwrap(), "Goodbye!");
    assert_eq!(m.execute("   ").unwrap(), "");
    let status = m.run_command("status", &vec![]).unwrap();
    assert!(status.contains("- Platform: linux"));
    assert_eq!(m.execute("Status").unwrap(), status);
    assert!(m.run_command("nope", &vec![]).is_err());
    assert_eq!(m.execute("Help").unwrap(), m.run_command("help", &vec![]).unwrap());
}

#[test]
fn help_lists_or_describes_commands() {
    let m = CliManager::new("linux");
    let all = m.help(&vec![]);
    assert!(all.starts_with("Available commands:\n"));
    assert!(all.ends_with("\nUse 'help <command>' for more information."));
    assert!(m.help(&vec!["status".to_string()]).starts_with("status - "));
    assert_eq!(m.help(&vec!["nope".to_string()]), "Unknown command: nope");
}
