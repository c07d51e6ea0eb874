use mahakala::cron::{CronJobCreate, CronManager};

fn job(name: &str) -> CronJobCreate {
    CronJobCreate { name: name.to_string(), expression: "* * * * *".to_string(), command: "echo".to_string() }
}

#[test]
fn cron_add_start_stop_remove() {
    let mut manager = CronManager::new();
    let j = manager.add_job(job("backup")).unwrap();
    assert!(!j.running);
    assert!(j.next_run.is_none());
    assert_eq!(manager.start_job(&j.id).unwrap(), true);
    let started = manager.get_job(&j.id).unwrap();
    assert!(started.running);
    assert_eq!(started.next_run, Some(started.next_run.unwrap()));
    assert!(started.next_run.unwrap() >= j.created_at + 60);
    assert_eq!(manager.stop_job(&j.id).unwrap(), true);
    assert!(!manager.get_job(&j.id).unwrap().running);
    assert_eq!(manager.remove_job(&j.id).unwrap(), true);
    assert_eq!(manager.remove_job(&j.id).unwrap(), false);
    assert!(manager.list_jobs().is_empty());
}

#[test]
fn cron_start_at_sets_next_run_a_minute_later() {
    let mut manager = CronManager::new();
    let j = manager.add_job(job("x")).unwrap();
    manager.start_job_at(&j.id, 1000).unwrap();
    assert_eq!(manager.get_job(&j.id).unwrap().next_run, Some(1060));
    manager.run_now_at(&j.id, 1234).unwrap();
    assert_eq!(manager.get_job(&j.id).unwrap().last_run, Some(1234));
}

#[test]
fn cron_unknown_job_is_not_found() {
    let mut manager = CronManager::new();
    assert_eq!(manager.start_job("nope").unwrap_err().to_text(), "Not found: Job nope not found");
    assert!(manager.run_now("nope").is_err());
}
