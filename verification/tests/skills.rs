use mahakala::skills::{SkillCreate, SkillManager};

#[test]
fn test_skill_install() {
    let mut manager = SkillManager::new();
    let result = manager.install("creative_writing");
    assert!(result.is_ok(), "Skill install should succeed");
    let skill = result.unwrap();
    assert!(skill.installed, "Skill should be installed");
}

#[test]
fn test_skill_enable_disable() {
    let mut manager = SkillManager::new();
    manager.install("code_review").unwrap();

    let result = manager.disable("code_review");
    assert!(result.is_ok(), "Skill disable should succeed");
    assert!(!result.unwrap().enabled, "Skill should be disabled");

    let result = manager.enable("code_review");
    assert!(result.is_ok(), "Skill enable should succeed");
    assert!(result.unwrap().enabled, "Skill should be enabled");
}

#[test]
fn test_skill_list() {
    let manager = SkillManager::new();
    let skills = manager.list();
    assert!(!skills.is_empty(), "Should have default skills");
}

#[test]
fn test_skill_categories() {
    let manager = SkillManager::new();
    let creative = manager.list_by_category("creative");
    assert!(!creative.is_empty(), "Should have creative skills");
}

#[test]
fn skills_enable_requires_install() {
    let mut manager = SkillManager::new();
    let err = manager.enable("web_research").unwrap_err();
    assert_eq!(err.to_text(), "Invalid input: Skill web_research is not installed");
    let err = manager.enable("nope").unwrap_err();
    assert_eq!(err.to_text(), "Not found: Skill nope not found");
}

#[test]
fn skills_enabled_list_needs_install() {
    let mut manager = SkillManager::new();
    assert!(manager.list_enabled().is_empty());
    manager.install("data_analysis").unwrap();
    let enabled = manager.list_enabled();
    assert_eq!(enabled.len(), 1);
    assert_eq!(enabled[0].id, "data_analysis");
    manager.uninstall("data_analysis").unwrap();
    assert!(manager.list_enabled().is_empty());
}

#[test]
fn skills_custom_skill_defaults() {
    let mut manager = SkillManager::new();
    let s = manager.add_custom_skill(SkillCreate { name: "My Skill".to_string(), description: None, category: None }).unwrap();
    assert_eq!(s.id, "my_skill");
    assert_eq!(s.category, "general");
    assert!(s.installed && s.enabled);
    assert_eq!(manager.list().len(), 9);
}
