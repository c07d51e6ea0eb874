use mahakala::community_skills::{CommunitySkillCenter, CommunitySkillConfig};
use mahakala::error::AppError;

fn create_test_center() -> CommunitySkillCenter {
    CommunitySkillCenter::new(CommunitySkillConfig::default())
}

fn publish(
    center: &mut CommunitySkillCenter,
    user: &str,
    name: &str,
    description: &str,
    category: &str,
    tags: Vec<&str>,
    code: &str,
    readme: &str,
) -> Result<String, AppError> {
    center.publish_skill(
        user.to_string(),
        name.to_string(),
        description.to_string(),
        "1.0.0".to_string(),
        category.to_string(),
        tags.into_iter().map(|t| t.to_string()).collect(),
        code.to_string(),
        vec![],
        readme.to_string(),
        "MIT".to_string(),
    )
}

#[test]
fn test_publish_skill() {
    let mut center = create_test_center();
    let result = publish(&mut center, "user1", "test-skill", "A test skill", "utilities", vec!["test"], "print('hello')", "# Test Skill");
    assert!(result.is_ok());
}

#[test]
fn test_list_skills() {
    let mut center = create_test_center();
    let _ = publish(&mut center, "user1", "skill1", "Skill 1", "utilities", vec!["test"], "code1", "readme1");
    let _ = publish(&mut center, "user2", "skill2", "Skill 2", "ai", vec!["ml"], "code2", "readme2");

    let skills = center.list_skills(None);
    assert_eq!(skills.len(), 2);

    let filters = vec![("category".to_string(), "utilities".to_string())];
    let filtered = center.list_skills(Some(filters));
    assert_eq!(filtered.len(), 1);
    assert_eq!(filtered[0].category, "utilities");
}

#[test]
fn test_download_skill() {
    let mut center = create_test_center();
    let skill_id = publish(&mut center, "user1", "test-skill", "A test skill", "utilities", vec!["test"], "code", "readme").unwrap();

    let result = center.download_skill(&skill_id, "user2");
    assert!(result.is_ok());

    let skill = center.get_skill(&skill_id).unwrap();
    assert_eq!(skill.downloads, 1);
}

#[test]
fn test_add_review() {
    let mut center = create_test_center();
    let skill_id = publish(&mut center, "user1", "test-skill", "A test skill", "utilities", vec!["test"], "code", "readme").unwrap();

    let review_id = center.add_review(&skill_id, "user2", 5, "Great skill!".to_string()).unwrap();
    assert!(!review_id.is_empty());

    let reviews = center.get_reviews(&skill_id);
    assert_eq!(reviews.len(), 1);
    assert_eq!(reviews[0].rating, 5);

    let skill = center.get_skill(&skill_id).unwrap();
    assert_eq!(skill.rating_total as f64 / skill.rating_count as f64, 5.0);
    assert_eq!(skill.rating_count, 1);
}

#[test]
fn test_update_skill() {
    let mut center = create_test_center();
    let skill_id = publish(&mut center, "user1", "test-skill", "A test skill", "utilities", vec!["test"], "code", "readme").unwrap();

    let result = center.update_skill(
        &skill_id,
        "user1",
        Some("updated-skill".to_string()),
        Some("Updated description".to_string()),
        Some("2.0.0".to_string()),
        None,
        None,
        None,
    );
    assert!(result.is_ok());

    let skill = center.get_skill(&skill_id).unwrap();
    assert_eq!(skill.name, "updated-skill");
    assert_eq!(skill.version, "2.0.0");
}

#[test]
fn test_delete_skill() {
    let mut center = create_test_center();
    let skill_id = publish(&mut center, "user1", "test-skill", "A test skill", "utilities", vec!["test"], "code", "readme").unwrap();

    let result = center.delete_skill(&skill_id, "user1");
    assert!(result.is_ok());

    let skills = center.list_skills(None);
    assert!(skills.is_empty());
}

#[test]
fn test_get_user_skills() {
    let mut center = create_test_center();
    let _ = publish(&mut center, "user1", "skill1", "Skill 1", "utilities", vec![], "code1", "readme1");
    let _ = publish(&mut center, "user1", "skill2", "Skill 2", "ai", vec![], "code2", "readme2");

    let user_skills = center.get_user_skills("user1");
    assert_eq!(user_skills.len(), 2);
}

#[test]
fn test_get_categories() {
    let mut center = create_test_center();
    let _ = publish(&mut center, "user1", "skill1", "Skill 1", "utilities", vec![], "code1", "readme1");
    let _ = publish(&mut center, "user2", "skill2", "Skill 2", "ai", vec![], "code2", "readme2");

    let categories = center.get_categories();
    assert_eq!(categories.len(), 2);
    assert!(categories.contains(&"utilities".to_string()));
    assert!(categories.contains(&"ai".to_string()));
}

#[test]
fn community_skills_test_get_stats() {
    let mut center = create_test_center();
    let skill_id = publish(&mut center, "user1", "test-skill", "A test skill", "utilities", vec![], "code", "readme").unwrap();

    let _ = center.download_skill(&skill_id, "user2");
    let _ = center.add_review(&skill_id, "user2", 4, "Good".to_string());

    let stats = center.get_stats();
    assert_eq!(stats.total_skills, 1);
    assert_eq!(stats.published_skills, 1);
    assert_eq!(stats.total_downloads, 1);
    assert_eq!(stats.total_reviews, 1);
}

#[test]
fn test_search_skills() {
    let mut center = create_test_center();
    let _ = publish(&mut center, "user1", "python-helper", "A Python helper skill", "utilities", vec!["python", "helper"], "code1", "readme1");
    let _ = publish(&mut center, "user2", "javascript-tool", "A JavaScript tool", "utilities", vec!["javascript"], "code2", "readme2");

    let filters = vec![("search".to_string(), "python".to_string())];
    let results = center.list_skills(Some(filters));
    assert_eq!(results.len(), 1);
    assert_eq!(results[0].name, "python-helper");
}

#[test]
fn community_skills_categories_are_sorted() {
    let mut center = create_test_center();
    let _ = publish(&mut center, "u", "b", "B", "zeta", vec![], "c", "r");
    let _ = publish(&mut center, "u", "a", "A", "alpha", vec![], "c", "r");
    let _ = publish(&mut center, "u", "c", "C", "zeta", vec![], "c", "r");
    assert_eq!(center.get_categories(), vec!["alpha".to_string(), "zeta".to_string()]);
}

#[test]
fn community_skills_only_author_updates() {
    let mut center = create_test_center();
    let skill_id = publish(&mut center, "user1", "s", "S", "utilities", vec![], "c", "r").unwrap();
    assert!(center.update_skill(&skill_id, "user2", Some("x".to_string()), None, None, None, None, None).is_err());
    assert!(center.delete_skill(&skill_id, "user2").is_err());
    assert_eq!(center.get_skill(&skill_id).unwrap().name, "s");
}
