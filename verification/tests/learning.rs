use mahakala::learning::{rank_by_count, LearningExperience, LearningLoop};
use mahakala::skills::SkillManager;

fn experience(id: &str, task: &str, tools: Vec<&str>, success: bool, feedback: &str, lesson: &str) -> LearningExperience {
    LearningExperience {
        id: id.to_string(),
        task_description: task.to_string(),
        tools_used: tools.into_iter().map(|t| t.to_string()).collect(),
        skills_used: vec![],
        success,
        feedback: feedback.to_string(),
        timestamp: chrono::Utc::now().timestamp(),
        lessons_learned: lesson.to_string(),
    }
}

#[test]
fn test_record_experience() {
    let mut learning_loop = LearningLoop::new(SkillManager::new());
    let e = experience("test_1", "Test task", vec!["file_read"], true, "Worked well", "Test lesson");
    let result = learning_loop.record_experience(e);
    assert!(result.is_ok());
}

#[test]
fn test_analyze_experience() {
    let learning_loop = LearningLoop::new(SkillManager::new());
    let e = experience("test_2", "Analyze test", vec!["calculator"], true, "Good", "Analysis complete");
    let result = learning_loop.analyze_experience(&e);
    assert!(result.is_ok());
    assert_eq!(
        result.unwrap(),
        "Successfully completed task: Analyze test\nTools used: calculator\nSkills used: \nKey takeaway: The approach worked well and can be reused."
    );
}

#[test]
fn learning_failed_experience_lessons() {
    let learning_loop = LearningLoop::new(SkillManager::new());
    let e = experience("x", "Deploy", vec!["shell_exec", "file_read"], false, "Timed out", "");
    assert_eq!(
        learning_loop.analyze_experience(&e).unwrap(),
        "Failed to complete task: Deploy\nTools used: shell_exec, file_read\nSkills used: \nFeedback: Timed out\nKey takeaway: Need to improve the approach or use different tools."
    );
}

#[test]
fn learning_skill_from_experience() {
    let mut learning_loop = LearningLoop::new(SkillManager::new());
    let e = experience("x", "Write Report!", vec!["file_write"], true, "", "");
    let (skill, lesson) = learning_loop.create_skill_from_experience(&e).unwrap();
    assert_eq!(skill.name, "auto_writereport");
    assert_eq!(skill.category, "auto_generated");
    assert_eq!(skill.description, "Auto-generated skill from experience: Write Report!");
    assert_eq!(lesson, "Skill 'auto_writereport' created from experience. Tools: file_write, Steps: Execute task");
}

#[test]
fn learning_insights_rank_tools() {
    let mut learning_loop = LearningLoop::new(SkillManager::new());
    learning_loop.record_experience(experience("1", "a", vec!["x", "y"], true, "", "")).unwrap();
    learning_loop.record_experience(experience("2", "b", vec!["y"], false, "", "")).unwrap();
    let (ok, total) = learning_loop.success_counts();
    assert_eq!((ok, total), (1, 2));
    let rate = format!("{:.1}", (ok as f64 / total as f64) * 100.0);
    let lines = learning_loop.get_learning_insights(&rate).unwrap();
    assert_eq!(
        lines,
        vec![
            "Total experiences: 2".to_string(),
            "Success rate: 50.0%".to_string(),
            "Most used tool: y (2 times)".to_string(),
            "Most used tool: x (1 times)".to_string(),
        ]
    );
}

#[test]
fn learning_rank_is_by_count() {
    let ranked = rank_by_count(vec![("a".to_string(), 1), ("b".to_string(), 3), ("c".to_string(), 2)]);
    let counts: Vec<usize> = ranked.iter().map(|e| e.1).collect();
    assert_eq!(counts, vec![3, 2, 1]);
}

#[test]
fn learning_suggestions_from_facts() {
    let learning_loop = LearningLoop::new(SkillManager::new());
    let none = learning_loop.suggest_skill_improvements(&vec!["all good".to_string()]).unwrap();
    assert_eq!(none, vec!["No improvements needed based on current learning data".to_string()]);
    let some = learning_loop.suggest_skill_improvements(&vec!["Failed to do X".to_string(), "ok".to_string()]).unwrap();
    assert_eq!(some, vec!["Review failed experience: Failed to do X".to_string()]);
}
