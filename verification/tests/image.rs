use mahakala::image::{ImageConfig, ImageManager, ANALYSIS_CONFIDENCE_BITS};

fn manager() -> ImageManager {
    ImageManager::new(ImageConfig {
        model: "dall-e-3".to_string(),
        default_width: 1024,
        default_height: 1024,
        default_format: "png".to_string(),
    })
}

#[test]
fn test_generate_image() {
    let mut manager = manager();
    let id = manager.generate_image("A beautiful sunset", None, None);
    assert!(id.is_ok());
    assert_eq!(manager.list_generated_images().len(), 1);
}

#[test]
fn test_analyze_image() {
    let mut manager = manager();
    let id = manager.analyze_image("/tmp/test.png", None);
    assert!(id.is_ok());
    assert_eq!(manager.list_analyses().len(), 1);
}

#[test]
fn test_get_generated_image() {
    let mut manager = manager();
    let id = manager.generate_image("A cat", None, None).unwrap();
    let image = manager.get_generated_image(&id);
    assert!(image.is_some());
    assert_eq!(image.unwrap().prompt, "A cat");
}

#[test]
fn image_path_and_size() {
    let mut manager = manager();
    let id = manager.generate_image("A dog", Some(640), None).unwrap();
    let img = manager.get_generated_image(&id).unwrap();
    assert_eq!(img.path, format!("/tmp/images/{}.png", id));
    assert_eq!((img.width, img.height), (640, 1024));
    assert_eq!(manager.get_stats().default_size, "1024x1024");
}

#[test]
fn image_analysis_text() {
    let mut manager = manager();
    let id = manager.analyze_image("/x.png", Some("Count cats")).unwrap();
    let a = manager.get_analysis(&id).unwrap();
    assert_eq!(a.description, "Analysis of image: /x.png. Prompt: Count cats");
    assert_eq!(a.objects, vec!["object1".to_string(), "object2".to_string()]);
    assert_eq!(f64::from_bits(ANALYSIS_CONFIDENCE_BITS), 0.92);
    let id2 = manager.analyze_image("/y.png", None).unwrap();
    assert_eq!(manager.get_analysis(&id2).unwrap().description, "Analysis of image: /y.png. Prompt: Describe this image in detail");
}
