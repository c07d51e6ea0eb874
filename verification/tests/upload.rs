use mahakala::upload::{stored_name_for, UploadManager};

#[test]
fn upload_stored_name_keeps_extension() {
    assert_eq!(stored_name_for("id1", "photo.jpg"), "id1. jpg");
    assert_eq!(stored_name_for("id1", "README"), "id1. bin");
    assert_eq!(stored_name_for("id1", ".bashrc"), "id1. bin");
    assert_eq!(stored_name_for("id1", "a.tar.gz"), "id1. gz");
}

#[test]
fn upload_records_and_paths() {
    let mut manager = UploadManager::new("/srv/up".to_string());
    let f = manager.save_file("doc.pdf", 42, "application/pdf");
    assert_eq!(f.size, 42);
    assert_eq!(f.stored_name, format!("{}. pdf", f.id));
    assert_eq!(manager.get_file_path(&f.id).unwrap(), format!("/srv/up/{}. pdf", f.id));
    assert_eq!(manager.list_files().len(), 1);
    assert!(manager.delete_file(&f.id));
    assert!(!manager.delete_file(&f.id));
    assert!(manager.get_file(&f.id).is_none());
    assert_eq!(manager.get_upload_dir(), "/srv/up");
}
