use remote_fs::mock::{list_path, list_root};

#[test]
fn mock_root_listing() {
    let entries = list_root();
    assert_eq!(entries.len(), 3);
    assert_eq!(entries[0].name, "Documents");
    assert_eq!(entries[0].type_, "directory");
    assert_eq!(entries[0].size, 0);
    assert_eq!(entries[0].modified_at, "2024-05-22T10:00:00Z");
    assert_eq!(entries[1].name, "image.jpg");
    assert_eq!(entries[1].type_, "file");
    assert_eq!(entries[1].size, 102400);
    assert_eq!(entries[1].modified_at, "2024-05-22T11:30:00Z");
    assert_eq!(entries[2].name, "folder1");
    assert_eq!(entries[2].type_, "directory");
    assert_eq!(entries[2].size, 0);
    assert_eq!(entries[2].modified_at, "2024-05-23T12:00:00Z");
}

#[test]
fn mock_folder1_listing() {
    let entries = list_path("folder1");
    assert_eq!(entries.len(), 1);
    assert_eq!(entries[0].name, "file1.txt");
    assert_eq!(entries[0].type_, "file");
    assert_eq!(entries[0].size, 1024);
    assert_eq!(entries[0].modified_at, "2024-05-23T12:05:00Z");
}

#[test]
fn mock_unknown_path_lists_nothing() {
    assert!(list_path("nonexistent_folder").is_empty());
    assert!(list_path("").is_empty());
    assert!(list_path("folder1/").is_empty());
    assert!(list_path("Folder1").is_empty());
}
