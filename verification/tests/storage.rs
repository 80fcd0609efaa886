use zvec_grep::storage::WorkspaceIndexStorageOptions;

#[test]
fn storage_options_keep_mode_and_path_together() {
    let path = "workspace-index".to_string();
    let options = WorkspaceIndexStorageOptions::ReadOnly { storage_path: path.clone() };
    assert!(options.is_read_only());
    assert_eq!(options.storage_path(), path);
}
