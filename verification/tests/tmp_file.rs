use houston::tmp_file::SharableTmpFile;

#[test]
fn test_tmp_file_removed_on_drop() {
    let path;
    {
        let tmp = SharableTmpFile::new("echo hi", "").unwrap();
        path = tmp.path_str().to_string();
        assert!(std::path::Path::new(&path).exists());
    }
    assert!(!std::path::Path::new(&path).exists());
}

#[test]
fn test_tmp_file_name_ends_with_suffix() {
    let tmp = SharableTmpFile::new("Write-Host hi", ".ps1").unwrap();
    assert!(tmp.path_str().ends_with(".ps1"));
}

#[test]
fn test_tmp_file_without_suffix() {
    let tmp = SharableTmpFile::new("echo hi", "").unwrap();
    assert!(!tmp.path_str().is_empty());
}
