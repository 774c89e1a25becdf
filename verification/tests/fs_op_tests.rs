use cksum::{checksum_file_name, get_parent, relative_path, should_process, starts_with, text_eq, Algo, ChecksumHasher, FINAL_PREFIX, TEMP_PREFIX, CHECKSUM_FILE_MODE, BUFFER_SIZE};

#[test]
fn constants() {
    assert_eq!(TEMP_PREFIX, ".tmp-checksums_");
    assert_eq!(FINAL_PREFIX, "checksums_");
    assert_eq!(CHECKSUM_FILE_MODE, 0o444);
    assert_eq!(BUFFER_SIZE, 8192);
}

#[test]
fn checksum_file_name_format() {
    assert_eq!(checksum_file_name("20231027"), "checksums_20231027.txt");
    assert_eq!(checksum_file_name("2024-01-02-030405"), "checksums_2024-01-02-030405.txt");
    assert_eq!(checksum_file_name(""), "checksums_.txt");
}

#[test]
fn skip_temp_and_final_prefixes() {
    assert!(!should_process(true, ".tmp-checksums_old.txt"));
    assert!(!should_process(true, "checksums_old.txt"));
    assert!(should_process(true, "valid_normal.txt"));
    assert!(!should_process(false, "folder1"));
    assert!(should_process(true, "my_checksums_.txt"));
    assert!(should_process(true, "checksums"));
}

#[test]
fn own_checksum_file_is_skipped() {
    let name = checksum_file_name("2024-01-02-030405");
    assert!(!should_process(true, &name));
}

#[test]
fn prefix_and_equality() {
    assert!(starts_with("checksums_x", "checksums_"));
    assert!(starts_with("abc", ""));
    assert!(!starts_with("ab", "abc"));
    assert!(!starts_with("xbc", "abc"));
    assert!(text_eq("héllo", "héllo"));
    assert!(!text_eq("héllo", "hello"));
    assert!(!text_eq("a", "ab"));
}

#[test]
fn relative_paths_under_the_target_directory() {
    assert_eq!(relative_path("/tmp/x", "/tmp/x/root.txt"), Some("root.txt".to_string()));
    assert_eq!(
        relative_path("/tmp/x", "/tmp/x/folder1/level1.txt"),
        Some("folder1/level1.txt".to_string())
    );
    assert_eq!(
        relative_path("/tmp/x/", "/tmp/x/folder1/subfolder2/level2.txt"),
        Some("folder1/subfolder2/level2.txt".to_string())
    );
    assert_eq!(relative_path("/tmp/x", "/tmp/x"), Some(String::new()));
    assert_eq!(relative_path("/tmp/x", "/tmp/xy/a.txt"), None);
    assert_eq!(relative_path("/tmp/x", "/other/a.txt"), None);
}

#[test]
fn target_directory_choice() {
    assert_eq!(get_parent(false, "/tmp/dir"), Some("/tmp/dir".to_string()));
    assert_eq!(get_parent(true, "/tmp/dir/test_file.txt"), Some("/tmp/dir".to_string()));
    assert_eq!(get_parent(true, "file.txt"), Some(String::new()));
    assert_eq!(get_parent(true, "/"), None);
}

#[test]
fn line_with_relative_path() {
    let rel = relative_path("/data", "/data/folder1/level1.txt").unwrap();
    let mut h = ChecksumHasher::new(Algo::Md5);
    h.update(b"hello");
    assert_eq!(h.finish_line(&rel), "md5 5d41402abc4b2a76b9719d911017c592 folder1/level1.txt");
}
