use workfile_backupper::services::target_checker::TargetChecker;
use workfile_backupper::services::extensions::Extensions;

/// The shared body of the two rule tests.
fn test_base(all_files_enabled: bool) {
    let extensions = ["aaa", "BBB", "CcC", "hidden_file"];

    // (expected with all files, expected with the listed extensions, path)
    let test_cases = vec![
        (true, true, "/absolute/folder/file.aaa"),
        (true, true, "relative/folder/file.aaa"),
        (true, false, "no_extension_file"),
        (true, false, "unregistered_ext.zzz"),
        (true, false, ".hidden_file"),
        (true, true, "file.AAA"),
        (true, true, "file.bbb"),
        (true, true, "file.cCc"),
    ];

    let extensions: Vec<String> = extensions.iter().map(|s| String::from(*s)).collect();
    let checker = TargetChecker::new(all_files_enabled, &extensions);

    for (expected_all, expected_ext, path_str) in test_cases {
        let expected = if all_files_enabled { expected_all } else { expected_ext };
        let result = checker.is_target_logic(path_str);
        assert_eq!(result, expected, "path {}", path_str);
    }
}

#[test]
fn test_all_files_enabled() {
    test_base(true);
}

#[test]
fn test_extension_filtering() {
    test_base(false);
}

#[test]
fn is_target_needs_a_file() {
    let checker = TargetChecker::new(true, &[]);
    assert!(checker.is_target("dir/a.txt", true));
    assert!(!checker.is_target("dir/a.txt", false));
    let checker = TargetChecker::new(false, &["txt".to_string()]);
    assert!(checker.is_target("dir/A.TXT", true));
    assert!(!checker.is_target("dir/A.TXT", false));
    assert!(!checker.is_target("dir/A.md", true));
}

#[test]
fn extensions_set_ignores_case() {
    let mut exts = Extensions::new();
    assert!(!exts.contains("a.txt"));
    exts.insert("TXT");
    exts.insert("txt");
    assert!(exts.contains("a.txt"));
    assert!(exts.contains("b/c.TxT"));
    assert!(!exts.contains("txt"));
    assert!(!exts.contains(".txt"));
    exts.clear();
    assert!(!exts.contains("a.txt"));
    let from = Extensions::from_list(&["Psd".to_string(), "sai2".to_string()]);
    assert!(from.contains("x/y.PSD"));
    assert!(from.contains("y.sai2"));
    assert!(!from.contains("y.sai"));
}

#[test]
fn windows_extensions() {
    let checker = TargetChecker::new_on(false, &["txt".to_string()], true);
    assert!(checker.is_target(r"C:\a\b.TXT", true));
    assert!(!checker.is_target(r"C:\a.txt\b", true));
    let unix = TargetChecker::new_on(false, &["txt".to_string()], false);
    assert!(unix.is_target(r"C:\a\b.TXT", true));
    assert!(!unix.is_target(r"a.txt\b", true));
    let exts = Extensions::from_list(&["psd".to_string()]);
    assert!(exts.contains_on(r"\\?\C:\w\x.PSD", true));
    assert!(!exts.contains_on(r"C:\w.psd\x", true));
}
