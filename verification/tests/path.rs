use workfile_backupper::path::{
    path_components, path_eq_in, path_extension, path_extension_in, path_file_name,
    path_file_name_in, path_file_stem, path_file_stem_in, path_join, path_join_in, path_parent,
    path_parent_in, path_strip_prefix, path_strip_prefix_in, paths_equal,
};
use workfile_backupper::text::{chars_of, decimal_chars, lower_chars, string_of};

fn s(v: &Vec<char>) -> String {
    string_of(v)
}

fn opt(o: Option<Vec<char>>) -> Option<String> {
    o.map(|v| s(&v))
}

#[test]
fn components_of_paths() {
    let cs: Vec<String> = path_components(&chars_of("/a//b/./c/")).iter().map(|v| s(v)).collect();
    assert_eq!(cs, vec!["/", "a", "b", "c"]);
    let cs: Vec<String> = path_components(&chars_of("./a/../b")).iter().map(|v| s(v)).collect();
    assert_eq!(cs, vec![".", "a", "..", "b"]);
    assert!(path_components(&chars_of("")).is_empty());
}

#[test]
fn names_stems_extensions() {
    assert_eq!(opt(path_file_name(&chars_of("foo.txt/."))), Some("foo.txt".into()));
    assert_eq!(opt(path_file_name(&chars_of("foo/.."))), None);
    assert_eq!(opt(path_file_stem(&chars_of("a/foo.rs"))), Some("foo".into()));
    assert_eq!(opt(path_file_stem(&chars_of("foo.tar.gz"))), Some("foo.tar".into()));
    assert_eq!(opt(path_file_stem(&chars_of(".hidden"))), Some(".hidden".into()));
    assert_eq!(opt(path_file_stem(&chars_of("..x"))), Some(".".into()));
    assert_eq!(opt(path_extension(&chars_of("foo.tar.gz"))), Some("gz".into()));
    assert_eq!(opt(path_extension(&chars_of(".hidden"))), None);
    assert_eq!(opt(path_extension(&chars_of("a."))), Some("".into()));
    assert_eq!(opt(path_extension(&chars_of("noext"))), None);
}

#[test]
fn parents_prefixes_joins() {
    assert_eq!(opt(path_parent(&chars_of("/a/b"))), Some("/a".into()));
    assert_eq!(opt(path_parent(&chars_of("/a"))), Some("/".into()));
    assert_eq!(opt(path_parent(&chars_of("a"))), Some("".into()));
    assert_eq!(opt(path_parent(&chars_of("/"))), None);
    assert_eq!(opt(path_parent(&chars_of(""))), None);
    assert_eq!(opt(path_strip_prefix(&chars_of("/a/b/c"), &chars_of("/a"))), Some("b/c".into()));
    assert_eq!(opt(path_strip_prefix(&chars_of("/a/b/c"), &chars_of("a"))), None);
    assert_eq!(opt(path_strip_prefix(&chars_of("/ab/c"), &chars_of("/a"))), None);
    assert_eq!(s(&path_join(&chars_of("/d"), &chars_of("x/y"))), "/d/x/y");
    assert_eq!(s(&path_join(&chars_of("/d/"), &chars_of("x"))), "/d/x");
    assert_eq!(s(&path_join(&chars_of("/d"), &chars_of("/abs"))), "/abs");
    assert_eq!(s(&path_join(&chars_of(""), &chars_of("x"))), "x");
    assert_eq!(s(&path_join(&chars_of("/d"), &chars_of(""))), "/d/");
    assert!(paths_equal("/d/", "/d"));
    assert!(paths_equal("/d/./e", "/d//e"));
    assert!(!paths_equal("/d", "d"));
}

#[test]
fn text_helpers() {
    assert_eq!(s(&decimal_chars(0)), "0");
    assert_eq!(s(&decimal_chars(18446744073709551615)), "18446744073709551615");
    assert_eq!(s(&lower_chars(&chars_of("AbC.Ü"))), "abc.Ü");
}

fn w(x: &str) -> Vec<char> {
    chars_of(x)
}

#[test]
fn windows_file_names_and_extensions() {
    assert_eq!(opt(path_file_name_in(&w(r"C:\a\b.txt"), true)), Some("b.txt".into()));
    assert_eq!(opt(path_file_name_in(&w(r"\\?\C:\dir\x.psd"), true)), Some("x.psd".into()));
    assert_eq!(opt(path_file_name_in(&w(r"C:\a/b.txt"), true)), Some("b.txt".into()));
    assert_eq!(opt(path_file_name_in(&w("C:"), true)), None);
    assert_eq!(opt(path_file_name_in(&w(r"C:\"), true)), None);
    assert_eq!(opt(path_file_name_in(&w("C:a.txt"), true)), Some("a.txt".into()));
    // Off Windows a backslash is part of the name.
    assert_eq!(opt(path_file_name_in(&w(r"C:\a\b.txt"), false)), Some(r"C:\a\b.txt".into()));
    assert_eq!(opt(path_extension_in(&w(r"C:\a\b.TXT"), true)), Some("TXT".into()));
    assert_eq!(opt(path_file_stem_in(&w(r"C:\a\b.tar.gz"), true)), Some("b.tar".into()));
}

#[test]
fn windows_parents_prefixes_joins() {
    assert_eq!(opt(path_parent_in(&w(r"C:\a\b"), true)), Some(r"C:\a".into()));
    assert_eq!(opt(path_parent_in(&w(r"C:\a"), true)), Some(r"C:\".into()));
    assert_eq!(opt(path_parent_in(&w(r"C:\"), true)), None);
    assert_eq!(opt(path_parent_in(&w("C:a"), true)), Some("C:".into()));
    assert_eq!(opt(path_parent_in(&w(r"\\?\C:\s\x.txt"), true)), Some(r"\\?\C:\s".into()));
    assert_eq!(opt(path_strip_prefix_in(&w(r"C:\s\a\b"), &w(r"C:\s"), true)), Some(r"a\b".into()));
    assert_eq!(opt(path_strip_prefix_in(&w(r"C:\s\a"), &w(r"D:\s"), true)), None);
    assert_eq!(opt(path_strip_prefix_in(&w(r"\\?\C:\s\a"), &w(r"C:\s"), true)), None);
    assert_eq!(s(&path_join_in(&w(r"D:\d"), &w("a.txt"), true)), r"D:\d\a.txt");
    assert_eq!(s(&path_join_in(&w(r"D:\d\"), &w("a.txt"), true)), r"D:\d\a.txt");
    assert_eq!(s(&path_join_in(&w("D:"), &w("a.txt"), true)), "D:a.txt");
    assert_eq!(s(&path_join_in(&w(r"D:\d"), &w(r"\x"), true)), r"D:\x");
    assert_eq!(s(&path_join_in(&w(r"D:\d"), &w(r"E:\x"), true)), r"E:\x");
    assert_eq!(s(&path_join_in(&w("/d"), &w("x"), false)), "/d/x");
    assert!(path_eq_in(&w(r"C:\a/b\"), &w(r"C:\a\b"), true));
    assert!(!path_eq_in(&w(r"C:\a"), &w(r"D:\a"), true));
    assert!(!path_eq_in(&w(r"C:\a"), &w(r"C:\b"), false));
}

#[test]
fn windows_drive_letters_in_either_case() {
    assert!(path_eq_in(&w(r"c:\a"), &w(r"C:\a"), true));
    assert_eq!(opt(path_strip_prefix_in(&w(r"\\?\c:\s\a"), &w(r"\\?\C:\s"), true)), Some("a".into()));
}
