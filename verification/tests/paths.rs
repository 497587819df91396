use ios_lldb_dap::paths::{basename_of, line_file_path, source_name_of};

#[test]
fn basename_is_the_final_name() {
    assert_eq!(basename_of("/tmp/foo.rs").as_deref(), Some("foo.rs"));
    assert_eq!(basename_of("foo.rs").as_deref(), Some("foo.rs"));
    assert_eq!(basename_of("a/b/").as_deref(), Some("b"));
    assert_eq!(basename_of("a/b//").as_deref(), Some("b"));
    assert_eq!(basename_of("a/b/.").as_deref(), Some("b"));
    assert_eq!(basename_of("./a").as_deref(), Some("a"));
    assert_eq!(basename_of("..a").as_deref(), Some("..a"));
    assert_eq!(basename_of("/tmp/\u{e9}t\u{e9}.rs").as_deref(), Some("\u{e9}t\u{e9}.rs"));
}

#[test]
fn basename_agrees_with_the_paths_of_the_host() {
    for path in [
        "/tmp/foo.rs", "foo.rs", "a/b/", "a/b//", "a/b/.", "./a", "..a", "", "/", ".", "./", "..",
        "a/..", "a/../", "/.", "//", "a/./b/.", "a//b",
    ] {
        let expected = std::path::Path::new(path)
            .file_name()
            .and_then(|n| n.to_str())
            .map(|n| n.to_string());
        assert_eq!(basename_of(path), expected, "{path:?}");
    }
}

#[test]
fn some_paths_have_no_final_name() {
    for path in ["", "/", ".", "./", "..", "a/..", "a/../", "/.", "//"] {
        assert_eq!(basename_of(path), None, "{path:?}");
    }
}

#[test]
fn source_name_follows_the_last_separator() {
    assert_eq!(source_name_of("/tmp/main.rs"), "main.rs");
    assert_eq!(source_name_of("C:\\src\\main.rs"), "main.rs");
    assert_eq!(source_name_of("main.rs"), "main.rs");
    assert_eq!(source_name_of("<unknown>"), "<unknown>");
    assert_eq!(source_name_of("dir/"), "");
    assert_eq!(source_name_of(""), "");
}

#[test]
fn file_paths_are_joined_from_directory_and_name() {
    assert_eq!(line_file_path(Some("main.rs"), Some("/src")).as_deref(), Some("/src/main.rs"));
    assert_eq!(line_file_path(Some("main.rs"), Some("/src///")).as_deref(), Some("/src/main.rs"));
    assert_eq!(line_file_path(Some("main.rs"), Some("/")).as_deref(), Some("/main.rs"));
    assert_eq!(line_file_path(Some("main.rs"), Some("")).as_deref(), Some("main.rs"));
    assert_eq!(line_file_path(Some("main.rs"), None).as_deref(), Some("main.rs"));
    assert_eq!(line_file_path(None, Some("/src")), None);
    assert_eq!(line_file_path(None, None), None);
}
