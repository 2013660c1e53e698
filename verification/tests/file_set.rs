use andromeda_transfer_direct_mini::server::file_set::{
    load_downloaded_files, load_file_set, load_uploaded_files, save_downloaded_files,
    save_file_set, save_uploaded_files, FileSet, StoredText,
};

fn stored(s: &str) -> StoredText {
    StoredText::Content(s.to_string())
}

#[test]
fn set_names_each_path_once() {
    let mut set = FileSet::new();
    assert_eq!(set.len(), 0);
    set.insert("/b".to_string());
    set.insert("/a".to_string());
    set.insert("/b".to_string());
    assert_eq!(set.len(), 2);
    assert!(set.contains("/a"));
    assert!(set.contains("/b"));
    assert!(!set.contains("/c"));
    assert_eq!(save_file_set(&set), "/b\n/a\n");
}

#[test]
fn loading_passes_over_blank_lines() {
    let set = load_file_set(&stored("/a\n\n  \t\n /b \r\n/a\n/c"));
    assert_eq!(set.len(), 3);
    assert!(set.contains("/a"));
    assert!(set.contains(" /b "));
    assert!(set.contains("/c"));
    assert!(!set.contains("/b"));
    assert!(!set.contains(""));
}

#[test]
fn nothing_is_loaded_where_nothing_was_read() {
    assert_eq!(load_file_set(&StoredText::Missing).len(), 0);
    assert_eq!(load_file_set(&StoredText::Unreadable("no".to_string())).len(), 0);
    assert!(StoredText::Missing.needs_creation());
    assert!(!StoredText::Unreadable(String::new()).needs_creation());
    assert!(!stored("").needs_creation());
}

#[test]
fn downloads_survive_a_restart() {
    let mut set = FileSet::new();
    set.insert("/data/a b".to_string());
    set.insert("/data/\u{e9}".to_string());
    let text = save_downloaded_files(&set);
    assert_eq!(text, "/data/a b\n/data/\u{e9}\n");
    let again = load_downloaded_files(&StoredText::Content(text));
    assert_eq!(again.len(), 2);
    assert!(again.contains("/data/a b"));
    assert!(again.contains("/data/\u{e9}"));
}

#[test]
fn uploads_survive_a_restart() {
    let mut set = FileSet::new();
    set.insert("x".to_string());
    let text = save_uploaded_files(&set);
    assert_eq!(text, "x\n");
    let again = load_uploaded_files(&StoredText::Content(text));
    assert_eq!(again.len(), 1);
    assert!(again.contains("x"));
}

#[test]
fn loaded_set_is_saved_unchanged() {
    let once = load_file_set(&stored("b\r\n\n a\nb\nc"));
    let again = load_file_set(&StoredText::Content(save_file_set(&once)));
    assert_eq!(once.len(), 3);
    assert_eq!(again.len(), 3);
    for p in ["b", " a", "c"] {
        assert!(once.contains(p) && again.contains(p));
    }
}

#[test]
fn path_with_line_feed_is_not_kept() {
    let mut set = FileSet::new();
    set.insert("a\nb".to_string());
    let again = load_file_set(&StoredText::Content(save_file_set(&set)));
    assert!(!again.contains("a\nb"));
    assert!(again.contains("a"));
    assert!(again.contains("b"));
}
