use andromeda_transfer_direct_mini::server::file_set::{FileSet, StoredText};
use andromeda_transfer_direct_mini::server::manifest::{
    files_or_none, load_file_list, progress_due, scan, visit, FileListError, ManifestSource,
    ScanProgress, WalkEntry,
};
use andromeda_transfer_direct_mini::server::manifest_file::{
    ManifestCursor, ManifestWriting, WriteAction, WriteEvent, BATCH_SIZE,
};
use std::collections::VecDeque;

fn paths(names: &[&str]) -> VecDeque<String> {
    names.iter().map(|s| s.to_string()).collect()
}

fn numbered(n: usize) -> VecDeque<String> {
    (0..n).map(|i| format!("/f{}", i)).collect()
}

fn write_all(files: &VecDeque<String>) -> (String, usize) {
    let mut text = String::new();
    let mut writes = 0;
    let mut writing = ManifestWriting::new(files.clone());
    loop {
        match writing.action() {
            WriteAction::Create => writing.step(WriteEvent::Created),
            WriteAction::WriteBatch => {
                text.push_str(&writing.batch().unwrap());
                writes += 1;
                writing.step(WriteEvent::BatchWritten);
            }
            WriteAction::Flush => writing.step(WriteEvent::Flushed),
            WriteAction::Finish { created } => {
                assert!(created);
                assert_eq!(writing.position(), files.len() / BATCH_SIZE * BATCH_SIZE);
                break;
            }
        }
    }
    assert!(writing.batch().is_none());
    assert!(writing.into_files() == *files);
    (text, writes)
}

#[test]
fn scan_keeps_plain_files_only() {
    let mut files = VecDeque::new();
    visit(&mut files, WalkEntry::Other);
    visit(&mut files, WalkEntry::File("/b".to_string()));
    visit(&mut files, WalkEntry::Unreadable);
    visit(&mut files, WalkEntry::File("/a".to_string()));
    assert_eq!(files, paths(&["/b", "/a"]));
    let walk = VecDeque::from(vec![
        WalkEntry::Other,
        WalkEntry::File("/b".to_string()),
        WalkEntry::Unreadable,
        WalkEntry::File("/a".to_string()),
        WalkEntry::File("/b".to_string()),
    ]);
    assert_eq!(scan(walk), paths(&["/b", "/a", "/b"]));
    assert_eq!(scan(VecDeque::new()), paths(&[]));
    assert!(WalkEntry::File(String::new()).is_file());
    assert!(!WalkEntry::Other.is_file());
    assert!(!WalkEntry::Unreadable.is_file());
}

#[test]
fn progress_every_thousand_files() {
    assert!(progress_due(1000));
    assert!(progress_due(42_000));
    assert!(!progress_due(999));
    assert!(!progress_due(1001));
}

#[test]
fn progress_is_told_in_words() {
    assert_eq!(ScanProgress::Counting.report(3000), "Counted 3000 files...");
    assert_eq!(ScanProgress::Found.report(0), "Found 0 files");
    assert_eq!(ScanProgress::Found.report(12), "Found 12 files");
    assert_eq!(ScanProgress::Scanned.report(1001), "Scanned 1001 files");
}

#[test]
fn batches_make_up_the_manifest() {
    for (n, writes) in [
        (0, 0),
        (1, 1),
        (BATCH_SIZE - 1, 1),
        (BATCH_SIZE, 1),
        (BATCH_SIZE + 1, 2),
        (2 * BATCH_SIZE, 2),
        (2 * BATCH_SIZE + 5, 3),
    ] {
        let files = numbered(n);
        let mut expected = String::new();
        for f in &files {
            expected.push_str(f);
            expected.push('\n');
        }
        let (text, count) = write_all(&files);
        assert!(text == expected, "{}", n);
        assert_eq!(count, writes, "{}", n);
    }
}

#[test]
fn full_batch_that_fails_is_tried_once_more() {
    let total = 3 * BATCH_SIZE;
    let first = ManifestCursor::first(total).unwrap();
    assert_eq!(first, ManifestCursor { start: 0, last: false });
    let second = first.after(total, true).unwrap();
    assert_eq!(second, ManifestCursor { start: BATCH_SIZE, last: false });
    let retry = second.after(total, false).unwrap();
    assert_eq!(retry, ManifestCursor { start: BATCH_SIZE, last: true });
    assert_eq!(retry.after(total, true), None);
    assert_eq!(retry.after(total, false), None);
    assert_eq!(ManifestCursor::first(5), Some(ManifestCursor { start: 0, last: true }));
}

#[test]
fn list_does_not_depend_on_writing() {
    let files = numbered(BATCH_SIZE + 1);
    let runs = [
        (vec![WriteEvent::CreateFailed], false, 0),
        (
            vec![
                WriteEvent::Created,
                WriteEvent::BatchFailed,
                WriteEvent::BatchFailed,
                WriteEvent::FlushFailed,
            ],
            true,
            0,
        ),
        (
            vec![
                WriteEvent::Created,
                WriteEvent::BatchWritten,
                WriteEvent::BatchFailed,
                WriteEvent::Flushed,
            ],
            true,
            BATCH_SIZE,
        ),
    ];
    for (events, created, position) in runs {
        let mut writing = ManifestWriting::new(files.clone());
        for event in events {
            writing.step(event);
        }
        assert_eq!(writing.action(), WriteAction::Finish { created });
        assert_eq!(writing.position(), position);
        assert!(writing.into_files() == files);
    }
}

#[test]
fn stored_manifest_leaves_what_was_not_downloaded() {
    let mut downloaded = FileSet::new();
    downloaded.insert("/b".to_string());
    let source = ManifestSource::Stored("/a\n\n/b\r\n  \n/c\n/a\n".to_string());
    let files = load_file_list(source, &downloaded).unwrap();
    assert_eq!(files, paths(&["/a", "/c", "/a"]));
}

#[test]
fn scan_leaves_what_was_not_downloaded() {
    let mut downloaded = FileSet::new();
    downloaded.insert("/b".to_string());
    let source = ManifestSource::Scanned(paths(&["/c", "/b", " ", "/a"]));
    let files = load_file_list(source, &downloaded).unwrap();
    assert_eq!(files, paths(&["/c", " ", "/a"]));
}

#[test]
fn unreadable_manifest_is_an_error() {
    let source = ManifestSource::Unreadable("no access".to_string());
    let result = load_file_list(source, &FileSet::new());
    match &result {
        Err(FileListError::ManifestUnreadable(m)) => assert_eq!(m, "no access"),
        Ok(_) => panic!("a list came of an unreadable manifest"),
    }
    assert_eq!(files_or_none(result), paths(&[]));
    assert_eq!(files_or_none(Ok(paths(&["x"]))), paths(&["x"]));
}

#[test]
fn manifest_stands_for_scan() {
    let files = paths(&["/x/1", "/x/2", "/y"]);
    let mut downloaded = FileSet::new();
    downloaded.insert("/x/2".to_string());
    let (text, _) = write_all(&files);
    let stored = load_file_list(ManifestSource::Stored(text), &downloaded).unwrap();
    let scanned = load_file_list(ManifestSource::Scanned(files), &downloaded).unwrap();
    assert_eq!(stored, scanned);
    assert_eq!(stored, paths(&["/x/1", "/y"]));
}

#[test]
fn scan_takes_the_place_of_a_missing_manifest() {
    assert!(ManifestSource::from_stored(StoredText::Missing).is_none());
    let stored = StoredText::Content("/a\n".to_string());
    assert!(matches!(ManifestSource::from_stored(stored), Some(ManifestSource::Stored(s)) if s == "/a\n"));
    let unreadable = StoredText::Unreadable("no".to_string());
    assert!(matches!(
        ManifestSource::from_stored(unreadable),
        Some(ManifestSource::Unreadable(m)) if m == "no"
    ));
}
