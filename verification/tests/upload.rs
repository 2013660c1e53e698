use andromeda_transfer_direct_mini::http::Status;
use andromeda_transfer_direct_mini::server::upload::{Upload, UploadAction, UploadEvent};

fn after(events: Vec<UploadEvent>) -> Upload {
    let mut up = Upload::new("/in/x".to_string());
    for e in events {
        up.step(e);
    }
    up
}

fn e() -> String {
    "disk full".to_string()
}

#[test]
fn upload_goes_through_its_actions() {
    let mut up = Upload::new("/in/x".to_string());
    assert_eq!(up.file_path(), "/in/x");
    assert_eq!(up.temp_path(), "/in/x.TEMP");
    assert_eq!(up.action(), UploadAction::CreateParent);
    up.step(UploadEvent::ParentReady);
    assert_eq!(up.action(), UploadAction::CreateTemp);
    up.step(UploadEvent::TempCreated);
    assert_eq!(up.action(), UploadAction::NextChunk);
    assert!(up.chunk().is_none());
    up.step(UploadEvent::Chunk(b"seven b".to_vec()));
    assert_eq!(up.action(), UploadAction::WriteChunk);
    assert_eq!(up.chunk(), Some(&b"seven b".to_vec()));
    assert!(up.has_room_for(7));
    up.step(UploadEvent::ChunkWritten);
    assert!(up.has_room_for(usize::MAX - 7));
    assert!(!up.has_room_for(usize::MAX - 6));
    up.step(UploadEvent::BodyEnded);
    assert_eq!(up.action(), UploadAction::Flush);
    up.step(UploadEvent::Flushed);
    assert_eq!(up.action(), UploadAction::Rename);
    assert!(up.reply().is_none());
}

#[test]
fn failures_before_the_temporary_file_end_at_once() {
    let up = after(vec![UploadEvent::ParentFailed(e())]);
    assert_eq!(up.action(), UploadAction::Reply);
    let r = up.reply().unwrap();
    assert_eq!(r.status, Status::InternalServerError);
    assert_eq!(r.body, "Failed to create directory: disk full");
    let up = after(vec![UploadEvent::ParentReady, UploadEvent::TempFailed(e())]);
    assert_eq!(up.action(), UploadAction::Reply);
    assert_eq!(up.reply().unwrap().body, "Failed to create temp file: disk full");
}

#[test]
fn later_failures_remove_the_temporary_file() {
    let cases = vec![
        (vec![UploadEvent::ReceiveFailed(e())], "Error receiving chunk: disk full"),
        (
            vec![UploadEvent::Chunk(vec![0]), UploadEvent::WriteFailed(e())],
            "Failed to write chunk: disk full",
        ),
        (
            vec![UploadEvent::BodyEnded, UploadEvent::FlushFailed(e())],
            "Failed to flush file: disk full",
        ),
        (
            vec![UploadEvent::BodyEnded, UploadEvent::Flushed, UploadEvent::RenameFailed(e())],
            "Failed to rename temp file: disk full",
        ),
    ];
    for (tail, body) in cases {
        let mut up = after(vec![UploadEvent::ParentReady, UploadEvent::TempCreated]);
        for e in tail {
            up.step(e);
        }
        assert_eq!(up.action(), UploadAction::RemoveTemp);
        up.step(UploadEvent::TempRemoved);
        assert_eq!(up.action(), UploadAction::Reply);
        let r = up.reply().unwrap();
        assert_eq!(r.status, Status::InternalServerError);
        assert_eq!(r.body, body);
    }
}
