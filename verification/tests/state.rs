use andromeda_transfer_direct_mini::http::{read_header, HeaderField, Status};
use andromeda_transfer_direct_mini::server::config::{listen_address, DEFAULT_PORT};
use andromeda_transfer_direct_mini::server::file_set::{load_file_set, FileSet, StoredText};
use andromeda_transfer_direct_mini::server::manifest::{load_file_list, ManifestSource};
use andromeda_transfer_direct_mini::server::state::{
    check_exists, check_key, check_path, requested_path, AppState, DownloadReply,
};
use andromeda_transfer_direct_mini::server::upload::{Upload, UploadAction, UploadEvent};
use andromeda_transfer_direct_mini::server::AppConfig;
use andromeda_transfer_direct_mini::FileQueue;
use axum::http::{HeaderMap, HeaderValue, StatusCode};
use std::collections::VecDeque;

fn server(key: &str, files: &[&str]) -> AppState {
    let mut config = AppConfig::for_target("/srv".to_string());
    config.api_key = key.to_string();
    let files: VecDeque<String> = files.iter().map(|s| s.to_string()).collect();
    AppState::new(config, FileSet::new(), FileSet::new(), files)
}

fn headers(name: &'static str, value: &[u8]) -> HeaderMap {
    let mut m = HeaderMap::new();
    m.insert(name, HeaderValue::from_bytes(value).unwrap());
    m
}

#[test]
fn default_settings() {
    let c = AppConfig::default();
    assert_eq!(c.target_dir, ".");
    assert_eq!(c.downloaded_files_path, "downloaded_files.txt");
    assert_eq!(c.uploaded_files_path, "uploaded_files.txt");
    assert_eq!(c.api_key, "");
    let c = AppConfig::for_target("/data".to_string());
    assert_eq!(c.target_dir, "/data");
    assert_eq!(c.downloaded_files_path, "downloaded_files.txt");
    let c = AppConfig::from_args("d".to_string(), None, Some("u".to_string()), "k".to_string());
    assert_eq!(c.target_dir, "d");
    assert_eq!(c.downloaded_files_path, "downloaded_files.txt");
    assert_eq!(c.uploaded_files_path, "u");
    assert_eq!(c.api_key, "k");
    let c = AppConfig::from_args("d".to_string(), Some("x".to_string()), None, String::new());
    assert_eq!(c.downloaded_files_path, "x");
    assert_eq!(c.uploaded_files_path, "uploaded_files.txt");
    assert_eq!(listen_address(DEFAULT_PORT), "0.0.0.0:7000");
    assert_eq!(listen_address(80), "0.0.0.0:80");
}

#[test]
fn statuses_have_their_numbers() {
    assert_eq!(Status::Okay.code(), StatusCode::OK.as_u16());
    assert_eq!(Status::Created.code(), StatusCode::CREATED.as_u16());
    assert_eq!(Status::NoContent.code(), StatusCode::NO_CONTENT.as_u16());
    assert_eq!(Status::BadRequest.code(), StatusCode::BAD_REQUEST.as_u16());
    assert_eq!(Status::Unauthorized.code(), StatusCode::UNAUTHORIZED.as_u16());
    assert_eq!(Status::NotFound.code(), StatusCode::NOT_FOUND.as_u16());
    assert_eq!(Status::InternalServerError.code(), StatusCode::INTERNAL_SERVER_ERROR.as_u16());
    assert_eq!(Status::ServiceUnavailable.code(), StatusCode::SERVICE_UNAVAILABLE.as_u16());
}

#[test]
fn queue_is_first_in_first_out() {
    let mut q = FileQueue::new(VecDeque::from(vec!["a".to_string(), "b".to_string()]));
    assert_eq!(q.len(), 2);
    assert_eq!(q.pop_front(), Some("a".to_string()));
    assert_eq!(q.pop_front(), Some("b".to_string()));
    assert_eq!(q.pop_front(), None);
}

#[test]
fn headers_are_read_whatever_their_case() {
    let m = headers("X-File-Path", b"/a b\t");
    assert!(matches!(read_header(&m, "x-file-path"), HeaderField::Text(s) if s == "/a b\t"));
    assert!(matches!(read_header(&m, "X-Other"), HeaderField::Absent));
    let m = headers("X-File-Path", b"/caf\xc3\xa9");
    assert!(matches!(read_header(&m, "X-File-Path"), HeaderField::NotText));
    let mut m = headers("X-File-Path", b"first");
    m.append("x-file-path", HeaderValue::from_static("second"));
    assert!(matches!(read_header(&m, "X-File-Path"), HeaderField::Text(s) if s == "first"));
}

#[test]
fn key_decides() {
    let s = server("secret", &[]);
    assert_eq!(s.authorize(&headers("X-API-Key", b"secret")), Ok(()));
    assert_eq!(s.authorize(&headers("x-api-key", b"secret")), Ok(()));
    assert_eq!(s.authorize(&headers("X-API-Key", b"Secret")), Err(Status::Unauthorized));
    assert_eq!(s.authorize(&headers("X-API-Key", b"\xff")), Err(Status::Unauthorized));
    assert_eq!(s.authorize(&HeaderMap::new()), Err(Status::Unauthorized));
    let open = server("", &[]);
    assert_eq!(open.authorize(&headers("X-API-Key", b"")), Ok(()));
    assert_eq!(open.authorize(&HeaderMap::new()), Err(Status::Unauthorized));
}

#[test]
fn check_key_on_each_field() {
    let key = "k".to_string();
    assert_eq!(check_key(&key, HeaderField::Text("k".to_string())), Ok(()));
    assert_eq!(check_key(&key, HeaderField::Text("".to_string())), Err(Status::Unauthorized));
    assert_eq!(check_key(&key, HeaderField::NotText), Err(Status::Unauthorized));
    assert_eq!(check_key(&key, HeaderField::Absent), Err(Status::Unauthorized));
}

#[test]
fn each_file_is_handed_out_once() {
    let mut s = server("", &["/a", "/b", "/a"]);
    for expected in ["/a", "/b", "/a"] {
        let r = s.grab_work();
        assert_eq!(r.status, Status::Okay);
        assert_eq!(r.body, expected);
    }
    for _ in 0..2 {
        let r = s.grab_work();
        assert_eq!(r.status, Status::NoContent);
        assert_eq!(r.body, "");
    }
}

#[test]
fn download_without_a_path_is_refused() {
    let r = requested_path(&HeaderMap::new()).unwrap_err();
    assert_eq!(r.status, Status::BadRequest);
    assert_eq!(r.body, "Missing 'X-File-Path' header");
    let r = requested_path(&headers("X-File-Path", b"\xe9")).unwrap_err();
    assert_eq!(r.status, Status::BadRequest);
    assert_eq!(r.body, "Invalid file path header");
    assert_eq!(requested_path(&headers("X-File-Path", b"/a")).unwrap(), "/a");
    assert_eq!(check_path(HeaderField::Text("p".to_string())).unwrap(), "p");
    assert_eq!(check_path(HeaderField::Absent).unwrap_err().body, "Missing 'X-File-Path' header");
    assert_eq!(check_path(HeaderField::NotText).unwrap_err().body, "Invalid file path header");
}

#[test]
fn download_of_a_missing_file_is_refused() {
    assert!(check_exists("/a", true).is_none());
    let r = check_exists("/a", false).unwrap();
    assert_eq!(r.status, Status::NotFound);
    assert_eq!(r.body, "File not found: /a");
}

#[test]
fn download_that_is_read_is_recorded() {
    let mut s = server("", &[]);
    match s.finish_download("/a".to_string(), Ok(vec![1, 2, 3])) {
        DownloadReply::File { content_type, content_length, bytes } => {
            assert_eq!(content_type, "application/octet-stream");
            assert_eq!(content_length, 3);
            assert_eq!(bytes, vec![1, 2, 3]);
        }
        DownloadReply::Failed(_) => panic!("the download failed"),
    }
    match s.finish_download("/b".to_string(), Err("gone".to_string())) {
        DownloadReply::Failed(r) => {
            assert_eq!(r.status, Status::InternalServerError);
            assert_eq!(r.body, "Error reading file: gone");
        }
        DownloadReply::File { .. } => panic!("the download succeeded"),
    }
    assert!(s.downloaded.contains("/a"));
    assert!(!s.downloaded.contains("/b"));
    let (down, up) = s.snapshots();
    assert_eq!(down.path, "downloaded_files.txt");
    assert_eq!(down.content, "/a\n");
    assert_eq!(up.path, "uploaded_files.txt");
    assert_eq!(up.content, "");
}

#[test]
fn restart_skips_downloaded_files() {
    let mut s = server("", &[]);
    let _ = s.finish_download("/b".to_string(), Ok(vec![]));
    let saved = s.snapshots().0.content;
    let loaded = load_file_set(&StoredText::Content(saved));
    let source = ManifestSource::Stored("/a\n/b\n/c\n".to_string());
    let files = load_file_list(source, &loaded).unwrap();
    assert_eq!(files, VecDeque::from(vec!["/a".to_string(), "/c".to_string()]));
}

#[test]
fn finished_upload_is_recorded() {
    let mut s = server("", &[]);
    let mut up = Upload::new("/in/x".to_string());
    for e in [
        UploadEvent::ParentReady,
        UploadEvent::TempCreated,
        UploadEvent::Chunk(vec![1; 10]),
        UploadEvent::ChunkWritten,
        UploadEvent::Chunk(vec![2; 5]),
        UploadEvent::ChunkWritten,
        UploadEvent::BodyEnded,
        UploadEvent::Flushed,
    ] {
        up.step(e);
    }
    assert_eq!(up.action(), UploadAction::Rename);
    assert!(!s.uploaded.contains("/in/x"));
    s.finish_upload(&mut up);
    assert!(s.uploaded.contains("/in/x"));
    assert_eq!(up.action(), UploadAction::Reply);
    let r = up.reply().unwrap();
    assert_eq!(r.status, Status::Created);
    assert_eq!(r.body, "File uploaded to /in/x (15 bytes)");
    assert_eq!(s.snapshots().1.content, "/in/x\n");
}

fn uploaded(s: &mut AppState, path: &str, parts: &[&[u8]]) -> (Vec<u8>, String) {
    let mut up = Upload::new(path.to_string());
    let mut disk: Vec<u8> = Vec::new();
    up.step(UploadEvent::ParentReady);
    up.step(UploadEvent::TempCreated);
    for part in parts {
        up.step(UploadEvent::Chunk(part.to_vec()));
        disk.extend_from_slice(up.chunk().unwrap());
        up.step(UploadEvent::ChunkWritten);
    }
    up.step(UploadEvent::BodyEnded);
    up.step(UploadEvent::Flushed);
    s.finish_upload(&mut up);
    let reply = up.reply().unwrap();
    assert_eq!(reply.status, Status::Created);
    (disk, reply.body)
}

#[test]
fn chunking_makes_no_difference() {
    let cuts: [&[&[u8]]; 4] =
        [&[b"abcdef"], &[b"ab", b"cdef"], &[b"", b"abc", b"", b"def"], &[b"a", b"bcdef", b""]];
    for parts in cuts {
        let mut s = server("", &[]);
        let (disk, body) = uploaded(&mut s, "/in/x", parts);
        assert_eq!(disk, b"abcdef".to_vec());
        assert_eq!(body, "File uploaded to /in/x (6 bytes)");
        assert_eq!(s.snapshots().1.content, "/in/x\n");
    }
    let mut s = server("", &[]);
    assert_eq!(uploaded(&mut s, "/e", &[]), uploaded(&mut s, "/e", &[b"", b""]));
}

#[test]
fn download_gives_back_what_was_uploaded() {
    let mut s = server("", &[]);
    let (disk, _) = uploaded(&mut s, "/in/x", &[b"hel", b"lo"]);
    let path = requested_path(&headers("X-File-Path", b"/in/x")).unwrap();
    assert_eq!(path, "/in/x");
    let reply = s.finish_download(path, Ok(disk));
    assert_eq!(reply.status(), Status::Okay);
    match reply {
        DownloadReply::File { content_type, content_length, bytes } => {
            assert_eq!(content_type, "application/octet-stream");
            assert_eq!(content_length, 5);
            assert_eq!(bytes, b"hello".to_vec());
        }
        DownloadReply::Failed(_) => panic!("the file was read"),
    }
    let reply = s.finish_download("/in/x".to_string(), Err("gone".to_string()));
    assert_eq!(reply.status(), Status::InternalServerError);
}
