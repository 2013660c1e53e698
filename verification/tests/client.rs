use andromeda_transfer_direct_mini::client::exchange::{
    download_headers, download_result, request_headers, source_missing, take_work,
    transfer_succeeded, unexpected_status, upload_result, work_has_body, HeaderError,
};
use andromeda_transfer_direct_mini::client::crew::crew;
use andromeda_transfer_direct_mini::client::transfer::parse_remap;
use andromeda_transfer_direct_mini::client::worker::{
    plan, Answer, Task, Worker, WorkerAction, WorkerPhase,
};
use andromeda_transfer_direct_mini::client::{ClientConfig, FileTransferClient, Mode};
use andromeda_transfer_direct_mini::http::Status;
use andromeda_transfer_direct_mini::server::file_set::FileSet;
use andromeda_transfer_direct_mini::server::state::{requested_path, AppState};
use andromeda_transfer_direct_mini::server::AppConfig;
use std::collections::VecDeque;

fn client(remap: Option<&str>) -> FileTransferClient {
    FileTransferClient::new("http://h:7000".to_string(), remap.map(|s| s.to_string()))
}

fn server(key: &str) -> AppState {
    let mut config = AppConfig::default();
    config.api_key = key.to_string();
    let files = VecDeque::from(vec!["/a".to_string()]);
    AppState::new(config, FileSet::new(), FileSet::new(), files)
}

#[test]
fn default_client_settings() {
    let c = ClientConfig::default();
    assert_eq!(c.server_url, "http://localhost:7000");
    assert_eq!(c.concurrency, 4);
    assert_eq!(c.mode, Mode::Push);
    assert_eq!(c.remap, None);
    assert!(!c.tls);
    assert_eq!(c.api_key, "");
    let c = ClientConfig::for_run("u".to_string(), Mode::Pull, Some(8), Some("a:b".to_string()), true);
    assert_eq!(c.server_url, "u");
    assert_eq!(c.concurrency, 8);
    assert_eq!(c.mode, Mode::Pull);
    assert_eq!(c.remap.as_deref(), Some("a:b"));
    assert!(c.tls);
    assert_eq!(c.api_key, "");
    assert_eq!(ClientConfig::for_run("u".to_string(), Mode::Pull, None, None, false).concurrency, 4);
}

#[test]
fn modes_have_names() {
    assert_eq!(Mode::parse("push"), Some(Mode::Push));
    assert_eq!(Mode::parse("pull"), Some(Mode::Pull));
    assert_eq!(Mode::parse("Pull"), None);
    assert_eq!(Mode::parse(""), None);
    assert_eq!(Mode::pick(Some(Mode::Push), true), Mode::Push);
    assert_eq!(Mode::pick(None, true), Mode::Pull);
    assert_eq!(Mode::pick(None, false), Mode::Push);
}

#[test]
fn remap_has_exactly_one_colon() {
    let pair = |a: &str, b: &str| (a.to_string(), b.to_string());
    assert_eq!(parse_remap("/source/path:/destination/path"), pair("/source/path", "/destination/path"));
    assert_eq!(parse_remap("/source"), pair("", ""));
    assert_eq!(parse_remap("a:b:c"), pair("", ""));
    assert_eq!(parse_remap("a:"), pair("a", ""));
    assert_eq!(parse_remap(":"), pair("", ""));
    assert_eq!(parse_remap(""), pair("", ""));
    assert_eq!(client(Some("a:b")).remap, Some(pair("a", "b")));
    assert_eq!(client(Some("ab")).remap, Some(pair("", "")));
    assert_eq!(client(None).remap, None);
}

#[test]
fn tls_client_takes_any_certificate() {
    assert!(!client(None).accept_invalid_certs);
    let c = FileTransferClient::new_with_tls("u".to_string(), Some("a:b".to_string()), true);
    assert!(c.accept_invalid_certs);
    assert_eq!(c.server_url, "u");
    assert_eq!(c.apply_remap("ax", Mode::Pull), "bx");
    assert!(!FileTransferClient::new_with_tls("u".to_string(), None, false).accept_invalid_certs);
}

#[test]
fn remap_replaces_a_leading_side() {
    let c = client(Some("/remote/data:/local/backup"));
    assert_eq!(c.apply_remap("/remote/data/x/y", Mode::Pull), "/local/backup/x/y");
    assert_eq!(c.apply_remap("/local/backup/x/y", Mode::Push), "/remote/data/x/y");
    assert_eq!(c.apply_remap("/other/x", Mode::Pull), "/other/x");
    assert_eq!(c.apply_remap("/remote/data/x", Mode::Push), "/remote/data/x");
    assert_eq!(c.apply_remap("/remote/data2", Mode::Pull), "/local/backup2");
    assert_eq!(c.apply_remap("/remote/data/remote/data", Mode::Pull), "/local/backup/remote/data");
    assert_eq!(c.apply_remap("/x/remote/data", Mode::Pull), "/x/remote/data");
}

#[test]
fn remap_that_is_no_pair_maps_nothing() {
    for remap in [None, Some("/a"), Some("/a:/b:/c"), Some(":/b"), Some("/a:")] {
        let c = client(remap);
        for path in ["/a/x", "/b/x", ""] {
            assert_eq!(c.apply_remap(path, Mode::Pull), path);
            assert_eq!(c.apply_remap(path, Mode::Push), path);
        }
    }
}

#[test]
fn remap_round_trip() {
    let c = client(Some("/s:/t"));
    for path in ["/s/x", "/s", "/u/x"] {
        assert_eq!(c.apply_remap(&c.apply_remap(path, Mode::Pull), Mode::Push), path);
    }
    for path in ["/t/x", "/u/x"] {
        assert_eq!(c.apply_remap(&c.apply_remap(path, Mode::Push), Mode::Pull), path);
    }
    assert_eq!(c.apply_remap(&c.apply_remap("/t/x", Mode::Pull), Mode::Push), "/s/x");
}

#[test]
fn urls() {
    let c = client(Some("/s:/t"));
    assert_eq!(c.grab_work_url(), "http://h:7000/grab_work");
    assert_eq!(c.download_url(), "http://h:7000/download_file");
    assert_eq!(c.upload_url("/t/x"), "http://h:7000/upload_file//s/x");
    assert_eq!(c.upload_url("x"), "http://h:7000/upload_file/x");
}

#[test]
fn requests_carry_the_key() {
    let m = request_headers("secret", Mode::Push).unwrap();
    assert_eq!(m.len(), 2);
    assert_eq!(m.get("x-api-key").unwrap(), "secret");
    assert_eq!(m.get("content-type").unwrap(), "application/octet-stream");
    let m = request_headers("secret", Mode::Pull).unwrap();
    assert_eq!(m.len(), 1);
    assert_eq!(m.get("X-API-Key").unwrap(), "secret");
    assert_eq!(request_headers("a\nb", Mode::Pull).unwrap_err(), HeaderError::InvalidKey);
    assert_eq!(request_headers("\u{7f}", Mode::Push).unwrap_err(), HeaderError::InvalidKey);
    assert!(request_headers("\u{e9}\t", Mode::Push).is_ok());
}

#[test]
fn key_of_the_client_is_checked_by_the_server() {
    for key in ["secret", "", "a b\tc~"] {
        for mode in [Mode::Push, Mode::Pull] {
            let m = request_headers(key, mode).unwrap();
            assert_eq!(server(key).authorize(&m), Ok(()));
            assert_eq!(server("other").authorize(&m), Err(Status::Unauthorized));
        }
    }
    let m = request_headers("\u{e9}", Mode::Pull).unwrap();
    assert_eq!(server("\u{e9}").authorize(&m), Err(Status::Unauthorized));
}

#[test]
fn path_of_a_download_arrives() {
    let m = download_headers("/data/a b").unwrap();
    assert_eq!(m.len(), 1);
    assert_eq!(requested_path(&m).unwrap(), "/data/a b");
    let m = download_headers("/\u{e9}").unwrap();
    assert_eq!(requested_path(&m).unwrap_err().body, "Invalid file path header");
    assert_eq!(download_headers("a\rb").unwrap_err(), HeaderError::InvalidPath);
}

#[test]
fn work_is_taken_from_replies() {
    assert!(work_has_body(200));
    assert!(!work_has_body(204));
    assert_eq!(take_work(200, "/a".to_string()), Ok(Some("/a".to_string())));
    assert_eq!(take_work(204, String::new()), Ok(None));
    assert_eq!(
        take_work(401, String::new()),
        Err("Unexpected status code: 401 Unauthorized".to_string())
    );
    assert_eq!(
        take_work(201, "x".to_string()),
        Err("Unexpected status code: 201 Created".to_string())
    );
    assert_eq!(
        take_work(599, String::new()),
        Err("Unexpected status code: 599 <unknown status code>".to_string())
    );
    assert_eq!(unexpected_status("418 I'm a teapot"), "Unexpected status code: 418 I'm a teapot");
}

#[test]
fn server_and_client_agree_on_work() {
    let mut s = server("");
    let r = s.grab_work();
    assert_eq!(take_work(r.status.code(), r.body), Ok(Some("/a".to_string())));
    let r = s.grab_work();
    assert_eq!(take_work(r.status.code(), r.body), Ok(None));
}

#[test]
fn transfers_succeed_with_codes_of_two_hundred() {
    for (code, ok) in [(199, false), (200, true), (201, true), (299, true), (300, false), (500, false)] {
        assert_eq!(transfer_succeeded(code), ok);
        assert_eq!(upload_result(code, "why").is_ok(), ok);
        assert_eq!(download_result(code, "why").is_ok(), ok);
    }
    assert_eq!(upload_result(500, "why"), Err("Upload failed: why".to_string()));
    assert_eq!(download_result(404, "why"), Err("Download failed: why".to_string()));
    assert_eq!(source_missing("\"/a\""), "Source file not found: \"/a\"");
}

#[test]
fn tasks_follow_the_mode() {
    let c = client(Some("/s:/t"));
    match plan(&c, Mode::Pull, "/s/x".to_string()) {
        Task::Download { remote, local } => {
            assert_eq!(remote, "/s/x");
            assert_eq!(local, "/t/x");
        }
        Task::Upload { .. } => panic!("a pull uploads"),
    }
    match plan(&c, Mode::Push, "/s/x".to_string()) {
        Task::Upload { source, remote } => {
            assert_eq!(source, "/t/x");
            assert_eq!(remote, "/t/x");
            assert_eq!(c.upload_url(&remote), "http://h:7000/upload_file//s/x");
        }
        Task::Download { .. } => panic!("a push downloads"),
    }
}

#[test]
fn worker_runs_until_nothing_is_left() {
    let mut w = Worker::new();
    assert_eq!(w.action(), WorkerAction::Ask);
    w.answered(Answer::File);
    assert_eq!(w.action(), WorkerAction::Transfer);
    w.transferred(true);
    w.answered(Answer::File);
    w.transferred(false);
    assert_eq!(w.action(), WorkerAction::Ask);
    w.answered(Answer::NoneLeft);
    assert_eq!(w.action(), WorkerAction::Stop);
    assert_eq!(w.phase, WorkerPhase::Finished);
    assert_eq!((w.completed, w.failed), (1, 1));
    let mut w = Worker::new();
    w.answered(Answer::Failed);
    assert_eq!(w.action(), WorkerAction::Stop);
}

#[test]
fn interrupted_worker_finishes_its_transfer() {
    let mut w = Worker::new();
    w.answered(Answer::File);
    w.interrupt();
    assert_eq!(w.action(), WorkerAction::Transfer);
    w.transferred(true);
    assert_eq!(w.action(), WorkerAction::Stop);
    assert_eq!(w.completed, 1);
    let mut w = Worker::new();
    w.interrupt();
    assert_eq!(w.action(), WorkerAction::Stop);
    w.answered(Answer::File);
    assert_eq!(w.action(), WorkerAction::Transfer);
}

fn transferred_by(concurrency: usize, names: &[&str]) -> Vec<String> {
    let files: VecDeque<String> = names.iter().map(|s| s.to_string()).collect();
    let mut s = AppState::new(AppConfig::default(), FileSet::new(), FileSet::new(), files);
    let mut workers = crew(concurrency);
    assert_eq!(workers.len(), concurrency);
    let mut held: Vec<Option<String>> = vec![None; concurrency];
    let mut over = Vec::new();
    let mut turn = 0;
    while workers.iter().any(|w| w.action() != WorkerAction::Stop) {
        let i = (turn * 7) % concurrency;
        turn += 1;
        match workers[i].action() {
            WorkerAction::Ask => {
                let reply = s.grab_work();
                held[i] = take_work(reply.status.code(), reply.body).unwrap();
                let answer = if held[i].is_some() { Answer::File } else { Answer::NoneLeft };
                workers[i].answered(answer);
            }
            WorkerAction::Transfer => {
                over.push(held[i].take().unwrap());
                workers[i].transferred(true);
            }
            WorkerAction::Stop => {}
        }
        assert!(held.iter().flatten().count() <= concurrency);
    }
    over.sort();
    over
}

#[test]
fn worker_count_makes_no_difference() {
    let names = ["/a", "/b", "/c", "/d", "/e"];
    for n in [1, 2, 4, 8] {
        assert_eq!(transferred_by(n, &names), names);
    }
    assert!(crew(0).is_empty());
    assert_eq!(crew(2)[1], Worker::new());
}

#[test]
fn failed_request_stops_one_worker_only() {
    let files = VecDeque::from(vec!["/a".to_string(), "/b".to_string()]);
    let mut s = AppState::new(AppConfig::default(), FileSet::new(), FileSet::new(), files);
    let mut workers = crew(2);
    workers[0].answered(Answer::Failed);
    assert_eq!(workers[0].action(), WorkerAction::Stop);
    let mut over = Vec::new();
    while workers[1].action() == WorkerAction::Ask {
        let reply = s.grab_work();
        match take_work(reply.status.code(), reply.body).unwrap() {
            Some(path) => {
                workers[1].answered(Answer::File);
                over.push(path);
                workers[1].transferred(false);
            }
            None => workers[1].answered(Answer::NoneLeft),
        }
    }
    assert_eq!(over, ["/a", "/b"]);
    assert_eq!((workers[1].completed, workers[1].failed), (0, 2));
}

#[test]
fn key_and_path_are_found_among_other_headers() {
    let mut sent = request_headers("k", Mode::Push).unwrap();
    sent.extend(download_headers("/a b").unwrap());
    sent.insert("accept", axum::http::HeaderValue::from_static("*/*"));
    assert_eq!(sent.len(), 4);
    assert_eq!(server("k").authorize(&sent), Ok(()));
    assert_eq!(server("x").authorize(&sent), Err(Status::Unauthorized));
    assert_eq!(requested_path(&sent).unwrap(), "/a b");
}
