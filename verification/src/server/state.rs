//! What the server knows while it runs, and how it answers from that.

use crate::http;
use crate::http::{HeaderField, Reply, Status};
use crate::queue::FileQueue;
use crate::server::config::AppConfig;
use crate::server::file_set;
use crate::server::file_set::FileSet;
use crate::server::shutdown::{ServerEvent, ServerModel, Shutdown};
use crate::server::upload;
use crate::server::upload::Upload;
use crate::text;
use axum::http::{HeaderMap, HeaderValue};
use std::collections::VecDeque;
use vstd::prelude::*;
use vstd::string::*;

verus! {

/// The header that a request presents its key in.
pub const API_KEY_HEADER: &'static str = "X-API-Key";

/// The header that names the file to download.
pub const FILE_PATH_HEADER: &'static str = "X-File-Path";

/// The state of the server.
pub struct AppState {
    /// The files that are still to be handed out.
    pub queue: FileQueue,
    /// The files that were downloaded.
    pub downloaded: FileSet,
    /// The files that were uploaded.
    pub uploaded: FileSet,
    pub config: AppConfig,
    /// The transfers under way, and whether the server is to end.
    pub transfers: Shutdown,
}

/// The status and the body of the reply to a request for work while the files `q`
/// wait.
pub open spec fn work_given(q: Seq<Seq<char>>) -> (Status, Seq<char>) {
    if q.len() > 0 {
        (Status::Okay, q[0])
    } else {
        (Status::NoContent, Seq::empty())
    }
}

/// The files that wait after a request for work.
pub open spec fn work_left(q: Seq<Seq<char>>) -> Seq<Seq<char>> {
    if q.len() > 0 {
        q.drop_first()
    } else {
        q
    }
}

/// The files that wait after `n` requests for work.
pub open spec fn left_after(q: Seq<Seq<char>>, n: nat) -> Seq<Seq<char>>
    decreases n,
{
    if n == 0 {
        q
    } else {
        work_left(left_after(q, (n - 1) as nat))
    }
}

/// Each file of the queue is handed out once, in its order: request number `n`,
/// from zero, gets file number `n`. When all are handed out, every request is told
/// that there is none.
pub proof fn law_each_file_handed_out_once(q: Seq<Seq<char>>, n: nat)
    ensures
        n < q.len() ==> work_given(left_after(q, n)) == (Status::Okay, q[n as int]),
        n >= q.len() ==> work_given(left_after(q, n)) == (Status::NoContent, Seq::<char>::empty()),
{
    lemma_left_after(q, n);
}

proof fn lemma_left_after(q: Seq<Seq<char>>, n: nat)
    ensures
        left_after(q, n) == (if n <= q.len() {
            q.skip(n as int)
        } else {
            Seq::empty()
        }),
    decreases n,
{
    if n == 0 {
        assert(q.skip(0) =~= q);
    } else {
        let m = (n - 1) as nat;
        lemma_left_after(q, m);
        if n <= q.len() {
            assert(q.skip(m as int).drop_first() =~= q.skip(n as int));
        } else if m == q.len() {
            assert(q.skip(m as int) =~= Seq::<Seq<char>>::empty());
        }
    }
}

/// Lets a request pass exactly if the key that it presents is the expected one.
pub fn check_key(expected: &String, presented: HeaderField) -> (r: Result<(), Status>)
    ensures
        match r {
            Ok(()) => presented.text() == Some(expected@),
            Err(s) => s == Status::Unauthorized && presented.text() != Some(expected@),
        },
{
    match presented {
        HeaderField::Text(key) => {
            if key == *expected {
                Ok(())
            } else {
                Err(Status::Unauthorized)
            }
        },
        _ => Err(Status::Unauthorized),
    }
}

/// The path that a download asks for, or the refusal where the request does not
/// name one.
pub fn check_path(named: HeaderField) -> (r: Result<String, Reply>)
    ensures
        match r {
            Ok(path) => named.text() == Some(path@),
            Err(reply) => {
                &&& reply.status == Status::BadRequest
                &&& match named {
                    HeaderField::Absent => reply.body@ == "Missing '"@ + FILE_PATH_HEADER@
                        + "' header"@,
                    HeaderField::NotText => reply.body@ == "Invalid file path header"@,
                    HeaderField::Text(_) => false,
                }
            },
        },
{
    match named {
        HeaderField::Text(path) => Ok(path),
        HeaderField::NotText => {
            let body = "Invalid file path header".to_owned();
            Err(Reply { status: Status::BadRequest, body })
        },
        HeaderField::Absent => {
            let mut body = "Missing '".to_owned();
            body.append(FILE_PATH_HEADER);
            body.append("' header");
            Err(Reply { status: Status::BadRequest, body })
        },
    }
}

/// The refusal of a download of `path` if there is no such file; none if there is
/// one.
pub fn check_exists(path: &str, exists: bool) -> (r: Option<Reply>)
    ensures
        match r {
            Some(reply) => {
                &&& !exists
                &&& reply.status == Status::NotFound
                &&& reply.body@ == "File not found: "@ + path@
            },
            None => exists,
        },
{
    if exists {
        None
    } else {
        let mut body = "File not found: ".to_owned();
        body.append(path);
        Some(Reply { status: Status::NotFound, body })
    }
}

/// How a download of a file that is there is answered.
pub enum DownloadReply {
    /// With the bytes of the file.
    File {
        content_type: String,
        content_length: usize,
        bytes: Vec<u8>,
    },
    /// With the message of the failure to read it.
    Failed(Reply),
}

/// `DownloadReply` in terms of plain values.
#[verifier::ext_equal]
pub enum DownloadModel {
    File { content_type: Seq<char>, content_length: nat, bytes: Seq<u8> },
    Failed(Status, Seq<char>),
}

impl View for DownloadReply {
    type V = DownloadModel;

    open spec fn view(&self) -> DownloadModel {
        match *self {
            DownloadReply::File { content_type, content_length, bytes } => DownloadModel::File {
                content_type: content_type@,
                content_length: content_length as nat,
                bytes: bytes@,
            },
            DownloadReply::Failed(reply) => DownloadModel::Failed(reply.status, reply.body@),
        }
    }
}

impl DownloadModel {
    /// The status of the reply.
    pub open spec fn status(self) -> Status {
        match self {
            DownloadModel::File { .. } => Status::Okay,
            DownloadModel::Failed(status, _) => status,
        }
    }
}

impl DownloadReply {
    /// The status of the reply.
    pub fn status(&self) -> (r: Status)
        ensures
            r == self@.status(),
    {
        match self {
            DownloadReply::File { .. } => Status::Okay,
            DownloadReply::Failed(reply) => reply.status,
        }
    }
}

/// How a download is answered where reading the file gave `read`: its bytes, or the
/// message of the error.
pub open spec fn download_given(read: Result<Seq<u8>, Seq<char>>) -> DownloadModel {
    match read {
        Ok(bytes) => DownloadModel::File {
            content_type: "application/octet-stream"@,
            content_length: bytes.len(),
            bytes,
        },
        Err(e) => DownloadModel::Failed(Status::InternalServerError, "Error reading file: "@ + e),
    }
}

/// A text that is to be saved under a path.
pub struct Snapshot {
    pub path: String,
    pub content: String,
}

impl AppState {
    /// Both records of the state are well formed.
    pub open spec fn wf(&self) -> bool {
        self.downloaded.wf() && self.uploaded.wf()
    }

    /// The transfers and the records of the state.
    pub open spec fn model(&self) -> ServerModel {
        ServerModel {
            transfers: self.transfers,
            downloaded: self.downloaded@,
            uploaded: self.uploaded@,
        }
    }

    /// The state of a server that starts with these records and files.
    pub fn new(
        config: AppConfig,
        downloaded: FileSet,
        uploaded: FileSet,
        files: VecDeque<String>,
    ) -> (r: Self)
        requires
            downloaded.wf(),
            uploaded.wf(),
        ensures
            r.wf(),
            r.queue@ == text::texts(files@),
            r.downloaded == downloaded,
            r.uploaded == uploaded,
            r.config == config,
            r.transfers == Shutdown::idle(),
    {
        AppState {
            queue: FileQueue::new(files),
            downloaded,
            uploaded,
            config,
            transfers: Shutdown::new(),
        }
    }

    /// Lets a request pass exactly if it presents the server's key.
    pub fn authorize(&self, headers: &HeaderMap<HeaderValue>) -> (r: Result<(), Status>)
        ensures
            match r {
                Ok(()) => http::header_field_text(*headers, API_KEY_HEADER@) == Some(
                    self.config.api_key@,
                ),
                Err(s) => {
                    &&& s == Status::Unauthorized
                    &&& http::header_field_text(*headers, API_KEY_HEADER@) != Some(
                        self.config.api_key@,
                    )
                },
            },
    {
        proof {
            lemma_header_names();
        }
        check_key(&self.config.api_key, http::read_header(headers, API_KEY_HEADER))
    }

    /// Hands out the first file of the queue, or replies that there is none left.
    pub fn grab_work(&mut self) -> (r: Reply)
        ensures
            final(self).downloaded == old(self).downloaded,
            final(self).uploaded == old(self).uploaded,
            final(self).config == old(self).config,
            final(self).transfers == old(self).transfers,
            (r.status, r.body@) == work_given(old(self).queue@),
            final(self).queue@ == work_left(old(self).queue@),
    {
        match self.queue.pop_front() {
            Some(body) => Reply { status: Status::Okay, body },
            None => Reply { status: Status::NoContent, body: String::new() },
        }
    }

    /// Answers a download of `path` with what reading it gave. A file that was
    /// read is recorded as downloaded.
    pub fn finish_download(&mut self, path: String, read: Result<Vec<u8>, String>) -> (r:
        DownloadReply)
        requires
            old(self).wf(),
        ensures
            final(self).wf(),
            final(self).queue == old(self).queue,
            final(self).uploaded == old(self).uploaded,
            final(self).config == old(self).config,
            final(self).transfers == old(self).transfers,
            match read {
                Ok(content) => {
                    &&& r@ == download_given(Ok(content@))
                    &&& r matches DownloadReply::File { content_type, content_length, bytes }
                        && content_type@ == "application/octet-stream"@ && content_length
                        == content@.len() && bytes@ == content@
                    &&& final(self).downloaded@ == old(self).downloaded@.insert(path@)
                    &&& final(self).model() == old(self).model().next(
                        ServerEvent::Downloaded(path@),
                    )
                },
                Err(e) => {
                    &&& r@ == download_given(Err(e@))
                    &&& r matches DownloadReply::Failed(reply) && reply.status
                        == Status::InternalServerError && reply.body@ == "Error reading file: "@
                        + e@
                    &&& final(self).downloaded == old(self).downloaded
                },
            },
    {
        match read {
            Ok(bytes) => {
                self.downloaded.insert(path);
                DownloadReply::File {
                    content_type: "application/octet-stream".to_owned(),
                    content_length: bytes.len(),
                    bytes,
                }
            },
            Err(e) => {
                let mut body = "Error reading file: ".to_owned();
                body.append(e.as_str());
                DownloadReply::Failed(Reply { status: Status::InternalServerError, body })
            },
        }
    }

    /// Ends an upload whose temporary file was renamed: its path is recorded as
    /// uploaded.
    pub fn finish_upload(&mut self, upload: &mut Upload)
        requires
            old(self).wf(),
            old(upload)@.phase is Renaming,
        ensures
            final(self).wf(),
            final(self).queue == old(self).queue,
            final(self).downloaded == old(self).downloaded,
            final(self).config == old(self).config,
            final(self).transfers == old(self).transfers,
            final(self).uploaded@ == old(self).uploaded@.insert(old(upload)@.path),
            final(self).model() == old(self).model().next(
                ServerEvent::Uploaded(old(upload)@.path),
            ),
            final(upload)@ == old(upload)@.next(upload::UploadEvent::Renamed),
    {
        self.uploaded.insert(upload.file_path().to_owned());
        upload.renamed();
    }

    /// The records to save: that of the downloads, and that of the uploads.
    pub fn snapshots(&self) -> (r: (Snapshot, Snapshot))
        ensures
            r.0.path == self.config.downloaded_files_path,
            r.0.content@ == text::unlines(self.downloaded.listing()),
            r.1.path == self.config.uploaded_files_path,
            r.1.content@ == text::unlines(self.uploaded.listing()),
    {
        (
            Snapshot {
                path: self.config.downloaded_files_path.clone(),
                content: file_set::save_downloaded_files(&self.downloaded),
            },
            Snapshot {
                path: self.config.uploaded_files_path.clone(),
                content: file_set::save_uploaded_files(&self.uploaded),
            },
        )
    }
}

/// The file that a download request names, or the refusal where it names none.
pub fn requested_path(headers: &HeaderMap<HeaderValue>) -> (r: Result<String, Reply>)
    ensures
        match r {
            Ok(path) => http::header_field_text(*headers, FILE_PATH_HEADER@) == Some(path@),
            Err(reply) => {
                &&& reply.status == Status::BadRequest
                &&& http::header_field_text(*headers, FILE_PATH_HEADER@) is None
                &&& reply.body@ == (if http::has_header(*headers, FILE_PATH_HEADER@) {
                    "Invalid file path header"@
                } else {
                    "Missing '"@ + FILE_PATH_HEADER@ + "' header"@
                })
            },
        },
{
    proof {
        lemma_header_names();
    }
    check_path(http::read_header(headers, FILE_PATH_HEADER))
}

/// The names of the headers have the ordinary form.
pub(crate) proof fn lemma_header_names()
    ensures
        http::header_name(API_KEY_HEADER@),
        http::header_name(FILE_PATH_HEADER@),
{
    reveal_strlit("X-API-Key");
    reveal_strlit("X-File-Path");
}

/// A request for work is handed the first of the files that wait, and only that one leaves:
/// the one handed out and those that are left make up the queue. Where none waits the
/// request is told so and nothing changes.
pub proof fn law_work_is_taken_off_the_front(q: Seq<Seq<char>>)
    ensures
        q.len() > 0 ==> {
            &&& work_given(q).0.number() == 200
            &&& seq![work_given(q).1] + work_left(q) == q
        },
        q.len() == 0 ==> {
            &&& work_given(q).0.number() == 204
            &&& work_given(q).1.len() == 0
            &&& work_left(q).len() == 0
        },
{
    if q.len() > 0 {
        assert(seq![work_given(q).1] + work_left(q) =~= q);
    }
}

/// A file that was read is answered with all of its bytes and their number, as a success. One
/// that could not be read is answered with the message of the failure, as none.
pub proof fn law_download_gives_what_was_read(bytes: Seq<u8>, message: Seq<char>)
    ensures
        download_given(Ok(bytes)).status().number() == 200,
        download_given(Ok(bytes)) matches DownloadModel::File {
            content_type,
            content_length,
            bytes: sent,
        } && sent == bytes && content_length == bytes.len() && content_type
            == "application/octet-stream"@,
        download_given(Err(message)).status().number() == 500,
        download_given(Err(message)) matches DownloadModel::Failed(_, text) && text
            == "Error reading file: "@ + message,
{
}

/// The model of a reply to a download is what the reply holds, field by field.
pub proof fn law_download_reply_is_modelled(
    content_type: String,
    content_length: usize,
    bytes: Vec<u8>,
    reply: Reply,
)
    ensures
        (DownloadReply::File { content_type, content_length, bytes })@ matches DownloadModel::File {
            content_type: t,
            content_length: n,
            bytes: b,
        } && t == content_type@ && n == content_length && b == bytes@,
        DownloadReply::Failed(reply)@ matches DownloadModel::Failed(s, t) && s == reply.status && t
            == reply.body@,
{
}

} // verus!
