//! What client and server can rely on of each other, and what holds over a restart
//! of the server.

use crate::client::config::Mode;
use crate::client::exchange;
use crate::http;
use crate::http::Status;
use crate::server::file_set;
use crate::server::file_set::FileSet;
use crate::server::manifest;
use crate::server::state;
use crate::server::upload;
use crate::text;
use axum::http::{HeaderMap, HeaderValue};
use vstd::prelude::*;

verus! {

/// The headers that a client makes for its requests carry its key, and those that it
/// makes for a download carry the path.
pub proof fn law_requests_carry_key_and_path(
    key: Seq<char>,
    mode: Mode,
    of_request: HeaderMap<HeaderValue>,
    path: Seq<char>,
    of_download: HeaderMap<HeaderValue>,
)
    requires
        http::header_values(of_request) == exchange::request_header_values(key, mode),
        http::header_values(of_download) == exchange::download_header_values(path),
    ensures
        http::carries(of_request, state::API_KEY_HEADER@, key),
        http::carries(of_download, state::FILE_PATH_HEADER@, path),
{
    reveal_strlit("X-API-Key");
    reveal_strlit("Content-Type");
    assert(http::lower(state::API_KEY_HEADER@).len() == 9);
    assert(http::lower(exchange::CONTENT_TYPE_HEADER@).len() == 12);
}

/// A client passes the server's check of the key exactly if it presents the
/// server's key and that key is visible ASCII characters, spaces and tabs. `sent`
/// are the headers that arrive, whatever else is among them.
pub proof fn law_client_passes_with_server_key(
    client_key: Seq<char>,
    server_key: Seq<char>,
    sent: HeaderMap<HeaderValue>,
)
    requires
        http::carries(sent, state::API_KEY_HEADER@, client_key),
    ensures
        http::header_field_text(sent, state::API_KEY_HEADER@) == Some(server_key) <==> {
            &&& client_key == server_key
            &&& http::visible_text(client_key)
        },
{
    http::law_header_carries_text(client_key);
}

/// The server takes the path that a client asks for as the client gave it, if it
/// is visible ASCII characters, spaces and tabs, and else takes none. `sent` are
/// the headers that arrive, whatever else is among them.
pub proof fn law_path_arrives(path: Seq<char>, sent: HeaderMap<HeaderValue>)
    requires
        http::carries(sent, state::FILE_PATH_HEADER@, path),
    ensures
        http::header_field_text(sent, state::FILE_PATH_HEADER@) == (if http::visible_text(path) {
            Some(path)
        } else {
            None
        }),
{
    http::law_header_carries_text(path);
}

/// A path that the server took from a request is one line, so a record of it is
/// kept by a listing unless it is blank.
pub proof fn law_requested_path_is_one_line(
    headers: HeaderMap<HeaderValue>,
    name: Seq<char>,
    path: Seq<char>,
)
    requires
        http::header_field_text(headers, name) == Some(path),
    ensures
        text::one_line(path),
        !text::blank(path) ==> text::storable(path),
{
    let raw = http::first_value(headers, name);
    assert forall|i: int| 0 <= i < path.len() implies path[i] != '\n' && path[i] != '\r' by {
        assert(path[i] == raw[i] as char);
        assert(http::visible_byte(raw[i]));
    }
}

/// A server that starts again from its saved record of downloads hands out a file
/// exactly if its manifest or scan lists the file and it was not downloaded before.
/// `saved` is the text of the record, each path of which is one line, as every path
/// is that the server took from a request. A blank path is not kept in a record.
pub proof fn law_restart_skips_downloaded(
    downloaded: FileSet,
    saved: String,
    source: manifest::ManifestSource,
    path: Seq<char>,
)
    requires
        downloaded.wf(),
        forall|p: Seq<char>| downloaded@.contains(p) ==> text::one_line(p),
        saved@ == text::unlines(downloaded.listing()),
        downloaded@.contains(path) ==> !text::blank(path),
    ensures
        manifest::remaining(
            source.files(),
            file_set::StoredText::Content(saved).entries().to_set(),
        ).contains(path) <==> source.files().contains(path) && !downloaded@.contains(path),
{
    file_set::law_file_set_round_trip(downloaded, saved);
    let loaded = file_set::StoredText::Content(saved).entries().to_set();
    manifest::law_remaining_members(source.files(), loaded, path);
}

/// The client takes from the server's reply to a request for work the file that was
/// handed out, or that there is none.
pub proof fn law_work_is_understood(q: Seq<Seq<char>>)
    ensures
        ({
            let (status, body) = state::work_given(q);
            exchange::work_taken(status.number(), body) == Ok::<Option<Seq<char>>, Seq<char>>(
                if q.len() > 0 {
                    Some(q[0])
                } else {
                    None
                },
            )
        }),
{
}

/// A request without the right key is an error to the client, whatever it asked
/// for.
pub proof fn law_refusal_is_an_error(body: Seq<char>)
    ensures
        exchange::work_taken(Status::Unauthorized.number(), body) == Err::<
            Option<Seq<char>>,
            Seq<char>,
        >("Unexpected status code: "@ + http::status_display(401)),
        exchange::transfer_told("Upload failed: "@, Status::Unauthorized.number(), body) == Err::<
            (),
            Seq<char>,
        >("Upload failed: "@ + body),
        exchange::transfer_told("Download failed: "@, Status::Unauthorized.number(), body) == Err::<
            (),
            Seq<char>,
        >("Download failed: "@ + body),
{
}

/// A client sees an upload as a success exactly if the server met no failure in
/// it, and else as failed with the text of the first failure.
pub proof fn law_upload_result_is_told(
    path: Seq<char>,
    events: Seq<upload::UploadEvent>,
    status: Status,
    body: Seq<char>,
)
    requires
        upload::due(path, events),
        upload::run(path, events).phase == upload::PhaseModel::Done(status, body),
    ensures
        exchange::transfer_told("Upload failed: "@, status.number(), body) == (
        match upload::first_failure(events) {
            None => Ok::<(), Seq<char>>(()),
            Some(m) => Err::<(), Seq<char>>("Upload failed: "@ + m),
        }),
{
    upload::law_upload_reports_first_failure(path, events);
}

/// A download gives back what an upload stored. After an upload to `path` that was
/// answered as created, a client asks for `path` with the headers `sent`. If `path` is
/// visible ASCII characters, spaces and tabs, the server takes it as asked for, and
/// where reading it gives what the upload left there, the reply holds the chunks that
/// were uploaded, one behind the other, and their length.
pub proof fn law_download_gives_back_upload(
    disk: Map<Seq<char>, Seq<u8>>,
    path: Seq<char>,
    events: Seq<upload::UploadEvent>,
    sent: HeaderMap<HeaderValue>,
)
    requires
        upload::due(path, events),
        upload::run(path, events).phase matches upload::PhaseModel::Done(s, _) && s
            == Status::Created,
        http::visible_text(path),
        http::carries(sent, state::FILE_PATH_HEADER@, path),
    ensures
        http::header_field_text(sent, state::FILE_PATH_HEADER@) == Some(path),
        upload::disk_after(disk, path, events).dom().contains(path),
        ({
            let read = upload::disk_after(disk, path, events)[path];
            let given = state::download_given(Ok(read));
            &&& given.status() == Status::Okay
            &&& given == state::DownloadModel::File {
                content_type: "application/octet-stream"@,
                content_length: upload::received(events).len(),
                bytes: upload::received(events),
            }
        }),
        exchange::transfer_told("Download failed: "@, Status::Okay.number(), Seq::empty()) is Ok,
{
    law_path_arrives(path, sent);
    upload::law_upload_stores_body(disk, Set::empty(), path, events);
}

/// A request that the server refuses because it is shutting down is an error to the
/// client. That of a transfer has the text of the refusal.
pub proof fn law_shutdown_is_told(body: Seq<char>)
    ensures
        exchange::work_taken(Status::ServiceUnavailable.number(), body) == Err::<
            Option<Seq<char>>,
            Seq<char>,
        >("Unexpected status code: "@ + http::status_display(503)),
        exchange::transfer_told("Upload failed: "@, Status::ServiceUnavailable.number(), body)
            == Err::<(), Seq<char>>("Upload failed: "@ + body),
        exchange::transfer_told("Download failed: "@, Status::ServiceUnavailable.number(), body)
            == Err::<(), Seq<char>>("Download failed: "@ + body),
{
}

} // verus!
