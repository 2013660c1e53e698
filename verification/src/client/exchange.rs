//! The headers that the client sends, and what it makes of the status codes that
//! come back.

use crate::client::config::Mode;
use crate::http;
use crate::server::state::{API_KEY_HEADER, FILE_PATH_HEADER};
use axum::http::{HeaderMap, HeaderValue};
use vstd::prelude::*;
use vstd::string::*;

verus! {

/// The header that says what kind of content a request carries.
pub const CONTENT_TYPE_HEADER: &'static str = "Content-Type";

/// The kind of content of a file that is sent.
pub const OCTET_STREAM: &'static str = "application/octet-stream";

/// Why the headers of a request cannot be made.
#[derive(Clone, Copy, Debug, PartialEq, Eq, Structural)]
pub enum HeaderError {
    /// The key holds characters that no header value can.
    InvalidKey,
    /// The path holds characters that no header value can.
    InvalidPath,
}

/// The headers of each request of a client that presents `api_key`: the key, and
/// for a push the kind of content that is sent.
pub open spec fn request_header_values(api_key: Seq<char>, mode: Mode) -> Map<
    Seq<char>,
    Seq<Seq<u8>>,
> {
    let key = map![http::lower(API_KEY_HEADER@) => seq![vstd::utf8::encode_utf8(api_key)]];
    match mode {
        Mode::Push => key.insert(
            http::lower(CONTENT_TYPE_HEADER@),
            seq![vstd::utf8::encode_utf8(OCTET_STREAM@)],
        ),
        Mode::Pull => key,
    }
}

/// The header of a request for the file at `path`.
pub open spec fn download_header_values(path: Seq<char>) -> Map<Seq<char>, Seq<Seq<u8>>> {
    map![http::lower(FILE_PATH_HEADER@) => seq![vstd::utf8::encode_utf8(path)]]
}

proof fn lemma_content_type()
    ensures
        http::header_name(CONTENT_TYPE_HEADER@),
        http::header_value(vstd::utf8::encode_utf8(OCTET_STREAM@)),
{
    reveal_strlit("Content-Type");
    reveal_strlit("application/octet-stream");
    vstd::utf8::is_ascii_chars_encode_utf8(OCTET_STREAM@);
}

/// Makes the headers of each request of a client that presents `api_key`. That
/// fails if and only if the key holds ASCII control characters other than tabs.
pub fn request_headers(api_key: &str, mode: Mode) -> (r: Result<
    HeaderMap<HeaderValue>,
    HeaderError,
>)
    ensures
        match r {
            Ok(m) => {
                &&& http::sendable_text(api_key@)
                &&& http::header_values(m) == request_header_values(api_key@, mode)
            },
            Err(e) => e == HeaderError::InvalidKey && !http::sendable_text(api_key@),
        },
{
    let mut m = http::no_headers();
    proof {
        crate::server::state::lemma_header_names();
        lemma_content_type();
        http::law_header_carries_text(api_key@);
    }
    match http::insert_header(&mut m, API_KEY_HEADER, api_key) {
        Ok(()) => {},
        Err(_) => {
            return Err(HeaderError::InvalidKey);
        },
    }
    match mode {
        Mode::Push => {
            let _ = http::insert_header(&mut m, CONTENT_TYPE_HEADER, OCTET_STREAM);
        },
        Mode::Pull => {},
    }
    assert(http::header_values(m) =~= request_header_values(api_key@, mode));
    Ok(m)
}

/// Makes the header of a request for the file at `path`. That fails if and only if
/// the path holds ASCII control characters other than tabs.
pub fn download_headers(path: &str) -> (r: Result<HeaderMap<HeaderValue>, HeaderError>)
    ensures
        match r {
            Ok(m) => {
                &&& http::sendable_text(path@)
                &&& http::header_values(m) == download_header_values(path@)
            },
            Err(e) => e == HeaderError::InvalidPath && !http::sendable_text(path@),
        },
{
    let mut m = http::no_headers();
    proof {
        crate::server::state::lemma_header_names();
        http::law_header_carries_text(path@);
    }
    match http::insert_header(&mut m, FILE_PATH_HEADER, path) {
        Ok(()) => {
            assert(http::header_values(m) =~= download_header_values(path@));
            Ok(m)
        },
        Err(_) => Err(HeaderError::InvalidPath),
    }
}

/// The message for a reply that is not understood, whose status prints as
/// `status`.
pub fn unexpected_status(status: &str) -> (r: String)
    ensures
        r@ == "Unexpected status code: "@ + status@,
{
    let mut s = "Unexpected status code: ".to_owned();
    s.append(status);
    s
}

/// Whether the reply to a request for work carries a path in its body.
pub fn work_has_body(status: u16) -> (r: bool)
    ensures
        r == (status == 200),
{
    status == 200
}

/// What a reply with `status` and `body` to a request for work says: the path of
/// the next file, or that none is left, or else the message of an error.
pub open spec fn work_taken(status: u16, body: Seq<char>) -> Result<Option<Seq<char>>, Seq<char>> {
    if status == 200 {
        Ok(Some(body))
    } else if status == 204 {
        Ok(None)
    } else {
        Err("Unexpected status code: "@ + http::status_display(status))
    }
}

/// What a reply with `status` to a transfer says: that it succeeded, or else an
/// error, which is `label` and the text of the reply.
pub open spec fn transfer_told(label: Seq<char>, status: u16, error_text: Seq<char>) -> Result<
    (),
    Seq<char>,
> {
    if 200 <= status < 300 {
        Ok(())
    } else {
        Err(label + error_text)
    }
}

/// What the client takes from the reply to a request for work: the path in the
/// body, or that nothing is left, or that the reply is not understood.
pub fn take_work(status: u16, body: String) -> (r: Result<Option<String>, String>)
    requires
        http::status_code(status),
    ensures
        match r {
            Ok(Some(path)) => work_taken(status, body@) == Ok::<Option<Seq<char>>, Seq<char>>(
                Some(path@),
            ),
            Ok(None) => work_taken(status, body@) == Ok::<Option<Seq<char>>, Seq<char>>(None),
            Err(m) => {
                &&& work_taken(status, body@) == Err::<Option<Seq<char>>, Seq<char>>(m@)
                &&& ("Unexpected status code: "@ + crate::text::decimal(status as nat)
                    + " "@).is_prefix_of(m@)
            },
        },
{
    if status == 200 {
        Ok(Some(body))
    } else if status == 204 {
        Ok(None)
    } else {
        let shown = http::status_text(status);
        let message = unexpected_status(shown.as_str());
        proof {
            let label = "Unexpected status code: "@;
            let number = crate::text::decimal(status as nat) + " "@;
            assert(shown@.subrange(0, number.len() as int) == number);
            assert((label + shown@).subrange(0, (label + number).len() as int) =~= label + number);
            assert(label + crate::text::decimal(status as nat) + " "@ =~= label + number);
        }
        Err(message)
    }
}

/// Whether a transfer was answered with a success.
pub fn transfer_succeeded(status: u16) -> (r: bool)
    requires
        http::status_code(status),
    ensures
        r == (200 <= status < 300),
{
    http::is_success(status)
}

/// What comes of an upload that was answered with `status`; `error_text` is the
/// body of a reply that is no success.
pub fn upload_result(status: u16, error_text: &str) -> (r: Result<(), String>)
    requires
        http::status_code(status),
    ensures
        match r {
            Ok(()) => 200 <= status <= 299 && transfer_told(
                "Upload failed: "@,
                status,
                error_text@,
            ) is Ok,
            Err(m) => {
                &&& m@ == "Upload failed: "@ + error_text@
                &&& transfer_told("Upload failed: "@, status, error_text@) == Err::<(), Seq<char>>(
                    m@,
                )
            },
        },
{
    if http::is_success(status) {
        Ok(())
    } else {
        let mut s = "Upload failed: ".to_owned();
        s.append(error_text);
        Err(s)
    }
}

/// Whether a download that was answered with `status` goes on; `error_text` is the
/// body of a reply that is no success.
pub fn download_result(status: u16, error_text: &str) -> (r: Result<(), String>)
    requires
        http::status_code(status),
    ensures
        match r {
            Ok(()) => 200 <= status <= 299 && transfer_told(
                "Download failed: "@,
                status,
                error_text@,
            ) is Ok,
            Err(m) => {
                &&& m@ == "Download failed: "@ + error_text@
                &&& transfer_told("Download failed: "@, status, error_text@) == Err::<(), Seq<char>>(
                    m@,
                )
            },
        },
{
    if http::is_success(status) {
        Ok(())
    } else {
        let mut s = "Download failed: ".to_owned();
        s.append(error_text);
        Err(s)
    }
}

/// The message for an upload of a file that is not there; `source` is the path as
/// it is shown to the user.
pub fn source_missing(source: &str) -> (r: String)
    ensures
        r@ == "Source file not found: "@ + source@,
{
    let mut s = "Source file not found: ".to_owned();
    s.append(source);
    s
}

/// A reply to a transfer is told as a success if and only if its code is from 200 to
/// 299. Any other is an error, which ends in the text of the reply and begins with what
/// was asked for.
pub proof fn law_transfer_is_told(label: Seq<char>, status: u16, text: Seq<char>)
    ensures
        transfer_told(label, status, text) is Ok <==> status >= 200 && status <= 299,
        status < 200 || status > 299 ==> transfer_told(label, status, text) == Err::<
            (),
            Seq<char>,
        >(label + text),
{
}

/// Each refusal of a transfer by the server is an error with the text of the reply, and
/// each of its successes is none.
pub proof fn law_each_refusal_is_told(label: Seq<char>, text: Seq<char>)
    ensures
        transfer_told(label, 400, text) == Err::<(), Seq<char>>(label + text),
        transfer_told(label, 401, text) == Err::<(), Seq<char>>(label + text),
        transfer_told(label, 404, text) == Err::<(), Seq<char>>(label + text),
        transfer_told(label, 500, text) == Err::<(), Seq<char>>(label + text),
        transfer_told(label, 503, text) == Err::<(), Seq<char>>(label + text),
        transfer_told(label, 200, text) == Ok::<(), Seq<char>>(()),
        transfer_told(label, 201, text) == Ok::<(), Seq<char>>(()),
{
}

/// A reply to a request for work hands out its body if and only if its code is 200, and
/// says that nothing is left if and only if it is 204. Any other is an error that names
/// the code.
pub proof fn law_work_is_taken(status: u16, body: Seq<char>)
    ensures
        work_taken(status, body) matches Ok(Some(path)) ==> status == 200 && path == body,
        work_taken(status, body) matches Ok(None) ==> status == 204,
        work_taken(status, body) is Err <==> status != 200 && status != 204,
        work_taken(status, body) matches Err(m) ==> m == "Unexpected status code: "@
            + http::status_display(status),
{
}

/// A request presents the whole key under the name of the key, and for a push says that
/// bytes are sent. It has no other header. A request for a file has the whole path under
/// the name of the path and no other header.
pub proof fn law_request_header_values(key: Seq<char>, mode: Mode, path: Seq<char>, name: Seq<char>)
    ensures
        ({
            let sent = request_header_values(key, mode);
            &&& sent.dom().contains(name) <==> {
                ||| name == http::lower("X-API-Key"@)
                ||| name == http::lower("Content-Type"@) && mode == Mode::Push
            }
            &&& sent[http::lower("X-API-Key"@)] == seq![vstd::utf8::encode_utf8(key)]
            &&& mode == Mode::Push ==> sent[http::lower("Content-Type"@)] == seq![
                vstd::utf8::encode_utf8("application/octet-stream"@),
            ]
        }),
        download_header_values(path).dom().contains(name) <==> name == http::lower("X-File-Path"@),
        download_header_values(path)[http::lower("X-File-Path"@)] == seq![
            vstd::utf8::encode_utf8(path),
        ],
{
    reveal_strlit("X-API-Key");
    reveal_strlit("Content-Type");
    assert(http::lower("X-API-Key"@).len() == 9);
    assert(http::lower("Content-Type"@).len() == 12);
}

} // verus!
