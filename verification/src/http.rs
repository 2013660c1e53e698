//! What the tool has from HTTP: header maps, header values and status codes.

use axum::http::header::InvalidHeaderValue;
use axum::http::{HeaderMap, HeaderValue, StatusCode};
use vstd::prelude::*;
use vstd::string::*;

verus! {

/// `axum::http::HeaderMap`, a multimap from header names to values.
#[verifier::external_type_specification]
#[verifier::external_body]
#[verifier::reject_recursive_types(T)]
pub struct ExHeaderMap<T>(HeaderMap<T>);

/// `axum::http::HeaderValue`, the bytes of one header value.
#[verifier::external_type_specification]
#[verifier::external_body]
pub struct ExHeaderValue(HeaderValue);

/// `axum::http::header::InvalidHeaderValue`, the error for text that cannot be
/// a header value.
#[verifier::external_type_specification]
#[verifier::external_body]
pub struct ExInvalidHeaderValue(InvalidHeaderValue);

/// What a header map holds: for each header name in lower case its values, in
/// the order in which they came.
pub uninterp spec fn header_values(m: HeaderMap<HeaderValue>) -> Map<Seq<char>, Seq<Seq<u8>>>;

/// What the status code `code` prints as: the number and its reason phrase.
pub uninterp spec fn status_display(code: u16) -> Seq<char>;

/// `c`, in lower case if it is an ASCII capital.
pub open spec fn lower_char(c: char) -> char {
    if 'A' <= c <= 'Z' {
        (c as u32 + 32) as char
    } else {
        c
    }
}

/// `s` with the ASCII capitals in lower case.
pub open spec fn lower(s: Seq<char>) -> Seq<char> {
    Seq::new(s.len(), |i: int| lower_char(s[i]))
}

/// Whether `s` is a header name of ordinary form: up to 64 ASCII letters,
/// digits and hyphens.
pub open spec fn header_name(s: Seq<char>) -> bool {
    &&& 0 < s.len() <= 64
    &&& forall|i: int|
        0 <= i < s.len() ==> {
            ||| 'a' <= #[trigger] s[i] <= 'z'
            ||| 'A' <= s[i] <= 'Z'
            ||| '0' <= s[i] <= '9'
            ||| s[i] == '-'
        }
}

/// Whether `b` may stand in a header value.
pub open spec fn header_byte(b: u8) -> bool {
    b >= 32 && b != 127 || b == 9
}

/// Whether `v` can be sent as a header value.
pub open spec fn header_value(v: Seq<u8>) -> bool {
    forall|i: int| 0 <= i < v.len() ==> header_byte(#[trigger] v[i])
}

/// Whether `b` is a visible ASCII character, a space or a tab.
pub open spec fn visible_byte(b: u8) -> bool {
    32 <= b < 127 || b == 9
}

/// Whether `v` reads as text: nothing but visible ASCII characters, spaces and
/// tabs.
pub open spec fn visible(v: Seq<u8>) -> bool {
    forall|i: int| 0 <= i < v.len() ==> visible_byte(#[trigger] v[i])
}

/// The ASCII characters that the bytes `v` stand for.
pub open spec fn ascii_text(v: Seq<u8>) -> Seq<char> {
    Seq::new(v.len(), |i: int| v[i] as char)
}

/// Whether `code` is a status code that HTTP knows the form of.
pub open spec fn status_code(code: u16) -> bool {
    100 <= code <= 999
}

/// `HeaderMap::new` makes a map that holds no header.
#[verifier::external_body]
pub(crate) fn no_headers() -> (r: HeaderMap<HeaderValue>)
    ensures
        (header_values(r) == Map::<Seq<char>, Seq<Seq<u8>>>::empty()),
{
    HeaderMap::new()
}

/// `HeaderMap::insert`, with the value parsed as a `HeaderValue`. The parse
/// succeeds exactly on values whose bytes are all allowed in a header. The value
/// then replaces all that the map held under that name, whose letter case does
/// not matter. On an error the map is untouched.
#[verifier::external_body]
pub(crate) fn insert_header(
    m: &mut HeaderMap<HeaderValue>,
    name: &'static str,
    value: &str,
) -> (r: Result<(), InvalidHeaderValue>)
    requires
        header_name(name@),
        header_values(*old(m)).dom().finite(),
        header_values(*old(m)).dom().len() < 100,
    ensures
        r is Ok <==> header_value(vstd::utf8::encode_utf8(value@)),
        r is Ok ==> header_values(*final(m)) == header_values(*old(m)).insert(
            lower(name@),
            seq![vstd::utf8::encode_utf8(value@)],
        ),
        r is Err ==> header_values(*final(m)) == header_values(*old(m)),
{
    let value: HeaderValue = value.parse()?;
    m.insert(name, value);
    Ok(())
}

/// `HeaderMap::get` finds the first value under a name, whatever the letter case
/// of the name, and nothing if the map holds none. The value is handed out as its
/// bytes.
#[verifier::external_body]
pub(crate) fn first_header(m: &HeaderMap<HeaderValue>, name: &str) -> (r: Option<Vec<u8>>)
    requires
        header_name(name@),
    ensures
        match r {
            Some(v) => {
                &&& header_values(*m).dom().contains(lower(name@))
                &&& header_values(*m)[lower(name@)].len() > 0
                &&& v@ == header_values(*m)[lower(name@)][0]
            },
            None => !header_values(*m).dom().contains(lower(name@)),
        },
{
    m.get(name).map(|v| v.as_bytes().to_vec())
}

/// `HeaderValue::to_str` on the value with the bytes `raw` gives their text
/// exactly if all of them are visible ASCII characters, spaces or tabs.
#[verifier::external_body]
pub(crate) fn header_text(raw: &[u8]) -> (r: Option<String>)
    ensures
        r is Some <==> visible(raw@),
        r matches Some(s) ==> s@ == ascii_text(raw@),
{
    let value = HeaderValue::from_bytes(raw).ok()?;
    let text = value.to_str().ok()?;
    Some(text.to_string())
}

/// `StatusCode::is_success` holds exactly of the codes from 200 to 299.
#[verifier::external_body]
pub(crate) fn is_success(code: u16) -> (r: bool)
    requires
        status_code(code),
    ensures
        r == (200 <= code < 300),
{
    StatusCode::from_u16(code).unwrap().is_success()
}

/// What `StatusCode` prints for `code` with its `Display`: the number, a space and
/// the reason phrase.
#[verifier::external_body]
pub(crate) fn status_text(code: u16) -> (r: String)
    requires
        status_code(code),
    ensures
        r@ == status_display(code),
        (crate::text::decimal(code as nat) + " "@).is_prefix_of(r@),
{
    StatusCode::from_u16(code).unwrap().to_string()
}

/// What a request says under one header name.
#[derive(Debug)]
pub enum HeaderField {
    /// The request has no such header.
    Absent,
    /// The first value under the name does not read as text.
    NotText,
    /// The text of the first value under the name.
    Text(String),
}

impl HeaderField {
    /// The text of the field, if it has one.
    pub open spec fn text(self) -> Option<Seq<char>> {
        match self {
            HeaderField::Text(s) => Some(s@),
            _ => None,
        }
    }
}

/// Whether the map holds a header under `name`.
pub open spec fn has_header(m: HeaderMap<HeaderValue>, name: Seq<char>) -> bool {
    header_values(m).dom().contains(lower(name))
}

/// The bytes of the first value under `name`.
pub open spec fn first_value(m: HeaderMap<HeaderValue>, name: Seq<char>) -> Seq<u8> {
    header_values(m)[lower(name)][0]
}

/// The text of the first value under `name`, if there is one and it reads as text.
pub open spec fn header_field_text(m: HeaderMap<HeaderValue>, name: Seq<char>) -> Option<
    Seq<char>,
> {
    if has_header(m, name) && visible(first_value(m, name)) {
        Some(ascii_text(first_value(m, name)))
    } else {
        None
    }
}

/// Whether the first value under `name` is `text`. The map may hold any other headers.
pub open spec fn carries(m: HeaderMap<HeaderValue>, name: Seq<char>, text: Seq<char>) -> bool {
    has_header(m, name) && first_value(m, name) == vstd::utf8::encode_utf8(text)
}

/// What the map says under `name`.
pub fn read_header(m: &HeaderMap<HeaderValue>, name: &str) -> (r: HeaderField)
    requires
        header_name(name@),
    ensures
        r is Absent <==> !has_header(*m, name@),
        r is NotText <==> has_header(*m, name@) && !visible(first_value(*m, name@)),
        r.text() == header_field_text(*m, name@),
{
    match first_header(m, name) {
        Some(raw) => match header_text(raw.as_slice()) {
            Some(s) => HeaderField::Text(s),
            None => HeaderField::NotText,
        },
        None => HeaderField::Absent,
    }
}

/// Whether `c` is a visible ASCII character, a space or a tab.
pub open spec fn visible_char(c: char) -> bool {
    ' ' <= c <= '~' || c == '\t'
}

/// Whether `s` is nothing but visible ASCII characters, spaces and tabs.
pub open spec fn visible_text(s: Seq<char>) -> bool {
    forall|i: int| 0 <= i < s.len() ==> visible_char(#[trigger] s[i])
}

/// Whether `c` is a tab or no ASCII control character.
pub open spec fn sendable_char(c: char) -> bool {
    ' ' <= c && c != '\u{7f}' || c == '\t'
}

/// Whether `s` holds no ASCII control character but tabs.
pub open spec fn sendable_text(s: Seq<char>) -> bool {
    forall|i: int| 0 <= i < s.len() ==> sendable_char(#[trigger] s[i])
}

proof fn lemma_high_bytes(u: u32)
    ensures
        vstd::utf8::leading_byte_width_2(u) >= 0x80,
        vstd::utf8::leading_byte_width_3(u) >= 0x80,
        vstd::utf8::leading_byte_width_4(u) >= 0x80,
        vstd::utf8::last_continuation_byte(u) >= 0x80,
        vstd::utf8::second_last_continuation_byte(u) >= 0x80,
        vstd::utf8::third_last_continuation_byte(u) >= 0x80,
{
    assert(forall|x: u8| #[trigger] (0xC0 | x) >= 0x80) by (bit_vector);
    assert(forall|x: u8| #[trigger] (0xE0 | x) >= 0x80) by (bit_vector);
    assert(forall|x: u8| #[trigger] (0xF0 | x) >= 0x80) by (bit_vector);
    assert(forall|x: u8| #[trigger] (0x80 | x) >= 0x80) by (bit_vector);
}

/// An ASCII character is encoded as itself, any other in bytes beyond ASCII.
proof fn lemma_encode_char(c: char)
    ensures
        (c as u32) < 0x80 ==> {
            &&& vstd::utf8::encode_scalar(c as u32) == seq![c as u8]
            &&& header_byte(c as u8) == sendable_char(c)
            &&& visible_byte(c as u8) == visible_char(c)
            &&& (c as u8) as char == c
        },
        (c as u32) >= 0x80 ==> {
            let bytes = vstd::utf8::encode_scalar(c as u32);
            &&& sendable_char(c) && !visible_char(c)
            &&& bytes.len() > 0
            &&& forall|i: int| 0 <= i < bytes.len() ==> #[trigger] bytes[i] >= 0x80
        },
{
    let u = c as u32;
    if u < 0x80 {
        assert(u as u8 == (u & 0x7f) as u8) by (bit_vector)
            requires
                u < 0x80,
        ;
    } else {
        lemma_high_bytes(u);
    }
}

/// Text can be sent as a header value exactly if it holds no ASCII control character
/// but tabs. It reads as text at the other end, and then as the same text, exactly if
/// it is visible ASCII characters, spaces and tabs.
pub proof fn law_header_carries_text(s: Seq<char>)
    ensures
        header_value(vstd::utf8::encode_utf8(s)) <==> sendable_text(s),
        visible(vstd::utf8::encode_utf8(s)) <==> visible_text(s),
        visible_text(s) ==> ascii_text(vstd::utf8::encode_utf8(s)) == s,
    decreases s.len(),
{
    let v = vstd::utf8::encode_utf8(s);
    if s.len() == 0 {
        assert(ascii_text(v) =~= s);
    } else {
        let c = s[0];
        let head = vstd::utf8::encode_scalar(c as u32);
        let rest = s.drop_first();
        let tail = vstd::utf8::encode_utf8(rest);
        lemma_encode_char(c);
        law_header_carries_text(rest);
        assert(v == head + tail);
        assert(forall|i: int| 0 <= i < head.len() ==> v[i] == head[i]);
        assert(forall|i: int| 0 <= i < tail.len() ==> #[trigger] tail[i] == v[head.len() + i]);
        assert(forall|i: int| 0 <= i < rest.len() ==> #[trigger] rest[i] == s[i + 1]);
        assert(header_value(v) <==> header_value(head) && header_value(tail)) by {
            if header_value(head) && header_value(tail) {
                assert forall|i: int| 0 <= i < v.len() implies header_byte(#[trigger] v[i]) by {
                    if i >= head.len() {
                        assert(v[i] == tail[i - head.len()]);
                    } else {
                        assert(v[i] == head[i]);
                    }
                }
            }
            if header_value(v) {
                assert forall|i: int| 0 <= i < head.len() implies header_byte(
                    #[trigger] head[i],
                ) by {
                    assert(header_byte(v[i]));
                }
            }
        }
        assert(visible(v) <==> visible(head) && visible(tail)) by {
            if visible(head) && visible(tail) {
                assert forall|i: int| 0 <= i < v.len() implies visible_byte(#[trigger] v[i]) by {
                    if i >= head.len() {
                        assert(v[i] == tail[i - head.len()]);
                    } else {
                        assert(v[i] == head[i]);
                    }
                }
            }
            if visible(v) {
                assert forall|i: int| 0 <= i < head.len() implies visible_byte(
                    #[trigger] head[i],
                ) by {
                    assert(visible_byte(v[i]));
                }
            }
        }
        assert(sendable_text(s) <==> sendable_char(c) && sendable_text(rest)) by {
            if sendable_char(c) && sendable_text(rest) {
                assert forall|i: int| 0 <= i < s.len() implies sendable_char(#[trigger] s[i]) by {
                    if i > 0 {
                        assert(s[i] == rest[i - 1]);
                    }
                }
            }
        }
        assert(visible_text(s) <==> visible_char(c) && visible_text(rest)) by {
            if visible_char(c) && visible_text(rest) {
                assert forall|i: int| 0 <= i < s.len() implies visible_char(#[trigger] s[i]) by {
                    if i > 0 {
                        assert(s[i] == rest[i - 1]);
                    }
                }
            }
        }
        if (c as u32) < 0x80 {
            assert(head[0] == c as u8);
            assert(header_value(head) <==> header_byte(head[0]));
            assert(visible(head) <==> visible_byte(head[0]));
        } else {
            assert(header_value(head));
            assert(!visible_byte(head[0]));
        }
        if visible_text(s) {
            assert(visible_char(c));
            assert(head =~= seq![c as u8]);
            assert(ascii_text(v) =~= seq![c] + ascii_text(tail));
            assert(seq![c] + rest =~= s);
        }
    }
}

/// The status codes that the server replies with.
#[derive(Clone, Copy, Debug, PartialEq, Eq, Structural)]
pub enum Status {
    Okay,
    Created,
    NoContent,
    BadRequest,
    Unauthorized,
    NotFound,
    InternalServerError,
    ServiceUnavailable,
}

impl Status {
    /// The number of the status.
    pub open spec fn number(self) -> u16 {
        match self {
            Status::Okay => 200,
            Status::Created => 201,
            Status::NoContent => 204,
            Status::BadRequest => 400,
            Status::Unauthorized => 401,
            Status::NotFound => 404,
            Status::InternalServerError => 500,
            Status::ServiceUnavailable => 503,
        }
    }

    /// The number of the status.
    pub fn code(self) -> (r: u16)
        ensures
            r == self.number(),
            status_code(r),
    {
        match self {
            Status::Okay => 200,
            Status::Created => 201,
            Status::NoContent => 204,
            Status::BadRequest => 400,
            Status::Unauthorized => 401,
            Status::NotFound => 404,
            Status::InternalServerError => 500,
            Status::ServiceUnavailable => 503,
        }
    }
}

/// A reply with a text body.
#[derive(Debug)]
pub struct Reply {
    pub status: Status,
    pub body: String,
}

/// Lower case changes the ASCII capitals and nothing else, character by character.
pub proof fn law_lower_case(s: Seq<char>, i: int)
    requires
        0 <= i < s.len(),
    ensures
        lower(s).len() == s.len(),
        'A' <= s[i] <= 'Z' ==> lower(s)[i] as u32 == s[i] as u32 + 32,
        !('A' <= s[i] <= 'Z') ==> lower(s)[i] == s[i],
        lower(lower(s)) == lower(s),
{
    assert(lower(lower(s)) =~= lower(s));
}

/// A text is visible if and only if each character is a tab or from space to tilde, and
/// can be sent if and only if each is a tab or neither below space nor the delete
/// character.
pub proof fn law_visible_and_sendable_characters(s: Seq<char>)
    ensures
        visible_text(s) <==> forall|c: char| s.contains(c) ==> c == '\t' || ' ' <= c <= '~',
        sendable_text(s) <==> forall|c: char|
            s.contains(c) ==> c == '\t' || ' ' <= c && c != '\u{7f}',
{
    assert forall|i: int| 0 <= i < s.len() implies s.contains(#[trigger] s[i]) by {}
    if visible_text(s) {
        assert forall|c: char| #[trigger] s.contains(c) implies visible_char(c) by {
            assert(visible_char(s[s.index_of(c)]));
        }
    }
    if sendable_text(s) {
        assert forall|c: char| #[trigger] s.contains(c) implies sendable_char(c) by {
            assert(sendable_char(s[s.index_of(c)]));
        }
    }
}

/// What a request says under a name is the first value that it holds under the name in
/// lower case, byte for byte, if each byte is a tab or from space to tilde, and else
/// nothing.
pub proof fn law_header_field_is_first_value(m: HeaderMap<HeaderValue>, name: Seq<char>)
    ensures
        ({
            let values = header_values(m)[lower(name)];
            match header_field_text(m, name) {
                Some(t) => {
                    &&& header_values(m).dom().contains(lower(name))
                    &&& t.len() == values[0].len()
                    &&& forall|i: int|
                        0 <= i < t.len() ==> (#[trigger] t[i]) as u32 == values[0][i] as u32 && (
                        t[i] == '\t' || ' ' <= t[i] <= '~')
                },
                None => {
                    ||| !header_values(m).dom().contains(lower(name))
                    ||| exists|i: int|
                        0 <= i < values[0].len() && !(#[trigger] values[0][i] == 9 || 32
                            <= values[0][i] <= 126)
                },
            }
        }),
        has_header(m, name) <==> header_values(m).dom().contains(lower(name)),
        first_value(m, name) == header_values(m)[lower(name)][0],
{
    let v = header_values(m)[lower(name)][0];
    if header_field_text(m, name) is Some {
        let t = header_field_text(m, name)->0;
        assert forall|i: int| 0 <= i < t.len() implies (#[trigger] t[i]) as u32 == v[i] as u32 && (
        t[i] == '\t' || ' ' <= t[i] <= '~') by {
            assert(visible_byte(v[i]));
        }
    } else if has_header(m, name) {
        let i = choose|i: int| 0 <= i < v.len() && !visible_byte(#[trigger] v[i]);
        assert(!(v[i] == 9 || 32 <= v[i] <= 126));
    }
}

/// A field that reads as text has that text, and the others have none.
pub proof fn law_field_text(s: String)
    ensures
        HeaderField::Text(s).text() == Some(s@),
        HeaderField::NotText.text() is None,
        HeaderField::Absent.text() is None,
{
}

/// Each status has the number that HTTP gives it, so that no two share one, and those
/// that the server answers a success with are the ones from 200 to 299.
pub proof fn law_status_numbers(a: Status, b: Status)
    ensures
        Status::Okay.number() == 200,
        Status::Created.number() == 201,
        Status::NoContent.number() == 204,
        Status::BadRequest.number() == 400,
        Status::Unauthorized.number() == 401,
        Status::NotFound.number() == 404,
        Status::InternalServerError.number() == 500,
        Status::ServiceUnavailable.number() == 503,
        a.number() == b.number() ==> a == b,
        status_code(a.number()),
        200 <= a.number() < 300 <==> a == Status::Okay || a == Status::Created || a
            == Status::NoContent,
{
}

/// The status codes are the numbers of three digits.
pub proof fn law_status_codes(code: u16)
    ensures
        status_code(code) <==> crate::text::decimal(code as nat).len() == 3,
{
    reveal_with_fuel(crate::text::decimal, 6);
}

/// A header name of ordinary form is one to sixty-four ASCII letters, digits and hyphens.
pub proof fn law_header_names(s: Seq<char>)
    ensures
        header_name(s) <==> 1 <= s.len() <= 64 && forall|i: int|
            0 <= i < s.len() ==> {
                ||| 'a' <= #[trigger] s[i] <= 'z' || 'A' <= s[i] <= 'Z'
                ||| '0' <= s[i] <= '9' || s[i] == '-'
            },
{
}

/// A map carries a text under a name if and only if the first value that it holds under the
/// name in lower case is the encoded text.
pub proof fn law_carries(m: HeaderMap<HeaderValue>, name: Seq<char>, text: Seq<char>)
    ensures
        carries(m, name, text) <==> header_values(m).dom().contains(lower(name)) && header_values(
            m,
        )[lower(name)][0] == vstd::utf8::encode_utf8(text),
{
}

} // verus!
