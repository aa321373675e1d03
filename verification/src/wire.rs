//! HTTP exchanges as plain values: the requests that the client wants sent
//! and the replies that it is handed back.

use vstd::prelude::*;
use vstd::utf8::{encode_scalar, encode_utf8};

verus! {

/// How many seconds an exchange may take before it counts as failed, unless
/// the caller sets another limit.
pub const DEFAULT_TIMEOUT_SECONDS: u64 = 30;

/// The request methods that the client uses.
#[derive(Debug, Clone, Copy, PartialEq, Eq)]
pub enum Method {
    Get,
    Post,
}

/// One header line of a request.
#[derive(Debug, Clone, PartialEq, Eq)]
pub struct Header {
    pub name: String,
    pub value: String,
}

impl View for Header {
    type V = (Seq<char>, Seq<char>);

    open spec fn view(&self) -> (Seq<char>, Seq<char>) {
        (self.name@, self.value@)
    }
}

/// A request that the client wants sent.
#[derive(Debug, Clone, PartialEq, Eq)]
pub struct Request {
    pub method: Method,
    pub url: String,
    pub headers: Vec<Header>,
    pub body: Option<String>,
}

/// The mathematical value of a [`Request`].
pub struct RequestView {
    pub method: Method,
    pub url: Seq<char>,
    pub headers: Seq<(Seq<char>, Seq<char>)>,
    pub body: Option<Seq<char>>,
}

impl View for Request {
    type V = RequestView;

    open spec fn view(&self) -> RequestView {
        RequestView {
            method: self.method,
            url: self.url@,
            headers: header_views(self.headers@),
            body: match self.body {
                Some(text) => Some(text@),
                None => None,
            },
        }
    }
}

/// What came back for a request: a response with its status and body, or
/// nothing but the cause for which none arrived.
#[derive(Debug, Clone, PartialEq, Eq)]
pub enum Reply {
    Response { status: u16, body: Vec<u8> },
    NoResponse { cause: String },
}

/// The mathematical value of a [`Reply`].
pub enum ReplyView {
    Response { status: u16, body: Seq<u8> },
    NoResponse { cause: Seq<char> },
}

impl View for Reply {
    type V = ReplyView;

    open spec fn view(&self) -> ReplyView {
        match self {
            Reply::Response { status, body } => ReplyView::Response { status: *status, body: body@ },
            Reply::NoResponse { cause } => ReplyView::NoResponse { cause: cause@ },
        }
    }
}

/// A status in 200..=299.
pub open spec fn success(status: u16) -> bool {
    200 <= status < 300
}

/// Tells whether a status reports success.
pub fn is_success(status: u16) -> (ok: bool)
    ensures
        ok == success(status),
{
    200 <= status && status < 300
}

/// A byte that a header value may hold: a tab, or anything from the space on
/// but for DEL.
pub open spec fn header_byte(b: u8) -> bool {
    (b >= 32 && b != 127) || b == 9
}

/// A byte string that a header value may be.
pub open spec fn header_bytes(bytes: Seq<u8>) -> bool {
    forall|i: int| 0 <= i < bytes.len() ==> header_byte(#[trigger] bytes[i])
}

/// A character that a header value may hold: a tab, or anything from the
/// space on but for DEL.
pub open spec fn header_char(c: char) -> bool {
    (c as u32 >= 32 && c as u32 != 127) || c as u32 == 9
}

/// A text that a header value may be.
pub open spec fn header_text(text: Seq<char>) -> bool {
    forall|i: int| 0 <= i < text.len() ==> header_char(#[trigger] text[i])
}

/// A request whose header values are all texts that a header value may be.
pub open spec fn admitted(request: RequestView) -> bool {
    forall|i: int| 0 <= i < request.headers.len() ==> header_text((#[trigger] request.headers[i]).1)
}

/// The views of the headers in `headers`, in order.
pub open spec fn header_views(headers: Seq<Header>) -> Seq<(Seq<char>, Seq<char>)> {
    Seq::new(headers.len(), |i: int| headers[i]@)
}

/// Calls `HeaderValue::from_str`, which scans the bytes of the text and
/// refuses it at the first byte that is neither a tab nor at least 32 and
/// other than 127.
#[verifier::external_body]
fn header_value_accepts(value: &str) -> (ok: bool)
    ensures
        ok == header_bytes(encode_utf8(value@)),
{
    reqwest::header::HeaderValue::from_str(value).is_ok()
}

proof fn lemma_one_byte(c: u32)
    by (bit_vector)
    requires
        c <= 0x7F,
    ensures
        (c & 0x7F) as u8 == c,
{
}

proof fn lemma_high_bytes(c: u32)
    by (bit_vector)
    ensures
        (0xC0 | ((c >> 6) & 0x1F) as u8) >= 0x80u8,
        (0xE0 | ((c >> 12) & 0x0F) as u8) >= 0x80u8,
        (0xF0 | ((c >> 18) & 0x7) as u8) >= 0x80u8,
        (0x80 | (c & 0x3F) as u8) >= 0x80u8,
        (0x80 | ((c >> 6) & 0x3F) as u8) >= 0x80u8,
        (0x80 | ((c >> 12) & 0x3F) as u8) >= 0x80u8,
{
}

/// The bytes that encode one character are all admitted exactly if the
/// character is: a character below 128 is its own single byte, and every
/// byte of a longer encoding is at least 128.
pub proof fn lemma_header_scalar(c: char)
    ensures
        header_bytes(encode_scalar(c as u32)) == header_char(c),
{
    let v = c as u32;
    lemma_high_bytes(v);
    if v <= 0x7F {
        lemma_one_byte(v);
        if !header_char(c) {
            assert(!header_byte(encode_scalar(v)[0]));
        }
    }
}

/// The UTF-8 encoding of a text is an admitted byte string exactly if every
/// character of the text is admitted.
pub proof fn lemma_header_encoding(text: Seq<char>)
    ensures
        header_bytes(encode_utf8(text)) == header_text(text),
    decreases text.len(),
{
    if text.len() > 0 {
        let head = encode_scalar(text[0] as u32);
        let tail = encode_utf8(text.drop_first());
        lemma_header_scalar(text[0]);
        lemma_header_encoding(text.drop_first());
        if header_text(text) {
            assert(header_text(text.drop_first()));
            assert(header_bytes(head + tail));
        }
        if header_bytes(head + tail) {
            assert forall|i: int| 0 <= i < head.len() implies header_byte(#[trigger] head[i]) by {
                assert(head[i] == (head + tail)[i]);
            }
            assert forall|i: int| 0 <= i < tail.len() implies header_byte(#[trigger] tail[i]) by {
                assert(tail[i] == (head + tail)[i + head.len()]);
            }
            assert forall|i: int| 0 <= i < text.len() implies header_char(#[trigger] text[i]) by {
                if i > 0 {
                    assert(text[i] == text.drop_first()[i - 1]);
                }
            }
        }
    }
}

/// Tells whether a text may be a header value.
pub fn is_header_value(value: &str) -> (ok: bool)
    ensures
        ok == header_text(value@),
{
    proof {
        lemma_header_encoding(value@);
    }
    header_value_accepts(value)
}

} // verus!
