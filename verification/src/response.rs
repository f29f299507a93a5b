//! The streaming responder: what the media server answers to a request.
//!
//! The server itself reads the file system and writes to the socket; what it
//! answers is decided here. It asks [`requested_file`] which file a request
//! is about, looks up the length of that file, and hands request and length
//! to [`media_response`], which returns status, headers and the span of the
//! file to stream. A request that needs no file is answered the same way,
//! with no length.

use vstd::prelude::*;
use hyper::HeaderMap;
use crate::decimal::{decimal_text, lemma_decimal_text_shape, write_u64};
use crate::headers::{
    add_cors_headers, has_cors, header_fields, insert_header, is_cors_name, is_field_value,
    lemma_cors_names_differ, new_headers, with_cors, Fields,
};
use crate::media_type::{content_type_for, content_type_or_default, guessed_media_type};
use crate::range::{
    last_offset, parsed_range, resolve_range, resolved_header, ByteRange, RangeStatus,
    ResolvedRange,
};
use crate::text::{same_text, text_of};
use crate::url::{find_requested_path, requested_path};

verus! {

/// The method of a request, as far as the server tells methods apart.
#[derive(Clone, Copy, Debug, PartialEq, Eq, Structural)]
pub enum Method {
    Get,
    Head,
    Options,
    /// Any other method. It is answered as `GET` is.
    Other,
}

/// What the server reads of a request.
#[derive(Clone, Debug, PartialEq, Eq)]
pub struct MediaRequest {
    pub method: Method,
    /// The path of the request's URI, without the query.
    pub uri_path: String,
    /// The query of the request's URI, without the question mark.
    pub query: Option<String>,
    /// The value of the `Range` header, where the request has one that is text.
    pub range_header: Option<String>,
}

/// The statuses that the server answers with.
#[derive(Clone, Copy, Debug, PartialEq, Eq, Structural)]
pub enum Status {
    /// `200 OK`.
    Success,
    NoContent,
    PartialContent,
    NotFound,
    RangeNotSatisfiable,
}

/// The bytes of the file that make the body of a response: `length` bytes
/// from `offset` on. A `length` of 0 is an empty body.
#[derive(Clone, Copy, Debug, PartialEq, Eq, Structural)]
pub struct BodySpan {
    pub offset: u64,
    pub length: u64,
}

/// A response, before its body is read from the file.
pub struct MediaResponse {
    pub status: Status,
    pub headers: HeaderMap,
    pub body: BodySpan,
}

/// What a response says: its status, its fields by name, and its body.
pub struct ResponseModel {
    pub status: Status,
    pub fields: Fields,
    pub body: BodySpan,
}

impl Status {
    /// The number of the status.
    pub open spec fn spec_code(self) -> u16 {
        match self {
            Status::Success => 200,
            Status::NoContent => 204,
            Status::PartialContent => 206,
            Status::NotFound => 404,
            Status::RangeNotSatisfiable => 416,
        }
    }

    /// The number of the status.
    pub fn code(&self) -> (code: u16)
        ensures
            code == self.spec_code(),
    {
        match self {
            Status::Success => 200,
            Status::NoContent => 204,
            Status::PartialContent => 206,
            Status::NotFound => 404,
            Status::RangeNotSatisfiable => 416,
        }
    }
}

impl BodySpan {
    /// The body without bytes.
    pub open spec fn empty() -> BodySpan {
        BodySpan { offset: 0, length: 0 }
    }

    /// The bytes of `file` that the span covers.
    pub open spec fn bytes_of(self, file: Seq<u8>) -> Seq<u8>
        recommends
            self.offset + self.length <= file.len(),
    {
        file.subrange(self.offset as int, self.offset + self.length)
    }

    /// Copies out of `file` the bytes that the span covers.
    pub fn read_from(&self, file: &Vec<u8>) -> (body: Vec<u8>)
        requires
            self.offset + self.length <= file.len(),
        ensures
            body@ == self.bytes_of(file@),
    {
        let mut body: Vec<u8> = Vec::new();
        let start: usize = self.offset as usize;
        let count: usize = self.length as usize;
        let mut i: usize = 0;
        while i < count
            invariant
                i <= count,
                start + count <= file.len(),
                start == self.offset,
                count == self.length,
                body@ == file@.subrange(start as int, start + i),
            decreases count - i,
        {
            body.push(file[start + i]);
            i += 1;
        }
        body
    }
}

impl View for MediaResponse {
    type V = ResponseModel;

    open spec fn view(&self) -> ResponseModel {
        ResponseModel {
            status: self.status,
            fields: header_fields(self.headers),
            body: self.body,
        }
    }
}

impl MediaRequest {
    /// The query as characters.
    pub open spec fn query_text(&self) -> Option<Seq<char>> {
        text_of(self.query)
    }

    /// The `Range` header as characters.
    pub open spec fn range_text(&self) -> Option<Seq<char>> {
        text_of(self.range_header)
    }

    /// The path of the file that the request is about: `None` for a
    /// preflight, for any URI path but `/audio`, and where the query names
    /// no path that can be decoded.
    pub open spec fn file_path(&self) -> Option<Seq<char>> {
        if self.method == Method::Options || self.uri_path@ != "/audio"@ {
            None
        } else {
            requested_path(self.query_text())
        }
    }
}

/// A response without a body and with no fields but those of CORS.
pub open spec fn plain_model(status: Status) -> ResponseModel {
    ResponseModel { status, fields: with_cors(Fields::empty()), body: BodySpan::empty() }
}

/// The value of `Content-Range` for a span.
pub open spec fn content_range_text(range: ResolvedRange) -> Seq<char> {
    "bytes "@ + decimal_text(range.start as nat) + "-"@ + decimal_text(range.end as nat) + "/"@
        + decimal_text(range.total_length as nat)
}

/// The fields of a response that serves a file: those of CORS, the type,
/// `Accept-Ranges`, and `Content-Range` where only a part is served.
pub open spec fn file_fields(range: ResolvedRange, content_type: Seq<char>) -> Fields {
    let fields = with_cors(Fields::empty()).insert("content-type"@, content_type).insert(
        "accept-ranges"@,
        "bytes"@,
    );
    if range.status == RangeStatus::Partial {
        fields.insert("content-range"@, content_range_text(range))
    } else {
        fields
    }
}

/// The response for a file that is there, once the span is settled.
pub open spec fn file_model(
    head_only: bool,
    range: ResolvedRange,
    content_type: Seq<char>,
) -> ResponseModel {
    match range.status {
        RangeStatus::Unsatisfiable => plain_model(Status::RangeNotSatisfiable),
        _ => ResponseModel {
            status: if range.status == RangeStatus::Partial {
                Status::PartialContent
            } else {
                Status::Success
            },
            fields: file_fields(range, content_type),
            body: if head_only {
                BodySpan::empty()
            } else {
                BodySpan { offset: range.start, length: range.spec_body_len() as u64 }
            },
        },
    }
}

/// The response to `req`, where `file_len` is the length of the file that
/// the request is about, or `None` where there is no such file to read.
pub open spec fn response_model(req: &MediaRequest, file_len: Option<u64>) -> ResponseModel {
    if req.method == Method::Options {
        plain_model(Status::NoContent)
    } else {
        match (req.file_path(), file_len) {
            (Some(path), Some(len)) => file_model(
                req.method == Method::Head,
                resolved_header(req.range_text(), len),
                content_type_or_default(guessed_media_type(path)),
            ),
            _ => plain_model(Status::NotFound),
        }
    }
}

/// Which file a request is about, if any: the file whose length
/// [`media_response`] is to be given.
pub fn requested_file(req: &MediaRequest) -> (path: Option<String>)
    ensures
        text_of(path) == req.file_path(),
{
    match req.method {
        Method::Options => None,
        _ => {
            if !same_text(req.uri_path.as_str(), "/audio") {
                None
            } else {
                match &req.query {
                    Some(q) => find_requested_path(Some(q.as_str())),
                    None => find_requested_path(None),
                }
            }
        },
    }
}

/// A response without a body and with no fields but those of CORS.
pub fn plain_response(status: Status) -> (response: MediaResponse)
    ensures
        response@ == plain_model(status),
{
    let mut headers = new_headers();
    add_cors_headers(&mut headers);
    MediaResponse { status, headers, body: BodySpan { offset: 0, length: 0 } }
}

/// The answer to a preflight.
pub fn preflight() -> (response: MediaResponse)
    ensures
        response@ == plain_model(Status::NoContent),
{
    plain_response(Status::NoContent)
}

/// The answer where there is nothing to serve.
pub fn not_found() -> (response: MediaResponse)
    ensures
        response@ == plain_model(Status::NotFound),
{
    plain_response(Status::NotFound)
}

/// The value of `Content-Range` is made of digits, letters, a space, a
/// hyphen and a slash, all of which may stand in a header.
pub proof fn lemma_content_range_is_field_value(range: ResolvedRange)
    ensures
        is_field_value(content_range_text(range)),
{
    reveal_strlit("bytes ");
    reveal_strlit("-");
    reveal_strlit("/");
    lemma_decimal_text_shape(range.start as nat);
    lemma_decimal_text_shape(range.end as nat);
    lemma_decimal_text_shape(range.total_length as nat);
}

/// Writes the value of `Content-Range` for a span.
pub fn content_range(range: &ResolvedRange) -> (text: String)
    ensures
        text@ == content_range_text(*range),
        is_field_value(text@),
{
    let mut text = String::new();
    text.append("bytes ");
    write_u64(&mut text, range.start);
    text.append("-");
    write_u64(&mut text, range.end);
    text.append("/");
    write_u64(&mut text, range.total_length);
    proof {
        lemma_content_range_is_field_value(*range);
    }
    text
}

/// The response for a file that is there: `range` is the span settled for
/// it, `content_type` its type, and `head_only` says that headers alone were
/// asked for.
pub fn file_response(head_only: bool, range: &ResolvedRange, content_type: &str) -> (response:
    MediaResponse)
    requires
        range.wf(),
        is_field_value(content_type@),
    ensures
        response@ == file_model(head_only, *range, content_type@),
{
    match range.status {
        RangeStatus::Unsatisfiable => plain_response(Status::RangeNotSatisfiable),
        _ => {
            let mut headers = new_headers();
            add_cors_headers(&mut headers);
            proof {
                reveal_strlit("content-type");
                reveal_strlit("accept-ranges");
                reveal_strlit("content-range");
                reveal_strlit("bytes");
            }
            insert_header(&mut headers, "content-type", content_type);
            insert_header(&mut headers, "accept-ranges", "bytes");
            let status = match range.status {
                RangeStatus::Partial => {
                    let value = content_range(range);
                    insert_header(&mut headers, "content-range", value.as_str());
                    Status::PartialContent
                },
                _ => Status::Success,
            };
            let body = if head_only {
                BodySpan { offset: 0, length: 0 }
            } else {
                BodySpan { offset: range.start, length: range.body_len() }
            };
            MediaResponse { status, headers, body }
        },
    }
}

/// Answers `req`. `file_len` is the length of the file that
/// [`requested_file`] names for it, and `None` where it names none or the
/// file can not be read.
pub fn media_response(req: &MediaRequest, file_len: Option<u64>) -> (response: MediaResponse)
    ensures
        response@ == response_model(req, file_len),
{
    match req.method {
        Method::Options => preflight(),
        _ => match (requested_file(req), file_len) {
            (Some(path), Some(len)) => {
                let range = match &req.range_header {
                    Some(text) => resolve_range(Some(text.as_str()), len),
                    None => resolve_range(None, len),
                };
                let content_type = content_type_for(path.as_str());
                let head_only = match req.method {
                    Method::Head => true,
                    _ => false,
                };
                file_response(head_only, &range, content_type.as_str())
            },
            _ => not_found(),
        },
    }
}

/// The names of the fields of a served file differ from one another and
/// from those of CORS.
pub proof fn lemma_file_field_names_differ()
    ensures
        "content-type"@ != "accept-ranges"@,
        "content-type"@ != "content-range"@,
        "accept-ranges"@ != "content-range"@,
        !is_cors_name("content-type"@),
        !is_cors_name("accept-ranges"@),
        !is_cors_name("content-range"@),
{
    reveal_strlit("content-type");
    reveal_strlit("accept-ranges");
    reveal_strlit("content-range");
    reveal_strlit("access-control-allow-origin");
    reveal_strlit("access-control-allow-methods");
    reveal_strlit("access-control-allow-headers");
    reveal_strlit("vary");
    assert("content-range"@.len() == 13);
    assert("accept-ranges"@[0] != "content-range"@[0]);
    assert("vary"@.len() == 4);
    assert("access-control-allow-origin"@.len() == 27);
    assert("access-control-allow-methods"@.len() == 28);
    assert("access-control-allow-headers"@.len() == 28);
}

/// Every response carries the four CORS fields: the answer to a preflight,
/// the answer for a path that is not served, and every other one.
pub proof fn lemma_cors_on_every_response(req: &MediaRequest, file_len: Option<u64>)
    ensures
        has_cors(response_model(req, file_len).fields),
{
    lemma_cors_names_differ();
    lemma_file_field_names_differ();
}

/// A request that is not a preflight and for which there is no file to read
/// is answered with `404`, whatever its method, and without a body.
pub proof fn lemma_missing_file_not_found(req: &MediaRequest, file_len: Option<u64>)
    requires
        req.method != Method::Options,
        req.file_path() is None || file_len is None,
    ensures
        response_model(req, file_len) == plain_model(Status::NotFound),
        response_model(req, file_len).body.length == 0,
{
}

/// A preflight is answered with `204` on any path, without a look at the
/// file.
pub proof fn lemma_preflight_no_content(req: &MediaRequest, file_len: Option<u64>)
    requires
        req.method == Method::Options,
    ensures
        response_model(req, file_len) == plain_model(Status::NoContent),
{
}

/// A request for the bytes `first` to `last` of a file that has them is
/// answered with `206`, with a `Content-Range` that names the two offsets and
/// the length of the file, and with exactly those bytes.
pub proof fn lemma_partial_content(req: &MediaRequest, first: u64, last: u64, file: Seq<u8>)
    requires
        first <= last < file.len() <= u64::MAX,
        req.method != Method::Options,
        req.method != Method::Head,
        req.file_path() is Some,
        req.range_text() is Some,
        parsed_range(req.range_text()->0) == Some(ByteRange { first, last: Some(last) }),
    ensures
        ({
            let response = response_model(req, Some(file.len() as u64));
            &&& response.status == Status::PartialContent
            &&& response.fields.contains_pair(
                "content-range"@,
                "bytes "@ + decimal_text(first as nat) + "-"@ + decimal_text(last as nat) + "/"@
                    + decimal_text(file.len()),
            )
            &&& response.body.length == last - first + 1
            &&& response.body.bytes_of(file) == file.subrange(first as int, last + 1)
        }),
{
}

/// A request without a `Range` header for a file that is there is answered
/// with `200`, with the whole file, and without a `Content-Range`.
pub proof fn lemma_whole_file(req: &MediaRequest, file: Seq<u8>)
    requires
        file.len() <= u64::MAX,
        req.method != Method::Options,
        req.method != Method::Head,
        req.file_path() is Some,
        req.range_header is None,
    ensures
        ({
            let response = response_model(req, Some(file.len() as u64));
            &&& response.status == Status::Success
            &&& response.body.bytes_of(file) == file
            &&& !response.fields.contains_key("content-range"@)
        }),
{
    lemma_file_field_names_differ();
}

/// A request whose first byte lies at or beyond the end of the file, or
/// beyond its last byte once that is cut at the end of the file, is answered
/// with `416` and without a body.
pub proof fn lemma_range_not_satisfiable(req: &MediaRequest, asked: ByteRange, len: u64)
    requires
        req.method != Method::Options,
        req.file_path() is Some,
        req.range_text() is Some,
        parsed_range(req.range_text()->0) == Some(asked),
        asked.first >= len || asked.first > match asked.last {
            Some(last) if last < last_offset(len) => last,
            _ => last_offset(len),
        },
    ensures
        response_model(req, Some(len)) == plain_model(Status::RangeNotSatisfiable),
        response_model(req, Some(len)).body.length == 0,
{
}

/// `HEAD` and `GET` for the same file and the same `Range` are answered
/// with the same status and the same fields; the answer to `HEAD` has no
/// body.
pub proof fn lemma_head_matches_get(head: &MediaRequest, get: &MediaRequest, file_len: Option<u64>)
    requires
        head.method == Method::Head,
        get.method == Method::Get,
        head.uri_path@ == get.uri_path@,
        head.query_text() == get.query_text(),
        head.range_text() == get.range_text(),
    ensures
        response_model(head, file_len).status == response_model(get, file_len).status,
        response_model(head, file_len).fields == response_model(get, file_len).fields,
        response_model(head, file_len).body.length == 0,
{
}

/// The bodies answered to requests for `[0, k]` and for `[k + 1, len - 1]`
/// of one file, put one after the other, are the file.
pub proof fn lemma_split_bodies_make_file(
    low: &MediaRequest,
    high: &MediaRequest,
    file: Seq<u8>,
    k: u64,
)
    requires
        k + 1 < file.len() <= u64::MAX,
        low.method != Method::Options && low.method != Method::Head,
        high.method != Method::Options && high.method != Method::Head,
        low.file_path() is Some,
        high.file_path() is Some,
        low.range_text() is Some,
        high.range_text() is Some,
        parsed_range(low.range_text()->0) == Some(ByteRange { first: 0, last: Some(k) }),
        parsed_range(high.range_text()->0) == Some(
            ByteRange { first: (k + 1) as u64, last: Some((file.len() - 1) as u64) },
        ),
    ensures
        response_model(low, Some(file.len() as u64)).body.bytes_of(file) + response_model(
            high,
            Some(file.len() as u64),
        ).body.bytes_of(file) == file,
{
}

/// For one span and one type, the answer that carries headers alone has the
/// status and the fields of the answer that carries the body.
pub proof fn lemma_head_of_span(range: ResolvedRange, content_type: Seq<char>)
    ensures
        file_model(true, range, content_type).status == file_model(
            false,
            range,
            content_type,
        ).status,
        file_model(true, range, content_type).fields == file_model(
            false,
            range,
            content_type,
        ).fields,
        file_model(true, range, content_type).body.length == 0,
{
}

} // verus!
