//! One exchange between a client, the proxy and its upstream: what is sent where, and
//! how failures are answered. Reading and sending is left to the caller.

use vstd::prelude::*;
use vstd::utf8::encode_utf8;

use crate::buffer;
use crate::buffer::bytes_of;
use crate::headers::{copy_response_headers, headers_of, lines_of, prepare_upstream_headers,
    reply_lines, request_lines, Header};
use crate::json::{json_of_bytes, json_of_text, parses_again, text_of_json};
use crate::reasoning::{asks_for_stream, is_streaming, response_after, transform_non_streaming};

verus! {

/// What can go wrong on the way.
pub enum Failure {
    /// The body of the client's request could not be read.
    RequestBody,
    /// The upstream could not be reached.
    Upstream,
    /// The body of the upstream's reply could not be read.
    ReplyBody,
    /// The reply to the client could not be put together.
    Reply,
}

/// The HTTP status that answers a failure: 400 where the client is at fault, 502 where
/// the upstream is, and 500 where the proxy is.
pub open spec fn failure_status(failure: Failure) -> u16 {
    match failure {
        Failure::RequestBody => 400,
        Failure::Upstream => 502,
        Failure::ReplyBody => 502,
        Failure::Reply => 500,
    }
}

/// The HTTP status that answers a failure.
pub fn refusal(failure: Failure) -> (status: u16)
    ensures
        status == failure_status(failure),
{
    match failure {
        Failure::RequestBody => 400,
        Failure::Upstream => 502,
        Failure::ReplyBody => 502,
        Failure::Reply => 500,
    }
}

/// A request for the upstream. Its method is the client's.
pub struct UpstreamRequest {
    pub uri: String,
    pub headers: Vec<Header>,
    pub body: bytes::Bytes,
    /// The client asked for a stream.
    pub streaming: bool,
}

/// The status and headers of the reply to the client.
pub struct ReplyHead {
    pub status: u16,
    pub headers: Vec<Header>,
}

/// How the reply to the client goes on behind its head.
pub enum Reply {
    /// The upstream's lines are rewritten one by one.
    Stream(ReplyHead),
    /// The upstream's text is rewritten as a whole.
    Text(ReplyHead),
}

impl Reply {
    /// The head of the reply.
    pub open spec fn head(self) -> ReplyHead {
        match self {
            Reply::Stream(head) => head,
            Reply::Text(head) => head,
        }
    }
}

/// A reply with its whole text. `content_length` is sent as the last header.
pub struct TextReply {
    pub head: ReplyHead,
    pub content_length: usize,
    pub body: String,
}

/// The path and query of a request; nothing where it has none.
pub open spec fn path_text(path_and_query: Option<&str>) -> Seq<char> {
    match path_and_query {
        Some(path) => path@,
        None => Seq::empty(),
    }
}

/// A request with this body asks for a stream.
pub open spec fn body_asks_for_stream(body: Seq<u8>) -> bool {
    match json_of_bytes(body) {
        Some(request) => asks_for_stream(request),
        None => false,
    }
}

/// Where the upstream serves a path: its address with the path and query behind it.
pub fn upstream_uri(upstream_url: &str, path_and_query: Option<&str>) -> (uri: String)
    ensures
        uri@ == upstream_url@ + path_text(path_and_query),
{
    let mut uri = upstream_url.to_string();
    match path_and_query {
        Some(path) => {
            uri.append(path);
        },
        None => {
            proof {
                assert(upstream_url@ + Seq::<char>::empty() =~= upstream_url@);
            }
        },
    }
    uri
}

/// The request for the upstream that a client's request calls for: the same path, query
/// and body, and those of its headers that go along.
pub fn forward_request(
    upstream_url: &str,
    path_and_query: Option<&str>,
    headers: &axum::http::HeaderMap,
    body: bytes::Bytes,
) -> (request: UpstreamRequest)
    ensures
        request.uri@ == upstream_url@ + path_text(path_and_query),
        lines_of(request.headers@) == request_lines(headers_of(*headers)),
        request.body == body,
        request.streaming == body_asks_for_stream(bytes_of(body)),
{
    let streaming = is_streaming(buffer::as_slice(&body));
    UpstreamRequest {
        uri: upstream_uri(upstream_url, path_and_query),
        headers: prepare_upstream_headers(headers),
        body,
        streaming,
    }
}

/// The content type of a reply.
pub open spec fn content_type(streaming: bool) -> Seq<char> {
    if streaming {
        "text/event-stream"@
    } else {
        "application/json"@
    }
}

/// The headers of the reply to the client: the upstream's that fit, then the content type.
pub open spec fn reply_head_lines(
    upstream: Seq<(Seq<char>, Seq<u8>)>,
    streaming: bool,
) -> Seq<(Seq<char>, Seq<u8>)> {
    reply_lines(upstream).push(("content-type"@, encode_utf8(content_type(streaming))))
}

/// The reply that the head of the upstream's reply calls for. The upstream's status is
/// the client's; whether a stream follows was settled by the request.
pub fn begin_reply(streaming: bool, status: u16, headers: &axum::http::HeaderMap) -> (reply: Reply)
    ensures
        streaming <==> reply is Stream,
        reply.head().status == status,
        lines_of(reply.head().headers@) == reply_head_lines(headers_of(*headers), streaming),
{
    let mut selected = copy_response_headers(headers);
    let ghost copied = selected@;
    let content_type = if streaming {
        "text/event-stream"
    } else {
        "application/json"
    };
    selected.push(Header { name: "content-type".to_string(), value: content_type.as_bytes_vec() });
    proof {
        assert(lines_of(selected@) =~= reply_head_lines(headers_of(*headers), streaming));
    }
    let head = ReplyHead { status, headers: selected };
    if streaming {
        Reply::Stream(head)
    } else {
        Reply::Text(head)
    }
}

/// The whole reply, once the text of the upstream's reply is there: the text rewritten,
/// and its length in bytes.
pub fn finish_reply(head: ReplyHead, text: &str) -> (reply: TextReply)
    ensures
        reply.head == head,
        reply.content_length == encode_utf8(reply.body@).len(),
        match json_of_text(text@) {
            Some(response) => {
                &&& reply.body@ == text_of_json(response_after(response))
                &&& parses_again(reply.body@, response_after(response))
            },
            None => reply.body@ == text@,
        },
        json_of_text(reply.body@) is Some <==> json_of_text(text@) is Some,
{
    let body = transform_non_streaming(text);
    let content_length = body.as_str().as_bytes().len();
    TextReply { head, content_length, body }
}

} // verus!
