use axum::http::{HeaderMap, HeaderValue};
use llm_reasoning_proxy::exchange::{
    begin_reply, finish_reply, forward_request, refusal, upstream_uri, Failure, Reply, ReplyHead,
};

fn upstream_headers() -> HeaderMap {
    let mut headers = HeaderMap::new();
    headers.insert("content-type", HeaderValue::from_static("application/json"));
    headers.insert("content-length", HeaderValue::from_static("99"));
    headers.insert("x-custom-upstream", HeaderValue::from_static("valid"));
    headers
}

fn plain(head: &ReplyHead) -> Vec<(&str, &[u8])> {
    head.headers.iter().map(|h| (h.name.as_str(), h.value.as_slice())).collect()
}

#[test]
fn failures_have_their_status() {
    assert_eq!(refusal(Failure::RequestBody), 400);
    assert_eq!(refusal(Failure::Upstream), 502);
    assert_eq!(refusal(Failure::ReplyBody), 502);
    assert_eq!(refusal(Failure::Reply), 500);
}

#[test]
fn the_path_goes_behind_the_address() {
    let address = "http://127.0.0.1:5000";
    assert_eq!(
        upstream_uri(address, Some("/v1/models?limit=2")),
        "http://127.0.0.1:5000/v1/models?limit=2"
    );
    assert_eq!(upstream_uri(address, None), address);
}

#[test]
fn a_request_is_forwarded() {
    let mut headers = HeaderMap::new();
    headers.insert("host", HeaderValue::from_static("localhost"));
    headers.insert("accept", HeaderValue::from_static("*/*"));
    let body = bytes::Bytes::from_static(br#"{"stream": true, "model": "m"}"#);
    let request = forward_request(
        "http://127.0.0.1:5000",
        Some("/v1/chat/completions"),
        &headers,
        body.clone(),
    );
    assert_eq!(request.uri, "http://127.0.0.1:5000/v1/chat/completions");
    assert_eq!(request.headers.len(), 1);
    assert_eq!(request.headers[0].name, "accept");
    assert_eq!(request.body, body);
    assert!(request.streaming);

    let other = forward_request("u", None, &HeaderMap::new(), bytes::Bytes::new());
    assert_eq!(other.uri, "u");
    assert!(!other.streaming);
}

#[test]
fn a_stream_is_announced() {
    match begin_reply(true, 200, &upstream_headers()) {
        Reply::Stream(head) => {
            assert_eq!(head.status, 200);
            assert_eq!(
                plain(&head),
                vec![
                    ("content-type", &b"application/json"[..]),
                    ("x-custom-upstream", &b"valid"[..]),
                    ("content-type", &b"text/event-stream"[..]),
                ]
            );
        }
        Reply::Text(_) => panic!("a stream was asked for"),
    }
}

#[test]
fn a_text_is_rewritten_and_measured() {
    let head = match begin_reply(false, 200, &HeaderMap::new()) {
        Reply::Text(head) => head,
        Reply::Stream(_) => panic!("no stream was asked for"),
    };
    assert_eq!(plain(&head), vec![("content-type", &b"application/json"[..])]);
    let reply = finish_reply(
        head,
        r#"{"choices": [{"message": {"content": "Final Answer", "reasoning_content": "Hidden Thought"}}]}"#,
    );
    let body: serde_json::Value = serde_json::from_str(&reply.body).unwrap();
    assert_eq!(
        body["choices"][0]["message"]["content"].as_str().unwrap(),
        "<think>Hidden Thought</think>Final Answer"
    );
    assert_eq!(reply.content_length, reply.body.len());
    assert_eq!(reply.head.status, 200);
}

#[test]
fn the_length_is_counted_in_bytes() {
    let head = ReplyHead { status: 200, headers: Vec::new() };
    let reply = finish_reply(head, "\u{20ac}");
    assert_eq!(reply.body, "\u{20ac}");
    assert_eq!(reply.content_length, 3);
}

#[test]
fn a_plain_text_answer_passes() {
    let head = ReplyHead { status: 200, headers: Vec::new() };
    let reply = finish_reply(head, r#"{"choices": [{"message": {"content": "Just Answer"}}]}"#);
    let body: serde_json::Value = serde_json::from_str(&reply.body).unwrap();
    assert_eq!(body["choices"][0]["message"]["content"].as_str().unwrap(), "Just Answer");
}

#[test]
fn the_status_of_the_upstream_is_kept() {
    let head = match begin_reply(false, 500, &HeaderMap::new()) {
        Reply::Text(head) => head,
        Reply::Stream(_) => panic!("no stream was asked for"),
    };
    let reply = finish_reply(head, "Mock Error");
    assert_eq!(reply.head.status, 500);
    assert_eq!(reply.body, "Mock Error");

    match begin_reply(true, 404, &HeaderMap::new()) {
        Reply::Stream(head) => assert_eq!(head.status, 404),
        Reply::Text(_) => panic!("a stream was asked for"),
    }
}
