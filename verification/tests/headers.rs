use axum::http::{HeaderMap, HeaderName, HeaderValue};
use llm_reasoning_proxy::headers::{
    copy_response_headers, forwards_to_client, forwards_to_upstream, prepare_upstream_headers,
    select_for_client, select_for_upstream, Header,
};

fn map(lines: &[(&str, &str)]) -> HeaderMap {
    let mut headers = HeaderMap::new();
    for (name, value) in lines {
        headers.append(
            HeaderName::from_bytes(name.as_bytes()).unwrap(),
            HeaderValue::from_str(value).unwrap(),
        );
    }
    headers
}

fn row(lines: &[(&str, &str)]) -> Vec<Header> {
    lines
        .iter()
        .map(|(name, value)| Header { name: name.to_string(), value: value.as_bytes().to_vec() })
        .collect()
}

fn plain(headers: &[Header]) -> Vec<(String, String)> {
    headers
        .iter()
        .map(|h| (h.name.clone(), String::from_utf8(h.value.clone()).unwrap()))
        .collect()
}

fn lines(pairs: &[(&str, &str)]) -> Vec<(String, String)> {
    pairs.iter().map(|(n, v)| (n.to_string(), v.to_string())).collect()
}

#[test]
fn names_that_go_to_the_upstream() {
    for name in ["authorization", "content-type", "user-agent", "accept", "x-", "x-request-id"] {
        assert!(forwards_to_upstream(name), "{}", name);
    }
    for name in ["host", "content-length", "connection", "cookie", "accept-encoding", "x", "", "ax-b"]
    {
        assert!(!forwards_to_upstream(name), "{}", name);
    }
}

#[test]
fn names_that_go_to_the_client() {
    for name in ["transfer-encoding", "content-encoding", "content-length"] {
        assert!(!forwards_to_client(name), "{}", name);
    }
    for name in ["content-type", "connection", "x-custom-upstream", "set-cookie", ""] {
        assert!(forwards_to_client(name), "{}", name);
    }
}

#[test]
fn a_request_takes_its_headers_along() {
    let headers = map(&[
        ("Host", "localhost"),
        ("Authorization", "Bearer key"),
        ("X-Trace", "one"),
        ("Content-Length", "12"),
        ("X-Trace", "two"),
        ("Accept-Encoding", "gzip"),
        ("Accept", "*/*"),
    ]);
    assert_eq!(
        plain(&prepare_upstream_headers(&headers)),
        lines(&[
            ("authorization", "Bearer key"),
            ("x-trace", "one"),
            ("x-trace", "two"),
            ("accept", "*/*"),
        ])
    );
}

#[test]
fn a_reply_brings_its_headers_back() {
    let headers = map(&[
        ("Content-Type", "text/plain"),
        ("Transfer-Encoding", "chunked"),
        ("Set-Cookie", "a=1"),
        ("Content-Encoding", "gzip"),
        ("Set-Cookie", "b=2"),
        ("Content-Length", "12"),
    ]);
    assert_eq!(
        plain(&copy_response_headers(&headers)),
        lines(&[("content-type", "text/plain"), ("set-cookie", "a=1"), ("set-cookie", "b=2")])
    );
}

#[test]
fn a_value_need_not_be_text() {
    let mut headers = HeaderMap::new();
    headers.insert("x-raw", HeaderValue::from_bytes(b"\xff\xfe").unwrap());
    let selected = prepare_upstream_headers(&headers);
    assert_eq!(selected.len(), 1);
    assert_eq!(selected[0].value, b"\xff\xfe".to_vec());
}

#[test]
fn rows_are_selected_in_order() {
    let headers = row(&[("x-b", "1"), ("host", "h"), ("x-a", "2"), ("content-length", "3")]);
    assert_eq!(plain(&select_for_upstream(&headers)), lines(&[("x-b", "1"), ("x-a", "2")]));
    assert_eq!(
        plain(&select_for_client(&headers)),
        lines(&[("x-b", "1"), ("host", "h"), ("x-a", "2")])
    );
    assert!(select_for_upstream(&Vec::new()).is_empty());
    assert!(select_for_client(&Vec::new()).is_empty());
}
