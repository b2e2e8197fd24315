use llm_reasoning_proxy::reasoning::{transform_response, transform_stream_chunk, StreamState};
use llm_reasoning_proxy::sse::{process_line, LineAction};
use serde_json::Value;

fn value(text: &str) -> Value {
    serde_json::from_str(text).expect("the text of the test is JSON")
}

/// The chunks of a stream, rewritten; where the stream stands behind them.
fn rewrite(chunks: &[&str]) -> (Vec<Value>, bool) {
    let mut state = StreamState::default();
    let mut rewritten = Vec::new();
    for chunk in chunks {
        let mut chunk = value(chunk);
        transform_stream_chunk(&mut chunk, &mut state);
        rewritten.push(chunk);
    }
    (rewritten, state.is_thinking)
}

fn shown(chunks: &[Value]) -> String {
    chunks
        .iter()
        .map(|chunk| chunk["choices"][0]["delta"]["content"].as_str().unwrap_or(""))
        .collect()
}

#[test]
fn a_stream_agrees_with_the_message() {
    let (chunks, thinking) = rewrite(&[
        r#"{"choices": [{"delta": {"role": "assistant", "content": ""}}]}"#,
        r#"{"choices": [{"delta": {"reasoning": "Let me "}}]}"#,
        r#"{"choices": [{"delta": {"reasoning": "see."}}]}"#,
        r#"{"choices": [{"delta": {"content": "It is "}}]}"#,
        r#"{"choices": [{"delta": {"content": "four."}}]}"#,
        r#"{"choices": [], "usage": null}"#,
    ]);
    let mut response =
        value(r#"{"choices": [{"message": {"reasoning": "Let me see.", "content": "It is four."}}]}"#);
    transform_response(&mut response);
    assert_eq!(shown(&chunks), "<think>Let me see.</think>It is four.");
    assert_eq!(shown(&chunks), response["choices"][0]["message"]["content"].as_str().unwrap());
    assert!(!thinking);
}

#[test]
fn tags_balance_in_a_stream() {
    let (chunks, thinking) = rewrite(&[
        r#"{"choices": [{"delta": {"reasoning": "a"}}]}"#,
        r#"{"choices": [{"delta": {"content": "b"}}]}"#,
        r#"{"choices": [{"delta": {"reasoning": "c", "content": "d"}}]}"#,
        r#"{"choices": [{"delta": {"reasoning": "e"}}]}"#,
    ]);
    let text = shown(&chunks);
    assert_eq!(text, "<think>a</think>b<think>c</think>d<think>e");
    assert_eq!(text.matches("<think>").count(), 3);
    assert_eq!(text.matches("</think>").count(), 2);
    assert!(thinking);
}

#[test]
fn rewriting_twice_is_rewriting_once() {
    let mut response = value(
        r#"{"choices": [{"message": {"reasoning_content": "R", "content": "C", "role": "assistant"}}]}"#,
    );
    transform_response(&mut response);
    let once = response.clone();
    transform_response(&mut response);
    assert_eq!(response, once);
    assert_eq!(
        once,
        value(r#"{"choices": [{"message": {"content": "<think>R</think>C", "role": "assistant"}}]}"#)
    );
}

#[test]
fn plain_chunks_pass_outside_a_block() {
    let text = r#"{"id": "x", "choices": [{"index": 0, "delta": {"content": "C", "role": "r"}}]}"#;
    let (chunks, thinking) = rewrite(&[text]);
    assert_eq!(chunks, vec![value(text)]);
    assert!(!thinking);
}

#[test]
fn white_space_around_a_line_changes_nothing() {
    let line = r#"data: {"choices": [{"delta": {"reasoning": "R"}}]}"#;
    let mut bare = StreamState::default();
    let mut padded = StreamState::default();
    let first = process_line(line.to_string(), &mut bare);
    let second = process_line(format!(" \t{}\u{a0}\r", line), &mut padded);
    match (first, second) {
        (LineAction::Yield(first), LineAction::Yield(second)) => assert_eq!(first, second),
        _ => panic!("the line carries data"),
    }
    assert!(bare.is_thinking && padded.is_thinking);
}

#[test]
fn tags_in_the_shown_text_take_turns() {
    let (chunks, thinking) = rewrite(&[
        r#"{"choices": [{"delta": {"content": "a"}}]}"#,
        r#"{"choices": [{"delta": {"reasoning": "b"}}]}"#,
        r#"{"choices": [{"delta": {"reasoning": "c", "content": "d"}}]}"#,
        r#"{"choices": [{"delta": {"reasoning_content": "e"}}]}"#,
    ]);
    let text = shown(&chunks);
    assert_eq!(text, "a<think>bc</think>d<think>e");
    assert!(thinking);
}
