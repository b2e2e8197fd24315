use llm_reasoning_proxy::reasoning::{
    is_streaming, next_text, stream_flag, transform_message, transform_non_streaming,
    transform_response, transform_stream_chunk, wrap_reasoning, StreamState,
};
use serde_json::Value;

fn value(text: &str) -> Value {
    serde_json::from_str(text).expect("the text of the test is JSON")
}

#[test]
fn test_transform_non_streaming_with_reasoning_content() {
    let input = r#"{
            "choices": [{"message": {"content": "Hello", "reasoning_content": "Thinking"}}]
        }"#;
    let output = transform_non_streaming(input);
    assert!(output.contains("<think>Thinking</think>"));
    assert!(output.contains("Hello"));
}

#[test]
fn test_transform_non_streaming_with_reasoning() {
    let input = r#"{
            "choices": [{"message": {"content": "Hello", "reasoning": "Thinking"}}]
        }"#;
    let output = transform_non_streaming(input);
    assert!(output.contains("<think>Thinking</think>"));
    assert!(output.contains("Hello"));
}

#[test]
fn test_transform_non_streaming_no_reasoning() {
    let input = r#"{"choices": [{"message": {"content": "Hello"}}]}"#;
    let output = transform_non_streaming(input);

    // Compare parsed values to ignore whitespace/formatting differences
    let parsed_output: Value = serde_json::from_str(&output).expect("Output was not valid JSON");
    let parsed_input: Value = serde_json::from_str(input).expect("Input was not valid JSON");

    assert_eq!(parsed_output, parsed_input);
}

#[test]
fn test_stream_chunk_start_thinking_reasoning_content() {
    let mut state = StreamState::default();
    let mut val = value(r#"{"choices": [{"delta": {"reasoning_content": "Hmm"}}]}"#);
    transform_stream_chunk(&mut val, &mut state);

    assert!(state.is_thinking);
    let content = val["choices"][0]["delta"]["content"].as_str().unwrap();
    assert_eq!(content, "<think>Hmm");
}

#[test]
fn test_stream_chunk_start_thinking_reasoning() {
    let mut state = StreamState::default();
    let mut val = value(r#"{"choices": [{"delta": {"reasoning": "Hmm"}}]}"#);
    transform_stream_chunk(&mut val, &mut state);

    assert!(state.is_thinking);
    let content = val["choices"][0]["delta"]["content"].as_str().unwrap();
    assert_eq!(content, "<think>Hmm");
}

#[test]
fn test_stream_chunk_switch_to_content() {
    let mut state = StreamState { is_thinking: true };
    let mut val = value(r#"{"choices": [{"delta": {"content": "Answer"}}]}"#);
    transform_stream_chunk(&mut val, &mut state);

    assert!(!state.is_thinking);
    let content = val["choices"][0]["delta"]["content"].as_str().unwrap();
    assert_eq!(content, "</think>Answer");
}

#[test]
fn test_is_streaming() {
    let json = value(r#"{"stream": true}"#).to_string();
    assert!(is_streaming(json.as_bytes()));

    let json2 = value(r#"{"stream": false}"#).to_string();
    assert!(!is_streaming(json2.as_bytes()));
}

#[test]
fn a_request_that_is_no_json_asks_for_no_stream() {
    assert!(!is_streaming(b""));
    assert!(!is_streaming(b"{\"stream\": true"));
    assert!(!is_streaming(b"\xff"));
    assert!(!is_streaming(br#"["stream", true]"#));
    assert!(!is_streaming(br#"{"stream": "true"}"#));
    assert!(!is_streaming(br#"{"stream": 1}"#));
    assert!(!is_streaming(br#"{"inner": {"stream": true}}"#));
    assert!(stream_flag(&value(r#"{"model": "m", "stream": true}"#)));
    assert!(!stream_flag(&value("null")));
}

#[test]
fn the_last_of_two_stream_flags_counts() {
    assert!(is_streaming(br#"{"stream": false, "stream": true}"#));
    assert!(!is_streaming(br#"{"stream": true, "stream": false}"#));
}

#[test]
fn a_message_gets_its_reasoning_in_tags() {
    let mut message = value(r#"{"role": "assistant", "reasoning": "R", "content": "C"}"#);
    transform_message(message.as_object_mut().unwrap());
    assert_eq!(message, value(r#"{"role": "assistant", "content": "<think>R</think>C"}"#));
}

#[test]
fn a_message_without_content_gets_one() {
    let mut message = value(r#"{"reasoning_content": "R"}"#);
    transform_message(message.as_object_mut().unwrap());
    assert_eq!(message, value(r#"{"content": "<think>R</think>"}"#));

    let mut null_content = value(r#"{"reasoning": "R", "content": null}"#);
    transform_message(null_content.as_object_mut().unwrap());
    assert_eq!(null_content, value(r#"{"content": "<think>R</think>"}"#));
}

#[test]
fn reasoning_that_is_no_string_counts_as_empty() {
    let mut message = value(r#"{"reasoning": null, "content": "C"}"#);
    transform_message(message.as_object_mut().unwrap());
    assert_eq!(message, value(r#"{"content": "<think></think>C"}"#));
}

#[test]
fn the_newer_of_two_reasoning_fields_is_taken_and_both_go() {
    let text = r#"{"reasoning": "new", "reasoning_content": "old", "content": "C"}"#;
    let mut message = value(text);
    transform_message(message.as_object_mut().unwrap());
    assert_eq!(message, value(r#"{"content": "<think>new</think>C"}"#));

    // A second pass finds nothing more to do.
    transform_message(message.as_object_mut().unwrap());
    assert_eq!(message, value(r#"{"content": "<think>new</think>C"}"#));

}

#[test]
fn a_reasoning_field_without_text_gives_way_to_the_other() {
    for newer in ["null", "\"\"", "7", "{}"] {
        let mut message = value(&format!(
            r#"{{"reasoning": {}, "reasoning_content": "old", "content": "C"}}"#,
            newer
        ));
        transform_message(message.as_object_mut().unwrap());
        assert_eq!(message, value(r#"{"content": "<think>old</think>C"}"#));

        let mut state = StreamState::default();
        let mut chunk = value(&format!(
            r#"{{"choices": [{{"delta": {{"reasoning": {}, "reasoning_content": "old"}}}}]}}"#,
            newer
        ));
        transform_stream_chunk(&mut chunk, &mut state);
        assert_eq!(chunk, value(r#"{"choices": [{"delta": {"content": "<think>old"}}]}"#));
        assert!(state.is_thinking);
    }

    let mut neither = value(r#"{"reasoning": null, "reasoning_content": null, "content": "C"}"#);
    transform_message(neither.as_object_mut().unwrap());
    assert_eq!(neither, value(r#"{"content": "<think></think>C"}"#));
}

#[test]
fn a_delta_loses_both_reasoning_fields() {
    let mut state = StreamState::default();
    let mut chunk = value(
        r#"{"choices": [{"delta": {"reasoning": "new", "reasoning_content": "old"}}]}"#,
    );
    transform_stream_chunk(&mut chunk, &mut state);
    assert_eq!(chunk, value(r#"{"choices": [{"delta": {"content": "<think>new"}}]}"#));
    assert!(state.is_thinking);

    let mut silent = value(
        r#"{"choices": [{"delta": {"reasoning": "", "reasoning_content": null}}]}"#,
    );
    transform_stream_chunk(&mut silent, &mut state);
    assert_eq!(silent, value(r#"{"choices": [{"delta": {}}]}"#));
}

#[test]
fn printed_floats_parse_again() {
    for text in [
        "1.7976931348623157e308",
        "-1.7976931348623157e308",
        "1.7976931348623155e308",
        "5e-324",
        "2.2250738585072014e-308",
        "1e16",
        "123456789012345680000.0",
        "0.1",
        "-0.0",
        "1e-7",
    ] {
        let printed = transform_non_streaming(text);
        assert!(serde_json::from_str::<Value>(&printed).is_ok(), "{}", text);
    }
    for bits in 0..2000_u64 {
        let float = f64::from_bits(f64::MAX.to_bits() - bits);
        let printed = Value::from(float).to_string();
        assert!(serde_json::from_str::<Value>(&printed).is_ok(), "{}", printed);
    }
}

#[test]
fn text_that_is_no_json_comes_back_as_it_is() {
    assert_eq!(transform_non_streaming("Mock Error"), "Mock Error");
    assert_eq!(transform_non_streaming(" {\"a\": 1"), " {\"a\": 1");
    assert_eq!(transform_non_streaming(""), "");
}

#[test]
fn a_whole_response_is_printed_compactly() {
    let input = r#"{ "id": 7, "choices": [ {"message": {"reasoning": "a\nb", "content": "\"c\""}} ] }"#;
    assert_eq!(
        transform_non_streaming(input),
        r#"{"choices":[{"message":{"content":"<think>a\nb</think>\"c\""}}],"id":7}"#
    );
}

#[test]
fn responses_of_another_shape_keep_their_value() {
    for text in [
        "null",
        "[1,2,3]",
        "{}",
        r#"{"choices":[]}"#,
        r#"{"choices":{"message":{"reasoning":"R"}}}"#,
        r#"{"choices":["message"]}"#,
        r#"{"choices":[{"message":"reasoning"}]}"#,
        r#"{"choices":[{"delta":{"reasoning":"R"}}]}"#,
    ] {
        assert_eq!(transform_non_streaming(text), text);
        let mut response = value(text);
        transform_response(&mut response);
        assert_eq!(response, value(text));
    }
}

#[test]
fn only_the_first_choice_is_rewritten() {
    let mut response = value(
        r#"{"usage": {"tokens": 3}, "choices": [
            {"index": 0, "message": {"reasoning": "R", "content": "C"}},
            {"index": 1, "message": {"reasoning": "S", "content": "D"}}]}"#,
    );
    transform_response(&mut response);
    assert_eq!(
        response,
        value(
            r#"{"usage": {"tokens": 3}, "choices": [
                {"index": 0, "message": {"content": "<think>R</think>C"}},
                {"index": 1, "message": {"reasoning": "S", "content": "D"}}]}"#
        )
    );
}

#[test]
fn nesting_beyond_the_parser_is_left_alone() {
    let within = format!("{}{}", "[".repeat(127), "]".repeat(127));
    assert_eq!(transform_non_streaming(&format!(" {}", within)), within);
    let beyond = format!(" {}{}", "[".repeat(128), "]".repeat(128));
    assert_eq!(transform_non_streaming(&beyond), beyond);
}

#[test]
fn numbers_are_read_back() {
    let text = r#"{"big":18446744073709551615,"float":0.5,"neg":-9223372036854775808}"#;
    assert_eq!(transform_non_streaming(text), text);
}

#[test]
fn a_chunk_with_nothing_to_show_only_loses_its_reasoning() {
    for thinking in [false, true] {
        let mut state = StreamState { is_thinking: thinking };
        let mut chunk = value(r#"{"choices": [{"delta": {"reasoning": null, "content": ""}}]}"#);
        transform_stream_chunk(&mut chunk, &mut state);
        assert_eq!(chunk, value(r#"{"choices": [{"delta": {"content": ""}}]}"#));
        assert_eq!(state.is_thinking, thinking);

        let mut role = value(r#"{"choices": [{"delta": {"role": "assistant"}}]}"#);
        transform_stream_chunk(&mut role, &mut state);
        assert_eq!(role, value(r#"{"choices": [{"delta": {"role": "assistant"}}]}"#));
        assert_eq!(state.is_thinking, thinking);
    }
}

#[test]
fn a_chunk_without_a_delta_is_left_alone() {
    let mut state = StreamState { is_thinking: true };
    let mut chunk = value(r#"{"choices": [], "usage": {"total_tokens": 5}}"#);
    transform_stream_chunk(&mut chunk, &mut state);
    assert_eq!(chunk, value(r#"{"choices": [], "usage": {"total_tokens": 5}}"#));
    assert!(state.is_thinking);
}

#[test]
fn a_chunk_with_both_parts_opens_and_closes() {
    let mut state = StreamState::default();
    let mut chunk = value(r#"{"choices": [{"delta": {"reasoning": "R", "content": "C"}}]}"#);
    transform_stream_chunk(&mut chunk, &mut state);
    assert_eq!(
        chunk,
        value(r#"{"choices": [{"delta": {"content": "<think>R</think>C"}}]}"#)
    );
    assert!(!state.is_thinking);
}

#[test]
fn tags_follow_the_state() {
    let mut state = StreamState::default();
    assert_eq!(next_text("", "plain", &mut state), "plain");
    assert!(!state.is_thinking);
    assert_eq!(next_text("one", "", &mut state), "<think>one");
    assert!(state.is_thinking);
    assert_eq!(next_text("two", "", &mut state), "two");
    assert!(state.is_thinking);
    assert_eq!(next_text("", "", &mut state), "");
    assert!(state.is_thinking);
    assert_eq!(next_text("three", "answer", &mut state), "three</think>answer");
    assert!(!state.is_thinking);
    assert_eq!(next_text("", " goes on", &mut state), " goes on");
    assert_eq!(next_text("again", "", &mut state), "<think>again");
    assert!(state.is_thinking);
}

#[test]
fn wrapping_puts_the_reasoning_first() {
    assert_eq!(wrap_reasoning("R", "C"), "<think>R</think>C");
    assert_eq!(wrap_reasoning("", ""), "<think></think>");
}
