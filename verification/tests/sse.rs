use llm_reasoning_proxy::reasoning::StreamState;
use llm_reasoning_proxy::sse::{chunk_frame, process_line, stream_step};
use llm_reasoning_proxy::sse::{LineAction, LineEvent, StreamStep};

fn yielded(line: &str, state: &mut StreamState) -> String {
    match process_line(line.to_string(), state) {
        LineAction::Yield(bytes) => String::from_utf8(bytes.to_vec()).unwrap(),
        LineAction::Skip => panic!("the line was skipped"),
        LineAction::Done => panic!("the line ended the stream"),
    }
}

/// Feeds lines to the proxy until it ends the stream; what the client was sent, and
/// whether the stream was ended by its lines.
fn run(lines: &[&str]) -> (String, bool) {
    let mut state = StreamState::default();
    let mut sent = String::new();
    for line in lines {
        match stream_step(LineEvent::Line(line.to_string()), &mut state) {
            StreamStep::Send(bytes) => sent.push_str(std::str::from_utf8(&bytes).unwrap()),
            StreamStep::Report(_, bytes) => sent.push_str(std::str::from_utf8(&bytes).unwrap()),
            StreamStep::Wait => {}
            StreamStep::SendAndEnd(bytes) => {
                sent.push_str(std::str::from_utf8(&bytes).unwrap());
                return (sent, true);
            }
            StreamStep::Fail | StreamStep::End => panic!("a line ends no stream like that"),
        }
    }
    (sent, false)
}

#[test]
fn blank_lines_are_skipped() {
    let mut state = StreamState { is_thinking: true };
    for line in ["", "   ", "\t\r", "\u{a0}\u{2003}\u{3000}\u{85}\u{1680}\u{2028}\u{205f}\u{202f}"] {
        assert!(matches!(process_line(line.to_string(), &mut state), LineAction::Skip));
    }
    assert!(state.is_thinking);
}

#[test]
fn a_zero_width_space_is_no_white_space() {
    let mut state = StreamState::default();
    assert_eq!(yielded("\u{200b}", &mut state), "\u{200b}\n");
    assert_eq!(yielded("\u{180e}", &mut state), "\u{180e}\n");
    assert_eq!(yielded("\u{feff}", &mut state), "\u{feff}\n");
}

#[test]
fn every_white_space_character_is_trimmed() {
    let mut state = StreamState::default();
    for code in 0..=0x10ffff_u32 {
        if let Some(c) = char::from_u32(code) {
            let listed = matches!(
                code,
                0x9..=0xd
                    | 0x20
                    | 0x85
                    | 0xa0
                    | 0x1680
                    | 0x2000..=0x200a
                    | 0x2028
                    | 0x2029
                    | 0x202f
                    | 0x205f
                    | 0x3000
            );
            let skipped = matches!(process_line(c.to_string(), &mut state), LineAction::Skip);
            assert_eq!(skipped, listed, "U+{:04X}", code);
        }
    }
}

#[test]
fn the_sentinel_ends_the_stream() {
    let mut state = StreamState { is_thinking: true };
    for line in ["data: [DONE]", "  data: [DONE]\r"] {
        assert!(matches!(process_line(line.to_string(), &mut state), LineAction::Done));
    }
    assert!(state.is_thinking);
}

#[test]
fn data_is_rewritten() {
    let mut state = StreamState::default();
    assert_eq!(
        yielded(r#"data: {"choices": [{"delta": {"reasoning": "R"}}]}"#, &mut state),
        "data: {\"choices\":[{\"delta\":{\"content\":\"<think>R\"}}]}\n\n"
    );
    assert!(state.is_thinking);
    assert_eq!(
        yielded(r#"  data: {"choices": [{"delta": {"content": "C\n"}}]}  "#, &mut state),
        "data: {\"choices\":[{\"delta\":{\"content\":\"</think>C\\n\"}}]}\n\n"
    );
    assert!(!state.is_thinking);
}

#[test]
fn data_that_is_no_json_becomes_an_error_event() {
    let mut state = StreamState { is_thinking: true };
    let error = "data: {\"error\": \"Proxy Parse Error\"}\n\n";
    assert_eq!(yielded("data: {\"choices\": [", &mut state), error);
    assert_eq!(yielded("data: hello", &mut state), error);
    assert_eq!(yielded("data: [DONE] and more", &mut state), error);
    assert!(state.is_thinking);
}

#[test]
fn malformed_data_is_reported() {
    let mut state = StreamState { is_thinking: true };
    match stream_step(LineEvent::Line(" data: {\"a\": ".to_string()), &mut state) {
        StreamStep::Report(malformed, bytes) => {
            assert_eq!(malformed.data, "{\"a\":");
            assert!(malformed.error.is_eof());
            assert_eq!(&bytes[..], b"data: {\"error\": \"Proxy Parse Error\"}\n\n");
        }
        _ => panic!("the data is no JSON"),
    }
    assert!(state.is_thinking);
    match stream_step(LineEvent::Line("data: 1".to_string()), &mut state) {
        StreamStep::Send(bytes) => assert_eq!(&bytes[..], b"data: 1\n\n"),
        _ => panic!("the data is JSON"),
    }
}

#[test]
fn other_lines_pass_trimmed() {
    let mut state = StreamState { is_thinking: true };
    assert_eq!(yielded(": keep-alive ", &mut state), ": keep-alive\n");
    assert_eq!(yielded("event: ping", &mut state), "event: ping\n");
    assert_eq!(yielded("data:{}", &mut state), "data:{}\n");
    assert_eq!(yielded("data: ", &mut state), "data:\n");
    assert_eq!(yielded("Data: {}", &mut state), "Data: {}\n");
    assert_eq!(yielded(" gr\u{fc}\u{df}e ", &mut state), "gr\u{fc}\u{df}e\n");
    assert!(state.is_thinking);
}

#[test]
fn line_breaks_inside_data_stay_escaped() {
    let mut state = StreamState::default();
    assert_eq!(
        yielded(r#"data: {"choices":[{"delta":{"content":"a\r\nb"}}],"\n":"\u000a"}"#, &mut state),
        "data: {\"\\n\":\"\\n\",\"choices\":[{\"delta\":{\"content\":\"a\\r\\nb\"}}]}\n\n"
    );
}

#[test]
fn a_parsed_chunk_becomes_an_event() {
    let mut state = StreamState { is_thinking: true };
    let chunk = serde_json::from_str(r#"{"choices": [{"delta": {"content": "C"}}]}"#).unwrap();
    assert_eq!(
        chunk_frame(chunk, &mut state),
        "data: {\"choices\":[{\"delta\":{\"content\":\"</think>C\"}}]}\n\n"
    );
    assert!(!state.is_thinking);
}

#[test]
fn a_broken_stream_fails_and_an_ended_one_ends() {
    let mut state = StreamState { is_thinking: true };
    assert!(matches!(stream_step(LineEvent::Failed, &mut state), StreamStep::Fail));
    assert!(matches!(stream_step(LineEvent::Ended, &mut state), StreamStep::End));
    assert!(state.is_thinking);
}

#[test]
fn a_reasoning_stream_shows_tags() {
    let (buffer, ended) = run(&[
        r#"data: {"choices":[{"delta":{"reasoning_content":"Thinking..."}}]}"#,
        "",
        r#"data: {"choices":[{"delta":{"content":"Answer"}}]}"#,
        "",
        "data: [DONE]",
        "",
    ]);
    assert!(
        buffer.contains("data: {\"choices\":[{\"delta\":{\"content\":\"<think>Thinking...\"}}]}")
    );
    assert!(buffer.contains("</think>Answer"));
    assert!(buffer.contains("[DONE]"));
    assert!(ended);
}

#[test]
fn a_plain_stream_passes() {
    let (buffer, ended) = run(&[
        r#"data: {"choices":[{"delta":{"content":"Hello"}}]}"#,
        "",
        r#"data: {"choices":[{"delta":{"content":" World"}}]}"#,
        "",
        "data: [DONE]",
    ]);
    assert_eq!(
        buffer,
        "data: {\"choices\":[{\"delta\":{\"content\":\"Hello\"}}]}\n\n\
         data: {\"choices\":[{\"delta\":{\"content\":\" World\"}}]}\n\n\
         data: [DONE]\n\n"
    );
    assert!(!buffer.contains("<think>"));
    assert!(ended);
}

#[test]
fn nothing_is_sent_behind_the_sentinel() {
    let (buffer, ended) = run(&[": a", "data: [DONE]", ": b"]);
    assert_eq!(buffer, ": a\ndata: [DONE]\n\n");
    assert!(ended);
    let (open, ended) = run(&[": a", ": b"]);
    assert_eq!(open, ": a\n: b\n");
    assert!(!ended);
}

#[test]
fn lines_are_sent_as_they_come() {
    let first = r#"data: {"choices":[{"delta":{"reasoning":"R"}}]}"#;
    let second = r#"data: {"choices":[{"delta":{"content":"C"}}]}"#;
    let (alone, _) = run(&[first]);
    let (both, _) = run(&[first, second]);
    assert_eq!(alone, "data: {\"choices\":[{\"delta\":{\"content\":\"<think>R\"}}]}\n\n");
    assert_eq!(
        both,
        format!("{}data: {{\"choices\":[{{\"delta\":{{\"content\":\"</think>C\"}}}}]}}\n\n", alone)
    );
}
