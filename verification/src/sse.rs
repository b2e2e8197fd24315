//! Server-sent events: what the proxy sends on for each line that it reads.

use vstd::prelude::*;
use vstd::utf8::encode_utf8;

use crate::buffer::{bytes_of, to_bytes};
use crate::json;
use crate::json::{json_of, json_of_text, nested_within, nesting_limit, parses_again,
    text_of_json, Json};
use crate::reasoning::{chunk_after, chunk_state_after, transform_stream_chunk, StreamState};
use crate::strings;
use crate::strings::{on_one_line, trimmed};

verus! {

/// What to do about one line of the stream.
pub enum LineAction {
    /// Send these bytes on.
    Yield(bytes::Bytes),
    /// Nothing: the line is blank.
    Skip,
    /// End the stream: the line is the `[DONE]` sentinel.
    Done,
}

/// What a line asks for, with the text that is sent on.
pub enum LineOutcome {
    Yield(Seq<char>),
    Skip,
    Done,
}

impl LineAction {
    /// The action does what the outcome says.
    pub open spec fn carries_out(self, outcome: LineOutcome) -> bool {
        match outcome {
            LineOutcome::Yield(text) => {
                &&& self is Yield
                &&& bytes_of(self->Yield_0) == encode_utf8(text)
            },
            LineOutcome::Skip => self is Skip,
            LineOutcome::Done => self is Done,
        }
    }
}

/// The event that carries a JSON value.
pub open spec fn data_frame(json: Json) -> Seq<char> {
    "data: "@ + text_of_json(json) + "\n\n"@
}

/// The event that stands in for data that is no JSON.
pub open spec fn error_frame() -> Seq<char> {
    "data: {\"error\": \"Proxy Parse Error\"}\n\n"@
}

/// The event that ends a stream.
pub open spec fn done_frame() -> Seq<char> {
    "data: [DONE]\n\n"@
}

/// What stands behind `data: ` in a line, once the white space around the line is gone.
pub open spec fn payload(line: Seq<char>) -> Option<Seq<char>> {
    if "data: "@.is_prefix_of(trimmed(line)) {
        Some(trimmed(line).skip("data: "@.len() as int))
    } else {
        None
    }
}

/// The JSON value that a line carries; nothing for the `[DONE]` sentinel, for a line
/// without data and for data that is no JSON.
pub open spec fn line_json(line: Seq<char>) -> Option<Json> {
    if trimmed(line) == "data: [DONE]"@ {
        None
    } else {
        match payload(line) {
            Some(data) => json_of_text(data),
            None => None,
        }
    }
}

/// The data of a line that is no JSON, and not the `[DONE]` sentinel either.
pub open spec fn malformed_data(line: Seq<char>) -> Option<Seq<char>> {
    if trimmed(line) != "data: [DONE]"@ && line_json(line) is None {
        payload(line)
    } else {
        None
    }
}

/// What a line asks for, in a stream that stands at `state`.
pub open spec fn line_outcome(line: Seq<char>, state: StreamState) -> LineOutcome {
    if trimmed(line).len() == 0 {
        LineOutcome::Skip
    } else if trimmed(line) == "data: [DONE]"@ {
        LineOutcome::Done
    } else if payload(line) is Some {
        match line_json(line) {
            Some(chunk) => LineOutcome::Yield(data_frame(chunk_after(chunk, state))),
            None => LineOutcome::Yield(error_frame()),
        }
    } else {
        LineOutcome::Yield(trimmed(line) + "\n"@)
    }
}

/// Where the stream stands after a line.
pub open spec fn line_state_after(line: Seq<char>, state: StreamState) -> StreamState {
    match line_json(line) {
        Some(chunk) => chunk_state_after(chunk, state),
        None => state,
    }
}

/// The event for a parsed chunk, rewritten. It holds one line of data, and what a client
/// parses from that line is the rewritten chunk.
pub fn chunk_frame(chunk: serde_json::Value, state: &mut StreamState) -> (frame: String)
    ensures
        frame@ == data_frame(chunk_after(json_of(chunk), *old(state))),
        *final(state) == chunk_state_after(json_of(chunk), *old(state)),
        on_one_line(text_of_json(chunk_after(json_of(chunk), *old(state)))),
        nested_within(json_of(chunk), nesting_limit()) ==> parses_again(
            text_of_json(chunk_after(json_of(chunk), *old(state))),
            chunk_after(json_of(chunk), *old(state)),
        ),
{
    let mut chunk = chunk;
    let ghost before = json_of(chunk);
    transform_stream_chunk(&mut chunk, state);
    proof {
        if nested_within(before, nesting_limit()) {
            crate::reasoning::lemma_chunk_nesting(before, *old(state), nesting_limit());
        }
    }
    let mut frame = "data: ".to_string();
    frame.append(json::print(&chunk).as_str());
    frame.append("\n\n");
    frame
}

/// Data that is no JSON, and what the parser had against it. The error is carried along for
/// a log; no contract says which one it is.
pub struct Malformed {
    pub data: String,
    pub error: serde_json::Error,
}

/// Decides on one line of the stream, and says which data was no JSON.
fn read_line(line: String, state: &mut StreamState) -> (read: (LineAction, Option<Malformed>))
    ensures
        read.0.carries_out(line_outcome(line@, *old(state))),
        *final(state) == line_state_after(line@, *old(state)),
        line_json(line@) matches Some(chunk) ==> {
            let rewritten = chunk_after(chunk, *old(state));
            &&& on_one_line(text_of_json(rewritten))
            &&& parses_again(text_of_json(rewritten), rewritten)
        },
        match malformed_data(line@) {
            Some(data) => read.1 is Some && read.1->0.data@ == data,
            None => read.1 is None,
        },
{
    let trimmed_line = line.trim();
    proof {
        reveal_strlit("data: ");
    }
    if trimmed_line.is_empty() {
        return (LineAction::Skip, None);
    }
    if *trimmed_line == *"data: [DONE]" {
        return (LineAction::Done, None);
    }
    match strings::strip_prefix(trimmed_line, "data: ") {
        Some(data) => {
            proof {
                assert(trimmed(line@).take("data: "@.len() as int) =~= "data: "@);
                assert(trimmed(line@).skip("data: "@.len() as int) =~= data@);
            }
            match json::parse_text(data) {
                Ok(chunk) => (LineAction::Yield(to_bytes(chunk_frame(chunk, state))), None),
                Err(error) => {
                    let frame = "data: {\"error\": \"Proxy Parse Error\"}\n\n".to_string();
                    let malformed = Malformed { data: data.to_string(), error };
                    (LineAction::Yield(to_bytes(frame)), Some(malformed))
                },
            }
        },
        None => {
            let mut passed = trimmed_line.to_string();
            passed.append("\n");
            (LineAction::Yield(to_bytes(passed)), None)
        },
    }
}

/// Decides on one line of the stream: blank lines are skipped, `data: [DONE]` ends the
/// stream, data is rewritten, and anything else is passed on without the white space
/// around it. Data that is no JSON becomes an error event, and the stream goes on.
pub fn process_line(line: String, state: &mut StreamState) -> (action: LineAction)
    ensures
        action.carries_out(line_outcome(line@, *old(state))),
        *final(state) == line_state_after(line@, *old(state)),
        line_json(line@) matches Some(chunk) ==> {
            let rewritten = chunk_after(chunk, *old(state));
            &&& on_one_line(text_of_json(rewritten))
            &&& parses_again(text_of_json(rewritten), rewritten)
        },
{
    read_line(line, state).0
}

/// What came of waiting for the next line of the upstream's stream.
pub enum LineEvent {
    /// A line, without its line break.
    Line(String),
    /// The stream broke off.
    Failed,
    /// The stream ended.
    Ended,
}

/// What the proxy does next with the client's stream.
pub enum StreamStep {
    /// Send these bytes, then wait for the next line.
    Send(bytes::Bytes),
    /// Report that the line held malformed data, send these bytes, then wait for the next
    /// line.
    Report(Malformed, bytes::Bytes),
    /// Wait for the next line.
    Wait,
    /// Send these bytes and end the stream.
    SendAndEnd(bytes::Bytes),
    /// End the stream with the upstream's error.
    Fail,
    /// End the stream.
    End,
}

/// Decides what follows an event of the upstream's stream. The stream ends with the
/// upstream's, with its error, or with the `[DONE]` sentinel, which is sent on.
pub fn stream_step(event: LineEvent, state: &mut StreamState) -> (step: StreamStep)
    ensures
        match event {
            LineEvent::Line(line) => {
                &&& *final(state) == line_state_after(line@, *old(state))
                &&& line_json(line@) matches Some(chunk) ==> {
                    let rewritten = chunk_after(chunk, *old(state));
                    &&& on_one_line(text_of_json(rewritten))
                    &&& parses_again(text_of_json(rewritten), rewritten)
                }
                &&& match line_outcome(line@, *old(state)) {
                    LineOutcome::Yield(text) => match malformed_data(line@) {
                        Some(data) => {
                            &&& step is Report
                            &&& step->Report_0.data@ == data
                            &&& bytes_of(step->Report_1) == encode_utf8(text)
                        },
                        None => {
                            &&& step is Send
                            &&& bytes_of(step->Send_0) == encode_utf8(text)
                        },
                    },
                    LineOutcome::Skip => step is Wait,
                    LineOutcome::Done => {
                        &&& step is SendAndEnd
                        &&& bytes_of(step->SendAndEnd_0) == encode_utf8(done_frame())
                    },
                }
            },
            LineEvent::Failed => step is Fail && *final(state) == *old(state),
            LineEvent::Ended => step is End && *final(state) == *old(state),
        },
{
    match event {
        LineEvent::Line(line) => match read_line(line, state) {
            (LineAction::Yield(bytes), Some(malformed)) => StreamStep::Report(malformed, bytes),
            (LineAction::Yield(bytes), None) => StreamStep::Send(bytes),
            (LineAction::Skip, _) => StreamStep::Wait,
            (LineAction::Done, _) => StreamStep::SendAndEnd(
                to_bytes("data: [DONE]\n\n".to_string()),
            ),
        },
        LineEvent::Failed => StreamStep::Fail,
        LineEvent::Ended => StreamStep::End,
    }
}

} // verus!
