//! What a call promises, told from what goes in and what comes out.
//!
//! Each law speaks of any call of an operation (`call_ensures` holds of its arguments and
//! its result) and of how two calls relate, in the plain terms of JSON values, texts and
//! bytes.

use vstd::prelude::*;
use vstd::utf8::encode_utf8;

use crate::buffer::bytes_of;
use crate::exchange::{begin_reply, finish_reply, forward_request, refusal, upstream_uri, Failure,
    Reply, ReplyHead, TextReply, UpstreamRequest};
use crate::headers::{copy_response_headers, forwards_to_client, forwards_to_upstream, headers_of,
    lines_of, prepare_upstream_headers, select_for_client, select_for_upstream, Header};
use crate::json::{json_of, json_of_bytes, json_of_text, members_of, text_of_json, Json};
use crate::laws::{all_white_space, lemma_trimmed_core};
use crate::reasoning::{is_streaming, lemma_keys_differ, next_text, stream_flag, transform_message,
    transform_non_streaming, transform_response, transform_stream_chunk, wrap_reasoning,
    StreamState};
use crate::sse::{chunk_frame, process_line, stream_step, LineAction, LineEvent, StreamStep};

verus! {

// ---------------------------------------------------------------------------------------
// Does a request ask for a stream?

/// A parsed request asks for a stream if and only if it is an object that holds `true`
/// under `stream`.
pub proof fn law_stream_flag_is_the_stream_member(request: &serde_json::Value, answer: bool)
    requires
        call_ensures(stream_flag, (request,), answer),
    ensures
        answer <==> (json_of(*request) matches Json::Object(m) && m.dom().contains("stream"@)
            && m["stream"@] == Json::Bool(true)),
{
}

/// A body asks for a stream if and only if it parses to an object that holds `true` under
/// `stream`.
pub proof fn law_body_asks_by_its_stream_member(body: &[u8], answer: bool)
    requires
        call_ensures(is_streaming, (body,), answer),
    ensures
        answer <==> (json_of_bytes(body@) matches Some(Json::Object(m)) && m.dom().contains(
            "stream"@,
        ) && m["stream"@] == Json::Bool(true)),
{
}

/// Two requests that hold the same under `stream` get the same answer, whatever else they
/// hold.
pub proof fn law_other_members_of_a_request_do_not_matter(
    one: &serde_json::Value,
    other: &serde_json::Value,
    members: Map<Seq<char>, Json>,
    key: Seq<char>,
    value: Json,
    answer: bool,
    other_answer: bool,
)
    requires
        key != "stream"@,
        json_of(*one) == Json::Object(members),
        json_of(*other) == Json::Object(members.insert(key, value)) || json_of(*other)
            == Json::Object(members.remove(key)),
        call_ensures(stream_flag, (one,), answer),
        call_ensures(stream_flag, (other,), other_answer),
    ensures
        answer == other_answer,
{
    law_stream_flag_is_the_stream_member(one, answer);
    law_stream_flag_is_the_stream_member(other, other_answer);
}

// ---------------------------------------------------------------------------------------
// Whole messages

/// The text that an object holds under `key`; nothing where it holds none.
pub open spec fn text_at(members: Map<Seq<char>, Json>, key: Seq<char>) -> Seq<char> {
    if members.dom().contains(key) && members[key] is Text {
        members[key]->Text_0
    } else {
        Seq::empty()
    }
}

/// The text that counts as reasoning: the newer field's, or the older one's where the newer
/// holds none.
pub open spec fn thought_in(members: Map<Seq<char>, Json>) -> Seq<char> {
    if text_at(members, "reasoning"@).len() > 0 {
        text_at(members, "reasoning"@)
    } else {
        text_at(members, "reasoning_content"@)
    }
}

/// Wrapping puts the reasoning between the two tags and the content behind them, and adds
/// nothing but the fifteen characters of the tags.
pub proof fn law_wrapping_closes_the_block(reasoning: &str, content: &str, text: String)
    requires
        call_ensures(wrap_reasoning, (reasoning, content), text),
    ensures
        text@ == "<think>"@ + reasoning@ + "</think>"@ + content@,
        text@.len() == 15 + reasoning@.len() + content@.len(),
{
    reveal_strlit("<think>");
    reveal_strlit("</think>");
}

/// Any message with a reasoning field loses both such fields and has the reasoning in a
/// closed block at the head of its content, even where it had no content; any other message
/// stays as it is.
pub proof fn law_message_is_rewritten(msg: &mut serde_json::Map<String, serde_json::Value>)
    requires
        call_ensures(transform_message, (msg,), ()),
    ensures
        ({
            let before = members_of(*old(msg));
            let after = members_of(*final(msg));
            if before.dom().contains("reasoning"@) || before.dom().contains("reasoning_content"@) {
                after == before.remove("reasoning"@).remove("reasoning_content"@).insert(
                    "content"@,
                    Json::Text(
                        "<think>"@ + thought_in(before) + "</think>"@ + text_at(
                            before,
                            "content"@,
                        ),
                    ),
                )
            } else {
                after == before
            }
        }),
{
    lemma_thought(members_of(*old(msg)));
}

/// A message that holds the text `r` as its reasoning, in the newer field or, where that one
/// holds no text, in the older, and `c` as its content comes out with `<think>`, `r`,
/// `</think>` and `c` as its content and without either field.
pub proof fn law_message_shows_what_it_held(
    msg: &mut serde_json::Map<String, serde_json::Value>,
    before: Map<Seq<char>, Json>,
    r: Seq<char>,
    c: Seq<char>,
)
    requires
        before == members_of(*old(msg)),
        r.len() > 0,
        (before.dom().contains("reasoning"@) && before["reasoning"@] == Json::Text(r)) || (
        before.dom().contains("reasoning_content"@) && before["reasoning_content"@] == Json::Text(r)
            && (!before.dom().contains("reasoning"@) || before["reasoning"@] !is Text
            || before["reasoning"@]->Text_0.len() == 0)),
        (before.dom().contains("content"@) && before["content"@] == Json::Text(c)) || (c.len() == 0
            && (!before.dom().contains("content"@) || before["content"@] !is Text)),
        call_ensures(transform_message, (msg,), ()),
    ensures
        members_of(*final(msg)) == before.remove("reasoning"@).remove("reasoning_content"@).insert(
            "content"@,
            Json::Text("<think>"@ + r + "</think>"@ + c),
        ),
{
    lemma_thought(before);
    if c.len() == 0 {
        assert(c =~= Seq::<char>::empty());
    }
}

/// The contracts take the same texts for reasoning and content.
proof fn lemma_thought(members: Map<Seq<char>, Json>)
    ensures
        crate::reasoning::reasoning_text(members) == thought_in(members),
        crate::reasoning::content_text(members) == text_at(members, "content"@),
        crate::reasoning::reasoning_in(members) is Some <==> members.dom().contains("reasoning"@)
            || members.dom().contains("reasoning_content"@),
{
    lemma_keys_differ();
    crate::laws::law_text_counts_as_reasoning(members);
    assert(crate::reasoning::text_or_empty(crate::json::lookup(members, "reasoning"@)) == text_at(
        members,
        "reasoning"@,
    ));
    assert(crate::reasoning::text_or_empty(crate::json::lookup(members, "reasoning_content"@))
        == text_at(members, "reasoning_content"@));
}

/// In any response whose first choice holds an object under `message`, whatever else the
/// response and the choice hold, that object is replaced by what the rewriting of a message
/// makes of it, and nothing else changes.
pub proof fn law_response_is_rewritten_in_place(
    response: &mut serde_json::Value,
    msg: &mut serde_json::Map<String, serde_json::Value>,
    top: Map<Seq<char>, Json>,
    choices: Seq<Json>,
    choice: Map<Seq<char>, Json>,
)
    requires
        json_of(*old(response)) == Json::Object(top),
        top.dom().contains("choices"@),
        top["choices"@] == Json::Array(choices),
        choices.len() > 0,
        choices[0] == Json::Object(choice),
        choice.dom().contains("message"@),
        choice["message"@] == Json::Object(members_of(*old(msg))),
        call_ensures(transform_response, (response,), ()),
        call_ensures(transform_message, (msg,), ()),
    ensures
        json_of(*final(response)) == Json::Object(
            top.insert(
                "choices"@,
                Json::Array(
                    choices.update(
                        0,
                        Json::Object(
                            choice.insert("message"@, Json::Object(members_of(*final(msg)))),
                        ),
                    ),
                ),
            ),
        ),
{
}

/// In any response whose first choice holds a message with a reasoning field, the client
/// finds the reasoning in a closed block at the head of the content, and no such field.
pub proof fn law_response_shows_the_reasoning(
    response: &mut serde_json::Value,
    top: Map<Seq<char>, Json>,
    choices: Seq<Json>,
    choice: Map<Seq<char>, Json>,
    message: Map<Seq<char>, Json>,
)
    requires
        json_of(*old(response)) == Json::Object(top),
        top.dom().contains("choices"@),
        top["choices"@] == Json::Array(choices),
        choices.len() > 0,
        choices[0] == Json::Object(choice),
        choice.dom().contains("message"@),
        choice["message"@] == Json::Object(message),
        message.dom().contains("reasoning"@) || message.dom().contains("reasoning_content"@),
        call_ensures(transform_response, (response,), ()),
    ensures
        json_of(*final(response)) == Json::Object(
            top.insert(
                "choices"@,
                Json::Array(
                    choices.update(
                        0,
                        Json::Object(
                            choice.insert(
                                "message"@,
                                Json::Object(
                                    message.remove("reasoning"@).remove(
                                        "reasoning_content"@,
                                    ).insert(
                                        "content"@,
                                        Json::Text(
                                            "<think>"@ + thought_in(message) + "</think>"@
                                                + text_at(message, "content"@),
                                        ),
                                    ),
                                ),
                            ),
                        ),
                    ),
                ),
            ),
        ),
{
    lemma_thought(message);
}

/// The first of the `choices` in `json` holds an object under `key`.
pub open spec fn holds_part(json: Json, key: Seq<char>) -> bool {
    &&& json is Object
    &&& json->Object_0.dom().contains("choices"@)
    &&& json->Object_0["choices"@] is Array
    &&& json->Object_0["choices"@]->Array_0.len() > 0
    &&& json->Object_0["choices"@]->Array_0[0] is Object
    &&& json->Object_0["choices"@]->Array_0[0]->Object_0.dom().contains(key)
    &&& json->Object_0["choices"@]->Array_0[0]->Object_0[key] is Object
}

/// A response without a message in its first choice stays as it is.
pub proof fn law_response_without_message_stays(response: &mut serde_json::Value)
    requires
        !holds_part(json_of(*old(response)), "message"@),
        call_ensures(transform_response, (response,), ()),
    ensures
        json_of(*final(response)) == json_of(*old(response)),
{
}

/// The text of a whole response is answered by the printed text of what the rewriting of a
/// response makes of its value; a text that is no JSON is answered by itself.
pub proof fn law_text_is_rewritten(
    json_str: &str,
    text: String,
    response: &mut serde_json::Value,
)
    requires
        call_ensures(transform_non_streaming, (json_str,), text),
        call_ensures(transform_response, (response,), ()),
    ensures
        json_of_text(json_str@) == Some(json_of(*old(response))) ==> text@ == text_of_json(
            json_of(*final(response)),
        ),
        json_of_text(json_str@) is None ==> text@ == json_str@,
{
}

// ---------------------------------------------------------------------------------------
// Streamed chunks

/// A stream starts outside a block.
pub proof fn law_stream_starts_outside(state: StreamState)
    requires
        call_ensures(StreamState::default, (), state),
    ensures
        !state.is_thinking,
{
}

/// What one chunk shows, in each of the eight cases, and where it leaves the stream.
pub proof fn law_next_text(reasoning: &str, content: &str, state: &mut StreamState, text: String)
    requires
        call_ensures(next_text, (reasoning, content, state), text),
    ensures
        reasoning@.len() == 0 && content@.len() == 0 ==> text@.len() == 0
            && final(state).is_thinking == old(state).is_thinking,
        reasoning@.len() > 0 && content@.len() == 0 && !old(state).is_thinking ==> text@
            == "<think>"@ + reasoning@ && final(state).is_thinking,
        reasoning@.len() > 0 && content@.len() == 0 && old(state).is_thinking ==> text@
            == reasoning@ && final(state).is_thinking,
        reasoning@.len() == 0 && content@.len() > 0 && !old(state).is_thinking ==> text@
            == content@ && !final(state).is_thinking,
        reasoning@.len() == 0 && content@.len() > 0 && old(state).is_thinking ==> text@
            == "</think>"@ + content@ && !final(state).is_thinking,
        reasoning@.len() > 0 && content@.len() > 0 && !old(state).is_thinking ==> text@
            == "<think>"@ + reasoning@ + "</think>"@ + content@ && !final(state).is_thinking,
        reasoning@.len() > 0 && content@.len() > 0 && old(state).is_thinking ==> text@
            == reasoning@ + "</think>"@ + content@ && !final(state).is_thinking,
{
    let none = Seq::<char>::empty();
    if reasoning@.len() == 0 {
        assert(reasoning@ =~= none);
    }
    if content@.len() == 0 {
        assert(content@ =~= none);
    }
    assert(none + reasoning@ =~= reasoning@);
    assert(reasoning@ + none =~= reasoning@);
    assert(none + content@ =~= content@);
    assert("<think>"@ + reasoning@ + none + none =~= "<think>"@ + reasoning@);
    assert(none + none + "</think>"@ =~= "</think>"@);
}

/// In any chunk whose first choice holds an object under `delta`, whatever else the chunk
/// and the choice hold, that object loses both reasoning fields and gets as its content the
/// text that the stream is due; nothing else changes. Where there is no text at all, the
/// content stays as it is.
pub proof fn law_chunk_is_rewritten_in_place(
    val: &mut serde_json::Value,
    state: &mut StreamState,
    top: Map<Seq<char>, Json>,
    choices: Seq<Json>,
    choice: Map<Seq<char>, Json>,
    delta: Map<Seq<char>, Json>,
    reasoning: &str,
    content: &str,
    text_state: &mut StreamState,
    text: String,
)
    requires
        json_of(*old(val)) == Json::Object(top),
        top.dom().contains("choices"@),
        top["choices"@] == Json::Array(choices),
        choices.len() > 0,
        choices[0] == Json::Object(choice),
        choice.dom().contains("delta"@),
        choice["delta"@] == Json::Object(delta),
        reasoning@ == thought_in(delta),
        content@ == text_at(delta, "content"@),
        old(text_state).is_thinking == old(state).is_thinking,
        call_ensures(transform_stream_chunk, (val, state), ()),
        call_ensures(next_text, (reasoning, content, text_state), text),
    ensures
        json_of(*final(val)) == Json::Object(
            top.insert(
                "choices"@,
                Json::Array(
                    choices.update(
                        0,
                        Json::Object(
                            choice.insert(
                                "delta"@,
                                Json::Object(
                                    if text@.len() > 0 {
                                        delta.remove("reasoning"@).remove(
                                            "reasoning_content"@,
                                        ).insert("content"@, Json::Text(text@))
                                    } else {
                                        delta.remove("reasoning"@).remove("reasoning_content"@)
                                    },
                                ),
                            ),
                        ),
                    ),
                ),
            ),
        ),
        final(state).is_thinking == final(text_state).is_thinking,
{
    lemma_thought(delta);
    law_next_text(reasoning, content, text_state, text);
    reveal_strlit("<think>");
    reveal_strlit("</think>");
}

/// A chunk whose delta holds the text `r` as its reasoning, in the newer field or, where
/// that one holds no text, in the older, and `c` as its content, either of them possibly
/// empty, comes out without either field. Its content is `r` and `c` with a `<think>` before
/// `r` where a block has to open, and a `</think>` before `c` where one has to close.
pub proof fn law_chunk_shows_what_it_held(
    val: &mut serde_json::Value,
    state: &mut StreamState,
    top: Map<Seq<char>, Json>,
    choices: Seq<Json>,
    choice: Map<Seq<char>, Json>,
    delta: Map<Seq<char>, Json>,
    after: Map<Seq<char>, Json>,
    r: Seq<char>,
    c: Seq<char>,
)
    requires
        json_of(*old(val)) == Json::Object(top),
        top.dom().contains("choices"@),
        top["choices"@] == Json::Array(choices),
        choices.len() > 0,
        choices[0] == Json::Object(choice),
        choice.dom().contains("delta"@),
        choice["delta"@] == Json::Object(delta),
        (delta.dom().contains("reasoning"@) && delta["reasoning"@] == Json::Text(r) && r.len() > 0)
            || ((!delta.dom().contains("reasoning"@) || delta["reasoning"@] !is Text
            || delta["reasoning"@]->Text_0.len() == 0) && ((delta.dom().contains(
            "reasoning_content"@,
        ) && delta["reasoning_content"@] == Json::Text(r)) || (r.len() == 0 && (
        !delta.dom().contains("reasoning_content"@) || delta["reasoning_content"@] !is Text)))),
        (delta.dom().contains("content"@) && delta["content"@] == Json::Text(c)) || (c.len() == 0
            && (!delta.dom().contains("content"@) || delta["content"@] !is Text)),
        call_ensures(transform_stream_chunk, (val, state), ()),
        after == json_of(
            *final(val),
        )->Object_0["choices"@]->Array_0[0]->Object_0["delta"@]->Object_0,
    ensures
        json_of(*final(val)) == Json::Object(
            top.insert(
                "choices"@,
                Json::Array(
                    choices.update(
                        0,
                        Json::Object(choice.insert("delta"@, Json::Object(after))),
                    ),
                ),
            ),
        ),
        r.len() == 0 && c.len() == 0 ==> after == delta.remove("reasoning"@).remove(
            "reasoning_content"@,
        ) && *final(state) == *old(state),
        r.len() > 0 && c.len() == 0 ==> final(state).is_thinking && after == delta.remove(
            "reasoning"@,
        ).remove("reasoning_content"@).insert(
            "content"@,
            Json::Text(
                if old(state).is_thinking {
                    r
                } else {
                    "<think>"@ + r
                },
            ),
        ),
        c.len() > 0 ==> !final(state).is_thinking && after == delta.remove("reasoning"@).remove(
            "reasoning_content"@,
        ).insert(
            "content"@,
            Json::Text(
                if r.len() == 0 {
                    if old(state).is_thinking {
                        "</think>"@ + c
                    } else {
                        c
                    }
                } else {
                    if old(state).is_thinking {
                        r + "</think>"@ + c
                    } else {
                        "<think>"@ + r + "</think>"@ + c
                    }
                },
            ),
        ),
{
    lemma_thought(delta);
    let none = Seq::<char>::empty();
    if r.len() == 0 {
        assert(r =~= none);
    }
    if c.len() == 0 {
        assert(c =~= none);
    }
    assert(none + r =~= r);
    assert(r + none + none =~= r);
    assert(none + none + none + c =~= c);
    assert("<think>"@ + r + none + none =~= "<think>"@ + r);
    assert(none + none + "</think>"@ =~= "</think>"@);
}

/// A chunk without a delta in its first choice stays as it is, and so does the stream.
pub proof fn law_chunk_without_delta_stays(val: &mut serde_json::Value, state: &mut StreamState)
    requires
        !holds_part(json_of(*old(val)), "delta"@),
        call_ensures(transform_stream_chunk, (val, state), ()),
    ensures
        json_of(*final(val)) == json_of(*old(val)),
        *final(state) == *old(state),
{
}

/// The event for a chunk is one line of data, with what the rewriting makes of the chunk,
/// and the blank line that ends the event.
pub proof fn law_event_is_ended(
    chunk: serde_json::Value,
    state: &mut StreamState,
    frame: String,
    val: &mut serde_json::Value,
    val_state: &mut StreamState,
)
    requires
        json_of(chunk) == json_of(*old(val)),
        old(state).is_thinking == old(val_state).is_thinking,
        call_ensures(chunk_frame, (chunk, state), frame),
        call_ensures(transform_stream_chunk, (val, val_state), ()),
    ensures
        frame@ == "data: "@ + text_of_json(json_of(*final(val))) + "\n\n"@,
        final(state).is_thinking == final(val_state).is_thinking,
{
}

// ---------------------------------------------------------------------------------------
// Lines of a stream

/// The characters that count as white space around a line.
pub open spec fn blank(c: char) -> bool {
    ||| c == ' ' || c == '\t' || c == '\n' || c == '\u{b}' || c == '\u{c}' || c == '\r'
    ||| c == '\u{85}' || c == '\u{a0}' || c == '\u{1680}'
    ||| '\u{2000}' <= c <= '\u{200a}'
    ||| c == '\u{2028}' || c == '\u{2029}' || c == '\u{202f}' || c == '\u{205f}'
    ||| c == '\u{3000}'
}

/// `line` is `core` with white space around it, and `core` has none at its ends.
pub open spec fn surrounds(
    line: Seq<char>,
    before: Seq<char>,
    core: Seq<char>,
    after: Seq<char>,
) -> bool {
    &&& line == before + core + after
    &&& forall|i: int| 0 <= i < before.len() ==> blank(#[trigger] before[i])
    &&& forall|i: int| 0 <= i < after.len() ==> blank(#[trigger] after[i])
    &&& core.len() > 0 ==> !blank(core.first()) && !blank(core.last())
}

/// Trimming such a line leaves its core.
proof fn lemma_core(line: Seq<char>, before: Seq<char>, core: Seq<char>, after: Seq<char>)
    requires
        surrounds(line, before, core, after),
    ensures
        crate::strings::trimmed(line) == core,
{
    assert(all_white_space(before)) by {
        assert forall|i: int| 0 <= i < before.len() implies crate::strings::is_white_space(
            #[trigger] before[i],
        ) by {
            assert(blank(before[i]));
        }
    }
    assert(all_white_space(after)) by {
        assert forall|i: int| 0 <= i < after.len() implies crate::strings::is_white_space(
            #[trigger] after[i],
        ) by {
            assert(blank(after[i]));
        }
    }
    lemma_trimmed_core(before, core, after);
}

/// A line that starts with `data: ` carries what stands behind.
proof fn lemma_data(core: Seq<char>, data: Seq<char>)
    requires
        core == "data: "@ + data,
    ensures
        "data: "@.is_prefix_of(core),
        core.skip("data: "@.len() as int) == data,
{
    assert(core.subrange(0, "data: "@.len() as int) =~= "data: "@);
    assert(core.skip("data: "@.len() as int) =~= data);
}

/// A line of white space is skipped.
pub proof fn law_blank_line_is_skipped(
    line: String,
    before: Seq<char>,
    after: Seq<char>,
    state: &mut StreamState,
    action: LineAction,
)
    requires
        surrounds(line@, before, Seq::empty(), after),
        call_ensures(process_line, (line, state), action),
    ensures
        action is Skip,
        *final(state) == *old(state),
{
    reveal_strlit("data: ");
    lemma_core(line@, before, Seq::empty(), after);
}

/// The `[DONE]` sentinel ends the stream.
pub proof fn law_sentinel_is_done(
    line: String,
    before: Seq<char>,
    after: Seq<char>,
    state: &mut StreamState,
    action: LineAction,
)
    requires
        surrounds(line@, before, "data: [DONE]"@, after),
        call_ensures(process_line, (line, state), action),
    ensures
        action is Done,
        *final(state) == *old(state),
{
    reveal_strlit("data: [DONE]");
    lemma_core(line@, before, "data: [DONE]"@, after);
}

/// A line whose data is JSON sends one ended event: `data: `, the printed text of what the
/// rewriting makes of the value, and two line feeds. The stream moves as the rewriting
/// moves it.
pub proof fn law_data_line_sends_an_event(
    line: String,
    before: Seq<char>,
    data: Seq<char>,
    after: Seq<char>,
    state: &mut StreamState,
    action: LineAction,
    val: &mut serde_json::Value,
    val_state: &mut StreamState,
)
    requires
        surrounds(line@, before, "data: "@ + data, after),
        "data: "@ + data != "data: [DONE]"@,
        json_of_text(data) == Some(json_of(*old(val))),
        old(state).is_thinking == old(val_state).is_thinking,
        call_ensures(process_line, (line, state), action),
        call_ensures(transform_stream_chunk, (val, val_state), ()),
    ensures
        action matches LineAction::Yield(bytes) && bytes_of(bytes) == encode_utf8(
            "data: "@ + text_of_json(json_of(*final(val))) + "\n\n"@,
        ),
        final(state).is_thinking == final(val_state).is_thinking,
{
    reveal_strlit("data: ");
    lemma_core(line@, before, "data: "@ + data, after);
    lemma_data("data: "@ + data, data);
}

/// A line whose data is no JSON sends the error event, and the stream goes on where it is.
pub proof fn law_malformed_line_sends_the_error_event(
    line: String,
    before: Seq<char>,
    data: Seq<char>,
    after: Seq<char>,
    state: &mut StreamState,
    action: LineAction,
)
    requires
        surrounds(line@, before, "data: "@ + data, after),
        "data: "@ + data != "data: [DONE]"@,
        json_of_text(data) is None,
        call_ensures(process_line, (line, state), action),
    ensures
        action matches LineAction::Yield(bytes) && bytes_of(bytes) == encode_utf8(
            "data: {\"error\": \"Proxy Parse Error\"}\n\n"@,
        ),
        *final(state) == *old(state),
{
    reveal_strlit("data: ");
    lemma_core(line@, before, "data: "@ + data, after);
    lemma_data("data: "@ + data, data);
}

/// Any other line is passed on with one line feed behind it and no white space around it.
pub proof fn law_other_line_passes(
    line: String,
    before: Seq<char>,
    core: Seq<char>,
    after: Seq<char>,
    state: &mut StreamState,
    action: LineAction,
)
    requires
        surrounds(line@, before, core, after),
        core.len() > 0,
        forall|data: Seq<char>| core != #[trigger] ("data: "@ + data),
        call_ensures(process_line, (line, state), action),
    ensures
        action matches LineAction::Yield(bytes) && bytes_of(bytes) == encode_utf8(core + "\n"@),
        *final(state) == *old(state),
{
    lemma_core(line@, before, core, after);
    if "data: "@.is_prefix_of(core) {
        let data = core.skip("data: "@.len() as int);
        assert("data: "@ + data =~= core) by {
            assert(core.subrange(0, "data: "@.len() as int) == "data: "@);
            assert("data: "@ + data =~= core.subrange(0, "data: "@.len() as int) + data);
        }
    }
    assert("data: [DONE]"@ == "data: "@ + "[DONE]"@) by {
        reveal_strlit("data: [DONE]");
        reveal_strlit("data: ");
        reveal_strlit("[DONE]");
        assert("data: [DONE]"@ =~= "data: "@ + "[DONE]"@);
    }
}

/// What a step of the stream sends is what the line asks for: its bytes, nothing for a
/// skipped line, and for the sentinel the event that ends the client's stream. The stream
/// moves as the line moves it.
pub proof fn law_step_follows_the_line(
    line: String,
    state: &mut StreamState,
    step: StreamStep,
    line_state: &mut StreamState,
    action: LineAction,
)
    requires
        old(state).is_thinking == old(line_state).is_thinking,
        call_ensures(stream_step, (LineEvent::Line(line), state), step),
        call_ensures(process_line, (line, line_state), action),
    ensures
        final(state).is_thinking == final(line_state).is_thinking,
        action is Skip ==> step is Wait,
        action is Done ==> (step matches StreamStep::SendAndEnd(bytes) && bytes_of(bytes)
            == encode_utf8("data: [DONE]\n\n"@)),
        action matches LineAction::Yield(sent) ==> match step {
            StreamStep::Send(bytes) => bytes_of(bytes) == bytes_of(sent),
            StreamStep::Report(_, bytes) => bytes_of(bytes) == bytes_of(sent),
            _ => false,
        },
{
}

/// A step reports data if and only if the line carries data that is no JSON, and then it
/// reports that data.
pub proof fn law_malformed_data_is_reported(
    line: String,
    before: Seq<char>,
    core: Seq<char>,
    after: Seq<char>,
    state: &mut StreamState,
    step: StreamStep,
)
    requires
        surrounds(line@, before, core, after),
        call_ensures(stream_step, (LineEvent::Line(line), state), step),
    ensures
        step is Report ==> core == "data: "@ + step->Report_0.data@ && core != "data: [DONE]"@
            && json_of_text(step->Report_0.data@) is None,
        forall|data: Seq<char>|
            core == #[trigger] ("data: "@ + data) && core != "data: [DONE]"@ && json_of_text(
                data,
            ) is None ==> step is Report,
{
    reveal_strlit("data: ");
    lemma_core(line@, before, core, after);
    if "data: "@.is_prefix_of(core) {
        let data = core.skip("data: "@.len() as int);
        assert("data: "@ + data =~= core) by {
            assert(core.subrange(0, "data: "@.len() as int) == "data: "@);
            assert("data: "@ + data =~= core.subrange(0, "data: "@.len() as int) + data);
        }
    }
    assert forall|data: Seq<char>|
        core == #[trigger] ("data: "@ + data) && core != "data: [DONE]"@ && json_of_text(
            data,
        ) is None implies step is Report by {
        lemma_data(core, data);
    }
}

/// A broken upstream fails the client's stream, an ended one ends it, and neither moves it.
pub proof fn law_end_of_the_upstream(event: LineEvent, state: &mut StreamState, step: StreamStep)
    requires
        call_ensures(stream_step, (event, state), step),
    ensures
        event is Failed ==> step is Fail && *final(state) == *old(state),
        event is Ended ==> step is End && *final(state) == *old(state),
        event is Line ==> step !is Fail && step !is End,
{
}

// ---------------------------------------------------------------------------------------
// Headers

/// A row of headers, name and value by name and value.
pub open spec fn row(headers: Seq<Header>) -> Seq<(Seq<char>, Seq<u8>)> {
    Seq::new(headers.len(), |i: int| (headers[i].name@, headers[i].value@))
}

/// The contracts read a row of headers in the same way.
proof fn lemma_row(headers: Seq<Header>)
    ensures
        lines_of(headers) == row(headers),
{
    assert(lines_of(headers) =~= row(headers));
}

/// A name starts with the two characters of `x-`.
proof fn lemma_x_prefix(name: Seq<char>)
    ensures
        "x-"@.is_prefix_of(name) <==> name.len() >= 2 && name[0] == 'x' && name[1] == '-',
{
    reveal_strlit("x-");
    if name.len() >= 2 {
        let start = name.subrange(0, 2);
        assert(start[0] == name[0] && start[1] == name[1]);
        if name[0] == 'x' && name[1] == '-' {
            assert(start =~= "x-"@);
        }
    }
}

/// A header goes to the upstream if and only if its name is one of four, or starts with
/// `x-`.
pub proof fn law_names_for_the_upstream(name: &str, forwards: bool)
    requires
        call_ensures(forwards_to_upstream, (name,), forwards),
    ensures
        forwards <==> name@ == "authorization"@ || name@ == "content-type"@ || name@
            == "user-agent"@ || name@ == "accept"@ || (name@.len() >= 2 && name@[0] == 'x'
            && name@[1] == '-'),
{
    lemma_x_prefix(name@);
}

/// A header goes to the client if and only if its name is none of three.
pub proof fn law_names_for_the_client(name: &str, forwards: bool)
    requires
        call_ensures(forwards_to_client, (name,), forwards),
    ensures
        forwards <==> name@ != "transfer-encoding"@ && name@ != "content-encoding"@ && name@
            != "content-length"@,
{
}

/// Of a row for the upstream, exactly those lines are kept that go there, each as often as
/// it occurs and in its order.
proof fn lemma_upstream_row(lines: Seq<(Seq<char>, Seq<u8>)>)
    ensures
        crate::headers::request_lines(lines) == lines.filter(
            |line: (Seq<char>, Seq<u8>)|
                line.0 == "authorization"@ || line.0 == "content-type"@ || line.0
                    == "user-agent"@ || line.0 == "accept"@ || (line.0.len() >= 2 && line.0[0]
                    == 'x' && line.0[1] == '-'),
        ),
{
    let ours = |line: (Seq<char>, Seq<u8>)|
        line.0 == "authorization"@ || line.0 == "content-type"@ || line.0 == "user-agent"@
            || line.0 == "accept"@ || (line.0.len() >= 2 && line.0[0] == 'x' && line.0[1] == '-');
    let theirs = |line: (Seq<char>, Seq<u8>)| crate::headers::goes_upstream(line.0);
    assert forall|line: (Seq<char>, Seq<u8>)| #[trigger] ours(line) == theirs(line) by {
        lemma_x_prefix(line.0);
    }
    assert(ours =~= theirs);
}

/// The same for a row for the client.
proof fn lemma_client_row(lines: Seq<(Seq<char>, Seq<u8>)>)
    ensures
        crate::headers::reply_lines(lines) == lines.filter(
            |line: (Seq<char>, Seq<u8>)|
                line.0 != "transfer-encoding"@ && line.0 != "content-encoding"@ && line.0
                    != "content-length"@,
        ),
{
    let ours = |line: (Seq<char>, Seq<u8>)|
        line.0 != "transfer-encoding"@ && line.0 != "content-encoding"@ && line.0
            != "content-length"@;
    let theirs = |line: (Seq<char>, Seq<u8>)| !crate::headers::stays_upstream(line.0);
    assert(ours =~= theirs);
}

/// The upstream gets those lines of a request, and no others, whose name is one of four or
/// starts with `x-`: each as often as it occurs, with its value, in its order.
pub proof fn law_request_takes_its_headers_along(
    map: &axum::http::HeaderMap,
    selected: Vec<Header>,
)
    requires
        call_ensures(prepare_upstream_headers, (map,), selected),
    ensures
        row(selected@) == headers_of(*map).filter(
            |line: (Seq<char>, Seq<u8>)|
                line.0 == "authorization"@ || line.0 == "content-type"@ || line.0
                    == "user-agent"@ || line.0 == "accept"@ || (line.0.len() >= 2 && line.0[0]
                    == 'x' && line.0[1] == '-'),
        ),
{
    lemma_row(selected@);
    lemma_upstream_row(headers_of(*map));
}

/// The client gets those lines of a reply, and no others, that state neither the length nor
/// the encoding of the upstream's body: each as often as it occurs, with its value, in its
/// order.
pub proof fn law_reply_brings_its_headers_back(
    map: &axum::http::HeaderMap,
    selected: Vec<Header>,
)
    requires
        call_ensures(copy_response_headers, (map,), selected),
    ensures
        row(selected@) == headers_of(*map).filter(
            |line: (Seq<char>, Seq<u8>)|
                line.0 != "transfer-encoding"@ && line.0 != "content-encoding"@ && line.0
                    != "content-length"@,
        ),
{
    lemma_row(selected@);
    lemma_client_row(headers_of(*map));
}

/// The same two laws for rows of headers.
pub proof fn law_rows_are_selected(
    headers: &Vec<Header>,
    for_upstream: Vec<Header>,
    for_client: Vec<Header>,
)
    requires
        call_ensures(select_for_upstream, (headers,), for_upstream),
        call_ensures(select_for_client, (headers,), for_client),
    ensures
        row(for_upstream@) == row(headers@).filter(
            |line: (Seq<char>, Seq<u8>)|
                line.0 == "authorization"@ || line.0 == "content-type"@ || line.0
                    == "user-agent"@ || line.0 == "accept"@ || (line.0.len() >= 2 && line.0[0]
                    == 'x' && line.0[1] == '-'),
        ),
        row(for_client@) == row(headers@).filter(
            |line: (Seq<char>, Seq<u8>)|
                line.0 != "transfer-encoding"@ && line.0 != "content-encoding"@ && line.0
                    != "content-length"@,
        ),
{
    lemma_row(headers@);
    lemma_row(for_upstream@);
    lemma_row(for_client@);
    lemma_upstream_row(row(headers@));
    lemma_client_row(row(headers@));
}

// ---------------------------------------------------------------------------------------
// The exchange

/// A request that cannot be read is answered with 400, an upstream that cannot be reached
/// or read with 502, and a reply that cannot be built with 500.
pub proof fn law_refusals(failure: Failure, status: u16)
    requires
        call_ensures(refusal, (failure,), status),
    ensures
        failure is RequestBody ==> status == 400,
        failure is Upstream ==> status == 502,
        failure is ReplyBody ==> status == 502,
        failure is Reply ==> status == 500,
{
}

/// The upstream's address is the head of the URI, and the path and query, where there are
/// any, are all the rest.
pub proof fn law_uri_is_address_and_path(
    upstream_url: &str,
    path_and_query: Option<&str>,
    uri: String,
)
    requires
        call_ensures(upstream_uri, (upstream_url, path_and_query), uri),
    ensures
        path_and_query matches Some(path) ==> uri@ == upstream_url@ + path@,
        path_and_query is None ==> uri@ == upstream_url@,
{
    assert(upstream_url@ + Seq::<char>::empty() =~= upstream_url@);
}

/// A request is forwarded with its body as it is, to the address with its path and query,
/// with the headers that go along; it is a stream if and only if its body asks for one.
pub proof fn law_request_is_forwarded(
    upstream_url: &str,
    path_and_query: Option<&str>,
    map: &axum::http::HeaderMap,
    body: bytes::Bytes,
    request: UpstreamRequest,
    uri: String,
    selected: Vec<Header>,
    content: &[u8],
    asks: bool,
)
    requires
        content@ == bytes_of(body),
        call_ensures(forward_request, (upstream_url, path_and_query, map, body), request),
        call_ensures(upstream_uri, (upstream_url, path_and_query), uri),
        call_ensures(prepare_upstream_headers, (map,), selected),
        call_ensures(is_streaming, (content,), asks),
    ensures
        request.uri@ == uri@,
        row(request.headers@) == row(selected@),
        bytes_of(request.body) == bytes_of(body),
        request.streaming == asks,
{
    lemma_row(request.headers@);
    lemma_row(selected@);
}

/// A reply has the upstream's status, its headers that go to the client and then its own
/// content type. It is a stream if and only if one was asked for.
pub proof fn law_reply_has_the_upstreams_head(
    streaming: bool,
    status: u16,
    map: &axum::http::HeaderMap,
    reply: Reply,
    selected: Vec<Header>,
)
    requires
        call_ensures(begin_reply, (streaming, status, map), reply),
        call_ensures(copy_response_headers, (map,), selected),
    ensures
        streaming ==> (reply matches Reply::Stream(head) && head.status == status && row(
            head.headers@,
        ) == row(selected@).push(("content-type"@, encode_utf8("text/event-stream"@)))),
        !streaming ==> (reply matches Reply::Text(head) && head.status == status && row(
            head.headers@,
        ) == row(selected@).push(("content-type"@, encode_utf8("application/json"@)))),
{
    lemma_row(selected@);
    match reply {
        Reply::Stream(head) => lemma_row(head.headers@),
        Reply::Text(head) => lemma_row(head.headers@),
    }
}

/// A whole reply keeps its head, has the rewritten text as its body, and states the length
/// of that body in bytes.
pub proof fn law_reply_is_finished(head: ReplyHead, text: &str, reply: TextReply, body: String)
    requires
        call_ensures(finish_reply, (head, text), reply),
        call_ensures(transform_non_streaming, (text,), body),
    ensures
        reply.head == head,
        reply.body@ == body@,
        reply.content_length == encode_utf8(body@).len(),
{
}

} // verus!
