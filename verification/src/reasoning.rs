//! Reasoning fields become `<think>` tags, in whole messages and in streamed chunks.
//!
//! A server sends the reasoning of a model under `reasoning` or, in the older form,
//! under `reasoning_content`. Where both are there, `reasoning` counts if it holds text, and
//! `reasoning_content` otherwise. Neither field stays.

use vstd::prelude::*;

use crate::json;
use crate::json::{items_of, json_of, json_of_bytes, json_of_text, lookup, member, members_of,
    nested_within, nesting_limit, parses_again, text_of_json, Json};

verus! {

/// Where a stream stands: inside a `<think>` block or outside.
pub struct StreamState {
    pub is_thinking: bool,
}

impl Default for StreamState {
    /// A stream starts outside a `<think>` block.
    fn default() -> (state: Self)
        ensures
            state == (StreamState { is_thinking: false }),
    {
        StreamState { is_thinking: false }
    }
}

/// The text of a JSON string; nothing for a missing value and for any other.
pub open spec fn text_or_empty(json: Option<Json>) -> Seq<char> {
    match json {
        Some(Json::Text(text)) => text,
        _ => Seq::empty(),
    }
}

/// The field that the reasoning in `members` is taken from: the newer one, unless it holds
/// no text and the older one is there.
pub open spec fn reasoning_key(members: Map<Seq<char>, Json>) -> Seq<char> {
    if text_or_empty(lookup(members, "reasoning"@)).len() == 0 && members.dom().contains(
        "reasoning_content"@,
    ) {
        "reasoning_content"@
    } else {
        "reasoning"@
    }
}

/// What the reasoning field holds, if there is one.
pub open spec fn reasoning_in(members: Map<Seq<char>, Json>) -> Option<Json> {
    lookup(members, reasoning_key(members))
}

/// The members without the two reasoning fields.
pub open spec fn without_reasoning(members: Map<Seq<char>, Json>) -> Map<Seq<char>, Json> {
    members.remove("reasoning"@).remove("reasoning_content"@)
}

/// The text of the reasoning field.
pub open spec fn reasoning_text(members: Map<Seq<char>, Json>) -> Seq<char> {
    text_or_empty(reasoning_in(members))
}

/// The text of the `content` field.
pub open spec fn content_text(members: Map<Seq<char>, Json>) -> Seq<char> {
    text_or_empty(lookup(members, "content"@))
}

/// A whole reasoning in tags, ahead of the content.
pub open spec fn wrapped(reasoning: Seq<char>, content: Seq<char>) -> Seq<char> {
    "<think>"@ + reasoning + "</think>"@ + content
}

/// A message whose reasoning, if it has one, has moved into its content.
pub open spec fn message_after(members: Map<Seq<char>, Json>) -> Map<Seq<char>, Json> {
    if reasoning_in(members) is Some {
        without_reasoning(members).insert(
            "content"@,
            Json::Text(wrapped(reasoning_text(members), content_text(members))),
        )
    } else {
        members
    }
}

/// A chunk opens a `<think>` block: it has reasoning, and no block is open.
pub open spec fn opens_block(reasoning: Seq<char>, state: StreamState) -> bool {
    reasoning.len() > 0 && !state.is_thinking
}

/// A chunk closes a `<think>` block: it has content, and a block was open or is opened by
/// the chunk itself.
pub open spec fn closes_block(
    reasoning: Seq<char>,
    content: Seq<char>,
    state: StreamState,
) -> bool {
    content.len() > 0 && (reasoning.len() > 0 || state.is_thinking)
}

/// What a client is shown of one chunk with this reasoning and content: a tag opens
/// before reasoning and closes before content, unless the stream is there already.
pub open spec fn chunk_text(reasoning: Seq<char>, content: Seq<char>, state: StreamState) -> Seq<
    char,
> {
    let opening = if opens_block(reasoning, state) {
        "<think>"@
    } else {
        Seq::empty()
    };
    let closing = if closes_block(reasoning, content, state) {
        "</think>"@
    } else {
        Seq::empty()
    };
    opening + reasoning + closing + content
}

/// Where the stream stands after such a chunk.
pub open spec fn state_after(
    reasoning: Seq<char>,
    content: Seq<char>,
    state: StreamState,
) -> StreamState {
    StreamState { is_thinking: content.len() == 0 && (reasoning.len() > 0 || state.is_thinking) }
}

/// The delta of a chunk after its reasoning has moved into its content. The reasoning
/// fields go in any case; the content is written only where there is text for it.
pub open spec fn delta_after(members: Map<Seq<char>, Json>, state: StreamState) -> Map<
    Seq<char>,
    Json,
> {
    let reasoning = reasoning_text(members);
    let content = content_text(members);
    if reasoning.len() == 0 && content.len() == 0 {
        without_reasoning(members)
    } else {
        without_reasoning(members).insert(
            "content"@,
            Json::Text(chunk_text(reasoning, content, state)),
        )
    }
}

/// The first of the `choices` in a response, if that is an object.
pub open spec fn first_choice(json: Json) -> Option<Map<Seq<char>, Json>> {
    match member(json, "choices"@) {
        Some(Json::Array(choices)) => if choices.len() > 0 {
            match choices[0] {
                Json::Object(choice) => Some(choice),
                _ => None,
            }
        } else {
            None
        },
        _ => None,
    }
}

/// The object under `key` in the first choice: the `message` of a response, the `delta`
/// of a chunk.
pub open spec fn choice_part(json: Json, key: Seq<char>) -> Option<Map<Seq<char>, Json>> {
    match first_choice(json) {
        Some(choice) => match lookup(choice, key) {
            Some(Json::Object(part)) => Some(part),
            _ => None,
        },
        None => None,
    }
}

/// The response with another object under `key` in its first choice, all else the same.
pub open spec fn with_choice_part(json: Json, key: Seq<char>, part: Map<Seq<char>, Json>) -> Json {
    let top = json->Object_0;
    let choices = top["choices"@]->Array_0;
    let choice = choices[0]->Object_0;
    Json::Object(
        top.insert(
            "choices"@,
            Json::Array(
                choices.update(0, Json::Object(choice.insert(key, Json::Object(part)))),
            ),
        ),
    )
}

/// A whole response after its first message has been rewritten, if it has one.
pub open spec fn response_after(json: Json) -> Json {
    match choice_part(json, "message"@) {
        Some(message) => with_choice_part(json, "message"@, message_after(message)),
        None => json,
    }
}

/// A streamed chunk after its first delta has been rewritten, if it has one.
pub open spec fn chunk_after(json: Json, state: StreamState) -> Json {
    match choice_part(json, "delta"@) {
        Some(delta) => with_choice_part(json, "delta"@, delta_after(delta, state)),
        None => json,
    }
}

/// Where the stream stands after a chunk.
pub open spec fn chunk_state_after(json: Json, state: StreamState) -> StreamState {
    match choice_part(json, "delta"@) {
        Some(delta) => state_after(reasoning_text(delta), content_text(delta), state),
        None => state,
    }
}

/// A request asks for a stream: it is an object whose `stream` is `true`.
pub open spec fn asks_for_stream(json: Json) -> bool {
    member(json, "stream"@) == Some(Json::Bool(true))
}

/// Does a parsed request ask for a stream?
pub fn stream_flag(request: &serde_json::Value) -> (streaming: bool)
    ensures
        streaming == asks_for_stream(json_of(*request)),
{
    match json::get(request, "stream") {
        Some(flag) => match flag.as_bool() {
            Some(streaming) => streaming,
            None => false,
        },
        None => false,
    }
}

/// Does the body of a request ask for a stream? One that is no JSON does not.
pub fn is_streaming(body: &[u8]) -> (streaming: bool)
    ensures
        streaming == (match json_of_bytes(body@) {
            Some(request) => asks_for_stream(request),
            None => false,
        }),
{
    match json::parse_bytes(body) {
        Ok(request) => stream_flag(&request),
        Err(_) => false,
    }
}

/// A part that is put back as it was leaves the whole as it was, and a changed first
/// item is a changed first item of what the items say.
proof fn lemma_put_back()
    ensures
        forall|members: Map<Seq<char>, Json>, key: Seq<char>|
            members.dom().contains(key) ==> #[trigger] members.insert(key, members[key])
                == members,
        forall|values: Seq<serde_json::Value>, value: serde_json::Value|
            values.len() > 0 ==> items_of(#[trigger] values.update(0, value)) == items_of(
                values,
            ).update(0, json_of(value)),
        forall|items: Seq<Json>|
            items.len() > 0 ==> #[trigger] items.update(0, items[0]) == items,
        forall|values: Seq<serde_json::Value>|
            values.len() == 0 ==> #[trigger] items_of(values) == Seq::<Json>::empty(),
{
    assert forall|members: Map<Seq<char>, Json>, key: Seq<char>|
        members.dom().contains(key) implies #[trigger] members.insert(key, members[key])
        == members by {
        assert(members.insert(key, members[key]) =~= members);
    }
    assert forall|values: Seq<serde_json::Value>, value: serde_json::Value|
        values.len() > 0 implies items_of(#[trigger] values.update(0, value)) == items_of(
        values,
    ).update(0, json_of(value)) by {
        assert(items_of(values.update(0, value)) =~= items_of(values).update(0, json_of(value)));
    }
    assert forall|items: Seq<Json>| items.len() > 0 implies #[trigger] items.update(0, items[0])
        == items by {
        assert(items.update(0, items[0]) =~= items);
    }
    assert forall|values: Seq<serde_json::Value>| values.len() == 0 implies #[trigger] items_of(
        values,
    ) == Seq::<Json>::empty() by {
        assert(items_of(values) =~= Seq::<Json>::empty());
    }
}

/// The object under `key` in the first choice, to be changed in place.
fn choice_part_mut<'a>(value: &'a mut serde_json::Value, key: &str) -> (result: Option<
    &'a mut serde_json::Map<String, serde_json::Value>,
>)
    ensures
        match choice_part(json_of(*old(value)), key@) {
            Some(part) => {
                &&& result is Some
                &&& members_of(*result->0) == part
                &&& json_of(*final(value)) == with_choice_part(
                    json_of(*old(value)),
                    key@,
                    members_of(*final(result->0)),
                )
            },
            None => result is None && json_of(*final(value)) == json_of(*old(value)),
        },
{
    proof {
        lemma_put_back();
    }
    let choices = json::get_mut(value, "choices")?.as_array_mut()?;
    json::get_mut(choices.first_mut()?, key)?.as_object_mut()
}

/// Another part in the first choice that holds only what the old one held, and texts,
/// leaves a value within the nesting that it kept before.
proof fn lemma_nesting_kept(json: Json, key: Seq<char>, part: Map<Seq<char>, Json>, levels: nat)
    requires
        choice_part(json, key) is Some,
        nested_within(json, levels),
        forall|k: Seq<char>|
            part.dom().contains(k) ==> #[trigger] part[k] is Text || (
            choice_part(json, key)->0.dom().contains(k) && part[k] == choice_part(
                json,
                key,
            )->0[k]),
    ensures
        nested_within(with_choice_part(json, key, part), levels),
{
    let top = json->Object_0;
    let choices = top["choices"@]->Array_0;
    let choice = choices[0]->Object_0;
    let old_part = choice[key]->Object_0;
    assert(nested_within(top["choices"@], (levels - 1) as nat));
    assert(nested_within(choices[0], (levels - 2) as nat));
    assert(nested_within(choice[key], (levels - 3) as nat));
    assert forall|k: Seq<char>| part.dom().contains(k) implies nested_within(
        #[trigger] part[k],
        (levels - 4) as nat,
    ) by {
        if part[k] !is Text {
            assert(nested_within(old_part[k], (levels - 4) as nat));
        }
    }
    assert(nested_within(Json::Object(part), (levels - 3) as nat));
    let new_choice = choice.insert(key, Json::Object(part));
    assert(nested_within(Json::Object(new_choice), (levels - 2) as nat));
    let new_choices = choices.update(0, Json::Object(new_choice));
    assert(nested_within(Json::Array(new_choices), (levels - 1) as nat));
}

/// Rewriting a response keeps it within the nesting that it kept before.
proof fn lemma_response_nesting(response: Json, levels: nat)
    requires
        nested_within(response, levels),
    ensures
        nested_within(response_after(response), levels),
{
    if let Some(message) = choice_part(response, "message"@) {
        lemma_nesting_kept(response, "message"@, message_after(message), levels);
    }
}

/// Rewriting a chunk keeps it within the nesting that it kept before.
pub(crate) proof fn lemma_chunk_nesting(chunk: Json, state: StreamState, levels: nat)
    requires
        nested_within(chunk, levels),
    ensures
        nested_within(chunk_after(chunk, state), levels),
{
    if let Some(delta) = choice_part(chunk, "delta"@) {
        lemma_nesting_kept(chunk, "delta"@, delta_after(delta, state), levels);
    }
}

/// The delta of a chunk, to be changed in place.
fn get_mut_delta(value: &mut serde_json::Value) -> (result: Option<
    &mut serde_json::Map<String, serde_json::Value>,
>)
    ensures
        match choice_part(json_of(*old(value)), "delta"@) {
            Some(delta) => {
                &&& result is Some
                &&& members_of(*result->0) == delta
                &&& json_of(*final(value)) == with_choice_part(
                    json_of(*old(value)),
                    "delta"@,
                    members_of(*final(result->0)),
                )
            },
            None => result is None && json_of(*final(value)) == json_of(*old(value)),
        },
{
    choice_part_mut(value, "delta")
}

/// The three fields that matter are three different fields.
pub(crate) proof fn lemma_keys_differ()
    ensures
        "content"@ != "reasoning"@,
        "content"@ != "reasoning_content"@,
        "reasoning"@ != "reasoning_content"@,
{
    reveal_strlit("content");
    reveal_strlit("reasoning");
    reveal_strlit("reasoning_content");
    assert("content"@.len() == 7 && "reasoning"@.len() == 9 && "reasoning_content"@.len() == 17);
}

/// Takes both reasoning fields out of a message or a delta, and returns the one that
/// counts.
fn take_reasoning(members: &mut serde_json::Map<String, serde_json::Value>) -> (result: Option<
    serde_json::Value,
>)
    ensures
        members_of(*final(members)) == without_reasoning(members_of(*old(members))),
        match reasoning_in(members_of(*old(members))) {
            Some(json) => result is Some && json_of(result->0) == json,
            None => result is None,
        },
{
    proof {
        lemma_keys_differ();
    }
    let newer = json::remove_member(members, "reasoning");
    let older = json::remove_member(members, "reasoning_content");
    if !as_text(newer.as_ref()).is_empty() {
        return newer;
    }
    match older {
        Some(value) => Some(value),
        None => newer,
    }
}

/// The text of a JSON string; nothing for a missing value and for any other.
fn as_text(value: Option<&serde_json::Value>) -> (text: &str)
    ensures
        text@ == text_or_empty(
            match value {
                Some(value) => Some(json_of(*value)),
                None => None,
            },
        ),
{
    proof {
        reveal_strlit("");
        assert(""@ =~= Seq::<char>::empty());
    }
    match value {
        Some(value) => match value.as_str() {
            Some(text) => text,
            None => "",
        },
        None => "",
    }
}

/// Puts a whole reasoning in tags, ahead of the content.
pub fn wrap_reasoning(reasoning: &str, content: &str) -> (text: String)
    ensures
        text@ == wrapped(reasoning@, content@),
{
    let mut text = String::new();
    text.append("<think>");
    text.append(reasoning);
    text.append("</think>");
    text.append(content);
    proof {
        assert(Seq::<char>::empty() + "<think>"@ =~= "<think>"@);
    }
    text
}

/// Moves the reasoning of a message, if it has one, into its content.
pub fn transform_message(msg: &mut serde_json::Map<String, serde_json::Value>)
    ensures
        members_of(*final(msg)) == message_after(members_of(*old(msg))),
{
    proof {
        lemma_keys_differ();
    }
    match take_reasoning(msg) {
        Some(reasoning) => {
            let text = wrap_reasoning(
                as_text(Some(&reasoning)),
                as_text(json::get_member(msg, "content")),
            );
            let _ = json::insert_member(msg, "content".to_string(), json::text_value(text));
        },
        None => {
            proof {
                assert(members_of(*msg) =~= members_of(*old(msg)));
            }
        },
    }
}

/// Rewrites the first message of a parsed response.
pub fn transform_response(response: &mut serde_json::Value)
    ensures
        json_of(*final(response)) == response_after(json_of(*old(response))),
{
    if let Some(message) = choice_part_mut(response, "message") {
        transform_message(message);
    }
}

/// Rewrites a whole response: its text with the first message rewritten. A text that is
/// no JSON comes back as it is.
pub fn transform_non_streaming(json_str: &str) -> (text: String)
    ensures
        match json_of_text(json_str@) {
            Some(response) => {
                &&& text@ == text_of_json(response_after(response))
                &&& parses_again(text@, response_after(response))
            },
            None => text@ == json_str@,
        },
        json_of_text(text@) is Some <==> json_of_text(json_str@) is Some,
{
    match json::parse_text(json_str) {
        Ok(mut response) => {
            let ghost before = json_of(response);
            transform_response(&mut response);
            proof {
                lemma_response_nesting(before, nesting_limit());
            }
            json::print(&response)
        },
        Err(_) => json_str.to_string(),
    }
}

/// The text of one chunk for the client, with the tags that are due before each part.
pub fn next_text(reasoning: &str, content: &str, state: &mut StreamState) -> (text: String)
    ensures
        text@ == chunk_text(reasoning@, content@, *old(state)),
        *final(state) == state_after(reasoning@, content@, *old(state)),
{
    let mut text = String::new();
    if !reasoning.is_empty() {
        if !state.is_thinking {
            text.append("<think>");
            state.is_thinking = true;
        }
        text.append(reasoning);
    }
    if !content.is_empty() {
        if state.is_thinking {
            text.append("</think>");
            state.is_thinking = false;
        }
        text.append(content);
    }
    proof {
        assert(text@ =~= chunk_text(reasoning@, content@, *old(state)));
    }
    text
}

/// Rewrites the first delta of a streamed chunk, and moves the stream's state along.
pub fn transform_stream_chunk(val: &mut serde_json::Value, state: &mut StreamState)
    ensures
        json_of(*final(val)) == chunk_after(json_of(*old(val)), *old(state)),
        *final(state) == chunk_state_after(json_of(*old(val)), *old(state)),
{
    proof {
        lemma_keys_differ();
    }
    let Some(delta) = get_mut_delta(val) else {
        return;
    };
    let taken = take_reasoning(delta);
    let reasoning = as_text(taken.as_ref());
    let content = as_text(json::get_member(delta, "content"));
    if reasoning.is_empty() && content.is_empty() {
        return;
    }
    let text = next_text(reasoning, content, state);
    let _ = json::insert_member(delta, "content".to_string(), json::text_value(text));
}

} // verus!
