//! What holds of the library as a whole.

use vstd::prelude::*;

use crate::headers::{goes_upstream, lemma_own_headers_stay, reply_lines, request_lines,
    stays_upstream};
use crate::json::{lookup, member, Json};
use crate::reasoning::{choice_part, chunk_after, chunk_state_after, chunk_text, closes_block,
    content_text, delta_after, first_choice, lemma_keys_differ, message_after, opens_block,
    reasoning_in, reasoning_text, response_after, text_or_empty, with_choice_part,
    without_reasoning, wrapped, StreamState};
use crate::sse::{data_frame, done_frame, line_json, line_outcome, line_state_after, LineOutcome};
use crate::strings::{is_white_space, trimmed, trimmed_end, trimmed_start};

verus! {

/// A message or delta with neither reasoning field.
pub open spec fn no_reasoning_field(members: Map<Seq<char>, Json>) -> bool {
    !members.dom().contains("reasoning"@) && !members.dom().contains("reasoning_content"@)
}

/// A message comes out without a separate reasoning field.
pub proof fn law_reasoning_leaves_message(message: Map<Seq<char>, Json>)
    ensures
        no_reasoning_field(message_after(message)),
{
    lemma_keys_differ();
}

/// A delta comes out without a separate reasoning field.
pub proof fn law_reasoning_leaves_delta(delta: Map<Seq<char>, Json>, state: StreamState)
    ensures
        no_reasoning_field(delta_after(delta, state)),
{
    lemma_keys_differ();
}

/// No reasoning is passed over for a field without text: where one of the two fields holds
/// text, the reasoning is that text, and where both do, it is the newer one's.
pub proof fn law_text_counts_as_reasoning(members: Map<Seq<char>, Json>)
    ensures
        ({
            let newer = text_or_empty(lookup(members, "reasoning"@));
            let older = text_or_empty(lookup(members, "reasoning_content"@));
            reasoning_text(members) == if newer.len() > 0 {
                newer
            } else {
                older
            }
        }),
{
    let newer = text_or_empty(lookup(members, "reasoning"@));
    let older = text_or_empty(lookup(members, "reasoning_content"@));
    if newer.len() == 0 && !members.dom().contains("reasoning_content"@) {
        assert(newer =~= older);
    }
}

/// The content of a rewritten message is its reasoning inside `<think>` tags with its old
/// content behind them.
pub proof fn law_message_shows_reasoning(message: Map<Seq<char>, Json>)
    requires
        reasoning_in(message) is Some,
    ensures
        content_text(message_after(message)) == wrapped(
            reasoning_text(message),
            content_text(message),
        ),
{
}

/// The fields of a message or delta that are neither reasoning nor content stay as they
/// are.
pub proof fn law_other_fields_stay(
    members: Map<Seq<char>, Json>,
    state: StreamState,
    key: Seq<char>,
)
    requires
        key != "reasoning"@,
        key != "reasoning_content"@,
        key != "content"@,
    ensures
        lookup(message_after(members), key) == lookup(members, key),
        lookup(delta_after(members, state), key) == lookup(members, key),
{
}

/// Putting the part of the first choice back as it was changes nothing.
proof fn lemma_same_part(json: Json, key: Seq<char>)
    requires
        choice_part(json, key) is Some,
    ensures
        with_choice_part(json, key, choice_part(json, key)->0) == json,
{
    let top = json->Object_0;
    let choices = top["choices"@]->Array_0;
    let choice = choices[0]->Object_0;
    assert(choice.insert(key, choice[key]) =~= choice);
    assert(choices.update(0, choices[0]) =~= choices);
    assert(top.insert("choices"@, top["choices"@]) =~= top);
}

/// The part of the first choice that was put in is the one that is found.
proof fn lemma_new_part(json: Json, key: Seq<char>, part: Map<Seq<char>, Json>)
    requires
        choice_part(json, key) is Some,
    ensures
        choice_part(with_choice_part(json, key, part), key) == Some(part),
{
}

/// The client of a response with reasoning finds `<think>` tags in the content instead of
/// a separate reasoning field.
pub proof fn law_response_shows_tags(response: Json, message: Map<Seq<char>, Json>)
    requires
        choice_part(response, "message"@) == Some(message),
        reasoning_in(message) is Some,
    ensures
        choice_part(response_after(response), "message"@) matches Some(rewritten) && {
            &&& no_reasoning_field(rewritten)
            &&& lookup(rewritten, "content"@) == Some(
                Json::Text(wrapped(reasoning_text(message), content_text(message))),
            )
        },
{
    lemma_new_part(response, "message"@, message_after(message));
    law_reasoning_leaves_message(message);
}

/// A response whose message has no reasoning field passes unchanged.
pub proof fn law_plain_response_passes(response: Json)
    requires
        choice_part(response, "message"@) matches Some(message) ==> no_reasoning_field(message),
    ensures
        response_after(response) == response,
{
    if choice_part(response, "message"@) is Some {
        lemma_same_part(response, "message"@);
    }
}

/// Outside a `<think>` block, a chunk whose delta has no reasoning field passes unchanged
/// and leaves the stream where it is.
pub proof fn law_plain_chunk_passes(chunk: Json, state: StreamState)
    requires
        !state.is_thinking,
        choice_part(chunk, "delta"@) matches Some(delta) ==> no_reasoning_field(delta),
    ensures
        chunk_after(chunk, state) == chunk,
        chunk_state_after(chunk, state) == state,
{
    if let Some(delta) = choice_part(chunk, "delta"@) {
        let content = content_text(delta);
        assert(chunk_text(Seq::empty(), content, state) =~= content);
        assert(without_reasoning(delta) =~= delta);
        if content.len() > 0 {
            assert(delta.insert("content"@, delta["content"@]) =~= delta);
        }
        lemma_same_part(chunk, "delta"@);
    }
}

/// Rewriting a response that was rewritten changes nothing more.
pub proof fn law_rewriting_twice(response: Json)
    ensures
        response_after(response_after(response)) == response_after(response),
{
    if let Some(message) = choice_part(response, "message"@) {
        lemma_new_part(response, "message"@, message_after(message));
        law_reasoning_leaves_message(message);
    }
    law_plain_response_passes(response_after(response));
}

/// Two values agree but for the object under `key` in the first of their `choices`.
pub open spec fn same_but_choice_part(before: Json, after: Json, key: Seq<char>) -> bool {
    &&& forall|other: Seq<char>|
        other != "choices"@ ==> #[trigger] member(after, other) == member(before, other)
    &&& match (member(before, "choices"@), member(after, "choices"@)) {
        (Some(Json::Array(old_choices)), Some(Json::Array(new_choices))) => {
            &&& new_choices.len() == old_choices.len()
            &&& forall|i: int|
                0 < i < old_choices.len() ==> #[trigger] new_choices[i] == old_choices[i]
        },
        (old_choices, new_choices) => new_choices == old_choices,
    }
    &&& match (first_choice(before), first_choice(after)) {
        (Some(old_choice), Some(new_choice)) => forall|other: Seq<char>|
            other != key ==> #[trigger] lookup(new_choice, other) == lookup(old_choice, other),
        (old_choice, new_choice) => new_choice == old_choice,
    }
}

/// Of a response or chunk, only the message or delta of its first choice is rewritten.
pub proof fn law_only_first_choice_changes(json: Json, state: StreamState)
    ensures
        same_but_choice_part(json, response_after(json), "message"@),
        same_but_choice_part(json, chunk_after(json, state), "delta"@),
{
}

/// The reasoning that a streamed chunk carries.
pub open spec fn chunk_reasoning(chunk: Json) -> Seq<char> {
    match choice_part(chunk, "delta"@) {
        Some(delta) => reasoning_text(delta),
        None => Seq::empty(),
    }
}

/// The content that a streamed chunk carries.
pub open spec fn chunk_content(chunk: Json) -> Seq<char> {
    match choice_part(chunk, "delta"@) {
        Some(delta) => content_text(delta),
        None => Seq::empty(),
    }
}

/// Where a stream stands after these chunks.
pub open spec fn state_after_chunks(chunks: Seq<Json>, state: StreamState) -> StreamState
    decreases chunks.len(),
{
    if chunks.len() == 0 {
        state
    } else {
        chunk_state_after(chunks.last(), state_after_chunks(chunks.drop_last(), state))
    }
}

/// The chunks of a stream, rewritten one by one.
pub open spec fn chunks_after(chunks: Seq<Json>, state: StreamState) -> Seq<Json>
    decreases chunks.len(),
{
    if chunks.len() == 0 {
        Seq::empty()
    } else {
        chunks_after(chunks.drop_last(), state).push(
            chunk_after(chunks.last(), state_after_chunks(chunks.drop_last(), state)),
        )
    }
}

/// All the reasoning of a stream.
pub open spec fn stream_reasoning(chunks: Seq<Json>) -> Seq<char>
    decreases chunks.len(),
{
    if chunks.len() == 0 {
        Seq::empty()
    } else {
        stream_reasoning(chunks.drop_last()) + chunk_reasoning(chunks.last())
    }
}

/// All the content of a stream: what a client shows that knows no reasoning fields.
pub open spec fn stream_content(chunks: Seq<Json>) -> Seq<char>
    decreases chunks.len(),
{
    if chunks.len() == 0 {
        Seq::empty()
    } else {
        stream_content(chunks.drop_last()) + chunk_content(chunks.last())
    }
}

/// How many `<think>` tags are put into a stream.
pub open spec fn tags_opened(chunks: Seq<Json>, state: StreamState) -> int
    decreases chunks.len(),
{
    if chunks.len() == 0 {
        0
    } else {
        tags_opened(chunks.drop_last(), state) + if opens_block(
            chunk_reasoning(chunks.last()),
            state_after_chunks(chunks.drop_last(), state),
        ) {
            1int
        } else {
            0int
        }
    }
}

/// How many `</think>` tags are put into a stream.
pub open spec fn tags_closed(chunks: Seq<Json>, state: StreamState) -> int
    decreases chunks.len(),
{
    if chunks.len() == 0 {
        0
    } else {
        tags_closed(chunks.drop_last(), state) + if closes_block(
            chunk_reasoning(chunks.last()),
            chunk_content(chunks.last()),
            state_after_chunks(chunks.drop_last(), state),
        ) {
            1int
        } else {
            0int
        }
    }
}

/// The content of a rewritten chunk is the text that the chunk calls for.
pub proof fn law_chunk_shows_text(chunk: Json, state: StreamState)
    ensures
        chunk_content(chunk_after(chunk, state)) == chunk_text(
            chunk_reasoning(chunk),
            chunk_content(chunk),
            state,
        ),
{
    lemma_keys_differ();
    let empty = Seq::<char>::empty();
    assert(chunk_text(empty, empty, state) =~= empty);
    if let Some(delta) = choice_part(chunk, "delta"@) {
        lemma_new_part(chunk, "delta"@, delta_after(delta, state));
        if reasoning_text(delta).len() == 0 && content_text(delta).len() == 0 {
            assert(reasoning_text(delta) =~= empty && content_text(delta) =~= empty);
        }
    }
}

/// At every point of a stream that starts outside a `<think>` block, the tags that were
/// put in are balanced: all are closed, or all but the block that the stream stands in.
pub proof fn law_tags_balance(chunks: Seq<Json>)
    ensures
        tags_opened(chunks, StreamState { is_thinking: false }) - tags_closed(
            chunks,
            StreamState { is_thinking: false },
        ) == if state_after_chunks(chunks, StreamState { is_thinking: false }).is_thinking {
            1int
        } else {
            0int
        },
    decreases chunks.len(),
{
    if chunks.len() > 0 {
        law_tags_balance(chunks.drop_last());
    }
}

/// The tags in a text, from its start on: `true` for `<think>`, `false` for `</think>`.
pub open spec fn tags_in(text: Seq<char>) -> Seq<bool>
    decreases text.len(),
{
    proof {
        reveal_strlit("<think>");
        reveal_strlit("</think>");
    }
    if text.len() == 0 {
        Seq::empty()
    } else if "<think>"@.is_prefix_of(text) {
        seq![true] + tags_in(text.skip("<think>"@.len() as int))
    } else if "</think>"@.is_prefix_of(text) {
        seq![false] + tags_in(text.skip("</think>"@.len() as int))
    } else {
        tags_in(text.skip(1))
    }
}

/// Tags take turns, and the first one opens.
pub open spec fn take_turns(tags: Seq<bool>) -> bool {
    forall|i: int| 0 <= i < tags.len() ==> #[trigger] tags[i] == (i % 2 == 0)
}

/// The tags behind `text` can be read on their own: none of them starts inside `text`.
spec fn ends_between_tags(text: Seq<char>) -> bool {
    forall|rest: Seq<char>| #[trigger] tags_in(text + rest) == tags_in(text) + tags_in(rest)
}

/// A text without `<` holds no tag, nor the start of one.
proof fn lemma_plain_text(text: Seq<char>)
    requires
        !text.contains('<'),
    ensures
        tags_in(text) == Seq::<bool>::empty(),
        ends_between_tags(text),
    decreases text.len(),
{
    reveal_strlit("<think>");
    reveal_strlit("</think>");
    if text.len() > 0 {
        let tail = text.skip(1);
        assert(text[0] != '<');
        assert(!tail.contains('<')) by {
            if tail.contains('<') {
                let i = choose|i: int| 0 <= i < tail.len() && tail[i] == '<';
                assert(text[i + 1] == '<');
            }
        }
        lemma_plain_text(tail);
        assert forall|rest: Seq<char>| #[trigger] tags_in(text + rest) == tags_in(text)
            + tags_in(rest) by {
            let whole = text + rest;
            assert(whole[0] == text[0]);
            assert("<think>"@[0] == '<' && "</think>"@[0] == '<');
            assert(whole.skip(1) =~= tail + rest);
            assert(tags_in(tail + rest) == tags_in(tail) + tags_in(rest));
        }
        assert("<think>"@[0] == '<' && "</think>"@[0] == '<');
    } else {
        assert forall|rest: Seq<char>| #[trigger] tags_in(text + rest) == tags_in(text)
            + tags_in(rest) by {
            assert(text + rest =~= rest);
            assert(tags_in(text) + tags_in(rest) =~= tags_in(rest));
        }
    }
}

/// Each tag is one tag.
proof fn lemma_one_tag()
    ensures
        tags_in("<think>"@) == seq![true],
        ends_between_tags("<think>"@),
        tags_in("</think>"@) == seq![false],
        ends_between_tags("</think>"@),
{
    reveal_strlit("<think>");
    reveal_strlit("</think>");
    let none = Seq::<char>::empty();
    assert("<think>"@.len() == 7 && "</think>"@.len() == 8);
    assert("<think>"@[1] == 't' && "</think>"@[1] == '/');
    assert forall|rest: Seq<char>| #[trigger] tags_in("<think>"@ + rest) == seq![true] + tags_in(
        rest,
    ) by {
        let whole = "<think>"@ + rest;
        assert(whole.take(7) =~= "<think>"@);
        assert(whole.skip(7) =~= rest);
    }
    assert forall|rest: Seq<char>| #[trigger] tags_in("</think>"@ + rest) == seq![false]
        + tags_in(rest) by {
        let whole = "</think>"@ + rest;
        assert(whole[1] == '/');
        assert(whole.subrange(0, 7)[1] == whole[1]);
        assert(whole.take(8) =~= "</think>"@);
        assert(whole.skip(8) =~= rest);
    }
    assert("<think>"@ + none =~= "<think>"@);
    assert("</think>"@ + none =~= "</think>"@);
    assert(seq![true] + tags_in(none) =~= seq![true]);
    assert(seq![false] + tags_in(none) =~= seq![false]);
}

/// Two texts that end between tags do so together.
proof fn lemma_tags_joined(first: Seq<char>, second: Seq<char>)
    requires
        ends_between_tags(first),
        ends_between_tags(second),
    ensures
        tags_in(first + second) == tags_in(first) + tags_in(second),
        ends_between_tags(first + second),
{
    assert forall|rest: Seq<char>| #[trigger] tags_in((first + second) + rest) == tags_in(
        first + second,
    ) + tags_in(rest) by {
        assert((first + second) + rest =~= first + (second + rest));
        assert(tags_in(second + rest) == tags_in(second) + tags_in(rest));
        assert(tags_in(first) + (tags_in(second) + tags_in(rest)) =~= (tags_in(first) + tags_in(
            second,
        )) + tags_in(rest));
    }
}

/// The tags in the text of one chunk are those that the chunk opens and closes.
proof fn lemma_chunk_tags(reasoning: Seq<char>, content: Seq<char>, state: StreamState)
    requires
        !reasoning.contains('<'),
        !content.contains('<'),
    ensures
        ends_between_tags(chunk_text(reasoning, content, state)),
        tags_in(chunk_text(reasoning, content, state)) == (if opens_block(reasoning, state) {
            seq![true]
        } else {
            Seq::empty()
        }) + (if closes_block(reasoning, content, state) {
            seq![false]
        } else {
            Seq::empty()
        }),
{
    let none = Seq::<char>::empty();
    let opening = if opens_block(reasoning, state) {
        "<think>"@
    } else {
        none
    };
    let closing = if closes_block(reasoning, content, state) {
        "</think>"@
    } else {
        none
    };
    lemma_one_tag();
    lemma_plain_text(none);
    lemma_plain_text(reasoning);
    lemma_plain_text(content);
    lemma_tags_joined(opening, reasoning);
    lemma_tags_joined(opening + reasoning, closing);
    lemma_tags_joined(opening + reasoning + closing, content);
    assert(tags_in(chunk_text(reasoning, content, state)) =~= tags_in(opening) + tags_in(closing));
}

/// How many of the tags open a block, or how many close one.
pub open spec fn count_tags(tags: Seq<bool>, opening: bool) -> int
    decreases tags.len(),
{
    if tags.len() == 0 {
        0
    } else {
        count_tags(tags.drop_last(), opening) + if tags.last() == opening {
            1int
        } else {
            0int
        }
    }
}

/// Of tags that take turns, one more opens than closes where their number is odd.
proof fn lemma_turns_counted(tags: Seq<bool>)
    requires
        take_turns(tags),
    ensures
        count_tags(tags, true) - count_tags(tags, false) == tags.len() % 2,
    decreases tags.len(),
{
    if tags.len() > 0 {
        let front = tags.drop_last();
        assert(take_turns(front)) by {
            assert forall|i: int| 0 <= i < front.len() implies #[trigger] front[i] == (i % 2
                == 0) by {
                assert(tags[i] == front[i]);
            }
        }
        lemma_turns_counted(front);
        assert(tags[tags.len() - 1] == ((tags.len() - 1) % 2 == 0));
    }
}

/// The tags in a rewritten stream, and where its text may be cut.
proof fn lemma_stream_tags(chunks: Seq<Json>)
    requires
        forall|i: int|
            0 <= i < chunks.len() ==> !chunk_reasoning(#[trigger] chunks[i]).contains('<')
                && !chunk_content(chunks[i]).contains('<'),
    ensures
        ({
            let start = StreamState { is_thinking: false };
            let text = stream_content(chunks_after(chunks, start));
            &&& ends_between_tags(text)
            &&& take_turns(tags_in(text))
            &&& state_after_chunks(chunks, start).is_thinking <==> tags_in(text).len() % 2 == 1
        }),
    decreases chunks.len(),
{
    let start = StreamState { is_thinking: false };
    if chunks.len() == 0 {
        lemma_plain_text(Seq::<char>::empty());
    } else {
        let front = chunks.drop_last();
        let last = chunks.last();
        let state = state_after_chunks(front, start);
        assert forall|i: int| 0 <= i < front.len() implies !chunk_reasoning(
            #[trigger] front[i],
        ).contains('<') && !chunk_content(front[i]).contains('<') by {
            assert(front[i] == chunks[i]);
        }
        assert(last == chunks[chunks.len() - 1]);
        lemma_stream_tags(front);
        law_chunk_shows_text(last, state);
        lemma_chunk_tags(chunk_reasoning(last), chunk_content(last), state);
        assert(chunks_after(chunks, start).drop_last() =~= chunks_after(front, start));
        let before = stream_content(chunks_after(front, start));
        let added = chunk_text(chunk_reasoning(last), chunk_content(last), state);
        lemma_tags_joined(before, added);
        assert(stream_content(chunks_after(chunks, start)) == before + added);
        let tags = tags_in(before) + tags_in(added);
        assert forall|i: int| 0 <= i < tags.len() implies #[trigger] tags[i] == (i % 2 == 0) by {
            if i < tags_in(before).len() {
                assert(tags[i] == tags_in(before)[i]);
            }
        }
    }
}

/// In the text that a client is shown of a stream, the tags take turns, starting with
/// `<think>`, and one more has opened than closed exactly while the stream stands inside a
/// block. The texts of the stream itself hold no `<`, so that all tags are the proxy's.
pub proof fn law_shown_tags_take_turns(chunks: Seq<Json>)
    requires
        forall|i: int|
            0 <= i < chunks.len() ==> !chunk_reasoning(#[trigger] chunks[i]).contains('<')
                && !chunk_content(chunks[i]).contains('<'),
    ensures
        ({
            let start = StreamState { is_thinking: false };
            let tags = tags_in(stream_content(chunks_after(chunks, start)));
            &&& take_turns(tags)
            &&& count_tags(tags, true) - count_tags(tags, false) == if state_after_chunks(
                chunks,
                start,
            ).is_thinking {
                1int
            } else {
                0int
            }
        }),
{
    lemma_stream_tags(chunks);
    lemma_turns_counted(
        tags_in(stream_content(chunks_after(chunks, StreamState { is_thinking: false }))),
    );
}

/// Content is never shown inside a `<think>` block: after a chunk with content the stream
/// stands outside.
pub proof fn law_content_is_outside(chunk: Json, state: StreamState)
    requires
        chunk_content(chunk).len() > 0,
    ensures
        !chunk_state_after(chunk, state).is_thinking,
{
}

/// No reasoning comes behind content in a stream.
pub open spec fn reasoning_comes_first(chunks: Seq<Json>) -> bool {
    forall|i: int, j: int|
        0 <= i < j < chunks.len() && chunk_content(#[trigger] chunks[i]).len() > 0
            ==> chunk_reasoning(#[trigger] chunks[j]).len() == 0
}

/// What a client has been shown of a stream whose reasoning comes first.
proof fn lemma_reasoning_first(chunks: Seq<Json>)
    requires
        reasoning_comes_first(chunks),
    ensures
        ({
            let start = StreamState { is_thinking: false };
            let reasoning = stream_reasoning(chunks);
            let content = stream_content(chunks);
            let shown = stream_content(chunks_after(chunks, start));
            &&& state_after_chunks(chunks, start).is_thinking == (reasoning.len() > 0
                && content.len() == 0)
            &&& shown == if reasoning.len() == 0 {
                content
            } else if content.len() == 0 {
                "<think>"@ + reasoning
            } else {
                wrapped(reasoning, content)
            }
        }),
    decreases chunks.len(),
{
    let start = StreamState { is_thinking: false };
    let empty = Seq::<char>::empty();
    if chunks.len() > 0 {
        let front = chunks.drop_last();
        let last = chunks.last();
        let state = state_after_chunks(front, start);
        assert(reasoning_comes_first(front)) by {
            assert forall|i: int, j: int|
                0 <= i < j < front.len() && chunk_content(#[trigger] front[i]).len()
                    > 0 implies chunk_reasoning(#[trigger] front[j]).len() == 0 by {
                assert(front[i] == chunks[i] && front[j] == chunks[j]);
            }
        }
        lemma_reasoning_first(front);
        lemma_content_is_somewhere(front);
        law_chunk_shows_text(last, state);
        let shown = chunks_after(chunks, start);
        assert(shown.drop_last() =~= chunks_after(front, start));
        let r = chunk_reasoning(last);
        let c = chunk_content(last);
        if stream_content(front).len() > 0 {
            let i = choose|i: int| 0 <= i < front.len() && chunk_content(front[i]).len() > 0;
            assert(chunk_content(chunks[i]).len() > 0);
            assert(chunk_reasoning(chunks[chunks.len() - 1]).len() == 0);
        }
        assert(r.len() == 0 ==> r =~= empty);
        assert(c.len() == 0 ==> c =~= empty);
        let reasoning = stream_reasoning(front);
        let content = stream_content(front);
        assert(reasoning.len() == 0 ==> reasoning =~= empty);
        assert(content.len() == 0 ==> content =~= empty);
        if reasoning.len() + r.len() == 0 {
            assert(stream_content(shown) =~= content + c);
        } else if content.len() + c.len() == 0 {
            assert(stream_content(shown) =~= "<think>"@ + (reasoning + r));
        } else {
            assert(stream_content(shown) =~= wrapped(reasoning + r, content + c));
        }
    }
}

/// A stream with content has a chunk with content.
proof fn lemma_content_is_somewhere(chunks: Seq<Json>)
    ensures
        stream_content(chunks).len() > 0 ==> exists|i: int|
            0 <= i < chunks.len() && chunk_content(#[trigger] chunks[i]).len() > 0,
    decreases chunks.len(),
{
    if chunks.len() > 0 {
        let front = chunks.drop_last();
        lemma_content_is_somewhere(front);
        if chunk_content(chunks.last()).len() > 0 {
            assert(chunk_content(chunks[chunks.len() - 1]).len() > 0);
        } else if stream_content(chunks).len() > 0 {
            let i = choose|i: int|
                0 <= i < front.len() && chunk_content(#[trigger] front[i]).len() > 0;
            assert(chunks[i] == front[i]);
        }
    }
}

/// A stream shows what the whole message would: its contents, rewritten chunk by chunk and
/// put together, are the content that the same reasoning and content get as one message.
/// This takes reasoning and content that are not empty, and reasoning ahead of content.
pub proof fn law_stream_agrees_with_message(chunks: Seq<Json>, message: Map<Seq<char>, Json>)
    requires
        reasoning_comes_first(chunks),
        reasoning_text(message) == stream_reasoning(chunks),
        content_text(message) == stream_content(chunks),
        stream_reasoning(chunks).len() > 0,
        stream_content(chunks).len() > 0,
    ensures
        stream_content(chunks_after(chunks, StreamState { is_thinking: false })) == content_text(
            message_after(message),
        ),
        !state_after_chunks(chunks, StreamState { is_thinking: false }).is_thinking,
{
    lemma_reasoning_first(chunks);
    law_message_shows_reasoning(message);
}

/// Where a stream stands after these lines.
pub open spec fn state_after_lines(lines: Seq<Seq<char>>, state: StreamState) -> StreamState
    decreases lines.len(),
{
    if lines.len() == 0 {
        state
    } else {
        line_state_after(lines.last(), state_after_lines(lines.drop_last(), state))
    }
}

/// The chunks that lines carry.
pub open spec fn carried_chunks(lines: Seq<Seq<char>>) -> Seq<Json>
    decreases lines.len(),
{
    if lines.len() == 0 {
        Seq::empty()
    } else {
        match line_json(lines.last()) {
            Some(chunk) => carried_chunks(lines.drop_last()).push(chunk),
            None => carried_chunks(lines.drop_last()),
        }
    }
}

/// All that a client is sent for the lines of a stream.
pub open spec fn sent_for_lines(lines: Seq<Seq<char>>, state: StreamState) -> Seq<char>
    decreases lines.len(),
{
    if lines.len() == 0 {
        Seq::empty()
    } else {
        let rest = lines.drop_first();
        match line_outcome(lines.first(), state) {
            LineOutcome::Yield(text) => text + sent_for_lines(
                rest,
                line_state_after(lines.first(), state),
            ),
            LineOutcome::Skip => sent_for_lines(rest, line_state_after(lines.first(), state)),
            LineOutcome::Done => done_frame(),
        }
    }
}

/// Only the chunks that lines carry move a stream along: comments, blank lines and data
/// that is no JSON leave it where it is.
pub proof fn law_chunks_move_the_stream(lines: Seq<Seq<char>>, state: StreamState)
    ensures
        state_after_lines(lines, state) == state_after_chunks(carried_chunks(lines), state),
    decreases lines.len(),
{
    if lines.len() > 0 {
        law_chunks_move_the_stream(lines.drop_last(), state);
        if let Some(chunk) = line_json(lines.last()) {
            assert(carried_chunks(lines).drop_last() =~= carried_chunks(lines.drop_last()));
        }
    }
}

/// A line that carries a chunk sends the chunk on as the stream so far has it rewritten.
pub proof fn law_line_sends_chunk(lines: Seq<Seq<char>>, state: StreamState)
    requires
        lines.len() > 0,
        line_json(lines.last()) is Some,
    ensures
        line_outcome(lines.last(), state_after_lines(lines.drop_last(), state))
            == LineOutcome::Yield(
            data_frame(chunks_after(carried_chunks(lines), state).last()),
        ),
{
    law_chunks_move_the_stream(lines.drop_last(), state);
    assert(carried_chunks(lines).drop_last() =~= carried_chunks(lines.drop_last()));
    reveal_strlit("data: ");
}

/// The first line of a stream moves it before the others do.
proof fn lemma_first_line(lines: Seq<Seq<char>>, state: StreamState)
    requires
        lines.len() > 0,
    ensures
        state_after_lines(lines, state) == state_after_lines(
            lines.drop_first(),
            line_state_after(lines.first(), state),
        ),
    decreases lines.len(),
{
    let rest = lines.drop_first();
    if lines.len() == 1 {
        assert(state_after_lines(lines.drop_last(), state) == state);
    } else {
        assert(lines.drop_last().first() == lines.first());
        lemma_first_line(lines.drop_last(), state);
        assert(lines.drop_last().drop_first() =~= rest.drop_last());
        assert(lines.last() == rest.last());
    }
}

/// What is sent for a line does not wait for later ones: up to the `[DONE]` sentinel, the
/// lines of a stream send what they send alone, and the lines behind them go on from
/// where they leave the stream.
pub proof fn law_lines_are_sent_as_they_come(
    lines: Seq<Seq<char>>,
    later: Seq<Seq<char>>,
    state: StreamState,
)
    requires
        forall|i: int| 0 <= i < lines.len() ==> trimmed(#[trigger] lines[i]) != "data: [DONE]"@,
    ensures
        sent_for_lines(lines + later, state) == sent_for_lines(lines, state) + sent_for_lines(
            later,
            state_after_lines(lines, state),
        ),
    decreases lines.len(),
{
    let whole = lines + later;
    if lines.len() == 0 {
        assert(whole =~= later);
        assert(Seq::<char>::empty() + sent_for_lines(later, state) =~= sent_for_lines(
            later,
            state,
        ));
    } else {
        let rest = lines.drop_first();
        let next = line_state_after(lines.first(), state);
        assert(whole.first() == lines.first());
        assert(whole.drop_first() =~= rest + later);
        assert(trimmed(lines[0]) != "data: [DONE]"@);
        assert forall|i: int| 0 <= i < rest.len() implies trimmed(#[trigger] rest[i])
            != "data: [DONE]"@ by {
            assert(rest[i] == lines[i + 1]);
        }
        law_lines_are_sent_as_they_come(rest, later, next);
        lemma_first_line(lines, state);
        let behind = sent_for_lines(later, state_after_lines(lines, state));
        if let LineOutcome::Yield(text) = line_outcome(lines.first(), state) {
            assert(text + (sent_for_lines(rest, next) + behind) =~= (text + sent_for_lines(
                rest,
                next,
            )) + behind);
        }
    }
}

/// Nothing is sent for what follows the `[DONE]` sentinel, which is sent on last.
pub proof fn law_done_ends_the_stream(
    before: Seq<Seq<char>>,
    done: Seq<char>,
    after: Seq<Seq<char>>,
    state: StreamState,
)
    requires
        trimmed(done) == "data: [DONE]"@,
        forall|i: int| 0 <= i < before.len() ==> trimmed(#[trigger] before[i]) != "data: [DONE]"@,
    ensures
        sent_for_lines(before + seq![done] + after, state) == sent_for_lines(before, state)
            + done_frame(),
{
    reveal_strlit("data: [DONE]");
    let tail = seq![done] + after;
    assert(before + seq![done] + after =~= before + tail);
    assert(tail.first() == done);
    law_lines_are_sent_as_they_come(before, tail, state);
}

/// All characters of `text` are white space.
pub open spec fn all_white_space(text: Seq<char>) -> bool {
    forall|i: int| 0 <= i < text.len() ==> is_white_space(#[trigger] text[i])
}

/// White space at the start of a text is trimmed away, whatever follows it.
proof fn lemma_white_start(space: Seq<char>, text: Seq<char>)
    requires
        all_white_space(space),
    ensures
        trimmed_start(space + text) == trimmed_start(text),
    decreases space.len(),
{
    if space.len() == 0 {
        assert(space + text =~= text);
    } else {
        let rest = space.drop_first();
        assert(is_white_space(space[0]));
        assert forall|i: int| 0 <= i < rest.len() implies is_white_space(#[trigger] rest[i]) by {
            assert(rest[i] == space[i + 1]);
        }
        assert((space + text).drop_first() =~= rest + text);
        lemma_white_start(rest, text);
    }
}

/// White space at the end of a text is trimmed away, whatever precedes it.
proof fn lemma_white_end(text: Seq<char>, space: Seq<char>)
    requires
        all_white_space(space),
    ensures
        trimmed_end(text + space) == trimmed_end(text),
    decreases space.len(),
{
    if space.len() == 0 {
        assert(text + space =~= text);
    } else {
        let rest = space.drop_last();
        assert(is_white_space(space[space.len() - 1]));
        assert forall|i: int| 0 <= i < rest.len() implies is_white_space(#[trigger] rest[i]) by {
            assert(rest[i] == space[i]);
        }
        assert((text + space).drop_last() =~= text + rest);
        lemma_white_end(text, rest);
    }
}

/// What is added behind a text is trimmed at the start only where the text is all gone.
proof fn lemma_start_of_joined(text: Seq<char>, space: Seq<char>)
    ensures
        trimmed_start(text + space) == if trimmed_start(text).len() > 0 {
            trimmed_start(text) + space
        } else {
            trimmed_start(space)
        },
    decreases text.len(),
{
    if text.len() == 0 {
        assert(text + space =~= space);
    } else {
        assert((text + space).first() == text.first());
        assert((text + space).drop_first() =~= text.drop_first() + space);
        lemma_start_of_joined(text.drop_first(), space);
    }
}

/// Without the white space around it, a text with none at its own ends is left.
pub(crate) proof fn lemma_trimmed_core(before: Seq<char>, core: Seq<char>, after: Seq<char>)
    requires
        all_white_space(before),
        all_white_space(after),
        core.len() > 0 ==> !is_white_space(core.first()) && !is_white_space(core.last()),
    ensures
        trimmed(before + core + after) == core,
{
    lemma_trimmed_around(before, core, after);
}

/// White space around a text is trimmed away.
proof fn lemma_trimmed_around(before: Seq<char>, line: Seq<char>, after: Seq<char>)
    requires
        all_white_space(before),
        all_white_space(after),
    ensures
        trimmed(before + line + after) == trimmed(line),
{
    assert(before + line + after =~= before + (line + after));
    lemma_white_start(before, line + after);
    lemma_start_of_joined(line, after);
    if trimmed_start(line).len() > 0 {
        lemma_white_end(trimmed_start(line), after);
    } else {
        let none = Seq::<char>::empty();
        lemma_white_start(after, none);
        assert(after + none =~= after);
        assert(trimmed_start(line) =~= none);
    }
}

/// White space around a line changes nothing: neither what is sent for the line nor where
/// the stream stands after it.
pub proof fn law_white_space_around_a_line(
    before: Seq<char>,
    line: Seq<char>,
    after: Seq<char>,
    state: StreamState,
)
    requires
        all_white_space(before),
        all_white_space(after),
    ensures
        line_outcome(before + line + after, state) == line_outcome(line, state),
        line_state_after(before + line + after, state) == line_state_after(line, state),
{
    lemma_trimmed_around(before, line, after);
}

/// A filter keeps exactly those members that it is meant to keep.
proof fn lemma_filter_keeps<A>(row: Seq<A>, keep: spec_fn(A) -> bool, item: A)
    ensures
        row.filter(keep).contains(item) <==> row.contains(item) && keep(item),
    decreases row.len(),
{
    reveal(Seq::filter);
    if row.len() > 0 {
        let front = row.drop_last();
        lemma_filter_keeps(front, keep, item);
        if row.contains(item) && row.last() != item {
            let i = choose|i: int| 0 <= i < row.len() && row[i] == item;
            assert(front[i] == item);
        }
        if front.contains(item) {
            let i = choose|i: int| 0 <= i < front.len() && front[i] == item;
            assert(row[i] == item);
        }
        if row.last() == item {
            assert(row[row.len() - 1] == item);
        }
        let kept = front.filter(keep);
        if keep(row.last()) {
            assert(row.filter(keep) == kept.push(row.last()));
            if kept.contains(item) {
                let i = choose|i: int| 0 <= i < kept.len() && kept[i] == item;
                assert(row.filter(keep)[i] == item);
            }
            if row.last() == item {
                assert(row.filter(keep)[kept.len() as int] == item);
            }
        }
    }
}

/// The upstream gets exactly those of the client's headers that go there, and never those
/// of the client's own connection.
pub proof fn law_request_headers(lines: Seq<(Seq<char>, Seq<u8>)>, line: (Seq<char>, Seq<u8>))
    ensures
        request_lines(lines).contains(line) <==> lines.contains(line) && goes_upstream(line.0),
        request_lines(lines).contains(line) ==> line.0 != "host"@ && line.0 != "content-length"@
            && line.0 != "connection"@,
{
    lemma_filter_keeps(lines, |l: (Seq<char>, Seq<u8>)| goes_upstream(l.0), line);
    if line.0 == "host"@ || line.0 == "content-length"@ || line.0 == "connection"@ {
        lemma_own_headers_stay(line.0);
    }
}

/// The client gets exactly those of the upstream's headers that still fit: a length or an
/// encoding of the upstream's body is never among them.
pub proof fn law_reply_headers(lines: Seq<(Seq<char>, Seq<u8>)>, line: (Seq<char>, Seq<u8>))
    ensures
        reply_lines(lines).contains(line) <==> lines.contains(line) && !stays_upstream(line.0),
{
    lemma_filter_keeps(lines, |l: (Seq<char>, Seq<u8>)| !stays_upstream(l.0), line);
}

} // verus!
