//! What is shown of an answer while it comes in, and what is remembered of it.

use crate::llm_client::mock::canned::call_turn;
use crate::llm_client::mock::{
    may_answer, put_together, replayed, stop_of_pieces, text_of_pieces, CannedTurn, FauxStep,
};
use crate::llm_client::{MessageRequest, PieceView, StreamEvent};
use crate::models::{BlockView, PromptView};
use crate::logging::{asks_for_verbose, value_is_verbose};
use crate::streaming::{
    call_end, end_markers, filter_step, filter_text, first_marker, first_of, flushed,     held, is_stream_read_error, longest_held, start_markers, stream_error_text, trailing_prefix,
    FilterView,
};
use crate::text::{ascii_lower, contains_text, find_from, lemma_find_from, occurs_at, pieces_of};
use crate::token_estimate_cache::{
    after_hit, after_miss, block_parts, is_hit, prompt_parts, ring_with, CacheView,
};
use vstd::prelude::*;

verus! {

proof fn lemma_first_of(s: Seq<char>, markers: Seq<Seq<char>>, n: nat)
    requires
        n <= markers.len(),
    ensures
        match first_of(s, markers, n) {
            Some((i, k)) => {
                &&& 0 <= k < n
                &&& occurs_at(s, markers[k], i)
                &&& forall|m: int, j: int|
                    0 <= m < n && 0 <= j < i ==> !(#[trigger] occurs_at(s, markers[m], j))
            },
            None => forall|m: int, j: int|
                0 <= m < n && 0 <= j ==> !(#[trigger] occurs_at(s, markers[m], j)),
        },
    decreases n,
{
    if n > 0 {
        lemma_first_of(s, markers, (n - 1) as nat);
        lemma_find_from(s, markers[n - 1], 0);
    }
}

/// Of the marks in a text the one that stands first is found.
pub proof fn law_first_mark_is_found(s: Seq<char>, markers: Seq<Seq<char>>)
    ensures
        match first_marker(s, markers) {
            Some((i, k)) => {
                &&& 0 <= k < markers.len()
                &&& occurs_at(s, markers[k], i)
                &&& forall|m: int, j: int|
                    0 <= m < markers.len() && 0 <= j < i ==> !(#[trigger] occurs_at(s, markers[m], j))
            },
            None => forall|m: int, j: int|
                0 <= m < markers.len() && 0 <= j ==> !(#[trigger] occurs_at(s, markers[m], j)),
        },
{
    lemma_first_of(s, markers, markers.len());
}

/// Each mark that opens a call is closed by the one of the same name.
pub proof fn law_marks_come_in_pairs(k: int)
    requires
        0 <= k < 12,
    ensures
        start_markers().len() == 12,
        end_markers().len() == 12,
        ({
            let open = start_markers()[k];
            let close = end_markers()[k];
            &&& open.len() >= 8
            &&& close[0] == open[0]
            &&& close[1] == '/'
            &&& close.len() >= open.len()
            &&& close.subrange(2, open.len() as int) == open.subrange(1, open.len() - 1)
        }),
{
    lemma_pairs_a(k);
    lemma_pairs_b(k);
}

proof fn lemma_pairs_a(k: int)
    ensures
        0 <= k < 6 ==> {
            let open = start_markers()[k];
            let close = end_markers()[k];
            &&& open.len() >= 8
            &&& close[0] == open[0]
            &&& close[1] == '/'
            &&& close.len() >= open.len()
            &&& close.subrange(2, open.len() as int) == open.subrange(1, open.len() - 1)
        },
{
    reveal_strlit("[TOOL_CALL]");
    reveal_strlit("<codewhale:tool_call");
    reveal_strlit("<tool_call");
    reveal_strlit("<invoke ");
    reveal_strlit("<function_calls>");
    reveal_strlit("<｜DSML｜tool_calls>");
    reveal_strlit("[/TOOL_CALL]");
    reveal_strlit("</codewhale:tool_call>");
    reveal_strlit("</tool_call>");
    reveal_strlit("</invoke>");
    reveal_strlit("</function_calls>");
    reveal_strlit("</｜DSML｜tool_calls>");
    if 0 <= k < 6 {
        let open = start_markers()[k];
        let close = end_markers()[k];
        assert(close.subrange(2, open.len() as int) =~= open.subrange(1, open.len() - 1));
    }
}

proof fn lemma_pairs_b(k: int)
    ensures
        6 <= k < 12 ==> {
            let open = start_markers()[k];
            let close = end_markers()[k];
            &&& open.len() >= 8
            &&& close[0] == open[0]
            &&& close[1] == '/'
            &&& close.len() >= open.len()
            &&& close.subrange(2, open.len() as int) == open.subrange(1, open.len() - 1)
        },
{
    reveal_strlit("<｜DSML｜invoke ");
    reveal_strlit("<|DSML|tool_calls>");
    reveal_strlit("<|DSML|invoke ");
    reveal_strlit("<|dsml|tool_calls>");
    reveal_strlit("<|dsml|invoke ");
    reveal_strlit("<|tool_calls>");
    reveal_strlit("</｜DSML｜invoke>");
    reveal_strlit("</|DSML|tool_calls>");
    reveal_strlit("</|DSML|invoke>");
    reveal_strlit("</|dsml|tool_calls>");
    reveal_strlit("</|dsml|invoke>");
    reveal_strlit("</|tool_calls>");
    if 6 <= k < 12 {
        let open = start_markers()[k];
        let close = end_markers()[k];
        assert(close.subrange(2, open.len() as int) =~= open.subrange(1, open.len() - 1));
    }
}

/// A call is not shown: of a text with one, what stands before its first mark and
/// what follows the mark that closes it is shown, and nothing of it.
pub proof fn law_calls_are_not_shown(
    before: Seq<char>,
    k: int,
    inside: Seq<char>,
    after: Seq<char>,
)
    requires
        0 <= k < 12,
        ({
            let open = start_markers()[k];
            let close = end_markers()[k];
            let text = before + open + (inside + close + after);
            &&& first_marker(text, start_markers()) == Some((before.len() as int, k))
            &&& find_from(inside + close + after, close, 0) == Some(inside.len() as int)
        }),
    ensures
        ({
            let open = start_markers()[k];
            let close = end_markers()[k];
            let text = before + open + (inside + close + after);
            let rest = filter_text(after, false, None);
            &&& filter_text(text, false, None).0 == before + rest.0
            &&& filter_text(text, false, None).1 == rest.1
        }),
{
    let open = start_markers()[k];
    let close = end_markers()[k];
    let behind = inside + close + after;
    let text = before + open + behind;
    law_marks_come_in_pairs(k);
    assert(text.skip(before.len() + open.len() as int) =~= behind);
    assert(text.take(before.len() as int) =~= before);
    assert(behind.skip(inside.len() + close.len() as int) =~= after);
    assert(call_end(behind, Some(close)) == Some((inside.len() as int, close.len() as int)));
    assert(filter_text(behind, true, Some(close)) == filter_text(after, false, None));
}

/// What is held back at the end of a text is what could be the beginning of a mark, and
/// no more is held back than could be.
pub proof fn law_only_beginnings_are_held_back(s: Seq<char>, markers: Seq<Seq<char>>)
    ensures
        trailing_prefix(s, markers) <= s.len(),
        trailing_prefix(s, markers) > 0 ==> exists|m: int|
            0 <= m < markers.len() && trailing_prefix(s, markers) < (#[trigger] markers[m]).len()
                && s.skip(s.len() - trailing_prefix(s, markers)) == markers[m].take(
                trailing_prefix(s, markers) as int,
            ),
        forall|k: int| trailing_prefix(s, markers) < k <= s.len() ==> !held(s, markers, k),
{
    lemma_longest(s, markers, s.len());
    let n = trailing_prefix(s, markers);
    if n > 0 {
        assert(held(s, markers, n as int));
        let m = choose|m: int|
            0 <= m < markers.len() && n < (#[trigger] markers[m]).len() && s.skip(s.len() - n)
                == markers[m].take(n as int);
        assert(n < markers[m].len());
    }
}

proof fn lemma_longest(s: Seq<char>, markers: Seq<Seq<char>>, n: nat)
    requires
        n <= s.len(),
    ensures
        longest_held(s, markers, n) <= n,
        longest_held(s, markers, n) > 0 ==> held(s, markers, longest_held(s, markers, n) as int),
        forall|k: int| longest_held(s, markers, n) < k <= n ==> !held(s, markers, k),
    decreases n,
{
    if n > 0 {
        lemma_longest(s, markers, (n - 1) as nat);
    }
}

/// At the end of an answer what was held back is shown, unless it belongs to a call.
pub proof fn law_rest_is_shown(state: FilterView)
    ensures
        state.in_tool_call ==> flushed(state).len() == 0,
        !state.in_tool_call ==> flushed(state) == state.marker_carry,
        filter_step(Seq::empty(), state) == (Seq::<char>::empty(), state),
{
}

/// A connection that dropped is told so, with what was said of it last; whether the
/// request is made again depends on what was shown. Another error is told as it is.
pub proof fn law_dropped_streams_are_told(message: Seq<char>, any: bool)
    ensures
        message.is_suffix_of(stream_error_text(message, any)),
        !is_stream_read_error(message) ==> stream_error_text(message, any) == message,
        contains_text(ascii_lower(message), "stream read error"@) || contains_text(
            ascii_lower(message),
            "error decoding response body"@,
        ) || contains_text(ascii_lower(message), "chunk decode error"@) || contains_text(
            ascii_lower(message),
            "body decode"@,
        ) <==> is_stream_read_error(message),
        is_stream_read_error(message) && any ==> crate::laws::search::holds(
            stream_error_text(message, any),
            "Some output had already streamed"@,
        ),
        is_stream_read_error(message) && !any ==> crate::laws::search::holds(
            stream_error_text(message, any),
            "No output had streamed yet"@,
        ),
{
    let told = stream_error_text(message, any);
    assert(told.skip(told.len() - message.len()) =~= message);
    if is_stream_read_error(message) {
        let head = "Provider stream connection dropped while reading the response body. "@;
        let yes = "Some output had already streamed, so CodeWhale is surfacing the warning instead of replaying the request and risking duplicated output."@;
        let no = "No output had streamed yet, so CodeWhale will retry automatically while retry budget remains."@;
        let end = " Details: "@ + message;
        assert("Some output had already streamed"@ =~= yes.take(32)) by {
            reveal_strlit("Some output had already streamed");
            reveal_strlit("Some output had already streamed, so CodeWhale is surfacing the warning instead of replaying the request and risking duplicated output.");
        }
        assert("No output had streamed yet"@ =~= no.take(26)) by {
            reveal_strlit("No output had streamed yet");
            reveal_strlit("No output had streamed yet, so CodeWhale will retry automatically while retry budget remains.");
        }
        assert(yes.len() > 32 && no.len() > 26) by {
            reveal_strlit("Some output had already streamed, so CodeWhale is surfacing the warning instead of replaying the request and risking duplicated output.");
            reveal_strlit("No output had streamed yet, so CodeWhale will retry automatically while retry budget remains.");
        }
        if any {
            assert(told =~= head + yes.take(32) + (yes.skip(32) + end));
            crate::laws::results::lemma_holds_between(head, yes.take(32), yes.skip(32) + end);
        } else {
            assert(told =~= head + no.take(26) + (no.skip(26) + end));
            crate::laws::results::lemma_holds_between(head, no.take(26), no.skip(26) + end);
        }
    }
}

// ---------------------------------------------------------------------------
// Estimates
// ---------------------------------------------------------------------------

/// An estimate is reused exactly where one was made for the same messages and the
/// same prompt; hits and misses are counted apart, and the last estimates are kept.
pub proof fn law_estimates_are_reused(cache: CacheView, revision: u64, print: u64, tokens: usize)
    ensures
        is_hit(cache, revision, print) <==> cache.cached_tokens is Some && cache.messages_revision
            == revision && cache.system_fingerprint == print,
        cache.hits < u64::MAX ==> after_hit(cache).hits == cache.hits + 1,
        after_hit(cache).misses == cache.misses,
        after_hit(cache).cached_tokens == cache.cached_tokens,
        after_hit(cache).audit_ring == cache.audit_ring,
        cache.misses < u64::MAX ==> after_miss(cache, revision, print, tokens).misses
            == cache.misses + 1,
        after_miss(cache, revision, print, tokens).hits == cache.hits,
        after_miss(cache, revision, print, tokens).cached_tokens == Some(tokens),
        cache.audit_ring.len() < 64 ==> ring_with(cache.audit_ring, revision, tokens)
            == cache.audit_ring.push((revision, tokens)),
        cache.audit_ring.len() == 64 ==> ring_with(cache.audit_ring, revision, tokens).len() == 64
            && forall|i: int|
            0 <= i < 63 ==> #[trigger] ring_with(cache.audit_ring, revision, tokens)[i]
                == cache.audit_ring[i + 1],
{
}

// ---------------------------------------------------------------------------
// Answers that were prepared
// ---------------------------------------------------------------------------

/// The text of an answer is that of its pieces in order; nothing but pieces of text
/// adds to it. It ends for the last reason that was given.
pub proof fn law_pieces_make_the_answer(pieces: Seq<PieceView>, n: nat, model: Seq<char>)
    requires
        n < pieces.len(),
    ensures
        text_of_pieces(pieces, 0).len() == 0,
        pieces[n as int] matches PieceView::TextDelta(_, text) ==> text_of_pieces(pieces, n + 1)
            == text_of_pieces(pieces, n) + text,
        !(pieces[n as int] is TextDelta) ==> text_of_pieces(pieces, n + 1) == text_of_pieces(
            pieces,
            n,
        ),
        pieces[n as int] matches PieceView::MessageDelta { stop_reason, .. } ==> stop_of_pieces(
            pieces,
            n + 1,
        ) == stop_reason,
        !(pieces[n as int] is MessageDelta) ==> stop_of_pieces(pieces, n + 1) == stop_of_pieces(
            pieces,
            n,
        ),
        stop_of_pieces(pieces, 0) is None,
        put_together(pieces, model).model == model,
        put_together(pieces, model).role == "assistant"@,
        put_together(pieces, model).content.len() == 1,
        put_together(pieces, model).stop_reason == (match stop_of_pieces(pieces, pieces.len()) {
            Some(s) => Some(s),
            None => Some("end_turn"@),
        }),
{
}

/// An answer is replayed whole, with an end where it has none.
pub proof fn law_answers_are_replayed(turn: Seq<StreamEvent>)
    ensures
        turn.is_prefix_of(replayed(turn)),
        turn.len() > 0 && turn.last() is MessageStop ==> replayed(turn) == turn,
        turn.len() == 0 || !(turn.last() is MessageStop) ==> replayed(turn).len() == turn.len() + 1,
{
}

/// A log is verbose where one of its settings, of whatever part, asks for it.
pub proof fn law_one_setting_makes_verbose(part: Seq<char>, rest: Seq<char>)
    requires
        !part.contains(','),
    ensures
        asks_for_verbose(part) ==> value_is_verbose(part) && value_is_verbose(
            part + seq![','] + rest,
        ),
        !asks_for_verbose(part) ==> !value_is_verbose(part),
        value_is_verbose(rest) ==> value_is_verbose(part + seq![','] + rest),
{
    crate::laws::texts::law_texts_are_cut_at_marks(part, ',', rest);
    let all = part + seq![','] + rest;
    let pieces = pieces_of(all, ',');
    assert(pieces_of(part, ',')[0] == part);
    assert(pieces[0] == part);
    if value_is_verbose(rest) {
        let i = choose|i: int|
            0 <= i < pieces_of(rest, ',').len() && asks_for_verbose(
                #[trigger] pieces_of(rest, ',')[i],
            );
        assert(pieces[i + 1] == pieces_of(rest, ',')[i]);
    }
}

/// An answer with a call names the call and its tool, and carries its arguments.
pub proof fn law_prepared_calls(call_id: Seq<char>, tool_name: Seq<char>, args: Seq<char>)
    ensures
        ({
            let turn = call_turn(call_id, tool_name, args);
            &&& turn[1] matches PieceView::ToolUseStart { id, name, .. } && id == call_id && name
                == tool_name
            &&& turn[2] == PieceView::InputJsonDelta(0, args)
            &&& stop_of_pieces(turn, turn.len()) == Some("tool_use"@)
            &&& text_of_pieces(turn, turn.len()).len() == 0
            &&& turn.last() is MessageStop
        }),
{
    reveal_with_fuel(stop_of_pieces, 7);
    reveal_with_fuel(text_of_pieces, 7);
}

/// A prepared answer is given as it is; what a factory makes is made from the request.
pub proof fn law_prepared_answers_are_given<F: Fn(&MessageRequest) -> CannedTurn>(
    step: FauxStep<F>,
    request: MessageRequest,
    turn: CannedTurn,
)
    requires
        may_answer(step, request, turn),
    ensures
        step matches FauxStep::Canned(t) ==> turn == t,
        step matches FauxStep::Factory(f) ==> call_ensures(f, (&request,), turn),
{
}

/// The fingerprint of a prompt is taken of its whole text, and of the kind and the text
/// of each block.
pub proof fn law_fingerprints_take_all(text: Seq<char>, blocks: Seq<BlockView>, i: int)
    requires
        0 <= i < blocks.len(),
    ensures
        prompt_parts(PromptView::Text(text)).contains(text),
        prompt_parts(PromptView::Blocks(blocks)).contains(blocks[i].text),
        prompt_parts(PromptView::Blocks(blocks)).contains(blocks[i].block_type),
{
    assert(prompt_parts(PromptView::Text(text))[1] == text);
    lemma_block_parts(
        seq!["blocks"@, crate::text::decimal(blocks.len())],
        blocks,
        blocks.len(),
        i,
    );
}

proof fn lemma_block_parts(before: Seq<Seq<char>>, blocks: Seq<BlockView>, n: nat, i: int)
    requires
        0 <= i < n <= blocks.len(),
    ensures
        block_parts(before, blocks, n).contains(blocks[i].text),
        block_parts(before, blocks, n).contains(blocks[i].block_type),
    decreases n,
{
    let all = block_parts(before, blocks, n);
    let less = block_parts(before, blocks, (n - 1) as nat);
    if i == n - 1 {
        assert(all[less.len() as int] == blocks[i].block_type);
        assert(all[(less.len() + 1) as int] == blocks[i].text);
    } else {
        lemma_block_parts(before, blocks, (n - 1) as nat, i);
        let a = choose|k: int| 0 <= k < less.len() && less[k] == blocks[i].text;
        let b = choose|k: int| 0 <= k < less.len() && less[k] == blocks[i].block_type;
        assert(all[a] == blocks[i].text);
        assert(all[b] == blocks[i].block_type);
    }
}

/// While a call is not closed nothing of it is shown, and the filter waits on.
pub proof fn law_open_calls_stay_hidden(rest: Seq<char>, awaited: Seq<char>)
    requires
        !contains_text(rest, awaited),
        forall|k: int| 0 <= k < 12 ==> !contains_text(rest, #[trigger] end_markers()[k]),
    ensures
        filter_text(rest, true, Some(awaited)).0.len() == 0,
        filter_text(rest, true, Some(awaited)).1.in_tool_call,
        filter_text(rest, true, Some(awaited)).1.active_end_marker == Some(awaited),
{
    lemma_find_from(rest, awaited, 0);
    law_first_mark_is_found(rest, end_markers());
    assert(end_markers().len() == 12);
    if let Some((i, k)) = first_marker(rest, end_markers()) {
        assert(occurs_at(rest, end_markers()[k], i));
        assert(contains_text(rest, end_markers()[k]));
    }
    if let Some(i) = find_from(rest, awaited, 0) {
        assert(occurs_at(rest, awaited, i));
    }
}

/// The digest of a prompt is taken of the kind and the text of each block too.
pub proof fn law_digests_take_all(blocks: Seq<BlockView>, n: nat)
    requires
        n < blocks.len(),
    ensures
        ({
            let before = crate::engine::metadata::block_parts(blocks, n);
            let after = crate::engine::metadata::block_parts(blocks, n + 1);
            &&& before.is_prefix_of(after)
            &&& after[before.len() as int] == blocks[n as int].block_type
            &&& after[(before.len() + 1) as int] == blocks[n as int].text
            &&& blocks[n as int].cache_type matches Some(c) ==> after.last() == c && after.len()
                == before.len() + 3
            &&& blocks[n as int].cache_type is None ==> after.len() == before.len() + 2
        }),
{
}

} // verus!
