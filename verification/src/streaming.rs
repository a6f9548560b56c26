//! Stream health rules, and the filter that keeps hand-written tool-call
//! wrappers out of the visible answer.

use crate::text::{
    ascii_lower, chars_of, contains, contains_text, find_chars, find_from, lemma_find_from,
    occurs_at, push_chars, skip_chars, text_of, to_ascii_lowercase,
};
use vstd::prelude::*;

verus! {

/// The kinds of block a streamed answer is made of.
#[derive(Clone, Copy, Debug, PartialEq, Eq, Structural)]
pub enum ContentBlockKind {
    Text,
    Thinking,
    ToolUse,
}

/// The most bytes one streamed answer may hold.
pub const STREAM_MAX_CONTENT_BYTES: usize = 10485760;

/// The longest one stream may run, in seconds.
pub const STREAM_MAX_DURATION_SECS: u64 = 1800;

/// How many stream errors are tolerated before the turn fails.
pub const MAX_STREAM_ERRORS_BEFORE_FAIL: u32 = 5;

/// How often a stream that yielded nothing is retried unseen.
pub const MAX_TRANSPARENT_STREAM_RETRIES: u32 = 2;

/// How often a stream is resumed after the machine slept.
pub const MAX_STREAM_RETRIES: u32 = 3;

/// Ten seconds, in nanoseconds: a larger gap between the wall clock and the
/// monotonic clock means that the machine slept.
pub const SLEEP_GAP_THRESHOLD_NANOS: u128 = 10_000_000_000;

/// A stream is retried unseen while nothing of it was shown, the budget holds
/// and nobody cancelled.
pub fn should_transparently_retry_stream(
    any_content_received: bool,
    transparent_attempts: u32,
    cancelled: bool,
) -> (r: bool)
    ensures
        r == (!any_content_received && transparent_attempts < 2 && !cancelled),
{
    !any_content_received && transparent_attempts < MAX_TRANSPARENT_STREAM_RETRIES && !cancelled
}

/// Whether the wall clock ran more than ten seconds ahead of the monotonic
/// clock. Both spans are in nanoseconds.
pub fn sleep_gap_detected(monotonic_elapsed: u128, wallclock_elapsed: u128) -> (r: bool)
    ensures
        r == (wallclock_elapsed - monotonic_elapsed > 10_000_000_000),
{
    wallclock_elapsed > monotonic_elapsed && wallclock_elapsed - monotonic_elapsed
        > SLEEP_GAP_THRESHOLD_NANOS
}

/// A stream is resumed after a sleep while the retry budget holds and nobody
/// cancelled.
pub fn should_resume_after_sleep(sleep_detected: bool, retry_attempts: u32, cancelled: bool) -> (r:
    bool)
    ensures
        r == (sleep_detected && retry_attempts < 3 && !cancelled),
{
    sleep_detected && retry_attempts < MAX_STREAM_RETRIES && !cancelled
}

/// The error text says that the body of the response could not be read.
pub open spec fn is_stream_read_error(message: Seq<char>) -> bool {
    let lower = ascii_lower(message);
    ||| contains_text(lower, "stream read error"@)
    ||| contains_text(lower, "error decoding response body"@)
    ||| contains_text(lower, "chunk decode error"@)
    ||| contains_text(lower, "body decode"@)
}

/// What the user is told about a stream error.
pub open spec fn stream_error_text(message: Seq<char>, any_content_received: bool) -> Seq<char> {
    if !is_stream_read_error(message) {
        message
    } else {
        "Provider stream connection dropped while reading the response body. "@ + (
        if any_content_received {
            "Some output had already streamed, so CodeWhale is surfacing the warning instead of replaying the request and risking duplicated output."@
        } else {
            "No output had streamed yet, so CodeWhale will retry automatically while retry budget remains."@
        }) + " Details: "@ + message
    }
}

/// Rewrites a read error of the response stream into words for the user; any
/// other message is handed back as it is.
pub fn stream_read_error_user_message(message: &str, any_content_received: bool) -> (r: String)
    ensures
        r@ == stream_error_text(message@, any_content_received),
{
    let lower = to_ascii_lowercase(message);
    let l = lower.as_str();
    let is_stream_read = contains(l, "stream read error") || contains(
        l,
        "error decoding response body",
    ) || contains(l, "chunk decode error") || contains(l, "body decode");
    if !is_stream_read {
        return message.to_owned();
    }
    let mut out = "Provider stream connection dropped while reading the response body. ".to_owned();
    if any_content_received {
        out.append(
            "Some output had already streamed, so CodeWhale is surfacing the warning instead of replaying the request and risking duplicated output.",
        );
    } else {
        out.append(
            "No output had streamed yet, so CodeWhale will retry automatically while retry budget remains.",
        );
    }
    out.append(" Details: ");
    out.append(message);
    out
}

// ---------------------------------------------------------------------------
// Markers
// ---------------------------------------------------------------------------

/// The texts that open a hand-written tool call.
pub open spec fn start_markers() -> Seq<Seq<char>> {
    seq![
        "[TOOL_CALL]"@,
        "<codewhale:tool_call"@,
        "<tool_call"@,
        "<invoke "@,
        "<function_calls>"@,
        "<｜DSML｜tool_calls>"@,
        "<｜DSML｜invoke "@,
        "<|DSML|tool_calls>"@,
        "<|DSML|invoke "@,
        "<|dsml|tool_calls>"@,
        "<|dsml|invoke "@,
        "<|tool_calls>"@,
    ]
}

/// The texts that close one, each at the place of its opening text.
pub open spec fn end_markers() -> Seq<Seq<char>> {
    seq![
        "[/TOOL_CALL]"@,
        "</codewhale:tool_call>"@,
        "</tool_call>"@,
        "</invoke>"@,
        "</function_calls>"@,
        "</｜DSML｜tool_calls>"@,
        "</｜DSML｜invoke>"@,
        "</|DSML|tool_calls>"@,
        "</|DSML|invoke>"@,
        "</|dsml|tool_calls>"@,
        "</|dsml|invoke>"@,
        "</|tool_calls>"@,
    ]
}

/// The views of a list of markers.
pub open spec fn marker_texts(markers: Seq<&'static str>) -> Seq<Seq<char>> {
    markers.map_values(|m: &'static str| m@)
}

/// The opening markers, in order of preference.
pub fn tool_call_start_markers() -> (r: Vec<&'static str>)
    ensures
        marker_texts(r@) == start_markers(),
{
    let r: Vec<&'static str> =
        vec![
        "[TOOL_CALL]",
        "<codewhale:tool_call",
        "<tool_call",
        "<invoke ",
        "<function_calls>",
        "<｜DSML｜tool_calls>",
        "<｜DSML｜invoke ",
        "<|DSML|tool_calls>",
        "<|DSML|invoke ",
        "<|dsml|tool_calls>",
        "<|dsml|invoke ",
        "<|tool_calls>",
    ];
    proof {
        assert(marker_texts(r@) =~= start_markers());
    }
    r
}

/// The closing markers, each at the place of its opening marker.
pub fn tool_call_end_markers() -> (r: Vec<&'static str>)
    ensures
        marker_texts(r@) == end_markers(),
{
    let r: Vec<&'static str> =
        vec![
        "[/TOOL_CALL]",
        "</codewhale:tool_call>",
        "</tool_call>",
        "</invoke>",
        "</function_calls>",
        "</｜DSML｜tool_calls>",
        "</｜DSML｜invoke>",
        "</|DSML|tool_calls>",
        "</|DSML|invoke>",
        "</|dsml|tool_calls>",
        "</|dsml|invoke>",
        "</|tool_calls>",
    ];
    proof {
        assert(marker_texts(r@) =~= end_markers());
    }
    r
}

/// No marker is empty.
pub proof fn lemma_markers_not_empty()
    ensures
        start_markers().len() == 12,
        end_markers().len() == 12,
        forall|k: int| 0 <= k < 12 ==> #[trigger] start_markers()[k].len() > 0,
        forall|k: int| 0 <= k < 12 ==> #[trigger] end_markers()[k].len() > 0,
{
    reveal_strlit("[TOOL_CALL]");
    reveal_strlit("<codewhale:tool_call");
    reveal_strlit("<tool_call");
    reveal_strlit("<invoke ");
    reveal_strlit("<function_calls>");
    reveal_strlit("<｜DSML｜tool_calls>");
    reveal_strlit("<｜DSML｜invoke ");
    reveal_strlit("<|DSML|tool_calls>");
    reveal_strlit("<|DSML|invoke ");
    reveal_strlit("<|dsml|tool_calls>");
    reveal_strlit("<|dsml|invoke ");
    reveal_strlit("<|tool_calls>");
    reveal_strlit("[/TOOL_CALL]");
    reveal_strlit("</codewhale:tool_call>");
    reveal_strlit("</tool_call>");
    reveal_strlit("</invoke>");
    reveal_strlit("</function_calls>");
    reveal_strlit("</｜DSML｜tool_calls>");
    reveal_strlit("</｜DSML｜invoke>");
    reveal_strlit("</|DSML|tool_calls>");
    reveal_strlit("</|DSML|invoke>");
    reveal_strlit("</|dsml|tool_calls>");
    reveal_strlit("</|dsml|invoke>");
    reveal_strlit("</|tool_calls>");
}

// ---------------------------------------------------------------------------
// Where markers stand
// ---------------------------------------------------------------------------

/// The leftmost of the first `n` markers in `s`: where it stands and which it
/// is. Of two at one place the earlier in the list is taken.
pub open spec fn first_of(s: Seq<char>, markers: Seq<Seq<char>>, n: nat) -> Option<(int, int)>
    decreases n,
{
    if n == 0 {
        None
    } else {
        let before = first_of(s, markers, (n - 1) as nat);
        match find_from(s, markers[n - 1], 0) {
            None => before,
            Some(i) => match before {
                Some((j, k)) => if j <= i {
                    Some((j, k))
                } else {
                    Some((i, n - 1))
                },
                None => Some((i, n - 1)),
            },
        }
    }
}

/// The leftmost marker of the list in `s`.
pub open spec fn first_marker(s: Seq<char>, markers: Seq<Seq<char>>) -> Option<(int, int)> {
    first_of(s, markers, markers.len())
}

/// One of the markers stands somewhere in `s`.
pub open spec fn holds_marker(s: Seq<char>, markers: Seq<Seq<char>>) -> bool {
    exists|k: int| 0 <= k < markers.len() && #[trigger] contains_text(s, markers[k])
}

/// `first_of` names an occurrence, and none lies further left.
pub proof fn lemma_first_of(s: Seq<char>, markers: Seq<Seq<char>>, n: nat)
    requires
        n <= markers.len(),
    ensures
        match first_of(s, markers, n) {
            Some((i, k)) => 0 <= k < n && occurs_at(s, markers[k], i) && forall|m: int, j: int|
                0 <= m < n && j < i ==> !#[trigger] occurs_at(s, markers[m], j),
            None => forall|m: int, j: int| 0 <= m < n ==> !#[trigger] occurs_at(s, markers[m], j),
        },
    decreases n,
{
    if n > 0 {
        lemma_first_of(s, markers, (n - 1) as nat);
        lemma_find_from(s, markers[n - 1], 0);
        let before = first_of(s, markers, (n - 1) as nat);
        let here = find_from(s, markers[n - 1], 0);
        match first_of(s, markers, n) {
            Some((i, k)) => {
                assert forall|m: int, j: int| 0 <= m < n && j < i implies !#[trigger] occurs_at(
                    s,
                    markers[m],
                    j,
                ) by {
                    if m == n - 1 && j < 0 {
                    }
                }
            },
            None => {
                assert forall|m: int, j: int| 0 <= m < n implies !#[trigger] occurs_at(
                    s,
                    markers[m],
                    j,
                ) by {
                    if j < 0 {
                    }
                }
            },
        }
    }
}

/// A text holds a marker exactly when `first_marker` finds one.
pub proof fn lemma_holds_first(s: Seq<char>, markers: Seq<Seq<char>>)
    ensures
        holds_marker(s, markers) <==> first_marker(s, markers) is Some,
{
    lemma_first_of(s, markers, markers.len());
    if holds_marker(s, markers) {
        let k = choose|k: int| 0 <= k < markers.len() && #[trigger] contains_text(s, markers[k]);
        let i = choose|i: int| occurs_at(s, markers[k], i);
        assert(occurs_at(s, markers[k], i));
    }
    if let Some((i, k)) = first_marker(s, markers) {
        assert(occurs_at(s, markers[k], i));
        assert(contains_text(s, markers[k]));
    }
}

/// The last `k` characters of `s` are the beginning, and not the whole, of one
/// of the markers.
pub open spec fn held(s: Seq<char>, markers: Seq<Seq<char>>, k: int) -> bool {
    0 < k <= s.len() && exists|m: int|
        0 <= m < markers.len() && k < (#[trigger] markers[m]).len() && s.skip(s.len() - k)
            == markers[m].take(k)
}

/// The largest `k` up to `n` for which `held` is true, or zero.
pub open spec fn longest_held(s: Seq<char>, markers: Seq<Seq<char>>, n: nat) -> nat
    decreases n,
{
    if n == 0 {
        0
    } else if held(s, markers, n as int) {
        n
    } else {
        longest_held(s, markers, (n - 1) as nat)
    }
}

/// How many characters at the end of `s` may still grow into a marker.
pub open spec fn trailing_prefix(s: Seq<char>, markers: Seq<Seq<char>>) -> nat {
    longest_held(s, markers, s.len())
}

/// `longest_held` is held, or zero, and nothing longer is.
pub proof fn lemma_longest_held(s: Seq<char>, markers: Seq<Seq<char>>, n: nat)
    ensures
        longest_held(s, markers, n) <= n,
        longest_held(s, markers, n) > 0 ==> held(s, markers, longest_held(s, markers, n) as int),
        forall|k: int|
            longest_held(s, markers, n) < k <= n ==> !#[trigger] held(s, markers, k),
    decreases n,
{
    if n > 0 && !held(s, markers, n as int) {
        lemma_longest_held(s, markers, (n - 1) as nat);
    }
}

/// The leftmost marker of a list, by its place and its index.
fn find_first_marker(s: &Vec<char>, markers: &Vec<&'static str>) -> (r: Option<(usize, usize)>)
    ensures
        match r {
            Some((i, k)) => first_marker(s@, marker_texts(markers@)) == Some((i as int, k as int)),
            None => first_marker(s@, marker_texts(markers@)) is None,
        },
{
    let mut best: Option<(usize, usize)> = None;
    let mut n: usize = 0;
    while n < markers.len()
        invariant
            n <= markers@.len(),
            match best {
                Some((i, k)) => first_of(s@, marker_texts(markers@), n as nat) == Some(
                    (i as int, k as int),
                ),
                None => first_of(s@, marker_texts(markers@), n as nat) is None,
            },
        decreases markers@.len() - n,
    {
        let pat = chars_of(markers[n]);
        if let Some(i) = find_chars(s, &pat, 0) {
            match best {
                Some((j, _)) => {
                    if j > i {
                        best = Some((i, n));
                    }
                },
                None => {
                    best = Some((i, n));
                },
            }
        }
        n += 1;
    }
    best
}

/// How many characters at the end of `s` may still grow into a marker.
fn trailing_marker_prefix_len(s: &Vec<char>, markers: &Vec<&'static str>) -> (r: usize)
    ensures
        r == trailing_prefix(s@, marker_texts(markers@)),
        r <= s@.len(),
{
    let ghost all = marker_texts(markers@);
    let mut best: usize = 0;
    let mut m: usize = 0;
    while m < markers.len()
        invariant
            all == marker_texts(markers@),
            m <= markers@.len(),
            best <= s@.len(),
            best > 0 ==> held(s@, all, best as int),
            forall|j: int, k: int|
                0 <= j < m && best < k <= s@.len() && k < all[j].len() ==> s@.skip(s@.len() - k)
                    != #[trigger] all[j].take(k),
        decreases markers@.len() - m,
    {
        let pat = chars_of(markers[m]);
        let ghost before = best;
        let mut k: usize = 1;
        while k < pat.len() && k <= s.len()
            invariant
                all == marker_texts(markers@),
                m < markers@.len(),
                pat@ == all[m as int],
                1 <= k,
                k <= s@.len() + 1,
                before <= best <= s@.len(),
                best > 0 ==> held(s@, all, best as int),
                forall|q: int|
                    best < q < k && q < pat@.len() ==> s@.skip(s@.len() - q)
                        != #[trigger] pat@.take(q),
            decreases s@.len() + 1 - k,
        {
            let ends = prefix_stands_at_end(s, &pat, k);
            if ends && k > best {
                best = k;
                proof {
                    assert(all[m as int].take(k as int) == s@.skip(s@.len() - k));
                    assert(held(s@, all, k as int));
                }
            }
            k += 1;
        }
        m += 1;
    }
    proof {
        assert forall|k: int| best < k <= s@.len() implies !#[trigger] held(s@, all, k) by {
            if held(s@, all, k) {
                let w = choose|w: int|
                    0 <= w < all.len() && k < (#[trigger] all[w]).len() && s@.skip(s@.len() - k)
                        == all[w].take(k);
                assert(s@.skip(s@.len() - k) == all[w].take(k));
            }
        }
        lemma_longest_held(s@, all, s@.len());
        let l = longest_held(s@, all, s@.len());
        if l > best {
            assert(held(s@, all, l as int));
        }
        if best > l {
            assert(held(s@, all, best as int));
        }
    }
    best
}

/// Whether the last `k` characters of `s` are the first `k` of `pat`.
fn prefix_stands_at_end(s: &Vec<char>, pat: &Vec<char>, k: usize) -> (r: bool)
    requires
        k <= s@.len(),
        k <= pat@.len(),
    ensures
        r == (s@.skip(s@.len() - k) == pat@.take(k as int)),
{
    let start: usize = s.len() - k;
    let mut i: usize = 0;
    while i < k
        invariant
            i <= k,
            k <= pat@.len(),
            k <= s@.len(),
            start == s@.len() - k,
            start + k <= s.len(),
            forall|j: int| 0 <= j < i ==> s@[start + j] == pat@[j],
        decreases k - i,
    {
        if s[start + i] != pat[i] {
            proof {
                assert(s@.skip(s@.len() - k)[i as int] != pat@.take(k as int)[i as int]);
            }
            return false;
        }
        i += 1;
    }
    proof {
        assert(s@.skip(s@.len() - k) =~= pat@.take(k as int));
    }
    true
}

/// Whether a text holds a hand-written tool call.
pub fn contains_fake_tool_wrapper(text: &str) -> (r: bool)
    ensures
        r == holds_marker(text@, start_markers()),
{
    let s = chars_of(text);
    let markers = tool_call_start_markers();
    proof {
        lemma_holds_first(text@, start_markers());
    }
    find_first_marker(&s, &markers).is_some()
}

// ---------------------------------------------------------------------------
// The filter
// ---------------------------------------------------------------------------

/// What the filter remembers between two chunks of an answer.
#[verifier::ext_equal]
pub struct FilterView {
    pub in_tool_call: bool,
    pub marker_carry: Seq<char>,
    pub active_end_marker: Option<Seq<char>>,
}

/// What the filter remembers between two chunks of an answer: whether it is
/// inside a tool call, the end of the last chunk that may still grow into a
/// marker, and the marker that closes the call it is in.
#[derive(Debug)]
pub struct ToolCallDeltaFilterState {
    in_tool_call: bool,
    marker_carry: String,
    active_end_marker: Option<&'static str>,
}

impl View for ToolCallDeltaFilterState {
    type V = FilterView;

    closed spec fn view(&self) -> FilterView {
        FilterView {
            in_tool_call: self.in_tool_call,
            marker_carry: self.marker_carry@,
            active_end_marker: match self.active_end_marker {
                Some(m) => Some(m@),
                None => None,
            },
        }
    }
}

impl Default for ToolCallDeltaFilterState {
    fn default() -> (r: Self)
        ensures
            r@ == fresh_filter(),
    {
        let r = ToolCallDeltaFilterState {
            in_tool_call: false,
            marker_carry: String::new(),
            active_end_marker: None,
        };
        proof {
            assert(r@ =~= fresh_filter());
        }
        r
    }
}

impl ToolCallDeltaFilterState {
    /// Whether the filter is inside a tool call.
    pub fn in_tool_call(&self) -> (r: bool)
        ensures
            r == self@.in_tool_call,
    {
        self.in_tool_call
    }
}

/// The filter before the first chunk.
pub open spec fn fresh_filter() -> FilterView {
    FilterView { in_tool_call: false, marker_carry: Seq::empty(), active_end_marker: None }
}

/// Where the tool call that is open ends in `rest`, and how long the marker is:
/// at its own closing marker, or where that does not occur at the leftmost
/// closing marker of any kind.
pub open spec fn call_end(rest: Seq<char>, active: Option<Seq<char>>) -> Option<(int, int)> {
    let own = match active {
        Some(m) => match find_from(rest, m, 0) {
            Some(i) => Some((i, m.len() as int)),
            None => None,
        },
        None => None,
    };
    match own {
        Some(e) => Some(e),
        None => match first_marker(rest, end_markers()) {
            Some((i, k)) => Some((i, end_markers()[k].len() as int)),
            None => None,
        },
    }
}

/// The markers whose beginnings are held back at the end of a chunk inside a
/// call.
pub open spec fn awaited_ends(active: Option<Seq<char>>) -> Seq<Seq<char>> {
    match active {
        Some(m) => seq![m],
        None => end_markers(),
    }
}

/// What the filter shows of `rest`, and what it remembers afterwards.
///
/// Outside a call the text up to the leftmost opening marker is shown; with no
/// such marker all is shown but the end that may still grow into one. Inside a
/// call nothing is shown up to the end of the call.
pub open spec fn filter_text(
    rest: Seq<char>,
    in_tool_call: bool,
    active: Option<Seq<char>>,
) -> (Seq<char>, FilterView)
    decreases rest.len(),
{
    if in_tool_call {
        match call_end(rest, active) {
            Some((i, len)) => if 0 <= i && 0 < len && i + len <= rest.len() {
                filter_text(rest.skip(i + len), false, None)
            } else {
                (Seq::empty(), fresh_filter())
            },
            None => {
                let keep = trailing_prefix(rest, awaited_ends(active));
                (
                    Seq::empty(),
                    FilterView {
                        in_tool_call: true,
                        marker_carry: rest.skip(rest.len() - keep),
                        active_end_marker: active,
                    },
                )
            },
        }
    } else {
        match first_marker(rest, start_markers()) {
            Some((i, k)) => {
                let len = start_markers()[k].len();
                if 0 <= i && 0 < len && i + len <= rest.len() {
                    let after = filter_text(rest.skip(i + len), true, Some(end_markers()[k]));
                    (rest.take(i) + after.0, after.1)
                } else {
                    (Seq::empty(), fresh_filter())
                }
            },
            None => {
                let keep = trailing_prefix(rest, start_markers());
                (
                    rest.take(rest.len() - keep),
                    FilterView {
                        in_tool_call: false,
                        marker_carry: rest.skip(rest.len() - keep),
                        active_end_marker: active,
                    },
                )
            },
        }
    }
}

/// What the filter shows of one chunk, and what it remembers afterwards.
pub open spec fn filter_step(delta: Seq<char>, state: FilterView) -> (Seq<char>, FilterView) {
    if delta.len() == 0 {
        (Seq::empty(), state)
    } else {
        filter_text(state.marker_carry + delta, state.in_tool_call, state.active_end_marker)
    }
}

/// A state the filter can be in: the marker it waits for is one of the closing
/// markers.
pub open spec fn filter_wf(state: FilterView) -> bool {
    match state.active_end_marker {
        Some(m) => m.len() > 0,
        None => true,
    }
}

/// The guard in `filter_text` never fails: a marker that was found lies inside
/// the text and is not empty.
pub proof fn lemma_filter_guards(rest: Seq<char>, active: Option<Seq<char>>)
    requires
        active matches Some(m) ==> m.len() > 0,
    ensures
        call_end(rest, active) matches Some((i, len)) ==> 0 <= i && 0 < len && i + len
            <= rest.len(),
        first_marker(rest, start_markers()) matches Some((i, k)) ==> 0 <= k < 12 && 0 <= i && 0
            < start_markers()[k].len() && i + start_markers()[k].len() <= rest.len(),
{
    lemma_markers_not_empty();
    lemma_first_of(rest, start_markers(), 12);
    lemma_first_of(rest, end_markers(), 12);
    if let Some(m) = active {
        lemma_find_from(rest, m, 0);
    }
}

/// Passes one chunk of an answer through the filter. The part that may be
/// shown is returned; what may still turn out to be a marker is held back.
pub fn filter_tool_call_delta_with_state(delta: &str, state: &mut ToolCallDeltaFilterState) -> (r:
    String)
    requires
        filter_wf(old(state)@),
    ensures
        (r@, final(state)@) == filter_step(delta@, old(state)@),
        filter_wf(final(state)@),
{
    if delta.is_empty() {
        return String::new();
    }
    let ghost start_state = state@;
    let mut chunk = state.marker_carry.clone();
    chunk.append(delta);
    state.marker_carry = String::new();
    let ghost whole = chunk@;
    let mut rest = chars_of(chunk.as_str());
    let mut output = String::new();
    let starts = tool_call_start_markers();
    let ends = tool_call_end_markers();
    let ghost expected = filter_text(
        whole,
        start_state.in_tool_call,
        start_state.active_end_marker,
    );
    proof {
        assert(output@ + expected.0 =~= expected.0);
        lemma_markers_not_empty();
    }
    loop
        invariant_except_break
            filter_wf(state@),
            state@.marker_carry.len() == 0,
            ({
                let now = filter_text(rest@, state@.in_tool_call, state@.active_end_marker);
                expected == (output@ + now.0, now.1)
            }),
        invariant
            marker_texts(starts@) == start_markers(),
            marker_texts(ends@) == end_markers(),
            start_markers().len() == 12,
            end_markers().len() == 12,
            forall|k: int| 0 <= k < 12 ==> #[trigger] end_markers()[k].len() > 0,
        ensures
            (output@, state@) == expected,
            filter_wf(state@),
        decreases rest@.len(),
    {
        proof {
            lemma_filter_guards(rest@, state@.active_end_marker);
        }
        if state.in_tool_call {
            let own: Option<(usize, usize)> = match state.active_end_marker {
                Some(marker) => {
                    let pat = chars_of(marker);
                    match find_chars(&rest, &pat, 0) {
                        Some(i) => Some((i, pat.len())),
                        None => None,
                    }
                },
                None => None,
            };
            let found: Option<(usize, usize)> = match own {
                Some(e) => Some(e),
                None => match find_first_marker(&rest, &ends) {
                    Some((i, k)) => {
                        proof {
                            lemma_first_of(rest@, end_markers(), 12);
                        }
                        let pat = chars_of(ends[k]);
                        assert(ends@[k as int]@ == marker_texts(ends@)[k as int]);
                        Some((i, pat.len()))
                    },
                    None => None,
                },
            };
            match found {
                None => {
                    let keep = match state.active_end_marker {
                        Some(marker) => {
                            let only: Vec<&'static str> = vec![marker];
                            proof {
                                assert(marker_texts(only@) =~= seq![marker@]);
                            }
                            trailing_marker_prefix_len(&rest, &only)
                        },
                        None => trailing_marker_prefix_len(&rest, &ends),
                    };
                    let held_back = text_of(&rest, rest.len() - keep, rest.len());
                    state.marker_carry = held_back;
                    proof {
                        assert(state@.marker_carry =~= rest@.skip(rest@.len() - keep));
                        assert(output@ + Seq::<char>::empty() =~= output@);
                        assert(state@ =~= expected.1);
                    }
                    break;
                },
                Some((i, len)) => {
                    assert(call_end(rest@, state@.active_end_marker) == Some(
                        (i as int, len as int),
                    ));
                    assert(i + len <= rest.len());
                    rest = skip_chars(&rest, i + len);
                    state.in_tool_call = false;
                    state.active_end_marker = None;
                },
            }
        } else {
            match find_first_marker(&rest, &starts) {
                None => {
                    let keep = trailing_marker_prefix_len(&rest, &starts);
                    let split: usize = rest.len() - keep;
                    push_chars(&mut output, &rest, 0, split);
                    let held_back = text_of(&rest, split, rest.len());
                    state.marker_carry = held_back;
                    proof {
                        assert(rest@.subrange(0, split as int) =~= rest@.take(split as int));
                        assert(state@.marker_carry =~= rest@.skip(split as int));
                        assert(state@ =~= expected.1);
                    }
                    break;
                },
                Some((i, k)) => {
                    let pat = chars_of(starts[k]);
                    assert(starts@[k as int]@ == marker_texts(starts@)[k as int]);
                    assert(ends@[k as int]@ == marker_texts(ends@)[k as int]);
                    let ghost before = output@;
                    let ghost after = filter_text(
                        rest@.skip(i + pat@.len()),
                        true,
                        Some(end_markers()[k as int]),
                    );
                    push_chars(&mut output, &rest, 0, i);
                    proof {
                        assert(rest@.subrange(0, i as int) =~= rest@.take(i as int));
                        assert(before + (rest@.take(i as int) + after.0) =~= output@ + after.0);
                    }
                    assert(i + pat@.len() <= rest.len());
                    rest = skip_chars(&rest, i + pat.len());
                    state.in_tool_call = true;
                    state.active_end_marker = Some(ends[k]);
                },
            }
        }
    }
    output
}

/// What is shown at the end of an answer: the text held back, unless the answer
/// broke off inside a tool call.
pub open spec fn flushed(state: FilterView) -> Seq<char> {
    if state.in_tool_call {
        Seq::empty()
    } else {
        state.marker_carry
    }
}

/// Ends an answer: nothing stays held back.
pub fn flush_tool_call_delta_state(state: &mut ToolCallDeltaFilterState) -> (r: String)
    ensures
        r@ == flushed(old(state)@),
        final(state)@ == (FilterView { marker_carry: Seq::empty(), ..old(state)@ }),
{
    let carry = state.marker_carry.clone();
    state.marker_carry = String::new();
    proof {
        assert(state@ =~= FilterView { marker_carry: Seq::empty(), ..old(state)@ });
    }
    if state.in_tool_call {
        return String::new();
    }
    carry
}

/// Filters one chunk on its own, given whether it begins inside a tool call;
/// nothing is carried over to a next chunk but that.
pub fn filter_tool_call_delta(delta: &str, in_tool_call: &mut bool) -> (r: String)
    ensures
        (r@, *final(in_tool_call)) == ({
            let step = filter_step(
                delta@,
                FilterView { in_tool_call: *old(in_tool_call), ..fresh_filter() },
            );
            (step.0, step.1.in_tool_call)
        }),
{
    let mut state = ToolCallDeltaFilterState {
        in_tool_call: *in_tool_call,
        marker_carry: String::new(),
        active_end_marker: None,
    };
    assert(state@ =~= FilterView { in_tool_call: *in_tool_call, ..fresh_filter() });
    let output = filter_tool_call_delta_with_state(delta, &mut state);
    *in_tool_call = state.in_tool_call;
    output
}

// ---------------------------------------------------------------------------
// Laws
// ---------------------------------------------------------------------------

/// An occurrence in the part after `p` is an occurrence in the whole.
proof fn lemma_occurs_shift(x: Seq<char>, p: int, m: Seq<char>, i: int)
    requires
        0 <= p <= i,
        p <= x.len(),
    ensures
        occurs_at(x, m, i) <==> occurs_at(x.skip(p), m, i - p),
{
    if i + m.len() <= x.len() {
        assert(x.skip(p).subrange(i - p, i - p + m.len()) =~= x.subrange(i, i + m.len()));
    }
}

/// Where no occurrence begins before `p`, searching the whole is searching the
/// part after `p`.
proof fn lemma_find_shift(x: Seq<char>, p: int, m: Seq<char>)
    requires
        0 <= p <= x.len(),
        forall|j: int| 0 <= j < p ==> !occurs_at(x, m, j),
    ensures
        find_from(x, m, 0) == (match find_from(x.skip(p), m, 0) {
            Some(i) => Some(i + p),
            None => None,
        }),
{
    lemma_find_from(x, m, 0);
    lemma_find_from(x.skip(p), m, 0);
    if let Some(i) = find_from(x, m, 0) {
        lemma_occurs_shift(x, p, m, i);
        assert(occurs_at(x.skip(p), m, i - p));
        match find_from(x.skip(p), m, 0) {
            Some(j) => {
                lemma_occurs_shift(x, p, m, j + p);
                assert(occurs_at(x, m, j + p));
            },
            None => {},
        }
    } else if let Some(j) = find_from(x.skip(p), m, 0) {
        lemma_occurs_shift(x, p, m, j + p);
        assert(occurs_at(x, m, j + p));
    }
}

/// The same for the leftmost marker of a list.
proof fn lemma_first_shift(x: Seq<char>, p: int, markers: Seq<Seq<char>>, n: nat)
    requires
        0 <= p <= x.len(),
        n <= markers.len(),
        forall|m: int, j: int|
            0 <= m < markers.len() && 0 <= j < p ==> !#[trigger] occurs_at(x, markers[m], j),
    ensures
        first_of(x, markers, n) == (match first_of(x.skip(p), markers, n) {
            Some((i, k)) => Some((i + p, k)),
            None => None,
        }),
    decreases n,
{
    if n > 0 {
        lemma_first_shift(x, p, markers, (n - 1) as nat);
        lemma_find_shift(x, p, markers[n - 1]);
    }
}

/// Where `x` holds no marker and only its last `keep` characters may grow into
/// one, a marker in `x + b` does not begin before them, and neither does a text
/// that `x + b` holds back.
proof fn lemma_split_point(x: Seq<char>, b: Seq<char>, markers: Seq<Seq<char>>)
    requires
        forall|m: int, j: int|
            0 <= m < markers.len() ==> !#[trigger] occurs_at(x, markers[m], j),
    ensures
        trailing_prefix(x, markers) <= x.len(),
        forall|m: int, j: int|
            0 <= m < markers.len() && 0 <= j < x.len() - trailing_prefix(x, markers)
                ==> !#[trigger] occurs_at(x + b, markers[m], j),
        forall|k: int|
            trailing_prefix(x, markers) + b.len() < k <= x.len() + b.len() ==> !#[trigger] held(
                x + b,
                markers,
                k,
            ),
{
    lemma_longest_held(x, markers, x.len());
    let keep = trailing_prefix(x, markers);
    let w = x + b;
    assert forall|m: int, j: int|
        0 <= m < markers.len() && 0 <= j < x.len() - keep implies !#[trigger] occurs_at(
        w,
        markers[m],
        j,
    ) by {
        if occurs_at(w, markers[m], j) {
            let mk = markers[m];
            if j + mk.len() <= x.len() {
                assert(x.subrange(j, j + mk.len()) =~= w.subrange(j, j + mk.len()));
                assert(occurs_at(x, markers[m], j));
            } else {
                let k = x.len() - j;
                assert(w.subrange(j, j + mk.len()) == mk);
                assert forall|q: int| 0 <= q < k implies x.skip(j)[q] == mk[q] by {
                    assert(w.subrange(j, j + mk.len())[q] == w[j + q]);
                }
                assert(x.skip(x.len() - k) =~= markers[m].take(k));
                assert(held(x, markers, k));
            }
        }
    }
    assert forall|k: int| keep + b.len() < k <= x.len() + b.len() implies !#[trigger] held(
        w,
        markers,
        k,
    ) by {
        if held(w, markers, k) {
            let m = choose|m: int|
                0 <= m < markers.len() && k < (#[trigger] markers[m]).len() && w.skip(w.len() - k)
                    == markers[m].take(k);
            let mk = markers[m];
            let q = k - b.len();
            assert forall|z: int| 0 <= z < q implies x.skip(x.len() - q)[z] == mk[z] by {
                assert(w.skip(w.len() - k)[z] == w[w.len() - k + z]);
                assert(mk.take(k)[z] == mk[z]);
            }
            assert(x.skip(x.len() - q) =~= markers[m].take(q));
            assert(held(x, markers, q));
        }
    }
}

/// Under the same conditions `x + b` holds back what its part after the split
/// point holds back.
proof fn lemma_trailing_shift(w: Seq<char>, p: int, markers: Seq<Seq<char>>)
    requires
        0 <= p <= w.len(),
        forall|k: int| w.len() - p < k <= w.len() ==> !#[trigger] held(w, markers, k),
    ensures
        trailing_prefix(w, markers) == trailing_prefix(w.skip(p), markers),
{
    let y = w.skip(p);
    lemma_longest_held(w, markers, w.len());
    lemma_longest_held(y, markers, y.len());
    assert forall|k: int| 0 < k <= y.len() implies #[trigger] held(w, markers, k) == held(
        y,
        markers,
        k,
    ) by {
        assert(w.skip(w.len() - k) =~= y.skip(y.len() - k));
    }
    let a = trailing_prefix(w, markers);
    let c = trailing_prefix(y, markers);
    if a > c {
        assert(held(w, markers, a as int));
        assert(held(y, markers, a as int));
    }
    if c > a {
        assert(held(y, markers, c as int));
        assert(held(w, markers, c as int));
    }
}

/// A text without an opening marker is shown as it is, once the answer ends.
pub proof fn law_plain_text_passes(text: Seq<char>)
    requires
        !holds_marker(text, start_markers()),
    ensures
        ({
            let step = filter_step(text, fresh_filter());
            step.0 + flushed(step.1) == text && !step.1.in_tool_call
        }),
{
    lemma_holds_first(text, start_markers());
    lemma_longest_held(text, start_markers(), text.len());
    assert(fresh_filter().marker_carry + text =~= text);
    let step = filter_step(text, fresh_filter());
    assert(step.0 + flushed(step.1) =~= text);
}

/// Outside a call it makes no difference where an answer is cut into chunks,
/// as long as the first piece holds no whole opening marker: the two pieces
/// show together what the undivided text shows, and leave the filter in the
/// same state.
pub proof fn law_split_outside_call(state: FilterView, a: Seq<char>, b: Seq<char>)
    requires
        !state.in_tool_call,
        !holds_marker(state.marker_carry + a, start_markers()),
        a.len() > 0,
    ensures
        ({
            let one = filter_step(a, state);
            let two = filter_step(b, one.1);
            filter_step(a + b, state) == (one.0 + two.0, two.1)
        }),
{
    let markers = start_markers();
    let act = state.active_end_marker;
    let x = state.marker_carry + a;
    lemma_markers_not_empty();
    lemma_holds_first(x, markers);
    lemma_first_of(x, markers, 12);
    lemma_longest_held(x, markers, x.len());
    let one = filter_step(a, state);
    let two = filter_step(b, one.1);
    let keep = trailing_prefix(x, markers);
    let p = x.len() - keep;
    if b.len() == 0 {
        assert(a + b =~= a);
        assert(one.0 + Seq::<char>::empty() =~= one.0);
    } else {
        let w = x + b;
        assert(state.marker_carry + (a + b) =~= w);
        lemma_split_point(x, b, markers);
        let y = w.skip(p);
        assert(x.skip(p) + b =~= y);
        lemma_first_shift(w, p, markers, 12);
        assert(two == filter_text(y, false, act));
        lemma_filter_guards(y, None);
        match first_marker(y, markers) {
            Some((i, k)) => {
                let len = markers[k].len();
                assert(w.skip(i + p + len) =~= y.skip(i + len));
                assert(w.take(i + p) =~= x.take(p) + y.take(i));
                let after = filter_text(y.skip(i + len), true, Some(end_markers()[k]));
                assert(w.take(i + p) + after.0 =~= one.0 + (y.take(i) + after.0));
            },
            None => {
                lemma_trailing_shift(w, p, markers);
                lemma_longest_held(y, markers, y.len());
                let q = trailing_prefix(y, markers);
                assert(w.take(w.len() - q) =~= x.take(p) + y.take(y.len() - q));
                assert(w.skip(w.len() - q) =~= y.skip(y.len() - q));
            },
        }
    }
}

/// Inside a call the closing marker is recognised wherever the answer is cut:
/// where the first piece closes no call and the two pieces together hold the
/// marker that is awaited, they show what the undivided text shows, and leave
/// the filter in the same state.
pub proof fn law_split_inside_call(
    state: FilterView,
    awaited: Seq<char>,
    a: Seq<char>,
    b: Seq<char>,
)
    requires
        state.in_tool_call,
        state.active_end_marker == Some(awaited),
        awaited.len() > 0,
        a.len() > 0,
        call_end(state.marker_carry + a, Some(awaited)) is None,
        contains_text(state.marker_carry + a + b, awaited),
    ensures
        ({
            let one = filter_step(a, state);
            let two = filter_step(b, one.1);
            filter_step(a + b, state) == (one.0 + two.0, two.1)
        }),
{
    let markers = seq![awaited];
    let x = state.marker_carry + a;
    let w = x + b;
    lemma_find_from(x, awaited, 0);
    assert forall|m: int, j: int| 0 <= m < markers.len() implies !#[trigger] occurs_at(
        x,
        markers[m],
        j,
    ) by {
        assert(markers[m] == awaited);
    }
    lemma_longest_held(x, markers, x.len());
    lemma_split_point(x, b, markers);
    let keep = trailing_prefix(x, markers);
    let p = x.len() - keep;
    let y = w.skip(p);
    assert(x.skip(p) + b =~= y);
    assert(state.marker_carry + (a + b) =~= w);
    assert forall|j: int| 0 <= j < p implies !occurs_at(w, awaited, j) by {
        assert(!occurs_at(w, markers[0], j));
    }
    lemma_find_shift(w, p, awaited);
    lemma_find_from(w, awaited, 0);
    let i0 = choose|i: int| occurs_at(w, awaited, i);
    assert(occurs_at(w, awaited, i0));
    if b.len() == 0 {
        assert(w =~= x);
    } else {
        let i = find_from(y, awaited, 0)->0;
        lemma_find_from(y, awaited, 0);
        assert(w.skip(i + p + awaited.len()) =~= y.skip(i + awaited.len()));
        let one = filter_step(a, state);
        let two = filter_step(b, one.1);
        assert(two == filter_text(y, true, Some(awaited)));
        assert(one.0 + two.0 =~= two.0);
    }
}

} // verus!
