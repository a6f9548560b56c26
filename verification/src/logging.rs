//! Whether messages for the log are shown.

use crate::text::{
    ascii_lower, lemma_pieces_not_empty, pieces_of, same_text, split_pieces, texts,
    to_ascii_lowercase, trim, trimmed,
};
use vstd::prelude::*;

verus! {

/// Whether the log is verbose, and whether it was when that was last noted.
#[derive(Debug, Clone, Copy, PartialEq, Eq, Structural)]
pub struct VerboseState {
    pub verbose: bool,
    pub snapshot: bool,
}

impl Default for VerboseState {
    fn default() -> (r: Self)
        ensures
            r == (VerboseState { verbose: false, snapshot: false }),
    {
        VerboseState { verbose: false, snapshot: false }
    }
}

/// The log made verbose, or not.
pub open spec fn with_verbose(state: VerboseState, enabled: bool) -> VerboseState {
    VerboseState { verbose: enabled, ..state }
}

/// The log with a note of how verbose it is.
pub open spec fn noted(state: VerboseState) -> VerboseState {
    VerboseState { snapshot: state.verbose, ..state }
}

/// The log as verbose as was last noted.
pub open spec fn restored(state: VerboseState) -> VerboseState {
    VerboseState { verbose: state.snapshot, ..state }
}

/// Makes the log verbose, or not.
pub fn set_verbose(state: &mut VerboseState, enabled: bool)
    ensures
        *final(state) == with_verbose(*old(state), enabled),
{
    state.verbose = enabled;
}

/// Notes whether the log is verbose.
pub fn snapshot_verbose_state(state: &mut VerboseState)
    ensures
        *final(state) == noted(*old(state)),
{
    state.snapshot = state.verbose;
}

/// Makes the log as verbose as it was when that was last noted.
pub fn restore_verbose_state(state: &mut VerboseState)
    ensures
        *final(state) == restored(*old(state)),
{
    state.verbose = state.snapshot;
}

/// Whether the log is verbose.
pub fn is_verbose(state: &VerboseState) -> (r: bool)
    ensures
        r == state.verbose,
{
    state.verbose
}

/// The level that a directive sets: what stands behind its last equals sign.
pub open spec fn level_of(directive: Seq<char>) -> Seq<char> {
    ascii_lower(trimmed(pieces_of(directive, '=').last()))
}

/// A directive that asks for a verbose log.
pub open spec fn asks_for_verbose(directive: Seq<char>) -> bool {
    level_of(directive) == "trace"@ || level_of(directive) == "debug"@ || level_of(directive)
        == "info"@
}

/// One of the directives asks for a verbose log.
pub open spec fn value_is_verbose(value: Seq<char>) -> bool {
    exists|i: int|
        0 <= i < pieces_of(value, ',').len() && asks_for_verbose(
            #[trigger] pieces_of(value, ',')[i],
        )
}

fn directive_is_verbose(directive: &str) -> (r: bool)
    ensures
        r == asks_for_verbose(directive@),
{
    let parts = split_pieces(directive, '=');
    proof {
        lemma_pieces_not_empty(directive@, '=');
        assert(texts(parts@).len() == parts@.len());
    }
    let last: usize = parts.len() - 1;
    assert(texts(parts@)[last as int] == parts@[last as int]@);
    let t = trim(parts[last].as_str());
    let level = to_ascii_lowercase(t.as_str());
    same_text(level.as_str(), "trace") || same_text(level.as_str(), "debug") || same_text(
        level.as_str(),
        "info",
    )
}

/// Whether a setting of the log level, a list of directives, asks for a verbose
/// log.
pub fn log_value_enables_verbose(value: &str) -> (r: bool)
    ensures
        r == value_is_verbose(value@),
{
    let directives = split_pieces(value, ',');
    let ghost all = pieces_of(value@, ',');
    let mut i: usize = 0;
    while i < directives.len()
        invariant
            i <= directives@.len(),
            all == pieces_of(value@, ','),
            all == texts(directives@),
            forall|j: int| 0 <= j < i ==> !asks_for_verbose(#[trigger] all[j]),
        decreases directives@.len() - i,
    {
        assert(all[i as int] == directives@[i as int]@);
        if directive_is_verbose(directives[i].as_str()) {
            assert(asks_for_verbose(all[i as int]));
            return true;
        }
        i += 1;
    }
    false
}

/// What is noted comes back: after a note, any change and a restoration the log
/// is as verbose as it was when that was noted.
pub proof fn law_noted_state_comes_back(state: VerboseState, between: bool)
    ensures
        restored(with_verbose(noted(state), between)).verbose == state.verbose,
{
}

} // verus!
