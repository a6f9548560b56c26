//! What a rule decides.

use crate::text::same_text;
use vstd::prelude::*;

verus! {

/// A rule that cannot be read.
#[derive(Debug)]
pub enum Error {
    InvalidDecision(String),
}

/// What a rule decides, from the mildest to the strictest.
#[derive(Clone, Copy, Debug, Eq, PartialEq, Ord, PartialOrd, Structural)]
pub enum Decision {
    Allow,
    Prompt,
    Forbidden,
}

impl Decision {
    /// The word for a decision.
    pub open spec fn word(self) -> Seq<char> {
        match self {
            Decision::Allow => "allow"@,
            Decision::Prompt => "prompt"@,
            Decision::Forbidden => "forbidden"@,
        }
    }

    /// The decision that a word stands for; another word is refused.
    pub fn parse(raw: &str) -> (r: Result<Self, Error>)
        ensures
            match r {
                Ok(d) => raw@ == d.word(),
                Err(Error::InvalidDecision(other)) => other@ == raw@ && forall|d: Decision|
                    raw@ != #[trigger] d.word(),
            },
    {
        if same_text(raw, "allow") {
            Ok(Decision::Allow)
        } else if same_text(raw, "prompt") {
            Ok(Decision::Prompt)
        } else if same_text(raw, "forbidden") {
            Ok(Decision::Forbidden)
        } else {
            Err(Error::InvalidDecision(raw.to_owned()))
        }
    }
}

/// No two decisions share a word, so a word names one decision.
pub proof fn law_words_tell_decisions_apart(a: Decision, b: Decision)
    ensures
        a.word() == b.word() ==> a == b,
{
    reveal_strlit("allow");
    reveal_strlit("prompt");
    reveal_strlit("forbidden");
    assert("allow"@.len() == 5);
    assert("prompt"@.len() == 6);
    assert("forbidden"@.len() == 9);
}

} // verus!
