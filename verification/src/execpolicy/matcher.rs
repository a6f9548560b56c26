//! Patterns for commands.

use crate::text::{
    concat, contains, contains_text, join, joined, lines_of, opt_text, opt_texts, remove_all,
    replace_text, replaced, same_text, split_lines, split_words, texts, trim, trimmed, without_all,
    words_of,
};
use crate::tool_catalog::{match_each, regex_matches, regex_refusal};
use crate::tool_parser::{all_groups, captured, captures_of, group, group_of, groups};
use vstd::prelude::*;

verus! {

/// What stands for the operator of a here-string while here-documents are
/// looked for.
pub const HERESTRING_PLACEHOLDER: &'static str = "\u{0001}HERESTRING\u{0001}";

/// The operator that opens a here-document, with its delimiter.
pub const HEREDOC_PATTERN: &'static str = r#"<<-?\s*(?:['"]?)([A-Za-z_][A-Za-z0-9_]*)(?:['"]?)"#;

/// The words into which a shell splits a text; `None` where it cannot be split.
pub uninterp spec fn shell_words(text: Seq<char>) -> Option<Seq<Seq<char>>>;

/// `shlex::split`: the words of a command line, a function of its text alone;
/// `None` where a quote or an escape is not ended.
#[verifier::external_body]
fn split_shell_words(text: &str) -> (r: Option<Vec<String>>)
    ensures
        opt_texts(r) == shell_words(text@),
{
    shlex::split(text)
}

/// A character that means something in a regular expression.
pub open spec fn is_meta(c: char) -> bool {
    c == '\\' || c == '.' || c == '+' || c == '*' || c == '?' || c == '(' || c == ')' || c == '|'
        || c == '[' || c == ']' || c == '{' || c == '}' || c == '^' || c == '$' || c == '#' || c
        == '&' || c == '-' || c == '~'
}

/// A text with a backslash before each character that means something in a
/// regular expression.
pub open spec fn escaped(s: Seq<char>) -> Seq<char>
    decreases s.len(),
{
    if s.len() == 0 {
        s
    } else if is_meta(s.last()) {
        escaped(s.drop_last()).push('\\').push(s.last())
    } else {
        escaped(s.drop_last()).push(s.last())
    }
}

/// `regex::escape`: puts a backslash before each character that means something
/// in a regular expression.
#[verifier::external_body]
fn escape(text: &str) -> (r: String)
    ensures
        r@ == escaped(text@),
{
    regex::escape(text)
}

/// A line of a command after the operators of the first `n` here-documents were
/// taken out.
pub open spec fn redacted(line: Seq<char>, ops: Seq<Seq<Option<Seq<char>>>>, n: nat) -> Seq<char>
    decreases n,
{
    if n == 0 {
        line
    } else {
        let before = redacted(line, ops, (n - 1) as nat);
        match group(ops[n - 1], 0) {
            Some(whole) => without_all(before, whole),
            None => before,
        }
    }
}

/// The delimiter of the last here-document on a line.
pub open spec fn last_delimiter(ops: Seq<Seq<Option<Seq<char>>>>) -> Option<Seq<char>> {
    if ops.len() == 0 {
        None
    } else {
        group(ops.last(), 1)
    }
}

/// A line with single spaces between its words.
pub open spec fn respaced(line: Seq<char>) -> Seq<char> {
    joined(words_of(line), " "@)
}

/// A line of a command without the operators of here-documents, and the
/// delimiter that ends the last of them, given the matches of the operators.
pub fn redact_line(line: &str, ops: &Vec<Vec<Option<String>>>) -> (r: (String, Option<String>))
    ensures
        r.0@ == respaced(redacted(line@, all_groups(ops@), ops@.len())),
        opt_text(r.1) == last_delimiter(all_groups(ops@)),
{
    let ghost all = all_groups(ops@);
    let mut text = line.to_owned();
    let mut delim: Option<String> = None;
    let mut i: usize = 0;
    while i < ops.len()
        invariant
            i <= ops@.len(),
            all == all_groups(ops@),
            text@ == redacted(line@, all, i as nat),
            opt_text(delim) == (if i == 0 {
                None
            } else {
                group(all[i - 1], 1)
            }),
        decreases ops@.len() - i,
    {
        assert(all[i as int] == groups(ops@[i as int]@));
        if let Some(whole) = group_of(&ops[i], 0) {
            text = remove_all(text.as_str(), whole.as_str());
        }
        delim = match group_of(&ops[i], 1) {
            Some(d) => Some(d.clone()),
            None => None,
        };
        i += 1;
    }
    assert(all.len() == ops@.len());
    let words = split_words(text.as_str());
    (join(&words, " "), delim)
}

/// The lines behind the one that ends a here-document; none where no line ends
/// it.
pub open spec fn behind_body(lines: Seq<Seq<char>>, delim: Seq<char>) -> Seq<Seq<char>>
    decreases lines.len(),
{
    if lines.len() == 0 {
        lines
    } else if trimmed(lines[0]) == delim {
        lines.skip(1)
    } else {
        behind_body(lines.skip(1), delim)
    }
}

/// No lines are added.
pub proof fn lemma_behind_body(lines: Seq<Seq<char>>, delim: Seq<char>)
    ensures
        behind_body(lines, delim).len() <= lines.len(),
    decreases lines.len(),
{
    if lines.len() > 0 && trimmed(lines[0]) != delim {
        lemma_behind_body(lines.skip(1), delim);
    }
}

/// The lines that follow a line: behind the body of the here-document that it
/// opens, where it opens one.
pub open spec fn next_lines(lines: Seq<Seq<char>>) -> Seq<Seq<char>> {
    match last_delimiter(captured(HEREDOC_PATTERN@, lines[0])) {
        Some(d) => behind_body(lines.skip(1), d),
        None => lines.skip(1),
    }
}

/// The lines of a command without the bodies of here-documents.
pub open spec fn without_bodies(lines: Seq<Seq<char>>) -> Seq<char>
    decreases lines.len(),
{
    if lines.len() == 0 {
        Seq::empty()
    } else {
        let ops = captured(HEREDOC_PATTERN@, lines[0]);
        proof {
            match last_delimiter(ops) {
                Some(d) => lemma_behind_body(lines.skip(1), d),
                None => {},
            }
        }
        respaced(redacted(lines[0], ops, ops.len())) + "\n"@ + without_bodies(next_lines(lines))
    }
}

/// A command without the bodies of here-documents. One without the operator
/// stays as it is.
pub open spec fn without_heredocs(command: Seq<char>) -> Seq<char> {
    if contains_text(command, "<<"@) {
        replaced(
            without_bodies(lines_of(replaced(command, "<<<"@, HERESTRING_PLACEHOLDER@))),
            HERESTRING_PLACEHOLDER@,
            "<<<"@,
        )
    } else {
        command
    }
}

/// A command without the bodies of here-documents.
pub fn strip_heredoc_bodies(command: &str) -> (r: String)
    ensures
        r@ == without_heredocs(command@),
{
    if !contains(command, "<<") {
        return command.to_owned();
    }
    proof {
        reveal_strlit("<<<");
        reveal_strlit("\u{0001}HERESTRING\u{0001}");
    }
    let marked = replace_text(command, "<<<", HERESTRING_PLACEHOLDER);
    let lines = split_lines(marked.as_str());
    let ghost all = texts(lines@);
    let mut out = String::new();
    let mut i: usize = 0;
    proof {
        assert(all.skip(0) =~= all);
        assert(out@ + without_bodies(all) =~= without_bodies(all));
    }
    while i < lines.len()
        invariant
            i <= lines@.len(),
            all == texts(lines@),
            all.len() == lines@.len(),
            out@ + without_bodies(all.skip(i as int)) == without_bodies(all),
        decreases lines@.len() - i,
    {
        let ghost rest = all.skip(i as int);
        let ghost before = out@;
        assert(rest[0] == lines@[i as int]@);
        let ops = captures_of(HEREDOC_PATTERN, lines[i].as_str());
        assert(all_groups(ops@).len() == ops@.len());
        let (cleaned, delim) = redact_line(lines[i].as_str(), &ops);
        out.append(cleaned.as_str());
        out.append("\n");
        i += 1;
        proof {
            assert(rest.skip(1) =~= all.skip(i as int));
        }
        let ghost next = next_lines(rest);
        let ghost first = i;
        if let Some(d) = delim {
            let mut open = true;
            while open && i < lines.len()
                invariant
                    first <= i <= lines@.len(),
                    all == texts(lines@),
                    all.len() == lines@.len(),
                    next == (if open {
                        behind_body(all.skip(i as int), d@)
                    } else {
                        all.skip(i as int)
                    }),
                decreases lines@.len() - i,
            {
                assert(all.skip(i as int)[0] == lines@[i as int]@);
                assert(all.skip(i as int).skip(1) =~= all.skip(i + 1));
                let bare = trim(lines[i].as_str());
                if same_text(bare.as_str(), d.as_str()) {
                    open = false;
                }
                i += 1;
            }
        }
        proof {
            assert(next =~= all.skip(i as int));
            assert(before + (cleaned@ + "\n"@ + without_bodies(next)) =~= out@ + without_bodies(
                next,
            ));
        }
    }
    proof {
        assert(all.skip(i as int).len() == 0);
        assert(out@ + Seq::<char>::empty() =~= out@);
    }
    replace_text(out.as_str(), HERESTRING_PLACEHOLDER, "<<<")
}

/// A command in words with single spaces between them: as a shell splits it, or
/// at blanks where a shell cannot split it.
pub open spec fn respaced_words(
    stripped: Seq<char>,
    words: Option<Seq<Seq<char>>>,
) -> Seq<char> {
    match words {
        Some(w) => joined(w, " "@),
        None => respaced(stripped),
    }
}

/// A command in words with single spaces between them, given the words of the
/// shell.
pub fn respace_words(stripped: &str, words: Option<Vec<String>>) -> (r: String)
    ensures
        r@ == respaced_words(stripped@, opt_texts(words)),
{
    match words {
        Some(w) => join(&w, " "),
        None => {
            let w = split_words(stripped);
            join(&w, " ")
        },
    }
}

/// The form in which commands and patterns are compared.
pub open spec fn normalized(command: Seq<char>) -> Seq<char> {
    let stripped = without_heredocs(command);
    respaced_words(stripped, shell_words(stripped))
}

/// The form in which commands and patterns are compared: without the bodies of
/// here-documents, in words with single spaces between them.
pub fn normalize_command(command: &str) -> (r: String)
    ensures
        r@ == normalized(command@),
{
    let stripped = strip_heredoc_bodies(command);
    let words = split_shell_words(stripped.as_str());
    respace_words(stripped.as_str(), words)
}

/// The regular expression for a pattern: a star stands for any characters, line
/// breaks among them, and everything else for itself.
pub open spec fn expression(pattern: Seq<char>) -> Seq<char> {
    "(?s)^"@ + replaced(escaped(pattern), "\\*"@, ".*"@) + "$"@
}

/// The regular expression for a pattern.
pub fn pattern_expression(pattern: &str) -> (r: String)
    ensures
        r@ == expression(pattern@),
{
    let quoted = escape(pattern);
    proof {
        reveal_strlit("\\*");
    }
    let body = replace_text(quoted.as_str(), "\\*", ".*");
    let mut out = concat("(?s)^", body.as_str());
    out.append("$");
    out
}

/// A pattern matches a command, both in the form in which they are compared.
pub open spec fn fits(pattern: Seq<char>, command: Seq<char>) -> bool {
    pattern == "*"@ || (regex_refusal(expression(pattern)) is None && regex_matches(
        expression(pattern),
        command,
    ))
}

/// A pattern matches a command.
pub open spec fn pattern_fits(pattern: Seq<char>, command: Seq<char>) -> bool {
    fits(normalized(pattern), normalized(command))
}

/// Whether a pattern matches a command.
pub fn pattern_matches(pattern: &str, command: &str) -> (r: bool)
    ensures
        r == pattern_fits(pattern@, command@),
{
    let pattern = normalize_command(pattern);
    let command = normalize_command(command);
    if same_text(pattern.as_str(), "*") {
        return true;
    }
    let expr = pattern_expression(pattern.as_str());
    let mut list: Vec<String> = Vec::new();
    list.push(command);
    match match_each(expr.as_str(), &list) {
        Ok(found) => found[0],
        Err(_) => false,
    }
}

/// A command without the operator of a here-document is kept as it is.
pub proof fn law_plain_commands_stay(command: Seq<char>)
    requires
        !contains_text(command, "<<"@),
    ensures
        without_heredocs(command) == command,
{
}

/// A pattern without characters that mean something in a regular expression is its
/// own expression between the anchors.
pub proof fn law_plain_patterns_stand_for_themselves(pattern: Seq<char>)
    requires
        forall|i: int| 0 <= i < pattern.len() ==> !is_meta(#[trigger] pattern[i]),
    ensures
        expression(pattern) == "(?s)^"@ + pattern + "$"@,
{
    lemma_plain_escaped(pattern);
    reveal_strlit("\\*");
    crate::text::lemma_find_from(pattern, "\\*"@, 0);
    match crate::text::find_from(pattern, "\\*"@, 0) {
        Some(i) => {
            assert(pattern.subrange(i, i + 2)[0] == "\\*"@[0]);
            assert(is_meta(pattern[i]));
        },
        None => {},
    }
}

proof fn lemma_plain_escaped(s: Seq<char>)
    requires
        forall|i: int| 0 <= i < s.len() ==> !is_meta(#[trigger] s[i]),
    ensures
        escaped(s) == s,
    decreases s.len(),
{
    if s.len() > 0 {
        assert forall|i: int| 0 <= i < s.drop_last().len() implies !is_meta(
            #[trigger] s.drop_last()[i],
        ) by {
            assert(s[i] == s.drop_last()[i]);
        }
        lemma_plain_escaped(s.drop_last());
        assert(!is_meta(s[s.len() - 1]));
        assert(s.drop_last().push(s.last()) =~= s);
    }
}

} // verus!
