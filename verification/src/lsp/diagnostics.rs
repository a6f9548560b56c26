//! Diagnostics, and how a model reads them.

use crate::text::{
    concat, decimal, first_line, first_line_of, join, joined, lemma_joined_add, lemma_joined_empty,
    push_decimal, push_line, texts, trim, trimmed,
};
use vstd::prelude::*;

verus! {

/// How grave a diagnostic is.
#[derive(Debug, Clone, Copy, PartialEq, Eq, Structural)]
pub enum Severity {
    Error,
    Warning,
    Information,
    Hint,
}

impl Severity {
    /// The severity that a code of the protocol stands for.
    pub open spec fn of_code(code: Option<i64>) -> Option<Severity> {
        match code {
            Some(n) => if n == 1 {
                Some(Severity::Error)
            } else if n == 2 {
                Some(Severity::Warning)
            } else if n == 3 {
                Some(Severity::Information)
            } else if n == 4 {
                Some(Severity::Hint)
            } else {
                None
            },
            None => None,
        }
    }

    /// The severity that a code of the protocol stands for.
    pub fn from_lsp(code: Option<i64>) -> (r: Option<Severity>)
        ensures
            r == Severity::of_code(code),
    {
        match code {
            Some(n) => if n == 1 {
                Some(Severity::Error)
            } else if n == 2 {
                Some(Severity::Warning)
            } else if n == 3 {
                Some(Severity::Information)
            } else if n == 4 {
                Some(Severity::Hint)
            } else {
                None
            },
            None => None,
        }
    }

    /// The word for a severity.
    pub open spec fn word(self) -> Seq<char> {
        match self {
            Severity::Error => "ERROR"@,
            Severity::Warning => "WARNING"@,
            Severity::Information => "INFO"@,
            Severity::Hint => "HINT"@,
        }
    }

    /// The word for a severity.
    pub fn label(self) -> (r: &'static str)
        ensures
            r@ == self.word(),
    {
        match self {
            Severity::Error => "ERROR",
            Severity::Warning => "WARNING",
            Severity::Information => "INFO",
            Severity::Hint => "HINT",
        }
    }

    /// The place of a severity in the order of gravity.
    pub open spec fn rank(self) -> int {
        match self {
            Severity::Error => 0,
            Severity::Warning => 1,
            Severity::Information => 2,
            Severity::Hint => 3,
        }
    }

    /// The place of a severity in the order of gravity.
    pub fn order(self) -> (r: u8)
        ensures
            r == self.rank(),
    {
        match self {
            Severity::Error => 0,
            Severity::Warning => 1,
            Severity::Information => 2,
            Severity::Hint => 3,
        }
    }
}

/// A remark of a language server about a place in a file.
#[derive(Debug)]
pub struct Diagnostic {
    pub line: u32,
    pub column: u32,
    pub severity: Severity,
    pub message: String,
}

/// A remark of a language server, as contracts see it.
#[verifier::ext_equal]
pub struct DiagnosticView {
    pub line: u32,
    pub column: u32,
    pub severity: Severity,
    pub message: Seq<char>,
}

impl View for Diagnostic {
    type V = DiagnosticView;

    open spec fn view(&self) -> DiagnosticView {
        DiagnosticView {
            line: self.line,
            column: self.column,
            severity: self.severity,
            message: self.message@,
        }
    }
}

impl Clone for Diagnostic {
    fn clone(&self) -> (r: Self)
        ensures
            r == *self,
    {
        Diagnostic {
            line: self.line,
            column: self.column,
            severity: self.severity,
            message: self.message.clone(),
        }
    }
}

/// The views of a list of diagnostics.
pub open spec fn diagnostic_views(s: Seq<Diagnostic>) -> Seq<DiagnosticView> {
    s.map_values(|d: Diagnostic| d@)
}

impl Diagnostic {
    /// The first line of the message.
    pub fn render_message(&self) -> (r: String)
        ensures
            r@ == trimmed(first_line(self@.message)),
    {
        let line = first_line_of(self.message.as_str());
        trim(line.as_str())
    }
}

/// The diagnostics of one file.
#[derive(Debug)]
pub struct DiagnosticBlock {
    pub file: String,
    pub items: Vec<Diagnostic>,
}

/// The diagnostics of one file, as contracts see them.
#[verifier::ext_equal]
pub struct BlockView {
    pub file: Seq<char>,
    pub items: Seq<DiagnosticView>,
}

/// The diagnostics of one file, as contracts see them.
pub open spec fn block_view(b: DiagnosticBlock) -> BlockView {
    BlockView { file: b.file@, items: diagnostic_views(b.items@) }
}

/// The views of a list of blocks.
pub open spec fn diagnostic_block_views(s: Seq<DiagnosticBlock>) -> Seq<BlockView> {
    s.map_values(|b: DiagnosticBlock| block_view(b))
}

/// The line about one diagnostic.
pub open spec fn item_line(d: DiagnosticView) -> Seq<char> {
    "  "@ + d.severity.word() + " ["@ + decimal(d.line as nat) + ":"@ + decimal(d.column as nat)
        + "] "@ + trimmed(first_line(d.message)) + "\n"@
}

/// The lines about the first `n` diagnostics.
pub open spec fn item_lines(items: Seq<DiagnosticView>, n: nat) -> Seq<char>
    decreases n,
{
    if n == 0 {
        Seq::empty()
    } else {
        item_lines(items, (n - 1) as nat) + item_line(items[n - 1])
    }
}

/// What a model reads of a file's diagnostics; nothing where there are none.
pub open spec fn rendered(b: BlockView) -> Seq<char> {
    if b.items.len() == 0 {
        Seq::empty()
    } else {
        "<diagnostics file=\""@ + b.file + "\">\n"@ + item_lines(b.items, b.items.len())
            + "</diagnostics>"@
    }
}

impl DiagnosticBlock {
    /// What a model reads of a file's diagnostics.
    pub fn render(&self) -> (r: String)
        ensures
            r@ == rendered(block_view(*self)),
    {
        let ghost all = diagnostic_views(self.items@);
        if self.items.len() == 0 {
            return String::new();
        }
        let mut out = concat("<diagnostics file=\"", self.file.as_str());
        out.append("\">\n");
        let mut lines = String::new();
        let mut i: usize = 0;
        while i < self.items.len()
            invariant
                i <= self.items@.len(),
                all == diagnostic_views(self.items@),
                lines@ == item_lines(all, i as nat),
            decreases self.items@.len() - i,
        {
            let item = &self.items[i];
            assert(all[i as int] == item@);
            let mut line = concat("  ", item.severity.label());
            line.append(" [");
            push_decimal(&mut line, item.line as u64);
            line.append(":");
            push_decimal(&mut line, item.column as u64);
            line.append("] ");
            let message = item.render_message();
            line.append(message.as_str());
            line.append("\n");
            lines.append(line.as_str());
            i += 1;
        }
        out.append(lines.as_str());
        out.append("</diagnostics>");
        out
    }

    /// Keeps the first diagnostics, up to a limit.
    pub fn truncate(&mut self, max_per_file: usize)
        ensures
            final(self).file == old(self).file,
            final(self).items@ == if old(self).items@.len() > max_per_file {
                old(self).items@.take(max_per_file as int)
            } else {
                old(self).items@
            },
            diagnostic_views(final(self).items@) == if old(self).items@.len() > max_per_file {
                diagnostic_views(old(self).items@).take(max_per_file as int)
            } else {
                diagnostic_views(old(self).items@)
            },
    {
        if self.items.len() > max_per_file {
            self.items.truncate(max_per_file);
            proof {
                assert(diagnostic_views(self.items@) =~= diagnostic_views(old(self).items@).take(
                    max_per_file as int,
                ));
            }
        }
    }
}

/// The texts of the first `n` blocks that say something.
pub open spec fn chunks(blocks: Seq<BlockView>, n: nat) -> Seq<Seq<char>>
    decreases n,
{
    if n == 0 {
        Seq::empty()
    } else {
        let before = chunks(blocks, (n - 1) as nat);
        if rendered(blocks[n - 1]).len() > 0 {
            before.push(rendered(blocks[n - 1]))
        } else {
            before
        }
    }
}

/// What a model reads of the diagnostics of several files.
pub open spec fn bundle(blocks: Seq<BlockView>) -> Seq<char> {
    joined(chunks(blocks, blocks.len()), "\n"@)
}

/// What a model reads of the diagnostics of several files.
pub fn render_blocks(blocks: &Vec<DiagnosticBlock>) -> (r: String)
    ensures
        r@ == bundle(diagnostic_block_views(blocks@)),
{
    let ghost all = diagnostic_block_views(blocks@);
    let mut parts: Vec<String> = Vec::new();
    let mut i: usize = 0;
    proof {
        assert(texts(parts@) =~= Seq::empty());
    }
    while i < blocks.len()
        invariant
            i <= blocks@.len(),
            all == diagnostic_block_views(blocks@),
            texts(parts@) == chunks(all, i as nat),
        decreases blocks@.len() - i,
    {
        assert(all[i as int] == block_view(blocks@[i as int]));
        let text = blocks[i].render();
        if !text.as_str().is_empty() {
            push_line(&mut parts, text);
        }
        i += 1;
    }
    join(&parts, "\n")
}

/// A block says something exactly when it holds a diagnostic.
pub proof fn law_silence_means_clean(b: BlockView)
    ensures
        rendered(b).len() == 0 <==> b.items.len() == 0,
{
    reveal_strlit("</diagnostics>");
}

/// The texts of blocks do not depend on what comes behind them.
proof fn lemma_chunks_prefix(a: Seq<BlockView>, b: Seq<BlockView>, n: nat)
    requires
        n <= a.len(),
    ensures
        chunks(a + b, n) == chunks(a, n),
    decreases n,
{
    if n > 0 {
        lemma_chunks_prefix(a, b, (n - 1) as nat);
        assert((a + b)[n - 1] == a[n - 1]);
    }
}

/// The texts of two lists of blocks, put together, are those of both.
proof fn lemma_chunks_add(a: Seq<BlockView>, b: Seq<BlockView>, n: nat)
    requires
        n <= b.len(),
    ensures
        chunks(a + b, a.len() + n) == chunks(a, a.len()) + chunks(b, n),
    decreases n,
{
    if n == 0 {
        lemma_chunks_prefix(a, b, a.len());
        assert(chunks(a, a.len()) + chunks(b, 0) =~= chunks(a, a.len()));
    } else {
        lemma_chunks_add(a, b, (n - 1) as nat);
        assert((a + b)[a.len() + n - 1] == b[n - 1]);
        assert(chunks(a + b, a.len() + n) =~= chunks(a, a.len()) + chunks(b, n));
    }
}

/// Each text says something, and there are none exactly when no block says
/// anything.
proof fn lemma_chunks_say_something(blocks: Seq<BlockView>, n: nat)
    requires
        n <= blocks.len(),
    ensures
        forall|i: int|
            0 <= i < chunks(blocks, n).len() ==> (#[trigger] chunks(blocks, n)[i]).len() > 0,
        chunks(blocks, n).len() == 0 <==> forall|i: int|
            0 <= i < n ==> (#[trigger] blocks[i]).items.len() == 0,
    decreases n,
{
    if n > 0 {
        lemma_chunks_say_something(blocks, (n - 1) as nat);
        law_silence_means_clean(blocks[n - 1]);
    }
}

/// A model reads nothing of several files exactly when none holds a diagnostic.
pub proof fn law_silent_bundle_means_clean(blocks: Seq<BlockView>)
    ensures
        bundle(blocks).len() == 0 <==> forall|i: int|
            0 <= i < blocks.len() ==> (#[trigger] blocks[i]).items.len() == 0,
{
    lemma_chunks_say_something(blocks, blocks.len());
    lemma_joined_empty(chunks(blocks, blocks.len()), "\n"@);
}

/// What a model reads of two lists of files, put together, is what it reads of
/// each, on lines of their own; where it reads nothing of one, it is what it
/// reads of the other.
pub proof fn law_bundles_are_put_together(a: Seq<BlockView>, b: Seq<BlockView>)
    ensures
        bundle(a + b) == (if bundle(a).len() == 0 {
            bundle(b)
        } else if bundle(b).len() == 0 {
            bundle(a)
        } else {
            bundle(a) + "\n"@ + bundle(b)
        }),
{
    lemma_chunks_add(a, b, b.len());
    lemma_joined_add(chunks(a, a.len()), chunks(b, b.len()), "\n"@);
    lemma_chunks_say_something(a, a.len());
    lemma_joined_empty(chunks(a, a.len()), "\n"@);
    lemma_chunks_say_something(b, b.len());
    lemma_joined_empty(chunks(b, b.len()), "\n"@);
}

/// A block without diagnostics changes nothing of what a model reads, wherever it
/// stands.
pub proof fn law_clean_blocks_are_passed_over(blocks: Seq<BlockView>, i: int, clean: BlockView)
    requires
        0 <= i <= blocks.len(),
        clean.items.len() == 0,
    ensures
        bundle(blocks.insert(i, clean)) == bundle(blocks),
{
    let head = blocks.take(i);
    let tail = blocks.skip(i);
    let one = seq![clean];
    assert(blocks.insert(i, clean) =~= head + one + tail);
    assert(blocks =~= head + tail);
    law_silent_bundle_means_clean(one);
    law_bundles_are_put_together(head, one);
    law_bundles_are_put_together(head + one, tail);
    law_bundles_are_put_together(head, tail);
}

} // verus!
