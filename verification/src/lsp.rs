//! Diagnostics from language servers: which server to ask, and what of its
//! answer is kept.

pub mod client;
pub mod diagnostics;
pub mod registry;

use crate::lsp::diagnostics::{
    block_view, diagnostic_views, BlockView, Diagnostic, DiagnosticBlock, DiagnosticView, Severity,
};
use crate::lsp::registry::{detect_language, language_of, server_for, server_of, Language};
use crate::order::{lemma_insert_at, sort_by};
use crate::paths::{extension, path_extension, relative_to_workspace, seen_from};
use crate::text::{ascii_lower, consts, push_line, same_text, texts, to_ascii_lowercase};
use vstd::prelude::*;

verus! {

/// A language server that the user defined for an extension.
#[derive(Debug)]
pub struct CustomLspDef {
    pub language_id: String,
    pub command: String,
    pub args: Vec<String>,
}

/// The settings for language servers. Of entries with one key the first counts.
#[derive(Debug)]
pub struct LspConfig {
    pub enabled: bool,
    pub poll_after_edit_ms: u64,
    pub max_diagnostics_per_file: usize,
    pub include_warnings: bool,
    pub servers: Vec<(String, Vec<String>)>,
    pub custom: Vec<(String, CustomLspDef)>,
}

impl Default for LspConfig {
    fn default() -> (r: Self)
        ensures
            r.enabled,
            r.poll_after_edit_ms == 5_000,
            r.max_diagnostics_per_file == 20,
            !r.include_warnings,
            r.servers@.len() == 0,
            r.custom@.len() == 0,
    {
        LspConfig {
            enabled: true,
            poll_after_edit_ms: 5_000,
            max_diagnostics_per_file: 20,
            include_warnings: false,
            servers: Vec::new(),
            custom: Vec::new(),
        }
    }
}

/// The first entry of a table, from the `from`th on, whose key is `key`.
pub open spec fn entry_place<T>(table: Seq<(String, T)>, key: Seq<char>, from: int) -> Option<int>
    decreases table.len() - from,
{
    if from < 0 || from >= table.len() {
        None
    } else if table[from].0@ == key {
        Some(from)
    } else {
        entry_place(table, key, from + 1)
    }
}

fn find_entry<T>(table: &Vec<(String, T)>, key: &str) -> (r: Option<usize>)
    ensures
        match r {
            Some(i) => i < table@.len() && entry_place(table@, key@, 0) == Some(i as int),
            None => entry_place(table@, key@, 0) is None,
        },
{
    let mut i: usize = 0;
    while i < table.len()
        invariant
            i <= table@.len(),
            entry_place(table@, key@, 0) == entry_place(table@, key@, i as int),
        decreases table@.len() - i,
    {
        if same_text(table[i].0.as_str(), key) {
            return Some(i);
        }
        i += 1;
    }
    None
}

/// The command that starts a server: the user's where it is not empty, else the
/// one that is known for the language.
pub open spec fn command_for(servers: Seq<(String, Vec<String>)>, lang: Language) -> Option<
    (Seq<char>, Seq<Seq<char>>),
> {
    let known = match server_of(lang) {
        Some((cmd, args)) => Some((cmd, args)),
        None => None,
    };
    match entry_place(servers, lang.key(), 0) {
        Some(i) => {
            let parts = texts(servers[i].1@);
            if parts.len() > 0 {
                Some((parts[0], parts.skip(1)))
            } else {
                known
            }
        },
        None => known,
    }
}

fn owned(list: &Vec<&'static str>) -> (r: Vec<String>)
    ensures
        texts(r@) == consts(list@),
{
    let mut out: Vec<String> = Vec::new();
    let mut i: usize = 0;
    proof {
        assert(texts(out@) =~= consts(list@).take(0));
    }
    while i < list.len()
        invariant
            i <= list@.len(),
            texts(out@) == consts(list@).take(i as int),
        decreases list@.len() - i,
    {
        proof {
            assert(consts(list@).take(i + 1) =~= consts(list@).take(i as int).push(
                list@[i as int]@,
            ));
        }
        push_line(&mut out, list[i].to_owned());
        i += 1;
    }
    proof {
        assert(consts(list@).take(list@.len() as int) =~= consts(list@));
    }
    out
}

impl LspConfig {
    /// The command that starts the server for a language, with its arguments.
    pub fn resolve_command(&self, lang: Language) -> (r: Option<(String, Vec<String>)>)
        ensures
            match r {
                Some((cmd, args)) => command_for(self.servers@, lang) == Some(
                    (cmd@, texts(args@)),
                ),
                None => command_for(self.servers@, lang) is None,
            },
    {
        if let Some(i) = find_entry(&self.servers, lang.as_key()) {
            let parts = &self.servers[i].1;
            assert(texts(parts@).len() == parts@.len());
            if parts.len() > 0 {
                let mut rest: Vec<String> = Vec::new();
                let mut k: usize = 1;
                proof {
                    assert(texts(rest@) =~= texts(parts@).subrange(1, 1));
                    assert(texts(parts@)[0] == parts@[0]@);
                }
                while k < parts.len()
                    invariant
                        1 <= k <= parts@.len(),
                        texts(rest@) == texts(parts@).subrange(1, k as int),
                    decreases parts@.len() - k,
                {
                    proof {
                        assert(texts(parts@).subrange(1, k + 1) =~= texts(parts@).subrange(
                            1,
                            k as int,
                        ).push(parts@[k as int]@));
                    }
                    push_line(&mut rest, parts[k].clone());
                    k += 1;
                }
                proof {
                    assert(texts(parts@).subrange(1, parts@.len() as int) =~= texts(parts@).skip(
                        1,
                    ));
                }
                return Some((parts[0].clone(), rest));
            }
        }
        match server_for(lang) {
            Some((cmd, args)) => Some((cmd.to_owned(), owned(&args))),
            None => None,
        }
    }

    /// The user's own server for a file, by the file's extension in small
    /// letters.
    pub fn custom_for_extension(&self, file: &str) -> (r: Option<&CustomLspDef>)
        ensures
            r == (match extension(file@) {
                Some(ext) => match entry_place(self.custom@, ascii_lower(ext), 0) {
                    Some(i) => Some(&self.custom@[i].1),
                    None => None,
                },
                None => None,
            }),
    {
        let ext = match path_extension(file) {
            Some(e) => e,
            None => return None,
        };
        let lower = to_ascii_lowercase(ext.as_str());
        match find_entry(&self.custom, lower.as_str()) {
            Some(i) => Some(&self.custom[i].1),
            None => None,
        }
    }
}

/// Which server is asked about a file.
#[derive(Debug)]
pub enum DiagnosticsRoute<'a> {
    Nobody,
    Known(Language),
    Custom { extension: String, definition: &'a CustomLspDef },
}

/// Decides which server is asked about a file: none where diagnostics are off,
/// the server of a language that is known, else one that the user defined.
pub fn route_for<'a>(config: &'a LspConfig, file: &str) -> (r: DiagnosticsRoute<'a>)
    ensures
        match r {
            DiagnosticsRoute::Nobody => !config.enabled || (language_of(file@) == Language::Other
                && (match extension(file@) {
                Some(ext) => entry_place(config.custom@, ascii_lower(ext), 0) is None,
                None => true,
            })),
            DiagnosticsRoute::Known(lang) => config.enabled && lang == language_of(file@) && lang
                != Language::Other,
            DiagnosticsRoute::Custom { extension: ext, definition } => {
                &&& config.enabled
                &&& language_of(file@) == Language::Other
                &&& extension(file@) is Some
                &&& ext@ == ascii_lower(extension(file@)->0)
                &&& entry_place(config.custom@, ext@, 0) matches Some(i)
                &&& *definition == config.custom@[i].1
            },
        },
{
    if !config.enabled {
        return DiagnosticsRoute::Nobody;
    }
    let lang = detect_language(file);
    if lang != Language::Other {
        return DiagnosticsRoute::Known(lang);
    }
    let ext = match path_extension(file) {
        Some(e) => e,
        None => return DiagnosticsRoute::Nobody,
    };
    let lower = to_ascii_lowercase(ext.as_str());
    match find_entry(&config.custom, lower.as_str()) {
        Some(i) => DiagnosticsRoute::Custom { extension: lower, definition: &config.custom[i].1 },
        None => DiagnosticsRoute::Nobody,
    }
}

/// A diagnostic that is told: every error, and warnings where they are wanted.
pub open spec fn is_told(d: DiagnosticView, include_warnings: bool) -> bool {
    d.severity == Severity::Error || (d.severity == Severity::Warning && include_warnings)
}

/// The order in which diagnostics are told: the gravest first.
pub open spec fn graver(a: DiagnosticView, b: DiagnosticView) -> bool {
    a.severity.rank() < b.severity.rank()
}

/// The diagnostics of a file that are told, the gravest first and those of one
/// severity in the order in which they came, up to a limit.
pub open spec fn told(raw: Seq<DiagnosticView>, include_warnings: bool, limit: nat) -> Seq<
    DiagnosticView,
> {
    let kept = raw.filter(|d: DiagnosticView| is_told(d, include_warnings));
    let ordered = sort_by(kept, |a: DiagnosticView, b: DiagnosticView| graver(a, b));
    if ordered.len() > limit {
        ordered.take(limit as int)
    } else {
        ordered
    }
}

/// What is told of a server's answer about a file; nothing where no diagnostic
/// is left.
pub fn select_diagnostics(
    config: &LspConfig,
    workspace: &str,
    file: &str,
    raw: &Vec<Diagnostic>,
) -> (r: Option<DiagnosticBlock>)
    ensures
        ({
            let items = told(
                diagnostic_views(raw@),
                config.include_warnings,
                config.max_diagnostics_per_file as nat,
            );
            match r {
                None => items.len() == 0,
                Some(block) => items.len() > 0 && block_view(block) == (BlockView {
                    file: seen_from(workspace@, file@),
                    items,
                }),
            }
        }),
{
    let ghost all = diagnostic_views(raw@);
    let ghost warn = config.include_warnings;
    let ghost keep = |d: DiagnosticView| is_told(d, warn);
    let ghost before = |a: DiagnosticView, b: DiagnosticView| graver(a, b);
    let mut items: Vec<Diagnostic> = Vec::new();
    let mut i: usize = 0;
    proof {
        reveal(Seq::filter);
        assert(all.take(0) =~= Seq::empty());
        assert(diagnostic_views(items@) =~= Seq::empty());
    }
    while i < raw.len()
        invariant
            i <= raw@.len(),
            all == diagnostic_views(raw@),
            warn == config.include_warnings,
            keep == (|d: DiagnosticView| is_told(d, warn)),
            before == (|a: DiagnosticView, b: DiagnosticView| graver(a, b)),
            diagnostic_views(items@) == sort_by(all.take(i as int).filter(keep), before),
        decreases raw@.len() - i,
    {
        let ghost kept = all.take(i as int).filter(keep);
        proof {
            reveal(Seq::filter);
            assert(all.take(i + 1).drop_last() =~= all.take(i as int));
            assert(all.take(i + 1).last() == raw@[i as int]@);
        }
        let wanted = match raw[i].severity {
            Severity::Error => true,
            Severity::Warning => config.include_warnings,
            _ => false,
        };
        if wanted {
            let item = raw[i].clone();
            let ghost sorted = diagnostic_views(items@);
            let mut p: usize = items.len();
            while p > 0 && item.severity.order() < items[p - 1].severity.order()
                invariant
                    p <= items@.len(),
                    before == (|a: DiagnosticView, b: DiagnosticView| graver(a, b)),
                    sorted == diagnostic_views(items@),
                    forall|q: int| p <= q < sorted.len() ==> before(item@, #[trigger] sorted[q]),
                decreases p,
            {
                assert(sorted[p - 1] == items@[p - 1]@);
                p -= 1;
            }
            proof {
                if p > 0 {
                    assert(sorted[p - 1] == items@[p - 1]@);
                }
                lemma_insert_at(sorted, item@, p as int, before);
                assert(kept.push(item@).drop_last() =~= kept);
            }
            items.insert(p, item);
            proof {
                assert(diagnostic_views(items@) =~= sorted.insert(p as int, item@));
            }
        }
        i += 1;
    }
    proof {
        assert(all.take(all.len() as int) =~= all);
        assert(all.filter(keep) =~= all.filter(
            |d: DiagnosticView| is_told(d, config.include_warnings),
        ));
    }
    let mut block = DiagnosticBlock { file: relative_to_workspace(workspace, file), items };
    block.truncate(config.max_diagnostics_per_file);
    assert(diagnostic_views(block.items@).len() == block.items@.len());
    if block.items.len() == 0 {
        None
    } else {
        Some(block)
    }
}

/// No error is dropped for a warning: where a warning is told, no error was
/// left out.
pub proof fn law_errors_come_first(
    raw: Seq<DiagnosticView>,
    include_warnings: bool,
    limit: nat,
)
    ensures
        forall|i: int, j: int|
            0 <= i < j < told(raw, include_warnings, limit).len() ==> (#[trigger] told(
                raw,
                include_warnings,
                limit,
            )[i]).severity.rank() <= (#[trigger] told(
                raw,
                include_warnings,
                limit,
            )[j]).severity.rank(),
        told(raw, include_warnings, limit).len() <= limit,
{
    let keep = |d: DiagnosticView| is_told(d, include_warnings);
    let before = |a: DiagnosticView, b: DiagnosticView| graver(a, b);
    let kept = raw.filter(keep);
    crate::order::lemma_sort_in_order(kept, before);
    let ordered = sort_by(kept, before);
    let t = told(raw, include_warnings, limit);
    assert forall|i: int, j: int| 0 <= i < j < t.len() implies (#[trigger] t[i]).severity.rank()
        <= (#[trigger] t[j]).severity.rank() by {
        assert(t[i] == ordered[i] && t[j] == ordered[j]);
        assert(!before(ordered[j], ordered[i]));
    }
}

/// Languages whose server could not be started, so that the user is warned
/// once about each.
#[derive(Debug)]
pub struct MissingServers {
    warned: crate::names::NameSet,
}

impl MissingServers {
    /// The keys that the user was warned about.
    pub closed spec fn keys(self) -> Set<Seq<char>> {
        self.warned@
    }

    /// Nobody was warned yet.
    pub fn new() -> (r: Self)
        ensures
            r.keys() == Set::<Seq<char>>::empty(),
    {
        MissingServers { warned: crate::names::NameSet::new() }
    }

    /// Whether to warn about a language or an extension: the first time only.
    pub fn warn_once(&mut self, key: &str) -> (r: bool)
        ensures
            r == !old(self).keys().contains(key@),
            final(self).keys() == old(self).keys().insert(key@),
    {
        self.warned.insert(key)
    }
}

} // verus!
