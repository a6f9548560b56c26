//! What language servers are asked, and what is told of their answers.

use crate::json::{law_single_members_are_read, JsonView};
use crate::laws::results::{lemma_holds_between, lemma_holds_within, lemma_joined_holds};
use crate::laws::search::holds;
use crate::lsp::client::{
    change_view, header_end, header_ends_at, initialize_view, next_version, note_view, open_view,
    published, raw_remarks, remark_of,
};
use crate::lsp::diagnostics::{
    bundle, chunks, item_line, item_lines, rendered, BlockView, DiagnosticView, Severity,
};
use crate::lsp::registry::{language_of, language_of_extension, server_of, Language};
use crate::lsp::{command_for, entry_place, graver, is_told, told};
use crate::order::{lemma_best_places, sort_by, strict_order};
use crate::text::{ascii_lower, decimal, first_line, texts, trimmed};
use vstd::prelude::*;

verus! {

// ---------------------------------------------------------------------------
// What is told
// ---------------------------------------------------------------------------

/// Errors are told, and warnings where they are wanted, and nothing else; what was not
/// told, though it could have been, is no graver than what was, and was left out for
/// want of room alone.
#[verifier::rlimit(40)]
pub proof fn law_gravest_are_told(raw: Seq<DiagnosticView>, include_warnings: bool, limit: nat)
    ensures
        ({
            let out = told(raw, include_warnings, limit);
            &&& forall|i: int|
                0 <= i < out.len() ==> raw.contains(#[trigger] out[i]) && (out[i].severity
                    == Severity::Error || (include_warnings && out[i].severity
                    == Severity::Warning))
            &&& forall|i: int|
                0 <= i < raw.len() && (#[trigger] raw[i]).severity == Severity::Error
                    && !out.contains(raw[i]) ==> out.len() == limit && forall|j: int|
                    0 <= j < out.len() ==> (#[trigger] out[j]).severity == Severity::Error
            &&& forall|i: int|
                0 <= i < raw.len() && include_warnings && (#[trigger] raw[i]).severity
                    == Severity::Warning && !out.contains(raw[i]) ==> out.len() == limit
        }),
{
    let p = |d: DiagnosticView| is_told(d, include_warnings);
    let before = |a: DiagnosticView, b: DiagnosticView| graver(a, b);
    let kept = raw.filter(p);
    let m: nat = if kept.len() > limit {
        limit
    } else {
        kept.len()
    };
    assert(strict_order(before));
    let at = lemma_best_places(kept, before, m);
    let sorted = sort_by(kept, before);
    let out = told(raw, include_warnings, limit);
    assert(out.len() == m);
    assert forall|i: int| 0 <= i < out.len() implies #[trigger] out[i] == kept[at[i]] by {
        assert(sorted[i] == out[i]);
    }
    assert forall|i: int| 0 <= i < out.len() implies raw.contains(#[trigger] out[i]) && (
    out[i].severity == Severity::Error || (include_warnings && out[i].severity
        == Severity::Warning)) by {
        raw.lemma_filter_pred(p, at[i]);
        assert(kept.contains(kept[at[i]]));
        raw.lemma_filter_contains_rev(p, kept[at[i]]);
    }
    assert forall|i: int| 0 <= i < raw.len() && p(#[trigger] raw[i]) && !out.contains(raw[i])
        implies out.len() == limit && forall|j: int|
        0 <= j < out.len() ==> !before(raw[i], #[trigger] out[j]) by {
        raw.lemma_filter_contains(p, i);
        let k = choose|k: int| 0 <= k < kept.len() && kept[k] == raw[i];
        if at.contains(k) {
            let j = choose|j: int| 0 <= j < at.len() && at[j] == k;
            assert(out[j] == raw[i]);
        }
        if kept.len() <= limit {
            lemma_all_places(at, kept.len());
            assert(at.contains(k));
        }
        assert forall|j: int| 0 <= j < out.len() implies !before(raw[i], #[trigger] out[j]) by {
            assert(!before(kept[k], kept[at[j]]));
        }
    }
    assert forall|i: int|
        0 <= i < raw.len() && (#[trigger] raw[i]).severity == Severity::Error && !out.contains(
            raw[i],
        ) implies out.len() == limit && forall|j: int|
        0 <= j < out.len() ==> (#[trigger] out[j]).severity == Severity::Error by {
        assert(p(raw[i]));
        assert forall|j: int| 0 <= j < out.len() implies (#[trigger] out[j]).severity
            == Severity::Error by {
            assert(!before(raw[i], out[j]));
        }
    }
    assert forall|i: int|
        0 <= i < raw.len() && include_warnings && (#[trigger] raw[i]).severity == Severity::Warning
            && !out.contains(raw[i]) implies out.len() == limit by {
        assert(p(raw[i]));
    }
}

proof fn lemma_all_places(at: Seq<int>, n: nat)
    requires
        at.len() == n,
        at.no_duplicates(),
        forall|i: int| 0 <= i < n ==> 0 <= #[trigger] at[i] < n,
    ensures
        forall|k: int| 0 <= k < n ==> #[trigger] at.contains(k),
{
    assert forall|k: int| 0 <= k < n implies #[trigger] at.contains(k) by {
        assert(crate::order::is_permutation(at, n));
        crate::order::lemma_permutation_reaches(at, n, k);
    }
}

/// A remark is told with its gravity, its place and the first line of what it says.
pub proof fn law_remarks_are_told(d: DiagnosticView)
    ensures
        item_line(d) == "  "@ + d.severity.word() + " ["@ + decimal(d.line as nat) + ":"@ + decimal(
            d.column as nat,
        ) + "] "@ + trimmed(first_line(d.message)) + "\n"@,
        Severity::Error.word() == "ERROR"@,
        Severity::Warning.word() == "WARNING"@,
        Severity::Error.rank() < Severity::Warning.rank(),
        Severity::Warning.rank() < Severity::Information.rank(),
        Severity::Information.rank() < Severity::Hint.rank(),
{
}

proof fn lemma_remark_lines(items: Seq<DiagnosticView>, n: nat, i: int)
    requires
        0 <= i < n <= items.len(),
    ensures
        holds(item_lines(items, n), item_line(items[i])),
    decreases n,
{
    let before = item_lines(items, (n - 1) as nat);
    let last = item_line(items[n - 1]);
    let none = Seq::<char>::empty();
    if i == n - 1 {
        lemma_holds_between(before, last, none);
        assert(before + last + none =~= item_lines(items, n));
    } else {
        lemma_remark_lines(items, (n - 1) as nat, i);
        lemma_holds_between(none, before, last);
        assert(none + before + last =~= item_lines(items, n));
        lemma_holds_within(item_lines(items, n), before, item_line(items[i]));
    }
}

proof fn lemma_chunks(blocks: Seq<BlockView>, n: nat, b: int)
    requires
        0 <= b < n <= blocks.len(),
        blocks[b].items.len() > 0,
    ensures
        chunks(blocks, n).contains(rendered(blocks[b])),
    decreases n,
{
    let all = chunks(blocks, n);
    let before = chunks(blocks, (n - 1) as nat);
    crate::lsp::diagnostics::law_silence_means_clean(blocks[b]);
    if b == n - 1 {
        assert(all[all.len() - 1] == rendered(blocks[b]));
    } else {
        lemma_chunks(blocks, (n - 1) as nat, b);
        let i = choose|i: int| 0 <= i < before.len() && before[i] == rendered(blocks[b]);
        assert(all[i] == rendered(blocks[b]));
    }
}

/// Every remark of every file is told, under the name of its file.
pub proof fn law_all_remarks_are_told(blocks: Seq<BlockView>, b: int, i: int)
    requires
        0 <= b < blocks.len(),
        0 <= i < blocks[b].items.len(),
    ensures
        holds(bundle(blocks), item_line(blocks[b].items[i])),
        holds(bundle(blocks), "<diagnostics file=\""@ + blocks[b].file + "\">\n"@),
{
    let block = blocks[b];
    let all = chunks(blocks, blocks.len());
    lemma_chunks(blocks, blocks.len(), b);
    let k = choose|k: int| 0 <= k < all.len() && all[k] == rendered(block);
    lemma_joined_holds(all, "\n"@, k);
    let head = "<diagnostics file=\""@ + block.file + "\">\n"@;
    let lines = item_lines(block.items, block.items.len());
    let end = "</diagnostics>"@;
    lemma_remark_lines(block.items, block.items.len(), i);
    lemma_holds_between(head, lines, end);
    lemma_holds_within(rendered(block), lines, item_line(block.items[i]));
    lemma_holds_within(bundle(blocks), rendered(block), item_line(block.items[i]));
    let none = Seq::<char>::empty();
    lemma_holds_between(none, head, lines + end);
    assert(none + head + (lines + end) =~= rendered(block));
    lemma_holds_within(bundle(blocks), rendered(block), head);
}

// ---------------------------------------------------------------------------
// What servers say
// ---------------------------------------------------------------------------

/// A remark of a server stands one line and one column further on than the server
/// counts; it is an error unless the server says what else it is.
pub proof fn law_remarks_are_counted_from_one(
    d: JsonView,
    range: JsonView,
    start: JsonView,
    line: u64,
    column: u64,
)
    requires
        d.field("range"@) == Some(range),
        range.field("start"@) == Some(start),
        start.field("line"@) == Some(JsonView::PosInt(line)),
        start.field("character"@) == Some(JsonView::PosInt(column)),
        line < u32::MAX,
        column < u32::MAX,
    ensures
        remark_of(d) matches Some(r) && {
            &&& r.line == line + 1
            &&& r.column == column + 1
            &&& d.text_field("message"@) matches Some(m) ==> r.message == m
            &&& d.field("severity"@) is None ==> r.severity == Severity::Error
            &&& d.field("severity"@) == Some(JsonView::PosInt(1)) ==> r.severity == Severity::Error
            &&& d.field("severity"@) == Some(JsonView::PosInt(2)) ==> r.severity
                == Severity::Warning
            &&& d.field("severity"@) == Some(JsonView::PosInt(3)) ==> r.severity
                == Severity::Information
            &&& d.field("severity"@) == Some(JsonView::PosInt(4)) ==> r.severity == Severity::Hint
        },
{
}

/// What a server publishes is about the file that it names, remark by remark in its
/// order; where one remark has no place, none is taken.
pub proof fn law_published_remarks(message: JsonView, path: Seq<char>, items: Seq<JsonView>)
    requires
        raw_remarks(message) == Some((path, items)),
    ensures
        (forall|i: int| 0 <= i < items.len() ==> remark_of(#[trigger] items[i]) is Some)
            ==> (published(message) matches Some((p, list)) && p == path && list.len()
            == items.len() && forall|i: int|
            0 <= i < items.len() ==> Some(#[trigger] list[i]) == remark_of(items[i])),
        (exists|i: int| 0 <= i < items.len() && remark_of(#[trigger] items[i]) is None)
            ==> published(message) is None,
{
}

/// The end of a header is the first blank line.
pub proof fn law_headers_end_at_a_blank_line(buf: Seq<u8>, from: int)
    requires
        0 <= from,
    ensures
        match header_end(buf, from) {
            Some(i) => {
                &&& from <= i
                &&& i + 4 <= buf.len()
                &&& buf.subrange(i, i + 4) == seq![13u8, 10u8, 13u8, 10u8]
                &&& forall|j: int| from <= j < i ==> !header_ends_at(buf, j)
            },
            None => forall|j: int| from <= j ==> !header_ends_at(buf, j),
        },
    decreases buf.len() - from,
{
    if from + 4 <= buf.len() {
        if header_ends_at(buf, from) {
            assert(buf.subrange(from, from + 4) =~= seq![13u8, 10u8, 13u8, 10u8]);
        } else {
            law_headers_end_at_a_blank_line(buf, from + 1);
        }
    }
}

// ---------------------------------------------------------------------------
// What servers are asked
// ---------------------------------------------------------------------------

/// A note names its method and carries what it is about.
pub proof fn law_notes_name_their_method(method: Seq<char>, params: JsonView)
    ensures
        note_view(method, params).text_field("method"@) == Some(method),
        note_view(method, params).field("params"@) == Some(params),
        note_view(method, params).text_field("jsonrpc"@) == Some("2.0"@),
{
    reveal_strlit("jsonrpc");
    reveal_strlit("method");
    reveal_strlit("params");
    assert("jsonrpc"@.len() == 7 && "method"@.len() == 6 && "params"@.len() == 6);
    assert("method"@[0] != "params"@[0]);
    let m = note_view(method, params)->Object_0;
    law_single_members_are_read(m, 0);
    law_single_members_are_read(m, 1);
    law_single_members_are_read(m, 2);
}

/// A file is opened with its language, its address, its version and its text.
pub proof fn law_files_are_opened(
    language_id: Seq<char>,
    uri: Seq<char>,
    version: nat,
    text: Seq<char>,
)
    ensures
        ({
            let note = open_view(language_id, uri, version, text);
            &&& note.text_field("method"@) == Some("textDocument/didOpen"@)
            &&& note.field("params"@) matches Some(params)
            &&& params.field("textDocument"@) matches Some(document)
            &&& document.text_field("languageId"@) == Some(language_id)
            &&& document.text_field("uri"@) == Some(uri)
            &&& document.text_field("text"@) == Some(text)
            &&& document.field("version"@) == Some(JsonView::PosInt(version as u64))
        }),
{
    reveal_strlit("languageId");
    reveal_strlit("text");
    reveal_strlit("uri");
    reveal_strlit("version");
    assert("languageId"@.len() == 10 && "text"@.len() == 4 && "uri"@.len() == 3 && "version"@.len()
        == 7);
    let m = seq![
        ("languageId"@, JsonView::Str(language_id)),
        ("text"@, JsonView::Str(text)),
        ("uri"@, JsonView::Str(uri)),
        ("version"@, JsonView::PosInt(version as u64)),
    ];
    let params = seq![("textDocument"@, JsonView::Object(m))];
    law_single_members_are_read(m, 0);
    law_single_members_are_read(m, 1);
    law_single_members_are_read(m, 2);
    law_single_members_are_read(m, 3);
    law_single_members_are_read(params, 0);
    law_notes_name_their_method("textDocument/didOpen"@, JsonView::Object(params));
}

/// A change is told with the whole new text and the version it makes.
pub proof fn law_files_are_changed(uri: Seq<char>, version: nat, text: Seq<char>)
    ensures
        ({
            let note = change_view(uri, version, text);
            &&& note.text_field("method"@) == Some("textDocument/didChange"@)
            &&& note.field("params"@) matches Some(params)
            &&& params.field("textDocument"@) matches Some(document)
            &&& document.text_field("uri"@) == Some(uri)
            &&& document.field("version"@) == Some(JsonView::PosInt(version as u64))
            &&& params.items_field("contentChanges"@) matches Some(changes)
            &&& changes.len() == 1
            &&& changes[0].text_field("text"@) == Some(text)
        }),
{
    reveal_strlit("uri");
    reveal_strlit("version");
    reveal_strlit("contentChanges");
    reveal_strlit("textDocument");
    assert("uri"@.len() == 3 && "version"@.len() == 7 && "contentChanges"@.len() == 14
        && "textDocument"@.len() == 12);
    let document = seq![("uri"@, JsonView::Str(uri)), ("version"@, JsonView::PosInt(version as u64))];
    let change = seq![("text"@, JsonView::Str(text))];
    let params = seq![
        ("contentChanges"@, JsonView::Array(seq![JsonView::Object(change)])),
        ("textDocument"@, JsonView::Object(document)),
    ];
    law_single_members_are_read(document, 0);
    law_single_members_are_read(document, 1);
    law_single_members_are_read(change, 0);
    law_single_members_are_read(params, 0);
    law_single_members_are_read(params, 1);
    law_notes_name_their_method("textDocument/didChange"@, JsonView::Object(params));
}

/// A server is set up with the process that asks and the place it works in.
pub proof fn law_servers_are_set_up(process_id: u32, root: Seq<char>)
    ensures
        ({
            let first = initialize_view(process_id, root);
            &&& first.text_field("method"@) == Some("initialize"@)
            &&& first.field("id"@) == Some(JsonView::PosInt(1))
            &&& first.field("params"@) matches Some(params)
            &&& params.text_field("rootUri"@) == Some(root)
            &&& params.field("processId"@) == Some(JsonView::PosInt(process_id as u64))
        }),
{
    reveal_strlit("id");
    reveal_strlit("jsonrpc");
    reveal_strlit("method");
    reveal_strlit("params");
    reveal_strlit("capabilities");
    reveal_strlit("processId");
    reveal_strlit("rootUri");
    assert("id"@.len() == 2 && "jsonrpc"@.len() == 7 && "method"@.len() == 6 && "params"@.len() == 6
        && "capabilities"@.len() == 12 && "processId"@.len() == 9 && "rootUri"@.len() == 7);
    assert("method"@[0] != "params"@[0]);
    let m = initialize_view(process_id, root)->Object_0;
    law_single_members_are_read(m, 0);
    law_single_members_are_read(m, 2);
    law_single_members_are_read(m, 3);
    let params = m[3].1->Object_0;
    law_single_members_are_read(params, 1);
    law_single_members_are_read(params, 2);
}

/// Versions of a file count up from one.
pub proof fn law_versions_count_up(last: u64)
    requires
        last < u64::MAX,
    ensures
        next_version(None) == Some(1u64),
        next_version(Some(last)) == Some((last + 1) as u64),
{
}

/// A server that the user set for a language is taken, with its arguments; else the
/// one that is known for it.
pub proof fn law_set_servers_come_first(
    servers: Seq<(String, Vec<String>)>,
    lang: Language,
    i: int,
)
    requires
        0 <= i < servers.len(),
        servers[i].0@ == lang.key(),
        servers[i].1@.len() > 0,
        forall|j: int| 0 <= j < i ==> (#[trigger] servers[j]).0@ != lang.key(),
    ensures
        command_for(servers, lang) == Some(
            (texts(servers[i].1@)[0], texts(servers[i].1@).skip(1)),
        ),
        command_for(Seq::empty(), lang) == server_of(lang),
{
    lemma_entry(servers, lang.key(), 0, i);
}

proof fn lemma_entry<T>(table: Seq<(String, T)>, key: Seq<char>, from: int, i: int)
    requires
        0 <= from <= i < table.len(),
        table[i].0@ == key,
        forall|j: int| from <= j < i ==> (#[trigger] table[j]).0@ != key,
    ensures
        entry_place(table, key, from) == Some(i),
    decreases i - from,
{
    if from < i {
        lemma_entry(table, key, from + 1, i);
    }
}

/// The language of a file is that of its kind, in whatever letters; a file without a
/// kind has none.
pub proof fn law_kinds_have_languages(path: Seq<char>)
    ensures
        crate::paths::extension(path) is None ==> language_of(path) == Language::Other,
        crate::paths::extension(path) matches Some(ext) ==> language_of(path)
            == language_of_extension(ascii_lower(ext)),
        language_of_extension("rs"@) == Language::Rust,
        language_of_extension("py"@) == Language::Python,
{
    reveal_strlit("rs");
    reveal_strlit("go");
    reveal_strlit("py");
    assert("rs"@[0] != "py"@[0] && "go"@[0] != "py"@[0]);
}

/// Every language has the server that is known for it.
pub proof fn law_languages_have_their_servers()
    ensures
        server_of(Language::Rust) matches Some((c, a)) && c == "rust-analyzer"@ && a.len() == 0,
        server_of(Language::Go) matches Some((c, a)) && c == "gopls"@ && a == seq!["serve"@],
        server_of(Language::Python) matches Some((c, a)) && c == "pyright-langserver"@ && a == seq![
            "--stdio"@,
        ],
        server_of(Language::TypeScript) matches Some((c, a)) && c == "typescript-language-server"@
            && a == seq!["--stdio"@],
        server_of(Language::JavaScript) == server_of(Language::TypeScript),
        server_of(Language::Java) matches Some((c, a)) && c == "jdtls"@ && a.len() == 0,
        server_of(Language::Php) matches Some((c, a)) && c == "intelephense"@ && a == seq![
            "--stdio"@,
        ],
        server_of(Language::Vue) matches Some((c, a)) && c == "vue-language-server"@ && a == seq![
            "--stdio"@,
        ],
        server_of(Language::C) matches Some((c, a)) && c == "clangd"@ && a.len() == 0,
        server_of(Language::Cpp) == server_of(Language::C),
        server_of(Language::Other) is None,
{
}

/// The kinds of files of a language.
pub proof fn law_languages_have_their_kinds(ext: Seq<char>)
    ensures
        language_of_extension(ext) == Language::Rust <==> ext == "rs"@,
        language_of_extension(ext) == Language::Go <==> ext == "go"@,
        language_of_extension(ext) == Language::Python <==> ext == "py"@ || ext == "pyi"@,
        language_of_extension(ext) == Language::TypeScript <==> ext == "ts"@ || ext == "tsx"@,
        language_of_extension(ext) == Language::JavaScript <==> ext == "js"@ || ext == "jsx"@ || ext
            == "mjs"@ || ext == "cjs"@,
        language_of_extension(ext) == Language::C ==> ext == "c"@ || ext == "h"@,
        language_of_extension(ext) == Language::Cpp ==> ext == "cpp"@ || ext == "cc"@ || ext
            == "cxx"@ || ext == "hpp"@ || ext == "hxx"@ || ext == "hh"@,
        language_of_extension(ext) == Language::Java ==> ext == "java"@,
        language_of_extension(ext) == Language::Php ==> ext == "php"@,
        language_of_extension(ext) == Language::Vue ==> ext == "vue"@,
{
    reveal_strlit("rs");
    reveal_strlit("go");
    reveal_strlit("py");
    reveal_strlit("pyi");
    reveal_strlit("ts");
    reveal_strlit("tsx");
    reveal_strlit("js");
    reveal_strlit("jsx");
    reveal_strlit("mjs");
    reveal_strlit("cjs");
    assert("rs"@.len() == 2 && "go"@.len() == 2 && "py"@.len() == 2 && "pyi"@.len() == 3 && "ts"@.len()
        == 2 && "tsx"@.len() == 3 && "js"@.len() == 2 && "jsx"@.len() == 3 && "mjs"@.len() == 3
        && "cjs"@.len() == 3);
    assert("rs"@[0] == 'r' && "go"@[0] == 'g' && "py"@[0] == 'p' && "ts"@[0] == 't' && "js"@[0]
        == 'j');
    assert("pyi"@[0] == 'p' && "tsx"@[0] == 't' && "jsx"@[0] == 'j' && "mjs"@[0] == 'm'
        && "cjs"@[0] == 'c');
}

/// What a server publishes is read with the file and the remarks that it names.
pub proof fn law_published_files_are_read(
    message: JsonView,
    params: JsonView,
    path: Seq<char>,
    items: Seq<JsonView>,
)
    requires
        message.field("params"@) == Some(params),
        params.text_field("uri"@) == Some("file://"@ + path),
        params.items_field("diagnostics"@) == Some(items),
    ensures
        raw_remarks(message) == Some((path, items)),
{
    crate::laws::texts::law_prefixes_are_taken("file://"@, path, path);
}

} // verus!
