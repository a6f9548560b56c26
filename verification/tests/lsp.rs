use codewhale_tui::json::Json;
use codewhale_tui::lsp::client::{
    dispatch, frame, frame_message, initialize_request, initialized_note, message_places_fit,
    parse_header, parse_publish_diagnostics, path_from_uri, take_messages, uri_from_path,
    Incoming, OpenDocuments,
};
use codewhale_tui::lsp::diagnostics::{render_blocks, Diagnostic, DiagnosticBlock, Severity};
use codewhale_tui::lsp::registry::{detect_language, server_for, Language};
use codewhale_tui::lsp::{
    route_for, select_diagnostics, CustomLspDef, DiagnosticsRoute, LspConfig, MissingServers,
};
use codewhale_tui::paths::{
    path_below, path_extension, path_file_name, relative_to_workspace, same_path, sort_paths,
};

fn json(text: &str) -> Json {
    let mut buf = frame(text.as_bytes());
    let mut messages = take_messages(&mut buf);
    messages.remove(0)
}

fn remark(line: u32, column: u32, severity: Severity, message: &str) -> Diagnostic {
    Diagnostic {
        line,
        column,
        severity,
        message: message.to_string(),
    }
}

fn custom(language_id: &str, command: &str, args: Vec<&str>) -> CustomLspDef {
    CustomLspDef {
        language_id: language_id.to_string(),
        command: command.to_string(),
        args: args.iter().map(|s| s.to_string()).collect(),
    }
}

#[test]
fn parses_lsp_header() {
    let frame = b"Content-Length: 5\r\n\r\nhello";
    let (end, len) = parse_header(frame).expect("header parses");
    assert_eq!(end, 21);
    assert_eq!(len, 5);
}

#[test]
fn parse_header_returns_none_when_truncated() {
    let frame = b"Content-Length: 5\r\nMissingTerm";
    assert!(parse_header(frame).is_none());
}

#[test]
fn parses_publish_diagnostics_payload() {
    let payload = json(
        r#"{
            "jsonrpc": "2.0",
            "method": "textDocument/publishDiagnostics",
            "params": {
                "uri": "file:///tmp/foo.rs",
                "diagnostics": [
                    {
                        "range": {
                            "start": { "line": 11, "character": 7 },
                            "end":   { "line": 11, "character": 8 }
                        },
                        "severity": 1,
                        "message": "missing semicolon"
                    }
                ]
            }
        }"#,
    );
    assert!(message_places_fit(&payload));
    let (path, diags) = parse_publish_diagnostics(&payload).expect("parses");
    assert_eq!(path, "/tmp/foo.rs");
    assert_eq!(diags.len(), 1);
    assert_eq!(diags[0].line, 12);
    assert_eq!(diags[0].column, 8);
    assert_eq!(diags[0].severity, Severity::Error);
    assert_eq!(diags[0].message, "missing semicolon");
}

#[test]
fn round_trips_uri_path() {
    let path = "/tmp/example/foo.rs";
    let uri = format!("file://{}", path);
    assert_eq!(path_from_uri(&uri), Some(path.to_string()));
}

#[test]
fn severity_decodes_lsp_codes() {
    assert_eq!(Severity::from_lsp(Some(1)), Some(Severity::Error));
    assert_eq!(Severity::from_lsp(Some(2)), Some(Severity::Warning));
    assert_eq!(Severity::from_lsp(Some(3)), Some(Severity::Information));
    assert_eq!(Severity::from_lsp(Some(4)), Some(Severity::Hint));
    assert_eq!(Severity::from_lsp(Some(99)), None);
    assert_eq!(Severity::from_lsp(None), None);
}

#[test]
fn renders_block_in_required_format() {
    let block = DiagnosticBlock {
        file: "crates/tui/src/foo.rs".to_string(),
        items: vec![
            remark(12, 8, Severity::Error, "missing semicolon"),
            remark(13, 1, Severity::Error, "expected `,`, found `}`"),
        ],
    };
    let rendered = block.render();
    assert!(rendered.contains("<diagnostics file=\"crates/tui/src/foo.rs\">"));
    assert!(rendered.contains("ERROR [12:8] missing semicolon"));
    assert!(rendered.contains("ERROR [13:1] expected `,`, found `}`"));
    assert!(rendered.ends_with("</diagnostics>"));
}

#[test]
fn empty_block_renders_to_empty_string() {
    let block = DiagnosticBlock {
        file: "foo.rs".to_string(),
        items: Vec::new(),
    };
    assert!(block.render().is_empty());
}

#[test]
fn truncate_caps_to_max() {
    let mut block = DiagnosticBlock {
        file: "foo.rs".to_string(),
        items: (0..30)
            .map(|i| remark(i, 1, Severity::Error, &format!("err {i}")))
            .collect(),
    };
    block.truncate(20);
    assert_eq!(block.items.len(), 20);
}

#[test]
fn renders_only_first_line_of_message() {
    let block = DiagnosticBlock {
        file: "foo.rs".to_string(),
        items: vec![remark(
            1,
            1,
            Severity::Error,
            "first line\nsecond line\nthird",
        )],
    };
    let rendered = block.render();
    assert!(rendered.contains("first line"));
    assert!(!rendered.contains("second line"));
    assert!(!rendered.contains("third"));
}

#[test]
fn returns_none_when_disabled() {
    let config = LspConfig {
        enabled: false,
        ..LspConfig::default()
    };
    assert!(matches!(
        route_for(&config, "/tmp/foo.rs"),
        DiagnosticsRoute::Nobody
    ));
}

#[test]
fn returns_none_for_unknown_language() {
    let config = LspConfig::default();
    assert!(matches!(
        route_for(&config, "/tmp/notes.txt"),
        DiagnosticsRoute::Nobody
    ));
}

#[test]
fn forwards_errors_through_fake_transport() {
    let config = LspConfig::default();
    assert!(matches!(
        route_for(&config, "/w/foo.rs"),
        DiagnosticsRoute::Known(Language::Rust)
    ));
    let items = vec![remark(1, 14, Severity::Error, "expected i32, found &str")];
    let block = select_diagnostics(&config, "/w", "/w/foo.rs", &items).expect("has block");
    let rendered = block.render();
    assert!(rendered.contains("ERROR [1:14] expected i32, found &str"));
    assert!(rendered.contains("foo.rs"));
}

#[test]
fn drops_warnings_by_default() {
    let items = vec![
        remark(1, 1, Severity::Warning, "unused import"),
        remark(2, 1, Severity::Error, "type error"),
    ];
    let block = select_diagnostics(&LspConfig::default(), "/w", "/w/foo.rs", &items)
        .expect("has block");
    assert_eq!(block.items.len(), 1);
    assert_eq!(block.items[0].severity, Severity::Error);
}

#[test]
fn keeps_warnings_when_opted_in() {
    let config = LspConfig {
        include_warnings: true,
        ..LspConfig::default()
    };
    let items = vec![
        remark(1, 1, Severity::Warning, "unused"),
        remark(2, 1, Severity::Error, "broken"),
    ];
    let block = select_diagnostics(&config, "/w", "/w/foo.rs", &items).expect("has block");
    assert_eq!(block.items.len(), 2);
    assert_eq!(block.items[0].severity, Severity::Error);
    assert_eq!(block.items[1].severity, Severity::Warning);
}

#[test]
fn truncates_to_max_per_file() {
    let config = LspConfig {
        max_diagnostics_per_file: 3,
        ..LspConfig::default()
    };
    let items: Vec<Diagnostic> = (0..10)
        .map(|i| remark(i + 1, 1, Severity::Error, &format!("err {i}")))
        .collect();
    let block = select_diagnostics(&config, "/w", "/w/foo.rs", &items).expect("has block");
    assert_eq!(block.items.len(), 3);
}

#[test]
fn render_blocks_concatenates() {
    let blocks = vec![
        DiagnosticBlock {
            file: "a.rs".to_string(),
            items: vec![remark(1, 1, Severity::Error, "err in a")],
        },
        DiagnosticBlock {
            file: "b.rs".to_string(),
            items: vec![remark(2, 2, Severity::Error, "err in b")],
        },
    ];
    let rendered = render_blocks(&blocks);
    assert!(rendered.contains("file=\"a.rs\""));
    assert!(rendered.contains("file=\"b.rs\""));
}

#[test]
fn bundles_are_put_together() {
    let block = |file: &str, items: Vec<Diagnostic>| DiagnosticBlock { file: file.to_string(), items };
    let a = || block("a.rs", vec![remark(1, 1, Severity::Error, "err in a")]);
    let b = || block("b.rs", vec![remark(2, 2, Severity::Error, "err in b")]);
    let clean = || block("c.rs", Vec::new());
    let (first, second) = (render_blocks(&vec![a()]), render_blocks(&vec![b()]));
    assert_eq!(render_blocks(&vec![a(), b()]), format!("{first}\n{second}"));
    assert_eq!(render_blocks(&vec![clean(), a(), clean()]), first);
    assert_eq!(render_blocks(&vec![clean(), clean()]), "");
}

#[test]
fn relative_path_falls_back_to_filename_when_outside_workspace() {
    assert_eq!(relative_to_workspace("/foo/bar", "/baz/qux.rs"), "qux.rs");
}

#[test]
fn config_resolve_uses_overrides() {
    let mut cfg = LspConfig::default();
    cfg.servers.push((
        "rust".to_string(),
        vec!["custom-rls".to_string(), "--lsp".to_string()],
    ));
    let (cmd, args) = cfg.resolve_command(Language::Rust).unwrap();
    assert_eq!(cmd, "custom-rls");
    assert_eq!(args, vec!["--lsp".to_string()]);
}

#[test]
fn config_resolve_falls_back_to_registry() {
    let cfg = LspConfig::default();
    let (cmd, _) = cfg.resolve_command(Language::Rust).unwrap();
    assert_eq!(cmd, "rust-analyzer");
}

#[test]
fn custom_for_extension_none_for_empty_config() {
    let cfg = LspConfig::default();
    assert!(cfg.custom_for_extension("foo.rb").is_none());
}

#[test]
fn custom_for_extension_finds_registered_extension() {
    let mut cfg = LspConfig::default();
    cfg.custom.push((
        "rb".to_string(),
        custom("ruby", "ruby-lsp", vec!["--stdio"]),
    ));
    let def = cfg
        .custom_for_extension("lib/hello.rb")
        .expect("should find rb");
    assert_eq!(def.language_id, "ruby");
    assert_eq!(def.command, "ruby-lsp");
}

#[test]
fn custom_for_extension_case_insensitive() {
    let mut cfg = LspConfig::default();
    cfg.custom
        .push(("cs".to_string(), custom("csharp", "csharp-ls", vec![])));
    assert!(cfg.custom_for_extension("App.CS").is_some());
    assert!(cfg.custom_for_extension("App.Cs").is_some());
}

#[test]
fn custom_fallback_only_for_other_language() {
    let mut cfg = LspConfig::default();
    cfg.custom
        .push(("go".to_string(), custom("go", "custom-gopls", vec![])));
    assert!(matches!(
        route_for(&cfg, "/w/main.go"),
        DiagnosticsRoute::Known(Language::Go)
    ));
}

#[test]
fn diagnostics_for_custom_returns_diagnostics() {
    let mut cfg = LspConfig::default();
    cfg.custom
        .push(("rb".to_string(), custom("ruby", "ruby-lsp", vec![])));
    match route_for(&cfg, "/w/app.rb") {
        DiagnosticsRoute::Custom {
            extension,
            definition,
        } => {
            assert_eq!(extension, "rb");
            assert_eq!(definition.command, "ruby-lsp");
        }
        _ => panic!("the server of the user is asked"),
    }
    let items = vec![remark(1, 5, Severity::Error, "ruby type error")];
    let block = select_diagnostics(&cfg, "/w", "/w/app.rb", &items).expect("has block");
    assert!(block.render().contains("ruby type error"));
}

#[test]
fn custom_unregistered_extension_returns_none() {
    let cfg = LspConfig::default();
    assert!(matches!(
        route_for(&cfg, "/w/script.lua"),
        DiagnosticsRoute::Nobody
    ));
}

#[test]
fn detects_rust_extension() {
    assert_eq!(detect_language("foo.rs"), Language::Rust);
    assert_eq!(detect_language("FOO.RS"), Language::Rust);
}

#[test]
fn detects_unknown_as_other() {
    assert_eq!(detect_language("notes.txt"), Language::Other);
    assert_eq!(detect_language("README"), Language::Other);
}

#[test]
fn detects_typescript_variants() {
    assert_eq!(detect_language("foo.ts"), Language::TypeScript);
    assert_eq!(detect_language("foo.tsx"), Language::TypeScript);
    assert_eq!(detect_language("foo.js"), Language::JavaScript);
}

#[test]
fn detects_java_extension() {
    assert_eq!(detect_language("App.java"), Language::Java);
    assert_eq!(detect_language("APP.JAVA"), Language::Java);
}

#[test]
fn detects_php_extension() {
    assert_eq!(detect_language("index.php"), Language::Php);
    assert_eq!(detect_language("INDEX.PHP"), Language::Php);
    assert_eq!(detect_language("router.php"), Language::Php);
}

#[test]
fn detects_vue_extension() {
    assert_eq!(detect_language("Component.vue"), Language::Vue);
    assert_eq!(detect_language("COMPONENT.VUE"), Language::Vue);
}

#[test]
fn language_ids_for_php_and_vue_match_lsp_values() {
    assert_eq!(Language::Php.as_key(), "php");
    assert_eq!(Language::Php.language_id(), "php");
    assert_eq!(Language::Vue.as_key(), "vue");
    assert_eq!(Language::Vue.language_id(), "vue");
}

#[test]
fn server_for_php_is_intelephense() {
    let (cmd, args) = server_for(Language::Php).expect("php has a server");
    assert_eq!(cmd, "intelephense");
    assert_eq!(args, vec!["--stdio"]);
}

#[test]
fn language_ids_for_java_and_vue_match_lsp_values() {
    assert_eq!(Language::Java.as_key(), "java");
    assert_eq!(Language::Java.language_id(), "java");
    assert_eq!(Language::Vue.as_key(), "vue");
    assert_eq!(Language::Vue.language_id(), "vue");
}

#[test]
fn server_for_rust_is_rust_analyzer() {
    let (cmd, args) = server_for(Language::Rust).expect("rust has a server");
    assert_eq!(cmd, "rust-analyzer");
    assert!(args.is_empty());
}

#[test]
fn server_for_java_is_jdtls() {
    let (cmd, args) = server_for(Language::Java).expect("java has a server");
    assert_eq!(cmd, "jdtls");
    assert!(args.is_empty());
}

#[test]
fn server_for_vue_is_vue_language_server() {
    let (cmd, args) = server_for(Language::Vue).expect("vue has a server");
    assert_eq!(cmd, "vue-language-server");
    assert_eq!(args, vec!["--stdio"]);
}

#[test]
fn server_for_other_is_none() {
    assert!(server_for(Language::Other).is_none());
}

#[test]
fn frames_are_read_back() {
    let mut buf = frame(b"{\"a\":1}");
    buf.extend_from_slice(&frame(b"[true]"));
    buf.extend_from_slice(b"Content-Length: 9\r\n\r\n{\"b");
    let messages = take_messages(&mut buf);
    assert_eq!(messages.len(), 2);
    assert!(messages[0].get("a").is_some());
    assert_eq!(buf, b"Content-Length: 9\r\n\r\n{\"b");
}

#[test]
fn messages_are_framed_with_their_length() {
    let note = initialized_note();
    let bytes = frame_message(&note);
    let (end, len) = parse_header(&bytes).expect("has a header");
    assert_eq!(end + len, bytes.len());
    let mut buf = bytes;
    let messages = take_messages(&mut buf);
    assert_eq!(messages.len(), 1);
    assert_eq!(messages[0].get_str("method"), Some("initialized"));
    assert!(buf.is_empty());
}

#[test]
fn servers_are_told_where_they_work() {
    let request = initialize_request(42, "file:///w");
    assert_eq!(request.get_str("method"), Some("initialize"));
    let params = request.get("params").expect("has parameters");
    assert_eq!(params.get_str("rootUri"), Some("file:///w"));
}

#[test]
fn documents_are_opened_once_and_changed_later() {
    let mut documents = OpenDocuments::new("rust");
    let first = documents.update("/w/a.rs", "file:///w/a.rs", "fn a() {}");
    assert_eq!(first.get_str("method"), Some("textDocument/didOpen"));
    let second = documents.update("/w/a.rs", "file:///w/a.rs", "fn b() {}");
    assert_eq!(second.get_str("method"), Some("textDocument/didChange"));
    let other = documents.update("/w/b.rs", "file:///w/b.rs", "");
    assert_eq!(other.get_str("method"), Some("textDocument/didOpen"));
    assert_eq!(documents.last_version("/w/a.rs"), Some(2));
    assert_eq!(documents.last_version("/w/b.rs"), Some(1));
    assert_eq!(documents.last_version("/w/c.rs"), None);
}

#[test]
fn incoming_messages_are_sorted() {
    let answer = json("{\"id\": 7, \"result\": null}");
    assert!(matches!(dispatch(&answer), Incoming::Answer { id: 7 }));
    let noise = json("{\"method\": \"window/logMessage\"}");
    assert!(matches!(dispatch(&noise), Incoming::Ignored));
    let remarks = json(
        "{\"method\": \"textDocument/publishDiagnostics\", \"params\": {\"uri\": \"file:///a\", \"diagnostics\": []}}",
    );
    match dispatch(&remarks) {
        Incoming::Diagnostics { path, items } => {
            assert_eq!(path, "/a");
            assert!(items.is_empty());
        }
        _ => panic!("these are remarks"),
    }
}

#[test]
fn addresses_lead_back_to_their_files() {
    assert_eq!(uri_from_path("/a b/c.rs"), "file:///a b/c.rs");
    assert_eq!(path_from_uri(&uri_from_path("/x/y.rs")), Some("/x/y.rs".to_string()));
    assert_eq!(path_from_uri("http://x"), None);
}

#[test]
fn missing_servers_are_told_once() {
    let mut missing = MissingServers::new();
    assert!(missing.warn_once("rust"));
    assert!(!missing.warn_once("rust"));
    assert!(missing.warn_once("go"));
}

#[test]
fn nothing_is_told_of_a_clean_file() {
    assert!(select_diagnostics(&LspConfig::default(), "/w", "/w/a.rs", &Vec::new()).is_none());
}

#[test]
fn paths_are_taken_apart() {
    assert_eq!(path_file_name("/a/b.tar.gz"), Some("b.tar.gz".to_string()));
    assert_eq!(path_extension("/a/b.tar.gz"), Some("gz".to_string()));
    assert_eq!(path_extension("/a/.hidden"), None);
    assert_eq!(path_file_name("/"), None);
    assert!(same_path("/a//b/", "/a/b"));
    assert!(!same_path("/a/b", "a/b"));
    assert_eq!(path_below("/a", "b"), "/a/b");
    assert_eq!(relative_to_workspace("/foo/bar", "/foo/bar/src/x.rs"), "src/x.rs");
    let sorted = sort_paths(&vec!["b".to_string(), "a/z".to_string(), "a".to_string()]);
    assert_eq!(sorted, vec!["a".to_string(), "a/z".to_string(), "b".to_string()]);
}
