use codewhale_tui::json::Json;
use codewhale_tui::tool_parser::{
    arguments_from_flags, arguments_from_tags, extract_json_object, has_tool_call_markers,
    parse_from_json, parse_tool_calls, tidy, try_parse_tool_calls, value_or_text, ParseResult,
};

fn parse(text: &str) -> ParseResult {
    assert!(try_parse_tool_calls(text).is_some());
    parse_tool_calls(text)
}

#[test]
fn test_parse_arrow_syntax() {
    let text = r#"I'll list the directory.
[TOOL_CALL]
{tool => "list_dir", args => {}}
[/TOOL_CALL]"#;

    let result = parse(text);
    assert_eq!(result.tool_calls.len(), 1);
    assert_eq!(result.tool_calls[0].name, "list_dir");
    assert_eq!(result.clean_text, "I'll list the directory.");
}

#[test]
fn test_parse_json_syntax() {
    let text = r#"Let me check.
[TOOL_CALL]
{"tool": "read_file", "args": {"path": "test.txt"}}
[/TOOL_CALL]"#;

    let result = parse(text);
    assert_eq!(result.tool_calls.len(), 1);
    assert_eq!(result.tool_calls[0].name, "read_file");
    assert_eq!(result.tool_calls[0].args.get_str("path"), Some("test.txt"));
}

#[test]
fn test_parse_multiple_tool_calls() {
    let text = r#"First I'll list, then read.
[TOOL_CALL]
{tool => "list_dir", args => {}}
[/TOOL_CALL]
[TOOL_CALL]
{tool => "read_file", args => {"path": "file.txt"}}
[/TOOL_CALL]"#;

    let result = parse(text);
    assert_eq!(result.tool_calls.len(), 2);
    assert_eq!(result.tool_calls[0].name, "list_dir");
    assert_eq!(result.tool_calls[1].name, "read_file");
}

#[test]
fn test_no_tool_calls() {
    let text = "Just some regular text without any tool calls.";
    let result = parse(text);
    assert!(result.tool_calls.is_empty());
    assert_eq!(result.clean_text, text);
}

#[test]
fn test_dsml_wrappers_are_stripped_without_execution() {
    let text = "before\n<｜DSML｜tool_calls>\n<｜DSML｜invoke name=\"read_file\">\n<｜DSML｜parameter name=\"path\" string=\"true\">secret.txt</｜DSML｜parameter>\n</｜DSML｜invoke>\n</｜DSML｜tool_calls>\nafter";

    assert!(has_tool_call_markers(text));
    let result = parse(text);

    assert!(result.tool_calls.is_empty());
    assert!(result.clean_text.contains("before"));
    assert!(result.clean_text.contains("after"));
    assert!(!result.clean_text.contains("DSML"));
    assert!(!result.clean_text.contains("read_file"));
    assert!(!result.clean_text.contains("secret.txt"));
}

#[test]
fn test_ascii_dsml_wrappers_are_stripped_without_execution() {
    let text = "before <|DSML|invoke name=\"grep_files\"><|DSML|parameter name=\"pattern\">SECRET</|DSML|parameter></|DSML|invoke> after";

    assert!(has_tool_call_markers(text));
    let result = parse(text);

    assert!(result.tool_calls.is_empty());
    assert!(result.clean_text.contains("before"));
    assert!(result.clean_text.contains("after"));
    assert!(!result.clean_text.contains("DSML"));
    assert!(!result.clean_text.contains("grep_files"));
    assert!(!result.clean_text.contains("SECRET"));
}

#[test]
fn test_has_markers() {
    assert!(has_tool_call_markers("[TOOL_CALL]test[/TOOL_CALL]"));
    assert!(has_tool_call_markers(
        "<｜DSML｜tool_calls>...</｜DSML｜tool_calls>"
    ));
    assert!(!has_tool_call_markers("no markers here"));
}

#[test]
fn calls_are_numbered_in_order() {
    let text = "[TOOL_CALL]\n{\"tool\": \"a\", \"args\": {}}\n[/TOOL_CALL]\n[TOOL_CALL]\n{\"tool\": \"b\", \"args\": {}}\n[/TOOL_CALL]";
    let result = parse(text);
    assert_eq!(result.tool_calls.len(), 2);
    assert_ne!(result.tool_calls[0].id, result.tool_calls[1].id);
}

#[test]
fn tagged_calls_are_found() {
    let text = "go <invoke name=\"read_file\"><parameter name=\"path\">a.txt</parameter></invoke>";
    let result = parse(text);
    assert_eq!(result.tool_calls.len(), 1);
    assert_eq!(result.tool_calls[0].name, "read_file");
    assert_eq!(result.tool_calls[0].args.get_str("path"), Some("a.txt"));
    assert_eq!(result.clean_text, "go");
}

fn group(parts: &[Option<&str>]) -> Vec<Option<String>> {
    let mut out = Vec::new();
    for part in parts {
        out.push(part.map(|s| s.to_string()));
    }
    out
}

#[test]
fn arguments_come_from_named_tags_first() {
    let params = vec![group(&[Some("<p>"), Some("count"), Some("3")])];
    let value = arguments_from_tags(&params, &Vec::new());
    assert!(value.get("count").is_some());
}

#[test]
fn arguments_come_from_flags() {
    let flags = vec![group(&[Some("--path a.txt"), Some("path"), None, None, Some("a.txt")])];
    let value = arguments_from_flags(&flags, &Vec::new());
    assert_eq!(value.get_str("path"), Some("a.txt"));
}

#[test]
fn values_that_do_not_parse_are_texts() {
    assert!(matches!(value_or_text(None, "abc"), Json::Str(s) if s == "abc"));
    assert!(matches!(value_or_text(Some(Json::Bool(true)), "true"), Json::Bool(true)));
}

#[test]
fn objects_without_a_name_are_no_calls() {
    assert!(parse_from_json(&Json::Object(Vec::new())).is_none());
    assert!(parse_from_json(&Json::Null).is_none());
}

#[test]
fn tidying_takes_blank_lines_away() {
    assert_eq!(tidy("  a\n\n \n\nb  "), "a\nb");
}

#[test]
fn calls_that_cannot_be_taken_apart_are_noticed() {
    assert!(try_parse_tool_calls("[TOOL_CALL]{tool => \"x\", args => {oops[/TOOL_CALL]").is_none());
    assert!(try_parse_tool_calls("no calls").is_some());
}

#[test]
fn objects_are_cut_by_characters() {
    let object = extract_json_object("see {\"a\":\"é\"} and {\"b\":1}").expect("is there");
    assert_eq!(object.get_str("a"), Some("é"));
    let braces = extract_json_object("{\"a\":\"}\\\"{\"}").expect("is there");
    assert_eq!(braces.get_str("a"), Some("}\"{"));
    assert!(extract_json_object("no object").is_none());
    assert!(extract_json_object("{\"a\": 1").is_none());
}

#[test]
fn arguments_behind_arrows_hold_any_letter() {
    let result = parse("[TOOL_CALL]{tool => \"say\", args => {\"text\": \"é\"}}[/TOOL_CALL]");
    assert_eq!(result.tool_calls[0].args.get_str("text"), Some("é"));
    let flags = parse("[TOOL_CALL]{tool => \"say\", args => {--text \"é\"}}[/TOOL_CALL]");
    assert_eq!(flags.tool_calls[0].args.get_str("text"), Some("é"));
    let loose = parse("[TOOL_CALL]name: say {\"text\": \"é\"}[/TOOL_CALL]");
    assert_eq!(loose.tool_calls[0].name, "say");
    assert_eq!(loose.tool_calls[0].args.get_str("text"), Some("é"));
}
