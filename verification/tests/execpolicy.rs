use codewhale_tui::execpolicy::decision::{Decision, Error};
use codewhale_tui::execpolicy::matcher::{
    normalize_command, pattern_expression, pattern_matches, redact_line, respace_words,
    strip_heredoc_bodies,
};
use codewhale_tui::execpolicy::rules::{ExecPolicyConfig, ExecPolicyDecision, RuleSet};

fn begins_with_words(pattern: &str, command: &str) -> bool {
    let mut words = command.split_whitespace();
    pattern
        .split_whitespace()
        .all(|expected| words.next() == Some(expected))
}

fn rules(groups: Vec<(&str, Vec<&str>, Vec<&str>)>) -> ExecPolicyConfig {
    let mut list = Vec::new();
    for (name, allow, deny) in groups {
        list.push((
            name.to_string(),
            RuleSet {
                allow: allow.iter().map(|s| s.to_string()).collect(),
                deny: deny.iter().map(|s| s.to_string()).collect(),
            },
        ));
    }
    ExecPolicyConfig::new(list)
}

#[test]
fn test_normalize_command() {
    assert_eq!(normalize_command("git   status"), "git status");
    assert_eq!(
        normalize_command("git \"log --oneline\""),
        "git log --oneline"
    );
}

#[test]
fn test_pattern_matches() {
    assert!(pattern_matches("git status", "git status"));
    assert!(pattern_matches("git log *", "git log --oneline"));
    assert!(pattern_matches("cargo *", "cargo test --all"));
    assert!(!pattern_matches("git push --force", "git push origin main"));
}

#[test]
fn strip_heredoc_strips_simple_body() {
    let cmd = "cat <<EOF > file.txt\nhello\nworld\nEOF";
    let stripped = strip_heredoc_bodies(cmd);
    assert!(!stripped.contains("hello"));
    assert!(!stripped.contains("world"));
    assert!(stripped.contains("> file.txt"));
}

#[test]
fn strip_heredoc_handles_dash_form() {
    let cmd = "cat <<-EOF > file.txt\n\tbody\nEOF";
    let stripped = strip_heredoc_bodies(cmd);
    assert!(!stripped.contains("body"));
    assert!(stripped.contains("> file.txt"));
}

#[test]
fn strip_heredoc_handles_quoted_delimiter() {
    let cmd = "cat <<'END_OF_FILE' > out\nliteral $vars\nEND_OF_FILE";
    let stripped = strip_heredoc_bodies(cmd);
    assert!(!stripped.contains("literal $vars"));
    assert!(stripped.contains("> out"));
}

#[test]
fn strip_heredoc_leaves_non_heredoc_commands_intact() {
    let cmd = "echo hello && ls";
    assert_eq!(strip_heredoc_bodies(cmd), "echo hello && ls");
}

#[test]
fn strip_heredoc_does_not_touch_here_string_operator() {
    let cmd = "grep foo <<< \"some text\"";
    let stripped = strip_heredoc_bodies(cmd);
    assert!(stripped.contains("<<<"));
    assert!(stripped.contains("some text"));
}

#[test]
fn normalize_command_strips_heredoc_for_pattern_matching() {
    let normalized = normalize_command("cat <<EOF > file.txt\nbody\nEOF");
    assert!(pattern_matches("cat > file.txt", &normalized));
}

#[test]
fn test_execpolicy_evaluate() {
    let config = rules(vec![
        (
            "git",
            vec!["git status", "git log *"],
            vec!["git push --force"],
        ),
        ("danger", vec![], vec!["rm -rf /"]),
    ]);

    assert!(matches!(
        config.evaluate("git status", begins_with_words),
        ExecPolicyDecision::Allow
    ));
    assert!(matches!(
        config.evaluate("git log --oneline", begins_with_words),
        ExecPolicyDecision::Allow
    ));
    assert!(matches!(
        config.evaluate("git push --force", begins_with_words),
        ExecPolicyDecision::Deny(_)
    ));
    assert!(matches!(
        config.evaluate("unknown command", begins_with_words),
        ExecPolicyDecision::AskUser(_)
    ));
}

#[test]
fn test_prefix_rule_allows_git_status_with_flags() {
    let config = rules(vec![("git", vec!["git status"], vec![])]);

    assert!(matches!(
        config.evaluate("git status -s", begins_with_words),
        ExecPolicyDecision::Allow
    ));
    assert!(matches!(
        config.evaluate("git status --porcelain", begins_with_words),
        ExecPolicyDecision::Allow
    ));
    assert!(matches!(
        config.evaluate("git push origin main", begins_with_words),
        ExecPolicyDecision::AskUser(_)
    ));
}

#[test]
fn test_prefix_rule_allows_cargo_check_variants() {
    let config = rules(vec![("cargo", vec!["cargo check"], vec![])]);

    assert!(matches!(
        config.evaluate("cargo check", begins_with_words),
        ExecPolicyDecision::Allow
    ));
    assert!(matches!(
        config.evaluate("cargo check --workspace", begins_with_words),
        ExecPolicyDecision::Allow
    ));
    assert!(matches!(
        config.evaluate("cargo build --release", begins_with_words),
        ExecPolicyDecision::AskUser(_)
    ));
}

#[test]
fn denials_outrank_permissions_and_name_their_rule() {
    let config = rules(vec![
        ("a", vec!["rm *"], vec![]),
        ("z", vec![], vec!["rm -rf *"]),
    ]);
    match config.evaluate("rm -rf /tmp/x", begins_with_words) {
        ExecPolicyDecision::Deny(reason) => {
            assert_eq!(reason, "execpolicy denied by z: rm -rf *")
        }
        _ => panic!("the command is denied"),
    }
    match config.evaluate("ls", begins_with_words) {
        ExecPolicyDecision::AskUser(reason) => {
            assert_eq!(reason, "execpolicy: no matching allow rule")
        }
        _ => panic!("the user is asked"),
    }
}

#[test]
fn later_groups_of_a_name_replace_earlier_ones() {
    let config = rules(vec![
        ("git", vec!["git status"], vec![]),
        ("git", vec!["git log"], vec![]),
    ]);
    assert!(matches!(
        config.evaluate("git log", begins_with_words),
        ExecPolicyDecision::Allow
    ));
    assert!(matches!(
        config.evaluate("git status", begins_with_words),
        ExecPolicyDecision::AskUser(_)
    ));
}

#[test]
fn words_are_decisions() {
    assert!(matches!(Decision::parse("allow"), Ok(Decision::Allow)));
    assert!(matches!(Decision::parse("prompt"), Ok(Decision::Prompt)));
    assert!(matches!(Decision::parse("forbidden"), Ok(Decision::Forbidden)));
    assert!(matches!(
        Decision::parse("maybe"),
        Err(Error::InvalidDecision(word)) if word == "maybe"
    ));
}

#[test]
fn patterns_become_expressions() {
    assert_eq!(pattern_expression("git log *"), "(?s)^git log .*$");
    assert_eq!(pattern_expression("a.b"), "(?s)^a\\.b$");
    assert!(pattern_matches("echo *", "echo 'a\nb'"));
    assert!(!pattern_matches("echo a", "echo 'a\nb'"));
}

#[test]
fn unclosed_quotes_fall_back_to_white_space() {
    assert_eq!(normalize_command("echo   'open"), "echo 'open");
    assert_eq!(respace_words("a   b", None), "a b");
}

#[test]
fn lines_lose_the_operators_of_here_documents() {
    let ops = vec![vec![Some("<<EOF".to_string()), Some("EOF".to_string())]];
    let (line, delimiter) = redact_line("cat <<EOF > x", &ops);
    assert!(!line.contains("<<EOF"));
    assert_eq!(delimiter, Some("EOF".to_string()));
}
