use codewhale_tui::eval::{
    append_line, apply_patch, eval_shell_invocation_for_platform, fixture_file_name,
    patch_is_readable, patch_target, search_files, search_output, seed_files,
    summarize_workspace, truncate_output, validate_outputs, EvalHarness, EvalHarnessConfig,
    EvalProgress, EvalShellPlatform, FixtureRecord, PatchError, ScenarioStepKind, SearchedFile,
    StepAction,
};

#[test]
fn eval_shell_invocation_preserves_quoted_payload_as_single_arg() {
    let command = r#"git commit -m "feat: complete sub-pages""#;

    let windows = eval_shell_invocation_for_platform(command, EvalShellPlatform::Windows);
    assert_eq!(windows.program, "cmd");
    assert_eq!(windows.args, vec!["/C".to_string(), command.to_string()]);
    assert!(windows.raw_payload_on_windows);

    let unix = eval_shell_invocation_for_platform(command, EvalShellPlatform::Unix);
    assert_eq!(unix.program, "sh");
    assert_eq!(unix.args, vec!["-c".to_string(), command.to_string()]);
    assert!(!unix.raw_payload_on_windows);
}

#[test]
fn steps_have_words_and_tools() {
    for kind in [
        ScenarioStepKind::List,
        ScenarioStepKind::Read,
        ScenarioStepKind::Search,
        ScenarioStepKind::Edit,
        ScenarioStepKind::ApplyPatch,
        ScenarioStepKind::ExecShell,
    ] {
        assert_eq!(ScenarioStepKind::parse(kind.tool_name()), Some(kind));
    }
    assert_eq!(ScenarioStepKind::parse(" EXEC_SHELL "), Some(ScenarioStepKind::ExecShell));
    assert_eq!(ScenarioStepKind::parse("nonsense"), None);
}

#[test]
fn outputs_are_cut() {
    assert_eq!(truncate_output("abc", 3), "abc");
    assert_eq!(truncate_output("abcd", 3), "abc...");
    assert_eq!(truncate_output("äöü", 2), "äö...");
}

#[test]
fn lines_are_appended() {
    assert_eq!(append_line("a", "b"), "a\nb\n");
    assert_eq!(append_line("a\n", "b"), "a\nb\n");
}

fn file(path: &str, content: &str) -> SearchedFile {
    SearchedFile {
        path: path.to_string(),
        content: content.to_string(),
    }
}

#[test]
fn searches_tell_where_they_match() {
    let files = vec![file("a.txt", "one\ntwo todo\nthree"), file("b.txt", "todo")];
    let result = search_files("todo", &files).expect("the pattern is well formed");
    assert_eq!(result.matches.len(), 2);
    assert_eq!(result.matches[0].line, 2);
    assert_eq!(result.matches[0].path, "a.txt");
    assert!(!search_output(&result).is_empty());
    assert!(search_files("(", &files).is_err());
}

const PATCH: &str =
    "*** Begin Patch\n*** Update File: notes.txt\n@@\n one\n-two\n+zwei\n*** End Patch\n";

fn refusal(patch: &str, original: &str) -> String {
    assert!(patch_is_readable(patch, original));
    match apply_patch(patch, original) {
        Ok(_) => panic!("the patch does not fit"),
        Err(e) => e.message("/w/notes.txt"),
    }
}

#[test]
fn patches_change_their_lines() {
    assert!(matches!(patch_target(PATCH), Ok(target) if target == "notes.txt"));
    assert!(patch_is_readable(PATCH, "one\ntwo\n"));
    let patched = match apply_patch(PATCH, "one\ntwo\n") {
        Ok(text) => text,
        Err(_) => panic!("the patch fits"),
    };
    assert_eq!(patched, "one\nzwei\n");
    let without_newline = match apply_patch(PATCH, "one\ntwo") {
        Ok(text) => text,
        Err(_) => panic!("the patch fits"),
    };
    assert_eq!(without_newline, "one\nzwei");
}

#[test]
fn patches_that_do_not_fit_are_refused() {
    assert_eq!(
        refusal(PATCH, "eins\ntwo\n"),
        "patch context not found in /w/notes.txt: one"
    );
    assert_eq!(
        refusal(PATCH, "one\nzwei\n"),
        "patch removal mismatch in /w/notes.txt: expected 'two'"
    );
    let directive = "*** Begin Patch\n*** Update File: notes.txt\n*** Delete File: x\n";
    assert_eq!(
        refusal(directive, ""),
        "unexpected patch directive: *** Delete File: x"
    );
    let unknown = "*** Begin Patch\n*** Update File: notes.txt\n?what\n";
    assert_eq!(refusal(unknown, ""), "unsupported patch line: ?what");
    let unreadable = "*** Begin Patch\n*** Update File: notes.txt\nä\n";
    assert!(!patch_is_readable(unreadable, ""));
}

#[test]
fn patches_name_a_file_of_the_workspace() {
    let header = patch_target("no patch").err().expect("this is no patch");
    assert!(matches!(header, PatchError::MissingBegin));
    assert_eq!(header.message("x"), "patch missing *** Begin Patch header");
    let kind = patch_target("*** Begin Patch\n*** Add File: x\n")
        .err()
        .expect("only updates are known");
    assert!(matches!(kind, PatchError::NotAnUpdate));
    assert_eq!(kind.message("x"), "only *** Update File patches are supported");
    let path = patch_target("*** Begin Patch\n*** Update File: ../x\n")
        .err()
        .expect("the path leads upwards");
    assert!(matches!(path, PatchError::OutsideWorkspace));
    assert_eq!(path.message("x"), "patch path must be workspace-relative");
}

#[test]
fn workspaces_are_seeded_and_summed_up() {
    let seeds = seed_files();
    assert_eq!(seeds.len(), 3);
    assert!(seeds.contains(&(
        "notes.txt",
        "# Eval Harness\nstatus = \"draft\"\ntodo: offline metrics\n"
    )));
    let files = vec!["b.txt".to_string(), "a.txt".to_string()];
    let summary = summarize_workspace("/w", &files, Some("a.txt\nb.txt")).expect("has files");
    assert_eq!(summary.root, "/w");
    assert_eq!(summary.file_count, 2);
}

#[test]
fn outputs_that_are_missing_are_not_valid() {
    assert!(!validate_outputs(None, "tok", None, None, None, None));
}

#[test]
fn fixtures_are_lines_of_json() {
    let line = FixtureRecord::ok(ScenarioStepKind::Read, "out").line();
    assert!(line.starts_with('{') && line.contains("out") && !line.trim_end().contains('\n'));
    let failed = FixtureRecord::err(ScenarioStepKind::Read, "boom").line();
    assert!(failed.contains("boom"));
    assert_eq!(fixture_file_name("my scenario-1"), "my_scenario-1.jsonl");
}

#[test]
fn runs_follow_the_scenario() {
    let harness = EvalHarness::new(EvalHarnessConfig::default());
    let mut progress = EvalProgress::new();
    let mut kinds = Vec::new();
    while let Some(kind) = progress.next() {
        kinds.push(kind);
        let _ = harness.run_step(&mut progress, kind, 5, Ok("fine".to_string()));
    }
    assert_eq!(kinds.len(), 6);
    assert_eq!(kinds[0], ScenarioStepKind::List);
    let run = harness
        .finish(progress, "/w", 30, &vec!["notes.txt".to_string()], None)
        .expect("the run is over");
    assert_eq!(run.metrics.steps, 6);
    assert_eq!(run.metrics.tool_errors, 0);
    assert_eq!(run.steps.len(), 6);
    assert_eq!(run.to_report().workspace_root, run.workspace_root());
}

#[test]
fn failed_steps_fail_the_run() {
    let harness = EvalHarness::new(EvalHarnessConfig::for_platform(EvalShellPlatform::Unix));
    let mut progress = EvalProgress::new();
    while let Some(kind) = progress.next() {
        let result = if kind == ScenarioStepKind::Search {
            Err("no".to_string())
        } else {
            Ok("fine".to_string())
        };
        let _ = harness.run_step(&mut progress, kind, 5, result);
    }
    let run = harness
        .finish(progress, "/w", 30, &vec!["notes.txt".to_string()], None)
        .expect("the run is over");
    assert!(!run.metrics.success);
    assert_eq!(run.metrics.tool_errors, 1);
}

#[test]
fn listings_without_files_are_refused() {
    let harness = EvalHarness::new(EvalHarnessConfig::default());
    let mut progress = EvalProgress::new();
    while let Some(kind) = progress.next() {
        let _ = harness.run_step(&mut progress, kind, 5, Ok(" a.txt ".to_string()));
    }
    let refused = harness.finish(progress, "/w", 30, &Vec::new(), None);
    assert_eq!(
        refused.err(),
        Some("workspace appears empty after list_dir: a.txt".to_string())
    );
}

#[test]
fn actions_name_what_is_done() {
    let harness = EvalHarness::new(EvalHarnessConfig::default());
    assert!(matches!(
        harness.action(ScenarioStepKind::List, "/w"),
        StepAction::ListDir { path } if path == "/w"
    ));
    let failing = EvalHarness::new(EvalHarnessConfig {
        fail_step: Some(ScenarioStepKind::List),
        ..EvalHarnessConfig::default()
    });
    assert!(matches!(
        failing.action(ScenarioStepKind::List, "/w"),
        StepAction::ListDir { path } if path == "/w/missing-dir"
    ));
}
