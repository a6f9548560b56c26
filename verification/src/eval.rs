//! An evaluation of the tool loop that needs no network: six steps in a small
//! workspace, and what is measured of them.

use crate::json::{json_text, object2, render_json, text_value, Json, JsonView};
use crate::paths::{below, path_below, paths_in_order, sort_paths};
use crate::text::{
    all_ascii, ascii_lower, begins_with, chars_of, concat, contains, contains_text, copy_texts,
    decimal, ends_with, finishes_with, join, joined, lemma_trimmed_ascii, lemma_trimmed_lower,
    lemma_trimmed_once, lines_of, lowercase, opt_str, opt_text, push_line, push_usize, same_text,
    split_lines, starts_with, strip_prefix, text_of, texts, to_lowercase, trim, trimmed,
    without_prefix,
};
use crate::tool_catalog::{match_each, regex_matches, regex_refusal};
use vstd::prelude::*;

verus! {

/// The platform whose shell runs a command.
#[derive(Debug, Clone, Copy, PartialEq, Eq, Structural)]
pub enum EvalShellPlatform {
    Windows,
    Unix,
}

/// How a shell is called.
#[derive(Debug)]
pub struct EvalShellInvocation {
    pub program: &'static str,
    pub args: Vec<String>,
    pub raw_payload_on_windows: bool,
}

/// How the shell of a platform is called with a command: the command is one
/// argument, whatever it holds.
pub fn eval_shell_invocation_for_platform(command: &str, platform: EvalShellPlatform) -> (r:
    EvalShellInvocation)
    ensures
        match platform {
            EvalShellPlatform::Windows => r.program@ == "cmd"@ && texts(r.args@) == seq![
                "/C"@,
                command@,
            ] && r.raw_payload_on_windows,
            EvalShellPlatform::Unix => r.program@ == "sh"@ && texts(r.args@) == seq![
                "-c"@,
                command@,
            ] && !r.raw_payload_on_windows,
        },
{
    let mut args: Vec<String> = Vec::new();
    proof {
        assert(texts(args@) =~= Seq::empty());
    }
    match platform {
        EvalShellPlatform::Windows => {
            push_line(&mut args, "/C".to_owned());
            push_line(&mut args, command.to_owned());
            proof {
                assert(texts(args@) =~= seq!["/C"@, command@]);
            }
            EvalShellInvocation { program: "cmd", args, raw_payload_on_windows: true }
        },
        EvalShellPlatform::Unix => {
            push_line(&mut args, "-c".to_owned());
            push_line(&mut args, command.to_owned());
            proof {
                assert(texts(args@) =~= seq!["-c"@, command@]);
            }
            EvalShellInvocation { program: "sh", args, raw_payload_on_windows: false }
        },
    }
}

/// A step of the scenario.
#[derive(Debug, Clone, Copy, PartialEq, Eq, PartialOrd, Ord, Hash, Structural)]
pub enum ScenarioStepKind {
    List,
    Read,
    Search,
    Edit,
    ApplyPatch,
    ExecShell,
}

/// The steps in the order in which they are run.
pub open spec fn scenario() -> Seq<ScenarioStepKind> {
    seq![
        ScenarioStepKind::List,
        ScenarioStepKind::Read,
        ScenarioStepKind::Search,
        ScenarioStepKind::Edit,
        ScenarioStepKind::ApplyPatch,
        ScenarioStepKind::ExecShell,
    ]
}

impl ScenarioStepKind {
    /// The place of a step in the scenario.
    pub open spec fn place(self) -> int {
        match self {
            ScenarioStepKind::List => 0,
            ScenarioStepKind::Read => 1,
            ScenarioStepKind::Search => 2,
            ScenarioStepKind::Edit => 3,
            ScenarioStepKind::ApplyPatch => 4,
            ScenarioStepKind::ExecShell => 5,
        }
    }

    /// The name of the tool that a step uses.
    pub open spec fn tool(self) -> Seq<char> {
        match self {
            ScenarioStepKind::List => "list_dir"@,
            ScenarioStepKind::Read => "read_file"@,
            ScenarioStepKind::Search => "search"@,
            ScenarioStepKind::Edit => "edit_file"@,
            ScenarioStepKind::ApplyPatch => "apply_patch"@,
            ScenarioStepKind::ExecShell => "exec_shell"@,
        }
    }

    /// The name of a step.
    pub open spec fn word(self) -> Seq<char> {
        match self {
            ScenarioStepKind::List => "List"@,
            ScenarioStepKind::Read => "Read"@,
            ScenarioStepKind::Search => "Search"@,
            ScenarioStepKind::Edit => "Edit"@,
            ScenarioStepKind::ApplyPatch => "ApplyPatch"@,
            ScenarioStepKind::ExecShell => "ExecShell"@,
        }
    }

    /// The step that a word in small letters stands for.
    pub open spec fn named(word: Seq<char>) -> Option<ScenarioStepKind> {
        if word == "list"@ || word == "list_dir"@ {
            Some(ScenarioStepKind::List)
        } else if word == "read"@ || word == "read_file"@ {
            Some(ScenarioStepKind::Read)
        } else if word == "search"@ || word == "grep"@ || word == "grep_files"@ {
            Some(ScenarioStepKind::Search)
        } else if word == "edit"@ || word == "edit_file"@ {
            Some(ScenarioStepKind::Edit)
        } else if word == "patch"@ || word == "apply_patch"@ {
            Some(ScenarioStepKind::ApplyPatch)
        } else if word == "shell"@ || word == "exec_shell"@ || word == "exec"@ {
            Some(ScenarioStepKind::ExecShell)
        } else {
            None
        }
    }

    fn order(self) -> (r: u8)
        ensures
            r == self.place(),
    {
        match self {
            ScenarioStepKind::List => 0,
            ScenarioStepKind::Read => 1,
            ScenarioStepKind::Search => 2,
            ScenarioStepKind::Edit => 3,
            ScenarioStepKind::ApplyPatch => 4,
            ScenarioStepKind::ExecShell => 5,
        }
    }

    /// The name of the tool that a step uses.
    pub fn tool_name(self) -> (r: &'static str)
        ensures
            r@ == self.tool(),
    {
        match self {
            ScenarioStepKind::List => "list_dir",
            ScenarioStepKind::Read => "read_file",
            ScenarioStepKind::Search => "search",
            ScenarioStepKind::Edit => "edit_file",
            ScenarioStepKind::ApplyPatch => "apply_patch",
            ScenarioStepKind::ExecShell => "exec_shell",
        }
    }

    /// The name of a step.
    pub fn name(self) -> (r: &'static str)
        ensures
            r@ == self.word(),
    {
        match self {
            ScenarioStepKind::List => "List",
            ScenarioStepKind::Read => "Read",
            ScenarioStepKind::Search => "Search",
            ScenarioStepKind::Edit => "Edit",
            ScenarioStepKind::ApplyPatch => "ApplyPatch",
            ScenarioStepKind::ExecShell => "ExecShell",
        }
    }

    /// The step that a word in small letters stands for.
    pub fn from_word(w: &str) -> (r: Option<Self>)
        ensures
            r == ScenarioStepKind::named(w@),
    {
        if same_text(w, "list") || same_text(w, "list_dir") {
            Some(ScenarioStepKind::List)
        } else if same_text(w, "read") || same_text(w, "read_file") {
            Some(ScenarioStepKind::Read)
        } else if same_text(w, "search") || same_text(w, "grep") || same_text(w, "grep_files") {
            Some(ScenarioStepKind::Search)
        } else if same_text(w, "edit") || same_text(w, "edit_file") {
            Some(ScenarioStepKind::Edit)
        } else if same_text(w, "patch") || same_text(w, "apply_patch") {
            Some(ScenarioStepKind::ApplyPatch)
        } else if same_text(w, "shell") || same_text(w, "exec_shell") || same_text(w, "exec") {
            Some(ScenarioStepKind::ExecShell)
        } else {
            None
        }
    }

    /// The step that a word stands for, in letters of either size and with blanks
    /// around it.
    pub open spec fn meant(value: Seq<char>) -> Option<ScenarioStepKind> {
        ScenarioStepKind::named(ascii_lower(trimmed(value)))
    }

    /// The step that a word stands for, in letters of either size.
    pub fn parse(value: &str) -> (r: Option<Self>)
        ensures
            r == ScenarioStepKind::named(lowercase(trimmed(value@))),
            all_ascii(value@) ==> r == ScenarioStepKind::meant(value@),
    {
        let bare = trim(value);
        proof {
            if all_ascii(value@) {
                lemma_trimmed_ascii(value@);
            }
        }
        let small = to_lowercase(bare.as_str());
        ScenarioStepKind::from_word(small.as_str())
    }
}

/// Each step is read back from the name of its tool, and from the other words for
/// it; blanks around a word and the size of its letters do not matter.
pub proof fn law_step_names_are_read_back(kind: ScenarioStepKind, value: Seq<char>)
    ensures
        all_ascii(kind.tool()),
        ScenarioStepKind::meant(kind.tool()) == Some(kind),
        ScenarioStepKind::meant(trimmed(value)) == ScenarioStepKind::meant(value),
        ScenarioStepKind::meant(ascii_lower(value)) == ScenarioStepKind::meant(value),
        ScenarioStepKind::named(lowercase(trimmed(trimmed(value)))) == ScenarioStepKind::named(
            lowercase(trimmed(value)),
        ),
        ScenarioStepKind::meant("grep"@) == Some(ScenarioStepKind::Search),
        ScenarioStepKind::meant("grep_files"@) == Some(ScenarioStepKind::Search),
        ScenarioStepKind::meant("exec"@) == Some(ScenarioStepKind::ExecShell),
        ScenarioStepKind::meant("shell"@) == Some(ScenarioStepKind::ExecShell),
        ScenarioStepKind::meant("patch"@) == Some(ScenarioStepKind::ApplyPatch),
        ScenarioStepKind::meant(Seq::empty()) is None,
{
    reveal_strlit("list");
    reveal_strlit("list_dir");
    reveal_strlit("read");
    reveal_strlit("read_file");
    reveal_strlit("search");
    reveal_strlit("grep");
    reveal_strlit("grep_files");
    reveal_strlit("edit");
    reveal_strlit("edit_file");
    reveal_strlit("patch");
    reveal_strlit("apply_patch");
    reveal_strlit("shell");
    reveal_strlit("exec_shell");
    reveal_strlit("exec");
    lemma_trimmed_once(value);
    lemma_trimmed_lower(value);
    lemma_trimmed_lower(trimmed(value));
    assert(ascii_lower("list_dir"@) =~= "list_dir"@);
    assert(ascii_lower("read_file"@) =~= "read_file"@);
    assert(ascii_lower("search"@) =~= "search"@);
    assert(ascii_lower("edit_file"@) =~= "edit_file"@);
    assert(ascii_lower("apply_patch"@) =~= "apply_patch"@);
    assert(ascii_lower("exec_shell"@) =~= "exec_shell"@);
    assert(ascii_lower("grep"@) =~= "grep"@);
    assert(ascii_lower("grep_files"@) =~= "grep_files"@);
    assert(ascii_lower("exec"@) =~= "exec"@);
    assert(ascii_lower("shell"@) =~= "shell"@);
    assert(ascii_lower("patch"@) =~= "patch"@);
    assert(trimmed(Seq::empty()) =~= Seq::empty());
    assert(ascii_lower(Seq::empty()) =~= Seq::empty());
}

/// What is read of a text, be it ASCII or not, is read of its small letters too.
pub proof fn law_small_letters_are_read_alike(value: Seq<char>)
    ensures
        ({
            let small = lowercase(trimmed(value));
            ScenarioStepKind::named(small) is Some ==> all_ascii(small)
                && ScenarioStepKind::meant(small) == ScenarioStepKind::named(small)
        }),
{
    let small = lowercase(trimmed(value));
    reveal_strlit("list");
    reveal_strlit("list_dir");
    reveal_strlit("read");
    reveal_strlit("read_file");
    reveal_strlit("search");
    reveal_strlit("grep");
    reveal_strlit("grep_files");
    reveal_strlit("edit");
    reveal_strlit("edit_file");
    reveal_strlit("patch");
    reveal_strlit("apply_patch");
    reveal_strlit("shell");
    reveal_strlit("exec_shell");
    reveal_strlit("exec");
    if ScenarioStepKind::named(small) is Some {
        assert(trimmed(small) == small);
        assert(ascii_lower(small) =~= small);
    }
}

/// The longest time that is measured, in nanoseconds.
pub const MAX_DURATION_NANOS: u128 = 18_446_744_073_709_551_615_999_999_999;

/// What is measured of one tool. Times are in nanoseconds.
#[derive(Debug, Clone, Copy, PartialEq, Eq, Structural)]
pub struct ToolStats {
    pub invocations: usize,
    pub errors: usize,
    pub total_duration: u128,
}

/// Nothing was measured yet.
pub open spec fn no_stats() -> ToolStats {
    ToolStats { invocations: 0, errors: 0, total_duration: 0 }
}

impl Default for ToolStats {
    fn default() -> (r: Self)
        ensures
            r == no_stats(),
    {
        ToolStats { invocations: 0, errors: 0, total_duration: 0 }
    }
}

/// What is measured of a run. The tools stand in the order of the scenario.
#[derive(Debug)]
pub struct EvalMetrics {
    pub success: bool,
    pub tool_errors: usize,
    pub steps: usize,
    pub duration: u128,
    pub per_tool: Vec<(ScenarioStepKind, ToolStats)>,
}

/// What a step came to.
#[derive(Debug)]
pub struct EvalStep {
    pub kind: ScenarioStepKind,
    pub tool_name: &'static str,
    pub success: bool,
    pub duration: u128,
    pub error: Option<String>,
    pub output: Option<String>,
}

/// What a step came to, as contracts see it.
#[verifier::ext_equal]
pub struct StepView {
    pub kind: ScenarioStepKind,
    pub tool_name: Seq<char>,
    pub success: bool,
    pub duration: u128,
    pub error: Option<Seq<char>>,
    pub output: Option<Seq<char>>,
}

impl View for EvalStep {
    type V = StepView;

    open spec fn view(&self) -> StepView {
        StepView {
            kind: self.kind,
            tool_name: self.tool_name@,
            success: self.success,
            duration: self.duration,
            error: opt_text(self.error),
            output: opt_text(self.output),
        }
    }
}

/// The views of a list of steps.
pub open spec fn step_views(list: Seq<EvalStep>) -> Seq<StepView> {
    list.map_values(|s: EvalStep| s@)
}

/// The files of a workspace.
#[derive(Debug)]
pub struct WorkspaceSummary {
    pub root: String,
    pub file_count: usize,
    pub files: Vec<String>,
}

/// How a run is set up.
#[derive(Debug)]
pub struct EvalHarnessConfig {
    pub scenario_name: String,
    pub fail_step: Option<ScenarioStepKind>,
    pub shell_command: String,
    pub shell_expect_token: String,
    pub max_output_chars: usize,
    pub record_dir: Option<String>,
}

impl EvalHarnessConfig {
    /// The usual setup on a platform.
    pub fn for_platform(platform: EvalShellPlatform) -> (r: Self)
        ensures
            r.scenario_name@ == "offline-tool-loop"@,
            r.fail_step is None,
            r.shell_command@ == (match platform {
                EvalShellPlatform::Windows => "echo eval-harness"@,
                EvalShellPlatform::Unix => "printf eval-harness"@,
            }),
            r.shell_expect_token@ == "eval-harness"@,
            r.max_output_chars == 240,
            r.record_dir is None,
    {
        EvalHarnessConfig {
            scenario_name: "offline-tool-loop".to_owned(),
            fail_step: None,
            shell_command: match platform {
                EvalShellPlatform::Windows => "echo eval-harness".to_owned(),
                EvalShellPlatform::Unix => "printf eval-harness".to_owned(),
            },
            shell_expect_token: "eval-harness".to_owned(),
            max_output_chars: 240,
            record_dir: None,
        }
    }
}

impl Default for EvalHarnessConfig {
    fn default() -> (r: Self)
        ensures
            r.scenario_name@ == "offline-tool-loop"@,
            r.fail_step is None,
            r.shell_command@ == "printf eval-harness"@,
            r.shell_expect_token@ == "eval-harness"@,
            r.max_output_chars == 240,
            r.record_dir is None,
    {
        EvalHarnessConfig::for_platform(EvalShellPlatform::Unix)
    }
}

/// The files that a workspace starts with: their paths below its root, and what
/// they hold.
pub fn seed_files() -> (r: Vec<(&'static str, &'static str)>)
    ensures
        r@.len() == 3,
        r@[0].0@ == "README.md"@,
        r@[0].1@ == "# Eval Harness Workspace\n\nThis workspace is offline.\n"@,
        r@[1].0@ == "notes.txt"@,
        r@[1].1@ == "# Eval Harness\nstatus = \"draft\"\ntodo: offline metrics\n"@,
        r@[2].0@ == "src/lib.rs"@,
        r@[2].1@ == "pub fn add(a: i32, b: i32) -> i32 {\n    a + b\n}\n"@,
{
    vec![
        ("README.md", "# Eval Harness Workspace\n\nThis workspace is offline.\n"),
        ("notes.txt", "# Eval Harness\nstatus = \"draft\"\ntodo: offline metrics\n"),
        ("src/lib.rs", "pub fn add(a: i32, b: i32) -> i32 {\n    a + b\n}\n"),
    ]
}

/// What is done in a step.
#[derive(Debug)]
pub enum StepAction {
    ListDir { path: String },
    ReadFile { path: String },
    SearchFiles { root: String, pattern: &'static str },
    AppendLine { path: String, line: &'static str },
    ApplyPatch { root: String, patch: &'static str },
    ExecShell { root: String, command: String },
}

/// What is done in a step, as contracts see it.
#[verifier::ext_equal]
pub enum ActionView {
    ListDir { path: Seq<char> },
    ReadFile { path: Seq<char> },
    SearchFiles { root: Seq<char>, pattern: Seq<char> },
    AppendLine { path: Seq<char>, line: Seq<char> },
    ApplyPatch { root: Seq<char>, patch: Seq<char> },
    ExecShell { root: Seq<char>, command: Seq<char> },
}

impl View for StepAction {
    type V = ActionView;

    open spec fn view(&self) -> ActionView {
        match self {
            StepAction::ListDir { path } => ActionView::ListDir { path: path@ },
            StepAction::ReadFile { path } => ActionView::ReadFile { path: path@ },
            StepAction::SearchFiles { root, pattern } => ActionView::SearchFiles {
                root: root@,
                pattern: pattern@,
            },
            StepAction::AppendLine { path, line } => ActionView::AppendLine {
                path: path@,
                line: line@,
            },
            StepAction::ApplyPatch { root, patch } => ActionView::ApplyPatch {
                root: root@,
                patch: patch@,
            },
            StepAction::ExecShell { root, command } => ActionView::ExecShell {
                root: root@,
                command: command@,
            },
        }
    }
}

/// What is done in a step. A step that is to fail is given something that
/// cannot be done.
pub open spec fn action_for(
    kind: ScenarioStepKind,
    fail: bool,
    root: Seq<char>,
    command: Seq<char>,
) -> ActionView {
    match kind {
        ScenarioStepKind::List => ActionView::ListDir {
            path: if fail {
                below(root, "missing-dir"@)
            } else {
                root
            },
        },
        ScenarioStepKind::Read => ActionView::ReadFile {
            path: below(
                root,
                if fail {
                    "missing.txt"@
                } else {
                    "notes.txt"@
                },
            ),
        },
        ScenarioStepKind::Search => ActionView::SearchFiles {
            root: if fail {
                below(root, "missing-dir"@)
            } else {
                root
            },
            pattern: "offline"@,
        },
        ScenarioStepKind::Edit => ActionView::AppendLine {
            path: below(
                root,
                if fail {
                    "missing.txt"@
                } else {
                    "notes.txt"@
                },
            ),
            line: "edited = true"@,
        },
        ScenarioStepKind::ApplyPatch => ActionView::ApplyPatch {
            root,
            patch: if fail {
                "*** Begin Patch\n*** Update File: notes.txt\n@@\n-THIS LINE DOES NOT EXIST\n+broken\n*** End Patch\n"@
            } else {
                "*** Begin Patch\n*** Update File: notes.txt\n@@\n status = \"draft\"\n-todo: offline metrics\n+todo: offline metrics (patched)\n*** End Patch\n"@
            },
        },
        ScenarioStepKind::ExecShell => ActionView::ExecShell {
            root,
            command: if fail {
                "command_that_does_not_exist"@
            } else {
                command
            },
        },
    }
}

/// A run of the scenario.
#[derive(Debug)]
pub struct EvalHarness {
    pub config: EvalHarnessConfig,
}

impl EvalHarness {
    /// A run with a setup.
    pub fn new(config: EvalHarnessConfig) -> (r: Self)
        ensures
            r.config == config,
    {
        EvalHarness { config }
    }

    /// What is done in a step.
    pub fn action(&self, kind: ScenarioStepKind, root: &str) -> (r: StepAction)
        ensures
            r@ == action_for(
                kind,
                self.config.fail_step == Some(kind),
                root@,
                self.config.shell_command@,
            ),
    {
        let fail = match self.config.fail_step {
            Some(k) => k == kind,
            None => false,
        };
        match kind {
            ScenarioStepKind::List => StepAction::ListDir {
                path: if fail {
                    path_below(root, "missing-dir")
                } else {
                    root.to_owned()
                },
            },
            ScenarioStepKind::Read => StepAction::ReadFile {
                path: if fail {
                    path_below(root, "missing.txt")
                } else {
                    path_below(root, "notes.txt")
                },
            },
            ScenarioStepKind::Search => StepAction::SearchFiles {
                root: if fail {
                    path_below(root, "missing-dir")
                } else {
                    root.to_owned()
                },
                pattern: "offline",
            },
            ScenarioStepKind::Edit => StepAction::AppendLine {
                path: if fail {
                    path_below(root, "missing.txt")
                } else {
                    path_below(root, "notes.txt")
                },
                line: "edited = true",
            },
            ScenarioStepKind::ApplyPatch => StepAction::ApplyPatch {
                root: root.to_owned(),
                patch: if fail {
                    "*** Begin Patch\n*** Update File: notes.txt\n@@\n-THIS LINE DOES NOT EXIST\n+broken\n*** End Patch\n"
                } else {
                    "*** Begin Patch\n*** Update File: notes.txt\n@@\n status = \"draft\"\n-todo: offline metrics\n+todo: offline metrics (patched)\n*** End Patch\n"
                },
            },
            ScenarioStepKind::ExecShell => StepAction::ExecShell {
                root: root.to_owned(),
                command: if fail {
                    "command_that_does_not_exist".to_owned()
                } else {
                    self.config.shell_command.clone()
                },
            },
        }
    }
}

impl Default for EvalHarness {
    fn default() -> (r: Self)
        ensures
            r.config.scenario_name@ == "offline-tool-loop"@,
            r.config.fail_step is None,
            r.config.shell_command@ == "printf eval-harness"@,
            r.config.shell_expect_token@ == "eval-harness"@,
            r.config.max_output_chars == 240,
            r.config.record_dir is None,
    {
        EvalHarness::new(EvalHarnessConfig::default())
    }
}

/// An output cut to a number of characters, with dots where it was cut.
pub open spec fn cut_output(value: Seq<char>, max: nat) -> Seq<char> {
    if value.len() <= max {
        value
    } else {
        value.take(max as int) + "..."@
    }
}

/// An output cut to a number of characters.
pub fn truncate_output(value: &str, max_chars: usize) -> (r: String)
    ensures
        r@ == cut_output(value@, max_chars as nat),
{
    let c = chars_of(value);
    if c.len() <= max_chars {
        return value.to_owned();
    }
    let mut out = text_of(&c, 0, max_chars);
    proof {
        assert(out@ =~= value@.take(max_chars as int));
    }
    out.append("...");
    out
}

/// What is noted of a step, for a later replay.
#[derive(Debug)]
pub struct FixtureRecord {
    pub request: Json,
    pub response_events: Vec<Json>,
}

/// The request of a step.
pub open spec fn fixture_request(kind: ScenarioStepKind) -> JsonView {
    JsonView::Object(
        seq![("kind"@, JsonView::Str(kind.word())), ("step"@, JsonView::Str(kind.tool()))],
    )
}

impl FixtureRecord {
    /// The note of a step that succeeded.
    pub fn ok(kind: ScenarioStepKind, output: &str) -> (r: Self)
        ensures
            r.request@ == fixture_request(kind),
            r.response_events@.len() == 1,
            r.response_events@[0]@ == JsonView::Object(
                seq![("output"@, JsonView::Str(output@)), ("type"@, JsonView::Str("ok"@))],
            ),
    {
        let event = object2("output", text_value(output), "type", text_value("ok"));
        FixtureRecord {
            request: object2(
                "kind",
                text_value(kind.name()),
                "step",
                text_value(kind.tool_name()),
            ),
            response_events: vec![event],
        }
    }

    /// The note of a step that failed.
    pub fn err(kind: ScenarioStepKind, error: &str) -> (r: Self)
        ensures
            r.request@ == fixture_request(kind),
            r.response_events@.len() == 1,
            r.response_events@[0]@ == JsonView::Object(
                seq![("error"@, JsonView::Str(error@)), ("type"@, JsonView::Str("error"@))],
            ),
    {
        let event = object2("error", text_value(error), "type", text_value("error"));
        FixtureRecord {
            request: object2(
                "kind",
                text_value(kind.name()),
                "step",
                text_value(kind.tool_name()),
            ),
            response_events: vec![event],
        }
    }

    /// The line of a file that holds the note.
    pub fn line(&self) -> (r: String)
        ensures
            r@ == json_text(
                JsonView::Object(
                    seq![
                        ("request"@, self.request@),
                        (
                            "response_events"@,
                            JsonView::Array(crate::json::json_views(self.response_events@)),
                        ),
                    ],
                ),
            ),
    {
        let events = crate::json::copy_items(&self.response_events);
        let record = object2(
            "request",
            self.request.clone(),
            "response_events",
            Json::Array(events),
        );
        render_json(&record)
    }
}

/// A character that stands in the name of a file as it is.
pub open spec fn is_plain(c: char) -> bool {
    ('a' <= c <= 'z') || ('A' <= c <= 'Z') || ('0' <= c <= '9') || c == '-' || c == '_'
}

/// The name of the file for a scenario.
pub open spec fn fixture_name(scenario_name: Seq<char>) -> Seq<char> {
    scenario_name.map_values(
        |c: char|
            if is_plain(c) {
                c
            } else {
                '_'
            },
    ) + ".jsonl"@
}

/// The name of the file for a scenario: letters, digits, dashes and underscores
/// stay, and everything else becomes an underscore.
pub fn fixture_file_name(scenario_name: &str) -> (r: String)
    ensures
        r@ == fixture_name(scenario_name@),
{
    let c = chars_of(scenario_name);
    let ghost safe = |c: char|
        if is_plain(c) {
            c
        } else {
            '_'
        };
    let mut out = String::new();
    let mut i: usize = 0;
    while i < c.len()
        invariant
            i <= c@.len(),
            c@ == scenario_name@,
            safe == (|c: char|
                if is_plain(c) {
                    c
                } else {
                    '_'
                }),
            out@ == c@.take(i as int).map_values(safe),
        decreases c@.len() - i,
    {
        let ch = c[i];
        let plain = (ch >= 'a' && ch <= 'z') || (ch >= 'A' && ch <= 'Z') || (ch >= '0' && ch
            <= '9') || ch == '-' || ch == '_';
        out.push(
            if plain {
                ch
            } else {
                '_'
            },
        );
        proof {
            assert(c@.take(i + 1).map_values(safe) =~= c@.take(i as int).map_values(safe).push(
                safe(c@[i as int]),
            ));
        }
        i += 1;
    }
    proof {
        assert(c@.take(c@.len() as int) =~= c@);
    }
    out.append(".jsonl");
    out
}

// ---------------------------------------------------------------------------
// Running the scenario
// ---------------------------------------------------------------------------

/// What is measured of a tool so far.
pub open spec fn stats_of(
    list: Seq<(ScenarioStepKind, ToolStats)>,
    kind: ScenarioStepKind,
    from: int,
) -> ToolStats
    decreases list.len() - from,
{
    if from < 0 || from >= list.len() {
        no_stats()
    } else if list[from].0 == kind {
        list[from].1
    } else {
        stats_of(list, kind, from + 1)
    }
}

/// The measures of the tools after those of one were set.
pub open spec fn with_stats(
    list: Seq<(ScenarioStepKind, ToolStats)>,
    kind: ScenarioStepKind,
    stats: ToolStats,
    from: int,
) -> Seq<(ScenarioStepKind, ToolStats)>
    decreases list.len() - from,
{
    if from < 0 || from >= list.len() {
        list.push((kind, stats))
    } else if list[from].0 == kind {
        list.update(from, (kind, stats))
    } else if kind.place() < list[from].0.place() {
        list.insert(from, (kind, stats))
    } else {
        with_stats(list, kind, stats, from + 1)
    }
}

/// The measures of a tool after one more step.
pub open spec fn one_more(stats: ToolStats, duration: u128, failed: bool) -> ToolStats {
    ToolStats {
        invocations: (stats.invocations + 1) as usize,
        errors: if failed {
            (stats.errors + 1) as usize
        } else {
            stats.errors
        },
        total_duration: (stats.total_duration + duration) as u128,
    }
}

/// What is noted of a step.
pub open spec fn step_noted(
    kind: ScenarioStepKind,
    duration: u128,
    result: Result<Seq<char>, Seq<char>>,
    max_output: nat,
) -> StepView {
    match result {
        Ok(value) => StepView {
            kind,
            tool_name: kind.tool(),
            success: true,
            duration,
            error: None,
            output: Some(cut_output(value, max_output)),
        },
        Err(error) => StepView {
            kind,
            tool_name: kind.tool(),
            success: false,
            duration,
            error: Some(error),
            output: None,
        },
    }
}

/// The view of what a step came to.
pub open spec fn result_view(r: Result<String, String>) -> Result<Seq<char>, Seq<char>> {
    match r {
        Ok(v) => Ok(v@),
        Err(e) => Err(e@),
    }
}

/// How far a run has come.
#[derive(Debug)]
pub struct EvalProgress {
    steps: Vec<EvalStep>,
    per_tool: Vec<(ScenarioStepKind, ToolStats)>,
    values: Vec<Option<String>>,
}

/// How far a run has come, as contracts see it: the steps that were noted, what
/// was measured of the tools, and what the steps gave in full.
#[verifier::ext_equal]
pub struct ProgressView {
    pub steps: Seq<StepView>,
    pub per_tool: Seq<(ScenarioStepKind, ToolStats)>,
    pub values: Seq<Option<Seq<char>>>,
}

/// The views of optional texts.
pub open spec fn value_views(list: Seq<Option<String>>) -> Seq<Option<Seq<char>>> {
    list.map_values(|v: Option<String>| opt_text(v))
}

impl View for EvalProgress {
    type V = ProgressView;

    closed spec fn view(&self) -> ProgressView {
        ProgressView {
            steps: step_views(self.steps@),
            per_tool: self.per_tool@,
            values: value_views(self.values@),
        }
    }
}

/// The steps so far are the first of the scenario, in its order, and each gave a
/// value exactly when it succeeded.
pub open spec fn follows_scenario(p: ProgressView) -> bool {
    &&& p.steps.len() <= 6
    &&& p.values.len() == p.steps.len()
    &&& forall|i: int|
        0 <= i < p.steps.len() ==> (#[trigger] p.steps[i]).kind == scenario()[i]
            && p.steps[i].success == (p.values[i] is Some)
}

/// One more step of a tool can be counted, and its time added up.
pub open spec fn can_measure(
    list: Seq<(ScenarioStepKind, ToolStats)>,
    kind: ScenarioStepKind,
    duration: u128,
) -> bool {
    let stats = stats_of(list, kind, 0);
    stats.invocations < usize::MAX && stats.errors < usize::MAX && stats.total_duration + duration
        <= MAX_DURATION_NANOS
}

impl EvalProgress {
    /// Nothing was run yet.
    pub fn new() -> (r: Self)
        ensures
            r@ == (ProgressView {
                steps: Seq::empty(),
                per_tool: Seq::empty(),
                values: Seq::empty(),
            }),
            follows_scenario(r@),
    {
        let r = EvalProgress { steps: Vec::new(), per_tool: Vec::new(), values: Vec::new() };
        proof {
            assert(r@.steps =~= Seq::empty());
            assert(r@.values =~= Seq::empty());
        }
        r
    }

    /// The step that is to be run next.
    pub fn next(&self) -> (r: Option<ScenarioStepKind>)
        ensures
            r == (if self@.steps.len() < 6 {
                Some(scenario()[self@.steps.len() as int])
            } else {
                None
            }),
    {
        let n: usize = self.steps.len();
        assert(self@.steps.len() == n);
        if n == 0 {
            Some(ScenarioStepKind::List)
        } else if n == 1 {
            Some(ScenarioStepKind::Read)
        } else if n == 2 {
            Some(ScenarioStepKind::Search)
        } else if n == 3 {
            Some(ScenarioStepKind::Edit)
        } else if n == 4 {
            Some(ScenarioStepKind::ApplyPatch)
        } else if n == 5 {
            Some(ScenarioStepKind::ExecShell)
        } else {
            None
        }
    }
}

fn find_stats(list: &Vec<(ScenarioStepKind, ToolStats)>, kind: ScenarioStepKind) -> (r: ToolStats)
    ensures
        r == stats_of(list@, kind, 0),
{
    let mut i: usize = 0;
    while i < list.len()
        invariant
            i <= list@.len(),
            stats_of(list@, kind, 0) == stats_of(list@, kind, i as int),
        decreases list@.len() - i,
    {
        if list[i].0 == kind {
            return list[i].1;
        }
        i += 1;
    }
    ToolStats::default()
}

fn set_stats(
    list: &mut Vec<(ScenarioStepKind, ToolStats)>,
    kind: ScenarioStepKind,
    stats: ToolStats,
)
    ensures
        final(list)@ == with_stats(old(list)@, kind, stats, 0),
{
    let mut i: usize = 0;
    while i < list.len()
        invariant
            i <= list@.len(),
            list@ == old(list)@,
            with_stats(old(list)@, kind, stats, 0) == with_stats(
                old(list)@,
                kind,
                stats,
                i as int,
            ),
        decreases list@.len() - i,
    {
        if list[i].0 == kind {
            list.set(i, (kind, stats));
            return;
        }
        if kind.order() < list[i].0.order() {
            list.insert(i, (kind, stats));
            return;
        }
        i += 1;
    }
    list.push((kind, stats));
}

impl EvalHarness {
    /// Notes what the next step of the scenario came to and how long it took,
    /// and gives the record of it where a run is recorded.
    pub fn run_step(
        &self,
        progress: &mut EvalProgress,
        kind: ScenarioStepKind,
        duration: u128,
        result: Result<String, String>,
    ) -> (r: Option<FixtureRecord>)
        requires
            can_measure(old(progress)@.per_tool, kind, duration),
        ensures
            final(progress)@.steps == old(progress)@.steps.push(
                step_noted(
                    kind,
                    duration,
                    result_view(result),
                    self.config.max_output_chars as nat,
                ),
            ),
            final(progress)@.per_tool == with_stats(
                old(progress)@.per_tool,
                kind,
                one_more(stats_of(old(progress)@.per_tool, kind, 0), duration, result is Err),
                0,
            ),
            final(progress)@.values == old(progress)@.values.push(
                match result_view(result) {
                    Ok(v) => Some(v),
                    Err(_) => None,
                },
            ),
            self.config.record_dir is None <==> r is None,
            r matches Some(record) ==> record.request@ == fixture_request(kind)
                && record.response_events@.len() == 1 && record.response_events@[0]@ == (
            match result_view(result) {
                Ok(v) => JsonView::Object(
                    seq![
                        (
                            "output"@,
                            JsonView::Str(cut_output(v, self.config.max_output_chars as nat)),
                        ),
                        ("type"@, JsonView::Str("ok"@)),
                    ],
                ),
                Err(e) => JsonView::Object(
                    seq![("error"@, JsonView::Str(e)), ("type"@, JsonView::Str("error"@))],
                ),
            }),
    {
        let ghost before = progress@;
        let stats = find_stats(&progress.per_tool, kind);
        let mut invocations: usize = stats.invocations + 1;
        let mut errors: usize = stats.errors;
        let total_duration: u128 = stats.total_duration + duration;
        let recorded = self.config.record_dir.is_some();
        let record;
        match result {
            Ok(value) => {
                let output = truncate_output(value.as_str(), self.config.max_output_chars);
                record = if recorded {
                    Some(FixtureRecord::ok(kind, output.as_str()))
                } else {
                    None
                };
                progress.steps.push(
                    EvalStep {
                        kind,
                        tool_name: kind.tool_name(),
                        success: true,
                        duration,
                        error: None,
                        output: Some(output),
                    },
                );
                progress.values.push(Some(value));
            },
            Err(error) => {
                errors = errors + 1;
                record = if recorded {
                    Some(FixtureRecord::err(kind, error.as_str()))
                } else {
                    None
                };
                progress.steps.push(
                    EvalStep {
                        kind,
                        tool_name: kind.tool_name(),
                        success: false,
                        duration,
                        error: Some(error),
                        output: None,
                    },
                );
                progress.values.push(None);
            },
        }
        set_stats(
            &mut progress.per_tool,
            kind,
            ToolStats { invocations, errors, total_duration },
        );
        proof {
            let noted = step_noted(
                kind,
                duration,
                result_view(result),
                self.config.max_output_chars as nat,
            );
            assert(progress@.steps =~= before.steps.push(noted));
            assert(progress@.values =~= before.values.push(
                match result_view(result) {
                    Ok(v) => Some(v),
                    Err(_) => None,
                },
            ));
        }
        record
    }
}

/// Noting the next step of the scenario keeps a run on it.
pub proof fn law_runs_follow_the_scenario(
    p: ProgressView,
    q: ProgressView,
    duration: u128,
    result: Result<Seq<char>, Seq<char>>,
    max_output: nat,
)
    requires
        follows_scenario(p),
        p.steps.len() < 6,
        q.steps == p.steps.push(
            step_noted(scenario()[p.steps.len() as int], duration, result, max_output),
        ),
        q.values == p.values.push(
            match result {
                Ok(v) => Some(v),
                Err(_) => None,
            },
        ),
    ensures
        follows_scenario(q),
{
    assert forall|i: int| 0 <= i < q.steps.len() implies (#[trigger] q.steps[i]).kind
        == scenario()[i] && q.steps[i].success == (q.values[i] is Some) by {
        if i < p.steps.len() {
            assert(q.steps[i] == p.steps[i]);
            assert(q.values[i] == p.values[i]);
        }
    }
}

/// How many of the first `n` steps failed.
pub open spec fn failures(steps: Seq<StepView>, n: nat) -> nat
    decreases n,
{
    if n == 0 {
        0
    } else {
        failures(steps, (n - 1) as nat) + if steps[n - 1].success {
            0nat
        } else {
            1nat
        }
    }
}

/// The workspace is as the scenario leaves it, and the outputs are as expected.
pub open spec fn outputs_valid(
    notes: Option<Seq<char>>,
    token: Seq<char>,
    search: Option<Seq<char>>,
    edit: Option<Seq<char>>,
    patch: Option<Seq<char>>,
    shell: Option<Seq<char>>,
) -> bool {
    match notes {
        None => false,
        Some(n) => {
            &&& search matches Some(s) && contains_text(s, "matches="@)
            &&& edit matches Some(e) && e.len() > 0 && contains_text(n, "edited = true"@)
            &&& patch matches Some(p) && p.len() > 0 && contains_text(
                n,
                "todo: offline metrics (patched)"@,
            )
            &&& shell matches Some(t) && contains_text(trimmed(t), token)
        },
    }
}

/// Whether the workspace is as the scenario leaves it and the outputs are as
/// expected. `notes` is what the notes hold, where they can be read.
pub fn validate_outputs(
    notes: Option<&str>,
    shell_expect_token: &str,
    search_output: Option<&str>,
    edit_output: Option<&str>,
    patch_output: Option<&str>,
    shell_output: Option<&str>,
) -> (r: bool)
    ensures
        r == outputs_valid(
            opt_str(notes),
            shell_expect_token@,
            opt_str(search_output),
            opt_str(edit_output),
            opt_str(patch_output),
            opt_str(shell_output),
        ),
{
    let notes = match notes {
        Some(n) => n,
        None => return false,
    };
    let search_ok = match search_output {
        Some(s) => contains(s, "matches="),
        None => false,
    };
    let edit_ok = match edit_output {
        Some(s) => !s.is_empty() && contains(notes, "edited = true"),
        None => false,
    };
    let patch_ok = match patch_output {
        Some(s) => !s.is_empty() && contains(notes, "todo: offline metrics (patched)"),
        None => false,
    };
    let shell_ok = match shell_output {
        Some(s) => {
            let bare = trim(s);
            contains(bare.as_str(), shell_expect_token)
        },
        None => false,
    };
    search_ok && edit_ok && patch_ok && shell_ok
}

/// The files of a workspace in order. That none was found although the listing
/// showed something is refused with a reason.
pub fn summarize_workspace(root: &str, files: &Vec<String>, list_output: Option<&str>) -> (r:
    Result<WorkspaceSummary, String>)
    ensures
        match r {
            Ok(s) => {
                &&& files@.len() > 0 || list_output is None || trimmed(opt_str(
                    list_output,
                )->0).len() == 0
                &&& s.root@ == root@
                &&& s.file_count == files@.len()
                &&& texts(s.files@) == paths_in_order(texts(files@))
            },
            Err(e) => files@.len() == 0 && list_output is Some && trimmed(opt_str(
                list_output,
            )->0).len() > 0 && e@ == "workspace appears empty after list_dir: "@ + trimmed(
                opt_str(list_output)->0,
            ),
        },
{
    if files.len() == 0 {
        if let Some(output) = list_output {
            let bare = trim(output);
            if !bare.as_str().is_empty() {
                return Err(concat("workspace appears empty after list_dir: ", bare.as_str()));
            }
        }
    }
    Ok(
        WorkspaceSummary {
            root: root.to_owned(),
            file_count: files.len(),
            files: sort_paths(files),
        },
    )
}

/// A run that came to its end.
#[derive(Debug)]
pub struct EvalRun {
    pub scenario_name: String,
    pub workspace: String,
    pub workspace_summary: WorkspaceSummary,
    pub metrics: EvalMetrics,
    pub steps: Vec<EvalStep>,
}

/// A report about a run.
#[derive(Debug)]
pub struct EvalReport {
    pub scenario_name: String,
    pub workspace_root: String,
    pub workspace_summary: WorkspaceSummary,
    pub metrics: EvalMetrics,
    pub steps: Vec<EvalStep>,
}

fn opt_ref(v: &Option<String>) -> (r: Option<&str>)
    ensures
        opt_str(r) == opt_text(*v),
{
    match v {
        Some(s) => Some(s.as_str()),
        None => None,
    }
}

impl EvalHarness {
    /// Ends a run: sums the workspace up, and judges the run by its steps and by
    /// what the notes hold in the end. `files` are the files of the workspace.
    pub fn finish(
        &self,
        progress: EvalProgress,
        root: &str,
        duration: u128,
        files: &Vec<String>,
        notes: Option<&str>,
    ) -> (r: Result<EvalRun, String>)
        requires
            follows_scenario(progress@),
            progress@.steps.len() == 6,
        ensures
            ({
                let p = progress@;
                let listed = p.values[0];
                let refused = files@.len() == 0 && listed is Some && trimmed(listed->0).len() > 0;
                match r {
                    Err(e) => refused && e@ == "workspace appears empty after list_dir: "@
                        + trimmed(listed->0),
                    Ok(run) => {
                        &&& !refused
                        &&& run.scenario_name@ == self.config.scenario_name@
                        &&& run.workspace@ == root@
                        &&& run.workspace_summary.root@ == root@
                        &&& run.workspace_summary.file_count == files@.len()
                        &&& texts(run.workspace_summary.files@) == paths_in_order(texts(files@))
                        &&& step_views(run.steps@) == p.steps
                        &&& run.metrics.steps == 6
                        &&& run.metrics.duration == duration
                        &&& run.metrics.per_tool@ == p.per_tool
                        &&& run.metrics.tool_errors == failures(p.steps, 6)
                        &&& run.metrics.success == (failures(p.steps, 6) == 0 && outputs_valid(
                            opt_str(notes),
                            self.config.shell_expect_token@,
                            p.values[2],
                            p.values[3],
                            p.values[4],
                            p.values[5],
                        ))
                    },
                }
            }),
    {
        let ghost p = progress@;
        assert(p.values.len() == progress.values@.len());
        assert(p.steps.len() == progress.steps@.len());
        assert(p.values[0] == opt_text(progress.values@[0]));
        assert(p.values[2] == opt_text(progress.values@[2]));
        assert(p.values[3] == opt_text(progress.values@[3]));
        assert(p.values[4] == opt_text(progress.values@[4]));
        assert(p.values[5] == opt_text(progress.values@[5]));
        let workspace_summary = match summarize_workspace(
            root,
            files,
            opt_ref(&progress.values[0]),
        ) {
            Ok(s) => s,
            Err(e) => return Err(e),
        };
        let valid = validate_outputs(
            notes,
            self.config.shell_expect_token.as_str(),
            opt_ref(&progress.values[2]),
            opt_ref(&progress.values[3]),
            opt_ref(&progress.values[4]),
            opt_ref(&progress.values[5]),
        );
        let mut tool_errors: usize = 0;
        let mut i: usize = 0;
        while i < progress.steps.len()
            invariant
                i <= progress.steps@.len(),
                p.steps == step_views(progress.steps@),
                tool_errors == failures(p.steps, i as nat),
                tool_errors <= i,
            decreases progress.steps@.len() - i,
        {
            assert(p.steps[i as int] == progress.steps@[i as int]@);
            if !progress.steps[i].success {
                tool_errors += 1;
            }
            i += 1;
        }
        let metrics = EvalMetrics {
            success: tool_errors == 0 && valid,
            tool_errors,
            steps: progress.steps.len(),
            duration,
            per_tool: progress.per_tool,
        };
        Ok(
            EvalRun {
                scenario_name: self.config.scenario_name.clone(),
                workspace: root.to_owned(),
                workspace_summary,
                metrics,
                steps: progress.steps,
            },
        )
    }
}

fn copy_option(v: &Option<String>) -> (r: Option<String>)
    ensures
        opt_text(r) == opt_text(*v),
{
    match v {
        Some(s) => Some(s.clone()),
        None => None,
    }
}

fn copy_step(s: &EvalStep) -> (r: EvalStep)
    ensures
        r@ == s@,
{
    EvalStep {
        kind: s.kind,
        tool_name: s.tool_name,
        success: s.success,
        duration: s.duration,
        error: copy_option(&s.error),
        output: copy_option(&s.output),
    }
}

impl EvalRun {
    /// The root of the workspace.
    pub fn workspace_root(&self) -> (r: &str)
        ensures
            r@ == self.workspace@,
    {
        self.workspace.as_str()
    }

    /// The report about a run: everything that is known of it.
    pub fn to_report(&self) -> (r: EvalReport)
        ensures
            r.scenario_name@ == self.scenario_name@,
            r.workspace_root@ == self.workspace@,
            r.workspace_summary.root@ == self.workspace_summary.root@,
            r.workspace_summary.file_count == self.workspace_summary.file_count,
            texts(r.workspace_summary.files@) == texts(self.workspace_summary.files@),
            r.metrics.success == self.metrics.success,
            r.metrics.tool_errors == self.metrics.tool_errors,
            r.metrics.steps == self.metrics.steps,
            r.metrics.duration == self.metrics.duration,
            r.metrics.per_tool@ == self.metrics.per_tool@,
            step_views(r.steps@) == step_views(self.steps@),
    {
        let mut per_tool: Vec<(ScenarioStepKind, ToolStats)> = Vec::new();
        let mut i: usize = 0;
        while i < self.metrics.per_tool.len()
            invariant
                i <= self.metrics.per_tool@.len(),
                per_tool@ == self.metrics.per_tool@.take(i as int),
            decreases self.metrics.per_tool@.len() - i,
        {
            let (kind, stats) = self.metrics.per_tool[i];
            per_tool.push((kind, stats));
            i += 1;
        }
        let mut steps: Vec<EvalStep> = Vec::new();
        let ghost all = step_views(self.steps@);
        let mut k: usize = 0;
        proof {
            assert(step_views(steps@) =~= all.take(0));
        }
        while k < self.steps.len()
            invariant
                k <= self.steps@.len(),
                all == step_views(self.steps@),
                step_views(steps@) == all.take(k as int),
            decreases self.steps@.len() - k,
        {
            let ghost before = step_views(steps@);
            steps.push(copy_step(&self.steps[k]));
            proof {
                assert(step_views(steps@) =~= before.push(self.steps@[k as int]@));
                assert(before.push(all[k as int]) =~= all.take(k + 1));
            }
            k += 1;
        }
        proof {
            assert(all.take(all.len() as int) =~= all);
        }
        EvalReport {
            scenario_name: self.scenario_name.clone(),
            workspace_root: self.workspace.clone(),
            workspace_summary: WorkspaceSummary {
                root: self.workspace_summary.root.clone(),
                file_count: self.workspace_summary.file_count,
                files: copy_texts(&self.workspace_summary.files),
            },
            metrics: EvalMetrics {
                success: self.metrics.success,
                tool_errors: self.metrics.tool_errors,
                steps: self.metrics.steps,
                duration: self.metrics.duration,
                per_tool,
            },
            steps,
        }
    }
}

/// A run in which a step failed is no success, whatever the workspace holds.
pub proof fn law_failed_steps_fail_the_run(steps: Seq<StepView>, n: nat, i: int)
    requires
        0 <= i < n <= steps.len(),
        !steps[i].success,
    ensures
        failures(steps, n) > 0,
    decreases n,
{
    if i < n - 1 {
        law_failed_steps_fail_the_run(steps, (n - 1) as nat, i);
    }
}

// ---------------------------------------------------------------------------
// What the steps do to files
// ---------------------------------------------------------------------------

/// A text with one more line at its end.
pub open spec fn with_line(content: Seq<char>, line: Seq<char>) -> Seq<char> {
    (if finishes_with(content, "\n"@) {
        content
    } else {
        content + "\n"@
    }) + line + "\n"@
}

/// A text with one more line at its end.
pub fn append_line(content: &str, line: &str) -> (r: String)
    ensures
        r@ == with_line(content@, line@),
{
    let mut out = content.to_owned();
    if !ends_with(content, "\n") {
        out.append("\n");
    }
    out.append(line);
    out.append("\n");
    out
}

/// A line that a search found.
#[derive(Debug)]
pub struct SearchMatch {
    pub path: String,
    pub line: usize,
    pub content: String,
}

/// A line that a search found, as contracts see it.
#[verifier::ext_equal]
pub struct MatchView {
    pub path: Seq<char>,
    pub line: nat,
    pub content: Seq<char>,
}

impl View for SearchMatch {
    type V = MatchView;

    open spec fn view(&self) -> MatchView {
        MatchView { path: self.path@, line: self.line as nat, content: self.content@ }
    }
}

/// The views of a list of matches.
pub open spec fn match_views(list: Seq<SearchMatch>) -> Seq<MatchView> {
    list.map_values(|m: SearchMatch| m@)
}

/// The lines that a search found.
#[derive(Debug)]
pub struct SearchResult {
    pub matches: Vec<SearchMatch>,
}

/// The most lines that a search gives.
pub const MAX_SEARCH_MATCHES: usize = 64;

/// The first `n` lines of a file that match, numbered from one.
pub open spec fn matching_lines(
    path: Seq<char>,
    lines: Seq<Seq<char>>,
    hits: Seq<bool>,
    n: nat,
) -> Seq<MatchView>
    decreases n,
{
    if n == 0 {
        Seq::empty()
    } else {
        let before = matching_lines(path, lines, hits, (n - 1) as nat);
        if hits[n - 1] {
            before.push(MatchView { path, line: n, content: lines[n - 1] })
        } else {
            before
        }
    }
}

/// No more than the first matches up to the limit.
pub open spec fn capped(list: Seq<MatchView>) -> Seq<MatchView> {
    if list.len() > MAX_SEARCH_MATCHES {
        list.take(MAX_SEARCH_MATCHES as int)
    } else {
        list
    }
}

/// The lines of a file that match a pattern.
pub open spec fn hits_of(pattern: Seq<char>, lines: Seq<Seq<char>>) -> Seq<bool> {
    lines.map_values(|line: Seq<char>| regex_matches(pattern, line))
}

proof fn lemma_matching_grows(
    path: Seq<char>,
    lines: Seq<Seq<char>>,
    hits: Seq<bool>,
    i: nat,
    n: nat,
)
    requires
        i <= n,
    ensures
        matching_lines(path, lines, hits, i).len() <= matching_lines(path, lines, hits, n).len(),
        matching_lines(path, lines, hits, n).take(
            matching_lines(path, lines, hits, i).len() as int,
        ) == matching_lines(path, lines, hits, i),
    decreases n - i,
{
    let a = matching_lines(path, lines, hits, i);
    if i < n {
        lemma_matching_grows(path, lines, hits, i, (n - 1) as nat);
        let b = matching_lines(path, lines, hits, (n - 1) as nat);
        let c = matching_lines(path, lines, hits, n);
        assert(c.take(a.len() as int) =~= b.take(a.len() as int));
    } else {
        assert(a.take(a.len() as int) =~= a);
    }
}

/// Adds the lines of a file that match, given which do, up to the limit.
pub fn add_matches(
    found: &mut Vec<SearchMatch>,
    path: &str,
    lines: &Vec<String>,
    hits: &Vec<bool>,
)
    requires
        old(found)@.len() < MAX_SEARCH_MATCHES,
        hits@.len() == lines@.len(),
    ensures
        match_views(final(found)@) == capped(
            match_views(old(found)@) + matching_lines(
                path@,
                texts(lines@),
                hits@,
                lines@.len(),
            ),
        ),
{
    let ghost start = match_views(found@);
    let ghost all = texts(lines@);
    let ghost whole = matching_lines(path@, all, hits@, lines@.len());
    let mut i: usize = 0;
    proof {
        assert(start + matching_lines(path@, all, hits@, 0) =~= start);
    }
    while i < lines.len()
        invariant
            i <= lines@.len(),
            hits@.len() == lines@.len(),
            all == texts(lines@),
            found@.len() < MAX_SEARCH_MATCHES,
            start == match_views(old(found)@),
            whole == matching_lines(path@, all, hits@, lines@.len()),
            match_views(found@) == start + matching_lines(path@, all, hits@, i as nat),
        decreases lines@.len() - i,
    {
        assert(all[i as int] == lines@[i as int]@);
        let ghost before = match_views(found@);
        if hits[i] {
            assert(i + 1 <= lines.len());
            found.push(
                SearchMatch { path: path.to_owned(), line: i + 1, content: lines[i].clone() },
            );
            proof {
                assert(match_views(found@) =~= before.push(
                    MatchView { path: path@, line: (i + 1) as nat, content: all[i as int] },
                ));
                assert(match_views(found@) =~= start + matching_lines(
                    path@,
                    all,
                    hits@,
                    (i + 1) as nat,
                ));
            }
        }
        if found.len() >= MAX_SEARCH_MATCHES {
            proof {
                lemma_matching_grows(path@, all, hits@, (i + 1) as nat, lines@.len());
                assert(match_views(found@) == start + matching_lines(
                    path@,
                    all,
                    hits@,
                    (i + 1) as nat,
                ));
                let part = matching_lines(path@, all, hits@, (i + 1) as nat);
                assert(match_views(found@).len() == found@.len());
                assert((start + whole).take(MAX_SEARCH_MATCHES as int) =~= start + whole.take(
                    part.len() as int,
                ));
                assert(capped(start + whole) =~= match_views(found@));
            }
            return;
        }
        i += 1;
    }
    proof {
        assert(match_views(found@).len() == found@.len());
    }
}

/// A file to be searched, with what it holds.
#[derive(Debug)]
pub struct SearchedFile {
    pub path: String,
    pub content: String,
}

/// The lines that match in the first `n` files, all of them.
pub open spec fn all_matches(pattern: Seq<char>, files: Seq<SearchedFile>, n: nat) -> Seq<MatchView>
    decreases n,
{
    if n == 0 {
        Seq::empty()
    } else {
        let lines = lines_of(files[n - 1].content@);
        all_matches(pattern, files, (n - 1) as nat) + matching_lines(
            files[n - 1].path@,
            lines,
            hits_of(pattern, lines),
            lines.len(),
        )
    }
}

proof fn lemma_all_grow(pattern: Seq<char>, files: Seq<SearchedFile>, i: nat, n: nat)
    requires
        i <= n,
    ensures
        all_matches(pattern, files, i).len() <= all_matches(pattern, files, n).len(),
        all_matches(pattern, files, n).take(all_matches(pattern, files, i).len() as int)
            == all_matches(pattern, files, i),
    decreases n - i,
{
    let a = all_matches(pattern, files, i);
    if i < n {
        lemma_all_grow(pattern, files, i, (n - 1) as nat);
        let b = all_matches(pattern, files, (n - 1) as nat);
        let c = all_matches(pattern, files, n);
        assert(c.take(a.len() as int) =~= b.take(a.len() as int));
    } else {
        assert(a.take(a.len() as int) =~= a);
    }
}

/// Searches files for the lines that match a pattern, up to a limit. A pattern
/// that is no regular expression is refused. `files` are those that could be
/// read, in the order in which they were found.
pub fn search_files(pattern: &str, files: &Vec<SearchedFile>) -> (r: Result<SearchResult, String>)
    ensures
        match r {
            Ok(s) => regex_refusal(pattern@) is None && match_views(s.matches@) == capped(
                all_matches(pattern@, files@, files@.len()),
            ),
            Err(e) => regex_refusal(pattern@) is Some && e@ == "failed to compile search regex"@,
        },
{
    let none: Vec<String> = Vec::new();
    if let Err(_) = match_each(pattern, &none) {
        return Err("failed to compile search regex".to_owned());
    }
    let ghost whole = all_matches(pattern@, files@, files@.len());
    let mut found: Vec<SearchMatch> = Vec::new();
    let mut i: usize = 0;
    proof {
        assert(match_views(found@) =~= Seq::empty());
    }
    while i < files.len()
        invariant
            i <= files@.len(),
            regex_refusal(pattern@) is None,
            found@.len() < MAX_SEARCH_MATCHES,
            whole == all_matches(pattern@, files@, files@.len()),
            match_views(found@) == all_matches(pattern@, files@, i as nat),
        decreases files@.len() - i,
    {
        let lines = split_lines(files[i].content.as_str());
        let ghost all = texts(lines@);
        let hits = match match_each(pattern, &lines) {
            Ok(h) => h,
            Err(_) => return Err("failed to compile search regex".to_owned()),
        };
        proof {
            assert forall|k: int| 0 <= k < hits@.len() implies #[trigger] hits@[k] == hits_of(
                pattern@,
                all,
            )[k] by {
                assert(all[k] == lines@[k]@);
            }
            assert(hits@ =~= hits_of(pattern@, all));
            assert(all.len() == lines@.len());
        }
        add_matches(&mut found, files[i].path.as_str(), &lines, &hits);
        let ghost sofar = all_matches(pattern@, files@, (i + 1) as nat);
        assert(match_views(found@) == capped(sofar));
        assert(match_views(found@).len() == found@.len());
        if found.len() >= MAX_SEARCH_MATCHES {
            proof {
                lemma_all_grow(pattern@, files@, (i + 1) as nat, files@.len());
                assert(whole.take(MAX_SEARCH_MATCHES as int) =~= whole.take(
                    sofar.len() as int,
                ).take(MAX_SEARCH_MATCHES as int));
                assert(sofar.take(sofar.len() as int) =~= sofar);
                assert(match_views(found@) =~= capped(whole));
            }
            return Ok(SearchResult { matches: found });
        }
        i += 1;
    }
    proof {
        assert(match_views(found@).len() == found@.len());
    }
    Ok(SearchResult { matches: found })
}

/// The text of a search that succeeded.
pub fn search_output(result: &SearchResult) -> (r: String)
    ensures
        r@ == "matches="@ + decimal(result.matches@.len()),
{
    let mut out = "matches=".to_owned();
    push_usize(&mut out, result.matches.len());
    out
}

/// Why a patch is refused.
#[derive(Debug)]
pub enum PatchError {
    /// The first line does not begin a patch.
    MissingBegin,
    /// The second line names no file to be changed.
    NotAnUpdate,
    /// The path leads upwards.
    OutsideWorkspace,
    /// A line in stars that is not expected here.
    Directive(String),
    /// A line that was to stay was not found.
    ContextNotFound(String),
    /// A line that was to go does not stand there.
    RemovalMismatch(String),
    /// A line of no known kind.
    Unsupported(String),
}

/// Why a patch is refused, as contracts see it.
#[verifier::ext_equal]
pub enum PatchErrorView {
    MissingBegin,
    NotAnUpdate,
    OutsideWorkspace,
    Directive(Seq<char>),
    ContextNotFound(Seq<char>),
    RemovalMismatch(Seq<char>),
    Unsupported(Seq<char>),
}

impl View for PatchError {
    type V = PatchErrorView;

    open spec fn view(&self) -> PatchErrorView {
        match self {
            PatchError::MissingBegin => PatchErrorView::MissingBegin,
            PatchError::NotAnUpdate => PatchErrorView::NotAnUpdate,
            PatchError::OutsideWorkspace => PatchErrorView::OutsideWorkspace,
            PatchError::Directive(s) => PatchErrorView::Directive(s@),
            PatchError::ContextNotFound(s) => PatchErrorView::ContextNotFound(s@),
            PatchError::RemovalMismatch(s) => PatchErrorView::RemovalMismatch(s@),
            PatchError::Unsupported(s) => PatchErrorView::Unsupported(s@),
        }
    }
}

impl PatchError {
    /// What the user is told, about the file with a path.
    pub fn message(&self, file_path: &str) -> (r: String)
        ensures
            r@ == (match self@ {
                PatchErrorView::MissingBegin => "patch missing *** Begin Patch header"@,
                PatchErrorView::NotAnUpdate => "only *** Update File patches are supported"@,
                PatchErrorView::OutsideWorkspace => "patch path must be workspace-relative"@,
                PatchErrorView::Directive(s) => "unexpected patch directive: "@ + s,
                PatchErrorView::ContextNotFound(s) => "patch context not found in "@ + file_path@
                    + ": "@ + s,
                PatchErrorView::RemovalMismatch(s) => "patch removal mismatch in "@ + file_path@
                    + ": expected '"@ + s + "'"@,
                PatchErrorView::Unsupported(s) => "unsupported patch line: "@ + s,
            }),
    {
        match self {
            PatchError::MissingBegin => "patch missing *** Begin Patch header".to_owned(),
            PatchError::NotAnUpdate => "only *** Update File patches are supported".to_owned(),
            PatchError::OutsideWorkspace => "patch path must be workspace-relative".to_owned(),
            PatchError::Directive(s) => concat("unexpected patch directive: ", s.as_str()),
            PatchError::ContextNotFound(s) => {
                let mut out = concat("patch context not found in ", file_path);
                out.append(": ");
                out.append(s.as_str());
                out
            },
            PatchError::RemovalMismatch(s) => {
                let mut out = concat("patch removal mismatch in ", file_path);
                out.append(": expected '");
                out.append(s.as_str());
                out.append("'");
                out
            },
            PatchError::Unsupported(s) => concat("unsupported patch line: ", s.as_str()),
        }
    }
}

/// A line of a patch, or an empty one where there is none.
pub open spec fn line_or_empty(lines: Seq<Seq<char>>, i: int) -> Seq<char> {
    if 0 <= i < lines.len() {
        lines[i]
    } else {
        ""@
    }
}

/// The file that a patch changes, by its path below the workspace.
pub open spec fn target_of(patch: Seq<char>) -> Result<Seq<char>, PatchErrorView> {
    let lines = lines_of(patch);
    if line_or_empty(lines, 0) != "*** Begin Patch"@ {
        Err(PatchErrorView::MissingBegin)
    } else {
        match without_prefix(line_or_empty(lines, 1), "*** Update File: "@) {
            None => Err(PatchErrorView::NotAnUpdate),
            Some(path) => if contains_text(path, ".."@) {
                Err(PatchErrorView::OutsideWorkspace)
            } else {
                Ok(path)
            },
        }
    }
}

fn line_at(lines: &Vec<String>, i: usize) -> (r: &str)
    ensures
        r@ == line_or_empty(texts(lines@), i as int),
{
    assert(texts(lines@).len() == lines@.len());
    if i < lines.len() {
        assert(texts(lines@)[i as int] == lines@[i as int]@);
        lines[i].as_str()
    } else {
        ""
    }
}

/// The file that a patch changes, by its path below the workspace.
pub fn patch_target(patch: &str) -> (r: Result<String, PatchError>)
    ensures
        match r {
            Ok(path) => target_of(patch@) == Ok::<Seq<char>, PatchErrorView>(path@),
            Err(e) => target_of(patch@) == Err::<Seq<char>, PatchErrorView>(e@),
        },
{
    let lines = split_lines(patch);
    if !same_text(line_at(&lines, 0), "*** Begin Patch") {
        return Err(PatchError::MissingBegin);
    }
    match strip_prefix(line_at(&lines, 1), "*** Update File: ") {
        None => Err(PatchError::NotAnUpdate),
        Some(path) => {
            if contains(path.as_str(), "..") {
                return Err(PatchError::OutsideWorkspace);
            }
            Ok(path)
        },
    }
}

/// The lines of a file while a patch is worked off, and the place up to which it
/// was.
#[verifier::ext_equal]
pub struct PatchState {
    pub lines: Seq<Seq<char>>,
    pub cursor: int,
}

/// What a line of a patch comes to.
pub enum PatchStep {
    Next(PatchState),
    Refused(PatchErrorView),
    /// The line has no first character of one byte.
    Unreadable,
}

/// The first place at or behind `from` where a line stands.
pub open spec fn line_place(lines: Seq<Seq<char>>, line: Seq<char>, from: int) -> Option<int>
    decreases lines.len() - from,
{
    if from < 0 || from >= lines.len() {
        None
    } else if lines[from] == line {
        Some(from)
    } else {
        line_place(lines, line, from + 1)
    }
}

/// Works one line of a patch off: a line that stays is looked for from the
/// cursor on, one that goes must stand at the cursor, and a new one is put
/// there.
pub open spec fn patch_step(state: PatchState, raw: Seq<char>) -> PatchStep {
    if begins_with(raw, "*** "@) {
        PatchStep::Refused(PatchErrorView::Directive(raw))
    } else if begins_with(raw, "@@"@) {
        PatchStep::Next(state)
    } else if raw.len() == 0 || (raw[0] as int) >= 0x80 {
        PatchStep::Unreadable
    } else {
        let content = raw.skip(1);
        if raw[0] == ' ' {
            match line_place(state.lines, content, state.cursor) {
                Some(i) => PatchStep::Next(PatchState { lines: state.lines, cursor: i + 1 }),
                None => PatchStep::Refused(PatchErrorView::ContextNotFound(content)),
            }
        } else if raw[0] == '-' {
            if state.cursor >= state.lines.len() || state.lines[state.cursor] != content {
                PatchStep::Refused(PatchErrorView::RemovalMismatch(content))
            } else {
                PatchStep::Next(
                    PatchState {
                        lines: state.lines.remove(state.cursor),
                        cursor: state.cursor,
                    },
                )
            }
        } else if raw[0] == '+' {
            PatchStep::Next(
                PatchState {
                    lines: state.lines.insert(state.cursor, content),
                    cursor: state.cursor + 1,
                },
            )
        } else {
            PatchStep::Refused(PatchErrorView::Unsupported(raw))
        }
    }
}

/// Works the lines of a patch off from the `from`th on, up to its end.
pub open spec fn patch_run(state: PatchState, patch: Seq<Seq<char>>, from: int) -> PatchStep
    decreases patch.len() - from,
{
    if from < 0 || from >= patch.len() || patch[from] == "*** End Patch"@ {
        PatchStep::Next(state)
    } else {
        match patch_step(state, patch[from]) {
            PatchStep::Next(next) => patch_run(next, patch, from + 1),
            other => other,
        }
    }
}

/// What a patch comes to on the text of a file.
pub open spec fn patch_outcome(patch: Seq<char>, original: Seq<char>) -> PatchStep {
    patch_run(PatchState { lines: lines_of(original), cursor: 0 }, lines_of(patch), 2)
}

/// The text of a file with given lines, which ends with a line break where the
/// file did before.
pub open spec fn text_with_lines(lines: Seq<Seq<char>>, original: Seq<char>) -> Seq<char> {
    if finishes_with(original, "\n"@) {
        joined(lines, "\n"@) + "\n"@
    } else {
        joined(lines, "\n"@)
    }
}

/// What a patch came to.
#[derive(Debug)]
enum Worked {
    Lines(Vec<String>),
    Refused(PatchError),
    Unreadable,
}

fn work_patch(patch: &Vec<String>, original: &str) -> (r: Worked)
    ensures
        ({
            let start = PatchState { lines: lines_of(original@), cursor: 0 };
            match patch_run(start, texts(patch@), 2) {
                PatchStep::Next(state) => r matches Worked::Lines(lines) && texts(lines@)
                    == state.lines,
                PatchStep::Refused(e) => r matches Worked::Refused(err) && err@ == e,
                PatchStep::Unreadable => r is Unreadable,
            }
        }),
{
    let mut lines = split_lines(original);
    let ghost all = texts(patch@);
    let ghost goal = patch_run(PatchState { lines: lines_of(original@), cursor: 0 }, all, 2);
    let mut cursor: usize = 0;
    let mut i: usize = 2;
    proof {
        assert(all.len() == patch@.len());
    }
    while i < patch.len() && !same_text(patch[i].as_str(), "*** End Patch")
        invariant
            2 <= i,
            all == texts(patch@),
            all.len() == patch@.len(),
            cursor <= lines@.len(),
            goal == patch_run(PatchState { lines: lines_of(original@), cursor: 0 }, all, 2),
            goal == patch_run(
                PatchState { lines: texts(lines@), cursor: cursor as int },
                all,
                i as int,
            ),
        decreases patch@.len() - i,
    {
        let ghost state = PatchState { lines: texts(lines@), cursor: cursor as int };
        let ghost raw_view = all[i as int];
        assert(raw_view == patch@[i as int]@);
        assert(texts(lines@).len() == lines@.len());
        let raw = patch[i].as_str();
        if starts_with(raw, "*** ") {
            return Worked::Refused(PatchError::Directive(raw.to_owned()));
        }
        if !starts_with(raw, "@@") {
            let c = chars_of(raw);
            if c.len() == 0 || crate::text::code_of(c[0]) >= 0x80 {
                return Worked::Unreadable;
            }
            let content = text_of(&c, 1, c.len());
            proof {
                assert(content@ =~= raw_view.skip(1));
            }
            if c[0] == ' ' {
                let mut k: usize = cursor;
                while k < lines.len() && !same_text(lines[k].as_str(), content.as_str())
                    invariant
                        cursor <= k <= lines@.len(),
                        state.lines == texts(lines@),
                        state.lines.len() == lines@.len(),
                        line_place(state.lines, content@, cursor as int) == line_place(
                            state.lines,
                            content@,
                            k as int,
                        ),
                    decreases lines@.len() - k,
                {
                    assert(state.lines[k as int] == lines@[k as int]@);
                    k += 1;
                }
                if k >= lines.len() {
                    return Worked::Refused(PatchError::ContextNotFound(content));
                }
                assert(state.lines[k as int] == lines@[k as int]@);
                cursor = k + 1;
            } else if c[0] == '-' {
                if cursor >= lines.len() {
                    return Worked::Refused(PatchError::RemovalMismatch(content));
                }
                assert(state.lines[cursor as int] == lines@[cursor as int]@);
                if !same_text(lines[cursor].as_str(), content.as_str()) {
                    return Worked::Refused(PatchError::RemovalMismatch(content));
                }
                lines.remove(cursor);
                proof {
                    assert(texts(lines@) =~= state.lines.remove(cursor as int));
                }
            } else if c[0] == '+' {
                lines.insert(cursor, content);
                proof {
                    assert(texts(lines@) =~= state.lines.insert(cursor as int, content@));
                }
                assert(cursor < lines.len());
                cursor += 1;
            } else {
                return Worked::Refused(PatchError::Unsupported(raw.to_owned()));
            }
        }
        i += 1;
    }
    proof {
        if i < patch@.len() {
            assert(all[i as int] == patch@[i as int]@);
        }
    }
    Worked::Lines(lines)
}

/// Whether each line of a patch that is reached on the text of a file begins
/// with a character of one byte.
pub fn patch_is_readable(patch: &str, original: &str) -> (r: bool)
    ensures
        r == !(patch_outcome(patch@, original@) is Unreadable),
{
    let lines = split_lines(patch);
    match work_patch(&lines, original) {
        Worked::Unreadable => false,
        _ => true,
    }
}

/// The text of a file after a patch. The lines that are reached begin with a
/// character of one byte.
pub fn apply_patch(patch: &str, original: &str) -> (r: Result<String, PatchError>)
    requires
        !(patch_outcome(patch@, original@) is Unreadable),
    ensures
        match patch_outcome(patch@, original@) {
            PatchStep::Next(state) => r matches Ok(text) && text@ == text_with_lines(
                state.lines,
                original@,
            ),
            PatchStep::Refused(e) => r matches Err(err) && err@ == e,
            PatchStep::Unreadable => true,
        },
{
    let lines = split_lines(patch);
    match work_patch(&lines, original) {
        Worked::Lines(list) => {
            let mut out = join(&list, "\n");
            if ends_with(original, "\n") {
                out.append("\n");
            }
            Ok(out)
        },
        Worked::Refused(e) => Err(e),
        Worked::Unreadable => Err(PatchError::Unsupported(String::new())),
    }
}

/// The cursor never leaves the file, and lines before it are not touched again.
pub proof fn law_patches_go_forward(state: PatchState, raw: Seq<char>)
    requires
        0 <= state.cursor <= state.lines.len(),
    ensures
        patch_step(state, raw) matches PatchStep::Next(next) ==> state.cursor <= next.cursor
            <= next.lines.len() && next.lines.take(state.cursor) == state.lines.take(
            state.cursor,
        ),
{
    match patch_step(state, raw) {
        PatchStep::Next(next) => {
            if raw.len() > 0 && raw[0] == ' ' {
                lemma_line_place(state.lines, raw.skip(1), state.cursor);
            }
            assert(next.lines.take(state.cursor) =~= state.lines.take(state.cursor));
        },
        _ => {},
    }
}

proof fn lemma_line_place(lines: Seq<Seq<char>>, line: Seq<char>, from: int)
    requires
        0 <= from,
    ensures
        line_place(lines, line, from) matches Some(i) ==> from <= i < lines.len() && lines[i]
            == line,
    decreases lines.len() - from,
{
    if from < lines.len() && lines[from] != line {
        lemma_line_place(lines, line, from + 1);
    }
}

} // verus!
