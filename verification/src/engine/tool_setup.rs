//! The tools of a turn: which groups are offered, in what surroundings they run,
//! and which of them the model sees.

use crate::authority::{
    sandbox_of, shell_of, shell_policy_for_mode, SandboxPolicy, ShellPolicy, TurnAuthority,
};
use crate::engine::state::{Engine, Features};
use crate::events::{event_views, no_events, tell, Event, EventView};
use crate::models::{tool_views, AppMode, Tool, ToolView};
use crate::names::{lemma_set_of_push, NameSet};
use crate::paths::{below, path_below, same_path, same_place};
use crate::text::{begins_with, concat, opt_str, opt_text, texts};
use crate::tool_catalog::{
    build_model_tool_catalog_with_surface, catalog_of, with_deferral, ToolSurfaceBudget,
};
use vstd::prelude::*;

verus! {

// ---------------------------------------------------------------------------
// Groups of tools
// ---------------------------------------------------------------------------

/// Whether the tool that remembers is offered: where memory is on, and no other
/// store took its place.
pub fn should_register_remember_tool(memory_enabled: bool, moraine_fallback: bool) -> (r: bool)
    ensures
        r == (memory_enabled && !moraine_fallback),
{
    memory_enabled && !moraine_fallback
}

/// What is offered to a model that acts.
#[derive(Debug)]
pub struct AgentToolSurfaceOptions {
    pub shell_policy: ShellPolicy,
    pub apply_patch_enabled: bool,
    pub web_search_enabled: bool,
    pub memory_tool_enabled: bool,
    /// The tools that look at pictures are offered.
    pub vision_enabled: bool,
    pub speech_output_dir: Option<String>,
}

/// A group of tools.
#[derive(Debug, Clone, Copy, PartialEq, Eq, Structural)]
pub enum ToolGroup {
    ReadOnlyFiles,
    Search,
    Git,
    GitHistory,
    Diagnostics,
    Skills,
    Validation,
    Handles,
    ReadOnlyTasks,
    Todo,
    Plan,
    Goal,
    Shell,
    TaskShell,
    Review,
    UserInput,
    Parallel,
    ReadOnlySlopLedger,
    Web,
    Remember,
    Vision,
    Notify,
    RuntimeMcp,
}

/// The tools of a turn.
#[derive(Debug)]
pub enum TurnTools {
    /// All that an acting model is offered.
    Acting(AgentToolSurfaceOptions),
    /// The groups for planning, in the order in which they are offered.
    Planning(Vec<ToolGroup>),
}

/// A list with a few more at its end, where a condition holds.
pub open spec fn plus(list: Seq<ToolGroup>, more: Seq<ToolGroup>, offered: bool) -> Seq<ToolGroup> {
    if offered {
        list + more
    } else {
        list
    }
}

/// The groups for planning.
pub open spec fn planning_groups(
    shell: ShellPolicy,
    features: Features,
    remembers: bool,
    vision_configured: bool,
    has_mcp_pool: bool,
) -> Seq<ToolGroup> {
    let base = seq![
        ToolGroup::ReadOnlyFiles,
        ToolGroup::Search,
        ToolGroup::Git,
        ToolGroup::GitHistory,
        ToolGroup::Diagnostics,
        ToolGroup::Skills,
        ToolGroup::Validation,
        ToolGroup::Handles,
        ToolGroup::ReadOnlyTasks,
        ToolGroup::Todo,
        ToolGroup::Plan,
        ToolGroup::Goal,
    ];
    let with_shell = plus(
        base,
        seq![ToolGroup::Shell, ToolGroup::TaskShell],
        shell != ShellPolicy::Disabled,
    );
    let with_talk = with_shell + seq![
        ToolGroup::Review,
        ToolGroup::UserInput,
        ToolGroup::Parallel,
        ToolGroup::ReadOnlySlopLedger,
    ];
    let with_web = plus(with_talk, seq![ToolGroup::Web], features.web_search);
    let with_memory = plus(with_web, seq![ToolGroup::Remember], remembers);
    let with_vision = plus(
        with_memory,
        seq![ToolGroup::Vision],
        features.vision_model && vision_configured,
    );
    plus(with_vision + seq![ToolGroup::Notify], seq![ToolGroup::RuntimeMcp], has_mcp_pool)
}

fn first_groups(shell: ShellPolicy) -> (r: Vec<ToolGroup>)
    ensures
        r@ == plus(
            seq![
                ToolGroup::ReadOnlyFiles,
                ToolGroup::Search,
                ToolGroup::Git,
                ToolGroup::GitHistory,
                ToolGroup::Diagnostics,
                ToolGroup::Skills,
                ToolGroup::Validation,
                ToolGroup::Handles,
                ToolGroup::ReadOnlyTasks,
                ToolGroup::Todo,
                ToolGroup::Plan,
                ToolGroup::Goal,
            ],
            seq![ToolGroup::Shell, ToolGroup::TaskShell],
            shell != ShellPolicy::Disabled,
        ) + seq![
            ToolGroup::Review,
            ToolGroup::UserInput,
            ToolGroup::Parallel,
            ToolGroup::ReadOnlySlopLedger,
        ],
{
    let mut out: Vec<ToolGroup> = vec![
        ToolGroup::ReadOnlyFiles,
        ToolGroup::Search,
        ToolGroup::Git,
        ToolGroup::GitHistory,
        ToolGroup::Diagnostics,
        ToolGroup::Skills,
        ToolGroup::Validation,
        ToolGroup::Handles,
        ToolGroup::ReadOnlyTasks,
        ToolGroup::Todo,
        ToolGroup::Plan,
        ToolGroup::Goal,
    ];
    let ghost base = out@;
    if shell != ShellPolicy::Disabled {
        out.push(ToolGroup::Shell);
        out.push(ToolGroup::TaskShell);
        assert(out@ =~= base + seq![ToolGroup::Shell, ToolGroup::TaskShell]);
    }
    let ghost with_shell = out@;
    out.push(ToolGroup::Review);
    out.push(ToolGroup::UserInput);
    out.push(ToolGroup::Parallel);
    out.push(ToolGroup::ReadOnlySlopLedger);
    assert(out@ =~= with_shell + seq![
        ToolGroup::Review,
        ToolGroup::UserInput,
        ToolGroup::Parallel,
        ToolGroup::ReadOnlySlopLedger,
    ]);
    out
}

fn offer(list: &mut Vec<ToolGroup>, group: ToolGroup, offered: bool)
    ensures
        final(list)@ == plus(old(list)@, seq![group], offered),
{
    let ghost before = list@;
    if offered {
        list.push(group);
        assert(list@ =~= before + seq![group]);
    }
}

impl Engine {
    /// What is offered to a model that acts. `vision_configured` tells whether a
    /// model for pictures is set up.
    pub fn agent_tool_surface_options(
        &self,
        shell_policy: ShellPolicy,
        vision_configured: bool,
    ) -> (r: AgentToolSurfaceOptions)
        ensures
            r.shell_policy == shell_policy,
            r.apply_patch_enabled == self.config.features.apply_patch,
            r.web_search_enabled == self.config.features.web_search,
            r.memory_tool_enabled == (self.config.memory_enabled
                && !self.config.moraine_fallback),
            r.vision_enabled == (self.config.features.vision_model && vision_configured),
            opt_text(r.speech_output_dir) == opt_text(self.config.speech_output_dir),
    {
        AgentToolSurfaceOptions {
            shell_policy,
            apply_patch_enabled: self.config.features.apply_patch,
            web_search_enabled: self.config.features.web_search,
            memory_tool_enabled: should_register_remember_tool(
                self.config.memory_enabled,
                self.config.moraine_fallback,
            ),
            vision_enabled: self.config.features.vision_model && vision_configured,
            speech_output_dir: self.config.speech_output_dir.clone(),
        }
    }

    /// The tools of a turn.
    pub fn build_turn_tool_registry_builder(
        &self,
        mode: AppMode,
        vision_configured: bool,
        has_mcp_pool: bool,
    ) -> (r: TurnTools)
        ensures
            ({
                let shell = shell_of(mode, self.session.allow_shell);
                if mode != AppMode::Plan {
                    &&& r matches TurnTools::Acting(options)
                    &&& options.shell_policy == shell
                    &&& options.apply_patch_enabled == self.config.features.apply_patch
                    &&& options.web_search_enabled == self.config.features.web_search
                    &&& options.memory_tool_enabled == (self.config.memory_enabled
                        && !self.config.moraine_fallback)
                    &&& options.vision_enabled == (self.config.features.vision_model
                        && vision_configured)
                    &&& opt_text(options.speech_output_dir) == opt_text(
                        self.config.speech_output_dir,
                    )
                } else {
                    &&& r matches TurnTools::Planning(groups)
                    &&& groups@ == planning_groups(
                        shell,
                        self.config.features,
                        self.config.memory_enabled && !self.config.moraine_fallback,
                        vision_configured,
                        has_mcp_pool,
                    )
                }
            }),
    {
        let shell = shell_policy_for_mode(mode, self.session.allow_shell);
        if mode != AppMode::Plan {
            return TurnTools::Acting(self.agent_tool_surface_options(shell, vision_configured));
        }
        let remembers = should_register_remember_tool(
            self.config.memory_enabled,
            self.config.moraine_fallback,
        );
        let mut groups = first_groups(shell);
        offer(&mut groups, ToolGroup::Web, self.config.features.web_search);
        offer(&mut groups, ToolGroup::Remember, remembers);
        offer(
            &mut groups,
            ToolGroup::Vision,
            self.config.features.vision_model && vision_configured,
        );
        offer(&mut groups, ToolGroup::Notify, true);
        offer(&mut groups, ToolGroup::RuntimeMcp, has_mcp_pool);
        TurnTools::Planning(groups)
    }

    /// Whether the model can hand work to sub-agents.
    pub fn subagents_available(&self) -> (r: bool)
        ensures
            r == (self.config.subagents_enabled && self.config.features.subagents),
    {
        self.config.subagents_enabled && self.config.features.subagents
    }

    /// What of the shell the sub-agents of a turn may use.
    pub fn subagent_shell_policy(&self, mode: AppMode) -> (r: (bool, ShellPolicy))
        ensures
            r.0 == (self.session.allow_shell && mode != AppMode::Plan),
            r.1 == shell_of(mode, r.0),
    {
        let allowed = self.session.allow_shell && mode != AppMode::Plan;
        (allowed, shell_policy_for_mode(mode, allowed))
    }
}

// ---------------------------------------------------------------------------
// Surroundings
// ---------------------------------------------------------------------------

/// What a shell command is told that was blocked while planning.
pub open spec fn plan_network_hint() -> Seq<char> {
    "Shell command blocked: Plan mode runs shell commands in a read-only sandbox — no writes, no network. Use Act mode (`/mode act`) for any command that creates or modifies files, or that needs network access."@
}

/// The surroundings in which tools run.
#[derive(Debug)]
pub struct ToolContext {
    pub workspace: String,
    pub trust_mode: bool,
    pub notes_path: String,
    pub mcp_config_path: String,
    pub auto_approve: bool,
    pub state_namespace: String,
    pub features: Features,
    pub skills_dir: String,
    pub skills_scan_codewhale_only: bool,
    pub shell_policy: ShellPolicy,
    pub trusted_external_paths: Vec<String>,
    pub follow_symlinks: bool,
    pub memory_path: Option<String>,
    pub search_api_key: Option<String>,
    pub search_base_url: Option<String>,
    pub sandbox_policy: SandboxPolicy,
    pub shell_network_denied_hint: Option<String>,
}

/// A path is among others.
pub open spec fn place_listed(paths: Seq<Seq<char>>, path: Seq<char>) -> bool {
    exists|i: int| 0 <= i < paths.len() && same_place(#[trigger] paths[i], path)
}

/// Paths with one more, where it is not among them.
pub open spec fn with_place(paths: Seq<Seq<char>>, path: Seq<char>) -> Seq<Seq<char>> {
    if place_listed(paths, path) {
        paths
    } else {
        paths.push(path)
    }
}

fn add_place(paths: Vec<String>, path: &str) -> (r: Vec<String>)
    ensures
        texts(r@) == with_place(texts(paths@), path@),
{
    let ghost all = texts(paths@);
    let mut i: usize = 0;
    while i < paths.len()
        invariant
            i <= paths@.len(),
            all == texts(paths@),
            all.len() == paths@.len(),
            forall|k: int| 0 <= k < i ==> !same_place(#[trigger] all[k], path@),
        decreases paths@.len() - i,
    {
        assert(all[i as int] == paths@[i as int]@);
        if same_path(paths[i].as_str(), path) {
            assert(same_place(all[i as int], path@));
            return paths;
        }
        i += 1;
    }
    let mut out = paths;
    out.push(path.to_owned());
    assert(texts(out@) =~= all.push(path@));
    out
}

impl Engine {
    /// The surroundings in which the tools of a turn run. `trusted` are the paths
    /// outside the workspace that the user trusts, and `clipboard_dir` is where
    /// pictures from the clipboard are kept, which is trusted too.
    pub fn build_tool_context(
        &self,
        mode: AppMode,
        auto_approve: bool,
        trusted: Vec<String>,
        clipboard_dir: &str,
    ) -> (r: ToolContext)
        ensures
            r.workspace@ == self.session.workspace@,
            r.trust_mode == self.session.trust_mode,
            r.notes_path@ == self.session.notes_path@,
            r.mcp_config_path@ == self.session.mcp_config_path@,
            r.auto_approve == (mode == AppMode::Yolo || auto_approve),
            r.state_namespace@ == self.session.id@,
            r.features == self.config.features,
            r.skills_dir@ == self.config.skills_dir@,
            r.skills_scan_codewhale_only == self.config.skills_scan_codewhale_only,
            r.shell_policy == shell_of(mode, self.session.allow_shell),
            texts(r.trusted_external_paths@) == with_place(texts(trusted@), clipboard_dir@),
            r.follow_symlinks == self.config.workspace_follow_symlinks,
            opt_text(r.memory_path) == (if self.config.memory_enabled {
                Some(self.config.memory_path@)
            } else {
                None
            }),
            opt_text(r.search_api_key) == opt_text(self.config.search_api_key),
            opt_text(r.search_base_url) == opt_text(self.config.search_base_url),
            r.sandbox_policy@ == sandbox_of(mode, self.session.workspace@),
            opt_text(r.shell_network_denied_hint) == (if mode == AppMode::Plan {
                Some(plan_network_hint())
            } else {
                None
            }),
    {
        let authority = TurnAuthority::from_effective_fields(
            mode,
            self.session.allow_shell,
            self.session.trust_mode,
            mode == AppMode::Yolo || auto_approve,
            self.session.approval_mode,
        );
        ToolContext {
            workspace: self.session.workspace.clone(),
            trust_mode: authority.trust_mode,
            notes_path: self.session.notes_path.clone(),
            mcp_config_path: self.session.mcp_config_path.clone(),
            auto_approve: authority.auto_approve,
            state_namespace: self.session.id.clone(),
            features: self.config.features,
            skills_dir: self.config.skills_dir.clone(),
            skills_scan_codewhale_only: self.config.skills_scan_codewhale_only,
            shell_policy: authority.shell_policy(),
            trusted_external_paths: add_place(trusted, clipboard_dir),
            follow_symlinks: self.config.workspace_follow_symlinks,
            memory_path: if self.config.memory_enabled {
                Some(self.config.memory_path.clone())
            } else {
                None
            },
            search_api_key: self.config.search_api_key.clone(),
            search_base_url: self.config.search_base_url.clone(),
            sandbox_policy: authority.sandbox_policy(self.session.workspace.as_str()),
            shell_network_denied_hint: if mode == AppMode::Plan {
                Some(
                    "Shell command blocked: Plan mode runs shell commands in a read-only sandbox — no writes, no network. Use Act mode (`/mode act`) for any command that creates or modifies files, or that needs network access.".to_owned(),
                )
            } else {
                None
            },
        }
    }
}

/// What is told of servers to which no connection could be made.
pub open spec fn connect_failures(errors: Seq<(String, String)>) -> Seq<EventView> {
    errors.map_values(
        |e: (String, String)|
            EventView::Status("Failed to connect MCP server '"@ + e.0@ + "': "@ + e.1@),
    )
}

/// What is told of servers to which no connection could be made.
pub fn mcp_connect_failures(errors: &Vec<(String, String)>) -> (r: Vec<Event>)
    ensures
        event_views(r@) == connect_failures(errors@),
{
    let mut events = no_events();
    let mut i: usize = 0;
    let ghost want = connect_failures(errors@);
    assert(event_views(events@) =~= want.take(0));
    while i < errors.len()
        invariant
            i <= errors@.len(),
            want == connect_failures(errors@),
            event_views(events@) == want.take(i as int),
        decreases errors@.len() - i,
    {
        let mut text = concat("Failed to connect MCP server '", errors[i].0.as_str());
        text.append("': ");
        text.append(errors[i].1.as_str());
        tell(&mut events, Event::status(text));
        assert(event_views(events@) =~= want.take(i + 1));
        i += 1;
    }
    assert(want.take(want.len() as int) =~= want);
    events
}

// ---------------------------------------------------------------------------
// Tools of the user's own
// ---------------------------------------------------------------------------

/// A path that stands for something in the home directory.
pub open spec fn starts_at_home(path: Seq<char>) -> bool {
    path == "~"@ || begins_with(path, "~/"@) || begins_with(path, "~\\"@)
}

/// `shellexpand::tilde`: puts the home directory in place of a tilde at the
/// start of a path. Which directory that is depends on the machine, and where
/// none is known the path stays as it is; so does every other path.
#[verifier::external_body]
fn expand_home(path: &str) -> (r: String)
    ensures
        !starts_at_home(path@) ==> r@ == path@,
        starts_at_home(path@) ==> r@ == path@ || exists|home: Seq<char>|
            r@ == #[trigger] (home + path@.skip(1)),
{
    shellexpand::tilde(path).into_owned()
}

/// The directory that holds the program's own files: the one that is set up, or
/// one in the home directory, or one right here.
pub open spec fn own_dir(configured: Option<Seq<char>>, home: Option<Seq<char>>) -> Seq<char> {
    match configured {
        Some(dir) => dir,
        None => match home {
            Some(h) => below(h, ".codewhale"@),
            None => ".codewhale"@,
        },
    }
}

/// The directory of the user's own tools, where none is set up.
pub fn default_plugin_tools_dir(configured: Option<&str>, home: Option<&str>) -> (r: String)
    ensures
        r@ == below(own_dir(opt_str(configured), opt_str(home)), "tools"@),
{
    let dir = match configured {
        Some(d) => d.to_owned(),
        None => match home {
            Some(h) => path_below(h, ".codewhale"),
            None => ".codewhale".to_owned(),
        },
    };
    path_below(dir.as_str(), "tools")
}

/// The directory of the user's own tools: the one that is set up, with the home
/// directory in place of a tilde, or else the usual one.
pub fn plugin_tools_dir(custom: Option<&str>, usual: String) -> (r: String)
    ensures
        match custom {
            None => r == usual,
            Some(dir) => {
                &&& !starts_at_home(dir@) ==> r@ == dir@
                &&& starts_at_home(dir@) ==> r@ == dir@ || exists|home: Seq<char>|
                    r@ == #[trigger] (home + dir@.skip(1))
            },
        },
{
    match custom {
        Some(dir) => expand_home(dir),
        None => usual,
    }
}

/// The names that were added between two times.
pub fn plugin_tool_names(before: &NameSet, after: &NameSet) -> (r: NameSet)
    ensures
        r@ == after@.difference(before@),
{
    let names = after.to_names();
    let ghost all = texts(names@);
    let mut out = NameSet::new();
    let mut i: usize = 0;
    assert(all.take(0).to_set().difference(before@) =~= Set::empty());
    while i < names.len()
        invariant
            i <= names@.len(),
            all == texts(names@),
            all.len() == names@.len(),
            out@ == all.take(i as int).to_set().difference(before@),
        decreases names@.len() - i,
    {
        let ghost done = all.take(i as int);
        assert(all.take(i + 1) =~= done.push(all[i as int]));
        proof {
            lemma_set_of_push(done, all[i as int]);
        }
        if !before.contains(names[i].as_str()) {
            out.insert(names[i].as_str());
        }
        assert(out@ =~= all.take(i + 1).to_set().difference(before@));
        i += 1;
    }
    assert(all.take(all.len() as int) =~= all);
    out
}

// ---------------------------------------------------------------------------
// What the model sees
// ---------------------------------------------------------------------------

/// The tools, the user's own told not to wait.
pub open spec fn with_plugins_loaded(tools: Seq<ToolView>, plugins: Set<Seq<char>>) -> Seq<
    ToolView,
> {
    tools.map_values(
        |t: ToolView|
            if plugins.contains(t.name) {
                with_deferral(t, false)
            } else {
                t
            },
    )
}

/// Tells the user's own tools not to wait.
pub fn load_plugin_tools(catalog: &mut Vec<Tool>, plugins: &NameSet)
    ensures
        tool_views(final(catalog)@) == with_plugins_loaded(
            tool_views(old(catalog)@),
            plugins@,
        ),
{
    let ghost all = tool_views(catalog@);
    let ghost want = with_plugins_loaded(all, plugins@);
    let mut i: usize = 0;
    while i < catalog.len()
        invariant
            i <= catalog@.len(),
            catalog@.len() == all.len(),
            want == with_plugins_loaded(all, plugins@),
            forall|j: int| 0 <= j < i ==> #[trigger] catalog@[j]@ == want[j],
            forall|j: int| i <= j < all.len() ==> #[trigger] catalog@[j]@ == all[j],
        decreases catalog@.len() - i,
    {
        assert(catalog@[i as int]@ == all[i as int]);
        if plugins.contains(catalog[i].name.as_str()) {
            let mut tool = catalog[i].clone();
            tool.defer_loading = Some(false);
            assert(tool@ =~= want[i as int]);
            catalog.set(i, tool);
        }
        i += 1;
    }
    assert(tool_views(catalog@) =~= want);
}

/// What the two gates said of a tool. The second is asked only where the first
/// does not deny it.
pub open spec fn gate_answer<D: Fn(&str) -> bool, A: Fn(&str) -> bool>(
    denies: D,
    allows: A,
    name: &str,
    kept: bool,
) -> bool {
    ||| !kept && call_ensures(denies, (name,), true)
    ||| call_ensures(denies, (name,), false) && call_ensures(allows, (name,), kept)
}

/// What the two gates said of the tool of a name.
pub open spec fn let_through<D: Fn(&str) -> bool, A: Fn(&str) -> bool>(
    denies: D,
    allows: A,
    tool_name: Seq<char>,
    kept: bool,
) -> bool {
    exists|name: &str| name@ == tool_name && #[trigger] gate_answer(denies, allows, name, kept)
}

/// `kept` tells of each tool whether the gates let it through.
pub open spec fn gate_answers<D: Fn(&str) -> bool, A: Fn(&str) -> bool>(
    denies: D,
    allows: A,
    tools: Seq<ToolView>,
    kept: Seq<bool>,
) -> bool {
    &&& kept.len() == tools.len()
    &&& forall|i: int|
        0 <= i < tools.len() ==> #[trigger] let_through(denies, allows, tools[i].name, kept[i])
}

/// Those of the first `n` tools that are kept.
pub open spec fn kept_tools(tools: Seq<ToolView>, kept: Seq<bool>, n: nat) -> Seq<ToolView>
    decreases n,
{
    if n == 0 {
        Seq::empty()
    } else if kept[n - 1] {
        kept_tools(tools, kept, (n - 1) as nat).push(tools[n - 1])
    } else {
        kept_tools(tools, kept, (n - 1) as nat)
    }
}

/// The tools that the gates let through.
pub open spec fn gated<D: Fn(&str) -> bool, A: Fn(&str) -> bool>(
    denies: D,
    allows: A,
    tools: Seq<ToolView>,
    result: Seq<ToolView>,
) -> bool {
    exists|kept: Seq<bool>| #[trigger]
        gate_answers(denies, allows, tools, kept) && result == kept_tools(tools, kept, tools.len())
}

/// Takes out of the catalog what the gates do not let through: what is denied,
/// and what is not allowed.
pub fn filter_tool_catalog_for_gates<D: Fn(&str) -> bool, A: Fn(&str) -> bool>(
    catalog: Vec<Tool>,
    denies: D,
    allows: A,
) -> (r: Vec<Tool>)
    requires
        forall|name: &str| #[trigger] call_requires(denies, (name,)),
        forall|name: &str| #[trigger] call_requires(allows, (name,)),
    ensures
        gated(denies, allows, tool_views(catalog@), tool_views(r@)),
{
    let ghost all = tool_views(catalog@);
    let ghost mut kept: Seq<bool> = Seq::empty();
    let mut out: Vec<Tool> = Vec::new();
    let mut i: usize = 0;
    assert(tool_views(out@) =~= Seq::empty());
    while i < catalog.len()
        invariant
            i <= catalog@.len(),
            all == tool_views(catalog@),
            all.len() == catalog@.len(),
            kept.len() == i,
            forall|name: &str| #[trigger] call_requires(denies, (name,)),
            forall|name: &str| #[trigger] call_requires(allows, (name,)),
            forall|k: int|
                0 <= k < i ==> #[trigger] let_through(denies, allows, all[k].name, kept[k]),
            tool_views(out@) == kept_tools(all, kept, i as nat),
        decreases catalog@.len() - i,
    {
        let name = catalog[i].name.as_str();
        assert(all[i as int] == catalog@[i as int]@);
        let keep = if denies(name) {
            false
        } else {
            allows(name)
        };
        let ghost before = kept;
        proof {
            kept = kept.push(keep);
            assert(gate_answer(denies, allows, name, keep));
            assert(let_through(denies, allows, all[i as int].name, keep));
            assert forall|k: int| 0 <= k < i + 1 implies #[trigger] let_through(
                denies,
                allows,
                all[k].name,
                kept[k],
            ) by {
                if k < i {
                    assert(let_through(denies, allows, all[k].name, before[k]));
                }
            }
            lemma_kept_prefix(all, before, kept, i as nat);
        }
        if keep {
            let ghost so_far = out@;
            out.push(catalog[i].clone());
            assert(tool_views(out@) =~= tool_views(so_far).push(all[i as int]));
        }
        i += 1;
    }
    assert(gate_answers(denies, allows, all, kept));
    out
}

proof fn lemma_kept_prefix(tools: Seq<ToolView>, a: Seq<bool>, b: Seq<bool>, n: nat)
    requires
        n <= a.len(),
        a.len() <= b.len(),
        forall|k: int| 0 <= k < n ==> a[k] == b[k],
    ensures
        kept_tools(tools, a, n) == kept_tools(tools, b, n),
    decreases n,
{
    if n > 0 {
        lemma_kept_prefix(tools, a, b, (n - 1) as nat);
    }
}

proof fn lemma_kept_tools(tools: Seq<ToolView>, kept: Seq<bool>, n: nat, i: int)
    requires
        n <= tools.len(),
        n <= kept.len(),
        0 <= i < kept_tools(tools, kept, n).len(),
    ensures
        exists|k: int|
            0 <= k < n && kept[k] && #[trigger] tools[k] == kept_tools(tools, kept, n)[i],
    decreases n,
{
    if n > 0 {
        let before = kept_tools(tools, kept, (n - 1) as nat);
        if i < before.len() {
            lemma_kept_tools(tools, kept, (n - 1) as nat, i);
            let k = choose|k: int| 0 <= k < n - 1 && kept[k] && #[trigger] tools[k] == before[i];
            assert(tools[k] == kept_tools(tools, kept, n)[i]);
        } else {
            assert(tools[n - 1] == kept_tools(tools, kept, n)[i]);
        }
    }
}

/// A tool that is denied is never offered, even where it is allowed; and no tool
/// is offered that is not allowed. `denied` and `allowed` are what the gates say
/// of a name.
pub proof fn law_denials_win<D: Fn(&str) -> bool, A: Fn(&str) -> bool>(
    denies: D,
    allows: A,
    denied: spec_fn(Seq<char>) -> bool,
    allowed: spec_fn(Seq<char>) -> bool,
    tools: Seq<ToolView>,
    result: Seq<ToolView>,
)
    requires
        forall|name: &str, b: bool| #[trigger]
            call_ensures(denies, (name,), b) ==> b == denied(name@),
        forall|name: &str, b: bool| #[trigger]
            call_ensures(allows, (name,), b) ==> b == allowed(name@),
        gated(denies, allows, tools, result),
    ensures
        forall|i: int|
            0 <= i < result.len() ==> !denied((#[trigger] result[i]).name) && allowed(
                result[i].name,
            ),
{
    let kept = choose|kept: Seq<bool>| #[trigger]
        gate_answers(denies, allows, tools, kept) && result == kept_tools(
            tools,
            kept,
            tools.len(),
        );
    assert forall|i: int| 0 <= i < result.len() implies !denied((#[trigger] result[i]).name)
        && allowed(result[i].name) by {
        lemma_kept_tools(tools, kept, tools.len(), i);
        let k = choose|k: int|
            0 <= k < tools.len() && kept[k] && #[trigger] tools[k] == result[i];
        assert(let_through(denies, allows, tools[k].name, kept[k]));
        let name = choose|name: &str|
            name@ == tools[k].name && #[trigger] gate_answer(denies, allows, name, kept[k]);
        assert(gate_answer(denies, allows, name, true));
    }
}

/// The names that never wait: those of the settings, and the tool that starts a
/// server where servers are on.
pub open spec fn always_loaded(names: Seq<Seq<char>>, mcp: bool) -> Set<Seq<char>> {
    if mcp {
        names.to_set().insert("start_mcp_server"@)
    } else {
        names.to_set()
    }
}

impl Engine {
    /// The tools of a turn before the gates.
    pub open spec fn offered(
        self,
        native: Seq<ToolView>,
        mcp: Seq<ToolView>,
        plugins: Set<Seq<char>>,
        mode: AppMode,
        budget: ToolSurfaceBudget,
    ) -> Seq<ToolView> {
        let remote = if self.config.features.mcp {
            mcp
        } else {
            Seq::empty()
        };
        with_plugins_loaded(
            catalog_of(
                native,
                remote,
                mode,
                always_loaded(
                    texts(self.config.tools_always_load@),
                    self.config.features.mcp,
                ),
                budget,
            ),
            plugins,
        )
    }

    /// The catalog of tools that a turn offers to the model.
    pub fn turn_catalog<D: Fn(&str) -> bool, A: Fn(&str) -> bool>(
        &self,
        native: Vec<Tool>,
        mcp: Vec<Tool>,
        plugins: &NameSet,
        mode: AppMode,
        budget: ToolSurfaceBudget,
        denies: D,
        allows: A,
    ) -> (r: Vec<Tool>)
        requires
            forall|name: &str| #[trigger] call_requires(denies, (name,)),
            forall|name: &str| #[trigger] call_requires(allows, (name,)),
        ensures
            gated(
                denies,
                allows,
                self.offered(
                    tool_views(native@),
                    tool_views(mcp@),
                    plugins@,
                    mode,
                    budget,
                ),
                tool_views(r@),
            ),
    {
        let ghost offered = self.offered(
            tool_views(native@),
            tool_views(mcp@),
            plugins@,
            mode,
            budget,
        );
        let mut always = NameSet::from_names(&self.config.tools_always_load);
        let mut remote = mcp;
        if self.config.features.mcp {
            always.insert("start_mcp_server");
        } else {
            remote = Vec::new();
            assert(tool_views(remote@) =~= Seq::empty());
        }
        let mut catalog = build_model_tool_catalog_with_surface(
            native,
            remote,
            mode,
            &always,
            budget,
        );
        load_plugin_tools(&mut catalog, plugins);
        assert(tool_views(catalog@) == offered);
        assert(tool_views(catalog@).len() == catalog@.len());
        filter_tool_catalog_for_gates(catalog, denies, allows)
    }
}

// ---------------------------------------------------------------------------
// Models for roles
// ---------------------------------------------------------------------------

/// The model that a list names for a role; where it names several, the last
/// counts.
pub open spec fn model_for(
    list: Seq<(String, String)>,
    role: Seq<char>,
    n: nat,
) -> Option<Seq<char>>
    decreases n,
{
    if n == 0 {
        None
    } else if list[n - 1].0@ == role {
        Some(list[n - 1].1@)
    } else {
        model_for(list, role, (n - 1) as nat)
    }
}

/// The models for the roles of sub-agents: those of the roster, and over them
/// those of the settings.
pub fn subagent_role_models(
    roster: Vec<(String, String)>,
    overrides: Vec<(String, String)>,
) -> (r: Vec<(String, String)>)
    ensures
        r@ == roster@ + overrides@,
        forall|role: Seq<char>| #[trigger]
            model_for(r@, role, r@.len()) == (match model_for(overrides@, role, overrides@.len()) {
                Some(m) => Some(m),
                None => model_for(roster@, role, roster@.len()),
            }),
{
    let ghost first = roster@;
    let ghost second = overrides@;
    let mut out = roster;
    let mut more = overrides;
    out.append(&mut more);
    proof {
        assert(out@ =~= first + second);
        assert forall|role: Seq<char>| #[trigger]
            model_for(out@, role, out@.len()) == (match model_for(second, role, second.len()) {
                Some(m) => Some(m),
                None => model_for(first, role, first.len()),
            }) by {
            lemma_model_for(first, second, role, second.len());
        }
    }
    out
}

proof fn lemma_model_for(
    first: Seq<(String, String)>,
    second: Seq<(String, String)>,
    role: Seq<char>,
    n: nat,
)
    requires
        n <= second.len(),
    ensures
        model_for(first + second, role, first.len() + n) == (match model_for(second, role, n) {
            Some(m) => Some(m),
            None => model_for(first, role, first.len()),
        }),
    decreases n,
{
    let both = first + second;
    if n == 0 {
        lemma_model_prefix(first, second, role, first.len());
    } else {
        assert(both[first.len() + n - 1] == second[n - 1]);
        lemma_model_for(first, second, role, (n - 1) as nat);
    }
}

proof fn lemma_model_prefix(
    first: Seq<(String, String)>,
    second: Seq<(String, String)>,
    role: Seq<char>,
    n: nat,
)
    requires
        n <= first.len(),
    ensures
        model_for(first + second, role, n) == model_for(first, role, n),
    decreases n,
{
    if n > 0 {
        assert((first + second)[n - 1] == first[n - 1]);
        lemma_model_prefix(first, second, role, (n - 1) as nat);
    }
}

/// While the user plans, the shell is not offered where it is off.
pub proof fn law_planning_has_no_shell_where_it_is_off(
    features: Features,
    remembers: bool,
    vision_configured: bool,
    has_mcp_pool: bool,
)
    ensures
        !planning_groups(
            ShellPolicy::Disabled,
            features,
            remembers,
            vision_configured,
            has_mcp_pool,
        ).contains(ToolGroup::Shell),
        !planning_groups(
            ShellPolicy::Disabled,
            features,
            remembers,
            vision_configured,
            has_mcp_pool,
        ).contains(ToolGroup::TaskShell),
{
}

} // verus!
