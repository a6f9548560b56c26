//! The settings of an engine and the state that it keeps between requests.

use crate::authority::{ApprovalMode, TurnAuthority};
use crate::engine::goal::{normalized_goal_objective, objective_of};
use crate::events::{event_views, no_events, tell, Event, EventView};
use crate::ids::is_random_id;
use crate::lsp::diagnostics::DiagnosticBlock;
use crate::models::AppMode;
use crate::models::SystemPrompt;
use crate::ops::GoalStatus;
use crate::session::{no_session_usage, Session};
use crate::text::{concat, contains, contains_text, opt_text};
use crate::token_estimate_cache::TokenEstimateCache;
use vstd::prelude::*;

verus! {

/// The parts of the engine that can be switched off.
#[derive(Debug, Clone, Copy, PartialEq, Eq, Structural)]
pub struct Features {
    pub shell_tool: bool,
    pub mcp: bool,
    pub subagents: bool,
    pub apply_patch: bool,
    pub web_search: bool,
    pub vision_model: bool,
}

/// When the context is made shorter.
#[derive(Debug, Clone, Copy, PartialEq, Eq, Structural)]
pub struct CompactionConfig {
    pub enabled: bool,
    pub token_threshold: usize,
}

/// What a provider's route holds.
#[derive(Debug, Clone, Copy, PartialEq, Eq, Structural)]
pub struct RouteLimits {
    pub context_tokens: Option<u64>,
    pub output_tokens: Option<u64>,
}

/// The settings of an engine.
#[derive(Debug)]
pub struct EngineConfig {
    pub model: String,
    pub active_route_limits: Option<RouteLimits>,
    pub workspace: String,
    pub allow_shell: bool,
    pub trust_mode: bool,
    pub notes_path: String,
    pub mcp_config_path: String,
    pub skills_dir: String,
    pub skills_scan_codewhale_only: bool,
    pub instructions: Vec<String>,
    pub project_context_pack_enabled: bool,
    pub translation_enabled: bool,
    pub show_thinking: bool,
    pub verbosity: Option<String>,
    pub max_steps: u32,
    pub max_subagents: usize,
    pub max_admitted_subagents: usize,
    pub launch_concurrency: usize,
    pub subagents_enabled: bool,
    pub features: Features,
    pub compaction: CompactionConfig,
    pub max_spawn_depth: u32,
    pub subagent_token_budget: Option<u64>,
    pub snapshots_enabled: bool,
    pub snapshots_max_workspace_bytes: u64,
    pub lsp_enabled: bool,
    pub memory_enabled: bool,
    pub moraine_fallback: bool,
    pub memory_path: String,
    pub speech_output_dir: Option<String>,
    pub goal_objective: Option<String>,
    pub goal_token_budget: Option<u32>,
    pub goal_status: GoalStatus,
    pub allowed_tools: Option<Vec<String>>,
    pub disallowed_tools: Option<Vec<String>>,
    /// The number under which the host keeps the hooks.
    pub hook_executor: Option<u64>,
    pub locale_tag: String,
    pub strict_tool_mode: bool,
    pub search_api_key: Option<String>,
    pub search_base_url: Option<String>,
    pub subagent_api_timeout_secs: u64,
    pub stream_chunk_timeout_secs: u64,
    pub subagent_heartbeat_timeout_secs: u64,
    pub tools_always_load: Vec<String>,
    pub prefer_bwrap: bool,
    pub plugin_dir: Option<String>,
    pub workspace_follow_symlinks: bool,
}

/// What the settings are where nothing else is said, as far as it comes from
/// other parts of the program.
#[derive(Debug)]
pub struct ConfigDefaults {
    pub text_model: String,
    pub skills_dir: String,
    pub features: Features,
    pub compaction: CompactionConfig,
    pub max_subagents: usize,
    pub max_spawn_depth: u32,
    pub snapshot_workspace_bytes: u64,
    pub subagent_api_timeout_secs: u64,
    pub stream_chunk_timeout_secs: u64,
    pub subagent_heartbeat_timeout_secs: u64,
}

impl EngineConfig {
    /// The settings where nothing else is said.
    pub fn with_defaults(d: ConfigDefaults) -> (r: Self)
        ensures
            r.model == d.text_model,
            r.active_route_limits is None,
            r.workspace@ == "."@,
            r.allow_shell,
            !r.trust_mode,
            r.notes_path@ == "notes.txt"@,
            r.mcp_config_path@ == "mcp.json"@,
            r.skills_dir == d.skills_dir,
            !r.skills_scan_codewhale_only,
            r.instructions@.len() == 0,
            r.project_context_pack_enabled,
            !r.translation_enabled,
            r.show_thinking,
            r.verbosity is None,
            r.max_steps == 1000,
            r.max_subagents == d.max_subagents,
            r.max_admitted_subagents == d.max_subagents,
            r.launch_concurrency == d.max_subagents,
            r.subagents_enabled,
            r.features == d.features,
            r.compaction == d.compaction,
            r.max_spawn_depth == d.max_spawn_depth,
            r.subagent_token_budget is None,
            r.snapshots_enabled,
            r.snapshots_max_workspace_bytes == d.snapshot_workspace_bytes,
            !r.lsp_enabled,
            !r.memory_enabled,
            !r.moraine_fallback,
            r.memory_path@ == "./memory.md"@,
            r.speech_output_dir is None,
            r.goal_objective is None,
            r.goal_token_budget is None,
            r.goal_status == GoalStatus::Active,
            r.allowed_tools is None,
            r.disallowed_tools is None,
            r.hook_executor is None,
            r.locale_tag@ == "en"@,
            !r.strict_tool_mode,
            r.search_api_key is None,
            r.search_base_url is None,
            r.subagent_api_timeout_secs == d.subagent_api_timeout_secs,
            r.stream_chunk_timeout_secs == d.stream_chunk_timeout_secs,
            r.subagent_heartbeat_timeout_secs == d.subagent_heartbeat_timeout_secs,
            r.tools_always_load@.len() == 0,
            !r.prefer_bwrap,
            r.plugin_dir is None,
            !r.workspace_follow_symlinks,
    {
        EngineConfig {
            model: d.text_model,
            active_route_limits: None,
            workspace: ".".to_owned(),
            allow_shell: true,
            trust_mode: false,
            notes_path: "notes.txt".to_owned(),
            mcp_config_path: "mcp.json".to_owned(),
            skills_dir: d.skills_dir,
            skills_scan_codewhale_only: false,
            instructions: Vec::new(),
            project_context_pack_enabled: true,
            translation_enabled: false,
            show_thinking: true,
            verbosity: None,
            max_steps: 1000,
            max_subagents: d.max_subagents,
            max_admitted_subagents: d.max_subagents,
            launch_concurrency: d.max_subagents,
            subagents_enabled: true,
            features: d.features,
            compaction: d.compaction,
            max_spawn_depth: d.max_spawn_depth,
            subagent_token_budget: None,
            snapshots_enabled: true,
            snapshots_max_workspace_bytes: d.snapshot_workspace_bytes,
            lsp_enabled: false,
            memory_enabled: false,
            moraine_fallback: false,
            memory_path: "./memory.md".to_owned(),
            speech_output_dir: None,
            goal_objective: None,
            goal_token_budget: None,
            goal_status: GoalStatus::Active,
            allowed_tools: None,
            disallowed_tools: None,
            hook_executor: None,
            locale_tag: "en".to_owned(),
            strict_tool_mode: false,
            search_api_key: None,
            search_base_url: None,
            subagent_api_timeout_secs: d.subagent_api_timeout_secs,
            stream_chunk_timeout_secs: d.stream_chunk_timeout_secs,
            subagent_heartbeat_timeout_secs: d.subagent_heartbeat_timeout_secs,
            tools_always_load: Vec::new(),
            prefer_bwrap: false,
            plugin_dir: None,
            workspace_follow_symlinks: false,
        }
    }
}

/// The connection to a provider.
#[derive(Debug)]
pub struct ClientState {
    /// The provider of the client that is set up, where one is.
    pub connected: Option<String>,
    /// Why no client could be set up.
    pub error: Option<String>,
}

/// The thresholds at which a part of the context is summed up.
#[derive(Debug)]
pub struct SeamConfig {
    pub enabled: bool,
    pub verbatim_window_turns: usize,
    pub l1_threshold: usize,
    pub l2_threshold: usize,
    pub l3_threshold: usize,
    pub seam_model: String,
}

/// What the user set of the thresholds.
#[derive(Debug)]
pub struct SeamSettings {
    pub enabled: Option<bool>,
    pub verbatim_window_turns: Option<usize>,
    pub l1_threshold: Option<usize>,
    pub l2_threshold: Option<usize>,
    pub l3_threshold: Option<usize>,
    pub seam_model: Option<String>,
}

/// A number that was set, or the usual one.
pub open spec fn set_or(value: Option<usize>, usual: usize) -> usize {
    match value {
        Some(v) => v,
        None => usual,
    }
}

fn number_or(value: Option<usize>, usual: usize) -> (r: usize)
    ensures
        r == set_or(value, usual),
{
    match value {
        Some(v) => v,
        None => usual,
    }
}

/// The thresholds: what was set, and for the rest the usual ones. Summing up is
/// off where nothing is said.
pub open spec fn seam_of(settings: SeamSettings, usual: SeamConfig) -> SeamConfig {
    SeamConfig {
        enabled: settings.enabled == Some(true),
        verbatim_window_turns: set_or(settings.verbatim_window_turns, usual.verbatim_window_turns),
        l1_threshold: set_or(settings.l1_threshold, usual.l1_threshold),
        l2_threshold: set_or(settings.l2_threshold, usual.l2_threshold),
        l3_threshold: set_or(settings.l3_threshold, usual.l3_threshold),
        seam_model: match settings.seam_model {
            Some(m) => m,
            None => usual.seam_model,
        },
    }
}

/// The thresholds: what was set, and for the rest the usual ones. Summing up is
/// off where nothing is said.
pub fn seam_config(settings: SeamSettings, usual: SeamConfig) -> (r: SeamConfig)
    ensures
        r == seam_of(settings, usual),
{
    SeamConfig {
        enabled: match settings.enabled {
            Some(b) => b,
            None => false,
        },
        verbatim_window_turns: number_or(
            settings.verbatim_window_turns,
            usual.verbatim_window_turns,
        ),
        l1_threshold: number_or(settings.l1_threshold, usual.l1_threshold),
        l2_threshold: number_or(settings.l2_threshold, usual.l2_threshold),
        l3_threshold: number_or(settings.l3_threshold, usual.l3_threshold),
        seam_model: match settings.seam_model {
            Some(m) => m,
            None => usual.seam_model,
        },
    }
}

/// The engine, without the channels and connections of its host.
#[derive(Debug)]
pub struct Engine {
    pub config: EngineConfig,
    pub session: Session,
    pub provider: String,
    pub client: ClientState,
    pub api_key_env_only_recovery: Option<String>,
    pub active_route_limits: Option<RouteLimits>,
    pub seam: Option<SeamConfig>,
    pub turn_counter: u64,
    pub current_mode: AppMode,
    pub pending_lsp_blocks: Vec<DiagnosticBlock>,
    pub token_estimate_cache: TokenEstimateCache,
}

/// The hint for a key that only the environment holds.
pub open spec fn env_key_hint(env_var: Seq<char>, provider: Seq<char>) -> Seq<char> {
    "The rejected key came from "@ + env_var
        + "; no saved config key is present.\nRun `codewhale auth status` to inspect credential sources, then `codewhale auth set --provider "@
        + provider
        + "` to save a valid key in ~/.codewhale/config.toml, or remove the stale export and open a fresh shell."@
}

/// The hint for a key that only the environment holds; none where the key is
/// held elsewhere.
pub fn env_only_api_key_recovery_hint(
    uses_env_only_key: bool,
    env_var: &str,
    provider: &str,
) -> (r: Option<String>)
    ensures
        opt_text(r) == (if uses_env_only_key {
            Some(env_key_hint(env_var@, provider@))
        } else {
            None
        }),
{
    if !uses_env_only_key {
        return None;
    }
    let mut out = concat("The rejected key came from ", env_var);
    out.append(
        "; no saved config key is present.\nRun `codewhale auth status` to inspect credential sources, then `codewhale auth set --provider ",
    );
    out.append(provider);
    out.append(
        "` to save a valid key in ~/.codewhale/config.toml, or remove the stale export and open a fresh shell.",
    );
    Some(out)
}

/// A message about a rejected key with the hint for it, which is not given
/// twice.
pub open spec fn decorated(
    message: Seq<char>,
    hint: Option<Seq<char>>,
    about_authentication: bool,
) -> Seq<char> {
    match hint {
        Some(h) => if about_authentication && !contains_text(
            message,
            "no saved config key is present"@,
        ) {
            message + "\n\n"@ + h
        } else {
            message
        },
        None => message,
    }
}

/// What the goal takes over when an engine begins: the objective of the settings,
/// where there is one, with its budget and its status.
pub open spec fn seeded_goal(config: EngineConfig) -> Seq<EventView> {
    match objective_of(opt_text(config.goal_objective)) {
        Some(objective) => seq![
            EventView::GoalSynced {
                objective: Some(objective),
                token_budget: config.goal_token_budget,
                status: config.goal_status,
            },
        ],
        None => Seq::empty(),
    }
}

impl EngineConfig {
    /// What the goal takes over when an engine begins. The goal takes it over
    /// before the first prompt is made, since that speaks of the goal.
    pub fn seed_goal(&self) -> (r: Vec<Event>)
        ensures
            event_views(r@) == seeded_goal(*self),
    {
        let mut events = no_events();
        let objective = normalized_goal_objective(
            match &self.goal_objective {
                Some(t) => Some(t.as_str()),
                None => None,
            },
        );
        if let Some(text) = objective {
            let ghost synced = EventView::GoalSynced {
                objective: Some(text@),
                token_budget: self.goal_token_budget,
                status: self.goal_status,
            };
            tell(
                &mut events,
                Event::GoalSynced {
                    objective: Some(text),
                    token_budget: self.goal_token_budget,
                    status: self.goal_status,
                },
            );
            assert(event_views(events@) =~= seq![synced]);
        }
        events
    }
}

impl Engine {
    /// An engine that has handled no request yet, with a new session, and what
    /// the goal takes over from the settings. `connected` is the provider of the
    /// client that could be set up, or why none could; `system_prompt` is the
    /// prompt that was put together for the settings.
    pub fn new(
        config: EngineConfig,
        provider: String,
        connected: Result<String, String>,
        api_key_env_only_recovery: Option<String>,
        project_context: Option<String>,
        system_prompt: SystemPrompt,
        seam_settings: SeamSettings,
        usual_seam: SeamConfig,
    ) -> (out: (Self, Vec<Event>))
        ensures
            out.0.config == config,
            is_random_id(out.0.session.id@),
            out.0.session.model == config.model,
            out.0.session.workspace == config.workspace,
            out.0.session.allow_shell == config.allow_shell,
            out.0.session.trust_mode == config.trust_mode,
            out.0.session.notes_path == config.notes_path,
            out.0.session.mcp_config_path == config.mcp_config_path,
            out.0.session.project_context == project_context,
            out.0.session.system_prompt == Some(system_prompt),
            out.0.session.last_system_prompt_hash == Some(
                crate::engine::metadata::prompt_hash(Some(system_prompt@)),
            ),
            !out.0.session.system_prompt_override,
            out.0.session.compaction_summary_prompt is None,
            out.0.session.reasoning_effort is None,
            !out.0.session.reasoning_effort_auto,
            !out.0.session.auto_model,
            out.0.session.messages@.len() == 0,
            out.0.session.total_usage == no_session_usage(),
            !out.0.session.auto_approve,
            out.0.session.approval_mode == ApprovalMode::Suggest,
            out.0.session.messages_revision == 0,
            out.0.provider == provider,
            out.0.client.connected == (match connected {
                Ok(p) => Some(p),
                Err(_) => None,
            }),
            out.0.client.error == (match connected {
                Ok(_) => None,
                Err(e) => Some(e),
            }),
            out.0.api_key_env_only_recovery == api_key_env_only_recovery,
            out.0.active_route_limits == config.active_route_limits,
            out.0.seam == (match connected {
                Ok(_) => Some(seam_of(seam_settings, usual_seam)),
                Err(_) => None,
            }),
            out.0.turn_counter == 0,
            out.0.current_mode == AppMode::Agent,
            out.0.pending_lsp_blocks@.len() == 0,
            out.0.token_estimate_cache@ == crate::token_estimate_cache::empty_cache(),
            event_views(out.1@) == seeded_goal(config),
    {
        let events = config.seed_goal();
        let mut session = Session::new(
            config.model.clone(),
            config.workspace.clone(),
            config.allow_shell,
            config.trust_mode,
            config.notes_path.clone(),
            config.mcp_config_path.clone(),
            project_context,
        );
        session.last_system_prompt_hash = Some(
            crate::engine::metadata::system_prompt_hash(Some(&system_prompt)),
        );
        session.system_prompt = Some(system_prompt);
        let active_route_limits = config.active_route_limits;
        let (client, seam) = match connected {
            Ok(p) => (
                ClientState { connected: Some(p), error: None },
                Some(seam_config(seam_settings, usual_seam)),
            ),
            Err(e) => (ClientState { connected: None, error: Some(e) }, None),
        };
        let engine = Engine {
            config,
            session,
            provider,
            client,
            api_key_env_only_recovery,
            active_route_limits,
            seam,
            turn_counter: 0,
            current_mode: AppMode::Agent,
            pending_lsp_blocks: Vec::new(),
            token_estimate_cache: TokenEstimateCache::new(),
        };
        (engine, events)
    }

    /// The engine with the permissions of a turn.
    pub open spec fn with_authority(self, a: TurnAuthority) -> Engine {
        Engine {
            current_mode: a.mode,
            session: Session {
                allow_shell: a.allow_shell,
                trust_mode: a.trust_mode,
                auto_approve: a.auto_approve,
                approval_mode: crate::authority::session_approval(a.auto_approve, a.approval_mode),
                ..self.session
            },
            config: EngineConfig {
                allow_shell: a.allow_shell,
                trust_mode: a.trust_mode,
                ..self.config
            },
            ..self
        }
    }

    /// Takes over the permissions of a turn.
    pub fn apply_runtime_mode_policy(&mut self, authority: &TurnAuthority)
        ensures
            *final(self) == old(self).with_authority(*authority),
    {
        self.current_mode = authority.mode;
        self.session.allow_shell = authority.allow_shell;
        self.config.allow_shell = authority.allow_shell;
        self.session.trust_mode = authority.trust_mode;
        self.config.trust_mode = authority.trust_mode;
        self.session.auto_approve = authority.auto_approve;
        self.session.approval_mode = authority.approval_mode_for_session();
    }

    /// A message with the hint for a rejected key, where one is known and the
    /// message is about authentication.
    pub fn decorate_auth_error_message(&self, message: String, about_authentication: bool) -> (r:
        String)
        ensures
            r@ == decorated(
                message@,
                opt_text(self.api_key_env_only_recovery),
                about_authentication,
            ),
    {
        match &self.api_key_env_only_recovery {
            Some(hint) => {
                if !about_authentication || contains(
                    message.as_str(),
                    "no saved config key is present",
                ) {
                    return message;
                }
                let mut out = concat(message.as_str(), "\n\n");
                out.append(hint.as_str());
                out
            },
            None => message,
        }
    }
}

/// The hint is given at most once: a message that holds it stays as it is.
pub proof fn law_hint_is_given_once(
    message: Seq<char>,
    env_var: Seq<char>,
    provider: Seq<char>,
    about_authentication: bool,
)
    ensures
        ({
            let hint = Some(env_key_hint(env_var, provider));
            let once = decorated(message, hint, about_authentication);
            decorated(once, hint, about_authentication) == once
        }),
{
    let hint = env_key_hint(env_var, provider);
    let once = decorated(message, Some(hint), about_authentication);
    if about_authentication && !contains_text(message, "no saved config key is present"@) {
        let key = "no saved config key is present"@;
        let head = "The rejected key came from "@ + env_var;
        let tail = "; no saved config key is present.\nRun `codewhale auth status` to inspect credential sources, then `codewhale auth set --provider "@;
        reveal_strlit("no saved config key is present");
        reveal_strlit(
            "; no saved config key is present.\nRun `codewhale auth status` to inspect credential sources, then `codewhale auth set --provider ",
        );
        let at = message.len() + "\n\n"@.len() + head.len() + 2;
        assert(once.subrange(at as int, at + key.len() as int) =~= key);
        assert(crate::text::occurs_at(once, key, at as int));
    }
}

} // verus!
