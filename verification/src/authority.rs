//! What a turn may do: the permissions of each mode, and how they are narrowed
//! by where the input comes from.

use crate::models::AppMode;
use crate::ops::UserInputProvenance;
use crate::text::{concat, opt_text};
use vstd::prelude::*;

verus! {

/// When a tool call needs the user's consent.
#[derive(Debug, Clone, Copy, PartialEq, Eq, Structural)]
pub enum ApprovalMode {
    Auto,
    Suggest,
    Never,
    Bypass,
}

/// What of the shell a turn may use.
#[derive(Debug, Clone, Copy, PartialEq, Eq, Structural)]
pub enum ShellPolicy {
    Disabled,
    ReadOnly,
    Full,
}

/// What a shell command may touch.
#[derive(Debug)]
pub enum SandboxPolicy {
    ReadOnly,
    WorkspaceWrite {
        writable_roots: Vec<String>,
        network_access: bool,
        exclude_tmpdir: bool,
        exclude_slash_tmp: bool,
    },
    DangerFullAccess,
}

/// What a shell command may touch, as contracts see it.
#[verifier::ext_equal]
pub enum SandboxView {
    ReadOnly,
    WorkspaceWrite {
        roots: Seq<Seq<char>>,
        network_access: bool,
        exclude_tmpdir: bool,
        exclude_slash_tmp: bool,
    },
    DangerFullAccess,
}

impl View for SandboxPolicy {
    type V = SandboxView;

    open spec fn view(&self) -> SandboxView {
        match self {
            SandboxPolicy::ReadOnly => SandboxView::ReadOnly,
            SandboxPolicy::WorkspaceWrite {
                writable_roots,
                network_access,
                exclude_tmpdir,
                exclude_slash_tmp,
            } => SandboxView::WorkspaceWrite {
                roots: crate::text::texts(writable_roots@),
                network_access: *network_access,
                exclude_tmpdir: *exclude_tmpdir,
                exclude_slash_tmp: *exclude_slash_tmp,
            },
            SandboxPolicy::DangerFullAccess => SandboxView::DangerFullAccess,
        }
    }
}

/// The permissions that a session returns to when it leaves a special mode.
#[derive(Debug, Clone, Copy, PartialEq, Eq, Structural)]
pub struct ModeSessionPrefs {
    pub agent_allow_shell: bool,
    pub agent_trust_mode: bool,
    pub agent_approval_mode: ApprovalMode,
}

/// The permissions of a mode.
#[derive(Debug, Clone, Copy, PartialEq, Eq, Structural)]
pub struct EffectiveModePolicy {
    pub mode: AppMode,
    pub allow_shell: bool,
    pub trust_mode: bool,
    pub approval_mode: ApprovalMode,
}

/// The permissions of a mode: planning may run the shell where it only reads, is
/// not trusted and asks; full authority has all; and any other mode has those that
/// the session prefers.
pub open spec fn mode_policy(mode: AppMode, prefs: ModeSessionPrefs) -> EffectiveModePolicy {
    match mode {
        AppMode::Plan => EffectiveModePolicy {
            mode,
            allow_shell: true,
            trust_mode: false,
            approval_mode: ApprovalMode::Suggest,
        },
        AppMode::Yolo => EffectiveModePolicy {
            mode,
            allow_shell: true,
            trust_mode: true,
            approval_mode: ApprovalMode::Bypass,
        },
        _ => EffectiveModePolicy {
            mode,
            allow_shell: prefs.agent_allow_shell,
            trust_mode: prefs.agent_trust_mode,
            approval_mode: prefs.agent_approval_mode,
        },
    }
}

/// The permissions of a mode.
pub fn base_policy_for_mode(mode: AppMode, prefs: &ModeSessionPrefs) -> (r: EffectiveModePolicy)
    ensures
        r == mode_policy(mode, *prefs),
{
    match mode {
        AppMode::Plan => EffectiveModePolicy {
            mode,
            allow_shell: true,
            trust_mode: false,
            approval_mode: ApprovalMode::Suggest,
        },
        AppMode::Agent | AppMode::Auto | AppMode::Operate => EffectiveModePolicy {
            mode,
            allow_shell: prefs.agent_allow_shell,
            trust_mode: prefs.agent_trust_mode,
            approval_mode: prefs.agent_approval_mode,
        },
        AppMode::Yolo => EffectiveModePolicy {
            mode,
            allow_shell: true,
            trust_mode: true,
            approval_mode: ApprovalMode::Bypass,
        },
    }
}

/// What one turn may do.
#[derive(Debug)]
pub struct TurnAuthority {
    pub mode: AppMode,
    pub allow_shell: bool,
    pub trust_mode: bool,
    pub auto_approve: bool,
    pub approval_mode: ApprovalMode,
    pub dynamic_active_tools: Vec<&'static str>,
    pub status: Option<String>,
}

/// What one turn may do, as contracts see it.
#[verifier::ext_equal]
pub struct AuthorityView {
    pub mode: AppMode,
    pub allow_shell: bool,
    pub trust_mode: bool,
    pub auto_approve: bool,
    pub approval_mode: ApprovalMode,
    pub dynamic_active_tools: Seq<Seq<char>>,
    pub status: Option<Seq<char>>,
}

impl View for TurnAuthority {
    type V = AuthorityView;

    open spec fn view(&self) -> AuthorityView {
        AuthorityView {
            mode: self.mode,
            allow_shell: self.allow_shell,
            trust_mode: self.trust_mode,
            auto_approve: self.auto_approve,
            approval_mode: self.approval_mode,
            dynamic_active_tools: crate::text::consts(self.dynamic_active_tools@),
            status: opt_text(self.status),
        }
    }
}

/// An authority made of its parts.
pub open spec fn authority_of(
    mode: AppMode,
    allow_shell: bool,
    trust_mode: bool,
    auto_approve: bool,
    approval_mode: ApprovalMode,
    status: Option<Seq<char>>,
) -> AuthorityView {
    AuthorityView {
        mode,
        allow_shell,
        trust_mode,
        auto_approve,
        approval_mode,
        dynamic_active_tools: Seq::empty(),
        status,
    }
}

impl TurnAuthority {
    /// An authority made of its parts.
    pub fn from_effective_fields(
        mode: AppMode,
        allow_shell: bool,
        trust_mode: bool,
        auto_approve: bool,
        approval_mode: ApprovalMode,
    ) -> (r: Self)
        ensures
            r@ == authority_of(mode, allow_shell, trust_mode, auto_approve, approval_mode, None),
    {
        let none: Vec<&'static str> = Vec::new();
        proof {
            assert(crate::text::consts(none@) =~= Seq::empty());
        }
        TurnAuthority {
            mode,
            allow_shell,
            trust_mode,
            auto_approve,
            approval_mode,
            dynamic_active_tools: none,
            status: None,
        }
    }

    /// The approval mode that the session is left with.
    pub fn approval_mode_for_session(&self) -> (r: ApprovalMode)
        ensures
            r == session_approval(self@.auto_approve, self@.approval_mode),
    {
        agent_approval_mode_for_turn(self.auto_approve, self.approval_mode)
    }

    /// What of the shell the turn may use.
    pub fn shell_policy(&self) -> (r: ShellPolicy)
        ensures
            r == shell_of(self@.mode, self@.allow_shell),
    {
        shell_policy_for_mode(self.mode, self.allow_shell)
    }

    /// What a shell command of the turn may touch.
    pub fn sandbox_policy(&self, workspace: &str) -> (r: SandboxPolicy)
        ensures
            r@ == sandbox_of(self@.mode, workspace@),
    {
        sandbox_policy_for_mode(self.mode, workspace)
    }
}

/// Input that keeps the authority a session stands on.
pub open spec fn inherits_authority(provenance: UserInputProvenance) -> bool {
    ||| provenance == UserInputProvenance::ExternalUser
    ||| provenance == UserInputProvenance::Runtime
    ||| provenance == UserInputProvenance::SubAgentHandoff
}

/// Whether input keeps the authority a session stands on.
pub fn provenance_can_inherit_standing_auto_authority(provenance: UserInputProvenance) -> (r: bool)
    ensures
        r == inherits_authority(provenance),
{
    provenance == UserInputProvenance::ExternalUser || provenance == UserInputProvenance::Runtime
        || provenance == UserInputProvenance::SubAgentHandoff
}

/// What the user is told when authority is taken away.
pub open spec fn narrowing_notice(provenance: UserInputProvenance) -> Seq<char> {
    "Input provenance '"@ + provenance.word()
        + "' cannot inherit standing auto-approval authority; continuing with approvals required."@
}

/// The authority of a turn: what was requested, or, where the input may not
/// keep standing authority, the same without trust, without automatic consent
/// and outside the mode of full authority.
pub open spec fn input_policy(
    provenance: UserInputProvenance,
    mode: AppMode,
    allow_shell: bool,
    trust_mode: bool,
    auto_approve: bool,
    approval_mode: ApprovalMode,
) -> AuthorityView {
    if inherits_authority(provenance) {
        authority_of(mode, allow_shell, trust_mode, auto_approve, approval_mode, None)
    } else {
        authority_of(
            if mode == AppMode::Yolo {
                AppMode::Agent
            } else {
                mode
            },
            allow_shell,
            false,
            false,
            if approval_mode == ApprovalMode::Auto || approval_mode == ApprovalMode::Bypass {
                ApprovalMode::Suggest
            } else {
                approval_mode
            },
            if mode == AppMode::Yolo || trust_mode || auto_approve || approval_mode
                == ApprovalMode::Bypass {
                Some(narrowing_notice(provenance))
            } else {
                None
            },
        )
    }
}

/// The authority of a turn, after what its input may keep was taken into
/// account.
pub fn effective_input_policy(
    provenance: UserInputProvenance,
    requested_mode: AppMode,
    _content: &str,
    allow_shell: bool,
    trust_mode: bool,
    auto_approve: bool,
    approval_mode: ApprovalMode,
) -> (r: TurnAuthority)
    ensures
        r@ == input_policy(
            provenance,
            requested_mode,
            allow_shell,
            trust_mode,
            auto_approve,
            approval_mode,
        ),
{
    if provenance_can_inherit_standing_auto_authority(provenance) {
        return TurnAuthority::from_effective_fields(
            requested_mode,
            allow_shell,
            trust_mode,
            auto_approve,
            approval_mode,
        );
    }
    let had_auto_authority = requested_mode == AppMode::Yolo || trust_mode || auto_approve
        || approval_mode == ApprovalMode::Bypass;
    let mode = if requested_mode == AppMode::Yolo {
        AppMode::Agent
    } else {
        requested_mode
    };
    let approval = if approval_mode == ApprovalMode::Auto || approval_mode == ApprovalMode::Bypass {
        ApprovalMode::Suggest
    } else {
        approval_mode
    };
    let mut r = TurnAuthority::from_effective_fields(mode, allow_shell, false, false, approval);
    if had_auto_authority {
        let mut notice = concat("Input provenance '", provenance.as_str());
        notice.append(
            "' cannot inherit standing auto-approval authority; continuing with approvals required.",
        );
        r.status = Some(notice);
    }
    r
}

/// The approval mode that a session is left with: automatic consent bypasses
/// approvals.
pub open spec fn session_approval(auto_approve: bool, approval_mode: ApprovalMode) -> ApprovalMode {
    if auto_approve {
        ApprovalMode::Bypass
    } else {
        approval_mode
    }
}

/// The approval mode that a session is left with.
pub fn agent_approval_mode_for_turn(auto_approve: bool, approval_mode: ApprovalMode) -> (r:
    ApprovalMode)
    ensures
        r == session_approval(auto_approve, approval_mode),
{
    if auto_approve {
        ApprovalMode::Bypass
    } else {
        approval_mode
    }
}

/// What a shell command may touch in a mode.
pub open spec fn sandbox_of(mode: AppMode, workspace: Seq<char>) -> SandboxView {
    match mode {
        AppMode::Plan => SandboxView::ReadOnly,
        AppMode::Yolo => SandboxView::DangerFullAccess,
        _ => SandboxView::WorkspaceWrite {
            roots: seq![workspace],
            network_access: true,
            exclude_tmpdir: false,
            exclude_slash_tmp: false,
        },
    }
}

/// What a shell command may touch in a mode.
pub fn sandbox_policy_for_mode(mode: AppMode, workspace: &str) -> (r: SandboxPolicy)
    ensures
        r@ == sandbox_of(mode, workspace@),
{
    match mode {
        AppMode::Plan => SandboxPolicy::ReadOnly,
        AppMode::Agent | AppMode::Auto | AppMode::Operate => {
            let roots = vec![workspace.to_owned()];
            proof {
                assert(crate::text::texts(roots@) =~= seq![workspace@]);
            }
            SandboxPolicy::WorkspaceWrite {
                writable_roots: roots,
                network_access: true,
                exclude_tmpdir: false,
                exclude_slash_tmp: false,
            }
        },
        AppMode::Yolo => SandboxPolicy::DangerFullAccess,
    }
}

/// What of the shell a turn may use: all of it where the session allows it and
/// the mode is not planning.
pub open spec fn shell_of(mode: AppMode, allow_shell: bool) -> ShellPolicy {
    if allow_shell && mode != AppMode::Plan {
        ShellPolicy::Full
    } else {
        ShellPolicy::Disabled
    }
}

/// What of the shell a turn may use.
pub fn shell_policy_for_mode(mode: AppMode, allow_shell: bool) -> (r: ShellPolicy)
    ensures
        r == shell_of(mode, allow_shell),
{
    if !allow_shell {
        return ShellPolicy::Disabled;
    }
    match mode {
        AppMode::Plan => ShellPolicy::Disabled,
        AppMode::Agent | AppMode::Auto | AppMode::Operate | AppMode::Yolo => ShellPolicy::Full,
    }
}

/// Input that does not come from the user, the runtime or a sub-agent never
/// runs with standing authority: without trust, without automatic consent, and
/// every call that needs consent is asked for.
pub proof fn law_foreign_input_has_no_standing_authority(
    provenance: UserInputProvenance,
    mode: AppMode,
    allow_shell: bool,
    trust_mode: bool,
    auto_approve: bool,
    approval_mode: ApprovalMode,
)
    requires
        !inherits_authority(provenance),
    ensures
        ({
            let p = input_policy(
                provenance,
                mode,
                allow_shell,
                trust_mode,
                auto_approve,
                approval_mode,
            );
            &&& p.mode != AppMode::Yolo
            &&& !p.trust_mode
            &&& !p.auto_approve
            &&& p.approval_mode == ApprovalMode::Suggest || p.approval_mode == ApprovalMode::Never
            &&& session_approval(p.auto_approve, p.approval_mode) == p.approval_mode
            &&& forall|w: Seq<char>| sandbox_of(p.mode, w) !is DangerFullAccess
        }),
{
}

/// Authority is never widened: whatever a turn may do was requested.
pub proof fn law_authority_is_never_widened(
    provenance: UserInputProvenance,
    mode: AppMode,
    allow_shell: bool,
    trust_mode: bool,
    auto_approve: bool,
    approval_mode: ApprovalMode,
)
    ensures
        ({
            let p = input_policy(
                provenance,
                mode,
                allow_shell,
                trust_mode,
                auto_approve,
                approval_mode,
            );
            &&& p.allow_shell == allow_shell
            &&& p.trust_mode ==> trust_mode
            &&& p.auto_approve ==> auto_approve
            &&& p.mode == mode || (mode == AppMode::Yolo && p.mode == AppMode::Agent)
            &&& p.approval_mode == approval_mode || p.approval_mode == ApprovalMode::Suggest
        }),
{
}

/// Planning never gets the shell among its tools, never writes and never goes
/// without asking, whatever the session allows.
pub proof fn law_planning_never_writes(
    allow_shell: bool,
    workspace: Seq<char>,
    prefs: ModeSessionPrefs,
)
    ensures
        shell_of(AppMode::Plan, allow_shell) == ShellPolicy::Disabled,
        sandbox_of(AppMode::Plan, workspace) is ReadOnly,
        shell_of(AppMode::Plan, mode_policy(AppMode::Plan, prefs).allow_shell)
            == ShellPolicy::Disabled,
        !mode_policy(AppMode::Plan, prefs).trust_mode,
        mode_policy(AppMode::Plan, prefs).approval_mode == ApprovalMode::Suggest,
{
}

} // verus!
