//! A conversation and what it has used.

use crate::authority::ApprovalMode;
use crate::ids::{is_random_id, random_id};
use crate::models::{Message, SystemPrompt, Usage};
use vstd::prelude::*;

verus! {

/// The tokens that a session used.
#[derive(Debug, Clone, Copy, PartialEq, Eq, Structural)]
pub struct SessionUsage {
    pub input_tokens: u64,
    pub output_tokens: u64,
    pub cache_creation_input_tokens: Option<u64>,
    pub cache_read_input_tokens: Option<u64>,
}

impl Default for SessionUsage {
    fn default() -> (r: Self)
        ensures
            r == no_session_usage(),
    {
        SessionUsage {
            input_tokens: 0,
            output_tokens: 0,
            cache_creation_input_tokens: None,
            cache_read_input_tokens: None,
        }
    }
}

/// Nothing used, and nothing reported about caches.
pub open spec fn no_session_usage() -> SessionUsage {
    SessionUsage {
        input_tokens: 0,
        output_tokens: 0,
        cache_creation_input_tokens: None,
        cache_read_input_tokens: None,
    }
}

/// A count that was never reported is zero.
pub open spec fn count(total: Option<u64>) -> int {
    match total {
        Some(n) => n as int,
        None => 0,
    }
}

/// A count after one more report: it stays unreported until a report brings it.
pub open spec fn counted(total: Option<u64>, report: Option<u32>) -> Option<u64> {
    match report {
        Some(n) => Some((count(total) + n) as u64),
        None => total,
    }
}

/// The usage of a session after one more request.
pub open spec fn usage_after(total: SessionUsage, usage: Usage) -> SessionUsage {
    SessionUsage {
        input_tokens: (total.input_tokens + usage.input_tokens) as u64,
        output_tokens: (total.output_tokens + usage.output_tokens) as u64,
        cache_creation_input_tokens: counted(
            total.cache_creation_input_tokens,
            usage.prompt_cache_miss_tokens,
        ),
        cache_read_input_tokens: counted(
            total.cache_read_input_tokens,
            usage.prompt_cache_hit_tokens,
        ),
    }
}

/// The counters of a session have room for one more request.
pub open spec fn usage_fits(total: SessionUsage, usage: Usage) -> bool {
    &&& total.input_tokens + usage.input_tokens <= u64::MAX
    &&& total.output_tokens + usage.output_tokens <= u64::MAX
    &&& usage.prompt_cache_miss_tokens matches Some(n) ==> count(total.cache_creation_input_tokens)
        + n <= u64::MAX
    &&& usage.prompt_cache_hit_tokens matches Some(n) ==> count(total.cache_read_input_tokens) + n
        <= u64::MAX
}

impl SessionUsage {
    /// Adds what a request used.
    pub fn add(&mut self, usage: &Usage)
        requires
            usage_fits(*old(self), *usage),
        ensures
            *final(self) == usage_after(*old(self), *usage),
    {
        self.input_tokens = self.input_tokens + usage.input_tokens as u64;
        self.output_tokens = self.output_tokens + usage.output_tokens as u64;
        if let Some(tokens) = usage.prompt_cache_miss_tokens {
            let so_far: u64 = match self.cache_creation_input_tokens {
                Some(n) => n,
                None => 0,
            };
            self.cache_creation_input_tokens = Some(so_far + tokens as u64);
        }
        if let Some(tokens) = usage.prompt_cache_hit_tokens {
            let so_far: u64 = match self.cache_read_input_tokens {
                Some(n) => n,
                None => 0,
            };
            self.cache_read_input_tokens = Some(so_far + tokens as u64);
        }
    }
}

/// What a provider does not report stays unreported, and what it reports, be it
/// zero, is counted.
pub proof fn law_unreported_stays_unreported(total: SessionUsage, usage: Usage)
    requires
        usage_fits(total, usage),
    ensures
        usage.prompt_cache_hit_tokens is None ==> usage_after(total, usage).cache_read_input_tokens
            == total.cache_read_input_tokens,
        usage.prompt_cache_miss_tokens is None ==> usage_after(
            total,
            usage,
        ).cache_creation_input_tokens == total.cache_creation_input_tokens,
        usage.prompt_cache_hit_tokens is Some ==> usage_after(total, usage).cache_read_input_tokens
            is Some,
        usage.prompt_cache_miss_tokens is Some ==> usage_after(
            total,
            usage,
        ).cache_creation_input_tokens is Some,
{
}

/// A conversation with its settings.
#[derive(Debug)]
pub struct Session {
    pub model: String,
    pub reasoning_effort: Option<String>,
    pub reasoning_effort_auto: bool,
    pub auto_model: bool,
    pub workspace: String,
    pub system_prompt: Option<SystemPrompt>,
    pub system_prompt_override: bool,
    pub last_system_prompt_hash: Option<u64>,
    pub compaction_summary_prompt: Option<SystemPrompt>,
    pub messages: Vec<Message>,
    pub total_usage: SessionUsage,
    pub allow_shell: bool,
    pub trust_mode: bool,
    pub auto_approve: bool,
    pub approval_mode: ApprovalMode,
    pub notes_path: String,
    pub mcp_config_path: String,
    pub id: String,
    pub project_context: Option<String>,
    pub messages_revision: u64,
}

/// The revision after a change: it stops at the largest number.
pub open spec fn next_revision(revision: u64) -> u64 {
    if revision == u64::MAX {
        revision
    } else {
        (revision + 1) as u64
    }
}

impl Session {
    /// A new conversation under the identifier `id`. `project_context` holds
    /// the instructions found for the workspace, where there are any.
    pub fn with_id(
        id: String,
        model: String,
        workspace: String,
        allow_shell: bool,
        trust_mode: bool,
        notes_path: String,
        mcp_config_path: String,
        project_context: Option<String>,
    ) -> (r: Self)
        ensures
            r.id == id,
            r.model == model,
            r.workspace == workspace,
            r.allow_shell == allow_shell,
            r.trust_mode == trust_mode,
            r.notes_path == notes_path,
            r.mcp_config_path == mcp_config_path,
            r.project_context == project_context,
            r.reasoning_effort is None,
            !r.reasoning_effort_auto,
            !r.auto_model,
            r.system_prompt is None,
            !r.system_prompt_override,
            r.last_system_prompt_hash is None,
            r.compaction_summary_prompt is None,
            r.messages@ == Seq::<Message>::empty(),
            r.total_usage == no_session_usage(),
            !r.auto_approve,
            r.approval_mode == ApprovalMode::Suggest,
            r.messages_revision == 0,
    {
        Session {
            model,
            reasoning_effort: None,
            reasoning_effort_auto: false,
            auto_model: false,
            workspace,
            system_prompt: None,
            system_prompt_override: false,
            last_system_prompt_hash: None,
            compaction_summary_prompt: None,
            messages: Vec::new(),
            total_usage: SessionUsage::default(),
            allow_shell,
            trust_mode,
            auto_approve: false,
            approval_mode: ApprovalMode::Suggest,
            notes_path,
            mcp_config_path,
            id,
            project_context,
            messages_revision: 0,
        }
    }

    /// A new conversation under a fresh identifier.
    pub fn new(
        model: String,
        workspace: String,
        allow_shell: bool,
        trust_mode: bool,
        notes_path: String,
        mcp_config_path: String,
        project_context: Option<String>,
    ) -> (r: Self)
        ensures
            is_random_id(r.id@),
            r.model == model,
            r.workspace == workspace,
            r.allow_shell == allow_shell,
            r.trust_mode == trust_mode,
            r.notes_path == notes_path,
            r.mcp_config_path == mcp_config_path,
            r.project_context == project_context,
            r.reasoning_effort is None,
            !r.reasoning_effort_auto,
            !r.auto_model,
            r.system_prompt is None,
            !r.system_prompt_override,
            r.last_system_prompt_hash is None,
            r.compaction_summary_prompt is None,
            r.messages@ == Seq::<Message>::empty(),
            r.total_usage == no_session_usage(),
            !r.auto_approve,
            r.approval_mode == ApprovalMode::Suggest,
            r.messages_revision == 0,
    {
        let id = random_id();
        Session::with_id(
            id,
            model,
            workspace,
            allow_shell,
            trust_mode,
            notes_path,
            mcp_config_path,
            project_context,
        )
    }

    /// Nothing of the session but its messages and their revision differs.
    pub open spec fn same_but_messages(self, other: Session) -> bool {
        self == (Session {
            messages: self.messages,
            messages_revision: self.messages_revision,
            ..other
        })
    }

    /// Adds a message.
    pub fn add_message(&mut self, message: Message)
        ensures
            final(self).messages@ == old(self).messages@.push(message),
            final(self).messages_revision == next_revision(old(self).messages_revision),
            final(self).same_but_messages(*old(self)),
    {
        self.messages.push(message);
        self.messages_revision = self.messages_revision.saturating_add(1);
    }

    /// Replaces all messages.
    pub fn replace_messages(&mut self, messages: Vec<Message>)
        ensures
            final(self).messages == messages,
            final(self).messages_revision == next_revision(old(self).messages_revision),
            final(self).same_but_messages(*old(self)),
    {
        self.messages = messages;
        self.messages_revision = self.messages_revision.saturating_add(1);
    }

    /// Notes that the messages changed.
    pub fn bump_messages_revision(&mut self)
        ensures
            *final(self) == (Session {
                messages_revision: next_revision(old(self).messages_revision),
                ..*old(self)
            }),
    {
        self.messages_revision = self.messages_revision.saturating_add(1);
    }
}

} // verus!
