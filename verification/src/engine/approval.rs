//! Waiting for the user's consent or input.

use crate::authority::SandboxPolicy;
use crate::json::Json;
use crate::models::{ToolError, ToolErrorView};
use crate::text::{concat, decimal, push_decimal, same_text};
use vstd::prelude::*;

verus! {

/// How long the user's input is waited for, in seconds.
pub const USER_INPUT_TIMEOUT_SECS: u64 = 300;

/// Why a request was cancelled.
#[derive(Debug, Clone, Copy, PartialEq, Eq, Structural)]
pub enum CancelReason {
    User,
    External,
    Preempted,
    Internal,
}

impl CancelReason {
    /// What the user is told of a reason.
    pub open spec fn text(self) -> Seq<char> {
        match self {
            CancelReason::User => "user cancelled the request"@,
            CancelReason::External => "request cancelled by external caller"@,
            CancelReason::Preempted => "request was preempted by a new turn"@,
            CancelReason::Internal => "engine torn down before approval resolved"@,
        }
    }

    /// What the user is told of a reason.
    pub fn describe(self) -> (r: &'static str)
        ensures
            r@ == self.text(),
    {
        match self {
            CancelReason::User => "user cancelled the request",
            CancelReason::External => "request cancelled by external caller",
            CancelReason::Preempted => "request was preempted by a new turn",
            CancelReason::Internal => "engine torn down before approval resolved",
        }
    }
}

/// What is added to a message about a cancellation.
pub open spec fn reason_suffix(reason: Option<CancelReason>) -> Seq<char> {
    match reason {
        Some(r) => " (reason: "@ + r.text() + ")"@,
        None => Seq::empty(),
    }
}

/// What is added to a message about a cancellation.
pub fn cancel_reason_suffix(reason: Option<CancelReason>) -> (r: String)
    ensures
        r@ == reason_suffix(reason),
{
    match reason {
        Some(r) => {
            let mut out = concat(" (reason: ", r.describe());
            out.append(")");
            out
        },
        None => String::new(),
    }
}

/// What the user decided about a tool call.
#[derive(Debug)]
pub enum ApprovalDecision {
    Approved { id: String },
    Denied { id: String },
    RetryWithPolicy { id: String, policy: SandboxPolicy },
}

impl ApprovalDecision {
    /// The tool call that was decided about.
    pub open spec fn about(self) -> Seq<char> {
        match self {
            ApprovalDecision::Approved { id } => id@,
            ApprovalDecision::Denied { id } => id@,
            ApprovalDecision::RetryWithPolicy { id, .. } => id@,
        }
    }
}

/// What the user decided about the tool call that is waited for.
#[derive(Debug)]
pub enum ApprovalResult {
    Approved,
    Denied,
    RetryWithPolicy(SandboxPolicy),
}

/// What happened while consent was waited for.
#[derive(Debug)]
pub enum ApprovalEvent {
    /// The request was cancelled.
    Cancelled(Option<CancelReason>),
    /// The user decided about some tool call.
    Decided(ApprovalDecision),
    /// No decision can come any more.
    Closed,
}

/// What is done about it.
#[derive(Debug)]
pub enum Waiting<T> {
    /// The wait is over.
    Over(Result<T, ToolError>),
    /// It goes on.
    GoesOn,
}

/// Decides what an event means for the tool call that is waited for: a
/// cancellation and a closed channel end the wait with an error, a decision
/// about this call ends it, and a decision about another call is passed over.
pub fn await_tool_approval(tool_id: &str, event: ApprovalEvent) -> (r: Waiting<ApprovalResult>)
    ensures
        match event {
            ApprovalEvent::Cancelled(reason) => r matches Waiting::Over(Err(e)) && e@
                == ToolErrorView::ExecutionFailed(
                "Request cancelled while awaiting approval"@ + reason_suffix(reason),
            ),
            ApprovalEvent::Closed => r matches Waiting::Over(Err(e)) && e@
                == ToolErrorView::ExecutionFailed(
                "Approval channel closed — engine is shutting down. The approval modal can no longer reach the engine; this is typically a teardown race, not a user action."@,
            ),
            ApprovalEvent::Decided(decision) => if decision.about() == tool_id@ {
                match decision {
                    ApprovalDecision::Approved { .. } => r matches Waiting::Over(Ok(a)) && a
                        is Approved,
                    ApprovalDecision::Denied { .. } => r matches Waiting::Over(Ok(a)) && a
                        is Denied,
                    ApprovalDecision::RetryWithPolicy { policy, .. } => r matches Waiting::Over(
                        Ok(a),
                    ) && a == ApprovalResult::RetryWithPolicy(policy),
                }
            } else {
                r is GoesOn
            },
        },
{
    match event {
        ApprovalEvent::Cancelled(reason) => {
            let suffix = cancel_reason_suffix(reason);
            Waiting::Over(
                Err(
                    ToolError::ExecutionFailed {
                        message: concat(
                            "Request cancelled while awaiting approval",
                            suffix.as_str(),
                        ),
                    },
                ),
            )
        },
        ApprovalEvent::Closed => Waiting::Over(
            Err(
                ToolError::ExecutionFailed {
                    message: "Approval channel closed — engine is shutting down. The approval modal can no longer reach the engine; this is typically a teardown race, not a user action.".to_owned(),
                },
            ),
        ),
        ApprovalEvent::Decided(decision) => match decision {
            ApprovalDecision::Approved { id } => {
                if same_text(id.as_str(), tool_id) {
                    Waiting::Over(Ok(ApprovalResult::Approved))
                } else {
                    Waiting::GoesOn
                }
            },
            ApprovalDecision::Denied { id } => {
                if same_text(id.as_str(), tool_id) {
                    Waiting::Over(Ok(ApprovalResult::Denied))
                } else {
                    Waiting::GoesOn
                }
            },
            ApprovalDecision::RetryWithPolicy { id, policy } => {
                if same_text(id.as_str(), tool_id) {
                    Waiting::Over(Ok(ApprovalResult::RetryWithPolicy(policy)))
                } else {
                    Waiting::GoesOn
                }
            },
        },
    }
}

/// What the user answered to a question.
#[derive(Debug)]
pub enum UserInputDecision {
    Submitted { id: String, response: Json },
    Cancelled { id: String },
}

/// What happened while input was waited for.
#[derive(Debug)]
pub enum UserInputEvent {
    /// The request was cancelled.
    RequestCancelled(Option<CancelReason>),
    /// The user answered some question, or declined to.
    Decided(UserInputDecision),
    /// No answer can come any more.
    Closed,
    /// No answer came in time.
    TimedOut,
}

/// What is said when no answer came in time.
pub open spec fn timeout_text() -> Seq<char> {
    "User input timed out after "@ + decimal(USER_INPUT_TIMEOUT_SECS as nat) + "s"@
}

fn timeout_message() -> (r: String)
    ensures
        r@ == timeout_text(),
{
    let mut out = "User input timed out after ".to_owned();
    push_decimal(&mut out, USER_INPUT_TIMEOUT_SECS);
    out.append("s");
    out
}

/// Decides what an event means for the question that is waited for. The text in
/// the result is what the user is told besides.
pub fn await_user_input(tool_id: &str, event: UserInputEvent) -> (r: (
    Waiting<Json>,
    Option<String>,
))
    ensures
        event is TimedOut <==> r.1 is Some,
        r.1 matches Some(text) ==> text@ == timeout_text(),
        match event {
            UserInputEvent::RequestCancelled(reason) => r.0 matches Waiting::Over(Err(e)) && e@
                == ToolErrorView::ExecutionFailed(
                "Request cancelled while awaiting user input"@ + reason_suffix(reason),
            ),
            UserInputEvent::Closed => r.0 matches Waiting::Over(Err(e)) && e@
                == ToolErrorView::ExecutionFailed("User input channel closed"@),
            UserInputEvent::TimedOut => r.0 matches Waiting::Over(Err(e)) && e@
                == ToolErrorView::ExecutionFailed(timeout_text()),
            UserInputEvent::Decided(UserInputDecision::Submitted { id, response }) => if id@
                == tool_id@ {
                r.0 matches Waiting::Over(Ok(a)) && a == response
            } else {
                r.0 is GoesOn
            },
            UserInputEvent::Decided(UserInputDecision::Cancelled { id }) => if id@ == tool_id@ {
                r.0 matches Waiting::Over(Err(e)) && e@ == ToolErrorView::ExecutionFailed(
                    "User input cancelled"@,
                )
            } else {
                r.0 is GoesOn
            },
        },
{
    match event {
        UserInputEvent::RequestCancelled(reason) => {
            let suffix = cancel_reason_suffix(reason);
            let message = concat("Request cancelled while awaiting user input", suffix.as_str());
            (Waiting::Over(Err(ToolError::ExecutionFailed { message })), None)
        },
        UserInputEvent::Closed => (
            Waiting::Over(
                Err(
                    ToolError::ExecutionFailed { message: "User input channel closed".to_owned() },
                ),
            ),
            None,
        ),
        UserInputEvent::TimedOut => (
            Waiting::Over(
                Err(
                    ToolError::ExecutionFailed {
                        message: timeout_message(),
                    },
                ),
            ),
            Some(timeout_message()),
        ),
        UserInputEvent::Decided(UserInputDecision::Submitted { id, response }) => {
            if same_text(id.as_str(), tool_id) {
                (Waiting::Over(Ok(response)), None)
            } else {
                (Waiting::GoesOn, None)
            }
        },
        UserInputEvent::Decided(UserInputDecision::Cancelled { id }) => {
            if same_text(id.as_str(), tool_id) {
                (
                    Waiting::Over(
                        Err(
                            ToolError::ExecutionFailed {
                                message: "User input cancelled".to_owned(),
                            },
                        ),
                    ),
                    None,
                )
            } else {
                (Waiting::GoesOn, None)
            }
        },
    }
}

/// The marks that a handle and an engine share.
#[derive(Debug, Clone, Copy, PartialEq, Eq, Structural)]
pub struct ControlMarks {
    pub cancelled: bool,
    pub reason: Option<CancelReason>,
    pub paused: bool,
}

impl ControlMarks {
    /// Nothing is cancelled or paused.
    pub fn new() -> (r: Self)
        ensures
            r == (ControlMarks { cancelled: false, reason: None, paused: false }),
    {
        ControlMarks { cancelled: false, reason: None, paused: false }
    }

    /// The user cancels what runs.
    pub fn cancel(&mut self)
        ensures
            *final(self) == (ControlMarks {
                cancelled: true,
                reason: Some(CancelReason::User),
                ..*old(self)
            }),
    {
        self.cancel_with_reason(CancelReason::User);
    }

    /// What runs is cancelled for a reason.
    pub fn cancel_with_reason(&mut self, reason: CancelReason)
        ensures
            *final(self) == (ControlMarks {
                cancelled: true,
                reason: Some(reason),
                ..*old(self)
            }),
    {
        self.reason = Some(reason);
        self.cancelled = true;
    }

    /// Whether what runs was cancelled.
    pub fn is_cancelled(&self) -> (r: bool)
        ensures
            r == self.cancelled,
    {
        self.cancelled
    }

    /// Pauses, or goes on.
    pub fn set_paused(&mut self, paused: bool)
        ensures
            *final(self) == (ControlMarks { paused, ..*old(self) }),
    {
        self.paused = paused;
    }

    /// Whether the engine is paused.
    pub fn is_paused(&self) -> (r: bool)
        ensures
            r == self.paused,
    {
        self.paused
    }

    /// A new turn starts without the marks of an earlier one.
    pub fn reset(&mut self)
        ensures
            *final(self) == (ControlMarks { cancelled: false, reason: None, paused: false }),
    {
        self.cancelled = false;
        self.reason = None;
        self.paused = false;
    }
}

} // verus!
