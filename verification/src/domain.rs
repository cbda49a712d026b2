//! Tasks, channels and errors shared by the runtime's decisions.

use vstd::prelude::*;

verus! {

/// Identifier of a task (the 128 bits of its UUID).
pub type TaskId = u128;

/// Identifier of an agent (the 128 bits of its UUID).
pub type AgentId = u128;

/// Why a tool call failed.
#[derive(Debug)]
pub enum ToolError {
    InvalidInput(String),
    NotFound(String),
    PermissionDenied(String),
    ExecutionFailed(String),
    Timeout(String),
    InternalState(String),
}

/// Why a call the agent made came back without a result.
#[derive(Debug)]
pub enum ExecutionError {
    /// Whoever was asked to confirm the call refused it (or gave no usable answer).
    UserCancelled(String),
    /// Any other failure, by its text.
    Unknown(String),
}

/// How a tool error reads: its kind, a colon and its message.
pub open spec fn error_text(e: ToolError) -> Seq<char> {
    match e {
        ToolError::InvalidInput(m) => "invalid input: "@ + m@,
        ToolError::NotFound(m) => "not found: "@ + m@,
        ToolError::PermissionDenied(m) => "permission denied: "@ + m@,
        ToolError::ExecutionFailed(m) => "execution failed: "@ + m@,
        ToolError::Timeout(m) => "timeout: "@ + m@,
        ToolError::InternalState(m) => "internal state: "@ + m@,
    }
}

impl ToolError {
    /// The error as text (see `error_text`).
    pub fn describe(&self) -> (s: String)
        ensures
            s@ == error_text(*self),
    {
        match self {
            ToolError::InvalidInput(m) => crate::text::concat2("invalid input: ", m.as_str()),
            ToolError::NotFound(m) => crate::text::concat2("not found: ", m.as_str()),
            ToolError::PermissionDenied(m) => crate::text::concat2("permission denied: ", m.as_str()),
            ToolError::ExecutionFailed(m) => crate::text::concat2("execution failed: ", m.as_str()),
            ToolError::Timeout(m) => crate::text::concat2("timeout: ", m.as_str()),
            ToolError::InternalState(m) => crate::text::concat2("internal state: ", m.as_str()),
        }
    }
}

/// What a waiting task waits for.
#[derive(Debug, Clone, Copy, PartialEq, Eq, Structural)]
pub enum WaitingReason {
    User,
    /// The agent works on the task's next step.
    Agent,
    /// A shell session of the task is busy.
    Session,
    ToolExecution,
    Approval,
    Summarization,
    AskUser,
    ChatAgent,
    SubTaskBatch,
}

/// Why a task failed.
#[derive(Debug, Clone, Copy, PartialEq, Eq, Structural)]
pub enum FailureReason {
    AgentError,
    Timeout,
    Cancelled,
}

/// Lifecycle state of a task.
#[derive(Debug, Clone, Copy, PartialEq, Eq, Structural)]
pub enum TaskStatus {
    Pending,
    Ready,
    Running,
    Waiting(WaitingReason),
    Done,
    Failed(FailureReason),
}

impl TaskStatus {
    /// `Done` and `Failed` are final.
    pub open spec fn spec_is_terminal(self) -> bool {
        self is Done || self is Failed
    }

    /// Whether the status is final.
    pub fn is_terminal(&self) -> (r: bool)
        ensures
            r == self.spec_is_terminal(),
    {
        match self {
            TaskStatus::Done => true,
            TaskStatus::Failed(_) => true,
            _ => false,
        }
    }
}

/// The front ends a conversation can come from.
#[derive(Debug, Clone, Copy, PartialEq, Eq, Structural)]
pub enum FrontendKind {
    Tui,
    Telegram,
    Web,
    QQ,
    Feishu,
}

/// A conversation endpoint: front end, user and optional thread.
#[derive(Debug)]
pub struct ChannelId {
    pub frontend: FrontendKind,
    pub user_id: String,
    pub thread_id: Option<String>,
}

/// The text of an optional string.
pub open spec fn opt_text(o: Option<String>) -> Option<Seq<char>> {
    match o {
        Some(s) => Some(s@),
        None => None,
    }
}

/// Two channels name the same endpoint.
pub open spec fn same_channel(a: ChannelId, b: ChannelId) -> bool {
    a.frontend == b.frontend && a.user_id@ == b.user_id@ && opt_text(a.thread_id) == opt_text(
        b.thread_id,
    )
}

/// Two optional channels are both absent or name the same endpoint.
pub open spec fn same_opt_channel(a: Option<ChannelId>, b: Option<ChannelId>) -> bool {
    match (a, b) {
        (None, None) => true,
        (Some(x), Some(y)) => same_channel(x, y),
        _ => false,
    }
}

fn opt_string_eq(a: &Option<String>, b: &Option<String>) -> (r: bool)
    ensures
        r == (opt_text(*a) == opt_text(*b)),
{
    match (a, b) {
        (None, None) => true,
        (Some(x), Some(y)) => *x == *y,
        _ => false,
    }
}

impl ChannelId {
    /// Whether both name the same endpoint.
    pub fn same_as(&self, other: &ChannelId) -> (r: bool)
        ensures
            r == same_channel(*self, *other),
    {
        self.frontend == other.frontend && self.user_id == other.user_id && opt_string_eq(
            &self.thread_id,
            &other.thread_id,
        )
    }

    /// A copy of the channel.
    pub fn duplicate(&self) -> (c: ChannelId)
        ensures
            same_channel(c, *self),
            c.frontend == self.frontend,
            c.user_id@ == self.user_id@,
            opt_text(c.thread_id) == opt_text(self.thread_id),
    {
        ChannelId {
            frontend: self.frontend,
            user_id: self.user_id.clone(),
            thread_id: match &self.thread_id {
                Some(t) => Some(t.clone()),
                None => None,
            },
        }
    }
}

/// A unit of work for the agents.
#[derive(Debug)]
pub struct Task {
    pub id: TaskId,
    pub content: String,
    pub creator: AgentId,
    pub delegate: Option<AgentId>,
    pub status: TaskStatus,
    /// Identifier of the pending confirmation, when the task is blocked on one.
    pub pending_confirmation_id: Option<u128>,
    pub result_summary: String,
    pub last_error: Option<String>,
    pub parent_task_id: Option<TaskId>,
    pub origin_channel: Option<ChannelId>,
    /// Where results of the task are shown.
    pub output_channel: Option<ChannelId>,
    /// Unix time of the last change, in seconds.
    pub updated_at: i64,
}

/// Two channels are the same endpoint exactly when frontend, user and thread
/// all agree: channels of different users are never the same.
pub proof fn lemma_same_channel_exactly(a: ChannelId, b: ChannelId)
    ensures
        same_channel(a, b) <==> (a.frontend == b.frontend && a.user_id@ == b.user_id@ && opt_text(a.thread_id)
            == opt_text(b.thread_id)),
        a.user_id@ != b.user_id@ ==> !same_channel(a, b),
{
}

} // verus!
