//! Which executor runs a built-in tool, and which step carries out the
//! action a tool returns.

use vstd::prelude::*;

use crate::domain::ToolError;
use crate::permissions::builtin_position;
use crate::text::str_eq;
use crate::tools::{ToolAction, ToolActionKind};

verus! {

/// The executors of the built-in tools, one per tool.
#[derive(Debug, Clone, Copy, PartialEq, Eq, Structural)]
pub enum BuiltinExecutor {
    CreateTasks,
    WaitTasks,
    ShellExec,
    ShellStart,
    ShellRead,
    ShellList,
    ShellInput,
    ShellStop,
    SubmitExperienceCandidate,
    ListExperienceCandidates,
    ChatWithAgent,
    ScheduleTask,
    ListScheduledTasks,
    DeleteScheduledTask,
    SubmitProfileUpdate,
    SkipProfileUpdate,
    SubmitSkillUpdate,
    ChannelSend,
    KnowledgeSearch,
    AskUser,
    SubmitSkill,
    SpawnAgent,
    ShellSendInput,
    ShellReadOutput,
    WriteSkillFile,
    ReadSkillFile,
}

/// The executor of the tool at place `p` of `builtin_tool_definitions`
/// (place 11, the channel layer's tool, excepted).
pub open spec fn fixed_executor(p: int) -> Option<BuiltinExecutor> {
    if p == 0 {
        Some(BuiltinExecutor::CreateTasks)
    } else     if p == 1 {
        Some(BuiltinExecutor::WaitTasks)
    } else     if p == 2 {
        Some(BuiltinExecutor::ShellExec)
    } else     if p == 3 {
        Some(BuiltinExecutor::ShellStart)
    } else     if p == 4 {
        Some(BuiltinExecutor::ShellRead)
    } else     if p == 5 {
        Some(BuiltinExecutor::ShellList)
    } else     if p == 6 {
        Some(BuiltinExecutor::ShellInput)
    } else     if p == 7 {
        Some(BuiltinExecutor::ShellStop)
    } else     if p == 8 {
        Some(BuiltinExecutor::SubmitExperienceCandidate)
    } else     if p == 9 {
        Some(BuiltinExecutor::ListExperienceCandidates)
    } else     if p == 10 {
        Some(BuiltinExecutor::ChatWithAgent)
    } else     if p == 12 {
        Some(BuiltinExecutor::ScheduleTask)
    } else     if p == 13 {
        Some(BuiltinExecutor::ListScheduledTasks)
    } else     if p == 14 {
        Some(BuiltinExecutor::DeleteScheduledTask)
    } else     if p == 15 {
        Some(BuiltinExecutor::SubmitProfileUpdate)
    } else     if p == 16 {
        Some(BuiltinExecutor::SkipProfileUpdate)
    } else     if p == 17 {
        Some(BuiltinExecutor::SubmitSkillUpdate)
    } else {
        None
    }
}

/// The executor registered under `name`: the executor of a tool of
/// `builtin_tool_definitions`, of the channel layer's `channel_send`, or of
/// one of the tools registered apart from that table.
pub open spec fn executor_for(name: Seq<char>) -> Option<BuiltinExecutor> {
    if builtin_position(name) >= 0 {
        fixed_executor(builtin_position(name))
    } else if name == "channel_send"@ {
        Some(BuiltinExecutor::ChannelSend)
    } else if name == "knowledge_search"@ {
        Some(BuiltinExecutor::KnowledgeSearch)
    } else if name == "ask_user"@ {
        Some(BuiltinExecutor::AskUser)
    } else if name == "submit_skill"@ {
        Some(BuiltinExecutor::SubmitSkill)
    } else if name == "spawn_agent"@ {
        Some(BuiltinExecutor::SpawnAgent)
    } else if name == "shell.send_input"@ {
        Some(BuiltinExecutor::ShellSendInput)
    } else if name == "shell.read_output"@ {
        Some(BuiltinExecutor::ShellReadOutput)
    } else if name == "write_skill_file"@ {
        Some(BuiltinExecutor::WriteSkillFile)
    } else if name == "read_skill_file"@ {
        Some(BuiltinExecutor::ReadSkillFile)
    } else {
        None
    }
}

/// The executor registered under `name` (see `executor_for`).
pub fn builtin_executor(name: &str) -> (r: Option<BuiltinExecutor>)
    ensures
        r == executor_for(name@),
{
    if str_eq(name, "create_tasks") {
        return Some(BuiltinExecutor::CreateTasks);
    }
    if str_eq(name, "wait_tasks") {
        return Some(BuiltinExecutor::WaitTasks);
    }
    if str_eq(name, "shell_exec") {
        return Some(BuiltinExecutor::ShellExec);
    }
    if str_eq(name, "shell_start") {
        return Some(BuiltinExecutor::ShellStart);
    }
    if str_eq(name, "shell_read") {
        return Some(BuiltinExecutor::ShellRead);
    }
    if str_eq(name, "shell_list") {
        return Some(BuiltinExecutor::ShellList);
    }
    if str_eq(name, "shell_input") {
        return Some(BuiltinExecutor::ShellInput);
    }
    if str_eq(name, "shell_stop") {
        return Some(BuiltinExecutor::ShellStop);
    }
    if str_eq(name, "submit_experience_candidate") {
        return Some(BuiltinExecutor::SubmitExperienceCandidate);
    }
    if str_eq(name, "list_experience_candidates") {
        return Some(BuiltinExecutor::ListExperienceCandidates);
    }
    if str_eq(name, "chat_with_agent") {
        return Some(BuiltinExecutor::ChatWithAgent);
    }
    if str_eq(name, "schedule_task") {
        return Some(BuiltinExecutor::ScheduleTask);
    }
    if str_eq(name, "list_scheduled_tasks") {
        return Some(BuiltinExecutor::ListScheduledTasks);
    }
    if str_eq(name, "delete_scheduled_task") {
        return Some(BuiltinExecutor::DeleteScheduledTask);
    }
    if str_eq(name, "submit_profile_update") {
        return Some(BuiltinExecutor::SubmitProfileUpdate);
    }
    if str_eq(name, "skip_profile_update") {
        return Some(BuiltinExecutor::SkipProfileUpdate);
    }
    if str_eq(name, "submit_skill_update") {
        return Some(BuiltinExecutor::SubmitSkillUpdate);
    }
    if str_eq(name, "channel_send") {
        return Some(BuiltinExecutor::ChannelSend);
    }
    if str_eq(name, "knowledge_search") {
        return Some(BuiltinExecutor::KnowledgeSearch);
    }
    if str_eq(name, "ask_user") {
        return Some(BuiltinExecutor::AskUser);
    }
    if str_eq(name, "submit_skill") {
        return Some(BuiltinExecutor::SubmitSkill);
    }
    if str_eq(name, "spawn_agent") {
        return Some(BuiltinExecutor::SpawnAgent);
    }
    if str_eq(name, "shell.send_input") {
        return Some(BuiltinExecutor::ShellSendInput);
    }
    if str_eq(name, "shell.read_output") {
        return Some(BuiltinExecutor::ShellReadOutput);
    }
    if str_eq(name, "write_skill_file") {
        return Some(BuiltinExecutor::WriteSkillFile);
    }
    if str_eq(name, "read_skill_file") {
        return Some(BuiltinExecutor::ReadSkillFile);
    }
    None
}

impl BuiltinExecutor {
    /// How the executor runs: inline, or on a worker.
    pub open spec fn spec_kind(&self) -> ToolActionKind {
        match self {
            BuiltinExecutor::CreateTasks => ToolActionKind::Sync,
            BuiltinExecutor::WaitTasks => ToolActionKind::Sync,
            BuiltinExecutor::ShellExec => ToolActionKind::Async,
            BuiltinExecutor::ShellStart => ToolActionKind::Sync,
            BuiltinExecutor::ShellRead => ToolActionKind::Sync,
            BuiltinExecutor::ShellList => ToolActionKind::Sync,
            BuiltinExecutor::ShellInput => ToolActionKind::Sync,
            BuiltinExecutor::ShellStop => ToolActionKind::Sync,
            BuiltinExecutor::SubmitExperienceCandidate => ToolActionKind::Sync,
            BuiltinExecutor::ListExperienceCandidates => ToolActionKind::Async,
            BuiltinExecutor::ChatWithAgent => ToolActionKind::Sync,
            BuiltinExecutor::ScheduleTask => ToolActionKind::Async,
            BuiltinExecutor::ListScheduledTasks => ToolActionKind::Async,
            BuiltinExecutor::DeleteScheduledTask => ToolActionKind::Async,
            BuiltinExecutor::SubmitProfileUpdate => ToolActionKind::Sync,
            BuiltinExecutor::SkipProfileUpdate => ToolActionKind::Sync,
            BuiltinExecutor::SubmitSkillUpdate => ToolActionKind::Sync,
            BuiltinExecutor::ChannelSend => ToolActionKind::Sync,
            BuiltinExecutor::KnowledgeSearch => ToolActionKind::Sync,
            BuiltinExecutor::AskUser => ToolActionKind::Sync,
            BuiltinExecutor::SubmitSkill => ToolActionKind::Sync,
            BuiltinExecutor::SpawnAgent => ToolActionKind::Sync,
            BuiltinExecutor::ShellSendInput => ToolActionKind::Sync,
            BuiltinExecutor::ShellReadOutput => ToolActionKind::Sync,
            BuiltinExecutor::WriteSkillFile => ToolActionKind::Async,
            BuiltinExecutor::ReadSkillFile => ToolActionKind::Async,
        }
    }

    /// How the executor runs (see `spec_kind`).
    #[verifier::when_used_as_spec(spec_kind)]
    pub fn kind(&self) -> (r: ToolActionKind)
        ensures
            r == self.spec_kind(),
    {
        match self {
            BuiltinExecutor::CreateTasks => ToolActionKind::Sync,
            BuiltinExecutor::WaitTasks => ToolActionKind::Sync,
            BuiltinExecutor::ShellExec => ToolActionKind::Async,
            BuiltinExecutor::ShellStart => ToolActionKind::Sync,
            BuiltinExecutor::ShellRead => ToolActionKind::Sync,
            BuiltinExecutor::ShellList => ToolActionKind::Sync,
            BuiltinExecutor::ShellInput => ToolActionKind::Sync,
            BuiltinExecutor::ShellStop => ToolActionKind::Sync,
            BuiltinExecutor::SubmitExperienceCandidate => ToolActionKind::Sync,
            BuiltinExecutor::ListExperienceCandidates => ToolActionKind::Async,
            BuiltinExecutor::ChatWithAgent => ToolActionKind::Sync,
            BuiltinExecutor::ScheduleTask => ToolActionKind::Async,
            BuiltinExecutor::ListScheduledTasks => ToolActionKind::Async,
            BuiltinExecutor::DeleteScheduledTask => ToolActionKind::Async,
            BuiltinExecutor::SubmitProfileUpdate => ToolActionKind::Sync,
            BuiltinExecutor::SkipProfileUpdate => ToolActionKind::Sync,
            BuiltinExecutor::SubmitSkillUpdate => ToolActionKind::Sync,
            BuiltinExecutor::ChannelSend => ToolActionKind::Sync,
            BuiltinExecutor::KnowledgeSearch => ToolActionKind::Sync,
            BuiltinExecutor::AskUser => ToolActionKind::Sync,
            BuiltinExecutor::SubmitSkill => ToolActionKind::Sync,
            BuiltinExecutor::SpawnAgent => ToolActionKind::Sync,
            BuiltinExecutor::ShellSendInput => ToolActionKind::Sync,
            BuiltinExecutor::ShellReadOutput => ToolActionKind::Sync,
            BuiltinExecutor::WriteSkillFile => ToolActionKind::Async,
            BuiltinExecutor::ReadSkillFile => ToolActionKind::Async,
        }
    }
}

/// The step that carries out what a tool returned.
#[derive(Debug, Clone, Copy, PartialEq, Eq, Structural)]
pub enum ActionStep {
    /// The tool failed: `spawn_tool_error` answers with its error.
    Refuse,
    /// An answer given at once is retired from the inline path: the call
    /// fails with `retired_direct_error`.
    RetiredDirect,
    /// `plan_sub_task_batch` creates the sub-tasks.
    CreateSubTasks,
    /// `wait_for_tasks_step` puts the task to wait on its children.
    WaitForTasks,
    /// The session table records a started session (`started_record`).
    StartSession,
    /// The session table reads a session the task owns (`check_owner`).
    ReadSession,
    /// The session table lists the task's sessions (`task_session_ids`).
    ListSessions,
    /// Input goes to a session the task owns (`check_owner`, `stdin_payload`).
    InputSession,
    /// A session the task owns is stopped (`check_owner`, `mark_stopped`).
    StopSession,
    /// Input goes to a session by handle (`stdin_payload`).
    SendSessionInput,
    /// A session's output is read by handle.
    ReadSessionOutput,
    /// An experience candidate is stored where `experience_destination` says.
    SubmitExperienceCandidate,
    /// A skill candidate is stored.
    SubmitSkillCandidate,
    /// A chat round starts (`validate_chat_handle`, `find_chat_agent`, `chat_opening_message`).
    StartChatRound,
    /// `complete_profile_generation` takes the new profile.
    SubmitProfileUpdate,
    /// `complete_profile_generation` ends the generation without a profile.
    SkipProfileUpdate,
    /// `settle_skill_update` checks and records the skill update.
    SubmitSkillUpdate,
    /// `ask_user_step` puts the question to the user.
    AskUser,
    /// `plan_spawn` plans the child agent.
    SpawnAgent,
}

/// Which step carries out `action`.
pub open spec fn step_of(action: Result<ToolAction, ToolError>) -> ActionStep {
    match action {
        Err(_) => ActionStep::Refuse,
        Ok(a) => match a {
            ToolAction::Direct(_) => ActionStep::RetiredDirect,
            ToolAction::AskUser { .. } => ActionStep::AskUser,
            ToolAction::WaitForTasks { .. } => ActionStep::WaitForTasks,
            ToolAction::StartChatRound { .. } => ActionStep::StartChatRound,
            ToolAction::StartSession(_) => ActionStep::StartSession,
            ToolAction::ReadSession(_) => ActionStep::ReadSession,
            ToolAction::ListSessions => ActionStep::ListSessions,
            ToolAction::InputSession(_) => ActionStep::InputSession,
            ToolAction::StopSession(_) => ActionStep::StopSession,
            ToolAction::SendSessionInput(_) => ActionStep::SendSessionInput,
            ToolAction::ReadSessionOutput(_) => ActionStep::ReadSessionOutput,
            ToolAction::SkipProfileUpdate => ActionStep::SkipProfileUpdate,
            ToolAction::SubmitProfileUpdate { .. } => ActionStep::SubmitProfileUpdate,
            ToolAction::SubmitSkillCandidate { .. } => ActionStep::SubmitSkillCandidate,
            ToolAction::SubmitSkillUpdate { .. } => ActionStep::SubmitSkillUpdate,
            ToolAction::SubmitExperienceCandidate(_) => ActionStep::SubmitExperienceCandidate,
            ToolAction::CreateBatch(_) => ActionStep::CreateSubTasks,
            ToolAction::SpawnAgent { .. } => ActionStep::SpawnAgent,
        },
    }
}

/// Chooses the step for what a tool returned (see `step_of`).
pub fn action_step(action: &Result<ToolAction, ToolError>) -> (s: ActionStep)
    ensures
        s == step_of(*action),
{
    match action {
        Err(_) => ActionStep::Refuse,
        Ok(a) => match a {
            ToolAction::Direct(_) => ActionStep::RetiredDirect,
            ToolAction::AskUser { .. } => ActionStep::AskUser,
            ToolAction::WaitForTasks { .. } => ActionStep::WaitForTasks,
            ToolAction::StartChatRound { .. } => ActionStep::StartChatRound,
            ToolAction::StartSession(_) => ActionStep::StartSession,
            ToolAction::ReadSession(_) => ActionStep::ReadSession,
            ToolAction::ListSessions => ActionStep::ListSessions,
            ToolAction::InputSession(_) => ActionStep::InputSession,
            ToolAction::StopSession(_) => ActionStep::StopSession,
            ToolAction::SendSessionInput(_) => ActionStep::SendSessionInput,
            ToolAction::ReadSessionOutput(_) => ActionStep::ReadSessionOutput,
            ToolAction::SkipProfileUpdate => ActionStep::SkipProfileUpdate,
            ToolAction::SubmitProfileUpdate { .. } => ActionStep::SubmitProfileUpdate,
            ToolAction::SubmitSkillCandidate { .. } => ActionStep::SubmitSkillCandidate,
            ToolAction::SubmitSkillUpdate { .. } => ActionStep::SubmitSkillUpdate,
            ToolAction::SubmitExperienceCandidate(_) => ActionStep::SubmitExperienceCandidate,
            ToolAction::CreateBatch(_) => ActionStep::CreateSubTasks,
            ToolAction::SpawnAgent { .. } => ActionStep::SpawnAgent,
        },
    }
}

/// The error of a call whose tool gave its answer at once on the inline path.
pub fn retired_direct_error() -> (e: ToolError)
    ensures
        e matches ToolError::InternalState(m) && m@
            == "Direct action is retired (list_experience_candidates is async-only); BuiltinTool must not return Direct on sync path"@,
{
    ToolError::InternalState(
        "Direct action is retired (list_experience_candidates is async-only); BuiltinTool must not return Direct on sync path".to_owned(),
    )
}

} // verus!
