//! Built-in tools: each one reads its JSON arguments and answers with the
//! action the runtime is to take, or with the reason it refuses.

use vstd::prelude::*;
use crate::domain::{AgentId, ChannelId, TaskId, ToolError};
use crate::ids::{parse_uuid, uuid_parse};
use crate::skills::{ExperienceCandidateSubmission, SkillUpdateOperation};
use crate::subtasks::{
    checked_definitions, cycle_message, defs_view, has_cycle, on_cycle, parse_create_tasks_params,
    SubTaskDefinition,
};
use crate::json::{
    bool_field, bool_field_of, items_field, text_field, text_field_of, texts_field, texts_field_of,
    u64_field, u64_field_of, JsonValue,
};

verus! {

/// How the dispatcher runs a tool: inline, or on a worker.
#[derive(Debug, Clone, Copy, PartialEq, Eq, Structural)]
pub enum ToolActionKind {
    Sync,
    Async,
}

/// The per-call values a tool may read.
#[derive(Debug)]
pub struct ToolContext {
    pub default_wait_tasks_timeout_secs: u64,
    pub shell_default_tail_lines: usize,
    pub shell_max_tail_lines: usize,
    pub shell_default_exec_timeout_secs: u64,
    pub shell_default_stop_timeout_secs: u64,
    pub tool_inflight_timeout_secs: u64,
    pub current_task_id: TaskId,
    pub current_agent_id: AgentId,
    pub current_origin_channel: Option<ChannelId>,
    /// The skill directory of the current task, if it works on a skill.
    pub current_skill_dir: Option<String>,
}

/// A request to start a shell session.
#[derive(Debug)]
pub struct SessionStartRequest {
    pub command: String,
    pub session_name: Option<String>,
    pub cwd: Option<String>,
    /// Environment variables, in the order the arguments give them.
    pub env: Vec<(String, String)>,
    pub timeout_secs: Option<u64>,
    pub tail_lines: usize,
    pub owner_task_id: TaskId,
    pub owner_agent_id: AgentId,
}

/// A request to read the latest output of a session.
#[derive(Debug)]
pub struct SessionReadRequest {
    pub handle_id: u128,
    pub tail_lines: usize,
}

/// A request to write to a session's input.
#[derive(Debug)]
pub struct SessionInputRequest {
    pub handle_id: u128,
    pub input: String,
    pub append_newline: bool,
}

/// Input for a session that may wait for the output it causes.
#[derive(Debug)]
pub struct SessionSendInput {
    pub handle_id: u128,
    pub input: String,
    pub append_newline: bool,
    pub wait_for_output: bool,
    pub wait_timeout_secs: Option<u64>,
    pub tail_lines: usize,
}

/// A request to read a session's output from a cursor.
#[derive(Debug)]
pub struct SessionOutputRequest {
    pub handle_id: u128,
    pub cursor: Option<String>,
    pub tail_lines: usize,
}

/// What a synchronous tool asks the runtime to do.
#[derive(Debug)]
pub enum ToolAction {
    /// The tool's answer, given back at once.
    Direct(JsonValue),
    AskUser { question: String },
    WaitForTasks { task_ids: Vec<TaskId>, timeout_secs: u64 },
    StartChatRound {
        agent_name: Option<String>,
        agent_tags: Vec<String>,
        message: String,
        context: Option<String>,
        handle: Option<u128>,
    },
    StartSession(SessionStartRequest),
    ReadSession(SessionReadRequest),
    ListSessions,
    InputSession(SessionInputRequest),
    StopSession(u128),
    SendSessionInput(SessionSendInput),
    ReadSessionOutput(SessionOutputRequest),
    SkipProfileUpdate,
    SubmitProfileUpdate { name: String, tags: Vec<String>, description: String },
    SubmitSkillCandidate { name: String, description: String },
    /// Structured edits of the skill under revision, as the call gave them.
    SubmitSkillUpdate { operations: Vec<SkillUpdateOperation>, rationale: String },
    SubmitExperienceCandidate(ExperienceCandidateSubmission),
    /// A batch of sub-tasks to create.
    CreateBatch(Vec<SubTaskDefinition>),
    SpawnAgent { name: String, model: Option<String>, description: String, tools: Vec<String> },
}

/// The texts of a sequence of strings.
pub open spec fn texts(v: Seq<String>) -> Seq<Seq<char>> {
    v.map_values(|s: String| s@)
}

/// The text of an optional string.
pub open spec fn opt_view(o: Option<String>) -> Option<Seq<char>> {
    match o {
        Some(s) => Some(s@),
        None => None,
    }
}

/// `r` is an `InvalidInput` error with message `msg`.
pub open spec fn invalid_input<T>(r: Result<T, ToolError>, msg: Seq<char>) -> bool {
    r matches Err(ToolError::InvalidInput(m)) && m@ == msg
}

/// `r` is an `InternalState` error with message `msg`.
pub open spec fn internal_state<T>(r: Result<T, ToolError>, msg: Seq<char>) -> bool {
    r matches Err(ToolError::InternalState(m)) && m@ == msg
}

/// Puts a copy of `s` into `InvalidInput`.
fn invalid(s: &str) -> (e: ToolError)
    ensures
        e matches ToolError::InvalidInput(m) && m@ == s@,
{
    ToolError::InvalidInput(s.to_owned())
}

/// Puts a copy of `s` into `InternalState`.
fn internal(s: &str) -> (e: ToolError)
    ensures
        e matches ToolError::InternalState(m) && m@ == s@,
{
    ToolError::InternalState(s.to_owned())
}

/// Asks the user a question and waits for the answer.
pub struct AskUserTool;

impl AskUserTool {
    pub fn name(&self) -> (r: &'static str)
        ensures
            r@ == "ask_user"@,
    {
        "ask_user"
    }

    pub fn kind(&self) -> (r: ToolActionKind)
        ensures
            r == ToolActionKind::Sync,
    {
        ToolActionKind::Sync
    }

    /// Reads `question`, which must be a string.
    pub fn execute(&self, input: &JsonValue, _ctx: &ToolContext) -> (r: Result<ToolAction, ToolError>)
        ensures
            match text_field(*input, "question"@) {
                Some(q) => r matches Ok(ToolAction::AskUser { question }) && question@ == q,
                None => invalid_input(r, "missing 'question' parameter"@),
            },
    {
        match text_field_of(input, "question") {
            Some(question) => Ok(ToolAction::AskUser { question }),
            None => Err(invalid("missing 'question' parameter")),
        }
    }
}


/// The texts of a JSON array's string elements, read from `key`.
pub open spec fn first_bad_id(ts: Seq<Seq<char>>, i: int) -> bool {
    &&& 0 <= i < ts.len()
    &&& uuid_parse(ts[i]) is None
    &&& forall|j: int| 0 <= j < i ==> (#[trigger] uuid_parse(ts[j])) is Some
}

/// Every text reads as an id.
pub open spec fn all_ids(ts: Seq<Seq<char>>) -> bool {
    forall|i: int| 0 <= i < ts.len() ==> (#[trigger] uuid_parse(ts[i])) is Some
}

/// The ids the texts read as.
pub open spec fn ids_of(ts: Seq<Seq<char>>) -> Seq<u128> {
    ts.map_values(|t: Seq<char>| uuid_parse(t)->0)
}

/// Waits for other tasks to finish.
pub struct WaitTasksTool;

impl WaitTasksTool {
    pub fn name(&self) -> (r: &'static str)
        ensures
            r@ == "wait_tasks"@,
    {
        "wait_tasks"
    }

    pub fn kind(&self) -> (r: ToolActionKind)
        ensures
            r == ToolActionKind::Sync,
    {
        ToolActionKind::Sync
    }

    /// Reads `task_ids`, an array whose string elements must each read as an
    /// id (other elements are skipped) and of which there must be one, and
    /// `timeout_secs`, which falls back to the context's default.
    pub fn execute(&self, input: &JsonValue, ctx: &ToolContext) -> (r: Result<ToolAction, ToolError>)
        ensures
            match crate::json::get(*input, "task_ids"@) {
                None => invalid_input(r, "missing 'task_ids' parameter"@),
                Some(v) => match crate::json::items_of(v) {
                    None => invalid_input(r, "'task_ids' must be an array"@),
                    Some(items) => {
                        let ts = crate::json::texts_in(items);
                        if !all_ids(ts) {
                            exists|i: int|
                                first_bad_id(ts, i) && invalid_input(
                                    r,
                                    "invalid task id: "@ + #[trigger] ts[i],
                                )
                        } else if ts.len() == 0 {
                            invalid_input(r, "'task_ids' cannot be empty"@)
                        } else {
                            r matches Ok(ToolAction::WaitForTasks { task_ids, timeout_secs })
                                && task_ids@ == ids_of(ts) && timeout_secs == match u64_field(
                                *input,
                                "timeout_secs"@,
                            ) {
                                Some(t) => t,
                                None => ctx.default_wait_tasks_timeout_secs,
                            }
                        }
                    },
                },
            },
    {
        let v = match input.get("task_ids") {
            Some(v) => v,
            None => {
                return Err(invalid("missing 'task_ids' parameter"));
            },
        };
        let items = match v.as_array() {
            Some(a) => a,
            None => {
                return Err(invalid("'task_ids' must be an array"));
            },
        };
        let ts = crate::json::texts_of(items);
        let ghost tv = texts(ts@);
        let mut ids: Vec<u128> = Vec::new();
        let n = ts.len();
        for i in 0..n
            invariant
                n == ts@.len(),
                tv == texts(ts@),
                crate::json::get(*input, "task_ids"@) == Some(*v),
                crate::json::items_of(*v) == Some(items@),
                tv == crate::json::texts_in(items@),
                ids@.len() == i,
                forall|j: int| 0 <= j < i ==> (#[trigger] uuid_parse(tv[j])) is Some,
                forall|j: int| 0 <= j < i ==> ids@[j] == uuid_parse(tv[j])->0,
        {
            match parse_uuid(ts[i].as_str()) {
                Some(id) => {
                    ids.push(id);
                },
                None => {
                    let msg = crate::text::concat2("invalid task id: ", ts[i].as_str());
                    let e: Result<ToolAction, ToolError> = Err(ToolError::InvalidInput(msg));
                    assert(tv[i as int] == ts@[i as int]@);
                    assert(first_bad_id(tv, i as int) && invalid_input(
                        e,
                        "invalid task id: "@ + tv[i as int],
                    ));
                    return e;
                },
            }
        }
        assert(ids@ =~= ids_of(tv));
        if ids.len() == 0 {
            return Err(invalid("'task_ids' cannot be empty"));
        }
        let timeout_secs = match u64_field_of(input, "timeout_secs") {
            Some(t) => t,
            None => ctx.default_wait_tasks_timeout_secs,
        };
        Ok(ToolAction::WaitForTasks { task_ids: ids, timeout_secs })
    }
}

/// The id in the text under `key`, where there is one that reads as an id.
pub open spec fn id_field(input: JsonValue, key: Seq<char>) -> Option<u128> {
    match text_field(input, key) {
        Some(t) => uuid_parse(t),
        None => None,
    }
}

/// Reads an id from the text under `key`, if any.
fn id_field_of(input: &JsonValue, key: &str) -> (r: Option<u128>)
    ensures
        r == id_field(*input, key@),
{
    match text_field_of(input, key) {
        Some(t) => parse_uuid(t.as_str()),
        None => None,
    }
}

/// Starts or continues a conversation with another agent.
pub struct ChatWithAgentTool;

impl ChatWithAgentTool {
    pub fn name(&self) -> (r: &'static str)
        ensures
            r@ == "chat_with_agent"@,
    {
        "chat_with_agent"
    }

    pub fn kind(&self) -> (r: ToolActionKind)
        ensures
            r == ToolActionKind::Sync,
    {
        ToolActionKind::Sync
    }

    /// Reads `message` (required), `handle` (an id continuing a chat; text
    /// that is no id counts as absent), `agent`, `agent_tags` and `context`.
    /// A new chat (no handle) needs an agent name or at least one tag.
    pub fn execute(&self, input: &JsonValue, _ctx: &ToolContext) -> (r: Result<ToolAction, ToolError>)
        ensures
            match text_field(*input, "message"@) {
                None => invalid_input(r, "missing 'message' parameter"@),
                Some(m) => if id_field(*input, "handle"@) is None && text_field(
                    *input,
                    "agent"@,
                ) is None && texts_field(*input, "agent_tags"@).len() == 0 {
                    invalid_input(r, "new chat requires 'agent' or 'agent_tags'"@)
                } else {
                    r matches Ok(
                        ToolAction::StartChatRound {
                            agent_name,
                            agent_tags,
                            message,
                            context,
                            handle,
                        },
                    ) && opt_view(agent_name) == text_field(*input, "agent"@) && texts(agent_tags@)
                        == texts_field(*input, "agent_tags"@) && message@ == m && opt_view(context)
                        == text_field(*input, "context"@) && handle == id_field(
                        *input,
                        "handle"@,
                    )
                },
            },
    {
        let message = match text_field_of(input, "message") {
            Some(m) => m,
            None => {
                return Err(invalid("missing 'message' parameter"));
            },
        };
        let handle = id_field_of(input, "handle");
        let agent_name = text_field_of(input, "agent");
        let agent_tags = texts_field_of(input, "agent_tags");
        let context = text_field_of(input, "context");
        if handle.is_none() && agent_name.is_none() && agent_tags.len() == 0 {
            return Err(invalid("new chat requires 'agent' or 'agent_tags'"));
        }
        Ok(ToolAction::StartChatRound { agent_name, agent_tags, message, context, handle })
    }
}

/// Declares that the agent's profile needs no update.
pub struct SkipProfileUpdateTool;

impl SkipProfileUpdateTool {
    pub fn name(&self) -> (r: &'static str)
        ensures
            r@ == "skip_profile_update"@,
    {
        "skip_profile_update"
    }

    pub fn kind(&self) -> (r: ToolActionKind)
        ensures
            r == ToolActionKind::Sync,
    {
        ToolActionKind::Sync
    }

    /// Ignores its arguments.
    pub fn execute(&self, _input: &JsonValue, _ctx: &ToolContext) -> (r: Result<ToolAction, ToolError>)
        ensures
            r matches Ok(ToolAction::SkipProfileUpdate),
    {
        Ok(ToolAction::SkipProfileUpdate)
    }
}

/// Submits a new or updated agent profile.
pub struct SubmitProfileUpdateTool;

impl SubmitProfileUpdateTool {
    pub fn name(&self) -> (r: &'static str)
        ensures
            r@ == "submit_profile_update"@,
    {
        "submit_profile_update"
    }

    pub fn kind(&self) -> (r: ToolActionKind)
        ensures
            r == ToolActionKind::Sync,
    {
        ToolActionKind::Sync
    }

    /// Reads `name`, `tags` (an array; its string elements are kept) and
    /// `description`; each must be present and non-empty.
    pub fn execute(&self, input: &JsonValue, _ctx: &ToolContext) -> (r: Result<ToolAction, ToolError>)
        ensures
            match text_field(*input, "name"@) {
                None => invalid_input(r, "missing name"@),
                Some(n) => match items_field(*input, "tags"@) {
                    None => invalid_input(r, "missing tags"@),
                    Some(items) => match text_field(*input, "description"@) {
                        None => invalid_input(r, "missing description"@),
                        Some(d) => if n.len() == 0 {
                            invalid_input(r, "name must not be empty"@)
                        } else if crate::json::texts_in(items).len() == 0 {
                            invalid_input(r, "tags must not be empty"@)
                        } else if d.len() == 0 {
                            invalid_input(r, "description must not be empty"@)
                        } else {
                            r matches Ok(ToolAction::SubmitProfileUpdate { name, tags, description })
                                && name@ == n && texts(tags@) == crate::json::texts_in(items)
                                && description@ == d
                        },
                    },
                },
            },
    {
        let name = match text_field_of(input, "name") {
            Some(n) => n,
            None => {
                return Err(invalid("missing name"));
            },
        };
        let has_tags = match input.get("tags") {
            Some(t) => t.as_array().is_some(),
            None => false,
        };
        if !has_tags {
            return Err(invalid("missing tags"));
        }
        let tags = texts_field_of(input, "tags");
        let description = match text_field_of(input, "description") {
            Some(d) => d,
            None => {
                return Err(invalid("missing description"));
            },
        };
        if name.as_str().is_empty() {
            return Err(invalid("name must not be empty"));
        }
        if tags.len() == 0 {
            return Err(invalid("tags must not be empty"));
        }
        if description.as_str().is_empty() {
            return Err(invalid("description must not be empty"));
        }
        Ok(ToolAction::SubmitProfileUpdate { name, tags, description })
    }
}

/// The trimmed text under `key`, or the empty text.
pub open spec fn trimmed_field(input: JsonValue, key: Seq<char>) -> Seq<char> {
    match text_field(input, key) {
        Some(t) => crate::text::trim(t),
        None => Seq::empty(),
    }
}

/// A skill name may not name another directory: no `/`, no `\`, no `..`.
pub open spec fn unsafe_skill_name(n: Seq<char>) -> bool {
    n.contains('/') || n.contains('\\') || crate::text::has_double_dot(n)
}

/// Submits a new skill's name and description.
pub struct SubmitSkillTool;

impl SubmitSkillTool {
    pub fn name(&self) -> (r: &'static str)
        ensures
            r@ == "submit_skill"@,
    {
        "submit_skill"
    }

    pub fn kind(&self) -> (r: ToolActionKind)
        ensures
            r == ToolActionKind::Sync,
    {
        ToolActionKind::Sync
    }

    /// Reads `name` and `description` (absent or non-text counts as empty)
    /// and trims both; both must be non-empty and the name must be safe.
    pub fn execute(&self, input: &JsonValue, _ctx: &ToolContext) -> (r: Result<ToolAction, ToolError>)
        ensures
            ({
                let n = trimmed_field(*input, "name"@);
                let d = trimmed_field(*input, "description"@);
                if n.len() == 0 {
                    invalid_input(r, "name is required and must not be empty"@)
                } else if unsafe_skill_name(n) {
                    invalid_input(r, "skill name must not contain path separators or '..'"@)
                } else if d.len() == 0 {
                    invalid_input(r, "description is required and must not be empty"@)
                } else {
                    r matches Ok(ToolAction::SubmitSkillCandidate { name, description })
                        && name@ == n && description@ == d
                }
            }),
    {
        let name = match text_field_of(input, "name") {
            Some(t) => crate::text::trim_str(t.as_str()),
            None => String::new(),
        };
        let description = match text_field_of(input, "description") {
            Some(t) => crate::text::trim_str(t.as_str()),
            None => String::new(),
        };
        if name.as_str().is_empty() {
            return Err(invalid("name is required and must not be empty"));
        }
        let cs = crate::text::chars_of(name.as_str());
        if crate::text::contains_char(&cs, '/') || crate::text::contains_char(&cs, '\\')
            || crate::text::contains_double_dot(&cs) {
            return Err(invalid("skill name must not contain path separators or '..'"));
        }
        if description.as_str().is_empty() {
            return Err(invalid("description is required and must not be empty"));
        }
        Ok(ToolAction::SubmitSkillCandidate { name, description })
    }
}

/// Creates a batch of sub-tasks that may depend on each other.
pub struct CreateTasksTool;

impl CreateTasksTool {
    pub fn name(&self) -> (r: &'static str)
        ensures
            r@ == "create_tasks"@,
    {
        "create_tasks"
    }

    pub fn kind(&self) -> (r: ToolActionKind)
        ensures
            r == ToolActionKind::Sync,
    {
        ToolActionKind::Sync
    }

    /// Reads the batch (see `parse_create_tasks_params`); a refused batch is
    /// invalid input with the parser's message.
    pub fn execute(&self, input: &JsonValue, _ctx: &ToolContext) -> (r: Result<ToolAction, ToolError>)
        ensures
            match checked_definitions(*input) {
                Err(e) => invalid_input(r, e),
                Ok(defs) => if has_cycle(defs) {
                    exists|v: int|
                        0 <= v < defs.len() && on_cycle(defs, v) && invalid_input(
                            r,
                            cycle_message(#[trigger] defs[v].name),
                        )
                } else {
                    r matches Ok(ToolAction::CreateBatch(v)) && defs_view(v@) == defs
                },
            },
    {
        match parse_create_tasks_params(input) {
            Ok(defs) => Ok(ToolAction::CreateBatch(defs)),
            Err(e) => Err(ToolError::InvalidInput(e)),
        }
    }
}

/// The agent name a spawn asks for: `name`, else `child-agent`.
pub open spec fn spawn_name(input: JsonValue) -> Seq<char> {
    match text_field(input, "name"@) {
        Some(n) => n,
        None => "child-agent"@,
    }
}

/// Reads a spawn request: `name` (default `child-agent`), `model`,
/// `description` (default empty) and `tools` (the string elements of an
/// array; none when absent).
pub fn parse_spawn_agent_params(input: &JsonValue) -> (r: (String, Option<String>, String, Vec<String>))
    ensures
        r.0@ == spawn_name(*input),
        opt_view(r.1) == text_field(*input, "model"@),
        r.2@ == match text_field(*input, "description"@) {
            Some(d) => d,
            None => Seq::empty(),
        },
        texts(r.3@) == texts_field(*input, "tools"@),
{
    let name = match text_field_of(input, "name") {
        Some(n) => n,
        None => "child-agent".to_owned(),
    };
    let model = text_field_of(input, "model");
    let description = match text_field_of(input, "description") {
        Some(d) => d,
        None => String::new(),
    };
    let tools = texts_field_of(input, "tools");
    (name, model, description, tools)
}

/// Spawns a child agent.
pub struct SpawnAgentTool;

impl SpawnAgentTool {
    pub fn name(&self) -> (r: &'static str)
        ensures
            r@ == "spawn_agent"@,
    {
        "spawn_agent"
    }

    pub fn kind(&self) -> (r: ToolActionKind)
        ensures
            r == ToolActionKind::Sync,
    {
        ToolActionKind::Sync
    }

    /// Always accepts (see `parse_spawn_agent_params`).
    pub fn execute(&self, input: &JsonValue, _ctx: &ToolContext) -> (r: Result<ToolAction, ToolError>)
        ensures
            r matches Ok(ToolAction::SpawnAgent { name, model, description, tools }) && name@
                == spawn_name(*input) && opt_view(model) == text_field(*input, "model"@)
                && description@ == match text_field(*input, "description"@) {
                Some(d) => d,
                None => Seq::empty(),
            } && texts(tools@) == texts_field(*input, "tools"@),
    {
        let (name, model, description, tools) = parse_spawn_agent_params(input);
        Ok(ToolAction::SpawnAgent { name, model, description, tools })
    }
}

} // verus!
