//! Decisions of the tool-action handler: which conversation a chat round
//! joins or opens, where a sub-task's results go, and where a submitted
//! experience lands.

use vstd::prelude::*;
use crate::domain::{same_channel, AgentId, ChannelId, FrontendKind, Task, TaskId, TaskStatus, ToolError, WaitingReason};
use crate::ids::{uuid_text, uuid_to_string};
use crate::orchestrator::{find_task, lemma_task_position_pub, task_index, task_position};
use crate::dispatch::{agent_has_tag, agent_has_tag_exec};
use crate::permissions::{Agent, AgentKind};
use crate::text::{concat2, concat3};

verus! {

/// Checks that `handle` names a chat of the current task that waits for its
/// next round, and gives the position of its task.
pub fn validate_chat_handle(tasks: &[Task], parent_task_id: TaskId, handle: TaskId) -> (r: Result<usize, ToolError>)
    ensures
        match find_task(tasks@, handle) {
            None => r matches Err(ToolError::NotFound(m)) && m@ == "chat handle "@ + uuid_text(handle),
            Some(child) => if child.parent_task_id != Some(parent_task_id) {
                r matches Err(ToolError::PermissionDenied(m)) && m@
                    == "chat handle does not belong to current task"@
            } else if child.status != TaskStatus::Waiting(WaitingReason::ChatAgent) {
                r matches Err(ToolError::InvalidInput(m)) && m@
                    == "chat handle is not in waiting state"@
            } else {
                r matches Ok(i) && i as int == task_position(tasks@, handle)
            },
        },
{
    proof {
        lemma_task_position_pub(tasks@, handle);
    }
    let i = match task_index(tasks, handle) {
        Some(i) => i,
        None => {
            let id = uuid_to_string(handle);
            return Err(ToolError::NotFound(concat2("chat handle ", id.as_str())));
        },
    };
    if tasks[i].parent_task_id != Some(parent_task_id) {
        return Err(
            ToolError::PermissionDenied("chat handle does not belong to current task".to_owned()),
        );
    }
    if tasks[i].status != TaskStatus::Waiting(WaitingReason::ChatAgent) {
        return Err(ToolError::InvalidInput("chat handle is not in waiting state".to_owned()));
    }
    Ok(i)
}

/// A persistent agent named `name`.
pub open spec fn named_persistent(a: Agent, name: Seq<char>) -> bool {
    a.kind == AgentKind::Persistent && a.name@ == name
}

/// The agent holds every tag.
pub open spec fn holds_tags(a: Agent, tags: Seq<Seq<char>>) -> bool {
    forall|k: int| 0 <= k < tags.len() ==> agent_has_tag(a, #[trigger] tags[k])
}

/// A persistent agent that holds every tag.
pub open spec fn tagged_persistent(a: Agent, tags: Seq<Seq<char>>) -> bool {
    a.kind == AgentKind::Persistent && holds_tags(a, tags)
}

/// `i` is the first persistent agent named `name`.
pub open spec fn first_named(agents: Seq<Agent>, i: int, name: Seq<char>) -> bool {
    0 <= i < agents.len() && named_persistent(agents[i], name) && forall|k: int|
        0 <= k < i ==> !named_persistent(#[trigger] agents[k], name)
}

/// `i` is the first persistent agent holding all tags.
pub open spec fn first_tagged(agents: Seq<Agent>, i: int, tags: Seq<Seq<char>>) -> bool {
    0 <= i < agents.len() && tagged_persistent(agents[i], tags) && forall|k: int|
        0 <= k < i ==> !tagged_persistent(#[trigger] agents[k], tags)
}

/// The agent a new chat goes to: the first persistent agent with the name,
/// else (with at least one tag asked for) the first persistent agent holding
/// all tags.
pub open spec fn chat_agent(agents: Seq<Agent>, name: Option<Seq<char>>, tags: Seq<Seq<char>>, r: Option<usize>) -> bool {
    if name matches Some(n) && exists|i: int| first_named(agents, i, n) {
        r matches Some(i) && first_named(agents, i as int, name->0)
    } else if tags.len() > 0 && exists|i: int| first_tagged(agents, i, tags) {
        r matches Some(i) && first_tagged(agents, i as int, tags)
    } else {
        r is None
    }
}

fn holds_all_tags(a: &Agent, tags: &Vec<String>) -> (r: bool)
    ensures
        r == holds_tags(*a, tags@.map_values(|t: String| t@)),
{
    let ghost tv = tags@.map_values(|t: String| t@);
    let n = tags.len();
    for k in 0..n
        invariant
            n == tags@.len(),
            tv == tags@.map_values(|t: String| t@),
            forall|q: int| 0 <= q < k ==> agent_has_tag(*a, #[trigger] tv[q]),
    {
        if !agent_has_tag_exec(a, &tags[k]) {
            assert(!agent_has_tag(*a, tv[k as int]));
            return false;
        }
    }
    assert(forall|q: int| 0 <= q < tv.len() ==> agent_has_tag(*a, #[trigger] tv[q]));
    true
}

/// Picks the agent of a new chat (see `chat_agent`).
#[verifier::loop_isolation(false)]
pub fn find_chat_agent(agents: &[Agent], name: Option<&str>, tags: &Vec<String>) -> (r: Option<usize>)
    ensures
        chat_agent(
            agents@,
            match name {
                Some(n) => Some(n@),
                None => None,
            },
            tags@.map_values(|t: String| t@),
            r,
        ),
{
    let ghost tv = tags@.map_values(|t: String| t@);
    let n = agents.len();
    if let Some(want) = name {
        for i in 0..n
            invariant
                n == agents@.len(),
                forall|k: int| 0 <= k < i ==> !named_persistent(#[trigger] agents@[k], want@),
        {
            if agents[i].kind == AgentKind::Persistent && crate::text::str_eq(
                agents[i].name.as_str(),
                want,
            ) {
                assert(first_named(agents@, i as int, want@));
                return Some(i);
            }
        }
        assert(!exists|i: int| first_named(agents@, i, want@));
    }
    if tags.len() == 0 {
        return None;
    }
    for i in 0..n
        invariant
            n == agents@.len(),
            tv == tags@.map_values(|t: String| t@),
            forall|k: int| 0 <= k < i ==> !tagged_persistent(#[trigger] agents@[k], tv),
    {
        if agents[i].kind == AgentKind::Persistent && holds_all_tags(&agents[i], tags) {
            assert(first_tagged(agents@, i as int, tv));
            return Some(i);
        }
    }
    assert(!exists|i: int| first_tagged(agents@, i, tv));
    None
}

/// The first message of a new chat: the context, if any, set before the message.
pub open spec fn opening_message(context: Option<Seq<char>>, message: Seq<char>) -> Seq<char> {
    match context {
        Some(c) => "[System context]\n"@ + c + "\n\n"@ + message,
        None => message,
    }
}

/// Builds the first message of a new chat (see `opening_message`).
pub fn chat_opening_message(context: Option<&str>, message: &str) -> (s: String)
    ensures
        s@ == opening_message(
            match context {
                Some(c) => Some(c@),
                None => None,
            },
            message@,
        ),
{
    match context {
        Some(c) => {
            let head = concat3("[System context]\n", c, "\n\n");
            concat2(head.as_str(), message)
        },
        None => message.to_owned(),
    }
}

/// The channel used when a parent task cannot be found.
pub open spec fn is_default_channel(c: ChannelId) -> bool {
    c.frontend == FrontendKind::Tui && c.user_id@ == "default"@ && c.thread_id is None
}

/// The origin channel that sub-tasks and chats of a task inherit: the
/// task's own, or the terminal's default one when the task is gone.
pub fn inherited_origin_channel(tasks: &[Task], task_id: TaskId) -> (r: Option<ChannelId>)
    ensures
        match find_task(tasks@, task_id) {
            Some(t) => match t.origin_channel {
                Some(c) => r matches Some(x) && same_channel(x, c),
                None => r is None,
            },
            None => r matches Some(x) && is_default_channel(x),
        },
{
    proof {
        lemma_task_position_pub(tasks@, task_id);
    }
    match task_index(tasks, task_id) {
        Some(i) => match &tasks[i].origin_channel {
            Some(c) => Some(c.duplicate()),
            None => None,
        },
        None => Some(
            ChannelId { frontend: FrontendKind::Tui, user_id: "default".to_owned(), thread_id: None },
        ),
    }
}

/// Where a submitted experience candidate goes.
#[derive(Debug, Clone, Copy, PartialEq, Eq, Structural)]
pub enum ExperienceDestination {
    /// The parent task's inbox, owned by the given agent.
    Parent { parent_task_id: TaskId, owner_agent_id: AgentId },
    /// The top level, when the task has no parent.
    Root,
}

/// A candidate of a sub-task goes up to its parent task's inbox (owned by
/// the parent's agent when known, else by the submitting agent); a
/// candidate of a top-level task is staged at the root.
pub fn experience_destination(tasks: &[Task], task_id: TaskId, parent_agent_id: Option<AgentId>, agent_id: AgentId) -> (d: ExperienceDestination)
    ensures
        match find_task(tasks@, task_id) {
            Some(t) => match t.parent_task_id {
                Some(pid) => d == ExperienceDestination::Parent {
                    parent_task_id: pid,
                    owner_agent_id: match parent_agent_id {
                        Some(a) => a,
                        None => agent_id,
                    },
                },
                None => d is Root,
            },
            None => d is Root,
        },
{
    proof {
        lemma_task_position_pub(tasks@, task_id);
    }
    let parent = match task_index(tasks, task_id) {
        Some(i) => tasks[i].parent_task_id,
        None => None,
    };
    match parent {
        Some(pid) => ExperienceDestination::Parent {
            parent_task_id: pid,
            owner_agent_id: match parent_agent_id {
                Some(a) => a,
                None => agent_id,
            },
        },
        None => ExperienceDestination::Root,
    }
}

/// What the runtime does once an agent asks the user a question.
#[derive(Debug)]
pub struct AskUserPrompt {
    /// Where the question is shown.
    pub channel: ChannelId,
    pub question: String,
    /// The call the answer will complete.
    pub tool_call_id: String,
    pub agent_id: AgentId,
}

/// Asks the user a question on the task's output channel: the task waits
/// for the answer. A task without an output channel cannot ask.
pub fn ask_user_step(
    tasks: &mut Vec<Task>,
    task_id: TaskId,
    question: String,
    tool_call_id: String,
    agent_id: AgentId,
) -> (r: Result<AskUserPrompt, ToolError>)
    ensures
        final(tasks)@.len() == old(tasks)@.len(),
        forall|i: int|
            0 <= i < old(tasks)@.len() && i != task_position(old(tasks)@, task_id) ==> #[trigger] final(tasks)@[i]
                == old(tasks)@[i],
        match find_task(old(tasks)@, task_id) {
            Some(t) if t.output_channel is Some => {
                let p = task_position(old(tasks)@, task_id);
                &&& final(tasks)@[p] == Task {
                    status: TaskStatus::Waiting(WaitingReason::AskUser),
                    ..old(tasks)@[p]
                }
                &&& r matches Ok(prompt) && same_channel(prompt.channel, t.output_channel->0)
                    && prompt.question@ == question@ && prompt.tool_call_id@ == tool_call_id@
                    && prompt.agent_id == agent_id
            },
            _ => final(tasks)@ == old(tasks)@ && (r matches Err(ToolError::InvalidInput(m)) && m@
                == "ask_user requires task with output_channel"@),
        },
{
    proof {
        lemma_task_position_pub(tasks@, task_id);
    }
    let i = match task_index(tasks.as_slice(), task_id) {
        Some(i) => i,
        None => {
            return Err(
                ToolError::InvalidInput("ask_user requires task with output_channel".to_owned()),
            );
        },
    };
    let channel = match &tasks[i].output_channel {
        Some(c) => c.duplicate(),
        None => {
            return Err(
                ToolError::InvalidInput("ask_user requires task with output_channel".to_owned()),
            );
        },
    };
    tasks[i].status = TaskStatus::Waiting(WaitingReason::AskUser);
    Ok(AskUserPrompt { channel, question, tool_call_id, agent_id })
}

} // verus!
