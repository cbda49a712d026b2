//! The tool-calling loop of an agent: each model answer that calls tools
//! opens a round, the round's results are gathered, and a budget of rounds
//! bounds the loop.

use vstd::prelude::*;
use crate::domain::{error_text, AgentId, FailureReason, Task, TaskId, TaskStatus, ToolError, WaitingReason};
use crate::orchestrator::{lemma_task_position_pub, task_index, task_position};
use crate::permissions::ToolDefinition;
use crate::confirmations::ToolExecutionRequest;
use crate::json::{read_tool_input, tool_input_of};
use crate::orchestrator::ToolCallRequest;
use crate::text::{concat2, concat5, decimal, i64_text};

verus! {

/// Past this many times the round budget, a loop is stopped for good.
pub const HARD_LIMIT_MULTIPLIER: u32 = 2;

/// A tool call the model asked for.
#[derive(Debug)]
pub struct LlmToolCall {
    pub id: String,
    pub name: String,
    /// The arguments as JSON text.
    pub arguments: String,
}

/// One message of a conversation with the model.
#[derive(Debug)]
pub enum ConversationMessage {
    System { content: String },
    User { content: String },
    Assistant {
        content: Option<String>,
        tool_calls: Vec<LlmToolCall>,
        reasoning_content: Option<String>,
    },
    Tool { tool_call_id: String, content: String },
}

/// The tool-calling loop of one task (or one work item of it).
#[derive(Debug)]
pub struct ToolCallingState {
    pub task_id: TaskId,
    pub agent_id: AgentId,
    /// The calls of the current round still to be answered.
    pub pending_tool_call_ids: Vec<String>,
    /// The number of the current round, from 1.
    pub iteration: u32,
    pub max_iterations: u32,
    pub conversation: Vec<ConversationMessage>,
    pub tools: Vec<ToolDefinition>,
    pub work_item_id: Option<u128>,
}

/// The loop a model answer belongs to: same task, same work item (or none).
pub open spec fn belongs_to(s: ToolCallingState, task_id: TaskId, work_item_id: Option<u128>) -> bool {
    s.task_id == task_id && s.work_item_id == work_item_id
}

/// The first loop of the task and work item.
pub fn find_calling_state(states: &[ToolCallingState], task_id: TaskId, work_item_id: Option<u128>) -> (r: Option<usize>)
    ensures
        r matches Some(i) ==> i < states@.len() && belongs_to(states@[i as int], task_id, work_item_id)
            && forall|k: int| 0 <= k < i ==> !belongs_to(#[trigger] states@[k], task_id, work_item_id),
        r is None ==> forall|k: int|
            0 <= k < states@.len() ==> !belongs_to(#[trigger] states@[k], task_id, work_item_id),
{
    let n = states.len();
    for i in 0..n
        invariant
            n == states@.len(),
            forall|k: int| 0 <= k < i ==> !belongs_to(#[trigger] states@[k], task_id, work_item_id),
    {
        if states[i].task_id == task_id && states[i].work_item_id == work_item_id {
            return Some(i);
        }
    }
    None
}

/// The ids of the calls, in order.
pub open spec fn call_ids(calls: Seq<LlmToolCall>) -> Seq<Seq<char>> {
    calls.map_values(|c: LlmToolCall| c.id@)
}

/// The texts of a sequence of strings.
pub open spec fn string_texts(v: Seq<String>) -> Seq<Seq<char>> {
    v.map_values(|s: String| s@)
}

/// The note a call gets in place of a result once the round budget is spent.
pub open spec fn budget_note(iteration: u32, max_iterations: u32) -> Seq<char> {
    "[TOOL_BUDGET_EXHAUSTED] 本轮工具调用次数已达上限 ("@ + decimal(iteration as int) + "/"@
        + decimal(max_iterations as int)
        + ")。请总结你目前取得的进展，并向用户说明下一步需要什么，等待用户决策是否继续。"@
}

/// Why a loop was stopped for good.
pub open spec fn hard_limit_message(iteration: int, max_iterations: u32) -> Seq<char> {
    "tool calling exceeded absolute hard limit ("@ + decimal(iteration) + "/"@ + decimal(
        max_iterations as int,
    ) + ")"@
}

fn budget_note_text(iteration: u32, max_iterations: u32) -> (s: String)
    ensures
        s@ == budget_note(iteration, max_iterations),
{
    let a = i64_text(iteration as i64);
    let b = i64_text(max_iterations as i64);
    concat5(
        "[TOOL_BUDGET_EXHAUSTED] 本轮工具调用次数已达上限 (",
        a.as_str(),
        "/",
        b.as_str(),
        ")。请总结你目前取得的进展，并向用户说明下一步需要什么，等待用户决策是否继续。",
    )
}

fn hard_limit_text(iteration: u64, max_iterations: u32) -> (s: String)
    requires
        iteration <= i64::MAX,
    ensures
        s@ == hard_limit_message(iteration as int, max_iterations),
{
    let a = i64_text(iteration as i64);
    let b = i64_text(max_iterations as i64);
    concat5("tool calling exceeded absolute hard limit (", a.as_str(), "/", b.as_str(), ")")
}

/// A result made up for a call the budget no longer allows.
#[derive(Debug)]
pub struct SyntheticResult {
    pub tool_call_id: String,
    pub tool_name: String,
    pub exit_code: i32,
    pub status: String,
    pub output: String,
}

/// What a model answer asking for tools does to the loop.
#[derive(Debug)]
pub enum CallingOutcome {
    /// A new loop at round 1; the calls go out as the execution requests.
    Started { state: ToolCallingState, requests: Vec<ToolExecutionRequest> },
    /// The next round; the calls go out as the execution requests.
    Continued { state: ToolCallingState, requests: Vec<ToolExecutionRequest> },
    /// The budget is spent: the calls are answered with a note instead, and
    /// the loop waits for them to come back.
    BudgetExhausted { state: ToolCallingState, results: Vec<SyntheticResult> },
    /// A work item's loop ran over its budget and ends.
    WorkItemLimit,
    /// The loop ran far past its budget and ends; a task of its own fails.
    HardLimit,
}

/// A model answer that asks for tools.
#[derive(Debug)]
pub struct ToolCallsResponse {
    pub agent_id: AgentId,
    pub work_item_id: Option<u128>,
    /// The conversation the answer continues, if the request carried one.
    pub conversation: Option<Vec<ConversationMessage>>,
    pub system_prompt: Option<String>,
    pub prompt: String,
    pub tools: Vec<ToolDefinition>,
    pub calls: Vec<LlmToolCall>,
    pub reasoning_content: Option<String>,
}

/// The round that follows round `iteration` of a loop with budget `max`:
/// within budget it continues; past twice the budget it stops; past the
/// budget a work item's loop stops and a task's loop gets notes instead of
/// results.
pub open spec fn next_round_kind(iteration: u32, max: u32, is_work_item: bool) -> int {
    let next = iteration + 1;
    if next <= max {
        0
    } else if next > HARD_LIMIT_MULTIPLIER * max {
        3
    } else if is_work_item {
        2
    } else {
        1
    }
}

/// A system turn with the text.
pub open spec fn is_system_turn(m: ConversationMessage, text: Seq<char>) -> bool {
    m matches ConversationMessage::System { content } && content@ == text
}

/// A user turn with the text.
pub open spec fn is_user_turn(m: ConversationMessage, text: Seq<char>) -> bool {
    m matches ConversationMessage::User { content } && content@ == text
}

/// The assistant turn that asks for the calls.
pub open spec fn asks_for(m: ConversationMessage, calls: Seq<LlmToolCall>, reasoning: Option<String>) -> bool {
    m matches ConversationMessage::Assistant { content, tool_calls, reasoning_content }
        && content is None && tool_calls@ == calls && reasoning_content == reasoning
}

/// The conversation of a new loop: the one the answer continues, else the
/// system prompt (if any) and the user prompt; then the turn asking for the calls.
pub open spec fn opening_conversation(r: ToolCallsResponse, conv: Seq<ConversationMessage>) -> bool {
    &&& conv.len() >= 1
    &&& asks_for(conv.last(), r.calls@, r.reasoning_content)
    &&& match r.conversation {
        Some(c) if c@.len() > 0 => conv.drop_last() == c@,
        _ => match r.system_prompt {
            Some(sp) => conv.len() == 3 && is_system_turn(conv[0], sp@) && is_user_turn(
                conv[1],
                r.prompt@,
            ),
            None => conv.len() == 2 && is_user_turn(conv[0], r.prompt@),
        },
    }
}

/// `after` waits for tools since `now`, otherwise as `before`.
pub open spec fn waits_for_tools(before: Task, after: Task, now: i64) -> bool {
    after == Task { status: TaskStatus::Waiting(WaitingReason::ToolExecution), updated_at: now, ..before }
}

/// `after` failed with `msg` at `now`, otherwise as `before`.
pub open spec fn failed_with(before: Task, after: Task, msg: Seq<char>, now: i64) -> bool {
    &&& after == Task {
        status: TaskStatus::Failed(FailureReason::AgentError),
        last_error: after.last_error,
        updated_at: now,
        ..before
    }
    &&& after.last_error matches Some(m) && m@ == msg
}

/// What a model answer asking for tools does to the task (see `on_tool_calls`).
pub open spec fn task_after_calls(
    t: Task,
    after: Task,
    existing: Option<ToolCallingState>,
    work_item_id: Option<u128>,
    now: i64,
) -> bool {
    match existing {
        None => if work_item_id is None {
            waits_for_tools(t, after, now)
        } else {
            after == t
        },
        Some(e) => {
            let kind = next_round_kind(e.iteration, e.max_iterations, e.work_item_id is Some);
            if kind == 0 && work_item_id is None {
                waits_for_tools(t, after, now)
            } else if kind == 1 && !t.status.spec_is_terminal() {
                waits_for_tools(t, after, now)
            } else if kind == 3 && e.work_item_id is None {
                failed_with(t, after, hard_limit_message(e.iteration + 1, e.max_iterations), now)
            } else {
                after == t
            }
        },
    }
}

/// `reqs` are the execution requests for `calls`, one per call in order: the
/// call's task, agent and work item, its tool and id, and the input its
/// argument text reads as; none waits on a confirmation yet.
pub open spec fn requests_for(
    reqs: Seq<ToolExecutionRequest>,
    task_id: TaskId,
    agent_id: AgentId,
    work_item_id: Option<u128>,
    calls: Seq<LlmToolCall>,
) -> bool {
    &&& reqs.len() == calls.len()
    &&& forall|k: int|
        0 <= k < calls.len() ==> {
            let q = #[trigger] reqs[k];
            &&& q.call.task_id == task_id
            &&& q.call.agent_id == agent_id
            &&& q.call.tool_name@ == calls[k].name@
            &&& q.call.tool_call_id@ == calls[k].id@
            &&& q.tool_input == tool_input_of(calls[k].arguments@)
            &&& q.work_item_id == work_item_id
            &&& q.pending_confirmation_id is None
        }
}

/// The execution requests for the calls of a model answer (see `requests_for`).
pub fn execution_requests(
    task_id: TaskId,
    agent_id: AgentId,
    work_item_id: Option<u128>,
    calls: &Vec<LlmToolCall>,
) -> (reqs: Vec<ToolExecutionRequest>)
    ensures
        requests_for(reqs@, task_id, agent_id, work_item_id, calls@),
{
    let n = calls.len();
    let mut reqs: Vec<ToolExecutionRequest> = Vec::new();
    for i in 0..n
        invariant
            n == calls@.len(),
            reqs@.len() == i,
            forall|k: int|
                0 <= k < i ==> {
                    let q = #[trigger] reqs@[k];
                    &&& q.call.task_id == task_id
                    &&& q.call.agent_id == agent_id
                    &&& q.call.tool_name@ == calls@[k].name@
                    &&& q.call.tool_call_id@ == calls@[k].id@
                    &&& q.tool_input == tool_input_of(calls@[k].arguments@)
                    &&& q.work_item_id == work_item_id
                    &&& q.pending_confirmation_id is None
                },
    {
        let c = &calls[i];
        reqs.push(
            ToolExecutionRequest {
                call: ToolCallRequest {
                    task_id,
                    agent_id,
                    tool_name: c.name.clone(),
                    tool_call_id: c.id.clone(),
                },
                tool_input: read_tool_input(c.arguments.as_str()),
                work_item_id,
                pending_confirmation_id: None,
            },
        );
    }
    reqs
}

/// Handles a model answer that asks for tools (see `next_round_kind`). The
/// task, unless the loop belongs to a work item, fails on the hard limit and
/// otherwise waits for the tools (a finished task keeps its status when the
/// budget is spent).
pub fn on_tool_calls(
    tasks: &mut Vec<Task>,
    task_id: TaskId,
    existing: Option<ToolCallingState>,
    response: ToolCallsResponse,
    now: i64,
    max_tool_iterations: u32,
) -> (out: CallingOutcome)
    requires
        existing matches Some(s) ==> s.iteration < u32::MAX,
    ensures
        final(tasks)@.len() == old(tasks)@.len(),
        forall|i: int|
            0 <= i < old(tasks)@.len() && i != task_position(old(tasks)@, task_id) ==> #[trigger] final(tasks)@[i]
                == old(tasks)@[i],
        match existing {
            None => out matches CallingOutcome::Started { state: s, requests } && requests_for(
                requests@,
                task_id,
                response.agent_id,
                response.work_item_id,
                response.calls@,
            ) && s.task_id == task_id && s.agent_id
                == response.agent_id && s.iteration == 1 && s.max_iterations == max_tool_iterations
                && string_texts(s.pending_tool_call_ids@) == call_ids(response.calls@)
                && s.work_item_id == response.work_item_id && s.tools@ == response.tools@
                && opening_conversation(response, s.conversation@),
            Some(e) => {
                let kind = next_round_kind(e.iteration, e.max_iterations, e.work_item_id is Some);
                &&& kind == 0 ==> (out matches CallingOutcome::Continued { state: s, requests } && requests_for(
                    requests@,
                    task_id,
                    response.agent_id,
                    response.work_item_id,
                    response.calls@,
                ) && s.task_id == task_id
                    && s.agent_id == response.agent_id && s.iteration == e.iteration + 1
                    && s.max_iterations == e.max_iterations && string_texts(
                    s.pending_tool_call_ids@,
                ) == call_ids(response.calls@) && s.work_item_id == e.work_item_id && s.tools@
                    == e.tools@ && s.conversation@.len() == e.conversation@.len() + 1
                    && s.conversation@.drop_last() == e.conversation@ && asks_for(
                    s.conversation@.last(),
                    response.calls@,
                    response.reasoning_content,
                ))
                &&& kind == 1 ==> (out matches CallingOutcome::BudgetExhausted { state: s, results }
                    && s.iteration == e.iteration + 1 && s.max_iterations == e.max_iterations
                    && s.work_item_id == e.work_item_id && string_texts(s.pending_tool_call_ids@)
                    == call_ids(response.calls@) && s.conversation@.drop_last() == e.conversation@
                    && results@.len() == response.calls@.len() && forall|k: int|
                    0 <= k < results@.len() ==> {
                        let res = #[trigger] results@[k];
                        &&& res.tool_call_id@ == response.calls@[k].id@
                        &&& res.tool_name@ == response.calls@[k].name@
                        &&& res.exit_code == 1
                        &&& res.status@ == "tool_budget_exhausted"@
                        &&& res.output@ == budget_note(e.iteration, e.max_iterations)
                    })
                &&& kind == 2 ==> out is WorkItemLimit
                &&& kind == 3 ==> out is HardLimit
            },
        },
        task_position(old(tasks)@, task_id) >= 0 ==> {
            let p = task_position(old(tasks)@, task_id);
            task_after_calls(old(tasks)@[p], final(tasks)@[p], existing, response.work_item_id, now)
        },
{
    proof {
        lemma_task_position_pub(tasks@, task_id);
    }
    let ToolCallsResponse {
        agent_id,
        work_item_id,
        conversation,
        system_prompt,
        prompt,
        tools,
        calls,
        reasoning_content,
    } = response;
    let mut pending: Vec<String> = Vec::new();
    let n = calls.len();
    for i in 0..n
        invariant
            n == calls@.len(),
            string_texts(pending@) =~= call_ids(calls@).take(i as int),
    {
        let ghost before = pending@;
        let id = calls[i].id.clone();
        pending.push(id);
        assert(pending@ == before.push(id));
        assert(string_texts(pending@) =~= string_texts(before).push(id@));
        assert(call_ids(calls@).take(i + 1) =~= call_ids(calls@).take(i as int).push(calls@[i as int].id@));
        assert(string_texts(pending@) =~= call_ids(calls@).take(i + 1));
    }
    assert(call_ids(calls@).take(n as int) =~= call_ids(calls@));
    let requests = execution_requests(task_id, agent_id, work_item_id, &calls);
    let idx = task_index(tasks.as_slice(), task_id);
    match existing {
        None => {
            let ask = ConversationMessage::Assistant {
                content: None,
                tool_calls: calls,
                reasoning_content,
            };
            let mut conv: Vec<ConversationMessage> = match conversation {
                Some(c) => {
                    if c.len() > 0 {
                        c
                    } else {
                        opening_turns(system_prompt, prompt)
                    }
                },
                None => opening_turns(system_prompt, prompt),
            };
            let ghost before = conv@;
            let ghost ask_g = ask;
            conv.push(ask);
            assert(conv@.drop_last() =~= before);
            assert(conv@.last() == ask_g);
            if work_item_id.is_none() {
                if let Some(i) = idx {
                    tasks[i].status = TaskStatus::Waiting(WaitingReason::ToolExecution);
                    tasks[i].updated_at = now;
                }
            }
            CallingOutcome::Started {
                state: ToolCallingState {
                    task_id,
                    agent_id,
                    pending_tool_call_ids: pending,
                    iteration: 1,
                    max_iterations: max_tool_iterations,
                    conversation: conv,
                    tools,
                    work_item_id,
                },
                requests,
            }
        },
        Some(e) => {
            let next: u32 = e.iteration + 1;
            let limit: u64 = 2 * (e.max_iterations as u64);
            if next <= e.max_iterations {
                let ToolCallingState { conversation: mut conv, tools: old_tools, .. } = e;
                let ghost before = conv@;
                conv.push(
                    ConversationMessage::Assistant { content: None, tool_calls: calls, reasoning_content },
                );
                assert(conv@.drop_last() =~= before);
                if work_item_id.is_none() {
                    if let Some(i) = idx {
                        tasks[i].status = TaskStatus::Waiting(WaitingReason::ToolExecution);
                        tasks[i].updated_at = now;
                    }
                }
                return CallingOutcome::Continued {
                    state: ToolCallingState {
                        task_id,
                        agent_id,
                        pending_tool_call_ids: pending,
                        iteration: next,
                        max_iterations: e.max_iterations,
                        conversation: conv,
                        tools: old_tools,
                        work_item_id: e.work_item_id,
                    },
                    requests,
                };
            }
            if next as u64 > limit {
                if e.work_item_id.is_none() {
                    if let Some(i) = idx {
                        let msg = hard_limit_text(next as u64, e.max_iterations);
                        tasks[i].status = TaskStatus::Failed(FailureReason::AgentError);
                        tasks[i].last_error = Some(msg);
                        tasks[i].updated_at = now;
                    }
                }
                return CallingOutcome::HardLimit;
            }
            if e.work_item_id.is_some() {
                return CallingOutcome::WorkItemLimit;
            }
            let mut results: Vec<SyntheticResult> = Vec::new();
            for k in 0..n
                invariant
                    n == calls@.len(),
                    results@.len() == k,
                    forall|j: int|
                        0 <= j < k ==> {
                            let res = #[trigger] results@[j];
                            &&& res.tool_call_id@ == calls@[j].id@
                            &&& res.tool_name@ == calls@[j].name@
                            &&& res.exit_code == 1
                            &&& res.status@ == "tool_budget_exhausted"@
                            &&& res.output@ == budget_note(e.iteration, e.max_iterations)
                        },
            {
                results.push(
                    SyntheticResult {
                        tool_call_id: calls[k].id.clone(),
                        tool_name: calls[k].name.clone(),
                        exit_code: 1,
                        status: "tool_budget_exhausted".to_owned(),
                        output: budget_note_text(e.iteration, e.max_iterations),
                    },
                );
            }
            let iteration = e.iteration;
            let max_iterations = e.max_iterations;
            let ToolCallingState { conversation: mut conv, tools: old_tools, work_item_id: wid, .. } = e;
            let ghost before = conv@;
            conv.push(
                ConversationMessage::Assistant { content: None, tool_calls: calls, reasoning_content },
            );
            assert(conv@.drop_last() =~= before);
            if let Some(i) = idx {
                if !tasks[i].status.is_terminal() {
                    tasks[i].status = TaskStatus::Waiting(WaitingReason::ToolExecution);
                    tasks[i].updated_at = now;
                }
            }
            CallingOutcome::BudgetExhausted {
                state: ToolCallingState {
                    task_id,
                    agent_id,
                    pending_tool_call_ids: pending,
                    iteration: next,
                    max_iterations,
                    conversation: conv,
                    tools: old_tools,
                    work_item_id: wid,
                },
                results,
            }
        },
    }
}

/// The first turns of a new conversation: the system prompt, if any, and
/// the user prompt.
fn opening_turns(system_prompt: Option<String>, prompt: String) -> (conv: Vec<ConversationMessage>)
    ensures
        match system_prompt {
            Some(sp) => conv@.len() == 2 && is_system_turn(conv@[0], sp@) && is_user_turn(
                conv@[1],
                prompt@,
            ),
            None => conv@.len() == 1 && is_user_turn(conv@[0], prompt@),
        },
{
    let mut conv: Vec<ConversationMessage> = Vec::new();
    match system_prompt {
        Some(sp) => {
            conv.push(ConversationMessage::System { content: sp });
        },
        None => {},
    }
    conv.push(ConversationMessage::User { content: prompt });
    conv
}

/// A tool result waiting to be fed back: the call it answers and its output
/// (the JSON text of a value, or the error).
#[derive(Debug)]
pub struct RoundResult {
    pub tool_call_id: Option<String>,
    pub output: Result<String, ToolError>,
}

/// The call a result answers.
pub open spec fn result_id(r: RoundResult) -> Option<Seq<char>> {
    match r.tool_call_id {
        Some(t) => Some(t@),
        None => None,
    }
}

/// How a result reads in the conversation.
pub open spec fn result_text(r: RoundResult) -> Seq<char> {
    match r.output {
        Ok(t) => t@,
        Err(e) => "error: "@ + error_text(e),
    }
}

/// The results a round takes, in order, with the calls they answer: the
/// first result for each pending call.
pub open spec fn pick(results: Seq<RoundResult>, pending: Seq<Seq<char>>) -> (Seq<int>, Seq<Seq<char>>)
    decreases results.len(),
{
    if results.len() == 0 {
        (Seq::empty(), Seq::empty())
    } else {
        let prev = pick(results.drop_last(), pending);
        match result_id(results.last()) {
            Some(id) => if pending.contains(id) && !prev.1.contains(id) {
                (prev.0.push(results.len() - 1), prev.1.push(id))
            } else {
                prev
            },
            None => prev,
        }
    }
}

/// The result answers one of the pending calls.
pub open spec fn answers_pending(r: RoundResult, pending: Seq<Seq<char>>) -> bool {
    result_id(r) matches Some(id) && pending.contains(id)
}

/// The task waits on tools (or on what they started).
pub open spec fn waits_on_tools(s: TaskStatus) -> bool {
    s == TaskStatus::Waiting(WaitingReason::ToolExecution) || s == TaskStatus::Waiting(
        WaitingReason::Session,
    ) || s == TaskStatus::Waiting(WaitingReason::SubTaskBatch)
}

/// What gathering a round's results decided.
#[derive(Debug)]
pub enum RoundDecision {
    /// Nothing to do now.
    Idle,
    /// Some calls of the round are still unanswered.
    Waiting,
    /// The loop ran far past its budget and ends; the results it took are listed.
    Stopped { consumed: Vec<usize> },
    /// A work item's loop is over budget and ends.
    WorkItemStopped { consumed: Vec<usize> },
    /// The model is to be asked again with the extended conversation.
    FollowUp { consumed: Vec<usize> },
}

/// A tool turn answering `id` with `text`.
pub open spec fn is_tool_turn(m: ConversationMessage, id: Seq<char>, text: Seq<char>) -> bool {
    m matches ConversationMessage::Tool { tool_call_id, content } && tool_call_id@ == id
        && content@ == text
}

/// The loop is ready to look at its results: calls are pending, and its task
/// waits on them (a work item's loop also goes ahead once a result of the
/// round has come).
pub open spec fn round_ready(
    s: ToolCallingState,
    task_status: Option<TaskStatus>,
    results: Seq<RoundResult>,
) -> bool {
    let waiting = task_status matches Some(st) && waits_on_tools(st);
    let pending = string_texts(s.pending_tool_call_ids@);
    &&& pending.len() > 0
    &&& (waiting || s.work_item_id is Some)
    &&& (s.work_item_id is Some && !waiting ==> exists|j: int|
        0 <= j < results.len() && answers_pending(#[trigger] results[j], pending))
}

fn contains_text(v: &Vec<String>, t: &str) -> (r: bool)
    ensures
        r == string_texts(v@).contains(t@),
{
    let n = v.len();
    for i in 0..n
        invariant
            n == v@.len(),
            forall|k: int| 0 <= k < i ==> v@[k]@ != t@,
    {
        if crate::text::str_eq(v[i].as_str(), t) {
            assert(string_texts(v@)[i as int] == t@);
            return true;
        }
    }
    assert(!string_texts(v@).contains(t@)) by {
        if string_texts(v@).contains(t@) {
            let k = choose|k: int| 0 <= k < string_texts(v@).len() && string_texts(v@)[k] == t@;
            assert(v@[k]@ == t@);
        }
    }
    false
}

fn result_content(r: &RoundResult) -> (s: String)
    ensures
        s@ == result_text(*r),
{
    match &r.output {
        Ok(t) => t.clone(),
        Err(e) => {
            let d = e.describe();
            concat2("error: ", d.as_str())
        },
    }
}

fn task_status_of(tasks: &Vec<Task>, id: TaskId) -> (r: Option<TaskStatus>)
    ensures
        task_position(tasks@, id) >= 0 ==> r == Some(tasks@[task_position(tasks@, id)].status),
        task_position(tasks@, id) < 0 ==> r is None,
{
    proof {
        lemma_task_position_pub(tasks@, id);
    }
    match task_index(tasks.as_slice(), id) {
        Some(i) => Some(tasks[i].status),
        None => None,
    }
}

/// Gathers the results of the loop's round. Once every pending call has a
/// result, the round's results join the conversation as tool turns (the
/// first result per call, in the order they came) and nothing is pending any
/// more; then the budget decides: far past it the loop ends (and a task of
/// its own fails), past it a work item's loop ends, otherwise the model is
/// asked again and its task waits on the agent.
#[verifier::loop_isolation(false)]
pub fn collect_round(
    state: &mut ToolCallingState,
    results: &[RoundResult],
    tasks: &mut Vec<Task>,
    now: i64,
) -> (d: RoundDecision)
    ensures
        final(tasks)@.len() == old(tasks)@.len(),
        forall|i: int|
            0 <= i < old(tasks)@.len() && i != task_position(old(tasks)@, old(state).task_id)
                ==> #[trigger] final(tasks)@[i] == old(tasks)@[i],
        ({
            let p = task_position(old(tasks)@, old(state).task_id);
            let status = if p >= 0 {
                Some(old(tasks)@[p].status)
            } else {
                None
            };
            let pending = string_texts(old(state).pending_tool_call_ids@);
            let picked = pick(results@, pending);
            if !round_ready(*old(state), status, results@) {
                d is Idle && *final(state) == *old(state) && final(tasks)@ == old(tasks)@
            } else if exists|i: int| 0 <= i < pending.len() && !picked.1.contains(#[trigger] pending[i]) {
                d is Waiting && *final(state) == *old(state) && final(tasks)@ == old(tasks)@
            } else {
                let s0 = *old(state);
                let s1 = *final(state);
                let is_item = s0.work_item_id is Some;
                &&& s1.pending_tool_call_ids@.len() == 0
                &&& s1.task_id == s0.task_id && s1.agent_id == s0.agent_id
                &&& s1.iteration == s0.iteration && s1.max_iterations == s0.max_iterations
                &&& s1.work_item_id == s0.work_item_id && s1.tools == s0.tools
                &&& s1.conversation@.len() == s0.conversation@.len() + picked.0.len()
                &&& s1.conversation@.take(s0.conversation@.len() as int) == s0.conversation@
                &&& forall|k: int|
                    0 <= k < picked.0.len() ==> is_tool_turn(
                        #[trigger] s1.conversation@[s0.conversation@.len() + k],
                        picked.1[k],
                        result_text(results@[picked.0[k]]),
                    )
                &&& if s0.iteration >= s0.max_iterations && s0.iteration > HARD_LIMIT_MULTIPLIER
                    * s0.max_iterations {
                    &&& d matches RoundDecision::Stopped { consumed } && consumed@.map_values(
                        |u: usize| u as int,
                    ) == picked.0
                    &&& (p >= 0 && !is_item ==> failed_with(
                        old(tasks)@[p],
                        final(tasks)@[p],
                        hard_limit_message(s0.iteration as int, s0.max_iterations),
                        now,
                    ))
                    &&& (p < 0 || is_item ==> final(tasks)@ == old(tasks)@)
                } else if s0.iteration >= s0.max_iterations && is_item {
                    &&& d matches RoundDecision::WorkItemStopped { consumed } && consumed@.map_values(
                        |u: usize| u as int,
                    ) == picked.0
                    &&& final(tasks)@ == old(tasks)@
                } else {
                    &&& d matches RoundDecision::FollowUp { consumed } && consumed@.map_values(
                        |u: usize| u as int,
                    ) == picked.0
                    &&& (p >= 0 && !is_item && waits_on_tools(old(tasks)@[p].status)
                        ==> final(tasks)@[p] == Task {
                        status: TaskStatus::Waiting(WaitingReason::Agent),
                        updated_at: now,
                        ..old(tasks)@[p]
                    })
                    &&& (p < 0 || is_item || !waits_on_tools(old(tasks)@[p].status)
                        ==> final(tasks)@ == old(tasks)@)
                }
            }
        }),
{
    proof {
        lemma_task_position_pub(tasks@, state.task_id);
    }
    let ghost pending = string_texts(state.pending_tool_call_ids@);
    if state.pending_tool_call_ids.len() == 0 {
        return RoundDecision::Idle;
    }
    let status = task_status_of(tasks, state.task_id);
    let waiting = match status {
        Some(st) => st == TaskStatus::Waiting(WaitingReason::ToolExecution) || st
            == TaskStatus::Waiting(WaitingReason::Session) || st == TaskStatus::Waiting(
            WaitingReason::SubTaskBatch,
        ),
        None => false,
    };
    let is_item = state.work_item_id.is_some();
    if !waiting && !is_item {
        return RoundDecision::Idle;
    }
    // Pick the first result of each pending call.
    let mut picked: Vec<usize> = Vec::new();
    let mut ids: Vec<String> = Vec::new();
    let mut any_pending = false;
    let n = results.len();
    for j in 0..n
        invariant
            n == results@.len(),
            pending == string_texts(state.pending_tool_call_ids@),
            picked@.map_values(|u: usize| u as int) =~= pick(results@.take(j as int), pending).0,
            string_texts(ids@) =~= pick(results@.take(j as int), pending).1,
            ids@.len() == picked@.len(),
            forall|q: int| 0 <= q < picked@.len() ==> picked@[q] < j,
            any_pending == exists|k: int|
                0 <= k < j && answers_pending(#[trigger] results@[k], pending),
    {
        let ghost prefix = results@.take(j + 1);
        assert(prefix.drop_last() =~= results@.take(j as int));
        assert(prefix.last() == results@[j as int]);
        match &results[j].tool_call_id {
            Some(id) => {
                let in_pending = contains_text(&state.pending_tool_call_ids, id.as_str());
                if in_pending {
                    any_pending = true;
                    let seen = contains_text(&ids, id.as_str());
                    if !seen {
                        let ghost before_ids = ids@;
                        let ghost before_picked = picked@;
                        picked.push(j);
                        ids.push(id.clone());
                        assert(ids@ == before_ids.push(ids@.last()));
                        assert(string_texts(ids@) =~= string_texts(before_ids).push(id@));
                        assert(picked@ == before_picked.push(j));
                        assert(picked@.map_values(|u: usize| u as int) =~= before_picked.map_values(
                            |u: usize| u as int,
                        ).push(j as int));
                    }
                }
            },
            None => {},
        }
    }
    assert(results@.take(n as int) =~= results@);
    if is_item && !waiting && !any_pending {
        return RoundDecision::Idle;
    }
    // Every pending call must have been answered.
    let m = state.pending_tool_call_ids.len();
    for i in 0..m
        invariant
            m == state.pending_tool_call_ids@.len(),
            pending == string_texts(state.pending_tool_call_ids@),
            string_texts(ids@) == pick(results@, pending).1,
            forall|k: int| 0 <= k < i ==> string_texts(ids@).contains(#[trigger] pending[k]),
    {
        if !contains_text(&ids, state.pending_tool_call_ids[i].as_str()) {
            assert(!pick(results@, pending).1.contains(pending[i as int]));
            return RoundDecision::Waiting;
        }
    }
    // Extend the conversation with the round's results.
    let ghost conv0 = state.conversation@;
    let k_total = picked.len();
    for k in 0..k_total
        invariant
            k_total == picked@.len(),
            picked@.map_values(|u: usize| u as int) == pick(results@, pending).0,
            string_texts(ids@) == pick(results@, pending).1,
            ids@.len() == k_total,
            forall|q: int| 0 <= q < k_total ==> picked@[q] < results@.len(),
            state.conversation@.len() == conv0.len() + k,
            state.conversation@.take(conv0.len() as int) == conv0,
            state.task_id == old(state).task_id,
            state.agent_id == old(state).agent_id,
            state.iteration == old(state).iteration,
            state.max_iterations == old(state).max_iterations,
            state.work_item_id == old(state).work_item_id,
            state.tools == old(state).tools,
            state.pending_tool_call_ids == old(state).pending_tool_call_ids,
            forall|q: int|
                0 <= q < k ==> is_tool_turn(
                    #[trigger] state.conversation@[conv0.len() + q],
                    pick(results@, pending).1[q],
                    result_text(results@[pick(results@, pending).0[q]]),
                ),
    {
        let j = picked[k];
        let content = result_content(&results[j]);
        let call_id = ids[k].clone();
        let ghost before = state.conversation@;
        state.conversation.push(ConversationMessage::Tool { tool_call_id: call_id, content });
        assert(state.conversation@.take(conv0.len() as int) =~= before.take(conv0.len() as int));
        assert(string_texts(ids@)[k as int] == ids@[k as int]@);
        assert(picked@.map_values(|u: usize| u as int)[k as int] == j as int);
    }
    state.pending_tool_call_ids = Vec::new();
    let iteration = state.iteration;
    let max_iterations = state.max_iterations;
    if iteration >= max_iterations {
        if iteration as u64 > 2 * (max_iterations as u64) {
            if !is_item {
                match task_index(tasks.as_slice(), state.task_id) {
                    Some(i) => {
                        let msg = hard_limit_text(iteration as u64, max_iterations);
                        tasks[i].status = TaskStatus::Failed(FailureReason::AgentError);
                        tasks[i].last_error = Some(msg);
                        tasks[i].updated_at = now;
                    },
                    None => {},
                }
            }
            return RoundDecision::Stopped { consumed: picked };
        }
        if is_item {
            return RoundDecision::WorkItemStopped { consumed: picked };
        }
    }
    if !is_item && waiting {
        match task_index(tasks.as_slice(), state.task_id) {
            Some(i) => {
                tasks[i].status = TaskStatus::Waiting(WaitingReason::Agent);
                tasks[i].updated_at = now;
            },
            None => {},
        }
    }
    RoundDecision::FollowUp { consumed: picked }
}

/// A tool-calling loop cannot run for ever: whenever a model answer lets a
/// loop go on, its new round is one past the last and at most twice its
/// budget, so `HARD_LIMIT_MULTIPLIER * max_iterations - iteration` falls with
/// every answer until the loop stops.
pub proof fn lemma_calling_loop_bounded(iteration: u32, max_iterations: u32, is_work_item: bool)
    ensures
        next_round_kind(iteration, max_iterations, is_work_item) <= 1 ==> iteration + 1
            <= HARD_LIMIT_MULTIPLIER * max_iterations,
        next_round_kind(iteration, max_iterations, is_work_item) == 1 ==> !is_work_item,
        iteration + 1 > HARD_LIMIT_MULTIPLIER * max_iterations ==> next_round_kind(
            iteration,
            max_iterations,
            is_work_item,
        ) >= 2,
{
}

/// Some loop waits for the answer to the call with the id.
pub open spec fn awaited(states: Seq<ToolCallingState>, id: Seq<char>) -> bool {
    exists|i: int| 0 <= i < states.len() && string_texts(#[trigger] states[i].pending_tool_call_ids@).contains(id)
}

/// Some loop still waits for the answer to the call: the tool result must
/// stay for the orchestrator to collect instead of being discarded.
pub fn result_still_awaited(states: &[ToolCallingState], tool_call_id: &Option<String>) -> (r: bool)
    ensures
        r == match *tool_call_id {
            Some(id) => awaited(states@, id@),
            None => false,
        },
{
    let id = match tool_call_id {
        Some(id) => id,
        None => {
            return false;
        },
    };
    let n = states.len();
    for i in 0..n
        invariant
            n == states@.len(),
            *tool_call_id == Some(*id),
            forall|k: int| 0 <= k < i ==> !string_texts(#[trigger] states@[k].pending_tool_call_ids@).contains(id@),
    {
        if contains_text(&states[i].pending_tool_call_ids, id.as_str()) {
            assert(string_texts(states@[i as int].pending_tool_call_ids@).contains(id@));
            return true;
        }
    }
    false
}

} // verus!
