//! Task bookkeeping around tool calls: waiting on child tasks, collecting
//! their results, and restoring a task after a tool ran.

use vstd::prelude::*;

use crate::domain::{error_text, opt_text, AgentId, ExecutionError, FailureReason, Task, TaskId, TaskStatus, ToolError, WaitingReason};
use crate::json::JsonValue;
use crate::scheduling::UtcInstant;
use crate::ids::{uuid_text, uuid_to_string};
use crate::text::{concat2, concat3};

verus! {

/// The first task of `tasks` with id `id`.
pub open spec fn find_task(tasks: Seq<Task>, id: TaskId) -> Option<Task>
    decreases tasks.len(),
{
    if tasks.len() == 0 {
        None
    } else if tasks[0].id == id {
        Some(tasks[0])
    } else {
        find_task(tasks.drop_first(), id)
    }
}

/// The position of the first task with id `id`.
pub open spec fn task_position(tasks: Seq<Task>, id: TaskId) -> int
    decreases tasks.len(),
{
    if tasks.len() == 0 {
        -1
    } else if tasks[0].id == id {
        0
    } else {
        let p = task_position(tasks.drop_first(), id);
        if p < 0 {
            -1
        } else {
            p + 1
        }
    }
}

proof fn lemma_task_position(tasks: Seq<Task>, id: TaskId)
    ensures
        -1 <= task_position(tasks, id) < tasks.len(),
        task_position(tasks, id) >= 0 ==> find_task(tasks, id) == Some(
            tasks[task_position(tasks, id)],
        ) && tasks[task_position(tasks, id)].id == id,
        task_position(tasks, id) < 0 ==> find_task(tasks, id) is None,
        task_position(tasks, id) < 0 ==> forall|k: int| 0 <= k < tasks.len() ==> tasks[k].id != id,
        forall|k: int| 0 <= k < task_position(tasks, id) ==> tasks[k].id != id,
    decreases tasks.len(),
{
    if tasks.len() > 0 && tasks[0].id != id {
        lemma_task_position(tasks.drop_first(), id);
        assert forall|k: int| 0 < k < tasks.len() implies tasks[k].id == tasks.drop_first()[k
            - 1].id by {}
    }
}

/// Facts about `task_position`: in range, names a task with that id, and no
/// earlier task has it.
pub proof fn lemma_task_position_pub(tasks: Seq<Task>, id: TaskId)
    ensures
        -1 <= task_position(tasks, id) < tasks.len(),
        task_position(tasks, id) >= 0 ==> find_task(tasks, id) == Some(
            tasks[task_position(tasks, id)],
        ) && tasks[task_position(tasks, id)].id == id,
        task_position(tasks, id) < 0 ==> find_task(tasks, id) is None,
{
    lemma_task_position(tasks, id);
}

/// Index of the first task with id `id`.
pub fn task_index(tasks: &[Task], id: TaskId) -> (r: Option<usize>)
    ensures
        r matches Some(i) ==> i as int == task_position(tasks@, id),
        r is None ==> task_position(tasks@, id) < 0,
{
    proof {
        lemma_task_position(tasks@, id);
    }
    let n = tasks.len();
    for i in 0..n
        invariant
            n == tasks@.len(),
            forall|k: int| 0 <= k < i ==> tasks@[k].id != id,
            -1 <= task_position(tasks@, id) < n,
            task_position(tasks@, id) >= 0 ==> tasks@[task_position(tasks@, id)].id == id,
            forall|k: int| 0 <= k < task_position(tasks@, id) ==> tasks@[k].id != id,
            task_position(tasks@, id) < 0 ==> forall|k: int|
                0 <= k < tasks@.len() ==> tasks@[k].id != id,
    {
        if tasks[i].id == id {
            return Some(i);
        }
    }
    None
}

/// How one awaited child task stands.
#[derive(Debug)]
pub struct TaskWaitResult {
    pub task_id: String,
    pub status: TaskStatus,
    pub result: Option<String>,
    pub error: Option<String>,
}

/// The report for `id`: a missing task reads as `Pending`; a done task
/// gives its result summary, a failed one its last error.
pub open spec fn reports(r: TaskWaitResult, id: TaskId, tasks: Seq<Task>) -> bool {
    &&& r.task_id@ == uuid_text(id)
    &&& match find_task(tasks, id) {
        None => r.status == TaskStatus::Pending && r.result is None && r.error is None,
        Some(t) => {
            &&& r.status == t.status
            &&& opt_text(r.result) == if t.status == TaskStatus::Done {
                Some(t.result_summary@)
            } else {
                None
            }
            &&& opt_text(r.error) == if t.status is Failed {
                opt_text(t.last_error)
            } else {
                None
            }
        },
    }
}

fn clone_opt_string(o: &Option<String>) -> (c: Option<String>)
    ensures
        opt_text(c) == opt_text(*o),
{
    match o {
        Some(s) => Some(s.clone()),
        None => None,
    }
}

/// Collects the state of each awaited task, in the order asked.
pub fn collect_task_results(task_ids: &[TaskId], tasks: &[Task]) -> (out: Vec<TaskWaitResult>)
    ensures
        out@.len() == task_ids@.len(),
        forall|i: int| 0 <= i < task_ids@.len() ==> reports(#[trigger] out@[i], task_ids@[i], tasks@),
{
    let n = task_ids.len();
    let mut out: Vec<TaskWaitResult> = Vec::new();
    for i in 0..n
        invariant
            n == task_ids@.len(),
            out@.len() == i,
            forall|k: int| 0 <= k < i ==> reports(#[trigger] out@[k], task_ids@[k], tasks@),
    {
        let id = task_ids[i];
        proof {
            lemma_task_position(tasks@, id);
        }
        let text = uuid_to_string(id);
        let r = match task_index(tasks, id) {
            None => TaskWaitResult { task_id: text, status: TaskStatus::Pending, result: None, error: None },
            Some(j) => {
                let t = &tasks[j];
                let result = if t.status == TaskStatus::Done {
                    Some(t.result_summary.clone())
                } else {
                    None
                };
                let error = match t.status {
                    TaskStatus::Failed(_) => clone_opt_string(&t.last_error),
                    _ => None,
                };
                TaskWaitResult { task_id: text, status: t.status, result, error }
            },
        };
        out.push(r);
    }
    out
}

/// The first reason why the targets may not be awaited by `current`.
#[derive(Debug, Clone, Copy, PartialEq, Eq, Structural)]
pub enum OwnershipFailure {
    /// The current task does not exist.
    CurrentMissing,
    /// A target does not exist.
    TargetMissing(TaskId),
    /// A target is no child of the current task.
    NotChild(TaskId),
}

/// The first failing target, in order, of an ownership check.
pub open spec fn first_foreign_target(current: TaskId, targets: Seq<TaskId>, tasks: Seq<Task>) -> Option<
    OwnershipFailure,
>
    decreases targets.len(),
{
    if targets.len() == 0 {
        None
    } else {
        match find_task(tasks, targets[0]) {
            None => Some(OwnershipFailure::TargetMissing(targets[0])),
            Some(t) => if t.parent_task_id != Some(current) {
                Some(OwnershipFailure::NotChild(targets[0]))
            } else {
                first_foreign_target(current, targets.drop_first(), tasks)
            },
        }
    }
}

/// Why `current` may not await `targets`: it is missing, or the first target
/// that is missing or belongs to another parent.
pub open spec fn ownership_failure(current: TaskId, targets: Seq<TaskId>, tasks: Seq<Task>) -> Option<
    OwnershipFailure,
> {
    if find_task(tasks, current) is None {
        Some(OwnershipFailure::CurrentMissing)
    } else {
        first_foreign_target(current, targets, tasks)
    }
}

/// `e` is the error that reports the ownership failure `f` of `current`.
pub open spec fn ownership_error(f: OwnershipFailure, current: TaskId, e: ToolError) -> bool {
    match f {
        OwnershipFailure::CurrentMissing => e matches ToolError::NotFound(m) && m@ == "current task "@
            + uuid_text(current),
        OwnershipFailure::TargetMissing(t) => e matches ToolError::NotFound(m) && m@ == "task "@ + uuid_text(t),
        OwnershipFailure::NotChild(t) => e matches ToolError::PermissionDenied(m) && m@ == "task "@ + uuid_text(t)
            + " is not a child of current task"@,
    }
}

/// Checks that every target is a child of the current task.
pub fn validate_task_ownership(current_task_id: TaskId, target_task_ids: &[TaskId], tasks: &[Task]) -> (r:
    Result<(), ToolError>)
    ensures
        match ownership_failure(current_task_id, target_task_ids@, tasks@) {
            None => r is Ok,
            Some(f) => r matches Err(e) && ownership_error(f, current_task_id, e),
        },
{
    proof {
        lemma_task_position(tasks@, current_task_id);
    }
    if task_index(tasks, current_task_id).is_none() {
        let id_text = uuid_to_string(current_task_id);
        return Err(ToolError::NotFound(concat2("current task ", id_text.as_str())));
    }
    let n = target_task_ids.len();
    let ghost ts = target_task_ids@;
    assert(ts.subrange(0, n as int) =~= ts);
    let mut i: usize = 0;
    while i < n
        invariant
            i <= n,
            n == ts.len(),
            ts == target_task_ids@,
            find_task(tasks@, current_task_id) is Some,
            first_foreign_target(current_task_id, ts, tasks@) == first_foreign_target(
                current_task_id,
                ts.subrange(i as int, n as int),
                tasks@,
            ),
        decreases n - i,
    {
        let target = target_task_ids[i];
        let ghost rest = ts.subrange(i as int, n as int);
        assert(rest[0] == target);
        proof {
            lemma_task_position(tasks@, target);
        }
        match task_index(tasks, target) {
            None => {
                let id_text = uuid_to_string(target);
                return Err(ToolError::NotFound(concat2("task ", id_text.as_str())));
            },
            Some(j) => {
                if tasks[j].parent_task_id != Some(current_task_id) {
                    let id_text = uuid_to_string(target);
                    return Err(
                        ToolError::PermissionDenied(
                            concat3("task ", id_text.as_str(), " is not a child of current task"),
                        ),
                    );
                }
            },
        }
        assert(rest.drop_first() =~= ts.subrange(i + 1, n as int));
        i = i + 1;
    }
    Ok(())
}

/// The status a task takes after a tool returned: a task waiting on tool
/// execution becomes `Ready` unless a tool-calling loop still runs for it;
/// every other status stays.
pub open spec fn status_after_tool(status: TaskStatus, loop_running: bool) -> TaskStatus {
    if status == TaskStatus::Waiting(WaitingReason::ToolExecution) && !loop_running {
        TaskStatus::Ready
    } else {
        status
    }
}

/// Restores the task `task_id` after a tool returned (see `status_after_tool`);
/// `calling_state_task_ids` lists the tasks whose tool-calling loop still runs.
pub fn restore_task_after_tool(tasks: &mut Vec<Task>, calling_state_task_ids: &[TaskId], task_id: TaskId)
    ensures
        final(tasks)@.len() == old(tasks)@.len(),
        forall|i: int|
            0 <= i < old(tasks)@.len() && i != task_position(old(tasks)@, task_id) ==> #[trigger] final(tasks)@[i]
                == old(tasks)@[i],
        task_position(old(tasks)@, task_id) >= 0 ==> {
            let p = task_position(old(tasks)@, task_id);
            final(tasks)@[p] == Task {
                status: status_after_tool(
                    old(tasks)@[p].status,
                    calling_state_task_ids@.contains(task_id),
                ),
                ..old(tasks)@[p]
            }
        },
{
    proof {
        lemma_task_position(tasks@, task_id);
    }
    match task_index(tasks.as_slice(), task_id) {
        None => {},
        Some(i) => {
            if tasks[i].status == TaskStatus::Waiting(WaitingReason::ToolExecution) {
                let running = contains_id(calling_state_task_ids, task_id);
                let next = if running {
                    TaskStatus::Waiting(WaitingReason::ToolExecution)
                } else {
                    TaskStatus::Ready
                };
                tasks[i].status = next;
            }
        },
    }
}

/// Whether `ids` holds `id`.
pub fn contains_id(ids: &[u128], id: u128) -> (r: bool)
    ensures
        r == ids@.contains(id),
{
    let n = ids.len();
    for i in 0..n
        invariant
            n == ids@.len(),
            forall|k: int| 0 <= k < i ==> ids@[k] != id,
    {
        if ids[i] == id {
            assert(ids@[i as int] == id);
            return true;
        }
    }
    false
}

/// Clears the confirmation the task `task_id` waits on.
pub fn clear_task_pending_confirmation_id(tasks: &mut Vec<Task>, task_id: TaskId)
    ensures
        final(tasks)@.len() == old(tasks)@.len(),
        forall|i: int|
            0 <= i < old(tasks)@.len() && i != task_position(old(tasks)@, task_id) ==> #[trigger] final(tasks)@[i]
                == old(tasks)@[i],
        task_position(old(tasks)@, task_id) >= 0 ==> {
            let p = task_position(old(tasks)@, task_id);
            final(tasks)@[p] == Task { pending_confirmation_id: None, ..old(tasks)@[p] }
        },
{
    proof {
        lemma_task_position(tasks@, task_id);
    }
    match task_index(tasks.as_slice(), task_id) {
        None => {},
        Some(i) => {
            tasks[i].pending_confirmation_id = None;
        },
    }
}

/// A tool call the orchestrator is answering.
#[derive(Debug)]
pub struct ToolCallRequest {
    pub task_id: TaskId,
    pub agent_id: AgentId,
    pub tool_name: String,
    pub tool_call_id: String,
}

/// The answer to a tool call, as the agent loop receives it.
#[derive(Debug)]
pub struct ToolCallOutcome {
    pub task_id: TaskId,
    pub agent_id: AgentId,
    pub tool_name: String,
    pub tool_call_id: String,
    /// What the agent reads of a call that succeeded.
    pub content: String,
    /// The failure the agent sees, if the call failed.
    pub execution_error: Option<ExecutionError>,
    pub tool_output: Result<JsonValue, ToolError>,
    /// Whether the result has been fed back to the agent yet.
    pub processed: bool,
}

/// `out` answers `request` with the failure `error`: the call's task, agent,
/// tool and id, the error as text for the agent, and the error itself as the
/// tool's output.
pub open spec fn error_answer(out: ToolCallOutcome, request: ToolCallRequest, error: ToolError) -> bool {
    &&& out.task_id == request.task_id
    &&& out.agent_id == request.agent_id
    &&& out.tool_name@ == request.tool_name@
    &&& out.tool_call_id@ == request.tool_call_id@
    &&& out.content@ == Seq::<char>::empty()
    &&& out.execution_error matches Some(ExecutionError::Unknown(t)) && t@ == error_text(error)
    &&& out.tool_output == Err::<JsonValue, ToolError>(error)
    &&& !out.processed
}

/// The answer to a failed tool call (see `error_answer`).
pub fn spawn_tool_error(request: &ToolCallRequest, error: ToolError) -> (out: ToolCallOutcome)
    ensures
        error_answer(out, *request, error),
{
    let text = error.describe();
    ToolCallOutcome {
        task_id: request.task_id,
        agent_id: request.agent_id,
        tool_name: request.tool_name.clone(),
        tool_call_id: request.tool_call_id.clone(),
        content: String::new(),
        execution_error: Some(ExecutionError::Unknown(text)),
        tool_output: Err(error),
        processed: false,
    }
}

/// The answer to a shell tool call that succeeded: the agent reads that the
/// tool completed, and the tool's output is handed on as it is.
pub fn spawn_shell_result(request: &ToolCallRequest, tool_output: JsonValue) -> (out: ToolCallOutcome)
    ensures
        out.task_id == request.task_id,
        out.agent_id == request.agent_id,
        out.tool_name@ == request.tool_name@,
        out.tool_call_id@ == request.tool_call_id@,
        out.content@ == request.tool_name@ + " completed"@,
        out.execution_error is None,
        out.tool_output == Ok::<JsonValue, ToolError>(tool_output),
        !out.processed,
{
    ToolCallOutcome {
        task_id: request.task_id,
        agent_id: request.agent_id,
        tool_name: request.tool_name.clone(),
        tool_call_id: request.tool_call_id.clone(),
        content: crate::text::concat2(request.tool_name.as_str(), " completed"),
        execution_error: None,
        tool_output: Ok(tool_output),
        processed: false,
    }
}

/// The last whole second that chrono's `DateTime<Utc>` can hold (the end of
/// the year 262142), in seconds since the Unix epoch.
pub const LATEST_UTC_SECS: i64 = 8210266876799;

/// The most seconds that chrono's `TimeDelta::seconds` accepts.
pub const MAX_DELTA_SECS: u64 = 9223372036854775;

/// What a task that waits on its child tasks records.
#[derive(Debug, Clone)]
pub struct WaitingForTasksInfo {
    /// The tasks awaited, in the order asked.
    pub target_task_ids: Vec<TaskId>,
    /// When the wait gives up.
    pub timeout_at: UtcInstant,
    /// The call that asked for the wait, answered when it ends.
    pub tool_call_id: String,
    pub agent_id: AgentId,
}

/// The instant `secs` whole seconds after `t`.
pub open spec fn seconds_later(t: UtcInstant, secs: int) -> UtcInstant {
    UtcInstant { secs: (t.secs + secs) as i64, nanos: t.nanos }
}

/// A wait can be timed from `now`: the timeout fits chrono's time deltas and
/// its end fits chrono's calendar.
pub open spec fn wait_fits(now: UtcInstant, timeout_secs: u64) -> bool {
    &&& timeout_secs <= MAX_DELTA_SECS
    &&& now.secs + timeout_secs <= LATEST_UTC_SECS
}

/// The record of a task that starts to wait, at `now`, on `task_ids` for
/// `timeout_secs` seconds, on behalf of the call `tool_call_id` of `agent_id`.
pub fn spawn_wait_for_tasks(
    agent_id: AgentId,
    tool_call_id: String,
    task_ids: Vec<TaskId>,
    timeout_secs: u64,
    now: UtcInstant,
) -> (info: WaitingForTasksInfo)
    requires
        wait_fits(now, timeout_secs),
    ensures
        info.target_task_ids@ == task_ids@,
        info.timeout_at == seconds_later(now, timeout_secs as int),
        info.tool_call_id@ == tool_call_id@,
        info.agent_id == agent_id,
{
    let secs: i64 = now.secs + timeout_secs as i64;
    WaitingForTasksInfo {
        target_task_ids: task_ids,
        timeout_at: UtcInstant { secs, nanos: now.nanos },
        tool_call_id,
        agent_id,
    }
}

/// How the orchestrator answers a request to wait on tasks.
#[derive(Debug)]
pub enum WaitForTasksStep {
    /// The task waits; the record goes on the task.
    Wait(WaitingForTasksInfo),
    /// The request is refused; the answer goes back to the agent.
    Refuse(ToolCallOutcome),
}

/// Answers the request of the call `request` to wait on `task_ids` for
/// `timeout_secs` seconds from `now`: the task waits exactly when every target
/// is its child; else the call fails with the ownership error.
pub fn wait_for_tasks_step(
    request: &ToolCallRequest,
    tasks: &[Task],
    task_ids: Vec<TaskId>,
    timeout_secs: u64,
    now: UtcInstant,
) -> (step: WaitForTasksStep)
    requires
        wait_fits(now, timeout_secs),
    ensures
        match ownership_failure(request.task_id, task_ids@, tasks@) {
            None => step matches WaitForTasksStep::Wait(info) && {
                &&& info.target_task_ids@ == task_ids@
                &&& info.timeout_at == seconds_later(now, timeout_secs as int)
                &&& info.tool_call_id@ == request.tool_call_id@
                &&& info.agent_id == request.agent_id
            },
            Some(f) => step matches WaitForTasksStep::Refuse(out) && out.tool_output matches Err(e)
                && ownership_error(f, request.task_id, e) && error_answer(out, *request, e),
        },
{
    match validate_task_ownership(request.task_id, task_ids.as_slice(), tasks) {
        Ok(()) => {
            let info = spawn_wait_for_tasks(
                request.agent_id,
                request.tool_call_id.clone(),
                task_ids,
                timeout_secs,
                now,
            );
            WaitForTasksStep::Wait(info)
        },
        Err(e) => WaitForTasksStep::Refuse(spawn_tool_error(request, e)),
    }
}

/// The name of a waiting reason.
pub open spec fn reason_name(r: WaitingReason) -> Seq<char> {
    match r {
        WaitingReason::User => "User"@,
        WaitingReason::Agent => "Agent"@,
        WaitingReason::Session => "Session"@,
        WaitingReason::ToolExecution => "ToolExecution"@,
        WaitingReason::Approval => "Approval"@,
        WaitingReason::Summarization => "Summarization"@,
        WaitingReason::AskUser => "AskUser"@,
        WaitingReason::ChatAgent => "ChatAgent"@,
        WaitingReason::SubTaskBatch => "SubTaskBatch"@,
    }
}

/// The name of a failure reason.
pub open spec fn failure_name(f: FailureReason) -> Seq<char> {
    match f {
        FailureReason::AgentError => "AgentError"@,
        FailureReason::Timeout => "Timeout"@,
        FailureReason::Cancelled => "Cancelled"@,
    }
}

/// `v` is the JSON form of a task status: the variant's name, or for a
/// status that carries a reason, the object `{variant: reason}`.
pub open spec fn status_json_is(v: JsonValue, s: TaskStatus) -> bool {
    match s {
        TaskStatus::Waiting(r) => v matches JsonValue::Object(fs) && fs.len() == 1 && fs[0].0@ == "Waiting"@
            && (fs[0].1 matches JsonValue::Str(t) && t@ == reason_name(r)),
        TaskStatus::Failed(f) => v matches JsonValue::Object(fs) && fs.len() == 1 && fs[0].0@ == "Failed"@
            && (fs[0].1 matches JsonValue::Str(t) && t@ == failure_name(f)),
        TaskStatus::Pending => v matches JsonValue::Str(t) && t@ == "Pending"@,
        TaskStatus::Ready => v matches JsonValue::Str(t) && t@ == "Ready"@,
        TaskStatus::Running => v matches JsonValue::Str(t) && t@ == "Running"@,
        TaskStatus::Done => v matches JsonValue::Str(t) && t@ == "Done"@,
    }
}

/// `v` is the JSON form of an optional text: `null` or the string.
pub open spec fn opt_text_json_is(v: JsonValue, o: Option<Seq<char>>) -> bool {
    match o {
        None => v is Null,
        Some(t) => v matches JsonValue::Str(x) && x@ == t,
    }
}

/// `v` is the JSON form of a wait result: the object
/// `{error, result, status, task_id}`.
pub open spec fn wait_result_json_is(v: JsonValue, r: TaskWaitResult) -> bool {
    v matches JsonValue::Object(fs) && fs.len() == 4 && fs[0].0@ == "error"@ && opt_text_json_is(fs[0].1, opt_text(r.error))
        && fs[1].0@ == "result"@ && opt_text_json_is(fs[1].1, opt_text(r.result)) && fs[2].0@ == "status"@
        && status_json_is(fs[2].1, r.status) && fs[3].0@ == "task_id"@ && (fs[3].1 matches JsonValue::Str(t) && t@
        == r.task_id@)
}

/// `v` is the output of a finished wait: the object `{results, timed_out}`
/// with the results in order.
pub open spec fn wait_output_is(v: JsonValue, results: Seq<TaskWaitResult>, timed_out: bool) -> bool {
    v matches JsonValue::Object(fs) && fs.len() == 2 && fs[0].0@ == "results"@ && (fs[0].1 matches JsonValue::Array(
        items,
    ) && items.len() == results.len() && forall|k: int| 0 <= k < results.len() ==> wait_result_json_is(#[trigger] items[k], results[k]))
        && fs[1].0@ == "timed_out"@ && fs[1].1 == JsonValue::Bool(timed_out)
}

fn reason_json(r: WaitingReason) -> (t: String)
    ensures
        t@ == reason_name(r),
{
    match r {
        WaitingReason::User => "User".to_owned(),
        WaitingReason::Agent => "Agent".to_owned(),
        WaitingReason::Session => "Session".to_owned(),
        WaitingReason::ToolExecution => "ToolExecution".to_owned(),
        WaitingReason::Approval => "Approval".to_owned(),
        WaitingReason::Summarization => "Summarization".to_owned(),
        WaitingReason::AskUser => "AskUser".to_owned(),
        WaitingReason::ChatAgent => "ChatAgent".to_owned(),
        WaitingReason::SubTaskBatch => "SubTaskBatch".to_owned(),
    }
}

/// The JSON form of a task status (see `status_json_is`).
pub fn status_json(s: TaskStatus) -> (v: JsonValue)
    ensures
        status_json_is(v, s),
{
    match s {
        TaskStatus::Pending => JsonValue::Str("Pending".to_owned()),
        TaskStatus::Ready => JsonValue::Str("Ready".to_owned()),
        TaskStatus::Running => JsonValue::Str("Running".to_owned()),
        TaskStatus::Done => JsonValue::Str("Done".to_owned()),
        TaskStatus::Waiting(r) => JsonValue::Object(vec![("Waiting".to_owned(), JsonValue::Str(reason_json(r)))]),
        TaskStatus::Failed(f) => {
            let t = match f {
                FailureReason::AgentError => "AgentError".to_owned(),
                FailureReason::Timeout => "Timeout".to_owned(),
                FailureReason::Cancelled => "Cancelled".to_owned(),
            };
            JsonValue::Object(vec![("Failed".to_owned(), JsonValue::Str(t))])
        },
    }
}

fn opt_text_json(o: &Option<String>) -> (v: JsonValue)
    ensures
        opt_text_json_is(v, opt_text(*o)),
{
    match o {
        Some(t) => JsonValue::Str(t.clone()),
        None => JsonValue::Null,
    }
}

/// The JSON form of a wait result (see `wait_result_json_is`).
pub fn wait_result_json(r: &TaskWaitResult) -> (v: JsonValue)
    ensures
        wait_result_json_is(v, *r),
{
    JsonValue::Object(
        vec![
            ("error".to_owned(), opt_text_json(&r.error)),
            ("result".to_owned(), opt_text_json(&r.result)),
            ("status".to_owned(), status_json(r.status)),
            ("task_id".to_owned(), JsonValue::Str(r.task_id.clone())),
        ],
    )
}

/// The answer that ends the wait of the task `task_id`: the call recorded in
/// `info` learns that `wait_tasks` completed, and its output holds the
/// results and whether the wait timed out.
pub fn spawn_wait_result_message(
    task_id: TaskId,
    info: &WaitingForTasksInfo,
    results: &Vec<TaskWaitResult>,
    timed_out: bool,
) -> (out: ToolCallOutcome)
    ensures
        out.task_id == task_id,
        out.agent_id == info.agent_id,
        out.tool_name@ == "wait_tasks"@,
        out.tool_call_id@ == info.tool_call_id@,
        out.content@ == "wait_tasks completed"@,
        out.execution_error is None,
        out.tool_output matches Ok(v) && wait_output_is(v, results@, timed_out),
        !out.processed,
{
    let n = results.len();
    let mut items: Vec<JsonValue> = Vec::new();
    for i in 0..n
        invariant
            n == results@.len(),
            items@.len() == i,
            forall|k: int| 0 <= k < i ==> wait_result_json_is(#[trigger] items@[k], results@[k]),
    {
        items.push(wait_result_json(&results[i]));
    }
    let output = JsonValue::Object(
        vec![("results".to_owned(), JsonValue::Array(items)), ("timed_out".to_owned(), JsonValue::Bool(timed_out))],
    );
    ToolCallOutcome {
        task_id,
        agent_id: info.agent_id,
        tool_name: "wait_tasks".to_owned(),
        tool_call_id: info.tool_call_id.clone(),
        content: "wait_tasks completed".to_owned(),
        execution_error: None,
        tool_output: Ok(output),
        processed: false,
    }
}


/// The answer to a call that whoever was asked to confirm refused: the
/// agent learns that it was cancelled, for `reason`, and the tool's output
/// is the error.
pub fn spawn_cancelled(request: &ToolCallRequest, reason: String, error: ToolError) -> (out: ToolCallOutcome)
    ensures
        out.task_id == request.task_id,
        out.agent_id == request.agent_id,
        out.tool_name@ == request.tool_name@,
        out.tool_call_id@ == request.tool_call_id@,
        out.content@ == Seq::<char>::empty(),
        out.execution_error matches Some(ExecutionError::UserCancelled(t)) && t@ == reason@,
        out.tool_output == Err::<JsonValue, ToolError>(error),
        !out.processed,
{
    ToolCallOutcome {
        task_id: request.task_id,
        agent_id: request.agent_id,
        tool_name: request.tool_name.clone(),
        tool_call_id: request.tool_call_id.clone(),
        content: String::new(),
        execution_error: Some(ExecutionError::UserCancelled(reason)),
        tool_output: Err(error),
        processed: false,
    }
}

} // verus!
