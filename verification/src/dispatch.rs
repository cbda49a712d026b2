//! Tool-call dispatch: whether a call runs, waits for a confirmation, or is
//! refused; how a confirmation answer is applied; and the approval step.

use vstd::prelude::*;

use crate::domain::{AgentId, Task, TaskId, TaskStatus, ToolError, WaitingReason};
use crate::ids::{uuid_text, uuid_to_string};
use crate::orchestrator::{
    contains_id, find_task, lemma_task_position_pub, status_after_tool, task_index, task_position,
};
use crate::text::{concat2, concat3, str_eq};
use crate::tools::ToolActionKind;
use crate::permissions::{
    effective, find_tool, permission_for, Agent, AgentToolPermissions, SpaceToolRegistry,
    ToolDefinition, ToolPermission,
};

verus! {

/// What the dispatcher does with a tool call.
#[derive(Debug, Clone, Copy, PartialEq, Eq, Structural)]
pub enum DispatchDecision {
    /// No tool of that name is registered.
    ToolNotFound,
    /// The calling agent does not exist.
    AgentNotFound,
    /// The agent lacks the tool's `required_tag`.
    MissingTag,
    /// Run the tool now.
    Execute,
    /// Another confirmation of the same task is open; keep the call queued.
    QueueBehindPending,
    /// Ask the parent task's agent, which may use the tool, to approve.
    AwaitParentApproval(AgentId),
    /// Ask the user to confirm.
    AwaitUserConfirmation,
    /// The agent may not use the tool.
    Denied,
}

/// The agent holds `tag`.
pub open spec fn agent_has_tag(agent: Agent, tag: Seq<char>) -> bool {
    exists|k: int| 0 <= k < agent.tags@.len() && #[trigger] agent.tags@[k]@ == tag
}

/// The dispatch decision: tool and agent must exist and the agent must hold
/// the tool's required tag; then the agent's permission decides. A call that
/// needs confirmation waits behind an open confirmation of its task, else
/// goes to the approving parent agent when there is one, else to the user.
pub open spec fn dispatch_decision(
    tool: Option<ToolDefinition>,
    agent: Option<Agent>,
    confirmation_pending: bool,
    parent_approver: Option<AgentId>,
) -> DispatchDecision {
    match tool {
        None => DispatchDecision::ToolNotFound,
        Some(t) => match agent {
            None => DispatchDecision::AgentNotFound,
            Some(a) => if t.required_tag is Some && !agent_has_tag(a, t.required_tag->0@) {
                DispatchDecision::MissingTag
            } else {
                match permission_for(a.tool_permissions, t.name@) {
                    ToolPermission::Allow => DispatchDecision::Execute,
                    ToolPermission::Deny => DispatchDecision::Denied,
                    ToolPermission::Confirm => if confirmation_pending {
                        DispatchDecision::QueueBehindPending
                    } else {
                        match parent_approver {
                            Some(p) => DispatchDecision::AwaitParentApproval(p),
                            None => DispatchDecision::AwaitUserConfirmation,
                        }
                    },
                }
            },
        },
    }
}

pub(crate) fn agent_has_tag_exec(agent: &Agent, tag: &String) -> (r: bool)
    ensures
        r == agent_has_tag(*agent, tag@),
{
    let n = agent.tags.len();
    for k in 0..n
        invariant
            n == agent.tags@.len(),
            forall|j: int| 0 <= j < k ==> agent.tags@[j]@ != tag@,
    {
        if agent.tags[k] == *tag {
            return true;
        }
    }
    false
}

/// Decides a tool call (see `dispatch_decision`).
pub fn decide_tool_dispatch(
    tool: Option<&ToolDefinition>,
    agent: Option<&Agent>,
    confirmation_pending: bool,
    parent_approver: Option<AgentId>,
) -> (d: DispatchDecision)
    ensures
        d == dispatch_decision(
            match tool {
                Some(t) => Some(*t),
                None => None,
            },
            match agent {
                Some(a) => Some(*a),
                None => None,
            },
            confirmation_pending,
            parent_approver,
        ),
{
    let t = match tool {
        None => {
            return DispatchDecision::ToolNotFound;
        },
        Some(t) => t,
    };
    let a = match agent {
        None => {
            return DispatchDecision::AgentNotFound;
        },
        Some(a) => a,
    };
    match &t.required_tag {
        Some(tag) => {
            if !agent_has_tag_exec(a, tag) {
                return DispatchDecision::MissingTag;
            }
        },
        None => {},
    }
    match a.tool_permissions.get_permission(t.name.as_str()) {
        ToolPermission::Allow => DispatchDecision::Execute,
        ToolPermission::Deny => DispatchDecision::Denied,
        ToolPermission::Confirm => {
            if confirmation_pending {
                DispatchDecision::QueueBehindPending
            } else {
                match parent_approver {
                    Some(p) => DispatchDecision::AwaitParentApproval(p),
                    None => DispatchDecision::AwaitUserConfirmation,
                }
            }
        },
    }
}

/// How long a grant lasts.
#[derive(Debug, Clone, Copy, PartialEq, Eq, Structural)]
pub enum GrantMode {
    Once,
    Permanent,
}

/// One answer a user may give to a confirmation request.
#[derive(Debug)]
pub struct ConfirmationOption {
    pub id: String,
    pub label: String,
    pub mode: GrantMode,
    pub deny: bool,
}

/// `v` are the answers offered by default: allow once, allow always, deny.
pub open spec fn default_options(v: Seq<ConfirmationOption>) -> bool {
    &&& v.len() == 3
    &&& v[0].id@ == "allow_once"@ && v[0].mode == GrantMode::Once && !v[0].deny
    &&& v[1].id@ == "allow_always"@ && v[1].mode == GrantMode::Permanent && !v[1].deny
    &&& v[2].id@ == "deny"@ && v[2].deny
}

/// The answers offered by default (see `default_options`).
pub fn default_confirmation_options() -> (v: Vec<ConfirmationOption>)
    ensures
        default_options(v@),
{
    let mut v: Vec<ConfirmationOption> = Vec::new();
    v.push(
        ConfirmationOption {
            id: crate::text::owned("allow_once"),
            label: crate::text::owned("Allow once"),
            mode: GrantMode::Once,
            deny: false,
        },
    );
    v.push(
        ConfirmationOption {
            id: crate::text::owned("allow_always"),
            label: crate::text::owned("Always allow"),
            mode: GrantMode::Permanent,
            deny: false,
        },
    );
    v.push(
        ConfirmationOption {
            id: crate::text::owned("deny"),
            label: crate::text::owned("Deny"),
            mode: GrantMode::Once,
            deny: true,
        },
    );
    v
}

/// How a confirmation answer resolves.
#[derive(Debug, Clone, Copy, PartialEq, Eq, Structural)]
pub enum ConfirmationOutcome {
    /// The answer matches no offered option.
    Unknown,
    /// The user denied the call.
    Denied,
    /// The user approved the call, once or for good.
    Approved(GrantMode),
}

/// The first offered option with id `selected`.
pub open spec fn find_option(options: Seq<ConfirmationOption>, selected: Seq<char>) -> Option<
    ConfirmationOption,
>
    decreases options.len(),
{
    if options.len() == 0 {
        None
    } else if options[0].id@ == selected {
        Some(options[0])
    } else {
        find_option(options.drop_first(), selected)
    }
}

/// The outcome of answering `selected` to the offered options.
pub open spec fn outcome_of(options: Seq<ConfirmationOption>, selected: Seq<char>) -> ConfirmationOutcome {
    match find_option(options, selected) {
        None => ConfirmationOutcome::Unknown,
        Some(o) => if o.deny {
            ConfirmationOutcome::Denied
        } else {
            ConfirmationOutcome::Approved(o.mode)
        },
    }
}

/// Resolves a confirmation answer (see `outcome_of`).
pub fn resolve_confirmation(options: &Vec<ConfirmationOption>, selected: &str) -> (r: ConfirmationOutcome)
    ensures
        r == outcome_of(options@, selected@),
{
    let n = options.len();
    let ghost os = options@;
    assert(os.subrange(0, n as int) =~= os);
    let mut i: usize = 0;
    while i < n
        invariant
            i <= n,
            n == os.len(),
            os == options@,
            find_option(os, selected@) == find_option(os.subrange(i as int, n as int), selected@),
        decreases n - i,
    {
        let ghost rest = os.subrange(i as int, n as int);
        assert(rest[0] == os[i as int]);
        if crate::text::str_eq(options[i].id.as_str(), selected) {
            if options[i].deny {
                return ConfirmationOutcome::Denied;
            }
            return ConfirmationOutcome::Approved(options[i].mode);
        }
        assert(rest.drop_first() =~= os.subrange(i + 1, n as int));
        i = i + 1;
    }
    ConfirmationOutcome::Unknown
}

/// Applies an approval to the agent's permissions: a permanent grant sets an
/// `Allow` override for the tool; a one-time grant changes nothing.
pub fn apply_grant(permissions: &mut AgentToolPermissions, tool: &String, mode: GrantMode)
    ensures
        mode == GrantMode::Permanent ==> final(permissions).overrides@ == old(
            permissions,
        ).overrides@.insert(tool@, ToolPermission::Allow),
        mode == GrantMode::Once ==> final(permissions).overrides@ == old(permissions).overrides@,
        final(permissions).default_permission == old(permissions).default_permission,
        final(permissions).default_permission_explicit == old(
            permissions,
        ).default_permission_explicit,
{
    if mode == GrantMode::Permanent {
        permissions.overrides.insert(tool.clone(), ToolPermission::Allow);
    }
}

/// A permanent grant is remembered: afterwards the agent may use the tool
/// without confirmation, and its permission for every other tool is unchanged.
pub proof fn lemma_permanent_grant_allows(
    before: AgentToolPermissions,
    after: AgentToolPermissions,
    tool: Seq<char>,
    other: Seq<char>,
)
    requires
        after.overrides@ == before.overrides@.insert(tool, ToolPermission::Allow),
        after.default_permission == before.default_permission,
    ensures
        permission_for(after, tool) == ToolPermission::Allow,
        other != tool ==> permission_for(after, other) == permission_for(before, other),
{
}

/// A request that a parent agent approve a child's tool call.
#[derive(Debug)]
pub struct ApprovalRequest {
    pub request_id: u128,
    pub tool_name: String,
    pub source_task_id: TaskId,
    pub parent_agent_id: AgentId,
    pub child_agent_id: AgentId,
    pub approval_task_id: TaskId,
}

/// The answer to an approval request.
#[derive(Debug, Clone, Copy, PartialEq, Eq, Structural)]
pub enum ApprovalDecision {
    Approved,
    Rejected,
}

/// The resolution of an approval request.
#[derive(Debug)]
pub struct ApprovalResult {
    pub request_id: u128,
    pub source_task_id: TaskId,
    pub approval_task_id: TaskId,
    pub decision: ApprovalDecision,
    pub reasoning: String,
    pub grant_mode: GrantMode,
}

/// Resolves approval requests. The parent agent does not weigh the call
/// here: every request is approved once, with a fixed reasoning.
pub fn approval_dispatch_system(requests: &[ApprovalRequest]) -> (out: Vec<ApprovalResult>)
    ensures
        out@.len() == requests@.len(),
        forall|i: int|
            0 <= i < requests@.len() ==> {
                let r = #[trigger] out@[i];
                &&& r.request_id == requests@[i].request_id
                &&& r.source_task_id == requests@[i].source_task_id
                &&& r.approval_task_id == requests@[i].approval_task_id
                &&& r.decision == ApprovalDecision::Approved
                &&& r.grant_mode == GrantMode::Once
                &&& r.reasoning@ == "MVP auto-approve: parent agent approval"@
            },
{
    let n = requests.len();
    let mut out: Vec<ApprovalResult> = Vec::new();
    for i in 0..n
        invariant
            n == requests@.len(),
            out@.len() == i,
            forall|k: int|
                0 <= k < i ==> {
                    let r = #[trigger] out@[k];
                    &&& r.request_id == requests@[k].request_id
                    &&& r.source_task_id == requests@[k].source_task_id
                    &&& r.approval_task_id == requests@[k].approval_task_id
                    &&& r.decision == ApprovalDecision::Approved
                    &&& r.grant_mode == GrantMode::Once
                    &&& r.reasoning@ == "MVP auto-approve: parent agent approval"@
                },
    {
        let req = &requests[i];
        out.push(
            ApprovalResult {
                request_id: req.request_id,
                source_task_id: req.source_task_id,
                approval_task_id: req.approval_task_id,
                decision: ApprovalDecision::Approved,
                reasoning: crate::text::owned("MVP auto-approve: parent agent approval"),
                grant_mode: GrantMode::Once,
            },
        );
    }
    out
}

/// What follows a user's answer to a confirmation request.
#[derive(Debug)]
pub enum ConfirmationPlan {
    /// Approvals of this kind are handled by their own step.
    HandledElsewhere,
    /// The call fails with the error.
    Fail(ToolError),
    /// Whoever was asked refused the call: the agent is told it was
    /// cancelled for `reason`, and the tool's output is `error`.
    Cancel { reason: String, error: ToolError },
    /// The call goes to a worker; a one-time grant is marked on it.
    DispatchAsync { confirmed_once: bool },
    /// The call runs now.
    RunNow,
}

/// Tools whose confirmations another step resolves.
pub open spec fn handled_elsewhere(tool: Seq<char>) -> bool {
    tool == "experience_governance"@ || tool == "profile_generation"@
}

/// Decides what an answered confirmation leads to: a denial or an unknown
/// answer fails the call; an approval runs it, on a worker when the tool is
/// asynchronous, and fails it when no executor is registered.
pub fn confirmation_plan(tool_name: &str, outcome: ConfirmationOutcome, executor: Option<ToolActionKind>) -> (p: ConfirmationPlan)
    ensures
        handled_elsewhere(tool_name@) ==> p is HandledElsewhere,
        !handled_elsewhere(tool_name@) ==> match outcome {
            ConfirmationOutcome::Denied => p matches ConfirmationPlan::Cancel {
                reason,
                error: ToolError::PermissionDenied(m),
            } && reason@ == "user denied tool execution"@ && m@ == "user denied"@,
            ConfirmationOutcome::Unknown => p matches ConfirmationPlan::Cancel {
                reason,
                error: ToolError::PermissionDenied(m),
            } && reason@ == "unknown confirmation option"@ && m@ == "unknown confirmation option"@,
            ConfirmationOutcome::Approved(mode) => match executor {
                None => p matches ConfirmationPlan::Fail(ToolError::NotFound(m)) && m@
                    == "executor for "@ + tool_name@,
                Some(ToolActionKind::Async) => p == ConfirmationPlan::DispatchAsync {
                    confirmed_once: mode == GrantMode::Once,
                },
                Some(ToolActionKind::Sync) => p is RunNow,
            },
        },
{
    if str_eq(tool_name, "experience_governance") || str_eq(tool_name, "profile_generation") {
        return ConfirmationPlan::HandledElsewhere;
    }
    match outcome {
        ConfirmationOutcome::Denied => ConfirmationPlan::Cancel {
            reason: "user denied tool execution".to_owned(),
            error: ToolError::PermissionDenied("user denied".to_owned()),
        },
        ConfirmationOutcome::Unknown => ConfirmationPlan::Cancel {
            reason: "unknown confirmation option".to_owned(),
            error: ToolError::PermissionDenied("unknown confirmation option".to_owned()),
        },
        ConfirmationOutcome::Approved(mode) => match executor {
            None => ConfirmationPlan::Fail(ToolError::NotFound(concat2("executor for ", tool_name))),
            Some(ToolActionKind::Async) => ConfirmationPlan::DispatchAsync {
                confirmed_once: mode == GrantMode::Once,
            },
            Some(ToolActionKind::Sync) => ConfirmationPlan::RunNow,
        },
    }
}

/// `e` is the error that answers a refused call (see `dispatch_refusal`).
pub open spec fn refusal_error(
    d: DispatchDecision,
    tool_name: Seq<char>,
    agent_id: AgentId,
    required_tag: Seq<char>,
    e: Option<ToolError>,
) -> bool {
    match d {
        DispatchDecision::ToolNotFound => e matches Some(ToolError::NotFound(m)) && m@ == tool_name,
        DispatchDecision::AgentNotFound => e matches Some(ToolError::NotFound(m)) && m@ == "agent "@
            + uuid_text(agent_id),
        DispatchDecision::MissingTag => e matches Some(ToolError::PermissionDenied(m)) && m@
            == "tool '"@ + tool_name + "' requires tag '"@ + required_tag + "'"@,
        DispatchDecision::Denied => e matches Some(ToolError::PermissionDenied(m)) && m@
            == tool_name,
        _ => e is None,
    }
}

/// The error a refused call answers with: an unknown tool or agent is not
/// found; a missing tag or a denied permission is refused.
pub fn dispatch_refusal(d: DispatchDecision, tool_name: &str, agent_id: AgentId, required_tag: &str) -> (e: Option<ToolError>)
    ensures
        refusal_error(d, tool_name@, agent_id, required_tag@, e),
{
    match d {
        DispatchDecision::ToolNotFound => Some(ToolError::NotFound(tool_name.to_owned())),
        DispatchDecision::AgentNotFound => {
            let id = uuid_to_string(agent_id);
            Some(ToolError::NotFound(concat2("agent ", id.as_str())))
        },
        DispatchDecision::MissingTag => {
            let head = concat3("tool '", tool_name, "' requires tag '");
            Some(ToolError::PermissionDenied(concat3(head.as_str(), required_tag, "'")))
        },
        DispatchDecision::Denied => Some(ToolError::PermissionDenied(tool_name.to_owned())),
        _ => None,
    }
}

/// The error of an allowed call whose tool has no executor.
pub fn missing_executor_error(tool_name: &str) -> (e: ToolError)
    ensures
        e matches ToolError::NotFound(m) && m@ == "no executor for '"@ + tool_name@
            + "' — this tool is not available, do not retry"@,
{
    ToolError::NotFound(
        concat3("no executor for '", tool_name, "' — this tool is not available, do not retry"),
    )
}

/// The first agent with id `id`.
pub open spec fn agent_position(agents: Seq<Agent>, id: AgentId, i: int) -> bool {
    0 <= i < agents.len() && agents[i].id == id && forall|k: int|
        0 <= k < i ==> (#[trigger] agents[k]).id != id
}

pub(crate) fn agent_index(agents: &[Agent], id: AgentId) -> (r: Option<usize>)
    ensures
        r matches Some(i) ==> agent_position(agents@, id, i as int),
        r is None ==> forall|k: int| 0 <= k < agents@.len() ==> (#[trigger] agents@[k]).id != id,
{
    let n = agents.len();
    for i in 0..n
        invariant
            n == agents@.len(),
            forall|k: int| 0 <= k < i ==> (#[trigger] agents@[k]).id != id,
    {
        if agents[i].id == id {
            return Some(i);
        }
    }
    None
}

/// The agent that may approve a call of `tool` made for task `task_id`: the
/// agent the task's parent task is delegated to, if it may run the tool itself.
pub open spec fn approver(tasks: Seq<Task>, agents: Seq<Agent>, task_id: TaskId, tool: Seq<char>) -> Option<AgentId> {
    match find_task(tasks, task_id) {
        Some(t) => match t.parent_task_id {
            Some(pid) => match find_task(tasks, pid) {
                Some(parent) => match parent.delegate {
                    Some(aid) => if exists|i: int| agent_position(agents, aid, i) {
                        let i = choose|i: int| agent_position(agents, aid, i);
                        if permission_for(agents[i].tool_permissions, tool) == ToolPermission::Allow {
                            Some(aid)
                        } else {
                            None
                        }
                    } else {
                        None
                    },
                    None => None,
                },
                None => None,
            },
            None => None,
        },
        None => None,
    }
}

/// Finds the agent that may approve a call (see `approver`).
pub fn parent_approver(tasks: &[Task], agents: &[Agent], task_id: TaskId, tool: &str) -> (r: Option<AgentId>)
    ensures
        r == approver(tasks@, agents@, task_id, tool@),
{
    proof {
        lemma_task_position_pub(tasks@, task_id);
    }
    let i = match task_index(tasks, task_id) {
        Some(i) => i,
        None => {
            return None;
        },
    };
    let pid = match tasks[i].parent_task_id {
        Some(p) => p,
        None => {
            return None;
        },
    };
    proof {
        lemma_task_position_pub(tasks@, pid);
    }
    let j = match task_index(tasks, pid) {
        Some(j) => j,
        None => {
            return None;
        },
    };
    let aid = match tasks[j].delegate {
        Some(a) => a,
        None => {
            return None;
        },
    };
    let k = match agent_index(agents, aid) {
        Some(k) => k,
        None => {
            return None;
        },
    };
    proof {
        let c = choose|x: int| agent_position(agents@, aid, x);
        assert(c == k as int) by {
            if c < k {
                assert(agents@[c].id != aid);
            }
            if c > k {
                assert(agents@[k as int].id == aid);
            }
        }
    }
    if agents[k].tool_permissions.get_permission(tool) == ToolPermission::Allow {
        Some(aid)
    } else {
        None
    }
}

/// What follows a parent agent's answer to an approval request: a rejection
/// fails the call with the parent's reasons; an approval runs it (fails it
/// when no executor is registered).
pub fn approval_plan(result: &ApprovalResult, tool_name: &str, executor: Option<ToolActionKind>) -> (p: ConfirmationPlan)
    ensures
        match result.decision {
            ApprovalDecision::Rejected => p matches ConfirmationPlan::Cancel {
                reason,
                error: ToolError::PermissionDenied(m),
            } && reason@ == "parent agent rejected: "@ + result.reasoning@ && m@ == reason@,
            ApprovalDecision::Approved => match executor {
                None => p matches ConfirmationPlan::Fail(ToolError::NotFound(m)) && m@
                    == "executor for "@ + tool_name@,
                Some(_) => p is RunNow,
            },
        },
{
    match result.decision {
        ApprovalDecision::Rejected => {
            let reason = concat2("parent agent rejected: ", result.reasoning.as_str());
            let m = reason.clone();
            ConfirmationPlan::Cancel { reason, error: ToolError::PermissionDenied(m) }
        },
        ApprovalDecision::Approved => match executor {
            None => ConfirmationPlan::Fail(ToolError::NotFound(concat2("executor for ", tool_name))),
            Some(_) => ConfirmationPlan::RunNow,
        },
    }
}

/// Whether a call goes to a worker now: it waits on no confirmation, its
/// tool is asynchronous, and (unless a one-time grant already covers it)
/// the tool is registered and the agent need not confirm it. Calls left
/// here take the synchronous path, which reports or asks.
pub open spec fn dispatches_async(
    pending_confirmation: bool,
    executor: Option<ToolActionKind>,
    confirmed_once: bool,
    registry: Option<Seq<ToolDefinition>>,
    agent: Option<Agent>,
    tool: Seq<char>,
) -> bool {
    &&& !pending_confirmation
    &&& executor == Some(ToolActionKind::Async)
    &&& (confirmed_once || registry is None || agent is None || (find_tool(registry->0, tool) is Some
        && effective(agent->0.tool_permissions, tool, registry).0 != ToolPermission::Confirm))
}

/// Decides whether a call goes to a worker (see `dispatches_async`).
pub fn async_dispatch_gate(
    pending_confirmation: bool,
    executor: Option<ToolActionKind>,
    confirmed_once: bool,
    registry: Option<&SpaceToolRegistry>,
    agent: Option<&Agent>,
    tool: &str,
) -> (go: bool)
    ensures
        go == dispatches_async(
            pending_confirmation,
            executor,
            confirmed_once,
            match registry {
                Some(r) => Some(r.tools@),
                None => None,
            },
            match agent {
                Some(a) => Some(*a),
                None => None,
            },
            tool@,
        ),
{
    if pending_confirmation {
        return false;
    }
    match executor {
        Some(ToolActionKind::Async) => {},
        _ => {
            return false;
        },
    }
    if confirmed_once {
        return true;
    }
    match (registry, agent) {
        (Some(reg), Some(a)) => {
            if reg.get(tool).is_none() {
                return false;
            }
            let (perm, _) = a.tool_permissions.effective_permission(tool, Some(reg));
            perm != ToolPermission::Confirm
        },
        _ => true,
    }
}

/// How long an asynchronous call may stay in flight: what the tool asks for
/// given the larger of the exec and in-flight defaults.
pub open spec fn inflight_base_secs(shell_default_exec_timeout_secs: u64, tool_inflight_timeout_secs: u64) -> u64 {
    if shell_default_exec_timeout_secs >= tool_inflight_timeout_secs {
        shell_default_exec_timeout_secs
    } else {
        tool_inflight_timeout_secs
    }
}

/// The base the in-flight limit of an asynchronous call starts from (see
/// `inflight_base_secs`).
pub fn inflight_base(shell_default_exec_timeout_secs: u64, tool_inflight_timeout_secs: u64) -> (r: u64)
    ensures
        r == inflight_base_secs(shell_default_exec_timeout_secs, tool_inflight_timeout_secs),
{
    if shell_default_exec_timeout_secs >= tool_inflight_timeout_secs {
        shell_default_exec_timeout_secs
    } else {
        tool_inflight_timeout_secs
    }
}

/// What an answered confirmation or approval does to the waiting task's
/// status: a call handed to a worker turns a wait for the user into a wait
/// for the tool; a call that ended (failed or ran) restores the task as
/// after any tool (see `status_after_tool`).
pub open spec fn status_after_answer(plan: ConfirmationPlan, status: TaskStatus, loop_running: bool) -> TaskStatus {
    match plan {
        ConfirmationPlan::HandledElsewhere => status,
        ConfirmationPlan::DispatchAsync { .. } => if status == TaskStatus::Waiting(WaitingReason::User) {
            TaskStatus::Waiting(WaitingReason::ToolExecution)
        } else {
            status
        },
        _ => status_after_tool(status, loop_running),
    }
}

/// Applies an answered confirmation or approval to its task: unless another
/// step handles it, the task's open confirmation is cleared and its status
/// follows `status_after_answer`; `calling_state_task_ids` lists the tasks
/// whose tool-calling loop still runs.
pub fn settle_confirmation(
    tasks: &mut Vec<Task>,
    task_id: TaskId,
    plan: &ConfirmationPlan,
    calling_state_task_ids: &[TaskId],
)
    ensures
        final(tasks)@.len() == old(tasks)@.len(),
        forall|i: int|
            0 <= i < old(tasks)@.len() && i != task_position(old(tasks)@, task_id) ==> #[trigger] final(tasks)@[i]
                == old(tasks)@[i],
        task_position(old(tasks)@, task_id) >= 0 ==> {
            let p = task_position(old(tasks)@, task_id);
            final(tasks)@[p] == if *plan is HandledElsewhere {
                old(tasks)@[p]
            } else {
                Task {
                    status: status_after_answer(
                        *plan,
                        old(tasks)@[p].status,
                        calling_state_task_ids@.contains(task_id),
                    ),
                    pending_confirmation_id: None,
                    ..old(tasks)@[p]
                }
            }
        },
{
    proof {
        lemma_task_position_pub(tasks@, task_id);
    }
    let i = match task_index(tasks.as_slice(), task_id) {
        Some(i) => i,
        None => {
            return;
        },
    };
    match plan {
        ConfirmationPlan::HandledElsewhere => {},
        ConfirmationPlan::DispatchAsync { .. } => {
            tasks[i].pending_confirmation_id = None;
            if tasks[i].status == TaskStatus::Waiting(WaitingReason::User) {
                tasks[i].status = TaskStatus::Waiting(WaitingReason::ToolExecution);
            }
        },
        _ => {
            tasks[i].pending_confirmation_id = None;
            if tasks[i].status == TaskStatus::Waiting(WaitingReason::ToolExecution) {
                let running = contains_id(calling_state_task_ids, task_id);
                if !running {
                    tasks[i].status = TaskStatus::Ready;
                }
            }
        },
    }
}

/// What the on-tool-called plugin hooks decide: a plugin's denial refuses
/// the call with its reason; without one the call goes on to dispatch.
pub fn plugin_hook_verdict(deny_reason: Option<String>) -> (r: Option<ToolError>)
    ensures
        match deny_reason {
            Some(x) => r matches Some(ToolError::PermissionDenied(m)) && m@ == "denied by plugin: "@ + x@,
            None => r is None,
        },
{
    match deny_reason {
        Some(x) => Some(ToolError::PermissionDenied(concat2("denied by plugin: ", x.as_str()))),
        None => None,
    }
}

} // verus!
