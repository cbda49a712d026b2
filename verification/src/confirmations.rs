//! One pass of the tool-call dispatcher over the calls that wait for it:
//! each call is decided, and a call that needs a confirmation opens one for
//! its task, unless the task already waits on one. A task thus has at most
//! one open confirmation at a time, and the other calls of the task stay
//! queued behind it.

use vstd::prelude::*;

use crate::dispatch::{
    agent_index, agent_position, approver, decide_tool_dispatch, default_confirmation_options,
    default_options, dispatch_decision, parent_approver, ApprovalRequest, ConfirmationOption,
    DispatchDecision,
};
use crate::domain::{AgentId, Task, TaskId, TaskStatus, WaitingReason};
use crate::ids::new_uuid;
use crate::json::JsonValue;
use crate::orchestrator::{find_task, lemma_task_position_pub, task_index, task_position, ToolCallRequest};
use crate::permissions::{find_tool, Agent, SpaceToolRegistry, ToolDefinition};

verus! {

/// A tool call that waits to be dispatched.
#[derive(Debug)]
pub struct ToolExecutionRequest {
    pub call: ToolCallRequest,
    /// The arguments the tool runs with.
    pub tool_input: JsonValue,
    /// The work item the call belongs to, if any.
    pub work_item_id: Option<u128>,
    /// The confirmation or approval the call waits on, once one is opened.
    pub pending_confirmation_id: Option<u128>,
}

/// A request to the user to confirm a tool call.
#[derive(Debug)]
pub struct ToolConfirmationRequest {
    pub request_id: u128,
    pub task_id: TaskId,
    pub agent_id: AgentId,
    pub tool_name: String,
    pub options: Vec<ConfirmationOption>,
}

/// What one dispatch pass did with a call.
#[derive(Debug)]
pub enum DispatchStep {
    /// The call already waits on a confirmation and is left alone.
    AlreadyWaiting,
    /// The call was decided without opening a confirmation: it runs, is
    /// refused, or stays queued.
    Decided(DispatchDecision),
    /// A confirmation was opened: the user is asked.
    AskUser(ToolConfirmationRequest),
    /// A confirmation was opened: the parent task's agent is asked.
    AskParent(ApprovalRequest),
}

/// The first agent with id `id`.
pub open spec fn agent_of(agents: Seq<Agent>, id: AgentId) -> Option<Agent> {
    if exists|i: int| agent_position(agents, id, i) {
        Some(agents[choose|i: int| agent_position(agents, id, i)])
    } else {
        None
    }
}

/// The task `id` exists and waits on a confirmation.
pub open spec fn confirming(tasks: Seq<Task>, id: TaskId) -> bool {
    find_task(tasks, id) matches Some(t) && t.pending_confirmation_id is Some
}

/// The step opened a confirmation.
pub open spec fn opens(s: DispatchStep) -> bool {
    s is AskUser || s is AskParent
}

/// The id of the confirmation a step opened.
pub open spec fn opened_id(s: DispatchStep) -> u128 {
    match s {
        DispatchStep::AskUser(m) => m.request_id,
        DispatchStep::AskParent(a) => a.request_id,
        _ => 0,
    }
}

/// A task once the step `s` opened a confirmation for it: it waits on the
/// user or on the approving agent, and on that confirmation.
pub open spec fn task_opened(t: Task, s: DispatchStep) -> Task {
    Task {
        status: if s is AskUser {
            TaskStatus::Waiting(WaitingReason::User)
        } else {
            TaskStatus::Waiting(WaitingReason::Approval)
        },
        pending_confirmation_id: Some(opened_id(s)),
        ..t
    }
}

/// When call `i` of the pass comes up, its task waits on a confirmation:
/// one it had before the pass, or one an earlier call of the same existing
/// task opened.
pub open spec fn open_before(
    tasks: Seq<Task>,
    reqs: Seq<ToolExecutionRequest>,
    steps: Seq<DispatchStep>,
    i: int,
) -> bool {
    let id = reqs[i].call.task_id;
    ||| confirming(tasks, id)
    ||| find_task(tasks, id) is Some && exists|j: int|
        0 <= j < i && reqs[j].call.task_id == id && opens(#[trigger] steps[j])
}

/// The decision for call `i` of the pass.
pub open spec fn pass_decision(
    tasks: Seq<Task>,
    agents: Seq<Agent>,
    tools: Seq<ToolDefinition>,
    reqs: Seq<ToolExecutionRequest>,
    steps: Seq<DispatchStep>,
    i: int,
) -> DispatchDecision {
    let c = reqs[i].call;
    dispatch_decision(
        find_tool(tools, c.tool_name@),
        agent_of(agents, c.agent_id),
        open_before(tasks, reqs, steps, i),
        approver(tasks, agents, c.task_id, c.tool_name@),
    )
}

/// The step `s` carries out decision `d` for the call `c`, which then waits
/// on `pending`: a confirmation is opened exactly for the two waiting decisions.
pub open spec fn step_follows(s: DispatchStep, c: ToolCallRequest, d: DispatchDecision, pending: Option<u128>) -> bool {
    match d {
        DispatchDecision::AwaitUserConfirmation => s matches DispatchStep::AskUser(m) && {
            &&& m.task_id == c.task_id
            &&& m.agent_id == c.agent_id
            &&& m.tool_name@ == c.tool_name@
            &&& default_options(m.options@)
            &&& pending == Some(m.request_id)
        },
        DispatchDecision::AwaitParentApproval(p) => s matches DispatchStep::AskParent(a) && {
            &&& a.parent_agent_id == p
            &&& a.child_agent_id == c.agent_id
            &&& a.source_task_id == c.task_id
            &&& a.tool_name@ == c.tool_name@
            &&& pending == Some(a.request_id)
        },
        _ => s == DispatchStep::Decided(d) && pending is None,
    }
}

/// Two task lists hold the same tasks, up to status and confirmation.
pub open spec fn same_tasks(a: Seq<Task>, b: Seq<Task>) -> bool {
    &&& a.len() == b.len()
    &&& forall|k: int| 0 <= k < a.len() ==> #[trigger] a[k] == Task {
        status: a[k].status,
        pending_confirmation_id: a[k].pending_confirmation_id,
        ..b[k]
    }
}

proof fn lemma_same_position(a: Seq<Task>, b: Seq<Task>, id: TaskId)
    requires
        same_tasks(a, b),
    ensures
        task_position(a, id) == task_position(b, id),
    decreases a.len(),
{
    if a.len() > 0 {
        assert(a[0].id == b[0].id);
        if a[0].id != id {
            let (ra, rb) = (a.drop_first(), b.drop_first());
            assert forall|k: int| 0 <= k < ra.len() implies #[trigger] ra[k] == Task {
                status: ra[k].status,
                pending_confirmation_id: ra[k].pending_confirmation_id,
                ..rb[k]
            } by {
                assert(ra[k] == a[k + 1] && rb[k] == b[k + 1]);
            }
            lemma_same_position(ra, rb, id);
        }
    }
}

proof fn lemma_same_approver(a: Seq<Task>, b: Seq<Task>, agents: Seq<Agent>, id: TaskId, tool: Seq<char>)
    requires
        same_tasks(a, b),
    ensures
        approver(a, agents, id, tool) == approver(b, agents, id, tool),
{
    lemma_same_position(a, b, id);
    lemma_task_position_pub(a, id);
    lemma_task_position_pub(b, id);
    let p = task_position(a, id);
    if p >= 0 {
        assert(a[p] == Task { status: a[p].status, pending_confirmation_id: a[p].pending_confirmation_id, ..b[p] });
        match a[p].parent_task_id {
            Some(pid) => {
                lemma_same_position(a, b, pid);
                lemma_task_position_pub(a, pid);
                lemma_task_position_pub(b, pid);
                let q = task_position(a, pid);
                if q >= 0 {
                    assert(a[q] == Task {
                        status: a[q].status,
                        pending_confirmation_id: a[q].pending_confirmation_id,
                        ..b[q]
                    });
                }
            },
            None => {},
        }
    }
}

/// Pushing a step keeps the decisions of the calls before it.
proof fn lemma_steps_grow(
    tasks: Seq<Task>,
    agents: Seq<Agent>,
    tools: Seq<ToolDefinition>,
    reqs: Seq<ToolExecutionRequest>,
    before: Seq<DispatchStep>,
    after: Seq<DispatchStep>,
    i: int,
)
    requires
        before.len() == i,
        after.len() == i + 1,
        forall|k: int| 0 <= k < i ==> after[k] == before[k],
    ensures
        forall|k: int| 0 <= k <= i ==> open_before(tasks, reqs, after, k) == open_before(tasks, reqs, before, k),
        forall|k: int| 0 <= k <= i ==> pass_decision(tasks, agents, tools, reqs, after, k) == pass_decision(tasks, agents, tools, reqs, before, k),
{
    assert forall|k: int| 0 <= k <= i implies open_before(tasks, reqs, after, k) == open_before(tasks, reqs, before, k) by {
        let id = reqs[k].call.task_id;
        if exists|j: int| 0 <= j < k && reqs[j].call.task_id == id && opens(#[trigger] after[j]) {
            let j = choose|j: int| 0 <= j < k && reqs[j].call.task_id == id && opens(#[trigger] after[j]);
            assert(opens(before[j]));
        }
        if exists|j: int| 0 <= j < k && reqs[j].call.task_id == id && opens(#[trigger] before[j]) {
            let j = choose|j: int| 0 <= j < k && reqs[j].call.task_id == id && opens(#[trigger] before[j]);
            assert(opens(after[j]));
        }
    }
}

/// Whether call `i`'s task waits on a confirmation, read from the tasks as the
/// pass has left them so far.
proof fn lemma_open_before(
    o: Seq<Task>,
    cur: Seq<Task>,
    r: Seq<ToolExecutionRequest>,
    steps: Seq<DispatchStep>,
    i: int,
)
    requires
        0 <= i < r.len(),
        steps.len() == i,
        same_tasks(cur, o),
        forall|k: int|
            0 <= k < i && opens(#[trigger] steps[k]) && task_position(o, r[k].call.task_id) >= 0 ==> {
                let p = task_position(o, r[k].call.task_id);
                cur[p] == task_opened(o[p], steps[k])
            },
        forall|q: int|
            0 <= q < o.len() && (forall|k: int|
                0 <= k < i && opens(#[trigger] steps[k]) ==> task_position(o, r[k].call.task_id) != q)
                ==> #[trigger] cur[q] == o[q],
    ensures
        open_before(o, r, steps, i) == (task_position(o, r[i].call.task_id) >= 0
            && cur[task_position(o, r[i].call.task_id)].pending_confirmation_id is Some),
{
    let id = r[i].call.task_id;
    lemma_task_position_pub(o, id);
    let p = task_position(o, id);
    if p >= 0 {
        if exists|j: int| 0 <= j < i && r[j].call.task_id == id && opens(#[trigger] steps[j]) {
            let j = choose|j: int| 0 <= j < i && r[j].call.task_id == id && opens(#[trigger] steps[j]);
            assert(cur[p] == task_opened(o[p], steps[j]));
        } else {
            assert forall|k: int| 0 <= k < i && opens(#[trigger] steps[k]) implies task_position(o, r[k].call.task_id) != p by {
                lemma_task_position_pub(o, r[k].call.task_id);
                if task_position(o, r[k].call.task_id) == p {
                    assert(r[k].call.task_id == id);
                }
            }
            assert(cur[p] == o[p]);
        }
    }
}

fn find_agent<'a>(agents: &'a [Agent], id: AgentId) -> (r: Option<&'a Agent>)
    ensures
        match r {
            Some(a) => agent_of(agents@, id) == Some(*a),
            None => agent_of(agents@, id) is None,
        },
{
    match agent_index(agents, id) {
        Some(k) => {
            proof {
                let c = choose|x: int| agent_position(agents@, id, x);
                assert(c == k as int) by {
                    if c < k {
                        assert(agents@[c].id != id);
                    }
                    if c > k {
                        assert(agents@[k as int].id == id);
                    }
                }
            }
            Some(&agents[k])
        },
        None => None,
    }
}

/// The decision for the call `c` while the tasks stand as `tasks`.
pub open spec fn decision_now(
    tasks: Seq<Task>,
    agents: Seq<Agent>,
    tools: Seq<ToolDefinition>,
    c: ToolCallRequest,
) -> DispatchDecision {
    dispatch_decision(
        find_tool(tools, c.tool_name@),
        agent_of(agents, c.agent_id),
        confirming(tasks, c.task_id),
        approver(tasks, agents, c.task_id, c.tool_name@),
    )
}

/// Dispatches the call at `i`, which waits on no confirmation (see
/// `dispatch_pass`).
fn dispatch_one(
    tasks: &mut Vec<Task>,
    requests: &mut Vec<ToolExecutionRequest>,
    registry: &SpaceToolRegistry,
    agents: &[Agent],
    i: usize,
) -> (step: DispatchStep)
    requires
        i < old(requests)@.len(),
        old(requests)@[i as int].pending_confirmation_id is None,
    ensures
        ({
            let c = old(requests)@[i as int].call;
            let p = task_position(old(tasks)@, c.task_id);
            &&& step_follows(
                step,
                c,
                decision_now(old(tasks)@, agents@, registry.tools@, c),
                final(requests)@[i as int].pending_confirmation_id,
            )
            &&& final(requests)@ == old(requests)@.update(
                i as int,
                ToolExecutionRequest {
                    pending_confirmation_id: final(requests)@[i as int].pending_confirmation_id,
                    ..old(requests)@[i as int]
                },
            )
            &&& if opens(step) && p >= 0 {
                final(tasks)@ == old(tasks)@.update(p, task_opened(old(tasks)@[p], step))
            } else {
                final(tasks)@ == old(tasks)@
            }
        }),
{
    let task_id = requests[i].call.task_id;
    let agent_id = requests[i].call.agent_id;
    proof {
        lemma_task_position_pub(tasks@, task_id);
    }
    let pos = task_index(tasks.as_slice(), task_id);
    let pending_now = match pos {
        Some(p) => tasks[p].pending_confirmation_id.is_some(),
        None => false,
    };
    let tool = registry.get(requests[i].call.tool_name.as_str());
    let agent = find_agent(agents, agent_id);
    let approving = parent_approver(tasks.as_slice(), agents, task_id, requests[i].call.tool_name.as_str());
    let d = decide_tool_dispatch(tool, agent, pending_now, approving);
    match d {
        DispatchDecision::AwaitUserConfirmation => {
            let id = new_uuid();
            match pos {
                Some(p) => {
                    tasks[p].status = TaskStatus::Waiting(WaitingReason::User);
                    tasks[p].pending_confirmation_id = Some(id);
                },
                None => {},
            }
            requests[i].pending_confirmation_id = Some(id);
            let m = ToolConfirmationRequest {
                request_id: id,
                task_id,
                agent_id,
                tool_name: requests[i].call.tool_name.clone(),
                options: default_confirmation_options(),
            };
            DispatchStep::AskUser(m)
        },
        DispatchDecision::AwaitParentApproval(parent) => {
            let id = new_uuid();
            match pos {
                Some(p) => {
                    tasks[p].status = TaskStatus::Waiting(WaitingReason::Approval);
                    tasks[p].pending_confirmation_id = Some(id);
                },
                None => {},
            }
            requests[i].pending_confirmation_id = Some(id);
            let a = ApprovalRequest {
                request_id: id,
                tool_name: requests[i].call.tool_name.clone(),
                source_task_id: task_id,
                parent_agent_id: parent,
                child_agent_id: agent_id,
                approval_task_id: new_uuid(),
            };
            DispatchStep::AskParent(a)
        },
        _ => DispatchStep::Decided(d),
    }
}

/// The shape of a pass after `i` calls: the calls keep their content, the
/// later ones are untouched, and the tasks keep all but status and confirmation.
#[verifier::opaque]
spec fn inv_shape(o: Seq<Task>, r: Seq<ToolExecutionRequest>, t: Seq<Task>, q: Seq<ToolExecutionRequest>, st: Seq<DispatchStep>, i: int) -> bool {
    &&& 0 <= i <= r.len()
    &&& q.len() == r.len()
    &&& st.len() == i
    &&& same_tasks(t, o)
    &&& forall|k: int| 0 <= k < r.len() ==> #[trigger] q[k].call == r[k].call
    &&& forall|k: int| i <= k < r.len() ==> #[trigger] q[k] == r[k]
}

/// Each of the first `i` calls was answered as `pass_decision` says.
#[verifier::opaque]
spec fn inv_steps(
    o: Seq<Task>,
    agents: Seq<Agent>,
    tools: Seq<ToolDefinition>,
    r: Seq<ToolExecutionRequest>,
    q: Seq<ToolExecutionRequest>,
    st: Seq<DispatchStep>,
    i: int,
) -> bool {
    &&& forall|k: int|
        0 <= k < i && (#[trigger] r[k]).pending_confirmation_id is Some ==> {
            &&& st[k] is AlreadyWaiting
            &&& q[k].pending_confirmation_id == r[k].pending_confirmation_id
        }
    &&& forall|k: int|
        0 <= k < i && (#[trigger] r[k]).pending_confirmation_id is None ==> step_follows(
            st[k],
            r[k].call,
            pass_decision(o, agents, tools, r, st, k),
            q[k].pending_confirmation_id,
        )
}

/// The tasks after the first `i` calls: a task a call opened a confirmation
/// for waits on it, every other task is as it was.
#[verifier::opaque]
spec fn inv_tasks(o: Seq<Task>, r: Seq<ToolExecutionRequest>, t: Seq<Task>, st: Seq<DispatchStep>, i: int) -> bool {
    &&& forall|k: int|
        0 <= k < i && opens(#[trigger] st[k]) && task_position(o, r[k].call.task_id) >= 0 ==> {
            let p = task_position(o, r[k].call.task_id);
            t[p] == task_opened(o[p], st[k])
        }
    &&& forall|x: int|
        0 <= x < o.len() && (forall|k: int|
            0 <= k < i && opens(#[trigger] st[k]) ==> task_position(o, r[k].call.task_id) != x) ==> #[trigger] t[x]
            == o[x]
}

/// Among the first `i` calls, none opened a confirmation for a task that had
/// one, and no two opened one for the same existing task.
#[verifier::opaque]
spec fn inv_law(o: Seq<Task>, r: Seq<ToolExecutionRequest>, st: Seq<DispatchStep>, i: int) -> bool {
    &&& forall|k: int| 0 <= k < i && opens(#[trigger] st[k]) ==> !confirming(o, r[k].call.task_id)
    &&& forall|k: int, m: int|
        0 <= k < m < i && opens(#[trigger] st[k]) && opens(#[trigger] st[m]) && r[k].call.task_id
            == r[m].call.task_id ==> find_task(o, r[k].call.task_id) is None
}

proof fn lemma_key(
    o: Seq<Task>,
    agents: Seq<Agent>,
    tools: Seq<ToolDefinition>,
    r: Seq<ToolExecutionRequest>,
    t: Seq<Task>,
    q: Seq<ToolExecutionRequest>,
    st: Seq<DispatchStep>,
    i: int,
)
    requires
        inv_shape(o, r, t, q, st, i),
        inv_tasks(o, r, t, st, i),
        i < r.len(),
    ensures
        q[i] == r[i],
        q.len() == r.len(),
        same_tasks(t, o),
        st.len() == i,
        task_position(t, r[i].call.task_id) == task_position(o, r[i].call.task_id),
        decision_now(t, agents, tools, r[i].call) == pass_decision(o, agents, tools, r, st, i),
{
    reveal(inv_shape);
    reveal(inv_tasks);
    let id = r[i].call.task_id;
    assert(q[i] == r[i]);
    lemma_same_position(t, o, id);
    lemma_task_position_pub(t, id);
    lemma_task_position_pub(o, id);
    lemma_open_before(o, t, r, st, i);
    lemma_same_approver(t, o, agents, id, r[i].call.tool_name@);
}

proof fn lemma_opens_fresh(
    step: DispatchStep,
    c: ToolCallRequest,
    tool: Option<ToolDefinition>,
    agent: Option<Agent>,
    pending: bool,
    appr: Option<AgentId>,
    x: Option<u128>,
)
    requires
        step_follows(step, c, dispatch_decision(tool, agent, pending, appr), x),
        opens(step),
    ensures
        !pending,
{
}

proof fn lemma_shape_step(
    o: Seq<Task>,
    r: Seq<ToolExecutionRequest>,
    t0: Seq<Task>,
    t1: Seq<Task>,
    q0: Seq<ToolExecutionRequest>,
    q1: Seq<ToolExecutionRequest>,
    s0: Seq<DispatchStep>,
    step: DispatchStep,
    i: int,
)
    requires
        inv_shape(o, r, t0, q0, s0, i),
        i < r.len(),
        q1 == q0 || q1 == q0.update(i, ToolExecutionRequest { pending_confirmation_id: q1[i].pending_confirmation_id, ..q0[i] }),
        t1 == t0 || exists|p: int| 0 <= p < t0.len() && t1 == t0.update(p, task_opened(t0[p], step)),
    ensures
        inv_shape(o, r, t1, q1, s0.push(step), i + 1),
{
    reveal(inv_shape);
    if t1 != t0 {
        let p = choose|p: int| 0 <= p < t0.len() && t1 == t0.update(p, task_opened(t0[p], step));
        assert forall|k: int| 0 <= k < t1.len() implies #[trigger] t1[k] == Task {
            status: t1[k].status,
            pending_confirmation_id: t1[k].pending_confirmation_id,
            ..o[k]
        } by {
            assert(t0[k] == Task { status: t0[k].status, pending_confirmation_id: t0[k].pending_confirmation_id, ..o[k] });
        }
    }
    assert forall|k: int| 0 <= k < r.len() implies #[trigger] q1[k].call == r[k].call by {
        assert(q0[k].call == r[k].call);
    }
    assert forall|k: int| i + 1 <= k < r.len() implies #[trigger] q1[k] == r[k] by {
        assert(q0[k] == r[k]);
    }
}

proof fn lemma_steps_step(
    o: Seq<Task>,
    agents: Seq<Agent>,
    tools: Seq<ToolDefinition>,
    r: Seq<ToolExecutionRequest>,
    q0: Seq<ToolExecutionRequest>,
    q1: Seq<ToolExecutionRequest>,
    s0: Seq<DispatchStep>,
    step: DispatchStep,
    i: int,
)
    requires
        inv_steps(o, agents, tools, r, q0, s0, i),
        s0.len() == i,
        0 <= i < r.len(),
        q0.len() == r.len(),
        q0[i] == r[i],
        q1 == q0 || q1 == q0.update(i, ToolExecutionRequest { pending_confirmation_id: q1[i].pending_confirmation_id, ..q0[i] }),
        r[i].pending_confirmation_id is Some ==> step is AlreadyWaiting && q1 == q0,
        r[i].pending_confirmation_id is None ==> step_follows(
            step,
            r[i].call,
            pass_decision(o, agents, tools, r, s0, i),
            q1[i].pending_confirmation_id,
        ),
    ensures
        inv_steps(o, agents, tools, r, q1, s0.push(step), i + 1),
{
    reveal(inv_steps);
    let s1 = s0.push(step);
    lemma_steps_grow(o, agents, tools, r, s0, s1, i);
    assert(s1[i] == step);
    assert forall|k: int| 0 <= k < i implies #[trigger] s1[k] == s0[k] && q1[k] == q0[k] by {}
}

proof fn lemma_tasks_step(
    o: Seq<Task>,
    r: Seq<ToolExecutionRequest>,
    t0: Seq<Task>,
    t1: Seq<Task>,
    s0: Seq<DispatchStep>,
    step: DispatchStep,
    i: int,
)
    requires
        inv_tasks(o, r, t0, s0, i),
        same_tasks(t0, o),
        s0.len() == i,
        0 <= i < r.len(),
        opens(step) ==> !open_before(o, r, s0, i),
        ({
            let p = task_position(o, r[i].call.task_id);
            if opens(step) && p >= 0 {
                t1 == t0.update(p, task_opened(t0[p], step))
            } else {
                t1 == t0
            }
        }),
    ensures
        inv_tasks(o, r, t1, s0.push(step), i + 1),
{
    reveal(inv_tasks);
    let s1 = s0.push(step);
    let id = r[i].call.task_id;
    lemma_task_position_pub(o, id);
    let p = task_position(o, id);
    assert(s1[i] == step);
    assert forall|k: int| 0 <= k < i implies #[trigger] s1[k] == s0[k] by {}
    if opens(step) && p >= 0 {
        assert forall|k: int| 0 <= k < i && opens(#[trigger] s0[k]) implies task_position(o, r[k].call.task_id) != p by {
            lemma_task_position_pub(o, r[k].call.task_id);
            if task_position(o, r[k].call.task_id) == p {
                assert(r[k].call.task_id == id);
            }
        }
        assert(t0[p] == Task { status: t0[p].status, pending_confirmation_id: t0[p].pending_confirmation_id, ..o[p] });
        assert(t1[p] == task_opened(o[p], step));
    }
    assert forall|k: int|
        0 <= k < i + 1 && opens(#[trigger] s1[k]) && task_position(o, r[k].call.task_id) >= 0 implies {
            let pk = task_position(o, r[k].call.task_id);
            t1[pk] == task_opened(o[pk], s1[k])
        } by {
        let pk = task_position(o, r[k].call.task_id);
        if k < i {
            assert(opens(s0[k]));
            assert(t0[pk] == task_opened(o[pk], s0[k]));
            if opens(step) && p >= 0 {
                lemma_task_position_pub(o, r[k].call.task_id);
                if pk == p {
                    assert(r[k].call.task_id == id);
                    assert(open_before(o, r, s0, i));
                }
            }
        } else {
            assert(t0[p] == Task { status: t0[p].status, pending_confirmation_id: t0[p].pending_confirmation_id, ..o[p] });
        }
    }
    assert forall|x: int|
        0 <= x < o.len() && (forall|k: int|
            0 <= k < i + 1 && opens(#[trigger] s1[k]) ==> task_position(o, r[k].call.task_id) != x) implies #[trigger] t1[x]
            == o[x] by {
        assert forall|k: int| 0 <= k < i && opens(#[trigger] s0[k]) implies task_position(o, r[k].call.task_id) != x by {
            assert(s1[k] == s0[k]);
        }
        assert(t0[x] == o[x]);
        if opens(step) && p >= 0 {
            assert(s1[i] == step);
            assert(p != x);
        }
    }
}

proof fn lemma_law_step(o: Seq<Task>, r: Seq<ToolExecutionRequest>, s0: Seq<DispatchStep>, step: DispatchStep, i: int)
    requires
        inv_law(o, r, s0, i),
        s0.len() == i,
        0 <= i < r.len(),
        opens(step) ==> !open_before(o, r, s0, i),
    ensures
        inv_law(o, r, s0.push(step), i + 1),
{
    reveal(inv_law);
    let s1 = s0.push(step);
    assert(s1[i] == step);
    assert forall|k: int| 0 <= k < i implies #[trigger] s1[k] == s0[k] by {}
    assert forall|k: int, m: int|
        0 <= k < m < i + 1 && opens(#[trigger] s1[k]) && opens(#[trigger] s1[m]) && r[k].call.task_id
            == r[m].call.task_id implies find_task(o, r[k].call.task_id) is None by {
        if m == i {
            assert(opens(s0[k]));
        } else {
            assert(opens(s0[k]) && opens(s0[m]));
        }
    }
}

/// Every existing task has at most one call waiting on a confirmation, and
/// that call waits on the task's own confirmation.
pub open spec fn one_confirmation_per_task(tasks: Seq<Task>, reqs: Seq<ToolExecutionRequest>) -> bool {
    &&& forall|i: int|
        0 <= i < reqs.len() && (#[trigger] reqs[i]).pending_confirmation_id is Some && find_task(
            tasks,
            reqs[i].call.task_id,
        ) is Some ==> find_task(tasks, reqs[i].call.task_id)->0.pending_confirmation_id
            == reqs[i].pending_confirmation_id
    &&& forall|i: int, j: int|
        0 <= i < j < reqs.len() && (#[trigger] reqs[i]).pending_confirmation_id is Some
            && (#[trigger] reqs[j]).pending_confirmation_id is Some && reqs[i].call.task_id == reqs[j].call.task_id
            ==> find_task(tasks, reqs[i].call.task_id) is None
}

proof fn lemma_pass_keeps_one_confirmation(
    o: Seq<Task>,
    r: Seq<ToolExecutionRequest>,
    t: Seq<Task>,
    q: Seq<ToolExecutionRequest>,
    steps: Seq<DispatchStep>,
)
    requires
        one_confirmation_per_task(o, r),
        same_tasks(t, o),
        q.len() == r.len(),
        steps.len() == r.len(),
        forall|k: int| 0 <= k < r.len() ==> #[trigger] q[k].call == r[k].call,
        forall|k: int|
            0 <= k < r.len() && (#[trigger] r[k]).pending_confirmation_id is Some ==> q[k].pending_confirmation_id
                == r[k].pending_confirmation_id && !opens(steps[k]),
        forall|k: int|
            0 <= k < r.len() && (#[trigger] r[k]).pending_confirmation_id is None ==> if opens(steps[k]) {
                q[k].pending_confirmation_id == Some(opened_id(steps[k]))
            } else {
                q[k].pending_confirmation_id is None
            },
        forall|k: int|
            0 <= k < r.len() && opens(#[trigger] steps[k]) && task_position(o, r[k].call.task_id) >= 0 ==> {
                let p = task_position(o, r[k].call.task_id);
                t[p] == task_opened(o[p], steps[k])
            },
        forall|x: int|
            0 <= x < o.len() && (forall|k: int|
                0 <= k < r.len() && opens(#[trigger] steps[k]) ==> task_position(o, r[k].call.task_id) != x)
                ==> #[trigger] t[x] == o[x],
        forall|k: int| 0 <= k < r.len() && opens(#[trigger] steps[k]) ==> !confirming(o, r[k].call.task_id),
        forall|k: int, m: int|
            0 <= k < m < r.len() && opens(#[trigger] steps[k]) && opens(#[trigger] steps[m]) && r[k].call.task_id
                == r[m].call.task_id ==> find_task(o, r[k].call.task_id) is None,
    ensures
        one_confirmation_per_task(t, q),
{
    assert forall|i: int|
        0 <= i < q.len() && (#[trigger] q[i]).pending_confirmation_id is Some && find_task(t, q[i].call.task_id)
            is Some implies find_task(t, q[i].call.task_id)->0.pending_confirmation_id
            == q[i].pending_confirmation_id by {
        let id = r[i].call.task_id;
        assert(q[i].call == r[i].call);
        lemma_same_position(t, o, id);
        lemma_task_position_pub(t, id);
        lemma_task_position_pub(o, id);
        let p = task_position(o, id);
        if r[i].pending_confirmation_id is Some {
            assert forall|k: int| 0 <= k < r.len() && opens(#[trigger] steps[k]) implies task_position(o, r[k].call.task_id) != p by {
                lemma_task_position_pub(o, r[k].call.task_id);
                if task_position(o, r[k].call.task_id) == p {
                    assert(r[k].call.task_id == id);
                    assert(!confirming(o, id));
                }
            }
            assert(t[p] == o[p]);
        } else {
            assert(opens(steps[i]));
            assert(t[p] == task_opened(o[p], steps[i]));
        }
    }
    assert forall|i: int, j: int|
        0 <= i < j < q.len() && (#[trigger] q[i]).pending_confirmation_id is Some
            && (#[trigger] q[j]).pending_confirmation_id is Some && q[i].call.task_id == q[j].call.task_id
            implies find_task(t, q[i].call.task_id) is None by {
        let id = r[i].call.task_id;
        assert(q[i].call == r[i].call && q[j].call == r[j].call);
        lemma_same_position(t, o, id);
        lemma_task_position_pub(t, id);
        lemma_task_position_pub(o, id);
        if find_task(o, id) is Some {
            if r[i].pending_confirmation_id is Some && r[j].pending_confirmation_id is Some {
                assert(false);
            } else if r[i].pending_confirmation_id is Some {
                assert(opens(steps[j]));
                assert(confirming(o, id));
            } else if r[j].pending_confirmation_id is Some {
                assert(opens(steps[i]));
                assert(confirming(o, id));
            } else {
                assert(opens(steps[i]) && opens(steps[j]));
            }
        }
    }
}

/// One dispatch pass over the calls that wait for it, in order. A call that
/// already waits on a confirmation is left alone. Every other call is
/// decided by `pass_decision`: the registry's tool, the calling agent, whether
/// its task already waits on a confirmation, and the approving parent agent.
/// A call that needs the user's confirmation or a parent's approval opens
/// one under a fresh random id: the call and its task wait on that id, and
/// the task waits on the user or on the approving agent. No other task or
/// call changes. So a task never gets a second confirmation while one is
/// open, and gets at most one in a pass.
pub fn dispatch_pass(
    tasks: &mut Vec<Task>,
    requests: &mut Vec<ToolExecutionRequest>,
    registry: &SpaceToolRegistry,
    agents: &[Agent],
) -> (steps: Vec<DispatchStep>)
    ensures
        steps@.len() == old(requests)@.len(),
        final(requests)@.len() == old(requests)@.len(),
        forall|i: int| 0 <= i < old(requests)@.len() ==> #[trigger] final(requests)@[i].call == old(requests)@[i].call,
        forall|i: int|
            0 <= i < old(requests)@.len() && (#[trigger] old(requests)@[i]).pending_confirmation_id is Some ==> {
                &&& steps@[i] is AlreadyWaiting
                &&& final(requests)@[i].pending_confirmation_id == old(requests)@[i].pending_confirmation_id
            },
        forall|i: int|
            0 <= i < old(requests)@.len() && (#[trigger] old(requests)@[i]).pending_confirmation_id is None
                ==> step_follows(
                steps@[i],
                old(requests)@[i].call,
                pass_decision(old(tasks)@, agents@, registry.tools@, old(requests)@, steps@, i),
                final(requests)@[i].pending_confirmation_id,
            ),
        same_tasks(final(tasks)@, old(tasks)@),
        forall|i: int|
            0 <= i < old(requests)@.len() && opens(#[trigger] steps@[i]) && task_position(
                old(tasks)@,
                old(requests)@[i].call.task_id,
            ) >= 0 ==> {
                let p = task_position(old(tasks)@, old(requests)@[i].call.task_id);
                final(tasks)@[p] == task_opened(old(tasks)@[p], steps@[i])
            },
        forall|x: int|
            0 <= x < old(tasks)@.len() && (forall|i: int|
                0 <= i < old(requests)@.len() && opens(#[trigger] steps@[i]) ==> task_position(
                    old(tasks)@,
                    old(requests)@[i].call.task_id,
                ) != x) ==> #[trigger] final(tasks)@[x] == old(tasks)@[x],
        forall|i: int|
            0 <= i < old(requests)@.len() && opens(#[trigger] steps@[i]) ==> !confirming(
                old(tasks)@,
                old(requests)@[i].call.task_id,
            ),
        forall|i: int, j: int|
            0 <= i < j < old(requests)@.len() && opens(#[trigger] steps@[i]) && opens(#[trigger] steps@[j])
                && old(requests)@[i].call.task_id == old(requests)@[j].call.task_id ==> find_task(
                old(tasks)@,
                old(requests)@[i].call.task_id,
            ) is None,
        one_confirmation_per_task(old(tasks)@, old(requests)@) ==> one_confirmation_per_task(
            final(tasks)@,
            final(requests)@,
        ),
{
    let ghost o = tasks@;
    let ghost r = requests@;
    let n = requests.len();
    let mut steps: Vec<DispatchStep> = Vec::new();
    proof {
        reveal(inv_shape);
        reveal(inv_steps);
        reveal(inv_tasks);
        reveal(inv_law);
        assert forall|k: int| 0 <= k < o.len() implies #[trigger] o[k] == Task {
            status: o[k].status,
            pending_confirmation_id: o[k].pending_confirmation_id,
            ..o[k]
        } by {}
    }
    for i in 0..n
        invariant
            n == r.len(),
            requests@.len() == n,
            inv_shape(o, r, tasks@, requests@, steps@, i as int),
            inv_steps(o, agents@, registry.tools@, r, requests@, steps@, i as int),
            inv_tasks(o, r, tasks@, steps@, i as int),
            inv_law(o, r, steps@, i as int),
    {
        let ghost t0 = tasks@;
        let ghost q0 = requests@;
        let ghost s0 = steps@;
        let ghost c = r[i as int].call;
        proof {
            lemma_key(o, agents@, registry.tools@, r, t0, q0, s0, i as int);
            lemma_task_position_pub(t0, c.task_id);
        }
        let step = if requests[i].pending_confirmation_id.is_some() {
            DispatchStep::AlreadyWaiting
        } else {
            dispatch_one(tasks, requests, registry, agents, i)
        };
        proof {
            let p = task_position(o, c.task_id);
            if opens(step) {
                lemma_opens_fresh(
                    step,
                    c,
                    find_tool(registry.tools@, c.tool_name@),
                    agent_of(agents@, c.agent_id),
                    open_before(o, r, s0, i as int),
                    approver(o, agents@, c.task_id, c.tool_name@),
                    requests@[i as int].pending_confirmation_id,
                );
            }
            if opens(step) && p >= 0 {
                assert(0 <= p < t0.len() && tasks@ == t0.update(p, task_opened(t0[p], step)));
            }
            lemma_shape_step(o, r, t0, tasks@, q0, requests@, s0, step, i as int);
            lemma_steps_step(o, agents@, registry.tools@, r, q0, requests@, s0, step, i as int);
            lemma_tasks_step(o, r, t0, tasks@, s0, step, i as int);
            lemma_law_step(o, r, s0, step, i as int);
        }
        steps.push(step);
    }
    proof {
        reveal(inv_shape);
        reveal(inv_steps);
        reveal(inv_tasks);
        reveal(inv_law);
        if one_confirmation_per_task(o, r) {
            assert forall|k: int|
                0 <= k < r.len() && (#[trigger] r[k]).pending_confirmation_id is None implies if opens(steps@[k]) {
                    requests@[k].pending_confirmation_id == Some(opened_id(steps@[k]))
                } else {
                    requests@[k].pending_confirmation_id is None
                } by {
                assert(step_follows(
                    steps@[k],
                    r[k].call,
                    pass_decision(o, agents@, registry.tools@, r, steps@, k),
                    requests@[k].pending_confirmation_id,
                ));
            }
            lemma_pass_keeps_one_confirmation(o, r, tasks@, requests@, steps@);
        }
    }
    steps
}

} // verus!
