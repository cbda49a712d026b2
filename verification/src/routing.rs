//! Routing of user input: an answer to an open tool confirmation, the next
//! turn of a waiting task of the same channel, or a new task.

use vstd::prelude::*;

use crate::domain::{same_opt_channel, ChannelId, Task, TaskId, TaskStatus, WaitingReason};
use crate::permissions::{Agent, AgentKind};
use crate::text::{chars_of, owned, trim, trim_chars};

verus! {

/// The confirmation option a typed answer selects: `1`, `2` and `3`
/// (surrounding white space ignored) select allow-once, allow-always and deny.
pub open spec fn confirmation_choice(content: Seq<char>) -> Option<Seq<char>> {
    let t = trim(content);
    if t == "1"@ {
        Some("allow_once"@)
    } else if t == "2"@ {
        Some("allow_always"@)
    } else if t == "3"@ {
        Some("deny"@)
    } else {
        None
    }
}

/// Reads a typed confirmation answer. Lower-casing, which the answer goes
/// through too, cannot turn any other text into one of the three digits.
pub fn parse_confirmation_option(content: &str) -> (r: Option<String>)
    ensures
        match confirmation_choice(content@) {
            Some(c) => r matches Some(s) && s@ == c,
            None => r is None,
        },
{
    let cs = chars_of(content);
    let t = trim_chars(&cs);
    let one = chars_of("1");
    let two = chars_of("2");
    let three = chars_of("3");
    if crate::text::seq_eq(&t, &one) {
        Some(owned("allow_once"))
    } else if crate::text::seq_eq(&t, &two) {
        Some(owned("allow_always"))
    } else if crate::text::seq_eq(&t, &three) {
        Some(owned("deny"))
    } else {
        None
    }
}

/// A message typed by a user.
#[derive(Debug)]
pub struct UserInput {
    pub content: String,
    pub origin_channel: ChannelId,
}

/// Where a user message goes.
#[derive(Debug)]
pub enum RoutingDecision {
    /// A command; the command handler takes it.
    Command,
    /// An answer to the task's open tool confirmation.
    ConfirmationResponse { task_id: TaskId, request_id: u128, selected_option: String },
    /// The task waits for a confirmation and the answer is not a valid option.
    RetryPrompt { task_id: TaskId, message: String },
    /// The next turn of a task waiting for the user.
    ContinueTask { task_id: TaskId, user_input: String },
    /// A new conversational task.
    CreateTask { content: String },
}

/// The task waits for the user on the input's channel.
pub open spec fn waits_on(t: Task, input: UserInput) -> bool {
    t.status == TaskStatus::Waiting(WaitingReason::User) && same_opt_channel(
        t.origin_channel,
        Some(input.origin_channel),
    )
}

/// The task waits on the input's channel for a tool confirmation.
pub open spec fn awaits_confirmation(t: Task, input: UserInput) -> bool {
    waits_on(t, input) && t.pending_confirmation_id is Some
}

/// Position of the first task with `awaits_confirmation`, or -1.
pub open spec fn first_confirming(tasks: Seq<Task>, input: UserInput) -> int
    decreases tasks.len(),
{
    if tasks.len() == 0 {
        -1
    } else if awaits_confirmation(tasks.last(), input) && first_confirming(
        tasks.drop_last(),
        input,
    ) < 0 {
        tasks.len() - 1
    } else {
        first_confirming(tasks.drop_last(), input)
    }
}

/// Position of the first task with `waits_on`, or -1.
pub open spec fn first_waiting(tasks: Seq<Task>, input: UserInput) -> int
    decreases tasks.len(),
{
    if tasks.len() == 0 {
        -1
    } else if waits_on(tasks.last(), input) && first_waiting(tasks.drop_last(), input) < 0 {
        tasks.len() - 1
    } else {
        first_waiting(tasks.drop_last(), input)
    }
}

proof fn lemma_first_prefix(tasks: Seq<Task>, input: UserInput, i: int)
    requires
        0 <= i < tasks.len(),
    ensures
        first_confirming(tasks.take(i + 1), input) == if first_confirming(tasks.take(i), input) < 0
            && awaits_confirmation(tasks[i], input) {
            i
        } else {
            first_confirming(tasks.take(i), input)
        },
        first_waiting(tasks.take(i + 1), input) == if first_waiting(tasks.take(i), input) < 0
            && waits_on(tasks[i], input) {
            i
        } else {
            first_waiting(tasks.take(i), input)
        },
{
    assert(tasks.take(i + 1).drop_last() =~= tasks.take(i));
    assert(tasks.take(i + 1).last() == tasks[i]);
}

proof fn lemma_first_range(tasks: Seq<Task>, input: UserInput)
    ensures
        -1 <= first_confirming(tasks, input) < tasks.len(),
        -1 <= first_waiting(tasks, input) < tasks.len(),
        first_confirming(tasks, input) >= 0 ==> awaits_confirmation(
            tasks[first_confirming(tasks, input)],
            input,
        ),
        first_waiting(tasks, input) >= 0 ==> waits_on(tasks[first_waiting(tasks, input)], input),
    decreases tasks.len(),
{
    if tasks.len() > 0 {
        lemma_first_range(tasks.drop_last(), input);
        let d = tasks.drop_last();
        if first_confirming(d, input) >= 0 {
            assert(tasks[first_confirming(d, input)] == d[first_confirming(d, input)]);
        }
        if first_waiting(d, input) >= 0 {
            assert(tasks[first_waiting(d, input)] == d[first_waiting(d, input)]);
        }
    }
}

/// The routing of `input` among `tasks`: commands go to the command
/// handler; else the first task awaiting a confirmation on the channel gets
/// the answer (or a retry prompt when it is no valid option); else the
/// first task waiting for the user on the channel continues; else a new
/// task starts.
pub open spec fn routes(
    d: RoutingDecision,
    input: UserInput,
    tasks: Seq<Task>,
    is_command: bool,
) -> bool {
    if is_command {
        d is Command
    } else if first_confirming(tasks, input) >= 0 {
        let t = tasks[first_confirming(tasks, input)];
        match confirmation_choice(input.content@) {
            Some(c) => d matches RoutingDecision::ConfirmationResponse {
                task_id,
                request_id,
                selected_option,
            } && task_id == t.id && request_id == t.pending_confirmation_id->0
                && selected_option@ == c,
            None => d matches RoutingDecision::RetryPrompt { task_id, message } && task_id == t.id
                && message@ == retry_message(),
        }
    } else if first_waiting(tasks, input) >= 0 {
        d matches RoutingDecision::ContinueTask { task_id, user_input } && task_id == tasks[first_waiting(
            tasks,
            input,
        )].id && user_input@ == input.content@
    } else {
        d matches RoutingDecision::CreateTask { content } && content@ == input.content@
    }
}

/// The prompt for an invalid confirmation answer.
pub open spec fn retry_message() -> Seq<char> {
    "请输入有效选项：1=仅本次允许，2=永久允许，3=拒绝"@
}

fn waits_on_exec(t: &Task, input: &UserInput) -> (r: bool)
    ensures
        r == waits_on(*t, *input),
{
    t.status == TaskStatus::Waiting(WaitingReason::User) && match &t.origin_channel {
        Some(c) => c.same_as(&input.origin_channel),
        None => false,
    }
}

/// Routes one user message (see `routes`); `is_command` tells whether the
/// text parses as a command.
pub fn route_user_input(input: &UserInput, tasks: &[Task], is_command: bool) -> (d: RoutingDecision)
    ensures
        routes(d, *input, tasks@, is_command),
{
    if is_command {
        return RoutingDecision::Command;
    }
    let n = tasks.len();
    let mut confirming: Option<usize> = None;
    let mut waiting: Option<usize> = None;
    assert(tasks@.take(0) =~= Seq::<Task>::empty());
    for i in 0..n
        invariant
            n == tasks@.len(),
            match confirming {
                Some(j) => j as int == first_confirming(tasks@.take(i as int), *input),
                None => first_confirming(tasks@.take(i as int), *input) < 0,
            },
            match waiting {
                Some(j) => j as int == first_waiting(tasks@.take(i as int), *input),
                None => first_waiting(tasks@.take(i as int), *input) < 0,
            },
    {
        proof {
            lemma_first_prefix(tasks@, *input, i as int);
        }
        let w = waits_on_exec(&tasks[i], input);
        if w && waiting.is_none() {
            waiting = Some(i);
        }
        if w && tasks[i].pending_confirmation_id.is_some() && confirming.is_none() {
            confirming = Some(i);
        }
    }
    assert(tasks@.take(n as int) =~= tasks@);
    proof {
        lemma_first_range(tasks@, *input);
    }
    match confirming {
        Some(j) => {
            let t = &tasks[j];
            let request_id = match t.pending_confirmation_id {
                Some(id) => id,
                None => 0,
            };
            match parse_confirmation_option(input.content.as_str()) {
                Some(option) => RoutingDecision::ConfirmationResponse {
                    task_id: t.id,
                    request_id,
                    selected_option: option,
                },
                None => RoutingDecision::RetryPrompt {
                    task_id: t.id,
                    message: owned("请输入有效选项：1=仅本次允许，2=永久允许，3=拒绝"),
                },
            }
        },
        None => match waiting {
            Some(j) => RoutingDecision::ContinueTask {
                task_id: tasks[j].id,
                user_input: input.content.clone(),
            },
            None => RoutingDecision::CreateTask { content: input.content.clone() },
        },
    }
}

/// Input is only ever delivered to a task of its own channel: an answer,
/// a retry prompt or a continuation always names a task that waits for the
/// user on the input's channel.
pub proof fn lemma_routing_stays_on_channel(
    d: RoutingDecision,
    input: UserInput,
    tasks: Seq<Task>,
    is_command: bool,
)
    requires
        routes(d, input, tasks, is_command),
    ensures
        d matches RoutingDecision::ConfirmationResponse { task_id, .. } ==> exists|k: int|
            0 <= k < tasks.len() && #[trigger] tasks[k].id == task_id && awaits_confirmation(
                tasks[k],
                input,
            ),
        d matches RoutingDecision::RetryPrompt { task_id, .. } ==> exists|k: int|
            0 <= k < tasks.len() && #[trigger] tasks[k].id == task_id && awaits_confirmation(
                tasks[k],
                input,
            ),
        d matches RoutingDecision::ContinueTask { task_id, .. } ==> exists|k: int|
            0 <= k < tasks.len() && #[trigger] tasks[k].id == task_id && waits_on(tasks[k], input),
{
    lemma_first_range(tasks, input);
}

/// How the next dispatch of a task picks its agent.
#[derive(Debug, Clone, Copy, PartialEq, Eq, Structural)]
pub enum DispatchStrategy {
    BrainLlm,
    DirectDelegate,
}

/// The dispatch hint attached to a continued task.
#[derive(Debug)]
pub struct DispatchHint {
    pub strategy: DispatchStrategy,
    pub preferred_agent_name: Option<String>,
}

/// The first persistent agent with id `id`.
pub open spec fn find_persistent(agents: Seq<Agent>, id: u128) -> Option<Agent>
    decreases agents.len(),
{
    if agents.len() == 0 {
        None
    } else if agents[0].id == id && agents[0].kind == AgentKind::Persistent {
        Some(agents[0])
    } else {
        find_persistent(agents.drop_first(), id)
    }
}

/// The hint for the next turn: a top-level task goes straight back to its
/// previous delegate when that is a live persistent agent; everything else
/// goes through the brain again.
pub open spec fn continue_hint(h: DispatchHint, task: Task, agents: Seq<Agent>) -> bool {
    if task.parent_task_id is None && task.delegate is Some && find_persistent(
        agents,
        task.delegate->0,
    ) is Some {
        &&& h.strategy == DispatchStrategy::DirectDelegate
        &&& h.preferred_agent_name matches Some(n) && n@ == find_persistent(
            agents,
            task.delegate->0,
        )->0.name@
    } else {
        h.strategy == DispatchStrategy::BrainLlm && h.preferred_agent_name is None
    }
}

/// Continues a task with the user's next message: the task becomes `Ready`
/// with the message as its content, loses its delegate, and gets the hint
/// of `continue_hint`.
pub fn continue_task(task: &mut Task, user_input: &str, now: i64, agents: &[Agent]) -> (h: DispatchHint)
    ensures
        continue_hint(h, *old(task), agents@),
        *final(task) == (Task {
            status: TaskStatus::Ready,
            content: final(task).content,
            delegate: None,
            updated_at: now,
            ..*old(task)
        }),
        final(task).content@ == user_input@,
{
    let hint = if task.parent_task_id.is_none() {
        match task.delegate {
            Some(id) => match persistent_agent_name(agents, id) {
                Some(name) => DispatchHint {
                    strategy: DispatchStrategy::DirectDelegate,
                    preferred_agent_name: Some(name),
                },
                None => DispatchHint { strategy: DispatchStrategy::BrainLlm, preferred_agent_name: None },
            },
            None => DispatchHint { strategy: DispatchStrategy::BrainLlm, preferred_agent_name: None },
        }
    } else {
        DispatchHint { strategy: DispatchStrategy::BrainLlm, preferred_agent_name: None }
    };
    task.status = TaskStatus::Ready;
    task.content = owned(user_input);
    task.updated_at = now;
    task.delegate = None;
    hint
}

/// The name of the first persistent agent with id `id`.
fn persistent_agent_name(agents: &[Agent], id: u128) -> (r: Option<String>)
    ensures
        match find_persistent(agents@, id) {
            Some(a) => r matches Some(n) && n@ == a.name@,
            None => r is None,
        },
{
    let n = agents.len();
    let ghost ags = agents@;
    assert(ags.subrange(0, n as int) =~= ags);
    let mut i: usize = 0;
    while i < n
        invariant
            i <= n,
            n == ags.len(),
            ags == agents@,
            find_persistent(ags, id) == find_persistent(ags.subrange(i as int, n as int), id),
        decreases n - i,
    {
        let ghost rest = ags.subrange(i as int, n as int);
        assert(rest[0] == ags[i as int]);
        if agents[i].id == id && agents[i].kind == AgentKind::Persistent {
            return Some(agents[i].name.clone());
        }
        assert(rest.drop_first() =~= ags.subrange(i + 1, n as int));
        i = i + 1;
    }
    None
}

/// No task before the first one found qualifies; with none found, no task does.
proof fn lemma_first_minimal(tasks: Seq<Task>, input: UserInput)
    ensures
        forall|j: int|
            0 <= j < tasks.len() && (first_confirming(tasks, input) < 0 || j < first_confirming(tasks, input))
                ==> !awaits_confirmation(#[trigger] tasks[j], input),
        forall|j: int|
            0 <= j < tasks.len() && (first_waiting(tasks, input) < 0 || j < first_waiting(tasks, input))
                ==> !waits_on(#[trigger] tasks[j], input),
    decreases tasks.len(),
{
    if tasks.len() > 0 {
        let d = tasks.drop_last();
        lemma_first_minimal(d, input);
        lemma_first_range(d, input);
        assert forall|j: int| 0 <= j < d.len() implies #[trigger] tasks[j] == d[j] by {}
    }
}

/// Input reaches an existing task only on that task's own channel: an answer
/// to a confirmation, a retry prompt or a continued turn names a task whose
/// origin channel has the input's frontend, user and thread. Input of a user
/// that no task waits for starts a new task.
pub proof fn lemma_input_stays_on_its_channel(d: RoutingDecision, input: UserInput, tasks: Seq<Task>, is_command: bool)
    requires
        routes(d, input, tasks, is_command),
    ensures
        match d {
            RoutingDecision::ConfirmationResponse { task_id, .. } | RoutingDecision::RetryPrompt { task_id, .. }
            | RoutingDecision::ContinueTask { task_id, .. } => exists|i: int|
                #![trigger tasks[i]]
                0 <= i < tasks.len() && tasks[i].id == task_id && (tasks[i].origin_channel matches Some(c)
                    && c.frontend == input.origin_channel.frontend && c.user_id@
                    == input.origin_channel.user_id@ && crate::domain::opt_text(c.thread_id)
                    == crate::domain::opt_text(input.origin_channel.thread_id)),
            _ => true,
        },
        !is_command && (forall|i: int|
            0 <= i < tasks.len() ==> !((#[trigger] tasks[i]).origin_channel matches Some(c) && c.user_id@
                == input.origin_channel.user_id@)) ==> d is CreateTask,
        d is ConfirmationResponse || d is RetryPrompt || d is ContinueTask ==> exists|i: int|
            #![trigger tasks[i]]
            0 <= i < tasks.len() && tasks[i].status == TaskStatus::Waiting(WaitingReason::User) && match d {
                RoutingDecision::ConfirmationResponse { task_id, request_id, .. } => tasks[i].id == task_id
                    && tasks[i].pending_confirmation_id == Some(request_id),
                RoutingDecision::RetryPrompt { task_id, .. } => tasks[i].id == task_id
                    && tasks[i].pending_confirmation_id is Some,
                RoutingDecision::ContinueTask { task_id, .. } => tasks[i].id == task_id,
                _ => false,
            } && forall|j: int|
                0 <= j < i && (#[trigger] tasks[j]).status == TaskStatus::Waiting(WaitingReason::User)
                    && same_opt_channel(tasks[j].origin_channel, Some(input.origin_channel)) ==> !(d is ContinueTask)
                    && tasks[j].pending_confirmation_id is None,
        d is ContinueTask ==> forall|j: int|
            0 <= j < tasks.len() && (#[trigger] tasks[j]).status == TaskStatus::Waiting(WaitingReason::User)
                && same_opt_channel(tasks[j].origin_channel, Some(input.origin_channel))
                ==> tasks[j].pending_confirmation_id is None,
{
    lemma_first_range(tasks, input);
    lemma_first_minimal(tasks, input);
    let fc = first_confirming(tasks, input);
    let fw = first_waiting(tasks, input);
    if fc >= 0 {
        assert(tasks[fc].origin_channel is Some);
    } else if fw >= 0 {
        assert(tasks[fw].origin_channel is Some);
    }
}

/// A typed digit picks the offered option of that number: `1` allows the
/// call once, `2` allows it for good, `3` denies it.
pub proof fn lemma_typed_digits_pick_the_offered_options(content: Seq<char>, opts: Seq<crate::dispatch::ConfirmationOption>)
    requires
        crate::dispatch::default_options(opts),
    ensures
        trim(content) == "1"@ ==> confirmation_choice(content) == Some(opts[0].id@) && opts[0].mode
            == crate::dispatch::GrantMode::Once && !opts[0].deny,
        trim(content) == "2"@ ==> confirmation_choice(content) == Some(opts[1].id@) && opts[1].mode
            == crate::dispatch::GrantMode::Permanent && !opts[1].deny,
        trim(content) == "3"@ ==> confirmation_choice(content) == Some(opts[2].id@) && opts[2].deny,
        trim(content) != "1"@ && trim(content) != "2"@ && trim(content) != "3"@ ==> confirmation_choice(content)
            is None,
{
    reveal_strlit("1");
    reveal_strlit("2");
    reveal_strlit("3");
    assert("1"@[0] != "2"@[0] && "1"@[0] != "3"@[0] && "2"@[0] != "3"@[0]);
}

} // verus!
