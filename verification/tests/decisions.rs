use harness::batch::plan_sub_task_batch;
use harness::calling::{
    collect_round, find_calling_state, on_tool_calls, CallingOutcome, ConversationMessage,
    LlmToolCall, RoundDecision, RoundResult, ToolCallingState, ToolCallsResponse,
};
use harness::chat::{
    ask_user_step, chat_opening_message, experience_destination, find_chat_agent,
    inherited_origin_channel, validate_chat_handle, ExperienceDestination,
};
use harness::dispatch::{
    approval_plan, async_dispatch_gate, confirmation_plan, decide_tool_dispatch,
    default_confirmation_options, dispatch_refusal, parent_approver, resolve_confirmation,
    settle_confirmation, ApprovalDecision, ApprovalResult, ConfirmationOutcome, ConfirmationPlan,
    DispatchDecision, GrantMode,
};
use harness::domain::{ExecutionError, ChannelId, FailureReason, FrontendKind, Task, TaskStatus, ToolError, WaitingReason};
use harness::orchestrator::{spawn_cancelled, spawn_tool_error, ToolCallRequest};
use harness::permissions::{
    inherit_permissions, Agent, AgentKind, AgentToolPermissions, SpaceToolRegistry, ToolDefinition,
    ToolPermission,
};
use harness::routing::{continue_task, route_user_input, DispatchStrategy, RoutingDecision, UserInput};
use harness::subtasks::SubTaskDefinition;
use harness::tools::ToolActionKind;

fn telegram_channel() -> ChannelId {
    ChannelId { frontend: FrontendKind::Telegram, user_id: "tg-user".to_string(), thread_id: None }
}

fn qq_channel() -> ChannelId {
    ChannelId { frontend: FrontendKind::QQ, user_id: "qq-user".to_string(), thread_id: None }
}

fn base_task(id: u128, channel: Option<ChannelId>) -> Task {
    Task {
        id,
        content: "test".to_string(),
        creator: 0,
        delegate: None,
        status: TaskStatus::Pending,
        pending_confirmation_id: None,
        result_summary: String::new(),
        last_error: None,
        parent_task_id: None,
        output_channel: channel.as_ref().map(|c| ChannelId {
            frontend: c.frontend,
            user_id: c.user_id.clone(),
            thread_id: c.thread_id.clone(),
        }),
        origin_channel: channel,
        updated_at: 0,
    }
}

fn make_waiting_task(id: u128, channel: ChannelId) -> Task {
    let mut t = base_task(id, Some(channel));
    t.status = TaskStatus::Waiting(WaitingReason::User);
    t
}

fn make_waiting_task_with_confirmation(id: u128, channel: ChannelId, pending: u128) -> Task {
    let mut t = make_waiting_task(id, channel);
    t.pending_confirmation_id = Some(pending);
    t
}

fn input(content: &str, channel: ChannelId) -> UserInput {
    UserInput { content: content.to_string(), origin_channel: channel }
}

fn route(content: &str, channel: ChannelId, tasks: &[Task]) -> RoutingDecision {
    let msg = input(content, channel);
    let is_command = content.starts_with('/');
    route_user_input(&msg, tasks, is_command)
}

// ---- routing ----

#[test]
fn cross_channel_input_not_routed_to_other_channel_waiting_task() {
    let tasks = vec![make_waiting_task(1, telegram_channel())];
    match route("hello from QQ", qq_channel(), &tasks) {
        RoutingDecision::CreateTask { content } => assert_eq!(content, "hello from QQ"),
        other => panic!("QQ input should create new task, got {:?}", other),
    }
}

#[test]
fn same_channel_input_routed_to_waiting_task() {
    let tasks = vec![make_waiting_task(1, telegram_channel())];
    match route("hello from Telegram", telegram_channel(), &tasks) {
        RoutingDecision::ContinueTask { task_id, .. } => assert_eq!(task_id, 1),
        other => panic!("expected continue, got {:?}", other),
    }
}

#[test]
fn text_confirmation_option_2_maps_to_allow_always() {
    let tasks = vec![make_waiting_task_with_confirmation(1, telegram_channel(), 99)];
    match route("2", telegram_channel(), &tasks) {
        RoutingDecision::ConfirmationResponse { task_id, request_id, selected_option } => {
            assert_eq!(task_id, 1);
            assert_eq!(request_id, 99);
            assert_eq!(selected_option, "allow_always");
        }
        other => panic!("expected confirmation response, got {:?}", other),
    }
    assert_eq!(tasks[0].pending_confirmation_id, Some(99));
}

#[test]
fn invalid_confirmation_text_prompts_retry() {
    let tasks = vec![make_waiting_task_with_confirmation(1, telegram_channel(), 99)];
    match route("hello", telegram_channel(), &tasks) {
        RoutingDecision::RetryPrompt { task_id, message } => {
            assert_eq!(task_id, 1);
            assert!(message.contains("1=仅本次允许"));
        }
        other => panic!("expected retry prompt, got {:?}", other),
    }
}

#[test]
fn no_pending_confirmation_routes_to_continue_task() {
    let tasks = vec![make_waiting_task(1, telegram_channel())];
    match route("继续", telegram_channel(), &tasks) {
        RoutingDecision::ContinueTask { task_id, user_input } => {
            assert_eq!(task_id, 1);
            assert_eq!(user_input, "继续");
        }
        other => panic!("expected continue, got {:?}", other),
    }
}

#[test]
fn command_during_pending_confirmation_still_executes() {
    let tasks = vec![make_waiting_task_with_confirmation(1, telegram_channel(), 99)];
    assert!(matches!(route("/finish", telegram_channel(), &tasks), RoutingDecision::Command));
}

#[test]
fn confirmation_digits_ignore_surrounding_space() {
    let tasks = vec![make_waiting_task_with_confirmation(1, telegram_channel(), 99)];
    match route("  3\n", telegram_channel(), &tasks) {
        RoutingDecision::ConfirmationResponse { selected_option, .. } => assert_eq!(selected_option, "deny"),
        other => panic!("unexpected {:?}", other),
    }
}

fn make_agent(id: u128, name: &str, kind: AgentKind) -> Agent {
    Agent {
        id,
        name: name.to_string(),
        model: "m".to_string(),
        tags: vec![],
        description: String::new(),
        kind,
        parent_id: None,
        bound_task_id: None,
        tool_permissions: AgentToolPermissions::default(),
        system_prompt: None,
    }
}

fn task_with_delegate(delegate: Option<u128>, parent: Option<u128>) -> Task {
    let mut t = make_waiting_task(5, telegram_channel());
    t.delegate = delegate;
    t.parent_task_id = parent;
    t
}

#[test]
fn continue_top_level_task_reuses_persistent_delegate() {
    let agent_id = 77;
    let mut task = task_with_delegate(Some(agent_id), None);
    let agents = vec![make_agent(agent_id, "reused-agent", AgentKind::Persistent)];
    let hint = continue_task(&mut task, "继续上一轮", 10, &agents);
    assert_eq!(hint.strategy, DispatchStrategy::DirectDelegate);
    assert_eq!(hint.preferred_agent_name.as_deref(), Some("reused-agent"));
    assert!(task.delegate.is_none(), "delegate must be cleared before re-dispatch");
    assert_eq!(task.status, TaskStatus::Ready);
    assert_eq!(task.content, "继续上一轮");
}

#[test]
fn continue_top_level_task_with_missing_delegate_agent_falls_back_to_brain_llm() {
    let mut task = task_with_delegate(Some(77), None);
    let hint = continue_task(&mut task, "继续上一轮", 10, &[]);
    assert_eq!(hint.strategy, DispatchStrategy::BrainLlm);
}

#[test]
fn continue_subtask_always_uses_brain_llm() {
    let agent_id = 77;
    let mut task = task_with_delegate(Some(agent_id), Some(1));
    let agents = vec![make_agent(agent_id, "sub-agent", AgentKind::Persistent)];
    let hint = continue_task(&mut task, "继续上一轮", 10, &agents);
    assert_eq!(hint.strategy, DispatchStrategy::BrainLlm);
}

#[test]
fn continue_task_without_delegate_uses_brain_llm() {
    let mut task = task_with_delegate(None, None);
    let hint = continue_task(&mut task, "继续上一轮", 10, &[]);
    assert_eq!(hint.strategy, DispatchStrategy::BrainLlm);
}

// ---- permission inheritance ----

fn make_parent(default: ToolPermission, overrides: &[(&str, ToolPermission)]) -> AgentToolPermissions {
    let mut p = AgentToolPermissions {
        default_permission: default,
        default_permission_explicit: true,
        ..Default::default()
    };
    for (tool, perm) in overrides {
        p.overrides.insert(tool.to_string(), *perm);
    }
    p
}

fn registry_with(name: &str, default: ToolPermission) -> SpaceToolRegistry {
    let mut r = SpaceToolRegistry::new();
    r.register(ToolDefinition {
        name: name.to_string(),
        description: "test".to_string(),
        default_permission: default,
        required_tag: None,
    });
    r
}

#[test]
fn child_inherits_confirm_from_parent_confirm() {
    let parent = make_parent(ToolPermission::Deny, &[("shell_exec", ToolPermission::Confirm)]);
    let registry = registry_with("shell_exec", ToolPermission::Allow);
    let perms = inherit_permissions(&parent, &registry, &vec!["shell_exec".to_string()]);
    assert_eq!(perms.len(), 1);
    assert_eq!(perms[0].0, "shell_exec");
    assert_eq!(perms[0].1, ToolPermission::Confirm);
}

#[test]
fn child_inherits_allow_from_parent_allow() {
    let parent = make_parent(ToolPermission::Deny, &[("shell_exec", ToolPermission::Allow)]);
    let registry = registry_with("shell_exec", ToolPermission::Confirm);
    let perms = inherit_permissions(&parent, &registry, &vec!["shell_exec".to_string()]);
    assert_eq!(perms.len(), 1);
    assert_eq!(perms[0].1, ToolPermission::Allow);
}

#[test]
fn child_excludes_denied_tool() {
    let parent = make_parent(ToolPermission::Deny, &[("shell_exec", ToolPermission::Deny)]);
    let registry = registry_with("shell_exec", ToolPermission::Allow);
    let perms = inherit_permissions(&parent, &registry, &vec!["shell_exec".to_string()]);
    assert!(perms.is_empty());
}

// ---- tool-calling loop ----

fn calling_state(task_id: u128, work_item_id: Option<u128>) -> ToolCallingState {
    ToolCallingState {
        task_id,
        agent_id: 1,
        pending_tool_call_ids: vec![],
        iteration: 1,
        max_iterations: 10,
        conversation: vec![],
        tools: vec![],
        work_item_id,
    }
}

#[test]
fn find_calling_state_strict_matches_work_item_id() {
    let states = vec![calling_state(1, Some(10)), calling_state(1, Some(20))];
    let found = find_calling_state(&states, 1, Some(20)).expect("matching work item");
    assert_eq!(states[found].work_item_id, Some(20));
    let found_collector = find_calling_state(&states, 1, Some(10)).expect("collector");
    assert_eq!(states[found_collector].work_item_id, Some(10));
    assert!(find_calling_state(&states, 1, Some(30)).is_none());
}

#[test]
fn find_calling_state_task_level_excludes_work_item_states() {
    let states = vec![calling_state(1, Some(10)), calling_state(1, None)];
    let found = find_calling_state(&states, 1, None).expect("task-level state");
    assert_eq!(states[found].work_item_id, None);
}

#[test]
fn find_calling_state_task_level_returns_none_if_only_work_item_states_exist() {
    let states = vec![calling_state(1, Some(10))];
    assert!(find_calling_state(&states, 1, None).is_none());
}

fn call(id: &str, name: &str) -> LlmToolCall {
    LlmToolCall { id: id.to_string(), name: name.to_string(), arguments: "{}".to_string() }
}

fn response(calls: Vec<LlmToolCall>, work_item_id: Option<u128>) -> ToolCallsResponse {
    ToolCallsResponse {
        agent_id: 2,
        work_item_id,
        conversation: None,
        system_prompt: Some("be brief".to_string()),
        prompt: "do it".to_string(),
        tools: vec![],
        calls,
        reasoning_content: None,
    }
}

fn running_task(id: u128) -> Task {
    let mut t = base_task(id, None);
    t.status = TaskStatus::Running;
    t
}

#[test]
fn first_tool_calls_start_a_loop() {
    let mut tasks = vec![running_task(1)];
    match on_tool_calls(&mut tasks, 1, None, response(vec![call("c1", "shell_exec")], None), 5, 3) {
        CallingOutcome::Started { state: s, requests } => {
            assert_eq!(requests.len(), 1);
            assert_eq!(requests[0].call.tool_call_id, "c1");
            assert_eq!(requests[0].call.tool_name, "shell_exec");
            assert_eq!(requests[0].call.agent_id, 2);
            assert!(matches!(&requests[0].tool_input, harness::json::JsonValue::Object(f) if f.is_empty()));
            assert_eq!(s.iteration, 1);
            assert_eq!(s.max_iterations, 3);
            assert_eq!(s.pending_tool_call_ids, vec!["c1".to_string()]);
            assert_eq!(s.conversation.len(), 3);
            assert!(matches!(s.conversation[0], ConversationMessage::System { .. }));
        }
        other => panic!("unexpected {:?}", other),
    }
    assert_eq!(tasks[0].status, TaskStatus::Waiting(WaitingReason::ToolExecution));
    assert_eq!(tasks[0].updated_at, 5);
}

#[test]
fn each_call_goes_out_with_its_arguments_read_as_json() {
    let mut tasks = vec![running_task(1)];
    let calls = vec![
        LlmToolCall { id: "a".to_string(), name: "shell_exec".to_string(), arguments: "{\"cmd\": \"echo ok\", \"n\": 3}".to_string() },
        LlmToolCall { id: "b".to_string(), name: "shell_read".to_string(), arguments: "not json".to_string() },
    ];
    let mut state = calling_state(1, None);
    state.max_iterations = 5;
    match on_tool_calls(&mut tasks, 1, Some(state), response(calls, None), 5, 3) {
        CallingOutcome::Continued { state, requests } => {
            assert_eq!(state.iteration, 2);
            assert_eq!(requests.len(), 2);
            assert_eq!(requests[0].call.tool_call_id, "a");
            assert_eq!(requests[0].call.task_id, 1);
            assert_eq!(requests[0].pending_confirmation_id, None);
            match &requests[0].tool_input {
                harness::json::JsonValue::Object(f) => {
                    assert_eq!(f.len(), 2);
                    assert_eq!(f[0].0, "cmd");
                    assert!(matches!(&f[0].1, harness::json::JsonValue::Str(t) if t == "echo ok"));
                    assert_eq!(f[1].0, "n");
                    assert!(matches!(&f[1].1, harness::json::JsonValue::Number(n) if n.as_u64 == Some(3)));
                }
                other => panic!("unexpected {:?}", other),
            }
            assert_eq!(requests[1].call.tool_name, "shell_read");
            assert!(matches!(requests[1].tool_input, harness::json::JsonValue::Null));
        }
        other => panic!("unexpected {:?}", other),
    }
}

#[test]
fn budget_exhaustion_answers_with_notes_then_hard_limit_fails() {
    let mut tasks = vec![running_task(1)];
    let mut state = calling_state(1, None);
    state.iteration = 3;
    state.max_iterations = 3;
    match on_tool_calls(&mut tasks, 1, Some(state), response(vec![call("c9", "shell_exec")], None), 5, 3) {
        CallingOutcome::BudgetExhausted { state, results } => {
            assert_eq!(state.iteration, 4);
            assert_eq!(results.len(), 1);
            assert_eq!(results[0].tool_call_id, "c9");
            assert_eq!(results[0].status, "tool_budget_exhausted");
            assert!(results[0].output.starts_with("[TOOL_BUDGET_EXHAUSTED]"));
            assert!(results[0].output.contains("(3/3)"));
        }
        other => panic!("unexpected {:?}", other),
    }
    let mut far = calling_state(1, None);
    far.iteration = 6;
    far.max_iterations = 3;
    assert!(matches!(
        on_tool_calls(&mut tasks, 1, Some(far), response(vec![call("c10", "x")], None), 6, 3),
        CallingOutcome::HardLimit
    ));
    assert_eq!(tasks[0].status, TaskStatus::Failed(FailureReason::AgentError));
    assert_eq!(
        tasks[0].last_error.as_deref(),
        Some("tool calling exceeded absolute hard limit (7/3)")
    );
    let mut item = calling_state(1, Some(44));
    item.iteration = 3;
    item.max_iterations = 3;
    assert!(matches!(
        on_tool_calls(&mut tasks, 1, Some(item), response(vec![call("c11", "x")], Some(44)), 7, 3),
        CallingOutcome::WorkItemLimit
    ));
}

#[test]
fn round_waits_for_every_call_then_follows_up() {
    let mut tasks = vec![running_task(1)];
    tasks[0].status = TaskStatus::Waiting(WaitingReason::ToolExecution);
    let mut state = calling_state(1, None);
    state.pending_tool_call_ids = vec!["a".to_string(), "b".to_string()];
    let partial = vec![RoundResult { tool_call_id: Some("a".to_string()), output: Ok("1".to_string()) }];
    assert!(matches!(collect_round(&mut state, &partial, &mut tasks, 9), RoundDecision::Waiting));
    assert_eq!(state.pending_tool_call_ids.len(), 2);

    let all = vec![
        RoundResult { tool_call_id: Some("zz".to_string()), output: Ok("other".to_string()) },
        RoundResult {
            tool_call_id: Some("b".to_string()),
            output: Err(ToolError::NotFound("x".to_string())),
        },
        RoundResult { tool_call_id: Some("a".to_string()), output: Ok("1".to_string()) },
        RoundResult { tool_call_id: Some("a".to_string()), output: Ok("dup".to_string()) },
    ];
    match collect_round(&mut state, &all, &mut tasks, 9) {
        RoundDecision::FollowUp { consumed } => assert_eq!(consumed, vec![1, 2]),
        other => panic!("unexpected {:?}", other),
    }
    assert!(state.pending_tool_call_ids.is_empty());
    assert_eq!(state.conversation.len(), 2);
    match &state.conversation[0] {
        ConversationMessage::Tool { tool_call_id, content } => {
            assert_eq!(tool_call_id, "b");
            assert_eq!(content, "error: not found: x");
        }
        other => panic!("unexpected {:?}", other),
    }
    assert_eq!(tasks[0].status, TaskStatus::Waiting(WaitingReason::Agent));
}

// ---- chat rounds and other handler decisions ----

#[test]
fn chat_handle_checks() {
    let mut child = base_task(2, Some(telegram_channel()));
    child.parent_task_id = Some(1);
    child.status = TaskStatus::Waiting(WaitingReason::ChatAgent);
    let mut stranger = base_task(3, None);
    stranger.parent_task_id = Some(9);
    let busy = {
        let mut t = base_task(4, None);
        t.parent_task_id = Some(1);
        t.status = TaskStatus::Running;
        t
    };
    let tasks = vec![base_task(1, None), child, stranger, busy];
    assert_eq!(validate_chat_handle(&tasks, 1, 2).unwrap(), 1);
    match validate_chat_handle(&tasks, 1, 42) {
        Err(ToolError::NotFound(m)) => assert_eq!(m, "chat handle 00000000-0000-0000-0000-00000000002a"),
        other => panic!("unexpected {:?}", other),
    }
    assert!(matches!(validate_chat_handle(&tasks, 1, 3), Err(ToolError::PermissionDenied(_))));
    assert!(matches!(validate_chat_handle(&tasks, 1, 4), Err(ToolError::InvalidInput(_))));
}

#[test]
fn chat_agent_by_name_then_by_tags() {
    let mut critic = make_agent(1, "critic", AgentKind::Persistent);
    critic.tags = vec!["critique".to_string(), "docs".to_string()];
    let scoped = make_agent(2, "critic", AgentKind::TaskScoped);
    let agents = vec![scoped, critic];
    assert_eq!(find_chat_agent(&agents, Some("critic"), &vec![]), Some(1));
    assert_eq!(find_chat_agent(&agents, Some("nobody"), &vec!["docs".to_string()]), Some(1));
    assert_eq!(find_chat_agent(&agents, None, &vec!["docs".to_string(), "x".to_string()]), None);
    assert_eq!(find_chat_agent(&agents, Some("nobody"), &vec![]), None);
    assert_eq!(chat_opening_message(Some("ctx"), "msg"), "[System context]\nctx\n\nmsg");
    assert_eq!(chat_opening_message(None, "msg"), "msg");
}

#[test]
fn origin_and_experience_destinations() {
    let mut child = base_task(2, Some(telegram_channel()));
    child.parent_task_id = Some(1);
    let tasks = vec![base_task(1, None), child];
    let inherited = inherited_origin_channel(&tasks, 2).unwrap();
    assert_eq!(inherited.frontend, FrontendKind::Telegram);
    let fallback = inherited_origin_channel(&tasks, 99).unwrap();
    assert_eq!(fallback.frontend, FrontendKind::Tui);
    assert_eq!(fallback.user_id, "default");
    assert!(inherited_origin_channel(&tasks, 1).is_none());
    assert_eq!(
        experience_destination(&tasks, 2, None, 7),
        ExperienceDestination::Parent { parent_task_id: 1, owner_agent_id: 7 }
    );
    assert_eq!(
        experience_destination(&tasks, 2, Some(8), 7),
        ExperienceDestination::Parent { parent_task_id: 1, owner_agent_id: 8 }
    );
    assert_eq!(experience_destination(&tasks, 1, Some(8), 7), ExperienceDestination::Root);
}

#[test]
fn ask_user_action_sets_task_to_waiting_ask_user() {
    let channel = ChannelId { frontend: FrontendKind::Tui, user_id: "test".to_string(), thread_id: None };
    let mut tasks = vec![base_task(1, Some(channel))];
    let prompt =
        ask_user_step(&mut tasks, 1, "what is your name?".to_string(), "call-1".to_string(), 5).unwrap();
    assert_eq!(tasks[0].status, TaskStatus::Waiting(WaitingReason::AskUser));
    assert_eq!(prompt.tool_call_id, "call-1");
    assert_eq!(prompt.agent_id, 5);
}

#[test]
fn ask_user_action_pushes_text_event_to_output_channel() {
    let channel = ChannelId { frontend: FrontendKind::Tui, user_id: "alice".to_string(), thread_id: None };
    let mut tasks = vec![base_task(1, Some(channel))];
    let prompt =
        ask_user_step(&mut tasks, 1, "what is your name?".to_string(), "call-1".to_string(), 5).unwrap();
    assert_eq!(prompt.question, "what is your name?");
    assert_eq!(prompt.channel.frontend, FrontendKind::Tui);
    assert_eq!(prompt.channel.user_id, "alice");
    assert_eq!(tasks[0].status, TaskStatus::Waiting(WaitingReason::AskUser));
}

#[test]
fn ask_user_action_without_output_channel_returns_error() {
    let mut tasks = vec![base_task(1, None)];
    match ask_user_step(&mut tasks, 1, "q".to_string(), "call-1".to_string(), 5) {
        Err(ToolError::InvalidInput(m)) => assert_eq!(m, "ask_user requires task with output_channel"),
        other => panic!("unexpected {:?}", other),
    }
    assert_eq!(tasks[0].status, TaskStatus::Pending);
}

#[test]
fn create_tasks_subtask_inherits_parent_origin_channel() {
    let parent = base_task(1, Some(telegram_channel()));
    let tasks = vec![parent];
    let origin = inherited_origin_channel(&tasks, 1);
    let defs = vec![SubTaskDefinition {
        name: "child".to_string(),
        content: "do".to_string(),
        tools: vec![],
        depends_on: vec![],
        model: None,
    }];
    let plan = plan_sub_task_batch(&defs, 3, 1, &origin, 0);
    assert_eq!(plan.children.len(), 1);
    let child = &plan.children[0].task;
    assert_eq!(child.parent_task_id, Some(1));
    let ch = child.origin_channel.as_ref().expect("inherited");
    assert_eq!(ch.frontend, FrontendKind::Telegram);
    assert_eq!(ch.user_id, "tg-user");
}

#[test]
fn batch_plan_records_dependents_and_summary() {
    let def = |name: &str, deps: &[&str]| SubTaskDefinition {
        name: name.to_string(),
        content: format!("{} work", name),
        tools: vec!["shell_exec".to_string()],
        depends_on: deps.iter().map(|d| d.to_string()).collect(),
        model: None,
    };
    let defs = vec![def("a", &[]), def("b", &["a"]), def("c", &["a", "b"])];
    let plan = plan_sub_task_batch(&defs, 3, 1, &None, 0);
    assert_eq!(plan.children[0].config.depended_by, vec!["b".to_string(), "c".to_string()]);
    assert_eq!(plan.children[1].config.depended_by, vec!["c".to_string()]);
    assert!(plan.children[2].config.depended_by.is_empty());
    assert_eq!(plan.children[2].task.status, TaskStatus::Pending);
    let id = uuid::Uuid::from_u128(plan.batch_id).to_string();
    assert_eq!(plan.summary, format!("created 3 sub-tasks (batch {}): a, b, c", id));
}

// ---- dispatch, confirmation and approval ----

fn confirm_tool() -> ToolDefinition {
    ToolDefinition {
        name: "shell_exec".to_string(),
        description: "test tool".to_string(),
        default_permission: ToolPermission::Confirm,
        required_tag: None,
    }
}

#[test]
fn a_confirm_call_queues_behind_an_open_confirmation() {
    let tool = confirm_tool();
    let agent = make_agent(1, "a", AgentKind::Persistent);
    assert_eq!(
        decide_tool_dispatch(Some(&tool), Some(&agent), false, None),
        DispatchDecision::AwaitUserConfirmation
    );
    assert_eq!(
        decide_tool_dispatch(Some(&tool), Some(&agent), true, None),
        DispatchDecision::QueueBehindPending
    );
}

#[test]
fn dispatch_refusals_name_the_reason() {
    match dispatch_refusal(DispatchDecision::MissingTag, "t", 1, "profile") {
        Some(ToolError::PermissionDenied(m)) => assert_eq!(m, "tool 't' requires tag 'profile'"),
        other => panic!("unexpected {:?}", other),
    }
    match dispatch_refusal(DispatchDecision::AgentNotFound, "t", 42, "") {
        Some(ToolError::NotFound(m)) => assert_eq!(m, "agent 00000000-0000-0000-0000-00000000002a"),
        other => panic!("unexpected {:?}", other),
    }
    assert!(dispatch_refusal(DispatchDecision::Execute, "t", 1, "").is_none());
}

#[test]
fn parent_with_permission_approves() {
    let mut parent_task = base_task(1, None);
    parent_task.delegate = Some(10);
    let mut child_task = base_task(2, None);
    child_task.parent_task_id = Some(1);
    let tasks = vec![parent_task, child_task];
    let mut parent_agent = make_agent(10, "p", AgentKind::Persistent);
    parent_agent.tool_permissions.overrides.insert("shell_exec".to_string(), ToolPermission::Allow);
    let agents = vec![parent_agent];
    assert_eq!(parent_approver(&tasks, &agents, 2, "shell_exec"), Some(10));
    assert_eq!(parent_approver(&tasks, &agents, 2, "other"), None);
    assert_eq!(parent_approver(&tasks, &agents, 1, "shell_exec"), None);
}

fn pending_task() -> Vec<Task> {
    let mut t = base_task(1, None);
    t.pending_confirmation_id = Some(5);
    t.status = TaskStatus::Waiting(WaitingReason::User);
    vec![t]
}

#[test]
fn confirmation_denied_clears_task_pending_id() {
    let outcome = resolve_confirmation(&default_confirmation_options(), "deny");
    assert_eq!(outcome, ConfirmationOutcome::Denied);
    let plan = confirmation_plan("shell_exec", outcome, Some(ToolActionKind::Sync));
    match &plan {
        ConfirmationPlan::Cancel { reason, error: ToolError::PermissionDenied(m) } => {
            assert_eq!(reason, "user denied tool execution");
            assert_eq!(m, "user denied");
        }
        other => panic!("unexpected {:?}", other),
    }
    let mut tasks = pending_task();
    settle_confirmation(&mut tasks, 1, &plan, &[]);
    assert!(tasks[0].pending_confirmation_id.is_none());
}

#[test]
fn confirmation_approved_clears_task_pending_id() {
    let outcome = resolve_confirmation(&default_confirmation_options(), "allow_once");
    assert_eq!(outcome, ConfirmationOutcome::Approved(GrantMode::Once));
    let plan = confirmation_plan("shell_exec", outcome, Some(ToolActionKind::Sync));
    assert!(matches!(plan, ConfirmationPlan::RunNow));
    let mut tasks = pending_task();
    settle_confirmation(&mut tasks, 1, &plan, &[]);
    assert!(tasks[0].pending_confirmation_id.is_none());
}

#[test]
fn async_confirmation_restores_task_to_waiting_tool_execution() {
    let outcome = resolve_confirmation(&default_confirmation_options(), "allow_always");
    let plan = confirmation_plan("shell_exec", outcome, Some(ToolActionKind::Async));
    assert!(matches!(plan, ConfirmationPlan::DispatchAsync { confirmed_once: false }));
    let mut tasks = pending_task();
    settle_confirmation(&mut tasks, 1, &plan, &[]);
    assert_eq!(tasks[0].status, TaskStatus::Waiting(WaitingReason::ToolExecution));
    assert!(tasks[0].pending_confirmation_id.is_none());
}

#[test]
fn unknown_option_and_missing_executor_fail() {
    let outcome = resolve_confirmation(&default_confirmation_options(), "maybe");
    assert_eq!(outcome, ConfirmationOutcome::Unknown);
    match confirmation_plan("shell_exec", outcome, None) {
        ConfirmationPlan::Cancel { reason, error: ToolError::PermissionDenied(m) } => {
            assert_eq!(reason, "unknown confirmation option");
            assert_eq!(m, "unknown confirmation option");
        }
        other => panic!("unexpected {:?}", other),
    }
    match confirmation_plan("shell_exec", ConfirmationOutcome::Approved(GrantMode::Once), None) {
        ConfirmationPlan::Fail(ToolError::NotFound(m)) => assert_eq!(m, "executor for shell_exec"),
        other => panic!("unexpected {:?}", other),
    }
    assert!(matches!(
        confirmation_plan("profile_generation", ConfirmationOutcome::Denied, None),
        ConfirmationPlan::HandledElsewhere
    ));
}

fn approval(decision: ApprovalDecision, reasoning: &str) -> ApprovalResult {
    ApprovalResult {
        request_id: 5,
        source_task_id: 1,
        approval_task_id: 6,
        decision,
        reasoning: reasoning.to_string(),
        grant_mode: GrantMode::Once,
    }
}

#[test]
fn approval_rejected_clears_task_pending_id() {
    let plan = approval_plan(&approval(ApprovalDecision::Rejected, "no"), "shell_exec", None);
    match &plan {
        ConfirmationPlan::Cancel { reason, error: ToolError::PermissionDenied(m) } => {
            assert_eq!(reason, "parent agent rejected: no");
            assert_eq!(m, "parent agent rejected: no");
        }
        other => panic!("unexpected {:?}", other),
    }
    let mut tasks = pending_task();
    settle_confirmation(&mut tasks, 1, &plan, &[]);
    assert!(tasks[0].pending_confirmation_id.is_none());
}

#[test]
fn approval_approved_clears_task_pending_id() {
    let plan = approval_plan(&approval(ApprovalDecision::Approved, "yes"), "shell_exec", None);
    assert!(matches!(plan, ConfirmationPlan::Fail(ToolError::NotFound(_))));
    let mut tasks = pending_task();
    settle_confirmation(&mut tasks, 1, &plan, &[]);
    assert!(tasks[0].pending_confirmation_id.is_none());
}

#[test]
fn async_gate_leaves_confirmations_to_the_sync_path() {
    let registry = registry_with("shell_exec", ToolPermission::Confirm);
    let agent = make_agent(1, "a", AgentKind::Persistent);
    assert!(!async_dispatch_gate(false, Some(ToolActionKind::Async), false, Some(&registry), Some(&agent), "shell_exec"));
    assert!(async_dispatch_gate(false, Some(ToolActionKind::Async), true, Some(&registry), Some(&agent), "shell_exec"));
    assert!(!async_dispatch_gate(true, Some(ToolActionKind::Async), true, None, None, "shell_exec"));
    assert!(!async_dispatch_gate(false, Some(ToolActionKind::Sync), true, None, None, "shell_exec"));
    assert!(!async_dispatch_gate(false, Some(ToolActionKind::Async), false, Some(&registry), Some(&agent), "unknown"));
}

#[test]
fn tool_error_answer_carries_the_error() {
    let request = ToolCallRequest {
        task_id: 1,
        agent_id: 2,
        tool_name: "shell_exec".to_string(),
        tool_call_id: "c1".to_string(),
    };
    let out = spawn_tool_error(&request, ToolError::Timeout("slow".to_string()));
    match &out.execution_error {
        Some(ExecutionError::Unknown(t)) => assert_eq!(t, "timeout: slow"),
        other => panic!("unexpected {:?}", other),
    }
    assert_eq!(out.tool_name, "shell_exec");
    assert_eq!(out.tool_call_id, "c1");
    assert!(!out.processed);
    assert!(matches!(out.tool_output, Err(ToolError::Timeout(_))));
}

#[test]
fn a_denied_call_is_answered_as_cancelled() {
    let outcome = resolve_confirmation(&default_confirmation_options(), "deny");
    let plan = confirmation_plan("shell_exec", outcome, Some(ToolActionKind::Sync));
    let request = ToolCallRequest {
        task_id: 1,
        agent_id: 2,
        tool_name: "shell_exec".to_string(),
        tool_call_id: "c1".to_string(),
    };
    let out = match plan {
        ConfirmationPlan::Cancel { reason, error } => spawn_cancelled(&request, reason, error),
        other => panic!("unexpected {:?}", other),
    };
    match &out.execution_error {
        Some(ExecutionError::UserCancelled(t)) => assert_eq!(t, "user denied tool execution"),
        other => panic!("unexpected {:?}", other),
    }
    assert!(matches!(&out.tool_output, Err(ToolError::PermissionDenied(m)) if m == "user denied"));
    assert_eq!(out.tool_call_id, "c1");
    assert!(!out.processed);
}
