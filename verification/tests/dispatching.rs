use harness::actions::{action_step, builtin_executor, retired_direct_error, ActionStep, BuiltinExecutor};
use harness::tools::{ToolAction, ToolActionKind};
use harness::confirmations::{dispatch_pass, DispatchStep, ToolExecutionRequest};
use harness::dispatch::DispatchDecision;
use harness::domain::{FailureReason, Task, TaskStatus, ToolError, WaitingReason};
use harness::json::JsonValue;
use harness::orchestrator::{
    spawn_wait_result_message, wait_for_tasks_step, TaskWaitResult, ToolCallRequest,
    WaitForTasksStep, WaitingForTasksInfo,
};
use harness::permissions::{
    builtin_tool_definitions, Agent, AgentKind, AgentToolPermissions, SpaceToolRegistry,
    ToolDefinition, ToolOverrides, ToolPermission,
};
use harness::scheduling::UtcInstant;
use harness::skills::{SkillId, SkillLoader};

fn task(id: u128, parent: Option<u128>, delegate: Option<u128>) -> Task {
    Task {
        id,
        content: "test".to_string(),
        creator: 7,
        delegate,
        status: TaskStatus::Waiting(WaitingReason::ToolExecution),
        pending_confirmation_id: None,
        result_summary: String::new(),
        last_error: None,
        parent_task_id: parent,
        origin_channel: None,
        output_channel: None,
        updated_at: 0,
    }
}

fn agent(id: u128, default_permission: ToolPermission) -> Agent {
    Agent {
        id,
        name: "test-agent".to_string(),
        model: "test".to_string(),
        tags: vec![],
        description: "test".to_string(),
        kind: AgentKind::TaskScoped,
        parent_id: None,
        bound_task_id: None,
        tool_permissions: AgentToolPermissions {
            default_permission,
            default_permission_explicit: true,
            overrides: ToolOverrides::new(),
        },
        system_prompt: None,
    }
}

fn shell_exec_registry() -> SpaceToolRegistry {
    let mut registry = SpaceToolRegistry::new();
    registry.register(ToolDefinition {
        name: "shell_exec".to_string(),
        description: "test tool".to_string(),
        default_permission: ToolPermission::Confirm,
        required_tag: None,
    });
    registry
}

fn request(task_id: u128, agent_id: u128, tool: &str) -> ToolExecutionRequest {
    ToolExecutionRequest {
        call: ToolCallRequest {
            task_id,
            agent_id,
            tool_name: tool.to_string(),
            tool_call_id: String::new(),
        },
        tool_input: JsonValue::Null,
        work_item_id: None,
        pending_confirmation_id: None,
    }
}

#[test]
fn sequential_confirmation_only_one_pending_at_a_time() {
    let registry = shell_exec_registry();
    let agents = vec![agent(2, ToolPermission::Confirm)];
    let mut tasks = vec![task(1, None, Some(2))];
    let mut requests = vec![request(1, 2, "shell_exec"), request(1, 2, "shell_exec"), request(1, 2, "shell_exec")];
    let steps = dispatch_pass(&mut tasks, &mut requests, &registry, &agents);

    let asked: Vec<u128> = steps
        .iter()
        .filter_map(|s| match s {
            DispatchStep::AskUser(m) => Some(m.request_id),
            _ => None,
        })
        .collect();
    assert_eq!(asked.len(), 1, "only one confirmation may be open at a time");
    let id = asked[0];
    assert_eq!(tasks[0].pending_confirmation_id, Some(id));
    assert_eq!(tasks[0].status, TaskStatus::Waiting(WaitingReason::User));
    assert_eq!(requests.len(), 3);
    assert_eq!(requests.iter().filter(|r| r.pending_confirmation_id == Some(id)).count(), 1);
    assert_eq!(requests.iter().filter(|r| r.pending_confirmation_id.is_none()).count(), 2);
    match &steps[0] {
        DispatchStep::AskUser(m) => {
            assert_eq!(m.task_id, 1);
            assert_eq!(m.agent_id, 2);
            assert_eq!(m.tool_name, "shell_exec");
            let ids: Vec<&str> = m.options.iter().map(|o| o.id.as_str()).collect();
            assert_eq!(ids, vec!["allow_once", "allow_always", "deny"]);
        }
        other => panic!("unexpected {:?}", other),
    }
    assert!(matches!(steps[1], DispatchStep::Decided(DispatchDecision::QueueBehindPending)));
    assert!(matches!(steps[2], DispatchStep::Decided(DispatchDecision::QueueBehindPending)));
}

#[test]
fn a_task_that_waits_on_a_confirmation_gets_no_second_one() {
    let registry = shell_exec_registry();
    let agents = vec![agent(2, ToolPermission::Confirm)];
    let mut tasks = vec![task(1, None, Some(2))];
    tasks[0].pending_confirmation_id = Some(99);
    let mut requests = vec![request(1, 2, "shell_exec"), request(1, 2, "shell_exec")];
    requests[0].pending_confirmation_id = Some(99);
    let steps = dispatch_pass(&mut tasks, &mut requests, &registry, &agents);
    assert!(matches!(steps[0], DispatchStep::AlreadyWaiting));
    assert!(matches!(steps[1], DispatchStep::Decided(DispatchDecision::QueueBehindPending)));
    assert_eq!(tasks[0].pending_confirmation_id, Some(99));
    assert_eq!(requests[1].pending_confirmation_id, None);
}

#[test]
fn calls_are_run_refused_or_sent_to_the_approving_parent() {
    let mut registry = shell_exec_registry();
    registry.register(ToolDefinition {
        name: "shell_read".to_string(),
        description: String::new(),
        default_permission: ToolPermission::Allow,
        required_tag: None,
    });
    // Task 1 (delegated to agent 2) is the parent of task 3, run by agent 4.
    let agents = vec![agent(2, ToolPermission::Allow), agent(4, ToolPermission::Confirm), agent(5, ToolPermission::Deny)];
    let mut tasks = vec![task(1, None, Some(2)), task(3, Some(1), Some(4)), task(6, None, Some(5))];
    let mut requests = vec![
        request(3, 4, "shell_exec"),
        request(6, 5, "shell_read"),
        request(6, 5, "missing_tool"),
        request(6, 8, "shell_read"),
    ];
    let steps = dispatch_pass(&mut tasks, &mut requests, &registry, &agents);
    match &steps[0] {
        DispatchStep::AskParent(a) => {
            assert_eq!(a.parent_agent_id, 2);
            assert_eq!(a.child_agent_id, 4);
            assert_eq!(a.source_task_id, 3);
            assert_eq!(a.tool_name, "shell_exec");
            assert_eq!(tasks[1].pending_confirmation_id, Some(a.request_id));
            assert_eq!(requests[0].pending_confirmation_id, Some(a.request_id));
        }
        other => panic!("unexpected {:?}", other),
    }
    assert_eq!(tasks[1].status, TaskStatus::Waiting(WaitingReason::Approval));
    assert!(matches!(steps[1], DispatchStep::Decided(DispatchDecision::Denied)));
    assert!(matches!(steps[2], DispatchStep::Decided(DispatchDecision::ToolNotFound)));
    assert!(matches!(steps[3], DispatchStep::Decided(DispatchDecision::AgentNotFound)));
    assert_eq!(tasks[0].pending_confirmation_id, None);
    assert_eq!(tasks[2].pending_confirmation_id, None);
    assert_eq!(tasks[2].status, TaskStatus::Waiting(WaitingReason::ToolExecution));
}

fn wait_request(task_id: u128) -> ToolCallRequest {
    ToolCallRequest {
        task_id,
        agent_id: 2,
        tool_name: "wait_tasks".to_string(),
        tool_call_id: "call-9".to_string(),
    }
}

#[test]
fn waiting_on_children_records_targets_and_deadline() {
    let tasks = vec![task(1, None, Some(2)), task(3, Some(1), None), task(4, Some(1), None)];
    let now = UtcInstant { secs: 1_700_000_000, nanos: 250 };
    match wait_for_tasks_step(&wait_request(1), &tasks, vec![4, 3], 600, now) {
        WaitForTasksStep::Wait(info) => {
            assert_eq!(info.target_task_ids, vec![4, 3]);
            assert_eq!(info.timeout_at, UtcInstant { secs: 1_700_000_600, nanos: 250 });
            assert_eq!(info.tool_call_id, "call-9");
            assert_eq!(info.agent_id, 2);
        }
        other => panic!("unexpected {:?}", other),
    }
}

#[test]
fn waiting_on_a_foreign_task_is_refused() {
    let tasks = vec![task(1, None, Some(2)), task(3, None, None)];
    let now = UtcInstant { secs: 10, nanos: 0 };
    match wait_for_tasks_step(&wait_request(1), &tasks, vec![3], 5, now) {
        WaitForTasksStep::Refuse(out) => {
            assert_eq!(out.tool_call_id, "call-9");
            assert_eq!(out.tool_name, "wait_tasks");
            match out.tool_output {
                Err(ToolError::PermissionDenied(m)) => {
                    assert_eq!(m, "task 00000000-0000-0000-0000-000000000003 is not a child of current task")
                }
                other => panic!("unexpected {:?}", other),
            }
        }
        other => panic!("unexpected {:?}", other),
    }
    match wait_for_tasks_step(&wait_request(8), &tasks, vec![3], 5, now) {
        WaitForTasksStep::Refuse(out) => match out.tool_output {
            Err(ToolError::NotFound(m)) => assert_eq!(m, "current task 00000000-0000-0000-0000-000000000008"),
            other => panic!("unexpected {:?}", other),
        },
        other => panic!("unexpected {:?}", other),
    }
}

fn field<'a>(v: &'a JsonValue, key: &str) -> &'a JsonValue {
    match v {
        JsonValue::Object(fs) => &fs.iter().find(|(k, _)| k == key).expect("field").1,
        other => panic!("no object: {:?}", other),
    }
}

fn text(v: &JsonValue) -> &str {
    match v {
        JsonValue::Str(s) => s.as_str(),
        other => panic!("no string: {:?}", other),
    }
}

#[test]
fn the_end_of_a_wait_reports_each_child() {
    let info = WaitingForTasksInfo {
        target_task_ids: vec![3, 4],
        timeout_at: UtcInstant { secs: 0, nanos: 0 },
        tool_call_id: "call-9".to_string(),
        agent_id: 2,
    };
    let results = vec![
        TaskWaitResult {
            task_id: "t-3".to_string(),
            status: TaskStatus::Done,
            result: Some("built".to_string()),
            error: None,
        },
        TaskWaitResult {
            task_id: "t-4".to_string(),
            status: TaskStatus::Failed(FailureReason::Timeout),
            result: None,
            error: Some("too slow".to_string()),
        },
    ];
    let out = spawn_wait_result_message(1, &info, &results, true);
    assert_eq!(out.task_id, 1);
    assert_eq!(out.agent_id, 2);
    assert_eq!(out.tool_name, "wait_tasks");
    assert_eq!(out.tool_call_id, "call-9");
    assert_eq!(out.content, "wait_tasks completed");
    assert!(!out.processed);
    let v = out.tool_output.expect("output");
    assert!(matches!(field(&v, "timed_out"), JsonValue::Bool(true)));
    let items = match field(&v, "results") {
        JsonValue::Array(items) => items,
        other => panic!("unexpected {:?}", other),
    };
    assert_eq!(items.len(), 2);
    assert_eq!(text(field(&items[0], "task_id")), "t-3");
    assert_eq!(text(field(&items[0], "status")), "Done");
    assert_eq!(text(field(&items[0], "result")), "built");
    assert!(matches!(field(&items[0], "error"), JsonValue::Null));
    assert_eq!(text(field(field(&items[1], "status"), "Failed")), "Timeout");
    assert_eq!(text(field(&items[1], "error")), "too slow");
    assert!(matches!(field(&items[1], "result"), JsonValue::Null));
}

#[test]
fn builtin_tools_are_registered_with_their_permissions() {
    let channel = ToolDefinition {
        name: "channel_send".to_string(),
        description: "send".to_string(),
        default_permission: ToolPermission::Allow,
        required_tag: None,
    };
    let defs = builtin_tool_definitions(channel);
    assert_eq!(defs.len(), 18);
    let mut names: Vec<&str> = defs.iter().map(|d| d.name.as_str()).collect();
    assert_eq!(names[11], "channel_send");
    let permission = |n: &str| defs.iter().find(|d| d.name == n).unwrap().default_permission;
    for n in ["shell_exec", "shell_start", "shell_input", "shell_stop"] {
        assert_eq!(permission(n), ToolPermission::Confirm);
    }
    for n in ["shell_read", "shell_list", "create_tasks", "wait_tasks", "schedule_task"] {
        assert_eq!(permission(n), ToolPermission::Allow);
    }
    let tag = |n: &str| defs.iter().find(|d| d.name == n).unwrap().required_tag.clone();
    assert_eq!(tag("submit_profile_update"), Some("profile".to_string()));
    assert_eq!(tag("skip_profile_update"), Some("profile".to_string()));
    assert_eq!(tag("submit_skill_update"), Some("skill-updater".to_string()));
    assert_eq!(tag("shell_exec"), None);
    names.sort();
    names.dedup();
    assert_eq!(names.len(), 18);
}

#[test]
fn skill_directories_join_as_paths_do() {
    let id = SkillId { agent: "agent-a".to_string(), skill: "coding".to_string() };
    let trailing = SkillLoader { base_dir: "/data/agents/".to_string() };
    assert_eq!(trailing.skill_dir(&id), "/data/agents/agent-a/skills/coding");
    let absolute = SkillId { agent: "/elsewhere".to_string(), skill: "coding".to_string() };
    let loader = SkillLoader { base_dir: "/data/agents".to_string() };
    assert_eq!(loader.skill_dir(&absolute), "/elsewhere/skills/coding");
}

#[test]
fn every_builtin_tool_has_its_executor() {
    let channel = ToolDefinition {
        name: "channel_send".to_string(),
        description: "send".to_string(),
        default_permission: ToolPermission::Allow,
        required_tag: None,
    };
    for d in builtin_tool_definitions(channel) {
        assert!(builtin_executor(&d.name).is_some(), "no executor for {}", d.name);
    }
    assert_eq!(builtin_executor("channel_send"), Some(BuiltinExecutor::ChannelSend));
    assert_eq!(builtin_executor("shell.send_input"), Some(BuiltinExecutor::ShellSendInput));
    assert_eq!(builtin_executor("knowledge_search"), Some(BuiltinExecutor::KnowledgeSearch));
    assert_eq!(builtin_executor("no_such_tool"), None);
    assert_eq!(BuiltinExecutor::ShellExec.kind(), ToolActionKind::Async);
    assert_eq!(BuiltinExecutor::ScheduleTask.kind(), ToolActionKind::Async);
    assert_eq!(BuiltinExecutor::ShellStart.kind(), ToolActionKind::Sync);
}

#[test]
fn each_action_goes_to_its_step() {
    assert_eq!(action_step(&Err(ToolError::Timeout("x".to_string()))), ActionStep::Refuse);
    assert_eq!(action_step(&Ok(ToolAction::Direct(JsonValue::Null))), ActionStep::RetiredDirect);
    assert_eq!(
        action_step(&Ok(ToolAction::WaitForTasks { task_ids: vec![1], timeout_secs: 3 })),
        ActionStep::WaitForTasks
    );
    assert_eq!(action_step(&Ok(ToolAction::AskUser { question: "q".to_string() })), ActionStep::AskUser);
    assert_eq!(action_step(&Ok(ToolAction::ListSessions)), ActionStep::ListSessions);
    assert_eq!(action_step(&Ok(ToolAction::CreateBatch(vec![]))), ActionStep::CreateSubTasks);
    match retired_direct_error() {
        ToolError::InternalState(m) => assert!(m.starts_with("Direct action is retired")),
        other => panic!("unexpected {:?}", other),
    }
}
