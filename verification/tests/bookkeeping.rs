use harness::dispatch::{
    apply_grant, approval_dispatch_system, inflight_base, missing_executor_error, ApprovalDecision,
    ApprovalRequest, GrantMode,
};
use harness::domain::{FailureReason, Task, TaskStatus, ToolError, WaitingReason};
use harness::inflight::{
    cancel_monitor_system, ingest_tool_results_system, sweep_inflight_tool_calls, IngestAction,
    InFlightToolCall, WorkerPayloadKind,
};
use harness::memory::{split_into_groups, EntryMetadata, EntryRole, MemoryEntry, ToolCall};
use harness::orchestrator::{
    clear_task_pending_confirmation_id, collect_task_results, restore_task_after_tool,
    validate_task_ownership,
};
use harness::permissions::{
    plan_spawn, Agent, AgentKind, AgentSpawnRequest, AgentToolPermissions, SpaceToolRegistry,
    SpawnPlan, ToolDefinition, ToolPermission,
};

fn task(id: u128, status: TaskStatus, parent: Option<u128>) -> Task {
    Task {
        id,
        content: "t".to_string(),
        creator: 0,
        delegate: None,
        status,
        pending_confirmation_id: Some(9),
        result_summary: format!("summary {}", id),
        last_error: Some(format!("error {}", id)),
        parent_task_id: parent,
        origin_channel: None,
        output_channel: None,
        updated_at: 0,
    }
}

fn uuid(id: u128) -> String {
    uuid::Uuid::from_u128(id).to_string()
}

fn call(id: &str, task_id: u128, started_at: i64, timeout_secs: i64) -> InFlightToolCall {
    InFlightToolCall {
        tool_call_id: id.to_string(),
        tool_name: "shell_exec".to_string(),
        task_id,
        started_at,
        timeout_secs,
    }
}

#[test]
fn wait_results_report_each_task_by_status() {
    let tasks = vec![
        task(1, TaskStatus::Done, None),
        task(2, TaskStatus::Failed(FailureReason::Timeout), None),
        task(3, TaskStatus::Running, None),
    ];
    let out = collect_task_results(&[1, 2, 3, 4], &tasks);
    assert_eq!(out.len(), 4);
    assert_eq!(out[0].task_id, uuid(1));
    assert_eq!(out[0].status, TaskStatus::Done);
    assert_eq!(out[0].result.as_deref(), Some("summary 1"));
    assert_eq!(out[0].error, None);
    assert_eq!(out[1].result, None);
    assert_eq!(out[1].error.as_deref(), Some("error 2"));
    assert_eq!(out[2].result, None);
    assert_eq!(out[2].error, None);
    assert_eq!(out[3].status, TaskStatus::Pending);
    assert_eq!(out[3].task_id, uuid(4));
}

#[test]
fn ownership_checks_current_then_each_target() {
    let tasks = vec![
        task(1, TaskStatus::Running, None),
        task(2, TaskStatus::Running, Some(1)),
        task(3, TaskStatus::Running, Some(7)),
    ];
    assert!(validate_task_ownership(1, &[2], &tasks).is_ok());
    match validate_task_ownership(5, &[2], &tasks) {
        Err(ToolError::NotFound(m)) => assert_eq!(m, format!("current task {}", uuid(5))),
        other => panic!("unexpected {:?}", other),
    }
    match validate_task_ownership(1, &[2, 8, 3], &tasks) {
        Err(ToolError::NotFound(m)) => assert_eq!(m, format!("task {}", uuid(8))),
        other => panic!("unexpected {:?}", other),
    }
    match validate_task_ownership(1, &[3], &tasks) {
        Err(ToolError::PermissionDenied(m)) => {
            assert_eq!(m, format!("task {} is not a child of current task", uuid(3)))
        }
        other => panic!("unexpected {:?}", other),
    }
}

#[test]
fn tasks_waiting_for_a_tool_resume_unless_their_loop_runs() {
    let waiting = TaskStatus::Waiting(WaitingReason::ToolExecution);
    let mut tasks = vec![task(1, waiting, None), task(2, waiting, None), task(3, TaskStatus::Running, None)];
    restore_task_after_tool(&mut tasks, &[2], 1);
    restore_task_after_tool(&mut tasks, &[2], 2);
    restore_task_after_tool(&mut tasks, &[2], 3);
    assert_eq!(tasks[0].status, TaskStatus::Ready);
    assert_eq!(tasks[1].status, waiting);
    assert_eq!(tasks[2].status, TaskStatus::Running);
}

#[test]
fn clearing_a_confirmation_touches_only_that_task() {
    let mut tasks = vec![task(1, TaskStatus::Running, None), task(2, TaskStatus::Running, None)];
    clear_task_pending_confirmation_id(&mut tasks, 2);
    assert_eq!(tasks[0].pending_confirmation_id, Some(9));
    assert_eq!(tasks[1].pending_confirmation_id, None);
}

#[test]
fn sweeper_claims_calls_past_their_timeout() {
    let calls = vec![call("a", 1, 100, 40), call("b", 1, 100, 10), call("c", 1, 120, 5)];
    let claims = sweep_inflight_tool_calls(131, &calls);
    assert_eq!(claims.len(), 2);
    assert_eq!(claims[0].index, 1);
    assert_eq!(claims[0].tool_call_id, "b");
    assert_eq!(claims[0].message, "tool 'shell_exec' lost contact after 31s (sweeper)");
    assert_eq!(claims[1].index, 2);
    assert!(sweep_inflight_tool_calls(105, &calls).is_empty());
}

#[test]
fn monitor_cancels_calls_of_missing_or_finished_tasks() {
    let tasks = vec![task(1, TaskStatus::Running, None), task(2, TaskStatus::Done, None)];
    let calls = vec![call("a", 1, 0, 9), call("b", 2, 0, 9), call("c", 3, 0, 9)];
    assert_eq!(cancel_monitor_system(&tasks, &calls), vec![1, 2]);
}

#[test]
fn a_result_lands_once_and_a_late_duplicate_is_dropped() {
    let pending = vec!["c".to_string(), "d".to_string()];
    let results = vec![
        ("c".to_string(), WorkerPayloadKind::Completed),
        ("c".to_string(), WorkerPayloadKind::Completed),
        ("c".to_string(), WorkerPayloadKind::Effect),
        ("d".to_string(), WorkerPayloadKind::Effect),
        ("d".to_string(), WorkerPayloadKind::Completed),
    ];
    assert_eq!(
        ingest_tool_results_system(&results, &pending),
        vec![
            IngestAction::Land(0),
            IngestAction::DropResult,
            IngestAction::DropEffect,
            IngestAction::QueueEffect(1),
            IngestAction::Land(1),
        ]
    );
}

#[test]
fn worker_results_land_only_on_pending_calls() {
    let pending = vec!["x".to_string(), "y".to_string()];
    let results = vec![
        ("y".to_string(), WorkerPayloadKind::Completed),
        ("z".to_string(), WorkerPayloadKind::Completed),
        ("x".to_string(), WorkerPayloadKind::Effect),
        ("z".to_string(), WorkerPayloadKind::Effect),
    ];
    assert_eq!(
        ingest_tool_results_system(&results, &pending),
        vec![IngestAction::Land(1), IngestAction::DropResult, IngestAction::QueueEffect(0), IngestAction::DropEffect]
    );
}

#[test]
fn grants_are_remembered_only_when_permanent() {
    let mut p = AgentToolPermissions::default();
    apply_grant(&mut p, &"shell_exec".to_string(), GrantMode::Once);
    assert_eq!(p.get_permission("shell_exec"), ToolPermission::Confirm);
    apply_grant(&mut p, &"shell_exec".to_string(), GrantMode::Permanent);
    assert_eq!(p.get_permission("shell_exec"), ToolPermission::Allow);
    assert_eq!(p.get_permission("shell_stop"), ToolPermission::Confirm);
}

#[test]
fn approvals_are_granted_once() {
    let requests = vec![ApprovalRequest {
        request_id: 5,
        tool_name: "shell_exec".to_string(),
        source_task_id: 6,
        parent_agent_id: 7,
        child_agent_id: 8,
        approval_task_id: 9,
    }];
    let out = approval_dispatch_system(&requests);
    assert_eq!(out.len(), 1);
    assert_eq!(out[0].request_id, 5);
    assert_eq!(out[0].source_task_id, 6);
    assert_eq!(out[0].approval_task_id, 9);
    assert_eq!(out[0].decision, ApprovalDecision::Approved);
    assert_eq!(out[0].grant_mode, GrantMode::Once);
    assert_eq!(out[0].reasoning, "MVP auto-approve: parent agent approval");
}

#[test]
fn dispatch_texts_and_inflight_budget() {
    match missing_executor_error("frobnicate") {
        ToolError::NotFound(m) => {
            assert_eq!(m, "no executor for 'frobnicate' — this tool is not available, do not retry")
        }
        other => panic!("unexpected {:?}", other),
    }
    assert_eq!(inflight_base(300, 120), 300);
    assert_eq!(inflight_base(60, 300), 300);
}

#[test]
fn spawn_plans_follow_the_parent() {
    let mut registry = SpaceToolRegistry::new();
    registry.register(ToolDefinition {
        name: "shell_exec".to_string(),
        description: String::new(),
        default_permission: ToolPermission::Confirm,
        required_tag: None,
    });
    let mut perms = AgentToolPermissions::default();
    perms.overrides.insert("shell_stop".to_string(), ToolPermission::Deny);
    let parent = Agent {
        id: 1,
        name: "brain".to_string(),
        model: "gpt-parent".to_string(),
        tags: vec![],
        description: String::new(),
        kind: AgentKind::Persistent,
        parent_id: None,
        bound_task_id: None,
        tool_permissions: perms,
        system_prompt: None,
    };
    let request = AgentSpawnRequest::from_tool_call(
        1,
        2,
        "child".to_string(),
        None,
        "reads logs".to_string(),
        vec!["shell_exec".to_string(), "shell_stop".to_string()],
    );
    assert!(matches!(plan_spawn(None, &registry, &request), SpawnPlan::ParentMissing));
    match plan_spawn(Some(&parent), &registry, &request) {
        SpawnPlan::Spawn { inherited, permissions, model, prompt } => {
            assert_eq!(inherited, vec![("shell_exec".to_string(), ToolPermission::Confirm)]);
            assert_eq!(permissions.get_permission("shell_exec"), ToolPermission::Confirm);
            assert_eq!(permissions.get_permission("shell_stop"), ToolPermission::Deny);
            assert_eq!(model, "gpt-parent");
            assert_eq!(prompt, "reads logs");
        }
        other => panic!("unexpected {:?}", other),
    }
    let denied_only = AgentSpawnRequest::from_tool_call(
        1,
        2,
        "child".to_string(),
        Some("gpt-x".to_string()),
        "d".to_string(),
        vec!["shell_stop".to_string()],
    );
    assert!(matches!(plan_spawn(Some(&parent), &registry, &denied_only), SpawnPlan::AllToolsDenied));
}

fn entry(role: EntryRole, tools: usize) -> MemoryEntry {
    let mut metadata = EntryMetadata::default();
    for k in 0..tools {
        metadata.tool_calls.push(ToolCall {
            id: Some(format!("c{}", k)),
            tool_name: "t".to_string(),
            input: String::new(),
            output: String::new(),
            timestamp: 0,
        });
    }
    MemoryEntry { role, content: "x".to_string(), metadata }
}

#[test]
fn groups_open_at_user_turns_and_tool_calls() {
    let entries = vec![
        entry(EntryRole::Summary, 0),
        entry(EntryRole::User, 0),
        entry(EntryRole::Assistant, 0),
        entry(EntryRole::Assistant, 1),
        entry(EntryRole::Assistant, 0),
        entry(EntryRole::User, 0),
    ];
    assert_eq!(split_into_groups(&entries), vec![vec![0], vec![1, 2], vec![3, 4], vec![5]]);
    assert!(split_into_groups(&[]).is_empty());
}
