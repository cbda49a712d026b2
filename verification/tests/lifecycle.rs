use harness::domain::{ChannelId, FailureReason, FrontendKind, Task, TaskStatus};
use harness::lifecycle::{
    agent_from_entry, handle_termination, check_agent_roster, mark_task_failed, namespaced_entry,
    AgentEntry, ModelChainEntry, RosterError,
};
use harness::outbound::{channel_send_result, plan_channel_send, ChannelSendReport};
use harness::permissions::{Agent, AgentKind, AgentToolPermissions, ToolPermission};

fn names(v: &[&str]) -> Vec<String> {
    v.iter().map(|s| s.to_string()).collect()
}

fn task(id: u128, status: TaskStatus) -> Task {
    Task {
        id,
        content: "t".to_string(),
        creator: 0,
        delegate: None,
        status,
        pending_confirmation_id: None,
        result_summary: String::new(),
        last_error: None,
        parent_task_id: None,
        origin_channel: None,
        output_channel: None,
        updated_at: 0,
    }
}

fn agent(id: u128, kind: AgentKind, bound: Option<u128>) -> Agent {
    Agent {
        id,
        name: format!("a{}", id),
        model: "m".to_string(),
        tags: vec![],
        description: String::new(),
        kind,
        parent_id: None,
        bound_task_id: bound,
        tool_permissions: AgentToolPermissions::default(),
        system_prompt: None,
    }
}

fn entry(name: &str) -> AgentEntry {
    AgentEntry {
        name: name.to_string(),
        model: None,
        models: vec![],
        tags: vec!["profile".to_string()],
        description: "designs profiles".to_string(),
        system_prompt: Some("be brief".to_string()),
        tools: None,
    }
}

#[test]
fn roster_accepts_distinct_new_names() {
    let r = check_agent_roster(&names(&["a", "b"]), &names(&["p:x"]), &names(&["c"]));
    assert!(r.is_ok());
}

#[test]
fn roster_reports_first_duplicate_in_config() {
    match check_agent_roster(&names(&["a", "b", "a", "b"]), &names(&[]), &names(&[])) {
        Err(RosterError::DuplicateInConfig(n)) => assert_eq!(n, "a"),
        other => panic!("unexpected {:?}", other),
    }
    let err = check_agent_roster(&names(&["a", "a"]), &names(&[]), &names(&[])).unwrap_err();
    assert_eq!(err.message(), "duplicate agent name 'a' in config");
}

#[test]
fn roster_reports_plugin_name_clash() {
    match check_agent_roster(&names(&["a"]), &names(&["p:x", "a"]), &names(&[])) {
        Err(RosterError::DuplicateFromPlugin(n)) => assert_eq!(n, "a"),
        other => panic!("unexpected {:?}", other),
    }
    let err = check_agent_roster(&names(&[]), &names(&["p:x", "p:x"]), &names(&[])).unwrap_err();
    assert_eq!(err.message(), "duplicate agent name 'p:x' from plugin");
}

#[test]
fn roster_reports_running_agent_configured_names_first() {
    match check_agent_roster(&names(&["a", "b"]), &names(&["p:x"]), &names(&["p:x", "b"])) {
        Err(RosterError::AlreadyExists(n)) => assert_eq!(n, "b"),
        other => panic!("unexpected {:?}", other),
    }
    let err = check_agent_roster(&names(&[]), &names(&["p:x"]), &names(&["p:x"])).unwrap_err();
    assert_eq!(err.message(), "agent name 'p:x' already exists");
}

#[test]
fn agent_from_entry_prefers_the_model_chain() {
    let mut e = entry("designer");
    e.model = Some("ignored".to_string());
    e.models = vec![
        ModelChainEntry { provider: "openai".to_string(), model: "gpt-a".to_string(), fallback_cooldown_secs: Some(30) },
        ModelChainEntry { provider: "other".to_string(), model: "gpt-b".to_string(), fallback_cooldown_secs: None },
    ];
    let (a, chain) = agent_from_entry(9, e, Some("openai".to_string()));
    assert_eq!(a.id, 9);
    assert_eq!(a.name, "designer");
    assert_eq!(a.model, "gpt-a");
    assert_eq!(a.kind, AgentKind::Persistent);
    assert_eq!(a.tags, vec!["profile".to_string()]);
    assert_eq!(a.system_prompt.as_deref(), Some("be brief"));
    assert_eq!(chain.unwrap().len(), 2);
}

#[test]
fn agent_from_entry_builds_a_single_model_chain_with_default_provider() {
    let mut e = entry("writer");
    e.model = Some("gpt-solo".to_string());
    let (a, chain) = agent_from_entry(1, e, None);
    assert_eq!(a.model, "gpt-solo");
    let chain = chain.unwrap();
    assert_eq!(chain.len(), 1);
    assert_eq!(chain[0].provider, "default");
    assert_eq!(chain[0].model, "gpt-solo");
    assert_eq!(chain[0].fallback_cooldown_secs, None);

    let mut e = entry("writer");
    e.model = Some("gpt-solo".to_string());
    let (_, chain) = agent_from_entry(1, e, Some("anthropic".to_string()));
    assert_eq!(chain.unwrap()[0].provider, "anthropic");
}

#[test]
fn agent_from_entry_without_models_uses_the_fallback_model() {
    let (a, chain) = agent_from_entry(2, entry("plain"), Some("openai".to_string()));
    assert_eq!(a.model, "gpt-4.1-mini");
    assert!(chain.is_none());
    assert_eq!(a.tool_permissions.default_permission, ToolPermission::Confirm);
}

#[test]
fn agent_from_entry_keeps_configured_tool_permissions() {
    let mut e = entry("locked");
    let mut perms = AgentToolPermissions::default();
    perms.default_permission = ToolPermission::Deny;
    perms.default_permission_explicit = true;
    e.tools = Some(perms);
    let (a, _) = agent_from_entry(3, e, None);
    assert_eq!(a.tool_permissions.default_permission, ToolPermission::Deny);
    assert!(a.tool_permissions.default_permission_explicit);
}

#[test]
fn plugin_entries_are_namespaced() {
    let (name, e) = namespaced_entry("weather", entry("forecaster"));
    assert_eq!(name, "weather:forecaster");
    assert_eq!(e.name, "weather:forecaster");
    assert_eq!(e.description, "designs profiles");
}

#[test]
fn only_task_scoped_agents_of_ended_tasks_stop() {
    let tasks = vec![
        task(10, TaskStatus::Done),
        task(11, TaskStatus::Running),
        task(12, TaskStatus::Failed(FailureReason::Timeout)),
    ];
    let agents = vec![
        agent(1, AgentKind::TaskScoped, Some(10)),
        agent(2, AgentKind::TaskScoped, Some(11)),
        agent(3, AgentKind::Persistent, Some(10)),
        agent(4, AgentKind::TaskScoped, None),
        agent(5, AgentKind::TaskScoped, Some(99)),
        agent(6, AgentKind::TaskScoped, Some(12)),
    ];
    assert_eq!(handle_termination(&agents, &tasks), vec![1, 6]);
}

#[test]
fn mark_task_failed_records_the_error() {
    let mut tasks = vec![task(1, TaskStatus::Running), task(2, TaskStatus::Running)];
    mark_task_failed(&mut tasks, 2, "parent agent not found", 77);
    assert_eq!(tasks[1].status, TaskStatus::Failed(FailureReason::AgentError));
    assert_eq!(tasks[1].last_error.as_deref(), Some("parent agent not found"));
    assert_eq!(tasks[1].updated_at, 77);
    assert_eq!(tasks[0].status, TaskStatus::Running);
    assert_eq!(tasks[0].updated_at, 0);
    mark_task_failed(&mut tasks, 9, "nobody", 78);
    assert_eq!(tasks[0].status, TaskStatus::Running);
}

#[test]
fn scheduled_task_without_recipient_falls_back_to_routing_channel() {
    let mut t = task(1, TaskStatus::Pending);
    t.output_channel =
        Some(ChannelId { frontend: FrontendKind::QQ, user_id: "group:xxx".to_string(), thread_id: None });
    let target = plan_channel_send(&[t], 1, &None).expect("falls back to the routing channel");
    assert_eq!(target.recipient, "group:xxx");
    assert_eq!(target.thread_id, None);
}

#[test]
fn channel_send_uses_origin_channel_then_explicit_recipient() {
    let mut t = task(1, TaskStatus::Pending);
    t.origin_channel = Some(ChannelId {
        frontend: FrontendKind::Telegram,
        user_id: "tg-user".to_string(),
        thread_id: Some("th-1".to_string()),
    });
    let tasks = vec![t];
    let target = plan_channel_send(&tasks, 1, &None).unwrap();
    assert_eq!(target.recipient, "tg-user");
    assert_eq!(target.thread_id.as_deref(), Some("th-1"));
    let target = plan_channel_send(&tasks, 1, &Some("someone".to_string())).unwrap();
    assert_eq!(target.recipient, "someone");
    assert_eq!(target.thread_id.as_deref(), Some("th-1"));
    assert!(plan_channel_send(&[task(2, TaskStatus::Pending)], 2, &None).is_none());
    assert!(plan_channel_send(&tasks, 3, &None).is_none());
}

#[test]
fn channel_send_result_texts() {
    let (text, report) = channel_send_result("qq", Ok(()));
    assert_eq!(text, "channel_send queued: qq");
    assert!(matches!(report, ChannelSendReport::Queued { channel } if channel == "qq"));
    let (text, report) = channel_send_result("qq", Err("not configured".to_string()));
    assert_eq!(text, "channel_send failed: not configured");
    assert!(matches!(report, ChannelSendReport::Failed { error } if error == "not configured"));
}
