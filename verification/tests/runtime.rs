use harness::config::{parse_unsigned_text, HarnessConfig, HarnessEnv, HarnessSettings, LlmProviderConfig, LlmProviderKind};
use harness::domain::{ChannelId, FrontendKind, Task, TaskStatus, WaitingReason};
use harness::memory::{EntryMetadata, EntryRole, ShortTermMemory, ToolCall};
use harness::permissions::{
    Agent, AgentKind, AgentToolPermissions, SpaceToolRegistry, ToolDefinition, ToolPermission,
};
use harness::scheduling::ScheduleTaskTool;
use harness::shell_output::tail_lines;
use harness::shell_tools::ShellExecTool;
use harness::skills::{
    resolve_skill_dir_from_context, SkillCreationContext, SkillId, SkillLoader, SkillUpdateContext,
    WriteSkillFileTool,
};
use harness::summarization::{
    compression_request, handle_summarization_result, summarization_dispatch, MemoryConfig,
    SummarizationRequest, SummarizationTrigger, SummaryOutcome, WorkItem, WorkItemType,
};
use harness::tools::ToolActionKind;

fn task(id: u128, status: TaskStatus) -> Task {
    Task {
        id,
        content: "test".to_string(),
        creator: 0,
        delegate: None,
        status,
        pending_confirmation_id: None,
        result_summary: String::new(),
        last_error: None,
        parent_task_id: None,
        origin_channel: Some(ChannelId {
            frontend: FrontendKind::Tui,
            user_id: "default".to_string(),
            thread_id: None,
        }),
        output_channel: None,
        updated_at: 0,
    }
}

fn plain_tool(name: &str, required_tag: Option<&str>) -> ToolDefinition {
    ToolDefinition {
        name: name.to_string(),
        description: "test".to_string(),
        default_permission: ToolPermission::Allow,
        required_tag: required_tag.map(|s| s.to_string()),
    }
}

fn agent_with_tags(tags: Vec<String>) -> Agent {
    Agent {
        id: 0,
        name: "test".to_string(),
        model: "m".to_string(),
        tags,
        description: String::new(),
        kind: AgentKind::Persistent,
        parent_id: None,
        bound_task_id: None,
        tool_permissions: AgentToolPermissions::default(),
        system_prompt: None,
    }
}

#[test]
fn validate_required_tags_no_warn_when_no_required_tag() {
    let mut registry = SpaceToolRegistry::new();
    registry.register(plain_tool("plain_tool", None));
    let agents: Vec<Agent> = vec![];

    let orphans = harness::permissions::validate_required_tags(&registry, &agents);
    assert!(orphans.is_empty());
}

#[test]
fn validate_required_tags_no_warn_when_tag_held() {
    let mut registry = SpaceToolRegistry::new();
    registry.register(plain_tool("profile_tool", Some("profile")));
    let agents = vec![agent_with_tags(vec!["profile".to_string()])];

    let orphans = harness::permissions::validate_required_tags(&registry, &agents);
    assert!(orphans.is_empty());
}

#[test]
fn validate_required_tags_reports_orphan() {
    let mut registry = SpaceToolRegistry::new();
    registry.register(plain_tool("profile_tool", Some("profile")));
    let agents = vec![agent_with_tags(vec!["other".to_string()])];

    let orphans = harness::permissions::validate_required_tags(&registry, &agents);
    assert_eq!(orphans, vec![("profile_tool".to_string(), "profile".to_string())]);
}

#[test]
fn memory_compression_by_tokens() {
    let config = MemoryConfig {
        compression_threshold_tokens: 100,
        preserve_recent_turns: 1,
        summary_target_tokens: 50,
    };
    let t = task(3, TaskStatus::Running);
    let mut stm = ShortTermMemory::default();
    for i in 0..10 {
        stm.add_entry(
            EntryRole::User,
            &format!("This is message number {} with some content", i),
            EntryMetadata::default(),
        );
    }
    assert!(stm.estimated_tokens > 0);
    let _ = compression_request(&t, &stm, &config);
}

#[test]
fn short_term_memory_token_estimation() {
    let mut stm = ShortTermMemory::default();
    for i in 0..5 {
        stm.add_entry(EntryRole::User, &format!("message {}", i), EntryMetadata::default());
    }
    assert_eq!(stm.entries.len(), 5);
    assert!(stm.estimated_tokens > 0);
}

#[test]
fn token_estimate_is_a_quarter_per_character_plus_one() {
    let mut stm = ShortTermMemory::default();
    stm.add_entry(EntryRole::User, "abcdefgh", EntryMetadata::default());
    assert_eq!(stm.estimated_tokens, 3);
    assert_eq!(harness::memory::estimate_tokens(""), 1);
    assert_eq!(harness::memory::estimate_tokens("abc"), 1);
    assert_eq!(harness::memory::estimate_tokens("abcd"), 2);
}

#[test]
fn compression_preserves_tool_call_group_atomicity() {
    let config = MemoryConfig {
        compression_threshold_tokens: 50,
        preserve_recent_turns: 1,
        summary_target_tokens: 25,
    };
    let t = task(3, TaskStatus::Running);
    let mut stm = ShortTermMemory::default();
    stm.add_entry(
        EntryRole::User,
        "hello world this is a long enough message to contribute tokens",
        EntryMetadata::default(),
    );
    let mut metadata = EntryMetadata::default();
    metadata.tool_calls.push(ToolCall {
        id: Some("call_1".to_string()),
        tool_name: "shell_exec".to_string(),
        input: "ls -la /very/long/path/with/many/segments/to/contribute/tokens".to_string(),
        output: "file1.txt\nfile2.txt\nfile3.txt\nfile4.txt\nfile5.txt\nfile6.txt".to_string(),
        timestamp: 0,
    });
    stm.add_entry(EntryRole::Assistant, "done with tools", metadata);
    stm.add_entry(
        EntryRole::User,
        "next question with enough tokens to push over threshold when combined",
        EntryMetadata::default(),
    );
    stm.add_entry(
        EntryRole::Assistant,
        "final answer with enough text to be meaningful",
        EntryMetadata::default(),
    );
    assert!(stm.estimated_tokens > 50, "should exceed threshold, got {}", stm.estimated_tokens);

    // Three groups: [user], [assistant with tools], [user, assistant]; the
    // last one stays, the first two are summarized whole.
    let req = compression_request(&t, &stm, &config).expect("over threshold");
    assert_eq!(req.trigger, SummarizationTrigger::TokenThreshold);
    assert_eq!(req.target_tokens, 25);
    assert_eq!(
        req.content_to_summarize,
        "User: hello world this is a long enough message to contribute tokens\n\
         Assistant: done with tools\n  tool calls: shell_exec\n"
    );
}

#[test]
fn compression_skips_tasks_waiting_for_a_summary() {
    let config = MemoryConfig {
        compression_threshold_tokens: 1,
        preserve_recent_turns: 0,
        summary_target_tokens: 25,
    };
    let mut stm = ShortTermMemory::default();
    stm.add_entry(EntryRole::User, "some words here", EntryMetadata::default());
    let waiting = task(1, TaskStatus::Waiting(WaitingReason::Summarization));
    assert!(compression_request(&waiting, &stm, &config).is_none());
    let done = task(1, TaskStatus::Done);
    assert!(compression_request(&done, &stm, &config).is_none());
    let running = task(1, TaskStatus::Running);
    let req = compression_request(&running, &stm, &config).expect("over threshold");
    assert_eq!(req.content_to_summarize, "User: some words here\n");
}

#[test]
fn config_defaults_for_poll_intervals() {
    let config = HarnessConfig::default();
    assert_eq!(config.active_poll_ms, 16);
    assert_eq!(config.idle_poll_ms, 150);
}

#[test]
fn default_test_settings_use_defaults() {
    let settings = HarnessSettings::default_test();
    assert_eq!(settings.0.tool_inflight_timeout_secs, 300);
    assert_eq!(settings.0.shell_max_buffer_bytes_per_stream, 65536);
    assert_eq!(settings.0.agents_config_path, "agents.toml");
}

fn empty_env() -> HarnessEnv {
    HarnessEnv {
        brain_enabled: None,
        agents_config: None,
        max_retries: None,
        max_tool_iterations: None,
        default_wait_tasks_timeout_secs: None,
        shell_default_tail_lines: None,
        shell_max_tail_lines: None,
        shell_default_exec_timeout_secs: None,
        shell_default_stop_timeout_secs: None,
        tool_inflight_timeout_secs: None,
        shell_max_buffer_bytes_per_stream: None,
        active_poll_ms: None,
        idle_poll_ms: None,
        channels_config: None,
        triggers_config: None,
        providers_config: None,
    }
}

fn llm() -> LlmProviderConfig {
    LlmProviderConfig {
        provider: LlmProviderKind::OpenAi,
        model: "gpt-4.1-mini".to_string(),
        api_key: None,
        api_base: None,
    }
}

#[test]
fn env_values_override_defaults_when_readable() {
    let mut env = empty_env();
    env.max_retries = Some("7".to_string());
    env.idle_poll_ms = Some("+250".to_string());
    env.active_poll_ms = Some("fast".to_string());
    env.max_tool_iterations = Some("99999999999".to_string());
    env.brain_enabled = Some("TRUE".to_string());
    env.providers_config = Some("p.toml".to_string());
    let c = HarnessConfig::from_env_values(&env, llm());
    assert_eq!(c.max_retries, 7);
    assert_eq!(c.idle_poll_ms, 250);
    assert_eq!(c.active_poll_ms, 16);
    assert_eq!(c.max_tool_iterations, 5);
    assert!(c.brain.is_some());
    assert_eq!(c.providers_config_path, "p.toml");
    assert_eq!(c.agents_config_path, "agents.toml");

    let plain = HarnessConfig::from_env_values(&empty_env(), llm());
    assert!(plain.brain.is_none());
    assert_eq!(plain.shell_default_tail_lines, 200);
}

#[test]
fn unsigned_text_reading() {
    assert_eq!(parse_unsigned_text("42", 100), Some(42));
    assert_eq!(parse_unsigned_text("+0", 100), Some(0));
    assert_eq!(parse_unsigned_text("101", 100), None);
    assert_eq!(parse_unsigned_text("", 100), None);
    assert_eq!(parse_unsigned_text("+", 100), None);
    assert_eq!(parse_unsigned_text("-1", 100), None);
    assert_eq!(parse_unsigned_text(" 1", 100), None);
    assert_eq!(parse_unsigned_text("18446744073709551615", u64::MAX), Some(u64::MAX));
    assert_eq!(parse_unsigned_text("18446744073709551616", u64::MAX), None);
}

#[test]
fn summarization_workitem_preserves_trigger() {
    let task_id = 0u128;
    let work_item =
        WorkItem::summarization(task_id, "content".to_string(), 100, SummarizationTrigger::TaskComplete);
    assert_eq!(work_item.work_type, WorkItemType::Summarization);
    assert_eq!(work_item.task_id, task_id);
}

#[test]
fn summarization_dispatch_marks_task_waiting_unless_complete() {
    let mut tasks = vec![task(1, TaskStatus::Running), task(2, TaskStatus::Done)];
    let req = SummarizationRequest {
        task_id: 1,
        content_to_summarize: "x".to_string(),
        target_tokens: 10,
        trigger: SummarizationTrigger::UserCommand,
    };
    let (item, hint) = summarization_dispatch(&mut tasks, &req, 77);
    assert_eq!(item.target_tokens, 10);
    assert_eq!(hint.strategy, harness::routing::DispatchStrategy::DirectDelegate);
    assert_eq!(tasks[0].status, TaskStatus::Waiting(WaitingReason::Summarization));
    assert_eq!(tasks[0].updated_at, 77);

    let req_done = SummarizationRequest {
        task_id: 2,
        content_to_summarize: "x".to_string(),
        target_tokens: 10,
        trigger: SummarizationTrigger::UserCommand,
    };
    summarization_dispatch(&mut tasks, &req_done, 78);
    assert_eq!(tasks[1].status, TaskStatus::Done);

    let mut more = vec![task(3, TaskStatus::Running)];
    let req_complete = SummarizationRequest {
        task_id: 3,
        content_to_summarize: "x".to_string(),
        target_tokens: 10,
        trigger: SummarizationTrigger::TaskComplete,
    };
    summarization_dispatch(&mut more, &req_complete, 79);
    assert_eq!(more[0].status, TaskStatus::Running);
}

#[test]
fn summary_result_compresses_memory_and_restores_task() {
    let mut stm = ShortTermMemory::default();
    stm.add_entry(EntryRole::User, "first question", EntryMetadata::default());
    stm.add_entry(EntryRole::Assistant, "first answer", EntryMetadata::default());
    stm.add_entry(EntryRole::User, "second question", EntryMetadata::default());
    let mut memory = Some(stm);
    let mut tasks = vec![task(5, TaskStatus::Waiting(WaitingReason::Summarization))];
    let notice = handle_summarization_result(
        &mut tasks,
        &mut memory,
        5,
        SummaryOutcome::Text("short summary".to_string()),
        1,
        99,
    );
    assert_eq!(notice, "📝 摘要完成\n\nshort summary");
    let m = memory.unwrap();
    assert_eq!(m.summary_prefix.as_deref(), Some("short summary"));
    assert_eq!(m.entries.len(), 1);
    assert_eq!(m.entries[0].content, "second question");
    assert_eq!(m.estimated_tokens, harness::memory::estimate_tokens("second question"));
    assert_eq!(tasks[0].status, TaskStatus::Waiting(WaitingReason::User));

    let mut none: Option<ShortTermMemory> = None;
    let failed = handle_summarization_result(
        &mut tasks,
        &mut none,
        5,
        SummaryOutcome::Failed("boom".to_string()),
        1,
        100,
    );
    assert_eq!(failed, "⚠️ 摘要失败：boom");
    let odd = handle_summarization_result(&mut tasks, &mut none, 5, SummaryOutcome::NonText, 1, 100);
    assert_eq!(odd, "⚠️ 摘要失败：返回了非文本输出");
}

#[test]
fn tail_lines_returns_only_latest_lines() {
    let content = "a\nb\nc\nd";
    let (tail, truncated, returned_lines) = tail_lines(content, 2);
    assert_eq!(tail, "c\nd");
    assert!(truncated);
    assert_eq!(returned_lines, 2);
}

#[test]
fn tail_lines_handles_short_content() {
    let content = "a\nb";
    let (tail, truncated, returned_lines) = tail_lines(content, 5);
    assert_eq!(tail, "a\nb");
    assert!(!truncated);
    assert_eq!(returned_lines, 2);
}

#[test]
fn kind_is_async() {
    assert_eq!(ScheduleTaskTool.kind(), ToolActionKind::Async);
}

#[test]
fn shell_exec_kind_is_async() {
    let tool = ShellExecTool;
    assert_eq!(tool.kind(), ToolActionKind::Async);
}

#[test]
fn write_skill_file_is_async() {
    assert_eq!(WriteSkillFileTool.kind(), ToolActionKind::Async);
}

#[test]
fn mod_agent_tool_permissions_default_is_confirm() {
    let perms = AgentToolPermissions::default();
    assert_eq!(perms.get_permission("unknown_tool"), ToolPermission::Confirm);
}

#[test]
fn mod_agent_tool_permissions_override() {
    let mut perms = AgentToolPermissions {
        default_permission: ToolPermission::Deny,
        ..Default::default()
    };
    perms.overrides.insert("shell_exec".to_string(), ToolPermission::Allow);

    assert_eq!(perms.get_permission("shell_exec"), ToolPermission::Allow);
    assert_eq!(perms.get_permission("other"), ToolPermission::Deny);
}

#[test]
fn tool_agent_tool_permissions_default_is_confirm() {
    let perms = AgentToolPermissions::default();
    assert_eq!(perms.get_permission("unknown_tool"), ToolPermission::Confirm);
}

#[test]
fn tool_agent_tool_permissions_override() {
    let mut perms = AgentToolPermissions {
        default_permission: ToolPermission::Deny,
        ..Default::default()
    };
    perms.overrides.insert("shell_exec".to_string(), ToolPermission::Allow);

    assert_eq!(perms.get_permission("shell_exec"), ToolPermission::Allow);
    assert_eq!(perms.get_permission("other"), ToolPermission::Deny);
}

#[test]
fn returns_none_when_no_context() {
    let result = resolve_skill_dir_from_context(None, None, None);
    assert!(result.is_none());
}

fn creation_ctx(sandbox: &str) -> SkillCreationContext {
    SkillCreationContext {
        task_id: 1,
        agent_id: 2,
        agent_name: "test-agent".to_string(),
        sandbox_dir: sandbox.to_string(),
        skill_name: "test-skill".to_string(),
    }
}

fn update_ctx() -> SkillUpdateContext {
    SkillUpdateContext {
        skill_id: SkillId { agent: "test-agent".to_string(), skill: "test-skill".to_string() },
        base_version: 1,
        experience_candidate_id: 3,
        governing_agent_id: 4,
    }
}

#[test]
fn returns_sandbox_dir_when_skill_creation_context_present() {
    let creation = creation_ctx("/tmp/test-sandbox");
    let result = resolve_skill_dir_from_context(Some(&creation), None, None);
    assert_eq!(result.as_deref(), Some("/tmp/test-sandbox"));
}

#[test]
fn returns_skill_dir_when_skill_update_context_and_loader_present() {
    let loader = SkillLoader { base_dir: "/data/agents".to_string() };
    let update = update_ctx();
    let result = resolve_skill_dir_from_context(None, Some(&update), Some(&loader));
    assert_eq!(result.as_deref(), Some("/data/agents/test-agent/skills/test-skill"));
}

#[test]
fn returns_none_when_skill_update_context_but_loader_missing() {
    let update = update_ctx();
    let result = resolve_skill_dir_from_context(None, Some(&update), None);
    assert!(result.is_none());
}

#[test]
fn prefers_creation_context_when_both_present() {
    let creation = creation_ctx("/tmp/test-sandbox");
    let update = update_ctx();
    let loader = SkillLoader { base_dir: "/data/agents".to_string() };
    let result = resolve_skill_dir_from_context(Some(&creation), Some(&update), Some(&loader));
    assert_eq!(result.as_deref(), Some("/tmp/test-sandbox"));
}
