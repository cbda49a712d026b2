use harness::domain::{ChannelId, FrontendKind, ToolError};
use harness::json::{JsonNumber, JsonValue};
use harness::scheduling::{
    DeleteScheduledTaskTool, DynamicTaskRecord, RegisteredTask, UtcInstant, ListScheduledTasksTool, ScheduleSpec, ScheduleTaskTool, ToolEffect,
};
use harness::shell_tools::{
    ShellExecTool, ShellInputTool, ShellListTool, ShellReadOutputTool, ShellReadTool,
    ShellSendInputTool, ShellStartTool, ShellStopTool,
};
use harness::skills::{
    ExperienceCandidate, ExperienceCandidatePayload, ExperienceCandidateStatus, ExperienceKindHint,
    ListExperienceCandidatesTool, ReadSkillFileTool, SubmitExperienceCandidateTool,
    SubmitSkillUpdateTool, WriteSkillFileTool,
};
use harness::tools::{
    AskUserTool, ChatWithAgentTool, CreateTasksTool, SkipProfileUpdateTool, SpawnAgentTool,
    SubmitProfileUpdateTool, SubmitSkillTool, ToolAction, ToolActionKind, ToolContext,
    WaitTasksTool,
};

fn to_model(v: &serde_json::Value) -> JsonValue {
    match v {
        serde_json::Value::Null => JsonValue::Null,
        serde_json::Value::Bool(b) => JsonValue::Bool(*b),
        serde_json::Value::Number(n) => {
            JsonValue::Number(JsonNumber { as_u64: n.as_u64(), as_i64: n.as_i64() })
        }
        serde_json::Value::String(s) => JsonValue::Str(s.clone()),
        serde_json::Value::Array(a) => JsonValue::Array(a.iter().map(to_model).collect()),
        serde_json::Value::Object(o) => {
            JsonValue::Object(o.iter().map(|(k, v)| (k.clone(), to_model(v))).collect())
        }
    }
}

fn json(text: &str) -> JsonValue {
    to_model(&serde_json::from_str::<serde_json::Value>(text).expect("test JSON"))
}

fn tool_context() -> ToolContext {
    ToolContext {
        default_wait_tasks_timeout_secs: 300,
        shell_default_tail_lines: 50,
        shell_max_tail_lines: 500,
        shell_default_exec_timeout_secs: 60,
        shell_default_stop_timeout_secs: 5,
        tool_inflight_timeout_secs: 300,
        current_task_id: 11,
        current_agent_id: 22,
        current_origin_channel: None,
        current_skill_dir: None,
    }
}

const SAMPLE_ID: &str = "6f9619ff-8b86-d011-b42d-00c04fc964ff";
const SAMPLE_ID_VALUE: u128 = 0x6f9619ff_8b86_d011_b42d_00c04fc964ff;
const OTHER_ID: &str = "00000000-0000-0000-0000-00000000002a";

fn invalid_message<T: std::fmt::Debug>(r: Result<T, ToolError>) -> String {
    match r {
        Err(ToolError::InvalidInput(m)) => m,
        other => panic!("expected InvalidInput, got {:?}", other),
    }
}

// ---- ask_user ----

#[test]
fn parse_valid_question_returns_ask_user_action() {
    let input = json(r#"{"question": "用什么框架?"}"#);
    let result = AskUserTool.execute(&input, &tool_context());
    match result.unwrap() {
        ToolAction::AskUser { question } => assert_eq!(question, "用什么框架?"),
        other => panic!("expected AskUser, got {:?}", other),
    }
}

#[test]
fn parse_missing_question_returns_error() {
    let result = AskUserTool.execute(&json("{}"), &tool_context());
    let msg = invalid_message(result);
    assert!(msg.contains("question"), "msg: {msg}");
}

#[test]
fn parse_non_string_question_returns_error() {
    let result = AskUserTool.execute(&json(r#"{"question": 123}"#), &tool_context());
    assert!(result.is_err());
}

#[test]
fn parse_extra_fields_ignored() {
    let input = json(r#"{"question": "继续?", "extra": "ignored"}"#);
    match AskUserTool.execute(&input, &tool_context()).unwrap() {
        ToolAction::AskUser { question } => assert_eq!(question, "继续?"),
        other => panic!("expected AskUser, got {:?}", other),
    }
}

// ---- chat_with_agent ----

#[test]
fn parse_requires_message() {
    let result = ChatWithAgentTool.execute(&json(r#"{"agent": "critic"}"#), &tool_context());
    assert!(result.is_err());
}

#[test]
fn parse_requires_agent_or_tags_for_new_chat() {
    let result = ChatWithAgentTool.execute(&json(r#"{"message": "hello"}"#), &tool_context());
    assert_eq!(invalid_message(result), "new chat requires 'agent' or 'agent_tags'");
}

#[test]
fn parse_allows_handle_only() {
    let input = json(&format!(r#"{{"message": "continue", "handle": "{}"}}"#, SAMPLE_ID));
    match ChatWithAgentTool.execute(&input, &tool_context()).unwrap() {
        ToolAction::StartChatRound { handle: Some(h), message, agent_name, agent_tags, .. } => {
            assert_eq!(h, SAMPLE_ID_VALUE);
            assert_eq!(message, "continue");
            assert!(agent_name.is_none());
            assert!(agent_tags.is_empty());
        }
        other => panic!("expected StartChatRound, got {:?}", other),
    }
}

#[test]
fn parse_new_chat_with_agent_name() {
    let input = json(
        r#"{"message": "check this doc", "agent": "critic", "context": "focus on api design"}"#,
    );
    match ChatWithAgentTool.execute(&input, &tool_context()).unwrap() {
        ToolAction::StartChatRound { agent_name: Some(name), message, context: Some(ctx), .. } => {
            assert_eq!(name, "critic");
            assert_eq!(message, "check this doc");
            assert_eq!(ctx, "focus on api design");
        }
        other => panic!("expected StartChatRound, got {:?}", other),
    }
}

#[test]
fn chat_handle_that_is_no_id_counts_as_absent() {
    let input = json(r#"{"message": "hi", "handle": "not-an-id", "agent_tags": ["a", 3, "b"]}"#);
    match ChatWithAgentTool.execute(&input, &tool_context()).unwrap() {
        ToolAction::StartChatRound { handle, agent_tags, .. } => {
            assert!(handle.is_none());
            assert_eq!(agent_tags, vec!["a".to_string(), "b".to_string()]);
        }
        other => panic!("expected StartChatRound, got {:?}", other),
    }
}

// ---- wait_tasks ----

#[test]
fn test_wait_tasks_tool_parsing() {
    let input = json(&format!(
        r#"{{"task_ids": ["{}", "{}"], "timeout_secs": 600}}"#,
        SAMPLE_ID, OTHER_ID
    ));
    match WaitTasksTool.execute(&input, &tool_context()).unwrap() {
        ToolAction::WaitForTasks { task_ids, timeout_secs } => {
            assert_eq!(task_ids.len(), 2);
            assert_eq!(task_ids, vec![SAMPLE_ID_VALUE, 42]);
            assert_eq!(timeout_secs, 600);
        }
        other => panic!("expected WaitForTasks action, got {:?}", other),
    }
}

#[test]
fn test_wait_tasks_default_timeout() {
    let input = json(&format!(r#"{{"task_ids": ["{}"]}}"#, SAMPLE_ID));
    match WaitTasksTool.execute(&input, &tool_context()).unwrap() {
        ToolAction::WaitForTasks { timeout_secs, .. } => assert_eq!(timeout_secs, 300),
        other => panic!("expected WaitForTasks action, got {:?}", other),
    }
}

#[test]
fn test_wait_tasks_missing_task_ids() {
    let result = WaitTasksTool.execute(&json(r#"{"timeout_secs": 100}"#), &tool_context());
    assert!(result.is_err());
}

#[test]
fn test_wait_tasks_empty_task_ids() {
    let result = WaitTasksTool.execute(&json(r#"{"task_ids": []}"#), &tool_context());
    assert_eq!(invalid_message(result), "'task_ids' cannot be empty");
}

#[test]
fn wait_tasks_reports_first_unreadable_id() {
    let input = json(&format!(r#"{{"task_ids": ["{}", "bad-1", "bad-2"]}}"#, SAMPLE_ID));
    let result = WaitTasksTool.execute(&input, &tool_context());
    assert_eq!(invalid_message(result), "invalid task id: bad-1");
    let not_array = WaitTasksTool.execute(&json(r#"{"task_ids": "x"}"#), &tool_context());
    assert_eq!(invalid_message(not_array), "'task_ids' must be an array");
}

// ---- create_tasks / spawn_agent ----

const TWO_TASKS: &str = r#"{
    "tasks": [
        {"name": "task-a", "content": "do something", "tools": ["shell_exec"]},
        {"name": "task-b", "content": "do something else", "tools": ["shell_exec"], "depends_on": ["task-a"]}
    ]
}"#;

fn check_two_tasks(action: ToolAction) {
    match action {
        ToolAction::CreateBatch(defs) => {
            assert_eq!(defs.len(), 2);
            assert_eq!(defs[0].name, "task-a");
            assert!(defs[0].depends_on.is_empty());
            assert_eq!(defs[1].name, "task-b");
            assert_eq!(defs[1].depends_on, vec!["task-a"]);
        }
        other => panic!("expected CreateBatch action, got {:?}", other),
    }
}

#[test]
fn create_tasks_executor_create_tasks() {
    check_two_tasks(CreateTasksTool.execute(&json(TWO_TASKS), &tool_context()).unwrap());
}

#[test]
fn tool_executor_create_tasks() {
    check_two_tasks(CreateTasksTool.execute(&json(TWO_TASKS), &tool_context()).unwrap());
}

fn parse(text: &str) -> Result<Vec<harness::subtasks::SubTaskDefinition>, String> {
    harness::subtasks::parse_create_tasks_params(&json(text))
}

fn check_basic() {
    let defs = parse(TWO_TASKS).expect("should parse valid tasks");
    assert_eq!(defs.len(), 2);
    assert_eq!(defs[0].name, "task-a");
    assert!(defs[0].depends_on.is_empty());
    assert_eq!(defs[1].name, "task-b");
    assert_eq!(defs[1].depends_on, vec!["task-a"]);
}

fn check_empty() {
    let result = parse(r#"{"tasks": []}"#);
    assert!(result.unwrap_err().contains("must not be empty"));
}

fn check_duplicate() {
    let result = parse(
        r#"{"tasks": [{"name": "dup", "content": "first", "tools": []}, {"name": "dup", "content": "second", "tools": []}]}"#,
    );
    assert!(result.unwrap_err().contains("duplicate"));
}

fn check_missing_dependency() {
    let result = parse(
        r#"{"tasks": [{"name": "only-task", "content": "do something", "tools": ["shell_exec"], "depends_on": ["nonexistent"]}]}"#,
    );
    assert!(result.unwrap_err().contains("does not exist"));
}

fn check_cycle() {
    let result = parse(
        r#"{"tasks": [
            {"name": "task-a", "content": "first", "tools": ["shell_exec"], "depends_on": ["task-b"]},
            {"name": "task-b", "content": "second", "tools": ["shell_exec"], "depends_on": ["task-a"]}
        ]}"#,
    );
    assert!(result.unwrap_err().contains("circular dependency"));
}

fn check_self_cycle() {
    let result = parse(
        r#"{"tasks": [{"name": "self-ref", "content": "bad", "tools": ["shell_exec"], "depends_on": ["self-ref"]}]}"#,
    );
    assert!(result.unwrap_err().contains("circular dependency"));
}

fn check_optional_fields() {
    let defs = parse(r#"{"tasks": [{"name": "minimal", "content": "just content", "tools": ["shell_exec"]}]}"#)
        .unwrap();
    assert_eq!(defs.len(), 1);
    assert_eq!(defs[0].name, "minimal");
    assert!(defs[0].depends_on.is_empty());
    assert!(defs[0].model.is_none());
}

#[test]
fn create_tasks_parse_create_tasks_params_basic() {
    check_basic();
}

#[test]
fn create_tasks_parse_create_tasks_params_empty_tasks() {
    check_empty();
}

#[test]
fn create_tasks_parse_create_tasks_params_duplicate_name() {
    check_duplicate();
}

#[test]
fn create_tasks_parse_create_tasks_params_missing_dependency() {
    check_missing_dependency();
}

#[test]
fn create_tasks_parse_create_tasks_params_cycle_detection() {
    check_cycle();
}

#[test]
fn create_tasks_parse_create_tasks_params_self_cycle() {
    check_self_cycle();
}

#[test]
fn create_tasks_parse_create_tasks_params_optional_fields() {
    check_optional_fields();
}

#[test]
fn tool_parse_create_tasks_params_basic() {
    check_basic();
}

#[test]
fn tool_parse_create_tasks_params_empty_tasks() {
    check_empty();
}

#[test]
fn tool_parse_create_tasks_params_duplicate_name() {
    check_duplicate();
}

#[test]
fn tool_parse_create_tasks_params_missing_dependency() {
    check_missing_dependency();
}

#[test]
fn tool_parse_create_tasks_params_cycle_detection() {
    check_cycle();
}

#[test]
fn tool_parse_create_tasks_params_self_cycle() {
    check_self_cycle();
}

#[test]
fn tool_parse_create_tasks_params_optional_fields() {
    check_optional_fields();
}

#[test]
fn create_tasks_refusal_is_invalid_input() {
    let result = CreateTasksTool.execute(&json(r#"{"tasks": []}"#), &tool_context());
    assert_eq!(invalid_message(result), "tasks array must not be empty");
}

fn check_spawn() {
    let input = json(
        r#"{"name": "child", "model": "gpt-4", "description": "A child agent", "tools": ["knowledge_search"]}"#,
    );
    match SpawnAgentTool.execute(&input, &tool_context()).unwrap() {
        ToolAction::SpawnAgent { name, model, description, tools } => {
            assert_eq!(name, "child");
            assert_eq!(model, Some("gpt-4".to_string()));
            assert_eq!(description, "A child agent");
            assert_eq!(tools, vec!["knowledge_search"]);
        }
        other => panic!("expected SpawnAgent action, got {:?}", other),
    }
}

#[test]
fn spawn_agent_executor_spawn_agent() {
    check_spawn();
}

#[test]
fn tool_executor_spawn_agent() {
    check_spawn();
}

#[test]
fn spawn_agent_defaults() {
    let (name, model, description, tools) = harness::tools::parse_spawn_agent_params(&json("{}"));
    assert_eq!(name, "child-agent");
    assert!(model.is_none());
    assert_eq!(description, "");
    assert!(tools.is_empty());
}

// ---- profile and skill submissions ----

#[test]
fn skip_profile_update_returns_skip_action() {
    let action = SkipProfileUpdateTool.execute(&json("{}"), &tool_context()).unwrap();
    assert!(matches!(action, ToolAction::SkipProfileUpdate));
}

#[test]
fn skip_profile_update_ignores_input() {
    let action = SkipProfileUpdateTool
        .execute(&json(r#"{"unused": "value", "name": "ignored"}"#), &tool_context())
        .unwrap();
    assert!(matches!(action, ToolAction::SkipProfileUpdate));
}

#[test]
fn submit_profile_update_returns_submit_action() {
    let action = SubmitProfileUpdateTool
        .execute(
            &json(r#"{"name": "build-helper", "tags": ["build", "rust"], "description": "协助构建与编译相关任务"}"#),
            &tool_context(),
        )
        .unwrap();
    match action {
        ToolAction::SubmitProfileUpdate { name, tags, description } => {
            assert_eq!(name, "build-helper");
            assert_eq!(tags, vec!["build".to_string(), "rust".to_string()]);
            assert_eq!(description, "协助构建与编译相关任务");
        }
        other => panic!("expected SubmitProfileUpdate, got: {:?}", other),
    }
}

#[test]
fn submit_profile_update_rejects_missing_name() {
    let result = SubmitProfileUpdateTool
        .execute(&json(r#"{"tags": ["build"], "description": "desc"}"#), &tool_context());
    assert!(result.is_err());
}

#[test]
fn submit_profile_update_rejects_missing_tags() {
    let result = SubmitProfileUpdateTool
        .execute(&json(r#"{"name": "agent", "description": "desc"}"#), &tool_context());
    assert!(result.is_err());
}

#[test]
fn submit_profile_update_rejects_missing_description() {
    let result =
        SubmitProfileUpdateTool.execute(&json(r#"{"name": "agent", "tags": ["build"]}"#), &tool_context());
    assert!(result.is_err());
}

#[test]
fn submit_profile_update_rejects_empty_name() {
    let result = SubmitProfileUpdateTool
        .execute(&json(r#"{"name": "", "tags": ["build"], "description": "desc"}"#), &tool_context());
    assert!(invalid_message(result).contains("name"));
}

#[test]
fn submit_profile_update_rejects_empty_tags() {
    let result = SubmitProfileUpdateTool
        .execute(&json(r#"{"name": "agent", "tags": [], "description": "desc"}"#), &tool_context());
    assert!(invalid_message(result).contains("tags"));
}

#[test]
fn submit_profile_update_rejects_empty_description() {
    let result = SubmitProfileUpdateTool
        .execute(&json(r#"{"name": "agent", "tags": ["build"], "description": ""}"#), &tool_context());
    assert!(invalid_message(result).contains("description"));
}

#[test]
fn submit_skill_returns_submit_action() {
    let action = SubmitSkillTool
        .execute(&json(r#"{"name": "my-skill", "description": "A test skill"}"#), &tool_context())
        .unwrap();
    match action {
        ToolAction::SubmitSkillCandidate { name, description } => {
            assert_eq!(name, "my-skill");
            assert_eq!(description, "A test skill");
        }
        other => panic!("expected SubmitSkillCandidate, got: {:?}", other),
    }
}

#[test]
fn submit_skill_trims_name_and_description() {
    let action = SubmitSkillTool
        .execute(&json(r#"{"name": "  my-skill\n", "description": "\tdesc "}"#), &tool_context())
        .unwrap();
    match action {
        ToolAction::SubmitSkillCandidate { name, description } => {
            assert_eq!(name, "my-skill");
            assert_eq!(description, "desc");
        }
        other => panic!("expected SubmitSkillCandidate, got: {:?}", other),
    }
}

#[test]
fn submit_skill_rejects_empty_name() {
    let result =
        SubmitSkillTool.execute(&json(r#"{"name": "", "description": "A test skill"}"#), &tool_context());
    assert!(invalid_message(result).contains("name"));
}

#[test]
fn submit_skill_rejects_empty_description() {
    let result =
        SubmitSkillTool.execute(&json(r#"{"name": "my-skill", "description": ""}"#), &tool_context());
    assert!(invalid_message(result).contains("description"));
}

#[test]
fn submit_skill_rejects_missing_name() {
    let result = SubmitSkillTool.execute(&json(r#"{"description": "A test skill"}"#), &tool_context());
    assert!(invalid_message(result).contains("name"));
}

#[test]
fn submit_skill_rejects_missing_description() {
    let result = SubmitSkillTool.execute(&json(r#"{"name": "my-skill"}"#), &tool_context());
    assert!(invalid_message(result).contains("description"));
}

#[test]
fn submit_skill_rejects_path_traversal_name() {
    for evil_name in ["../../evil", "sub/evil", "sub\\\\evil", ".."] {
        let input = json(&format!(r#"{{"name": "{}", "description": "test"}}"#, evil_name));
        let result = SubmitSkillTool.execute(&input, &tool_context());
        let msg = invalid_message(result);
        assert!(
            msg.contains("path separator") || msg.contains("'..'"),
            "expected rejection for name '{}', got {}",
            evil_name,
            msg
        );
    }
}

#[test]
fn submit_skill_update_accepts_only_operations_and_rationale() {
    let action = SubmitSkillUpdateTool
        .execute(
            json(
                r###"{"operations": [{"action": "replace_section", "section": "## Usage", "content": "new"}],
                    "rationale": "update the Usage section", "skill_id": "agent-a/coding", "base_version": 3, "new_version": 4}"###,
            ),
            &tool_context(),
        )
        .unwrap();
    match action {
        ToolAction::SubmitSkillUpdate { operations, rationale } => {
            assert_eq!(operations.len(), 1);
            assert_eq!(rationale, "update the Usage section");
        }
        other => panic!("expected SubmitSkillUpdate, got: {:?}", other),
    }
}

#[test]
fn submit_skill_update_returns_submit_action_with_minimal_fields() {
    let action = SubmitSkillUpdateTool
        .execute(
            json(
                r###"{"operations": [{"action": "replace_section", "section": "## Usage", "content": "new"}],
                    "rationale": "update the Usage section"}"###,
            ),
            &tool_context(),
        )
        .unwrap();
    match action {
        ToolAction::SubmitSkillUpdate { operations, rationale } => {
            assert_eq!(operations.len(), 1);
            assert_eq!(rationale, "update the Usage section");
        }
        other => panic!("expected SubmitSkillUpdate, got: {:?}", other),
    }
}

#[test]
fn submit_skill_update_rejects_empty_rationale() {
    let result = SubmitSkillUpdateTool
        .execute(json(r#"{"operations": [], "rationale": ""}"#), &tool_context());
    assert!(invalid_message(result).contains("rationale"));
}

#[test]
fn submit_skill_update_rejects_missing_operations() {
    let result = SubmitSkillUpdateTool.execute(json(r#"{"rationale": "test"}"#), &tool_context());
    assert!(invalid_message(result).contains("operations"));
}

#[test]
fn submit_skill_update_rejects_missing_rationale() {
    let result = SubmitSkillUpdateTool.execute(json(r#"{"operations": []}"#), &tool_context());
    assert!(invalid_message(result).contains("rationale"));
}

#[test]
fn submit_knowledge_candidate_returns_submit_action() {
    let tool = SubmitExperienceCandidateTool;
    let sub = tool
        .parse(
            &json(r#"{"title": "shell timeout note", "kind": "knowledge", "content": "shell_stop 默认等待退出"}"#),
            &tool_context(),
        )
        .unwrap();
    let action = tool.check_file_refs(sub, &[]).unwrap();
    assert!(matches!(action, ToolAction::SubmitExperienceCandidate(_)));
}

#[test]
fn submit_skill_candidate_returns_submit_action() {
    let tool = SubmitExperienceCandidateTool;
    let sub = tool
        .parse(
            &json(
                r#"{"title": "build checker", "kind": "skill", "skill_description": "检查项目是否能成功编译",
                    "instructions": "1. 运行 cargo check\n2. 报告结果"}"#,
            ),
            &tool_context(),
        )
        .unwrap();
    let action = tool.check_file_refs(sub, &[]).unwrap();
    assert!(matches!(action, ToolAction::SubmitExperienceCandidate(_)));
}

#[test]
fn submit_experience_candidate_rejects_missing_title() {
    let result = SubmitExperienceCandidateTool.parse(&json("{}"), &tool_context());
    assert!(result.is_err());
}

#[test]
fn submit_knowledge_rejects_empty_content() {
    let result = SubmitExperienceCandidateTool.parse(
        &json(r#"{"title": "empty knowledge", "kind": "knowledge", "content": ""}"#),
        &tool_context(),
    );
    let msg = invalid_message(result);
    assert!(msg.contains("content"), "expected content-related error, got: {msg}");
}

#[test]
fn skill_candidate_with_missing_files_is_refused() {
    let tool = SubmitExperienceCandidateTool;
    let sub = tool
        .parse(
            &json(
                r#"{"title": "t", "kind": "skill", "skill_description": "d", "instructions": "i",
                    "file_refs": ["a.md", "b.md", "c.md"]}"#,
            ),
            &tool_context(),
        )
        .unwrap();
    assert_eq!(sub.kind, ExperienceKindHint::Skill);
    assert_eq!(sub.task_id, 11);
    let result = tool.check_file_refs(sub, &[false, true, false]);
    assert_eq!(
        invalid_message(result),
        "skill file_refs references non-existent files: a.md, c.md"
    );
}

#[test]
fn experience_candidate_from_submission_keeps_kind_payload() {
    let tool = SubmitExperienceCandidateTool;
    let sub = tool
        .parse(
            &json(r#"{"title": "note", "kind": "knowledge", "content": "remember this"}"#),
            &tool_context(),
        )
        .unwrap();
    let c = ExperienceCandidate::from_submission(sub, 7, 8);
    assert_eq!(c.producer_agent_id, 7);
    assert_eq!(c.producer_task_id, 8);
    assert_eq!(c.status, ExperienceCandidateStatus::Submitted);
    match c.payload {
        ExperienceCandidatePayload::Knowledge { content } => assert_eq!(content, "remember this"),
        other => panic!("expected knowledge, got {:?}", other),
    }
}

#[test]
fn list_experience_candidates_summarizes_long_knowledge() {
    let long: String = "x".repeat(250);
    let candidates = vec![
        ExperienceCandidate {
            candidate_id: 1,
            producer_task_id: 2,
            producer_agent_id: 3,
            title: "long".to_string(),
            kind_hint: ExperienceKindHint::Knowledge,
            payload: ExperienceCandidatePayload::Knowledge { content: long },
            status: ExperienceCandidateStatus::Submitted,
            governing_agent_id: None,
        },
        ExperienceCandidate {
            candidate_id: 4,
            producer_task_id: 2,
            producer_agent_id: 3,
            title: "skill".to_string(),
            kind_hint: ExperienceKindHint::Skill,
            payload: ExperienceCandidatePayload::Skill {
                name: "n".to_string(),
                description: "what it does".to_string(),
                instructions: "i".to_string(),
                file_refs: vec![],
            },
            status: ExperienceCandidateStatus::Submitted,
            governing_agent_id: None,
        },
    ];
    let list = ListExperienceCandidatesTool.run(Some(&candidates), Some(2)).unwrap();
    assert_eq!(list.count, 2);
    assert_eq!(list.items[0].summary, format!("{}…", "x".repeat(200)));
    assert_eq!(list.items[0].kind, "Knowledge");
    assert_eq!(list.items[0].status, "Submitted");
    assert_eq!(list.items[1].summary, "what it does");
    assert_eq!(list.items[1].kind, "Skill");

    match ListExperienceCandidatesTool.run(None, Some(2)) {
        Err(ToolError::InternalState(m)) => assert_eq!(m, "experience candidates snapshot missing"),
        other => panic!("unexpected {:?}", other),
    }
    match ListExperienceCandidatesTool.run(Some(&candidates), None) {
        Err(ToolError::InternalState(m)) => assert_eq!(m, "current_task_id missing"),
        other => panic!("unexpected {:?}", other),
    }
}

// ---- skill files ----

fn skill_dir(dir: Option<&str>) -> Option<String> {
    dir.map(|d| d.to_string())
}

#[test]
fn write_skill_file_rejects_path_traversal() {
    let result = WriteSkillFileTool
        .run(&json(r#"{"path": "../escape.md", "content": "evil"}"#), &skill_dir(Some("/tmp/skill")));
    assert!(invalid_message(result).contains(".."));
}

#[test]
fn write_skill_file_rejects_missing_skill_dir() {
    let result =
        WriteSkillFileTool.run(&json(r#"{"path": "test.md", "content": "hello"}"#), &skill_dir(None));
    assert!(invalid_message(result).contains("skill directory"));
}

#[test]
fn write_skill_file_produces_write_effect() {
    let result = WriteSkillFileTool.run(
        &json(r##"{"path": "download.md", "content": "# Download\n\nSteps..."}"##),
        &skill_dir(Some("/tmp/skill")),
    );
    match result.unwrap() {
        ToolEffect::WriteSkillFile { sandbox_dir, path, content } => {
            assert_eq!(sandbox_dir, "/tmp/skill");
            assert_eq!(path, "download.md");
            assert!(content.contains("Download"));
        }
        other => panic!("expected WriteSkillFile effect, got {:?}", other),
    }
}

#[test]
fn write_skill_file_rejects_disallowed_suffix() {
    let result = WriteSkillFileTool.run(
        &json(r#"{"path": "evil.rs", "content": "fn main() {}"}"#),
        &skill_dir(Some("/tmp/skill")),
    );
    let msg = invalid_message(result);
    assert!(msg.contains("suffix"), "expected suffix error, got: {}", msg);
}

#[test]
fn run_async_rejects_path_traversal() {
    let result = ReadSkillFileTool
        .run(&json(r#"{"path": "../../etc/passwd"}"#), &skill_dir(Some("/tmp/skill")));
    assert!(result.is_err(), "path traversal should be rejected");
}

#[test]
fn run_async_rejects_missing_path() {
    let result = ReadSkillFileTool.run(&json("{}"), &skill_dir(Some("/tmp/skill")));
    assert!(result.is_err());
}

#[test]
fn run_async_rejects_no_skill_dir_in_context() {
    let result = ReadSkillFileTool.run(&json(r#"{"path": "download.md"}"#), &skill_dir(None));
    assert!(result.is_err(), "should reject when no skill_dir in context");
}

#[test]
fn execute_returns_internal_state_async_only() {
    let result = ReadSkillFileTool.execute(&json(r#"{"path": "download.md"}"#), &tool_context());
    assert!(matches!(result, Err(ToolError::InternalState(_))));
}

#[test]
fn read_skill_file_names_the_file_under_the_directory() {
    let req = ReadSkillFileTool
        .run(&json(r#"{"path": "scripts/run.py"}"#), &skill_dir(Some("/tmp/skill")))
        .unwrap();
    assert_eq!(req.path, "scripts/run.py");
    assert_eq!(req.full_path, "/tmp/skill/scripts/run.py");
    let absolute = ReadSkillFileTool.run(&json(r#"{"path": "/etc/x.md"}"#), &skill_dir(Some("/tmp/skill")));
    assert_eq!(invalid_message(absolute), "invalid path: absolute path not allowed: /etc/x.md");
}

// ---- shell ----

#[test]
fn shell_exec_max_duration_uses_input_timeout_plus_margin() {
    let input = json(r#"{"command": "echo ok", "timeout_secs": 10}"#);
    assert_eq!(ShellExecTool.max_duration_secs(&input, 300), 40);
}

#[test]
fn shell_exec_max_duration_falls_back_to_global_default() {
    let input = json(r#"{"command": "echo ok"}"#);
    assert_eq!(ShellExecTool.max_duration_secs(&input, 300), 330);
}

#[test]
fn shell_exec_prepares_request() {
    let input = json(r#"{"command": "ls", "tail_lines": 9999, "env": {"A": "1", "B": "2"}}"#);
    let req = ShellExecTool.prepare(&input, 60, true).unwrap();
    assert_eq!(req.command, "ls");
    assert_eq!(req.tail_lines, 500);
    assert_eq!(req.timeout_secs, Some(60));
    assert_eq!(req.env, vec![("A".to_string(), "1".to_string()), ("B".to_string(), "2".to_string())]);
    match ShellExecTool.prepare(&input, 60, false) {
        Err(ToolError::InternalState(m)) => {
            assert_eq!(m, "NativeProcessBackend not available in OwnedToolContext")
        }
        other => panic!("unexpected {:?}", other),
    }
    let bad_env = json(r#"{"command": "ls", "env": {"A": 1}}"#);
    assert_eq!(invalid_message(ShellExecTool.prepare(&bad_env, 60, true)), "'env.A' must be a string");
    assert!(matches!(ShellExecTool.execute(&input, &tool_context()), Err(ToolError::InternalState(_))));
}

#[test]
fn shell_start_reads_command_cwd_and_env() {
    let input = json(r#"{"command": "top", "cwd": "/tmp", "env": {"X": "y"}}"#);
    match ShellStartTool.execute(&input, &tool_context()).unwrap() {
        ToolAction::StartSession(req) => {
            assert_eq!(req.command, "top");
            assert_eq!(req.cwd.as_deref(), Some("/tmp"));
            assert_eq!(req.env, vec![("X".to_string(), "y".to_string())]);
            assert_eq!(req.tail_lines, 50);
            assert_eq!(req.owner_task_id, 11);
            assert_eq!(req.owner_agent_id, 22);
        }
        other => panic!("unexpected {:?}", other),
    }
    let not_object = json(r#"{"command": "top", "env": []}"#);
    assert_eq!(invalid_message(ShellStartTool.execute(&not_object, &tool_context())), "'env' must be an object");
    assert_eq!(invalid_message(ShellStartTool.execute(&json("{}"), &tool_context())), "missing 'command'");
}

#[test]
fn shell_session_tools_read_session_ids() {
    let ctx = tool_context();
    let read = json(&format!(r#"{{"session_id": "{}", "tail_lines": 9999}}"#, SAMPLE_ID));
    match ShellReadTool.execute(&read, &ctx).unwrap() {
        ToolAction::ReadSession(req) => {
            assert_eq!(req.handle_id, SAMPLE_ID_VALUE);
            assert_eq!(req.tail_lines, 500);
        }
        other => panic!("unexpected {:?}", other),
    }
    assert_eq!(invalid_message(ShellReadTool.execute(&json("{}"), &ctx)), "missing 'session_id'");
    assert_eq!(
        invalid_message(ShellStopTool.execute(&json(r#"{"session_id": "zz"}"#), &ctx)),
        "invalid 'session_id'"
    );
    let input = json(&format!(r#"{{"session_id": "{}", "input": "ls"}}"#, SAMPLE_ID));
    match ShellInputTool.execute(&input, &ctx).unwrap() {
        ToolAction::InputSession(req) => {
            assert_eq!(req.input, "ls");
            assert!(req.append_newline);
        }
        other => panic!("unexpected {:?}", other),
    }
    assert!(matches!(ShellListTool.execute(&json("{}"), &ctx).unwrap(), ToolAction::ListSessions));
    assert!(matches!(
        ShellStopTool.execute(&json(&format!(r#"{{"session_id": "{}"}}"#, SAMPLE_ID)), &ctx).unwrap(),
        ToolAction::StopSession(SAMPLE_ID_VALUE)
    ));
}

#[test]
fn shell_send_input_and_read_output() {
    let ctx = tool_context();
    let missing_input = json(r#"{"handle_id": "zz"}"#);
    assert_eq!(invalid_message(ShellSendInputTool.execute(&missing_input, &ctx)), "missing 'input'");
    let bad = json(r#"{"handle_id": "zz", "input": "q"}"#);
    assert_eq!(invalid_message(ShellSendInputTool.execute(&bad, &ctx)), "invalid 'handle_id'");
    let good = json(&format!(
        r#"{{"handle_id": "{}", "input": "q", "wait_for_output": true, "wait_timeout_secs": 3}}"#,
        SAMPLE_ID
    ));
    match ShellSendInputTool.execute(&good, &ctx).unwrap() {
        ToolAction::SendSessionInput(req) => {
            assert!(req.wait_for_output);
            assert_eq!(req.wait_timeout_secs, Some(3));
            assert_eq!(req.tail_lines, 50);
        }
        other => panic!("unexpected {:?}", other),
    }
    let out = json(&format!(r#"{{"handle_id": "{}", "cursor": "c1", "tail_lines": 7}}"#, SAMPLE_ID));
    match ShellReadOutputTool.execute(&out, &ctx).unwrap() {
        ToolAction::ReadSessionOutput(req) => {
            assert_eq!(req.cursor.as_deref(), Some("c1"));
            assert_eq!(req.tail_lines, 7);
        }
        other => panic!("unexpected {:?}", other),
    }
    assert_eq!(ShellSendInputTool.name(), "shell.send_input");
    assert_eq!(ShellReadOutputTool.kind(), ToolActionKind::Sync);
}

// ---- scheduled tasks ----

fn future_local_iso() -> String {
    let future = chrono::Local::now() + chrono::Duration::days(1);
    future.format("%Y-%m-%dT%H:%M:%S").to_string()
}

fn future_rfc3339() -> String {
    let future = chrono::Local::now() + chrono::Duration::days(1);
    future.to_rfc3339()
}

fn inherited_channel() -> ChannelId {
    ChannelId { frontend: FrontendKind::Telegram, user_id: "inherited-tg".to_string(), thread_id: None }
}

fn schedule(input: &str, channel: Option<ChannelId>) -> Result<ToolEffect, ToolError> {
    ScheduleTaskTool.run(&json(input), &channel)
}

#[test]
fn execute_returns_internal_state_defense() {
    let result = ScheduleTaskTool.execute(&json("{}"), &tool_context());
    assert!(matches!(result, Err(ToolError::InternalState(_))));
}

#[test]
fn missing_content_returns_error() {
    let result = schedule(&format!(r#"{{"schedule": "once:{}"}}"#, future_local_iso()), None);
    assert!(invalid_message(result).contains("content"));
}

#[test]
fn missing_schedule_returns_error() {
    let result = schedule(r#"{"content": "do something"}"#, None);
    assert!(invalid_message(result).contains("schedule"));
}

#[test]
fn invalid_schedule_prefix_returns_error() {
    let result = schedule(r#"{"content": "do something", "schedule": "every 5 minutes"}"#, None);
    let msg = invalid_message(result);
    assert!(msg.contains("once:") || msg.contains("cron:"));
}

#[test]
fn once_in_past_returns_error() {
    let past = chrono::Local::now() - chrono::Duration::days(1);
    let past_str = past.format("%Y-%m-%dT%H:%M:%S").to_string();
    let result = schedule(&format!(r#"{{"content": "do something", "schedule": "once:{}"}}"#, past_str), None);
    assert!(invalid_message(result).contains("past"));
}

#[test]
fn once_naive_local_time_with_inherited_channel_succeeds() {
    let result = schedule(
        &format!(r#"{{"content": "send report", "schedule": "once:{}"}}"#, future_local_iso()),
        Some(inherited_channel()),
    );
    match result.unwrap() {
        ToolEffect::ScheduleTask { content, schedule, output_channel, kind, .. } => {
            assert_eq!(content, "send report");
            assert!(matches!(schedule, ScheduleSpec::Once(_)));
            let channel = output_channel.expect("inherited");
            assert_eq!(channel.frontend, FrontendKind::Telegram);
            assert_eq!(channel.user_id, "inherited-tg");
            assert!(kind.starts_with("scheduled:"));
        }
        other => panic!("expected ScheduleTask effect, got {:?}", other),
    }
}

#[test]
fn once_rfc3339_with_inherited_channel_succeeds() {
    let inherited =
        ChannelId { frontend: FrontendKind::Telegram, user_id: "tg-123".to_string(), thread_id: None };
    let result = schedule(
        &format!(r#"{{"content": "send report", "schedule": "once:{}"}}"#, future_rfc3339()),
        Some(inherited),
    );
    match result.unwrap() {
        ToolEffect::ScheduleTask { output_channel, schedule, .. } => {
            assert_eq!(output_channel.expect("inherited").user_id, "tg-123");
            assert!(matches!(schedule, ScheduleSpec::Once(_)));
        }
        other => panic!("expected ScheduleTask effect, got {:?}", other),
    }
}

#[test]
fn cron_schedule_succeeds() {
    let result = schedule(
        r#"{"content": "daily standup", "schedule": "cron:0 9 * * 1-5", "output_channel": "tui", "target": "user-1"}"#,
        None,
    );
    match result.unwrap() {
        ToolEffect::ScheduleTask { content, schedule, output_channel, .. } => {
            assert_eq!(content, "daily standup");
            match schedule {
                ScheduleSpec::Cron { source, .. } => assert_eq!(source, "0 0 9 * * 1-5 *"),
                other => panic!("expected cron, got {:?}", other),
            }
            let channel = output_channel.expect("output_channel should be set");
            assert_eq!(channel.frontend, FrontendKind::Tui);
            assert_eq!(channel.user_id, "user-1");
        }
        other => panic!("expected ScheduleTask effect, got {:?}", other),
    }
}

#[test]
fn explicit_output_channel_requires_target() {
    let result = schedule(
        &format!(r#"{{"content": "do something", "schedule": "once:{}", "output_channel": "tui"}}"#, future_local_iso()),
        None,
    );
    assert!(invalid_message(result).contains("target"));
}

#[test]
fn unknown_output_channel_returns_error() {
    let result = schedule(
        &format!(
            r#"{{"content": "do something", "schedule": "once:{}", "output_channel": "irc", "target": "u1"}}"#,
            future_local_iso()
        ),
        None,
    );
    assert!(invalid_message(result).contains("irc"));
}

#[test]
fn no_output_channel_and_no_inherited_returns_error() {
    let result = schedule(
        &format!(r#"{{"content": "do something", "schedule": "once:{}"}}"#, future_local_iso()),
        None,
    );
    assert!(invalid_message(result).contains("output_channel"));
}

#[test]
fn explicit_output_channel_overrides_inherited() {
    let result = schedule(
        &format!(
            r#"{{"content": "do something", "schedule": "once:{}", "output_channel": "qq", "target": "qq-user"}}"#,
            future_local_iso()
        ),
        Some(inherited_channel()),
    );
    match result.unwrap() {
        ToolEffect::ScheduleTask { output_channel, .. } => {
            let channel = output_channel.expect("output_channel should be set");
            assert_eq!(channel.frontend, FrontendKind::QQ);
            assert_eq!(channel.user_id, "qq-user");
        }
        other => panic!("expected ScheduleTask effect, got {:?}", other),
    }
}

#[test]
fn all_frontend_kinds_accepted() {
    for (name, expected) in [
        ("tui", FrontendKind::Tui),
        ("telegram", FrontendKind::Telegram),
        ("web", FrontendKind::Web),
        ("qq", FrontendKind::QQ),
        ("feishu", FrontendKind::Feishu),
    ] {
        let result = schedule(
            &format!(
                r#"{{"content": "x", "schedule": "once:{}", "output_channel": "{}", "target": "u"}}"#,
                future_local_iso(),
                name
            ),
            None,
        );
        match result {
            Ok(ToolEffect::ScheduleTask { output_channel, .. }) => {
                assert_eq!(output_channel.expect("set").frontend, expected, "frontend {} mismatch", name);
            }
            other => panic!("frontend {} should be accepted, got {:?}", name, other),
        }
    }
}

#[test]
fn kind_field_starts_with_scheduled_prefix() {
    let result = schedule(
        &format!(
            r#"{{"content": "x", "schedule": "once:{}", "output_channel": "tui", "target": "u"}}"#,
            future_local_iso()
        ),
        None,
    );
    match result.unwrap() {
        ToolEffect::ScheduleTask { kind, id, .. } => {
            assert!(kind.starts_with("scheduled:"));
            let suffix = kind.strip_prefix("scheduled:").unwrap();
            let parsed = uuid::Uuid::parse_str(suffix).expect("kind suffix should be a UUID");
            assert_eq!(parsed.as_u128(), id);
        }
        other => panic!("expected ScheduleTask effect, got {:?}", other),
    }
}

#[test]
fn invalid_cron_returns_error() {
    let result = schedule(
        r#"{"content": "x", "schedule": "cron:not-a-cron", "output_channel": "tui", "target": "u"}"#,
        None,
    );
    assert!(invalid_message(result).contains("cron"));
}

#[test]
fn delete_scheduled_task_needs_a_kind() {
    match DeleteScheduledTaskTool.run(&json(r#"{"kind": "scheduled:abc"}"#)).unwrap() {
        ToolEffect::DeleteScheduledTask { kind } => assert_eq!(kind, "scheduled:abc"),
        other => panic!("unexpected {:?}", other),
    }
    let empty = DeleteScheduledTaskTool.run(&json(r#"{"kind": ""}"#));
    assert_eq!(invalid_message(empty), "missing required parameter: kind");
    let missing = DeleteScheduledTaskTool.run(&json("{}"));
    assert_eq!(invalid_message(missing), "missing required parameter: kind");
}

#[test]
fn list_scheduled_tasks_joins_both_ledgers() {
    let tasks = vec![
        DynamicTaskRecord { kind: "a".to_string(), created_at: UtcInstant { secs: 0, nanos: 0 }, next_fire: None },
        DynamicTaskRecord { kind: "ghost".to_string(), created_at: UtcInstant { secs: 0, nanos: 0 }, next_fire: None },
        DynamicTaskRecord {
            kind: "b".to_string(),
            created_at: UtcInstant { secs: 86400, nanos: 0 },
            next_fire: Some(UtcInstant { secs: 90000, nanos: 0 }),
        },
    ];
    let registry = vec![
        RegisteredTask { kind: "b".to_string(), content: "bee".to_string(), output_channel: None, is_once: false },
        RegisteredTask { kind: "a".to_string(), content: "ay".to_string(), output_channel: None, is_once: true },
    ];
    let list = ListScheduledTasksTool.run(Some(&tasks), Some(&registry)).unwrap();
    assert_eq!(list.count, 2);
    assert_eq!(list.tasks[0].kind, "a");
    assert_eq!(list.tasks[0].content, "ay");
    assert!(list.tasks[0].is_once);
    assert_eq!(list.tasks[0].created_at, "1970-01-01T00:00:00+00:00");
    assert!(list.tasks[0].next_fire_time.is_none());
    assert_eq!(list.tasks[1].kind, "b");
    assert_eq!(list.tasks[1].next_fire_time.as_deref(), Some("1970-01-02T01:00:00+00:00"));
    match ListScheduledTasksTool.run(None, Some(&registry)) {
        Err(ToolError::InternalState(m)) => assert_eq!(m, "scheduler snapshot missing"),
        other => panic!("unexpected {:?}", other),
    }
    match ListScheduledTasksTool.run(Some(&tasks), None) {
        Err(ToolError::InternalState(m)) => assert_eq!(m, "registry snapshot missing"),
        other => panic!("unexpected {:?}", other),
    }
}
