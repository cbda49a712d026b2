use harness::domain::ToolError;
use harness::json::{JsonNumber, JsonValue};
use harness::knowledge::{
    KnowledgeSearchTool, KnowledgeValidationStatus, SharedKnowledgeBase, SharedKnowledgeEntry,
};
use harness::skills::{ReadSkillFileTool, SubmitSkillUpdateTool};
use harness::tools::{ToolAction, ToolContext};

fn model(v: &serde_json::Value) -> JsonValue {
    match v {
        serde_json::Value::Null => JsonValue::Null,
        serde_json::Value::Bool(b) => JsonValue::Bool(*b),
        serde_json::Value::Number(n) => {
            JsonValue::Number(JsonNumber { as_u64: n.as_u64(), as_i64: n.as_i64() })
        }
        serde_json::Value::String(s) => JsonValue::Str(s.clone()),
        serde_json::Value::Array(a) => JsonValue::Array(a.iter().map(model).collect()),
        serde_json::Value::Object(o) => {
            JsonValue::Object(o.iter().map(|(k, v)| (k.clone(), model(v))).collect())
        }
    }
}

fn json(text: &str) -> JsonValue {
    model(&serde_json::from_str::<serde_json::Value>(text).expect("test JSON"))
}

fn ctx() -> ToolContext {
    ToolContext {
        default_wait_tasks_timeout_secs: 300,
        shell_default_tail_lines: 50,
        shell_max_tail_lines: 500,
        shell_default_exec_timeout_secs: 60,
        shell_default_stop_timeout_secs: 5,
        tool_inflight_timeout_secs: 300,
        current_task_id: 0,
        current_agent_id: 0,
        current_origin_channel: None,
        current_skill_dir: None,
    }
}

fn approved(text: &str) -> SharedKnowledgeEntry {
    SharedKnowledgeEntry {
        content: text.to_string(),
        validation_status: KnowledgeValidationStatus::Approved,
    }
}

fn test_knowledge() -> SharedKnowledgeBase {
    let mut knowledge = SharedKnowledgeBase::new();
    knowledge.entries.push(approved("The project uses Rust and Bevy framework"));
    knowledge.entries.push(approved("The system follows ECS architecture"));
    knowledge
}

fn field<'a>(v: &'a JsonValue, key: &str) -> &'a JsonValue {
    match v {
        JsonValue::Object(fields) => &fields.iter().find(|(k, _)| k == key).expect("field").1,
        other => panic!("expected object, got {:?}", other),
    }
}

fn count(action: ToolAction) -> u64 {
    match action {
        ToolAction::Direct(value) => match field(&value, "count") {
            JsonValue::Number(n) => n.as_u64.unwrap(),
            other => panic!("expected number, got {:?}", other),
        },
        other => panic!("expected Direct action, got {:?}", other),
    }
}

fn search_runs(knowledge: &SharedKnowledgeBase) {
    let executor = KnowledgeSearchTool;
    let result = executor.execute(&json(r#"{"query": "rust"}"#), knowledge, &ctx());
    assert!(result.is_ok());
    assert_eq!(count(result.unwrap()), 1);
    let result = executor.execute(&json(r#"{"query": "bevy"}"#), knowledge, &ctx());
    assert!(result.is_ok());
    let result = executor.execute(&json(r#"{"query": "python"}"#), knowledge, &ctx());
    assert!(result.is_ok());
    assert_eq!(count(result.unwrap()), 0);
}

#[test]
fn tool_executor_knowledge_search() {
    search_runs(&test_knowledge());
}

#[test]
fn knowledge_search_executor_knowledge_search() {
    search_runs(&test_knowledge());
}

fn missing_query_is_refused() {
    let knowledge = SharedKnowledgeBase::new();
    let result = KnowledgeSearchTool.execute(&json(r#"{"limit": 5}"#), &knowledge, &ctx());
    assert!(result.is_err());
    assert!(matches!(result.unwrap_err(), ToolError::InvalidInput(_)));
}

#[test]
fn tool_executor_knowledge_search_missing_query() {
    missing_query_is_refused();
}

#[test]
fn knowledge_search_executor_knowledge_search_missing_query() {
    missing_query_is_refused();
}

#[test]
fn knowledge_search_ignores_non_approved_entries() {
    let mut knowledge = SharedKnowledgeBase::new();
    knowledge.entries.push(SharedKnowledgeEntry {
        content: "Unreviewed shell note".to_string(),
        validation_status: KnowledgeValidationStatus::Candidate,
    });
    let result = KnowledgeSearchTool.execute(&json(r#"{"query": "shell"}"#), &knowledge, &ctx()).unwrap();
    assert_eq!(count(result), 0);
}

#[test]
fn knowledge_search_respects_limit_and_order() {
    let mut knowledge = SharedKnowledgeBase::new();
    for text in ["Rust one", "rust two", "RUST three", "no match"] {
        knowledge.entries.push(approved(text));
    }
    let result = KnowledgeSearchTool
        .execute(&json(r#"{"query": "Rust", "limit": 2}"#), &knowledge, &ctx())
        .unwrap();
    match result {
        ToolAction::Direct(value) => {
            match field(&value, "results") {
                JsonValue::Array(items) => {
                    assert_eq!(items.len(), 2);
                    assert!(matches!(&items[0], JsonValue::Str(s) if s == "Rust one"));
                    assert!(matches!(&items[1], JsonValue::Str(s) if s == "rust two"));
                }
                other => panic!("expected array, got {:?}", other),
            }
            assert!(matches!(field(&value, "query"), JsonValue::Str(q) if q == "Rust"));
        }
        other => panic!("expected Direct action, got {:?}", other),
    }
    let all = KnowledgeSearchTool.execute(&json(r#"{"query": "rust"}"#), &knowledge, &ctx()).unwrap();
    assert_eq!(count(all), 3);
}

#[test]
fn run_async_rejects_disallowed_suffix() {
    let result = ReadSkillFileTool.run(&json(r#"{"path": "evil.rs"}"#), &Some("/skills/demo".to_string()));
    assert!(result.is_err(), ".rs suffix should be rejected");
}

#[test]
fn submit_skill_update_rejects_invalid_operations() {
    let result = SubmitSkillUpdateTool.execute(
        json(r#"{"operations": [{"action": "unknown_action"}], "rationale": "test"}"#),
        &ctx(),
    );
    assert!(matches!(
        result,
        Err(ToolError::InvalidInput(msg)) if msg.contains("operations")
    ));
}

#[test]
fn submit_skill_update_reads_each_operation() {
    let result = SubmitSkillUpdateTool.execute(
        json(
            r###"{"operations": [
                {"action": "add_section", "section": "## Tips", "after": "## Usage", "content": "be brief"},
                {"action": "remove_section", "section": "## Old"},
                {"action": "replace_frontmatter", "field": "self_updatable", "value": "false"}
            ], "rationale": "tidy"}"###,
        ),
        &ctx(),
    );
    match result {
        Ok(ToolAction::SubmitSkillUpdate { operations, rationale }) => {
            assert_eq!(operations.len(), 3);
            assert_eq!(rationale, "tidy");
            assert!(matches!(
                &operations[0],
                harness::skills::SkillUpdateOperation::AddSection { section, after: Some(a), content }
                    if section == "## Tips" && a == "## Usage" && content == "be brief"
            ));
            assert!(matches!(
                &operations[2],
                harness::skills::SkillUpdateOperation::ReplaceFrontmatter {
                    field: harness::skills::FrontmatterField::SelfUpdatable,
                    value
                } if value == "false"
            ));
        }
        other => panic!("unexpected {:?}", other),
    }
    let bad_field = SubmitSkillUpdateTool.execute(
        json(r#"{"operations": [{"action": "replace_frontmatter", "field": "owner", "value": "x"}], "rationale": "r"}"#),
        &ctx(),
    );
    assert!(matches!(bad_field, Err(ToolError::InvalidInput(m)) if m == "invalid operations: unknown field: owner"));
    let missing = SubmitSkillUpdateTool.execute(
        json(r###"{"operations": [{"action": "replace_section", "section": "## A"}], "rationale": "r"}"###),
        &ctx(),
    );
    assert!(matches!(missing, Err(ToolError::InvalidInput(m)) if m == "invalid operations: missing content"));
}
