use harness::scheduling::UtcInstant;
use harness::sessions::{
    finished_record, started_record, stdin_payload, stdin_unavailable_error, ExecOutcome,
    SessionStatus, SessionTable,
};
use harness::shell_output::SessionOutputSnapshot;
use harness::tools::SessionStartRequest;

fn request(task: u128, command: &str) -> SessionStartRequest {
    SessionStartRequest {
        command: command.to_string(),
        session_name: Some("build".to_string()),
        cwd: None,
        env: vec![],
        timeout_secs: Some(5),
        tail_lines: 20,
        owner_task_id: task,
        owner_agent_id: 3,
    }
}

fn at(secs: i64) -> UtcInstant {
    UtcInstant { secs, nanos: 0 }
}

fn snapshot(text: &str, lines: usize) -> SessionOutputSnapshot {
    SessionOutputSnapshot { output: text.to_string(), returned_lines: lines, truncated: false }
}

fn table_with_two_tasks() -> SessionTable {
    let mut table = SessionTable::new();
    table.upsert(started_record(request(1, "sleep 10"), 100, at(0)));
    table.upsert(started_record(request(2, "tail -f log"), 200, at(1)));
    table.upsert(started_record(request(1, "make"), 300, at(2)));
    table
}

#[test]
fn started_sessions_are_running_and_empty() {
    let r = started_record(request(1, "cat"), 7, at(5));
    assert_eq!(r.handle_id, 7);
    assert_eq!(r.status, SessionStatus::Running);
    assert_eq!(r.command, "cat");
    assert_eq!(r.session_name.as_deref(), Some("build"));
    assert_eq!(r.output.output, "");
    assert_eq!(r.output.returned_lines, 0);
    assert!(r.finished_at.is_none());
    assert_eq!(r.owner_task_id, 1);
    assert_eq!(r.owner_agent_id, 3);
}

#[test]
fn finished_exec_status_follows_exit_and_deadline() {
    let ok = finished_record(
        request(1, "true"),
        1,
        ExecOutcome::Exited { success: true, code: Some(0) },
        at(0),
        at(1),
        snapshot("", 0),
    );
    assert_eq!(ok.status, SessionStatus::Completed);
    assert_eq!(ok.exit_code, Some(0));
    assert!(!ok.timed_out);
    assert_eq!(ok.finished_at, Some(at(1)));

    let bad = finished_record(
        request(1, "false"),
        2,
        ExecOutcome::Exited { success: false, code: Some(1) },
        at(0),
        at(1),
        snapshot("", 0),
    );
    assert_eq!(bad.status, SessionStatus::ExitedWithError);
    assert_eq!(bad.exit_code, Some(1));

    let late = finished_record(request(1, "sleep 99"), 3, ExecOutcome::TimedOut, at(0), at(5), snapshot("x", 1));
    assert_eq!(late.status, SessionStatus::Stopped);
    assert_eq!(late.exit_code, None);
    assert!(late.timed_out);
    assert_eq!(late.output.output, "x");
}

#[test]
fn selections_keep_table_order() {
    let mut table = table_with_two_tasks();
    assert_eq!(table.task_session_ids(1), vec![100, 300]);
    assert_eq!(table.active_session_ids_for_task(1), vec![100, 300]);
    assert_eq!(table.active_session_ids(), vec![100, 200, 300]);
    table.record_exit(100, true, Some(0), at(9), snapshot("done", 1)).unwrap();
    assert_eq!(table.task_session_ids(1), vec![100, 300]);
    assert_eq!(table.active_session_ids_for_task(1), vec![300]);
    assert_eq!(table.active_session_ids(), vec![200, 300]);
    assert_eq!(table.sessions[0].status, SessionStatus::Completed);
    assert_eq!(table.sessions[0].output.output, "done");
}

#[test]
fn ownership_is_checked_with_texts() {
    let table = table_with_two_tasks();
    assert!(table.check_owner(1, 300).is_ok());
    let foreign = table.check_owner(1, 200).unwrap_err();
    assert_eq!(
        foreign,
        format!("session {} does not belong to task {}", uuid::Uuid::from_u128(200), uuid::Uuid::from_u128(1))
    );
    let missing = table.check_owner(1, 999).unwrap_err();
    assert_eq!(missing, format!("session {} not found", uuid::Uuid::from_u128(999)));
}

#[test]
fn upsert_replaces_by_handle_id() {
    let mut table = table_with_two_tasks();
    table.upsert(finished_record(
        request(2, "tail -f log"),
        200,
        ExecOutcome::Exited { success: false, code: None },
        at(1),
        at(4),
        snapshot("", 0),
    ));
    assert_eq!(table.sessions.len(), 3);
    assert_eq!(table.sessions[1].status, SessionStatus::ExitedWithError);
}

#[test]
fn stopping_and_exiting_unknown_sessions_fail() {
    let mut table = table_with_two_tasks();
    table.mark_stopped(300, at(7), snapshot("bye", 1)).unwrap();
    assert_eq!(table.sessions[2].status, SessionStatus::Stopped);
    assert_eq!(table.sessions[2].finished_at, Some(at(7)));
    assert!(table.mark_stopped(5, at(7), snapshot("", 0)).is_err());
    assert!(table.record_exit(5, true, None, at(7), snapshot("", 0)).is_err());
    assert_eq!(table.sessions.len(), 3);
}

#[test]
fn stdin_payload_and_unavailable_text() {
    assert_eq!(stdin_payload("ls", true), "ls\n");
    assert_eq!(stdin_payload("ls", false), "ls");
    assert_eq!(
        stdin_unavailable_error(200, SessionStatus::Completed),
        format!(
            "session {} is not accepting input because stdin is unavailable (status: Completed)",
            uuid::Uuid::from_u128(200)
        )
    );
}
