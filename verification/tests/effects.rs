use harness::domain::{ChannelId, FrontendKind};
use harness::effects::{commit_tool_effects_system, EffectReport, EffectStep, SchedulerLedgers, ToolEffectPending};
use harness::scheduling::{RegisteredTask, ScheduleSpec, ToolEffect, UtcInstant};

fn channel() -> ChannelId {
    ChannelId { frontend: FrontendKind::Tui, user_id: "default".to_string(), thread_id: None }
}

fn once_at(secs: i64) -> ScheduleSpec {
    ScheduleSpec::Once(UtcInstant { secs, nanos: 0 })
}

fn schedule(ledgers: &mut SchedulerLedgers, id: u128, kind: &str, content: &str) -> EffectReport {
    ledgers.apply_schedule(
        id,
        kind.to_string(),
        content.to_string(),
        once_at(1_767_225_600),
        Some(channel()),
        UtcInstant { secs: 1_767_000_000, nanos: 0 },
        Some(UtcInstant { secs: 1_767_225_600, nanos: 0 }),
    )
}

#[test]
fn schedule_then_delete_reports_existed_and_clears_both_ledgers() {
    let mut ledgers = SchedulerLedgers::new();
    let report = schedule(&mut ledgers, 7, "scheduled:a", "water the plants");
    match report {
        EffectReport::Scheduled { schedule_id, kind, next_trigger } => {
            assert_eq!(schedule_id, uuid::Uuid::from_u128(7).to_string());
            assert_eq!(kind, "scheduled:a");
            assert_eq!(next_trigger.as_deref(), Some("2026-01-01T00:00:00+00:00"));
        }
        other => panic!("unexpected {:?}", other),
    }
    assert_eq!(ledgers.tasks.len(), 1);
    assert_eq!(ledgers.tasks[0].created_at, UtcInstant { secs: 1_767_000_000, nanos: 0 });
    assert_eq!(ledgers.registry.len(), 1);
    assert!(ledgers.registry[0].is_once);
    assert_eq!(ledgers.registry[0].content, "water the plants");

    assert!(ledgers.apply_delete("scheduled:a"));
    assert!(ledgers.tasks.is_empty());
    assert!(ledgers.registry.is_empty());
}

#[test]
fn delete_of_unknown_kind_reports_not_existed() {
    let mut ledgers = SchedulerLedgers::new();
    schedule(&mut ledgers, 1, "scheduled:a", "x");
    assert!(!ledgers.apply_delete("scheduled:zzz"));
    assert_eq!(ledgers.tasks.len(), 1);
    assert_eq!(ledgers.registry.len(), 1);
}

#[test]
fn delete_counts_a_kind_held_by_only_one_ledger() {
    let mut ledgers = SchedulerLedgers::new();
    ledgers.registry.push(RegisteredTask {
        kind: "orphan".to_string(),
        content: "c".to_string(),
        output_channel: None,
        is_once: false,
    });
    assert!(ledgers.apply_delete("orphan"));
    assert!(ledgers.registry.is_empty());
}

#[test]
fn delete_removes_every_scheduler_task_of_the_kind_and_keeps_order() {
    let mut ledgers = SchedulerLedgers::new();
    schedule(&mut ledgers, 1, "k1", "first");
    schedule(&mut ledgers, 2, "k2", "second");
    schedule(&mut ledgers, 3, "k1", "third");
    assert_eq!(ledgers.tasks.len(), 3);
    // the registry is keyed by kind: the second "k1" replaced the first
    assert_eq!(ledgers.registry.len(), 2);
    assert_eq!(ledgers.registry[0].kind, "k1");
    assert_eq!(ledgers.registry[0].content, "third");
    assert!(ledgers.apply_delete("k1"));
    assert_eq!(ledgers.tasks.len(), 1);
    assert_eq!(ledgers.tasks[0].id, 2);
    assert_eq!(ledgers.registry.len(), 1);
    assert_eq!(ledgers.registry[0].kind, "k2");
}

#[test]
fn apply_effect_schedules_once_with_its_instant_as_next_trigger() {
    let mut ledgers = SchedulerLedgers::new();
    let step = ledgers.apply_effect(ToolEffect::ScheduleTask {
        id: 42,
        kind: "scheduled:x".to_string(),
        content: "remind me".to_string(),
        schedule: once_at(1_767_225_600),
        output_channel: Some(channel()),
    });
    match step {
        EffectStep::Applied(EffectReport::Scheduled { schedule_id, kind, next_trigger }) => {
            assert_eq!(schedule_id, "00000000-0000-0000-0000-00000000002a");
            assert_eq!(kind, "scheduled:x");
            assert_eq!(next_trigger.as_deref(), Some("2026-01-01T00:00:00+00:00"));
        }
        other => panic!("unexpected {:?}", other),
    }
    assert_eq!(ledgers.tasks.len(), 1);
    assert_eq!(ledgers.registry[0].output_channel.as_ref().unwrap().user_id, "default");
}

#[test]
fn apply_effect_deletes_and_hands_back_file_writes() {
    let mut ledgers = SchedulerLedgers::new();
    schedule(&mut ledgers, 5, "k", "c");
    match ledgers.apply_effect(ToolEffect::DeleteScheduledTask { kind: "k".to_string() }) {
        EffectStep::Applied(EffectReport::Deleted { kind, existed }) => {
            assert_eq!(kind, "k");
            assert!(existed);
        }
        other => panic!("unexpected {:?}", other),
    }
    let step = ledgers.apply_effect(ToolEffect::WriteSkillFile {
        sandbox_dir: "/skills/a".to_string(),
        path: "notes.md".to_string(),
        content: "hi".to_string(),
    });
    match step {
        EffectStep::WriteFile { sandbox_dir, path, content } => {
            assert_eq!(sandbox_dir, "/skills/a");
            assert_eq!(path, "notes.md");
            assert_eq!(content, "hi");
        }
        other => panic!("unexpected {:?}", other),
    }
    assert!(ledgers.tasks.is_empty());
}

#[test]
fn snapshots_copy_both_ledgers_for_the_listing() {
    let mut ledgers = SchedulerLedgers::new();
    schedule(&mut ledgers, 1, "k1", "first");
    schedule(&mut ledgers, 2, "k2", "second");
    let tasks = ledgers.build_scheduler_snapshot();
    assert_eq!(tasks.len(), 2);
    assert_eq!(tasks[0].kind, "k1");
    assert_eq!(tasks[0].created_at, UtcInstant { secs: 1_767_000_000, nanos: 0 });
    assert_eq!(tasks[0].next_fire, Some(UtcInstant { secs: 1_767_225_600, nanos: 0 }));
    let reg = ledgers.build_registry_snapshot();
    assert_eq!(reg.len(), 2);
    assert_eq!(reg[1].kind, "k2");
    assert_eq!(reg[1].content, "second");
    assert!(reg[1].is_once);
    assert_eq!(reg[1].output_channel.as_ref().unwrap().user_id, "default");
    let listed = harness::scheduling::ListScheduledTasksTool.run(Some(&tasks), Some(&reg)).unwrap();
    assert_eq!(listed.count, 2);
    assert_eq!(listed.tasks[1].next_fire_time.as_deref(), Some("2026-01-01T00:00:00+00:00"));
}

#[test]
fn commit_applies_pending_effects_in_order() {
    let mut ledgers = SchedulerLedgers::new();
    let pending = vec![
        ToolEffectPending {
            tool_call_id: "c1".to_string(),
            effect: ToolEffect::ScheduleTask {
                id: 1,
                kind: "k".to_string(),
                content: "c".to_string(),
                schedule: once_at(10),
                output_channel: None,
            },
        },
        ToolEffectPending {
            tool_call_id: "c2".to_string(),
            effect: ToolEffect::DeleteScheduledTask { kind: "k".to_string() },
        },
        ToolEffectPending {
            tool_call_id: "c3".to_string(),
            effect: ToolEffect::DeleteScheduledTask { kind: "k".to_string() },
        },
    ];
    let out = commit_tool_effects_system(&mut ledgers, pending);
    assert_eq!(out.len(), 3);
    assert_eq!(out[0].0, "c1");
    assert!(matches!(&out[1].1, EffectStep::Applied(EffectReport::Deleted { existed: true, .. })));
    assert!(matches!(&out[2].1, EffectStep::Applied(EffectReport::Deleted { existed: false, .. })));
    assert!(ledgers.tasks.is_empty());
}
