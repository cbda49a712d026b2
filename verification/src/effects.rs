//! Applying the declared write effects of tool workers to the two ledgers
//! of scheduled tasks: the scheduler's task list and the registry that
//! holds each kind's content and output channel.

use crate::domain::ChannelId;
use crate::ids::{uuid_text, uuid_to_string};
use crate::scheduling::{
    copy_opt_channel, find_registered, format_rfc3339, DynamicTaskRecord, opt_channel_view, registered_index, rfc3339_text, utc_now,
    RegisteredTask, ScheduleSpec, ToolEffect, UtcInstant,
};
use vstd::prelude::*;

verus! {

/// A task in the scheduler's ledger.
#[derive(Debug)]
pub struct ScheduledTaskRecord {
    pub id: u128,
    pub kind: String,
    pub schedule: ScheduleSpec,
    pub created_at: UtcInstant,
}

/// The scheduler's task list and the registry, changed together.
#[derive(Debug)]
pub struct SchedulerLedgers {
    pub tasks: Vec<ScheduledTaskRecord>,
    pub registry: Vec<RegisteredTask>,
}

/// No kind occurs twice in the registry (it is keyed by kind).
pub open spec fn kinds_distinct(reg: Seq<RegisteredTask>) -> bool {
    forall|i: int, j: int| 0 <= i < j < reg.len() ==> (#[trigger] reg[i]).kind@ != (#[trigger] reg[j]).kind@
}

/// Some task of the scheduler has the kind.
pub open spec fn holds_task(tasks: Seq<ScheduledTaskRecord>, kind: Seq<char>) -> bool {
    exists|i: int| 0 <= i < tasks.len() && (#[trigger] tasks[i]).kind@ == kind
}

/// The tasks, in order, without those of the kind.
pub open spec fn tasks_without(tasks: Seq<ScheduledTaskRecord>, kind: Seq<char>) -> Seq<ScheduledTaskRecord>
    decreases tasks.len(),
{
    if tasks.len() == 0 {
        Seq::empty()
    } else {
        let rest = tasks_without(tasks.drop_last(), kind);
        if tasks.last().kind@ == kind {
            rest
        } else {
            rest.push(tasks.last())
        }
    }
}

/// The registry after removing the kind: its entry leaves, if there is one.
pub open spec fn registry_without(reg: Seq<RegisteredTask>, kind: Seq<char>) -> Seq<RegisteredTask> {
    match registered_index(reg, kind) {
        Some(j) => reg.remove(j),
        None => reg,
    }
}

/// `r` registers the kind with the content, channel and once-flag.
pub open spec fn registers(
    r: RegisteredTask,
    kind: Seq<char>,
    content: Seq<char>,
    channel: Option<(crate::domain::FrontendKind, Seq<char>, Option<Seq<char>>)>,
    is_once: bool,
) -> bool {
    &&& r.kind@ == kind
    &&& r.content@ == content
    &&& opt_channel_view(r.output_channel) == channel
    &&& r.is_once == is_once
}

/// The registry after inserting the kind: its entry is replaced if there is
/// one, else the new entry goes last.
pub open spec fn registry_with(
    before: Seq<RegisteredTask>,
    after: Seq<RegisteredTask>,
    kind: Seq<char>,
    content: Seq<char>,
    channel: Option<(crate::domain::FrontendKind, Seq<char>, Option<Seq<char>>)>,
    is_once: bool,
) -> bool {
    match registered_index(before, kind) {
        Some(j) => after.len() == before.len() && after == before.update(j, after[j]) && registers(
            after[j],
            kind,
            content,
            channel,
            is_once,
        ),
        None => after.len() == before.len() + 1 && after.drop_last() == before && registers(
            after.last(),
            kind,
            content,
            channel,
            is_once,
        ),
    }
}

/// The scheduler's tasks after adding one: the new record goes last.
pub open spec fn tasks_with(
    before: Seq<ScheduledTaskRecord>,
    after: Seq<ScheduledTaskRecord>,
    id: u128,
    kind: Seq<char>,
    schedule: ScheduleSpec,
) -> bool {
    &&& after.len() == before.len() + 1
    &&& after.drop_last() == before
    &&& after.last().id == id
    &&& after.last().kind@ == kind
    &&& after.last().schedule == schedule
}

/// What applying an effect reports back to the model.
#[derive(Debug)]
pub enum EffectReport {
    /// A deletion: the kind asked for, and whether either ledger held it.
    Deleted { kind: String, existed: bool },
    /// A new schedule: its id as text, its kind, and when it fires next.
    Scheduled { schedule_id: String, kind: String, next_trigger: Option<String> },
}

/// The outcome of applying an effect: a report, or a file write that the
/// caller performs.
#[derive(Debug)]
pub enum EffectStep {
    Applied(EffectReport),
    WriteFile { sandbox_dir: String, path: String, content: String },
}

/// The next time a cron schedule fires from now on, read in the machine's
/// time zone, by `cron::Schedule::upcoming`. It depends on the clock and the
/// time zone, so nothing is stated of it.
#[verifier::external_body]
fn cron_next_fire(schedule: &cron::Schedule) -> (r: Option<UtcInstant>) {
    let next = schedule.upcoming(chrono::Local).next()?;
    Some(UtcInstant { secs: next.timestamp(), nanos: next.timestamp_subsec_nanos() })
}

/// When a schedule fires next: a one-off schedule at its instant; a cron
/// schedule as the clock and the zone give it.
pub fn next_fire(schedule: &ScheduleSpec) -> (r: Option<UtcInstant>)
    ensures
        *schedule matches ScheduleSpec::Once(t) ==> r == Some(t),
{
    match schedule {
        ScheduleSpec::Once(t) => Some(*t),
        ScheduleSpec::Cron { schedule, .. } => cron_next_fire(schedule),
    }
}

/// The RFC 3339 text of an optional instant.
pub open spec fn opt_rfc3339(t: Option<UtcInstant>) -> Option<Seq<char>> {
    match t {
        Some(x) => Some(rfc3339_text(x)),
        None => None,
    }
}

fn format_opt(t: Option<UtcInstant>) -> (r: Option<String>)
    ensures
        crate::domain::opt_text(r) == opt_rfc3339(t),
{
    match t {
        Some(x) => Some(format_rfc3339(x)),
        None => None,
    }
}

/// A registry that holds the kind somewhere holds it at a first entry.
proof fn lemma_first_registered_exists(reg: Seq<RegisteredTask>, kind: Seq<char>, a: int)
    requires
        0 <= a < reg.len(),
        reg[a].kind@ == kind,
    ensures
        registered_index(reg, kind) is Some,
    decreases a,
{
    if forall|q: int| 0 <= q < a ==> (#[trigger] reg[q]).kind@ != kind {
        assert(crate::scheduling::first_registered(reg, kind, a));
    } else {
        let q = choose|q: int| 0 <= q < a && (#[trigger] reg[q]).kind@ == kind;
        lemma_first_registered_exists(reg, kind, q);
    }
}

/// Inserting a kind keeps the registry keyed by kind and leaves it holding the kind.
proof fn lemma_registry_with(
    before: Seq<RegisteredTask>,
    after: Seq<RegisteredTask>,
    kind: Seq<char>,
    content: Seq<char>,
    channel: Option<(crate::domain::FrontendKind, Seq<char>, Option<Seq<char>>)>,
    is_once: bool,
)
    requires
        kinds_distinct(before),
        registry_with(before, after, kind, content, channel, is_once),
    ensures
        kinds_distinct(after),
        registered_index(after, kind) is Some,
{
    match registered_index(before, kind) {
        Some(j) => {
            assert(crate::scheduling::first_registered(before, kind, j));
            assert forall|a: int, b: int| 0 <= a < b < after.len() implies (#[trigger] after[a]).kind@
                != (#[trigger] after[b]).kind@ by {
                if a == j {
                    assert(before[a].kind@ == kind);
                    assert(after[b] == before[b]);
                } else if b == j {
                    assert(before[b].kind@ == kind);
                    assert(after[a] == before[a]);
                } else {
                    assert(after[a] == before[a]);
                    assert(after[b] == before[b]);
                }
            }
            lemma_first_registered_exists(after, kind, j);
        },
        None => {
            let n = before.len() as int;
            assert forall|a: int, b: int| 0 <= a < b < after.len() implies (#[trigger] after[a]).kind@
                != (#[trigger] after[b]).kind@ by {
                assert(after[a] == before[a]);
                if b == n {
                    if after[a].kind@ == kind {
                        lemma_first_registered_exists(before, kind, a);
                    }
                } else {
                    assert(after[b] == before[b]);
                }
            }
            lemma_first_registered_exists(after, kind, n);
        },
    }
}

/// Removing a kind keeps the registry keyed by kind and leaves no entry of it.
proof fn lemma_registry_without(reg: Seq<RegisteredTask>, kind: Seq<char>)
    requires
        kinds_distinct(reg),
    ensures
        kinds_distinct(registry_without(reg, kind)),
        registered_index(registry_without(reg, kind), kind) is None,
{
    match registered_index(reg, kind) {
        Some(j) => {
            assert(crate::scheduling::first_registered(reg, kind, j));
            let after = reg.remove(j);
            assert forall|a: int, b: int| 0 <= a < b < after.len() implies (#[trigger] after[a]).kind@
                != (#[trigger] after[b]).kind@ by {
                let oa = if a < j { a } else { a + 1 };
                let ob = if b < j { b } else { b + 1 };
                assert(after[a] == reg[oa]);
                assert(after[b] == reg[ob]);
            }
            if exists|x: int| crate::scheduling::first_registered(after, kind, x) {
                let x = choose|x: int| crate::scheduling::first_registered(after, kind, x);
                let ox = if x < j { x } else { x + 1 };
                assert(after[x] == reg[ox]);
            }
        },
        None => {},
    }
}

/// No task of the kind is left once the kind is removed.
proof fn lemma_tasks_without(tasks: Seq<ScheduledTaskRecord>, kind: Seq<char>)
    ensures
        !holds_task(tasks_without(tasks, kind), kind),
    decreases tasks.len(),
{
    if tasks.len() > 0 {
        lemma_tasks_without(tasks.drop_last(), kind);
        let rest = tasks_without(tasks.drop_last(), kind);
        if tasks.last().kind@ != kind {
            let out = rest.push(tasks.last());
            assert forall|i: int| 0 <= i < out.len() implies (#[trigger] out[i]).kind@ != kind by {
                if i < rest.len() {
                    assert(out[i] == rest[i]);
                }
            }
        }
    }
}

/// Deleting a kind right after it was scheduled reports that it existed, and
/// afterwards neither ledger holds it.
pub proof fn lemma_schedule_then_delete(
    tasks0: Seq<ScheduledTaskRecord>,
    reg0: Seq<RegisteredTask>,
    tasks1: Seq<ScheduledTaskRecord>,
    reg1: Seq<RegisteredTask>,
    id: u128,
    kind: Seq<char>,
    content: Seq<char>,
    channel: Option<(crate::domain::FrontendKind, Seq<char>, Option<Seq<char>>)>,
    schedule: ScheduleSpec,
)
    requires
        kinds_distinct(reg0),
        tasks_with(tasks0, tasks1, id, kind, schedule),
        registry_with(reg0, reg1, kind, content, channel, schedule is Once),
    ensures
        holds_task(tasks1, kind),
        registered_index(reg1, kind) is Some,
        !holds_task(tasks_without(tasks1, kind), kind),
        registered_index(registry_without(reg1, kind), kind) is None,
        kinds_distinct(registry_without(reg1, kind)),
{
    assert(tasks1[tasks1.len() - 1].kind@ == kind);
    lemma_registry_with(reg0, reg1, kind, content, channel, schedule is Once);
    lemma_tasks_without(tasks1, kind);
    lemma_registry_without(reg1, kind);
}

impl SchedulerLedgers {
    /// The registry is keyed by kind.
    pub open spec fn wf(&self) -> bool {
        kinds_distinct(self.registry@)
    }

    /// Empty ledgers.
    pub fn new() -> (l: Self)
        ensures
            l.wf(),
            l.tasks@.len() == 0,
            l.registry@.len() == 0,
    {
        SchedulerLedgers { tasks: Vec::new(), registry: Vec::new() }
    }

    /// Deletes the kind from both ledgers: every task of the kind leaves the
    /// scheduler and its entry leaves the registry. Returns whether either
    /// ledger held it.
    pub fn apply_delete(&mut self, kind: &str) -> (existed: bool)
        requires
            old(self).wf(),
        ensures
            final(self).wf(),
            final(self).tasks@ == tasks_without(old(self).tasks@, kind@),
            final(self).registry@ == registry_without(old(self).registry@, kind@),
            existed == (holds_task(old(self).tasks@, kind@) || registered_index(
                old(self).registry@,
                kind@,
            ) is Some),
            !holds_task(final(self).tasks@, kind@),
            registered_index(final(self).registry@, kind@) is None,
    {
        let mut rest: Vec<ScheduledTaskRecord> = Vec::new();
        std::mem::swap(&mut rest, &mut self.tasks);
        let ghost orig = rest@;
        assert(orig.len() == rest.len());
        let mut kept: Vec<ScheduledTaskRecord> = Vec::new();
        let mut found = false;
        let mut i: usize = 0;
        assert(orig.skip(0) =~= orig);
        assert(orig.take(0) =~= Seq::<ScheduledTaskRecord>::empty());
        while rest.len() > 0
            invariant
                i <= orig.len(),
                orig.len() <= usize::MAX,
                rest@ == orig.skip(i as int),
                kept@ == tasks_without(orig.take(i as int), kind@),
                found == holds_task(orig.take(i as int), kind@),
                forall|k: int| 0 <= k < kept@.len() ==> (#[trigger] kept@[k]).kind@ != kind@,
                self.registry@ == old(self).registry@,
            decreases rest@.len(),
        {
            assert(i < orig.len());
            let t = rest.remove(0);
            let ghost pre = orig.take(i as int);
            let ghost next = orig.take(i + 1);
            assert(next.drop_last() =~= pre);
            assert(next.last() == t);
            assert(orig.skip(i as int).subrange(1, orig.skip(i as int).len() as int) =~= orig.skip(i + 1));
            if crate::text::str_eq(t.kind.as_str(), kind) {
                proof {
                    assert(next[i as int] == t);
                }
                found = true;
            } else {
                proof {
                    if holds_task(next, kind@) {
                        let w = choose|w: int| 0 <= w < next.len() && (#[trigger] next[w]).kind@ == kind@;
                        assert(w != i);
                        assert(pre[w] == next[w]);
                    }
                    if holds_task(pre, kind@) {
                        let w = choose|w: int| 0 <= w < pre.len() && (#[trigger] pre[w]).kind@ == kind@;
                        assert(next[w] == pre[w]);
                    }
                }
                kept.push(t);
            }
            proof {
                if found && holds_task(pre, kind@) {
                    let w = choose|w: int| 0 <= w < pre.len() && (#[trigger] pre[w]).kind@ == kind@;
                    assert(next[w] == pre[w]);
                }
            }
            i = i + 1;
        }
        assert(orig.take(i as int) =~= orig);
        self.tasks = kept;
        let ghost reg_before = self.registry@;
        let in_registry = match find_registered(&self.registry, kind) {
            Some(j) => {
                self.registry.remove(j);
                true
            },
            None => false,
        };
        proof {
            lemma_registry_without(reg_before, kind@);
        }
        in_registry || found
    }

    /// Adds a schedule to both ledgers: a task record goes last in the
    /// scheduler, created at `now`, and the registry holds the kind with the
    /// content and channel (replacing an entry of the same kind). Reports the
    /// schedule's id as text, its kind and the given next firing time as
    /// RFC 3339 text.
    pub fn apply_schedule(
        &mut self,
        id: u128,
        kind: String,
        content: String,
        schedule: ScheduleSpec,
        output_channel: Option<ChannelId>,
        now: UtcInstant,
        next: Option<UtcInstant>,
    ) -> (r: EffectReport)
        requires
            old(self).wf(),
        ensures
            final(self).wf(),
            tasks_with(old(self).tasks@, final(self).tasks@, id, kind@, schedule),
            final(self).tasks@.last().created_at == now,
            registry_with(
                old(self).registry@,
                final(self).registry@,
                kind@,
                content@,
                opt_channel_view(output_channel),
                schedule is Once,
            ),
            holds_task(final(self).tasks@, kind@),
            registered_index(final(self).registry@, kind@) is Some,
            r matches EffectReport::Scheduled { schedule_id, kind: k, next_trigger: n } && schedule_id@
                == uuid_text(id) && k@ == kind@ && crate::domain::opt_text(n) == opt_rfc3339(next),
    {
        let is_once = match &schedule {
            ScheduleSpec::Once(_) => true,
            ScheduleSpec::Cron { .. } => false,
        };
        let entry = RegisteredTask {
            kind: kind.clone(),
            content,
            output_channel,
            is_once,
        };
        let ghost entry_g = entry;
        let ghost before_reg = self.registry@;
        match find_registered(&self.registry, kind.as_str()) {
            Some(j) => {
                self.registry.set(j, entry);
            },
            None => {
                self.registry.push(entry);
                assert(self.registry@.drop_last() =~= before_reg);
            },
        }
        proof {
            lemma_registry_with(before_reg, self.registry@, kind@, entry_g.content@,
                opt_channel_view(entry_g.output_channel), entry_g.is_once);
        }
        let record_kind = kind.clone();
        let ghost tasks_before = self.tasks@;
        self.tasks.push(ScheduledTaskRecord { id, kind: record_kind, schedule, created_at: now });
        proof {
            assert(self.tasks@.drop_last() =~= tasks_before);
            assert(self.tasks@[self.tasks@.len() - 1].kind@ == kind@);
        }
        let schedule_id = uuid_to_string(id);
        EffectReport::Scheduled { schedule_id, kind, next_trigger: format_opt(next) }
    }

    /// The scheduler's tasks as the listing reads them: kind, creation time
    /// and next firing time of each, in order.
    pub fn build_scheduler_snapshot(&self) -> (r: Vec<DynamicTaskRecord>)
        ensures
            r@.len() == self.tasks@.len(),
            forall|i: int|
                0 <= i < r@.len() ==> {
                    let t = self.tasks@[i];
                    &&& (#[trigger] r@[i]).kind@ == t.kind@
                    &&& r@[i].created_at == t.created_at
                    &&& (t.schedule matches ScheduleSpec::Once(at) ==> r@[i].next_fire == Some(at))
                },
    {
        let mut out: Vec<DynamicTaskRecord> = Vec::new();
        let n = self.tasks.len();
        for i in 0..n
            invariant
                n == self.tasks@.len(),
                out@.len() == i,
                forall|k: int|
                    0 <= k < i ==> {
                        let t = self.tasks@[k];
                        &&& (#[trigger] out@[k]).kind@ == t.kind@
                        &&& out@[k].created_at == t.created_at
                        &&& (t.schedule matches ScheduleSpec::Once(at) ==> out@[k].next_fire == Some(at))
                    },
        {
            let t = &self.tasks[i];
            out.push(
                DynamicTaskRecord {
                    kind: t.kind.clone(),
                    created_at: t.created_at,
                    next_fire: next_fire(&t.schedule),
                },
            );
        }
        out
    }

    /// The registry as the listing reads it: a copy of every entry, in order.
    pub fn build_registry_snapshot(&self) -> (r: Vec<RegisteredTask>)
        ensures
            r@.len() == self.registry@.len(),
            forall|i: int|
                0 <= i < r@.len() ==> registers(
                    #[trigger] r@[i],
                    self.registry@[i].kind@,
                    self.registry@[i].content@,
                    opt_channel_view(self.registry@[i].output_channel),
                    self.registry@[i].is_once,
                ),
    {
        let mut out: Vec<RegisteredTask> = Vec::new();
        let n = self.registry.len();
        for i in 0..n
            invariant
                n == self.registry@.len(),
                out@.len() == i,
                forall|k: int|
                    0 <= k < i ==> registers(
                        #[trigger] out@[k],
                        self.registry@[k].kind@,
                        self.registry@[k].content@,
                        opt_channel_view(self.registry@[k].output_channel),
                        self.registry@[k].is_once,
                    ),
        {
            let t = &self.registry[i];
            out.push(
                RegisteredTask {
                    kind: t.kind.clone(),
                    content: t.content.clone(),
                    output_channel: copy_opt_channel(&t.output_channel),
                    is_once: t.is_once,
                },
            );
        }
        out
    }

    /// Applies one declared effect. A deletion or a schedule changes both
    /// ledgers as `apply_delete` and `apply_schedule` say, the schedule taking
    /// the current time and its next firing time from the clock; a file write
    /// is handed back for the caller to perform.
    pub fn apply_effect(&mut self, effect: ToolEffect) -> (r: EffectStep)
        requires
            old(self).wf(),
        ensures
            final(self).wf(),
            match effect {
                ToolEffect::DeleteScheduledTask { kind } => {
                    &&& final(self).tasks@ == tasks_without(old(self).tasks@, kind@)
                    &&& final(self).registry@ == registry_without(old(self).registry@, kind@)
                    &&& r matches EffectStep::Applied(EffectReport::Deleted { kind: k, existed })
                    &&& k@ == kind@
                    &&& existed == (holds_task(old(self).tasks@, kind@) || registered_index(
                        old(self).registry@,
                        kind@,
                    ) is Some)
                },
                ToolEffect::ScheduleTask { id, kind, content, schedule, output_channel } => {
                    &&& tasks_with(old(self).tasks@, final(self).tasks@, id, kind@, schedule)
                    &&& registry_with(
                        old(self).registry@,
                        final(self).registry@,
                        kind@,
                        content@,
                        opt_channel_view(output_channel),
                        schedule is Once,
                    )
                    &&& r matches EffectStep::Applied(
                        EffectReport::Scheduled { schedule_id, kind: k, next_trigger },
                    )
                    &&& schedule_id@ == uuid_text(id)
                    &&& k@ == kind@
                    &&& (schedule matches ScheduleSpec::Once(t) ==> (next_trigger matches Some(x)
                        && x@ == rfc3339_text(t)))
                },
                ToolEffect::WriteSkillFile { sandbox_dir, path, content } => {
                    &&& final(self).tasks@ == old(self).tasks@
                    &&& final(self).registry@ == old(self).registry@
                    &&& r matches EffectStep::WriteFile { sandbox_dir: d, path: p, content: c }
                    &&& d@ == sandbox_dir@
                    &&& p@ == path@
                    &&& c@ == content@
                },
            },
    {
        match effect {
            ToolEffect::DeleteScheduledTask { kind } => {
                let existed = self.apply_delete(kind.as_str());
                EffectStep::Applied(EffectReport::Deleted { kind, existed })
            },
            ToolEffect::ScheduleTask { id, kind, content, schedule, output_channel } => {
                let next = next_fire(&schedule);
                let now = utc_now();
                EffectStep::Applied(
                    self.apply_schedule(id, kind, content, schedule, output_channel, now, next),
                )
            },
            ToolEffect::WriteSkillFile { sandbox_dir, path, content } => {
                EffectStep::WriteFile { sandbox_dir, path, content }
            },
        }
    }
}

/// A declared effect waiting to be applied, with the call that declared it.
#[derive(Debug)]
pub struct ToolEffectPending {
    pub tool_call_id: String,
    pub effect: ToolEffect,
}

/// The kind of report an effect gets: a deletion reports its kind, a
/// schedule its id and kind, and a file write is handed back as it came.
pub open spec fn step_answers(effect: ToolEffect, step: EffectStep) -> bool {
    match effect {
        ToolEffect::DeleteScheduledTask { kind } => step matches EffectStep::Applied(
            EffectReport::Deleted { kind: k, .. },
        ) && k@ == kind@,
        ToolEffect::ScheduleTask { id, kind, .. } => step matches EffectStep::Applied(
            EffectReport::Scheduled { schedule_id, kind: k, .. },
        ) && schedule_id@ == uuid_text(id) && k@ == kind@,
        ToolEffect::WriteSkillFile { sandbox_dir, path, content } => step matches EffectStep::WriteFile {
            sandbox_dir: d,
            path: p,
            content: c,
        } && d@ == sandbox_dir@ && p@ == path@ && c@ == content@,
    }
}

/// How one effect changes the ledgers (tasks `t0`, registry `r0` before;
/// `t1`, `r1` after), as `apply_effect` states it.
pub open spec fn effect_step(
    t0: Seq<ScheduledTaskRecord>,
    r0: Seq<RegisteredTask>,
    e: ToolEffect,
    t1: Seq<ScheduledTaskRecord>,
    r1: Seq<RegisteredTask>,
) -> bool {
    match e {
        ToolEffect::DeleteScheduledTask { kind } => t1 == tasks_without(t0, kind@) && r1
            == registry_without(r0, kind@),
        ToolEffect::ScheduleTask { id, kind, content, schedule, output_channel } => tasks_with(
            t0,
            t1,
            id,
            kind@,
            schedule,
        ) && registry_with(r0, r1, kind@, content@, opt_channel_view(output_channel), schedule is Once),
        ToolEffect::WriteSkillFile { .. } => t1 == t0 && r1 == r0,
    }
}

/// The ledger states `states` pass through, one step per pending effect.
pub open spec fn effects_path(
    states: Seq<(Seq<ScheduledTaskRecord>, Seq<RegisteredTask>)>,
    pending: Seq<ToolEffectPending>,
) -> bool {
    &&& states.len() == pending.len() + 1
    &&& forall|k: int|
        0 <= k < pending.len() ==> effect_step(
            (#[trigger] states[k]).0,
            states[k].1,
            pending[k].effect,
            states[k + 1].0,
            states[k + 1].1,
        )
}

/// Applies the pending effects in order, each as `apply_effect` says, and
/// returns each call id with what its effect gave.
pub fn commit_tool_effects_system(ledgers: &mut SchedulerLedgers, pending: Vec<ToolEffectPending>) -> (r: Vec<(String, EffectStep)>)
    requires
        old(ledgers).wf(),
    ensures
        final(ledgers).wf(),
        r@.len() == pending@.len(),
        forall|i: int|
            0 <= i < r@.len() ==> (#[trigger] r@[i]).0@ == pending@[i].tool_call_id@ && step_answers(
                pending@[i].effect,
                r@[i].1,
            ),
        exists|states: Seq<(Seq<ScheduledTaskRecord>, Seq<RegisteredTask>)>|
            #[trigger] effects_path(states, pending@) && states[0] == (old(ledgers).tasks@, old(
                ledgers,
            ).registry@) && states.last() == (final(ledgers).tasks@, final(ledgers).registry@),
{
    let mut out: Vec<(String, EffectStep)> = Vec::new();
    let mut rest = pending;
    let ghost orig = rest@;
    assert(orig.len() == rest.len());
    let ghost mut states: Seq<(Seq<ScheduledTaskRecord>, Seq<RegisteredTask>)> = seq![
        (ledgers.tasks@, ledgers.registry@),
    ];
    let mut i: usize = 0;
    assert(orig.skip(0) =~= orig);
    while rest.len() > 0
        invariant
            ledgers.wf(),
            i <= orig.len(),
            orig.len() <= usize::MAX,
            rest@ == orig.skip(i as int),
            out@.len() == i,
            forall|k: int|
                0 <= k < i ==> (#[trigger] out@[k]).0@ == orig[k].tool_call_id@ && step_answers(
                    orig[k].effect,
                    out@[k].1,
                ),
            effects_path(states, orig.take(i as int)),
            states[0] == (old(ledgers).tasks@, old(ledgers).registry@),
            states.last() == (ledgers.tasks@, ledgers.registry@),
        decreases rest@.len(),
    {
        assert(i < orig.len());
        let p = rest.remove(0);
        assert(p == orig[i as int]);
        assert(orig.skip(i as int).subrange(1, orig.skip(i as int).len() as int) =~= orig.skip(i + 1));
        let ghost e = p.effect;
        let ghost before = (ledgers.tasks@, ledgers.registry@);
        let step = ledgers.apply_effect(p.effect);
        assert(step_answers(e, step));
        assert(effect_step(before.0, before.1, e, ledgers.tasks@, ledgers.registry@));
        proof {
            let next = states.push((ledgers.tasks@, ledgers.registry@));
            let taken = orig.take(i + 1);
            assert forall|k: int| 0 <= k < taken.len() implies effect_step(
                (#[trigger] next[k]).0,
                next[k].1,
                taken[k].effect,
                next[k + 1].0,
                next[k + 1].1,
            ) by {
                if k < i {
                    assert(orig.take(i as int)[k] == taken[k]);
                    assert(next[k] == states[k]);
                    assert(next[k + 1] == states[k + 1]);
                    assert(effect_step(
                        states[k].0,
                        states[k].1,
                        orig.take(i as int)[k].effect,
                        states[k + 1].0,
                        states[k + 1].1,
                    ));
                } else {
                    assert(taken[k] == orig[i as int]);
                    assert(next[k] == before);
                }
            }
            states = next;
        }
        out.push((p.tool_call_id, step));
        i = i + 1;
    }
    assert(orig.take(i as int) =~= orig);
    assert(effects_path(states, pending@));
    out
}

} // verus!
