//! Turning an accepted `create_tasks` batch into child tasks: each child's
//! configuration, who depends on it, and the answer the caller receives.

use vstd::prelude::*;
use crate::domain::{AgentId, ChannelId, Task, TaskId, TaskStatus};
use crate::ids::{new_uuid, uuid_text, uuid_to_string};
use crate::subtasks::{defs_view, opt_text_view, texts_view, SubTaskDefinition, SubTaskView};
use crate::text::{concat2, concat3, concat5, decimal, i64_text};

verus! {

/// How a child of a batch is set up.
#[derive(Debug)]
pub struct SubTaskConfig {
    pub batch_id: u128,
    pub child_agent_name: String,
    pub child_agent_model: Option<String>,
    pub allowed_tools: Vec<String>,
    pub parent_agent_id: AgentId,
    /// The siblings it waits for.
    pub depends_on: Vec<String>,
    /// The siblings that wait for it.
    pub depended_by: Vec<String>,
}

/// One child of a new batch.
#[derive(Debug)]
pub struct PlannedSubTask {
    pub task: Task,
    pub config: SubTaskConfig,
}

/// A new batch of child tasks.
#[derive(Debug)]
pub struct SubTaskBatchPlan {
    pub batch_id: u128,
    pub children: Vec<PlannedSubTask>,
    /// What the calling agent is told.
    pub summary: String,
}

/// `who` once for every entry of `deps` equal to `name`.
pub open spec fn mentions(deps: Seq<Seq<char>>, name: Seq<char>, who: Seq<char>) -> Seq<Seq<char>>
    decreases deps.len(),
{
    if deps.len() == 0 {
        Seq::empty()
    } else {
        mentions(deps.drop_last(), name, who) + if deps.last() == name {
            seq![who]
        } else {
            Seq::empty()
        }
    }
}

/// The siblings that depend on `name`, in batch order, once per mention.
pub open spec fn dependents_of(defs: Seq<SubTaskView>, name: Seq<char>) -> Seq<Seq<char>>
    decreases defs.len(),
{
    if defs.len() == 0 {
        Seq::empty()
    } else {
        dependents_of(defs.drop_last(), name) + mentions(
            defs.last().depends_on,
            name,
            defs.last().name,
        )
    }
}

fn mentions_of(deps: &Vec<String>, name: &String, who: &String, out: &mut Vec<String>)
    ensures
        texts_view(final(out)@) == texts_view(old(out)@) + mentions(texts_view(deps@), name@, who@),
{
    let n = deps.len();
    let ghost start = texts_view(out@);
    for i in 0..n
        invariant
            n == deps@.len(),
            texts_view(out@) == start + mentions(texts_view(deps@).take(i as int), name@, who@),
    {
        let ghost prefix = texts_view(deps@).take(i + 1);
        assert(prefix.drop_last() =~= texts_view(deps@).take(i as int));
        let ghost before = out@;
        if deps[i] == *name {
            out.push(who.clone());
            assert(texts_view(out@) =~= texts_view(before).push(who@));
        } else {
            assert(mentions(prefix, name@, who@) =~= mentions(texts_view(deps@).take(i as int), name@, who@));
        }
    }
    assert(texts_view(deps@).take(n as int) =~= texts_view(deps@));
}

/// Lists the siblings that depend on `name` (see `dependents_of`).
pub fn dependents(defs: &Vec<SubTaskDefinition>, name: &String) -> (out: Vec<String>)
    ensures
        texts_view(out@) == dependents_of(defs_view(defs@), name@),
{
    let mut out: Vec<String> = Vec::new();
    let n = defs.len();
    for j in 0..n
        invariant
            n == defs@.len(),
            texts_view(out@) == dependents_of(defs_view(defs@).take(j as int), name@),
    {
        let ghost prefix = defs_view(defs@).take(j + 1);
        assert(prefix.drop_last() =~= defs_view(defs@).take(j as int));
        assert(prefix.last() == defs@[j as int]@);
        mentions_of(&defs[j].depends_on, name, &defs[j].name, &mut out);
    }
    assert(defs_view(defs@).take(n as int) =~= defs_view(defs@));
    out
}

/// The texts of an optional channel.
pub open spec fn channel_text(c: Option<ChannelId>) -> Option<(crate::domain::FrontendKind, Seq<char>, Option<Seq<char>>)> {
    match c {
        Some(x) => Some((x.frontend, x.user_id@, crate::domain::opt_text(x.thread_id))),
        None => None,
    }
}

fn copy_channel(c: &Option<ChannelId>) -> (r: Option<ChannelId>)
    ensures
        channel_text(r) == channel_text(*c),
{
    match c {
        Some(x) => Some(x.duplicate()),
        None => None,
    }
}

fn copy_texts(v: &Vec<String>) -> (r: Vec<String>)
    ensures
        texts_view(r@) == texts_view(v@),
{
    let mut r: Vec<String> = Vec::new();
    let n = v.len();
    for i in 0..n
        invariant
            n == v@.len(),
            texts_view(r@) =~= texts_view(v@).take(i as int),
    {
        let ghost before = r@;
        r.push(v[i].clone());
        assert(texts_view(r@) =~= texts_view(before).push(v@[i as int]@));
    }
    r
}

/// The names of the batch joined with `, `.
pub open spec fn joined_names(defs: Seq<SubTaskView>) -> Seq<char>
    decreases defs.len(),
{
    if defs.len() == 0 {
        Seq::empty()
    } else if defs.len() == 1 {
        defs[0].name
    } else {
        joined_names(defs.drop_last()) + ", "@ + defs.last().name
    }
}

/// What the caller is told about the new batch.
pub open spec fn batch_summary(count: nat, batch_id: u128, defs: Seq<SubTaskView>) -> Seq<char> {
    "created "@ + decimal(count as int) + " sub-tasks (batch "@ + uuid_text(batch_id) + "): "@
        + joined_names(defs)
}

/// Child `c` is set up from definition `d` of the batch `batch_id` of task
/// `parent` (created by agent `agent_id`).
pub open spec fn planned_from(
    c: PlannedSubTask,
    d: SubTaskView,
    defs: Seq<SubTaskView>,
    batch_id: u128,
    parent: TaskId,
    agent_id: AgentId,
    origin: Option<ChannelId>,
    now: i64,
) -> bool {
    &&& c.task.content@ == d.content
    &&& c.task.creator == agent_id
    &&& c.task.delegate is None
    &&& c.task.status == TaskStatus::Pending
    &&& c.task.pending_confirmation_id is None
    &&& c.task.result_summary@.len() == 0
    &&& c.task.last_error is None
    &&& c.task.parent_task_id == Some(parent)
    &&& channel_text(c.task.origin_channel) == channel_text(origin)
    &&& channel_text(c.task.output_channel) == channel_text(origin)
    &&& c.task.updated_at == now
    &&& c.config.batch_id == batch_id
    &&& c.config.child_agent_name@ == d.name
    &&& opt_text_view(c.config.child_agent_model) == d.model
    &&& texts_view(c.config.allowed_tools@) == d.tools
    &&& c.config.parent_agent_id == agent_id
    &&& texts_view(c.config.depends_on@) == d.depends_on
    &&& texts_view(c.config.depended_by@) == dependents_of(defs, d.name)
}

/// Plans the child tasks of an accepted batch: one pending child per
/// definition, in order, under fresh ids, inheriting the parent's origin
/// channel; each knows the siblings it waits for and those that wait for it.
pub fn plan_sub_task_batch(
    definitions: &Vec<SubTaskDefinition>,
    agent_id: AgentId,
    task_id: TaskId,
    origin_channel: &Option<ChannelId>,
    now: i64,
) -> (plan: SubTaskBatchPlan)
    requires
        definitions@.len() <= i64::MAX,
    ensures
        plan.children@.len() == definitions@.len(),
        forall|i: int|
            0 <= i < definitions@.len() ==> planned_from(
                #[trigger] plan.children@[i],
                definitions@[i]@,
                defs_view(definitions@),
                plan.batch_id,
                task_id,
                agent_id,
                *origin_channel,
                now,
            ),
        plan.summary@ == batch_summary(
            definitions@.len(),
            plan.batch_id,
            defs_view(definitions@),
        ),
{
    let batch_id = new_uuid();
    let mut children: Vec<PlannedSubTask> = Vec::new();
    let mut names = String::new();
    let n = definitions.len();
    for i in 0..n
        invariant
            n == definitions@.len(),
            children@.len() == i,
            forall|k: int|
                0 <= k < i ==> planned_from(
                    #[trigger] children@[k],
                    definitions@[k]@,
                    defs_view(definitions@),
                    batch_id,
                    task_id,
                    agent_id,
                    *origin_channel,
                    now,
                ),
            names@ == joined_names(defs_view(definitions@).take(i as int)),
    {
        let d = &definitions[i];
        let depended_by = dependents(definitions, &d.name);
        let task = Task {
            id: new_uuid(),
            content: d.content.clone(),
            creator: agent_id,
            delegate: None,
            status: TaskStatus::Pending,
            pending_confirmation_id: None,
            result_summary: String::new(),
            last_error: None,
            parent_task_id: Some(task_id),
            origin_channel: copy_channel(origin_channel),
            output_channel: copy_channel(origin_channel),
            updated_at: now,
        };
        let config = SubTaskConfig {
            batch_id,
            child_agent_name: d.name.clone(),
            child_agent_model: match &d.model {
                Some(m) => Some(m.clone()),
                None => None,
            },
            allowed_tools: copy_texts(&d.tools),
            parent_agent_id: agent_id,
            depends_on: copy_texts(&d.depends_on),
            depended_by,
        };
        children.push(PlannedSubTask { task, config });
        let ghost prefix = defs_view(definitions@).take(i + 1);
        assert(prefix.drop_last() =~= defs_view(definitions@).take(i as int));
        if i == 0 {
            names = d.name.clone();
        } else {
            names = concat3(names.as_str(), ", ", d.name.as_str());
        }
    }
    assert(defs_view(definitions@).take(n as int) =~= defs_view(definitions@));
    let count = i64_text(n as i64);
    let id_text = uuid_to_string(batch_id);
    let head = concat5("created ", count.as_str(), " sub-tasks (batch ", id_text.as_str(), "): ");
    let summary = concat2(head.as_str(), names.as_str());
    SubTaskBatchPlan { batch_id, children, summary }
}

} // verus!
