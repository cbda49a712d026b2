//! How the runtime settles the tools that end a generation work item: a
//! profile submitted or skipped, and a skill update submitted against the
//! version the work item was opened on.

use crate::calling::{belongs_to, ToolCallingState};
use crate::domain::{TaskId, ToolError};
use crate::ids::uuid_text;
use crate::skills::{skill_dir_path, SkillLoader, SkillUpdateContext};
use crate::text::{concat2, concat3, concat5};
use vstd::prelude::*;

verus! {

/// Why a profile is being generated.
#[derive(Debug, Clone, Copy, PartialEq, Eq, Structural)]
pub enum ProfileGenerationKind {
    /// A new agent is being hatched.
    Incubation,
    /// An existing profile is being revised.
    Update,
}

/// The profile-generation state of a work item.
#[derive(Debug, Clone, Copy, PartialEq, Eq, Structural)]
pub struct ProfileGenerationContext {
    pub kind: ProfileGenerationKind,
    /// Consecutive answers of the model that called no tool.
    pub exception_count: u32,
}

/// A work item of a task, with its profile-generation state if it has one.
#[derive(Debug)]
pub struct ProfileWorkItem {
    pub task_id: TaskId,
    pub context: Option<ProfileGenerationContext>,
}

/// A profile the model submitted.
#[derive(Debug)]
pub struct GeneratedProfile {
    pub name: String,
    pub tags: Vec<String>,
    pub description: String,
}

/// What a finished profile generation yields: its kind, the profile (none
/// when skipped) and the text the model is shown.
#[derive(Debug)]
pub struct ProfileCompletion {
    pub kind: ProfileGenerationKind,
    pub profile: Option<GeneratedProfile>,
    pub text: String,
}

/// Item `i` carries a profile context for the task.
pub open spec fn profile_item_of(items: Seq<ProfileWorkItem>, task_id: TaskId, i: int) -> bool {
    0 <= i < items.len() && items[i].context is Some && items[i].task_id == task_id
}

/// The first item that carries a profile context for the task, or -1.
pub open spec fn first_profile_item(items: Seq<ProfileWorkItem>, task_id: TaskId) -> int {
    if exists|i: int| profile_item_of(items, task_id, i) {
        choose|i: int|
            profile_item_of(items, task_id, i) && forall|j: int|
                0 <= j < i ==> !#[trigger] profile_item_of(items, task_id, j)
    } else {
        -1
    }
}

proof fn lemma_first_profile_item(items: Seq<ProfileWorkItem>, task_id: TaskId, i: int)
    requires
        profile_item_of(items, task_id, i),
        forall|j: int| 0 <= j < i ==> !#[trigger] profile_item_of(items, task_id, j),
    ensures
        first_profile_item(items, task_id) == i,
{
    let c = choose|c: int|
        profile_item_of(items, task_id, c) && forall|j: int|
            0 <= j < c ==> !#[trigger] profile_item_of(items, task_id, j);
    assert(profile_item_of(items, task_id, c) && forall|j: int|
        0 <= j < c ==> !#[trigger] profile_item_of(items, task_id, j)) by {
        assert(profile_item_of(items, task_id, i) && forall|j: int|
            0 <= j < i ==> !#[trigger] profile_item_of(items, task_id, j));
    }
    if c < i {
        assert(!profile_item_of(items, task_id, c));
    }
    if c > i {
        assert(!profile_item_of(items, task_id, i));
    }
}

/// The first work item of the task with a profile context.
fn find_profile_item(items: &Vec<ProfileWorkItem>, task_id: TaskId) -> (r: Option<usize>)
    ensures
        r matches Some(i) ==> profile_item_of(items@, task_id, i as int) && first_profile_item(items@, task_id)
            == i,
        r is None ==> first_profile_item(items@, task_id) == -1,
{
    let n = items.len();
    for i in 0..n
        invariant
            n == items@.len(),
            forall|j: int| 0 <= j < i ==> !#[trigger] profile_item_of(items@, task_id, j),
    {
        let hit = match &items[i].context {
            Some(_) => items[i].task_id == task_id,
            None => false,
        };
        if hit {
            proof {
                lemma_first_profile_item(items@, task_id, i as int);
            }
            return Some(i);
        }
    }
    assert(!exists|j: int| profile_item_of(items@, task_id, j));
    None
}

/// The text the model is shown once the profile tools are handled.
pub open spec fn profile_completion_text(submitted: Option<GeneratedProfile>) -> Seq<char> {
    match submitted {
        Some(p) => "profile submitted: "@ + p.name@,
        None => "profile update skipped"@,
    }
}

/// Settles a profile generation of task `task_id`: `submitted` is the
/// profile the model submitted, or none when it skipped. The first work item
/// of the task with a profile context has its no-tool counter reset and
/// gives the kind; without one, a submission counts as an incubation and a
/// skip as an update.
pub fn complete_profile_generation(
    items: &mut Vec<ProfileWorkItem>,
    task_id: TaskId,
    submitted: Option<GeneratedProfile>,
) -> (r: ProfileCompletion)
    ensures
        final(items)@.len() == old(items)@.len(),
        ({
            let p = first_profile_item(old(items)@, task_id);
            &&& forall|i: int|
                0 <= i < old(items)@.len() && i != p ==> #[trigger] final(items)@[i] == old(items)@[i]
            &&& p >= 0 ==> {
                let c = old(items)@[p].context->0;
                &&& final(items)@[p].task_id == task_id
                &&& final(items)@[p].context == Some(ProfileGenerationContext { exception_count: 0, ..c })
                &&& r.kind == c.kind
            }
            &&& p < 0 ==> r.kind == if submitted is Some {
                ProfileGenerationKind::Incubation
            } else {
                ProfileGenerationKind::Update
            }
        }),
        r.profile == submitted,
        r.text@ == profile_completion_text(submitted),
{
    let default_kind = match &submitted {
        Some(_) => ProfileGenerationKind::Incubation,
        None => ProfileGenerationKind::Update,
    };
    let mut kind = default_kind;
    match find_profile_item(items, task_id) {
        Some(i) => {
            let c = items[i].context.unwrap();
            kind = c.kind;
            items[i].context = Some(ProfileGenerationContext { exception_count: 0, ..c });
        },
        None => {},
    }
    let text = match &submitted {
        Some(p) => concat2("profile submitted: ", p.name.as_str()),
        None => "profile update skipped".to_owned(),
    };
    ProfileCompletion { kind, profile: submitted, text }
}

/// The positions of the tool-calling loops of the task and work item: they
/// end with the profile generation, so no further model request follows.
pub fn loops_to_end(states: &[ToolCallingState], task_id: TaskId, work_item_id: Option<u128>) -> (r: Vec<usize>)
    ensures
        forall|k: int| 0 <= k < r@.len() ==> r@[k] < states@.len() && belongs_to(states@[r@[k] as int], task_id, work_item_id),
        forall|i: int| 0 <= i < states@.len() && belongs_to(#[trigger] states@[i], task_id, work_item_id) ==> r@.contains(i as usize),
        forall|a: int, b: int| 0 <= a < b < r@.len() ==> r@[a] < r@[b],
{
    let mut out: Vec<usize> = Vec::new();
    let n = states.len();
    for i in 0..n
        invariant
            n == states@.len(),
            forall|k: int| 0 <= k < out@.len() ==> out@[k] < i && belongs_to(states@[out@[k] as int], task_id, work_item_id),
            forall|j: int| 0 <= j < i && belongs_to(#[trigger] states@[j], task_id, work_item_id) ==> out@.contains(j as usize),
            forall|a: int, b: int| 0 <= a < b < out@.len() ==> out@[a] < out@[b],
    {
        if states[i].task_id == task_id && states[i].work_item_id == work_item_id {
            let ghost before = out@;
            out.push(i);
            proof {
                assert(out@[out@.len() - 1] == i);
                assert forall|j: int| 0 <= j < i + 1 && belongs_to(#[trigger] states@[j], task_id, work_item_id) implies out@.contains(j as usize) by {
                    if j < i {
                        assert(before.contains(j as usize));
                        let k = choose|k: int| 0 <= k < before.len() && before[k] == j as usize;
                        assert(out@[k] == before[k]);
                    } else {
                        assert(out@[out@.len() - 1] == j as usize);
                    }
                }
            }
        } else {
            proof {
                assert forall|j: int| 0 <= j < i + 1 && belongs_to(#[trigger] states@[j], task_id, work_item_id) implies out@.contains(j as usize) by {
                    if j == i {
                        assert(!belongs_to(states@[j], task_id, work_item_id));
                    }
                }
            }
        }
    }
    out
}

/// How the work item of a skill update was found.
#[derive(Debug)]
pub enum WorkItemLookup {
    /// The request names no work-item entity.
    NoEntity,
    /// The entity, given by its debug text, is not among the work items.
    NotAWorkItem(String),
    /// The work item, given by its entity's debug text, has no skill-update context.
    NoContext(String),
    /// The skill-update context of the work item.
    Found(SkillUpdateContext),
}

/// A skill update that passed its dry run.
#[derive(Debug)]
pub struct SkillUpdateSubmission {
    pub work_item_id: u128,
    pub skill_id: String,
    pub base_version: u32,
    pub new_version: u32,
    pub operations_count: usize,
    pub rationale: String,
    /// The text the model is shown.
    pub text: String,
}

/// A skill id as text: `<agent>/<skill>`.
pub open spec fn skill_id_text(agent: Seq<char>, skill: Seq<char>) -> Seq<char> {
    agent + "/"@ + skill
}

/// The file a skill update is checked against.
pub fn skill_md_path(loader: &SkillLoader, ctx: &SkillUpdateContext) -> (r: String)
    ensures
        r@ == crate::text::path_join(
            skill_dir_path(loader.base_dir@, ctx.skill_id.agent@, ctx.skill_id.skill@),
            "SKILL.md"@,
        ),
{
    let dir = loader.skill_dir(&ctx.skill_id);
    crate::text::join_path(dir.as_str(), "SKILL.md")
}

/// The hint that follows a failed dry run.
pub open spec fn dry_run_hint() -> Seq<char> {
    ". 注意：replace_section / replace_subsection 的 content 字段不得包含标题行本身（系统会自动保留原标题），只需提供标题下方的正文内容。若为 SectionNotFound，请确保 section 名与原 SKILL.md 中实际存在的标题完全一致。"@
}

/// What settling a skill update gives, by the checks in order: a work item
/// id, a work-item entity, a work item, its skill-update context, the read of
/// SKILL.md, the dry run of the operations.
pub open spec fn skill_update_outcome(
    work_item_id: Option<u128>,
    lookup: WorkItemLookup,
    read_error: Option<String>,
    dry_run: Result<(), String>,
    operations_count: usize,
    rationale: Seq<char>,
    r: Result<SkillUpdateSubmission, ToolError>,
) -> bool {
    match work_item_id {
        None => r matches Err(ToolError::InternalState(m)) && m@ == "work_item_id missing for submit_skill_update"@,
        Some(w) => match lookup {
            WorkItemLookup::NoEntity => r matches Err(ToolError::InternalState(m)) && m@
                == "work_item_entity missing for submit_skill_update (framework state inconsistency)"@,
            WorkItemLookup::NotAWorkItem(e) => r matches Err(ToolError::InternalState(m)) && m@ == "WorkItem entity "@
                + e@ + " not in context_queries for work_item_id="@ + uuid_text(w),
            WorkItemLookup::NoContext(e) => r matches Err(ToolError::InternalState(m)) && m@
                == "SkillUpdateContext not found on work_item_entity "@ + e@ + " for work_item_id="@ + uuid_text(w),
            WorkItemLookup::Found(c) => match read_error {
                Some(x) => r matches Err(ToolError::InternalState(m)) && m@ == "failed to read SKILL.md for dry-run: "@
                    + x@,
                None => match dry_run {
                    Err(x) => r matches Err(ToolError::InvalidInput(m)) && m@ == "operations dry-run failed: "@ + x@
                        + dry_run_hint(),
                    Ok(()) => r matches Ok(s) && {
                        &&& s.work_item_id == w
                        &&& s.skill_id@ == skill_id_text(c.skill_id.agent@, c.skill_id.skill@)
                        &&& s.base_version == c.base_version
                        &&& s.new_version == c.base_version + 1
                        &&& s.operations_count == operations_count
                        &&& s.rationale@ == rationale
                        &&& s.text@ == "skill update submitted: "@ + s.skill_id@ + " (v"@ + crate::text::decimal(
                            c.base_version as int,
                        ) + " -> v"@ + crate::text::decimal(c.base_version + 1) + ")"@
                    },
                },
            },
        },
    }
}

/// Settles a submitted skill update. The skill id and versions come from the
/// work item's context, never from the model; `read_error` and `dry_run`
/// are what reading SKILL.md and applying the operations to it gave.
pub fn settle_skill_update(
    work_item_id: Option<u128>,
    lookup: WorkItemLookup,
    read_error: Option<String>,
    dry_run: Result<(), String>,
    operations_count: usize,
    rationale: String,
) -> (r: Result<SkillUpdateSubmission, ToolError>)
    requires
        lookup matches WorkItemLookup::Found(c) ==> c.base_version < u32::MAX,
    ensures
        skill_update_outcome(work_item_id, lookup, read_error, dry_run, operations_count, rationale@, r),
{
    let w = match work_item_id {
        Some(w) => w,
        None => {
            return Err(ToolError::InternalState("work_item_id missing for submit_skill_update".to_owned()));
        },
    };
    let ctx = match lookup {
        WorkItemLookup::NoEntity => {
            return Err(
                ToolError::InternalState(
                    "work_item_entity missing for submit_skill_update (framework state inconsistency)".to_owned(),
                ),
            );
        },
        WorkItemLookup::NotAWorkItem(e) => {
            let id = crate::ids::uuid_to_string(w);
            return Err(
                ToolError::InternalState(
                    concat2(
                        concat3("WorkItem entity ", e.as_str(), " not in context_queries for work_item_id=").as_str(),
                        id.as_str(),
                    ),
                ),
            );
        },
        WorkItemLookup::NoContext(e) => {
            let id = crate::ids::uuid_to_string(w);
            return Err(
                ToolError::InternalState(
                    concat2(
                        concat3("SkillUpdateContext not found on work_item_entity ", e.as_str(), " for work_item_id=").as_str(),
                        id.as_str(),
                    ),
                ),
            );
        },
        WorkItemLookup::Found(c) => c,
    };
    match read_error {
        Some(x) => {
            return Err(ToolError::InternalState(concat2("failed to read SKILL.md for dry-run: ", x.as_str())));
        },
        None => {},
    }
    match dry_run {
        Err(x) => {
            let hint = ". 注意：replace_section / replace_subsection 的 content 字段不得包含标题行本身（系统会自动保留原标题），只需提供标题下方的正文内容。若为 SectionNotFound，请确保 section 名与原 SKILL.md 中实际存在的标题完全一致。";
            return Err(ToolError::InvalidInput(concat3("operations dry-run failed: ", x.as_str(), hint)));
        },
        Ok(()) => {},
    }
    let skill_id = concat3(ctx.skill_id.agent.as_str(), "/", ctx.skill_id.skill.as_str());
    let base = ctx.base_version;
    let next = base + 1;
    let base_text = crate::text::i64_text(base as i64);
    let next_text = crate::text::i64_text(next as i64);
    let head = concat3("skill update submitted: ", skill_id.as_str(), " (v");
    let text = concat5(head.as_str(), base_text.as_str(), " -> v", next_text.as_str(), ")");
    Ok(
        SkillUpdateSubmission {
            work_item_id: w,
            skill_id,
            base_version: base,
            new_version: next,
            operations_count,
            rationale,
            text,
        },
    )
}

} // verus!
