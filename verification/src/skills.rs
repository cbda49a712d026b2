//! Skills and experience: where a task's skill directory lies, which files in
//! it the tools may touch, and the experience candidates that agents submit.

use vstd::prelude::*;
use crate::domain::{AgentId, TaskId, ToolError};
use crate::json::{get, items_of, text_field, text_field_of, texts_field, texts_field_of, JsonValue};
use crate::scheduling::ToolEffect;
use crate::text::{concat2, concat3, has_double_dot, join_path, path_join, trim};
use crate::tools::{
    internal_state, invalid_input, opt_view, texts, ToolAction, ToolActionKind, ToolContext,
};

verus! {

/// The skill-creation work of a task: its sandbox directory.
#[derive(Debug)]
pub struct SkillCreationContext {
    pub task_id: TaskId,
    pub agent_id: AgentId,
    pub agent_name: String,
    pub sandbox_dir: String,
    pub skill_name: String,
}

/// A skill, named by the agent that owns it and its own name.
#[derive(Debug)]
pub struct SkillId {
    pub agent: String,
    pub skill: String,
}

/// The skill-update work of a task.
#[derive(Debug)]
pub struct SkillUpdateContext {
    pub skill_id: SkillId,
    pub base_version: u32,
    pub experience_candidate_id: u128,
    pub governing_agent_id: AgentId,
}

/// Finds the skills on disk: `<base>/<agent>/skills/<skill>/SKILL.md`.
#[derive(Debug)]
pub struct SkillLoader {
    pub base_dir: String,
}

/// The directory of a skill under a base directory: the base joined with
/// the agent, `skills` and the skill, as paths join.
pub open spec fn skill_dir_path(base: Seq<char>, agent: Seq<char>, skill: Seq<char>) -> Seq<char> {
    path_join(path_join(path_join(base, agent), "skills"@), skill)
}

impl SkillLoader {
    /// The directory that holds the skill's `SKILL.md`.
    pub fn skill_dir(&self, id: &SkillId) -> (r: String)
        ensures
            r@ == skill_dir_path(self.base_dir@, id.agent@, id.skill@),
    {
        let a = join_path(self.base_dir.as_str(), id.agent.as_str());
        let b = join_path(a.as_str(), "skills");
        join_path(b.as_str(), id.skill.as_str())
    }
}

/// The skill directory of the current task: a creation's sandbox first, else
/// the directory of the skill being updated, where a loader is at hand.
pub fn resolve_skill_dir_from_context(
    creation_ctx: Option<&SkillCreationContext>,
    update_ctx: Option<&SkillUpdateContext>,
    skill_loader: Option<&SkillLoader>,
) -> (r: Option<String>)
    ensures
        match creation_ctx {
            Some(c) => opt_view(r) == Some(c.sandbox_dir@),
            None => match (update_ctx, skill_loader) {
                (Some(u), Some(l)) => opt_view(r) == Some(
                    skill_dir_path(l.base_dir@, u.skill_id.agent@, u.skill_id.skill@),
                ),
                _ => r is None,
            },
        },
{
    if let Some(c) = creation_ctx {
        return Some(c.sandbox_dir.clone());
    }
    if let Some(u) = update_ctx {
        return match skill_loader {
            Some(l) => Some(l.skill_dir(&u.skill_id)),
            None => None,
        };
    }
    None
}

/// `s` ends with `suffix`.
pub open spec fn has_suffix(s: Seq<char>, suffix: Seq<char>) -> bool {
    suffix.len() <= s.len() && s.subrange(s.len() - suffix.len(), s.len() as int) == suffix
}

fn ends_with(s: &str, suffix: &str) -> (r: bool)
    ensures
        r == has_suffix(s@, suffix@),
{
    let cs = crate::text::chars_of(s);
    let xs = crate::text::chars_of(suffix);
    if xs.len() > cs.len() {
        return false;
    }
    let off = cs.len() - xs.len();
    let m = xs.len();
    for i in 0..m
        invariant
            m == xs@.len(),
            off + m == cs@.len(),
            cs@.len() == cs.len(),
            cs@ == s@,
            xs@ == suffix@,
            forall|k: int| 0 <= k < i ==> cs@[off + k] == xs@[k],
    {
        if cs[off + i] != xs[i] {
            assert(s@.subrange(off as int, s@.len() as int)[i as int] != suffix@[i as int]);
            return false;
        }
    }
    assert(s@.subrange(off as int, s@.len() as int) =~= suffix@);
    true
}

/// The file kinds a skill directory may hold, by suffix.
pub open spec fn allowed_suffix(path: Seq<char>) -> bool {
    has_suffix(path, ".md"@) || has_suffix(path, ".py"@) || has_suffix(path, ".sh"@) || has_suffix(
        path,
        ".txt"@,
    ) || has_suffix(path, ".json"@) || has_suffix(path, ".yaml"@) || has_suffix(path, ".yml"@)
}

fn is_allowed_suffix(path: &str) -> (r: bool)
    ensures
        r == allowed_suffix(path@),
{
    ends_with(path, ".md") || ends_with(path, ".py") || ends_with(path, ".sh") || ends_with(
        path,
        ".txt",
    ) || ends_with(path, ".json") || ends_with(path, ".yaml") || ends_with(path, ".yml")
}

/// Checks a path inside a skill directory: relative, without `..`, and of an
/// allowed kind. Gives the path joined to the directory, or why not.
pub open spec fn skill_file_path(path: Seq<char>, dir: Seq<char>) -> Result<Seq<char>, Seq<char>> {
    if path.len() > 0 && (path[0] == '/' || path[0] == '\\') {
        Err("absolute path not allowed: "@ + path)
    } else if has_double_dot(path) {
        Err("path traversal '..' not allowed: "@ + path)
    } else if !allowed_suffix(path) {
        Err("file suffix not allowed: "@ + path)
    } else {
        Ok(path_join(dir, path))
    }
}

/// Checks a path inside a skill directory (see `skill_file_path`).
pub fn validate_skill_file_path(path: &str, dir: &str) -> (r: Result<String, String>)
    ensures
        match skill_file_path(path@, dir@) {
            Ok(p) => r matches Ok(x) && x@ == p,
            Err(m) => r matches Err(x) && x@ == m,
        },
{
    let cs = crate::text::chars_of(path);
    if cs.len() > 0 && (cs[0] == '/' || cs[0] == '\\') {
        return Err(concat2("absolute path not allowed: ", path));
    }
    if crate::text::contains_double_dot(&cs) {
        return Err(concat2("path traversal '..' not allowed: ", path));
    }
    if !is_allowed_suffix(path) {
        return Err(concat2("file suffix not allowed: ", path));
    }
    Ok(join_path(dir, path))
}

/// Writes a file into the skill sandbox.
pub struct WriteSkillFileTool;

impl WriteSkillFileTool {
    pub fn name(&self) -> (r: &'static str)
        ensures
            r@ == "write_skill_file"@,
    {
        "write_skill_file"
    }

    pub fn kind(&self) -> (r: ToolActionKind)
        ensures
            r == ToolActionKind::Async,
    {
        ToolActionKind::Async
    }

    /// The tool runs on a worker only; called inline it refuses.
    pub fn execute(&self, _input: &JsonValue, _ctx: &ToolContext) -> (r: Result<ToolAction, ToolError>)
        ensures
            internal_state(r, "write_skill_file is async-only, must go through run_async"@),
    {
        Err(
            ToolError::InternalState(
                "write_skill_file is async-only, must go through run_async".to_owned(),
            ),
        )
    }

    /// The worker: reads `path` (trimmed) and `content`, both required, and
    /// checks the path against the skill directory; the write itself is an
    /// effect the main loop applies.
    pub fn run(&self, input: &JsonValue, skill_dir: &Option<String>) -> (r: Result<ToolEffect, ToolError>)
        ensures
            match text_field(*input, "path"@) {
                None => invalid_input(r, "path is required"@),
                Some(p) => match text_field(*input, "content"@) {
                    None => invalid_input(r, "content is required"@),
                    Some(c) => match skill_dir {
                        None => invalid_input(r, "no skill directory in current context"@),
                        Some(d) => match skill_file_path(trim(p), d@) {
                            Err(m) => invalid_input(r, "invalid path: "@ + m),
                            Ok(_) => r matches Ok(
                                ToolEffect::WriteSkillFile { sandbox_dir, path, content },
                            ) && sandbox_dir@ == d@ && path@ == trim(p) && content@ == c,
                        },
                    },
                },
            },
    {
        let path = match text_field_of(input, "path") {
            Some(p) => crate::text::trim_str(p.as_str()),
            None => {
                return Err(ToolError::InvalidInput("path is required".to_owned()));
            },
        };
        let content = match text_field_of(input, "content") {
            Some(c) => c,
            None => {
                return Err(ToolError::InvalidInput("content is required".to_owned()));
            },
        };
        let dir = match skill_dir {
            Some(d) => d,
            None => {
                return Err(
                    ToolError::InvalidInput("no skill directory in current context".to_owned()),
                );
            },
        };
        match validate_skill_file_path(path.as_str(), dir.as_str()) {
            Err(e) => Err(ToolError::InvalidInput(concat2("invalid path: ", e.as_str()))),
            Ok(_) => Ok(ToolEffect::WriteSkillFile { sandbox_dir: dir.clone(), path, content }),
        }
    }
}

/// A checked request to read a file of the skill directory.
#[derive(Debug)]
pub struct SkillFileRead {
    /// The path as the call gave it.
    pub path: String,
    /// The file to read.
    pub full_path: String,
}

/// Reads a file of the skill directory.
pub struct ReadSkillFileTool;

impl ReadSkillFileTool {
    pub fn name(&self) -> (r: &'static str)
        ensures
            r@ == "read_skill_file"@,
    {
        "read_skill_file"
    }

    pub fn kind(&self) -> (r: ToolActionKind)
        ensures
            r == ToolActionKind::Async,
    {
        ToolActionKind::Async
    }

    /// The tool runs on a worker only; called inline it refuses.
    pub fn execute(&self, _input: &JsonValue, _ctx: &ToolContext) -> (r: Result<ToolAction, ToolError>)
        ensures
            internal_state(r, "read_skill_file is async-only, must go through run_async"@),
    {
        Err(
            ToolError::InternalState(
                "read_skill_file is async-only, must go through run_async".to_owned(),
            ),
        )
    }

    /// The worker's check: `path` must be a non-empty text naming an allowed
    /// file of the skill directory; the answer is the file to read.
    pub fn run(&self, input: &JsonValue, skill_dir: &Option<String>) -> (r: Result<SkillFileRead, ToolError>)
        ensures
            match text_field(*input, "path"@) {
                None => invalid_input(r, "missing path"@),
                Some(p) => if p.len() == 0 {
                    invalid_input(r, "path must not be empty"@)
                } else {
                    match skill_dir {
                        None => invalid_input(r, "no skill directory in current context"@),
                        Some(d) => match skill_file_path(p, d@) {
                            Err(m) => invalid_input(r, "invalid path: "@ + m),
                            Ok(full) => r matches Ok(req) && req.path@ == p && req.full_path@
                                == full,
                        },
                    }
                },
            },
    {
        let path = match text_field_of(input, "path") {
            Some(p) => p,
            None => {
                return Err(ToolError::InvalidInput("missing path".to_owned()));
            },
        };
        if path.as_str().is_empty() {
            return Err(ToolError::InvalidInput("path must not be empty".to_owned()));
        }
        let dir = match skill_dir {
            Some(d) => d,
            None => {
                return Err(
                    ToolError::InvalidInput("no skill directory in current context".to_owned()),
                );
            },
        };
        match validate_skill_file_path(path.as_str(), dir.as_str()) {
            Err(e) => Err(ToolError::InvalidInput(concat2("invalid path: ", e.as_str()))),
            Ok(full_path) => Ok(SkillFileRead { path, full_path }),
        }
    }
}

/// A frontmatter field a skill update may change.
#[derive(Debug, Clone, Copy, PartialEq, Eq, Structural)]
pub enum FrontmatterField {
    Name,
    Description,
    SelfUpdatable,
}

/// One structured edit of a skill's SKILL.md.
#[derive(Debug)]
pub enum SkillUpdateOperation {
    /// Replace the body of a section.
    ReplaceSection { section: String, content: String },
    /// Add a section, after the named one if given.
    AddSection { section: String, after: Option<String>, content: String },
    /// Remove a section.
    RemoveSection { section: String },
    /// Set a frontmatter field.
    ReplaceFrontmatter { field: FrontmatterField, value: String },
}

/// The frontmatter field a name stands for.
pub open spec fn frontmatter_field(t: Seq<char>) -> Option<FrontmatterField> {
    if t == "name"@ {
        Some(FrontmatterField::Name)
    } else if t == "description"@ {
        Some(FrontmatterField::Description)
    } else if t == "self_updatable"@ {
        Some(FrontmatterField::SelfUpdatable)
    } else {
        None
    }
}

/// The first text field of `keys` that `v` lacks, as a complaint.
pub open spec fn missing_of(v: JsonValue, keys: Seq<Seq<char>>) -> Option<Seq<char>>
    decreases keys.len(),
{
    if keys.len() == 0 {
        None
    } else if text_field(v, keys[0]) is None {
        Some("missing "@ + keys[0])
    } else {
        missing_of(v, keys.drop_first())
    }
}

/// Why `v` is not an operation, if it is not one: the action must be one of
/// the four, with the text fields it needs (`replace_section` and
/// `add_section`: section and content; `remove_section`: section;
/// `replace_frontmatter`: a known field and a value).
pub open spec fn operation_error(v: JsonValue) -> Option<Seq<char>> {
    match text_field(v, "action"@) {
        None => Some("missing action"@),
        Some(a) => if a == "replace_section"@ || a == "add_section"@ {
            missing_of(v, seq!["section"@, "content"@])
        } else if a == "remove_section"@ {
            missing_of(v, seq!["section"@])
        } else if a == "replace_frontmatter"@ {
            match text_field(v, "field"@) {
                None => Some("missing field"@),
                Some(f) => if frontmatter_field(f) is None {
                    Some("unknown field: "@ + f)
                } else {
                    missing_of(v, seq!["value"@])
                },
            }
        } else {
            Some("unknown action: "@ + a)
        },
    }
}

/// `op` is what `v` describes.
pub open spec fn reads_as(op: SkillUpdateOperation, v: JsonValue) -> bool {
    match op {
        SkillUpdateOperation::ReplaceSection { section, content } => {
            &&& text_field(v, "action"@) == Some("replace_section"@)
            &&& text_field(v, "section"@) == Some(section@)
            &&& text_field(v, "content"@) == Some(content@)
        },
        SkillUpdateOperation::AddSection { section, after, content } => {
            &&& text_field(v, "action"@) == Some("add_section"@)
            &&& text_field(v, "section"@) == Some(section@)
            &&& text_field(v, "content"@) == Some(content@)
            &&& text_field(v, "after"@) == opt_view(after)
        },
        SkillUpdateOperation::RemoveSection { section } => {
            &&& text_field(v, "action"@) == Some("remove_section"@)
            &&& text_field(v, "section"@) == Some(section@)
        },
        SkillUpdateOperation::ReplaceFrontmatter { field, value } => {
            &&& text_field(v, "action"@) == Some("replace_frontmatter"@)
            &&& (text_field(v, "field"@) matches Some(f) && frontmatter_field(f) == Some(field))
            &&& text_field(v, "value"@) == Some(value@)
        },
    }
}

fn need_text(v: &JsonValue, key: &str) -> (r: Result<String, String>)
    ensures
        match text_field(*v, key@) {
            Some(t) => r matches Ok(s) && s@ == t,
            None => r matches Err(e) && e@ == "missing "@ + key@,
        },
{
    match text_field_of(v, key) {
        Some(t) => Ok(t),
        None => Err(concat2("missing ", key)),
    }
}

/// Reads one operation (see `operation_error` and `reads_as`).
pub fn parse_skill_operation(v: &JsonValue) -> (r: Result<SkillUpdateOperation, String>)
    ensures
        match operation_error(*v) {
            Some(m) => r matches Err(e) && e@ == m,
            None => r matches Ok(op) && reads_as(op, *v),
        },
{
    proof {
        reveal_with_fuel(missing_of, 3);
    }
    let action = match text_field_of(v, "action") {
        Some(a) => a,
        None => {
            return Err("missing action".to_owned());
        },
    };
    let a = action.as_str();
    if crate::text::str_eq(a, "replace_section") || crate::text::str_eq(a, "add_section") {
        let section = need_text(v, "section")?;
        let content = need_text(v, "content")?;
        if crate::text::str_eq(a, "replace_section") {
            Ok(SkillUpdateOperation::ReplaceSection { section, content })
        } else {
            Ok(SkillUpdateOperation::AddSection { section, after: text_field_of(v, "after"), content })
        }
    } else if crate::text::str_eq(a, "remove_section") {
        let section = need_text(v, "section")?;
        Ok(SkillUpdateOperation::RemoveSection { section })
    } else if crate::text::str_eq(a, "replace_frontmatter") {
        let f = match text_field_of(v, "field") {
            Some(f) => f,
            None => {
                return Err("missing field".to_owned());
            },
        };
        let field = if crate::text::str_eq(f.as_str(), "name") {
            FrontmatterField::Name
        } else if crate::text::str_eq(f.as_str(), "description") {
            FrontmatterField::Description
        } else if crate::text::str_eq(f.as_str(), "self_updatable") {
            FrontmatterField::SelfUpdatable
        } else {
            return Err(concat2("unknown field: ", f.as_str()));
        };
        let value = need_text(v, "value")?;
        Ok(SkillUpdateOperation::ReplaceFrontmatter { field, value })
    } else {
        Err(concat2("unknown action: ", a))
    }
}

/// Operation `i` is the first that fails to read.
pub open spec fn first_bad_operation(ops: Seq<JsonValue>, i: int) -> bool {
    &&& 0 <= i < ops.len()
    &&& operation_error(ops[i]) is Some
    &&& forall|j: int| 0 <= j < i ==> operation_error(#[trigger] ops[j]) is None
}

/// Submits structured edits to the skill of the current skill-update work.
pub struct SubmitSkillUpdateTool;

impl SubmitSkillUpdateTool {
    pub fn name(&self) -> (r: &'static str)
        ensures
            r@ == "submit_skill_update"@,
    {
        "submit_skill_update"
    }

    pub fn kind(&self) -> (r: ToolActionKind)
        ensures
            r == ToolActionKind::Sync,
    {
        ToolActionKind::Sync
    }

    /// Reads `operations` (an array of operations, required) and `rationale`
    /// (a non-empty text, required). The first operation that does not read
    /// refuses the call; the skill's identity comes from the task, not from
    /// the arguments.
    pub fn execute(&self, input: JsonValue, _ctx: &ToolContext) -> (r: Result<ToolAction, ToolError>)
        ensures
            match get(input, "operations"@) {
                None => invalid_input(r, "missing operations"@),
                Some(v) => match items_of(v) {
                    None => invalid_input(r, "missing operations"@),
                    Some(ops) => if exists|i: int| #[trigger] first_bad_operation(ops, i) {
                        exists|i: int|
                            #[trigger] first_bad_operation(ops, i) && invalid_input(
                                r,
                                "invalid operations: "@ + operation_error(ops[i])->0,
                            )
                    } else {
                        match text_field(input, "rationale"@) {
                            None => invalid_input(r, "missing rationale"@),
                            Some(t) => if t.len() == 0 {
                                invalid_input(r, "rationale must not be empty"@)
                            } else {
                                r matches Ok(ToolAction::SubmitSkillUpdate { operations, rationale })
                                    && operations@.len() == ops.len() && (forall|k: int|
                                    0 <= k < ops.len() ==> reads_as(#[trigger] operations@[k], ops[k]))
                                    && rationale@ == t
                            },
                        }
                    },
                },
            },
    {
        let rationale = text_field_of(&input, "rationale");
        let items = match input.get("operations") {
            Some(JsonValue::Array(items)) => items,
            _ => {
                return Err(ToolError::InvalidInput("missing operations".to_owned()));
            },
        };
        let mut operations: Vec<SkillUpdateOperation> = Vec::new();
        let n = items.len();
        for i in 0..n
            invariant
                n == items@.len(),
                get(input, "operations"@) matches Some(v) && items_of(v) == Some(items@),
                operations@.len() == i,
                forall|j: int| 0 <= j < i ==> operation_error(#[trigger] items@[j]) is None,
                forall|k: int| 0 <= k < i ==> reads_as(#[trigger] operations@[k], items@[k]),
        {
            match parse_skill_operation(&items[i]) {
                Ok(op) => operations.push(op),
                Err(e) => {
                    assert(first_bad_operation(items@, i as int));
                    let r = Err(ToolError::InvalidInput(concat2("invalid operations: ", e.as_str())));
                    assert(invalid_input(r, "invalid operations: "@ + operation_error(items@[i as int])->0));
                    assert(exists|k: int| #[trigger] first_bad_operation(items@, k));
                    assert(exists|k: int|
                        #[trigger] first_bad_operation(items@, k) && invalid_input(
                            r,
                            "invalid operations: "@ + operation_error(items@[k])->0,
                        ));
                    assert(get(input, "operations"@) matches Some(v) && items_of(v) == Some(items@));
                    return r;
                },
            }
        }
        proof {
            if exists|i: int| first_bad_operation(items@, i) {
                let i = choose|i: int| first_bad_operation(items@, i);
                assert(operation_error(items@[i]) is None);
            }
        }
        let rationale = match rationale {
            Some(t) => t,
            None => {
                return Err(ToolError::InvalidInput("missing rationale".to_owned()));
            },
        };
        if rationale.as_str().is_empty() {
            return Err(ToolError::InvalidInput("rationale must not be empty".to_owned()));
        }
        Ok(ToolAction::SubmitSkillUpdate { operations, rationale })
    }
}

/// Whether an experience is knowledge to remember or a skill to build.
#[derive(Debug, Clone, Copy, PartialEq, Eq, Structural)]
pub enum ExperienceKindHint {
    Knowledge,
    Skill,
}

/// A file that a skill candidate refers to.
#[derive(Debug)]
pub struct FileRef {
    pub path: String,
}

/// An experience candidate as an agent submits it.
#[derive(Debug)]
pub struct ExperienceCandidateSubmission {
    pub task_id: TaskId,
    pub agent_id: AgentId,
    pub title: String,
    pub kind: ExperienceKindHint,
    pub content: Option<String>,
    pub skill_description: Option<String>,
    pub instructions: Option<String>,
    pub file_refs: Vec<FileRef>,
}

/// The kind a name stands for.
pub open spec fn kind_named(t: Seq<char>) -> Option<ExperienceKindHint> {
    if t == "knowledge"@ {
        Some(ExperienceKindHint::Knowledge)
    } else if t == "skill"@ {
        Some(ExperienceKindHint::Skill)
    } else {
        None
    }
}

/// An optional text, absent counted as empty.
pub open spec fn or_empty(o: Option<Seq<char>>) -> Seq<char> {
    match o {
        Some(t) => t,
        None => Seq::empty(),
    }
}

/// The paths of file references.
pub open spec fn ref_paths(v: Seq<FileRef>) -> Seq<Seq<char>> {
    v.map_values(|f: FileRef| f.path@)
}

/// What a submission's arguments decide: the refusal's message, or `Ok`.
pub open spec fn submission_check(input: JsonValue) -> Result<ExperienceKindHint, Seq<char>> {
    match text_field(input, "title"@) {
        None => Err("missing title"@),
        Some(_) => match text_field(input, "kind"@) {
            None => Err("missing kind"@),
            Some(k) => match kind_named(k) {
                None => Err("unknown kind: "@ + k),
                Some(ExperienceKindHint::Knowledge) => if or_empty(
                    text_field(input, "content"@),
                ).len() == 0 {
                    Err("knowledge kind requires non-empty content"@)
                } else {
                    Ok(ExperienceKindHint::Knowledge)
                },
                Some(ExperienceKindHint::Skill) => if or_empty(
                    text_field(input, "skill_description"@),
                ).len() == 0 {
                    Err("skill kind requires non-empty skill_description"@)
                } else if or_empty(text_field(input, "instructions"@)).len() == 0 {
                    Err("skill kind requires non-empty instructions"@)
                } else {
                    Ok(ExperienceKindHint::Skill)
                },
            },
        },
    }
}

/// The referenced paths that are not present, in order.
pub open spec fn missing_paths(paths: Seq<Seq<char>>, present: Seq<bool>) -> Seq<Seq<char>>
    decreases paths.len(),
{
    if paths.len() == 0 {
        Seq::empty()
    } else {
        let prev = missing_paths(paths.drop_last(), present);
        if present[paths.len() - 1] {
            prev
        } else {
            prev.push(paths.last())
        }
    }
}

/// Texts joined with `, `.
pub open spec fn comma_joined(ts: Seq<Seq<char>>) -> Seq<char>
    decreases ts.len(),
{
    if ts.len() == 0 {
        Seq::empty()
    } else if ts.len() == 1 {
        ts[0]
    } else {
        comma_joined(ts.drop_last()) + ", "@ + ts.last()
    }
}

/// Submits a reusable experience from a finished task.
pub struct SubmitExperienceCandidateTool;

impl SubmitExperienceCandidateTool {
    pub fn name(&self) -> (r: &'static str)
        ensures
            r@ == "submit_experience_candidate"@,
    {
        "submit_experience_candidate"
    }

    pub fn kind(&self) -> (r: ToolActionKind)
        ensures
            r == ToolActionKind::Sync,
    {
        ToolActionKind::Sync
    }

    /// Reads `title` and `kind` (`knowledge` or `skill`, both required),
    /// `content`, `skill_description`, `instructions` and `file_refs` (an
    /// array of paths). Knowledge needs content; a skill needs a
    /// description and instructions.
    pub fn parse(&self, input: &JsonValue, ctx: &ToolContext) -> (r: Result<
        ExperienceCandidateSubmission,
        ToolError,
    >)
        ensures
            match submission_check(*input) {
                Err(m) => invalid_input(r, m),
                Ok(kind) => r matches Ok(sub) && sub.kind == kind && Some(sub.title@) == text_field(
                    *input,
                    "title"@,
                ) && opt_view(sub.content) == text_field(*input, "content"@) && opt_view(
                    sub.skill_description,
                ) == text_field(*input, "skill_description"@) && opt_view(sub.instructions)
                    == text_field(*input, "instructions"@) && ref_paths(sub.file_refs@)
                    == texts_field(*input, "file_refs"@) && sub.task_id == ctx.current_task_id
                    && sub.agent_id == ctx.current_agent_id,
            },
    {
        let title = match text_field_of(input, "title") {
            Some(t) => t,
            None => {
                return Err(ToolError::InvalidInput("missing title".to_owned()));
            },
        };
        let kind_text = match text_field_of(input, "kind") {
            Some(k) => k,
            None => {
                return Err(ToolError::InvalidInput("missing kind".to_owned()));
            },
        };
        let kind = if crate::text::str_eq(kind_text.as_str(), "knowledge") {
            ExperienceKindHint::Knowledge
        } else if crate::text::str_eq(kind_text.as_str(), "skill") {
            ExperienceKindHint::Skill
        } else {
            return Err(ToolError::InvalidInput(concat2("unknown kind: ", kind_text.as_str())));
        };
        let content = text_field_of(input, "content");
        let skill_description = text_field_of(input, "skill_description");
        let instructions = text_field_of(input, "instructions");
        match kind {
            ExperienceKindHint::Knowledge => {
                if is_blank(&content) {
                    return Err(
                        ToolError::InvalidInput(
                            "knowledge kind requires non-empty content".to_owned(),
                        ),
                    );
                }
            },
            ExperienceKindHint::Skill => {
                if is_blank(&skill_description) {
                    return Err(
                        ToolError::InvalidInput(
                            "skill kind requires non-empty skill_description".to_owned(),
                        ),
                    );
                }
                if is_blank(&instructions) {
                    return Err(
                        ToolError::InvalidInput(
                            "skill kind requires non-empty instructions".to_owned(),
                        ),
                    );
                }
            },
        }
        let paths = texts_field_of(input, "file_refs");
        let mut file_refs: Vec<FileRef> = Vec::new();
        let n = paths.len();
        for i in 0..n
            invariant
                n == paths@.len(),
                ref_paths(file_refs@) =~= texts(paths@).take(i as int),
        {
            let ghost before = file_refs@;
            let fr = FileRef { path: paths[i].clone() };
            assert(fr.path@ == texts(paths@)[i as int]);
            file_refs.push(fr);
            assert(ref_paths(file_refs@) =~= ref_paths(before).push(fr.path@));
            assert(texts(paths@).take(i + 1) =~= texts(paths@).take(i as int).push(
                texts(paths@)[i as int],
            ));
            assert(ref_paths(file_refs@) =~= texts(paths@).take(i + 1));
        }
        assert(texts(paths@).take(n as int) =~= texts(paths@));
        Ok(
            ExperienceCandidateSubmission {
                task_id: ctx.current_task_id,
                agent_id: ctx.current_agent_id,
                title,
                kind,
                content,
                skill_description,
                instructions,
                file_refs,
            },
        )
    }

    /// Finishes a parsed submission once the runtime has looked for its
    /// files (`present[i]` for `file_refs[i]`): a skill may not refer to a
    /// file that does not exist; knowledge is not checked.
    pub fn check_file_refs(&self, sub: ExperienceCandidateSubmission, present: &[bool]) -> (r: Result<
        ToolAction,
        ToolError,
    >)
        requires
            present@.len() == sub.file_refs@.len(),
        ensures
            ({
                let missing = missing_paths(ref_paths(sub.file_refs@), present@);
                if sub.kind == ExperienceKindHint::Skill && missing.len() > 0 {
                    invalid_input(
                        r,
                        "skill file_refs references non-existent files: "@ + comma_joined(missing),
                    )
                } else {
                    r == Ok::<ToolAction, ToolError>(ToolAction::SubmitExperienceCandidate(sub))
                }
            }),
    {
        if sub.kind == ExperienceKindHint::Knowledge {
            return Ok(ToolAction::SubmitExperienceCandidate(sub));
        }
        let ghost paths = ref_paths(sub.file_refs@);
        let mut joined = String::new();
        let mut count: usize = 0;
        let n = sub.file_refs.len();
        for i in 0..n
            invariant
                n == sub.file_refs@.len(),
                present@.len() == n,
                paths == ref_paths(sub.file_refs@),
                count == missing_paths(paths.take(i as int), present@).len(),
                count <= i,
                joined@ == comma_joined(missing_paths(paths.take(i as int), present@)),
        {
            let ghost prefix = paths.take(i + 1);
            assert(prefix.drop_last() =~= paths.take(i as int));
            assert(prefix.last() == sub.file_refs@[i as int].path@);
            let ghost prev = missing_paths(paths.take(i as int), present@);
            if !present[i] {
                proof {
                    let now = missing_paths(prefix, present@);
                    assert(now == prev.push(prefix.last()));
                    assert(now.drop_last() =~= prev);
                }
                if count == 0 {
                    joined = sub.file_refs[i].path.clone();
                } else {
                    joined = concat3(joined.as_str(), ", ", sub.file_refs[i].path.as_str());
                }
                count = count + 1;
            }
        }
        assert(paths.take(n as int) =~= paths);
        if count > 0 {
            return Err(
                ToolError::InvalidInput(
                    concat2("skill file_refs references non-existent files: ", joined.as_str()),
                ),
            );
        }
        Ok(ToolAction::SubmitExperienceCandidate(sub))
    }
}

/// An absent text counts as empty.
fn is_blank(o: &Option<String>) -> (r: bool)
    ensures
        r == (or_empty(opt_view(*o)).len() == 0),
{
    match o {
        Some(t) => t.as_str().is_empty(),
        None => true,
    }
}

/// Where an experience candidate stands.
#[derive(Debug, Clone, Copy, PartialEq, Eq, Structural)]
pub enum ExperienceCandidateStatus {
    Submitted,
}

/// What a candidate holds, by kind.
#[derive(Debug)]
pub enum ExperienceCandidatePayload {
    Knowledge { content: String },
    Skill { name: String, description: String, instructions: String, file_refs: Vec<FileRef> },
}

/// An experience candidate in a task's inbox.
#[derive(Debug)]
pub struct ExperienceCandidate {
    pub candidate_id: u128,
    pub producer_task_id: TaskId,
    pub producer_agent_id: AgentId,
    pub title: String,
    pub kind_hint: ExperienceKindHint,
    pub payload: ExperienceCandidatePayload,
    pub status: ExperienceCandidateStatus,
    pub governing_agent_id: Option<AgentId>,
}

impl ExperienceCandidate {
    /// The candidate a submission becomes, under a fresh id: knowledge keeps
    /// its content, a skill its title as name, description, instructions and
    /// files (absent texts become empty).
    pub fn from_submission(sub: ExperienceCandidateSubmission, agent_id: AgentId, task_id: TaskId) -> (c: ExperienceCandidate)
        ensures
            c.producer_task_id == task_id,
            c.producer_agent_id == agent_id,
            c.title@ == sub.title@,
            c.kind_hint == sub.kind,
            c.status == ExperienceCandidateStatus::Submitted,
            c.governing_agent_id is None,
            match sub.kind {
                ExperienceKindHint::Knowledge => c.payload matches ExperienceCandidatePayload::Knowledge { content }
                    && content@ == or_empty(opt_view(sub.content)),
                ExperienceKindHint::Skill => c.payload matches ExperienceCandidatePayload::Skill {
                    name,
                    description,
                    instructions,
                    file_refs,
                } && name@ == sub.title@ && description@ == or_empty(opt_view(sub.skill_description))
                    && instructions@ == or_empty(opt_view(sub.instructions)) && file_refs@
                    == sub.file_refs@,
            },
    {
        let payload = match sub.kind {
            ExperienceKindHint::Knowledge => ExperienceCandidatePayload::Knowledge {
                content: text_or_empty(sub.content),
            },
            ExperienceKindHint::Skill => ExperienceCandidatePayload::Skill {
                name: sub.title.clone(),
                description: text_or_empty(sub.skill_description),
                instructions: text_or_empty(sub.instructions),
                file_refs: sub.file_refs,
            },
        };
        ExperienceCandidate {
            candidate_id: crate::ids::new_uuid(),
            producer_task_id: task_id,
            producer_agent_id: agent_id,
            title: sub.title,
            kind_hint: sub.kind,
            payload,
            status: ExperienceCandidateStatus::Submitted,
            governing_agent_id: None,
        }
    }
}

fn text_or_empty(o: Option<String>) -> (r: String)
    ensures
        r@ == or_empty(opt_view(o)),
{
    match o {
        Some(t) => t,
        None => String::new(),
    }
}

/// A candidate as the listing shows it.
#[derive(Debug)]
pub struct CandidateSummary {
    pub candidate_id: u128,
    pub title: String,
    pub kind: String,
    pub status: String,
    pub summary: String,
}

/// The listing of a task's experience candidates.
#[derive(Debug)]
pub struct CandidateList {
    pub count: usize,
    pub items: Vec<CandidateSummary>,
}

/// The most characters of knowledge a listing shows.
pub const SUMMARY_MAX_CHARS: usize = 200;

/// The name of a kind.
pub open spec fn kind_name(k: ExperienceKindHint) -> Seq<char> {
    match k {
        ExperienceKindHint::Knowledge => "Knowledge"@,
        ExperienceKindHint::Skill => "Skill"@,
    }
}

/// The name of a status.
pub open spec fn status_name(s: ExperienceCandidateStatus) -> Seq<char> {
    match s {
        ExperienceCandidateStatus::Submitted => "Submitted"@,
    }
}

/// What the listing says of a candidate's payload: knowledge up to its first
/// 200 characters (an ellipsis marks a cut), a skill by its description.
pub open spec fn summary_of(p: ExperienceCandidatePayload) -> Seq<char> {
    match p {
        ExperienceCandidatePayload::Knowledge { content } => if content@.len() > SUMMARY_MAX_CHARS {
            content@.take(SUMMARY_MAX_CHARS as int) + "…"@
        } else {
            content@
        },
        ExperienceCandidatePayload::Skill { description, .. } => description@,
    }
}

fn summarize(p: &ExperienceCandidatePayload) -> (r: String)
    ensures
        r@ == summary_of(*p),
{
    match p {
        ExperienceCandidatePayload::Knowledge { content } => {
            let mut cs = crate::text::chars_of(content.as_str());
            if cs.len() > SUMMARY_MAX_CHARS {
                cs.truncate(SUMMARY_MAX_CHARS);
                let head = crate::text::string_from_chars(cs.as_slice());
                concat2(head.as_str(), "…")
            } else {
                content.clone()
            }
        },
        ExperienceCandidatePayload::Skill { description, .. } => description.clone(),
    }
}

fn kind_text(k: ExperienceKindHint) -> (r: String)
    ensures
        r@ == kind_name(k),
{
    match k {
        ExperienceKindHint::Knowledge => "Knowledge".to_owned(),
        ExperienceKindHint::Skill => "Skill".to_owned(),
    }
}

fn status_text(s: ExperienceCandidateStatus) -> (r: String)
    ensures
        r@ == status_name(s),
{
    match s {
        ExperienceCandidateStatus::Submitted => "Submitted".to_owned(),
    }
}

/// `e` describes candidate `c`.
pub open spec fn describes(e: CandidateSummary, c: ExperienceCandidate) -> bool {
    &&& e.candidate_id == c.candidate_id
    &&& e.title@ == c.title@
    &&& e.kind@ == kind_name(c.kind_hint)
    &&& e.status@ == status_name(c.status)
    &&& e.summary@ == summary_of(c.payload)
}

/// Lists the experience candidates in the current task's inbox.
pub struct ListExperienceCandidatesTool;

impl ListExperienceCandidatesTool {
    pub fn name(&self) -> (r: &'static str)
        ensures
            r@ == "list_experience_candidates"@,
    {
        "list_experience_candidates"
    }

    pub fn kind(&self) -> (r: ToolActionKind)
        ensures
            r == ToolActionKind::Async,
    {
        ToolActionKind::Async
    }

    /// The tool runs on a worker only; called inline it refuses.
    pub fn execute(&self, _input: &JsonValue, _ctx: &ToolContext) -> (r: Result<ToolAction, ToolError>)
        ensures
            internal_state(r, "list_experience_candidates is async-only"@),
    {
        Err(ToolError::InternalState("list_experience_candidates is async-only".to_owned()))
    }

    /// The worker: describes each candidate of the snapshot, in order. The
    /// snapshot and the current task must have been handed over.
    pub fn run(&self, candidates: Option<&Vec<ExperienceCandidate>>, current_task_id: Option<TaskId>) -> (r: Result<
        CandidateList,
        ToolError,
    >)
        ensures
            match candidates {
                None => internal_state(r, "experience candidates snapshot missing"@),
                Some(cs) => if current_task_id is None {
                    internal_state(r, "current_task_id missing"@)
                } else {
                    r matches Ok(list) && list.count == cs@.len() && list.items@.len() == cs@.len()
                        && forall|i: int|
                        0 <= i < cs@.len() ==> describes(#[trigger] list.items@[i], cs@[i])
                },
            },
    {
        let cs = match candidates {
            Some(c) => c,
            None => {
                return Err(
                    ToolError::InternalState("experience candidates snapshot missing".to_owned()),
                );
            },
        };
        if current_task_id.is_none() {
            return Err(ToolError::InternalState("current_task_id missing".to_owned()));
        }
        let mut items: Vec<CandidateSummary> = Vec::new();
        let n = cs.len();
        for i in 0..n
            invariant
                n == cs@.len(),
                items@.len() == i,
                forall|k: int| 0 <= k < i ==> describes(#[trigger] items@[k], cs@[k]),
        {
            let c = &cs[i];
            items.push(
                CandidateSummary {
                    candidate_id: c.candidate_id,
                    title: c.title.clone(),
                    kind: kind_text(c.kind_hint),
                    status: status_text(c.status),
                    summary: summarize(&c.payload),
                },
            );
        }
        let count = items.len();
        Ok(CandidateList { count, items })
    }
}

} // verus!
