//! Tool permissions of agents: per-tool overrides, the permission a spawned
//! child inherits, the `required_tag` scan, and the dispatch decision.

use vstd::prelude::*;
use crate::actions::{executor_for, BuiltinExecutor};

use crate::domain::{opt_text, AgentId, TaskId};

verus! {

/// What an agent may do with a tool.
#[derive(Debug, Clone, Copy, PartialEq, Eq, Structural)]
pub enum ToolPermission {
    Allow,
    Confirm,
    Deny,
}

/// The map that `entries` describe: each key to its value, later entries winning.
pub open spec fn map_of(entries: Seq<(String, ToolPermission)>) -> Map<Seq<char>, ToolPermission>
    decreases entries.len(),
{
    if entries.len() == 0 {
        Map::empty()
    } else {
        map_of(entries.drop_last()).insert(entries.last().0@, entries.last().1)
    }
}

/// No key occurs twice.
pub open spec fn keys_unique(entries: Seq<(String, ToolPermission)>) -> bool {
    forall|i: int, j: int|
        0 <= i < entries.len() && 0 <= j < entries.len() && i != j ==> #[trigger] entries[i].0@
            != #[trigger] entries[j].0@
}

proof fn lemma_map_of_entry(entries: Seq<(String, ToolPermission)>, i: int)
    requires
        keys_unique(entries),
        0 <= i < entries.len(),
    ensures
        map_of(entries).contains_key(entries[i].0@),
        map_of(entries)[entries[i].0@] == entries[i].1,
    decreases entries.len(),
{
    if i < entries.len() - 1 {
        let d = entries.drop_last();
        assert(keys_unique(d)) by {
            assert forall|a: int, b: int|
                0 <= a < d.len() && 0 <= b < d.len() && a != b implies #[trigger] d[a].0@
                != #[trigger] d[b].0@ by {
                assert(d[a] == entries[a] && d[b] == entries[b]);
            }
        }
        lemma_map_of_entry(d, i);
        assert(d[i] == entries[i]);
        assert(entries.last().0@ != entries[i].0@);
    }
}

proof fn lemma_map_of_keys(entries: Seq<(String, ToolPermission)>, k: Seq<char>)
    ensures
        map_of(entries).contains_key(k) <==> exists|i: int|
            0 <= i < entries.len() && #[trigger] entries[i].0@ == k,
    decreases entries.len(),
{
    if entries.len() > 0 {
        let d = entries.drop_last();
        lemma_map_of_keys(d, k);
        if exists|i: int| 0 <= i < d.len() && #[trigger] d[i].0@ == k {
            let i = choose|i: int| 0 <= i < d.len() && #[trigger] d[i].0@ == k;
            assert(entries[i].0@ == k);
        }
        if exists|i: int| 0 <= i < entries.len() && #[trigger] entries[i].0@ == k {
            let i = choose|i: int| 0 <= i < entries.len() && #[trigger] entries[i].0@ == k;
            if i < entries.len() - 1 {
                assert(d[i].0@ == k);
            }
        }
    }
}

proof fn lemma_map_of_update(entries: Seq<(String, ToolPermission)>, i: int, e: (String, ToolPermission))
    requires
        keys_unique(entries),
        0 <= i < entries.len(),
        entries[i].0@ == e.0@,
    ensures
        map_of(entries.update(i, e)) == map_of(entries).insert(e.0@, e.1),
    decreases entries.len(),
{
    let u = entries.update(i, e);
    if i == entries.len() - 1 {
        assert(u.drop_last() =~= entries.drop_last());
        assert(map_of(u) =~= map_of(entries).insert(e.0@, e.1));
    } else {
        let d = entries.drop_last();
        assert(keys_unique(d)) by {
            assert forall|a: int, b: int|
                0 <= a < d.len() && 0 <= b < d.len() && a != b implies #[trigger] d[a].0@
                != #[trigger] d[b].0@ by {
                assert(d[a] == entries[a] && d[b] == entries[b]);
            }
        }
        lemma_map_of_update(d, i, e);
        assert(u.drop_last() =~= d.update(i, e));
        assert(entries.last().0@ != e.0@) by {
            assert(entries[i].0@ == e.0@);
        }
        assert(map_of(u) =~= map_of(entries).insert(e.0@, e.1));
    }
}

/// Per-tool permission overrides: a map from tool name to permission.
#[derive(Debug)]
pub struct ToolOverrides {
    entries: Vec<(String, ToolPermission)>,
}

impl View for ToolOverrides {
    type V = Map<Seq<char>, ToolPermission>;

    closed spec fn view(&self) -> Map<Seq<char>, ToolPermission> {
        map_of(self.entries@)
    }
}

impl ToolOverrides {
    #[verifier::type_invariant]
    spec fn inv(self) -> bool {
        keys_unique(self.entries@)
    }

    /// No overrides.
    pub fn new() -> (m: Self)
        ensures
            m@ == Map::<Seq<char>, ToolPermission>::empty(),
    {
        ToolOverrides { entries: Vec::new() }
    }

    fn position(&self, tool: &str) -> (r: Option<usize>)
        ensures
            r matches Some(i) ==> i < self.entries@.len() && self.entries@[i as int].0@ == tool@,
            r is None ==> forall|i: int| 0 <= i < self.entries@.len() ==> self.entries@[i].0@ != tool@,
    {
        let n = self.entries.len();
        for i in 0..n
            invariant
                n == self.entries@.len(),
                forall|k: int| 0 <= k < i ==> self.entries@[k].0@ != tool@,
        {
            if crate::text::str_eq(self.entries[i].0.as_str(), tool) {
                return Some(i);
            }
        }
        None
    }

    /// The override for `tool`.
    pub fn get(&self, tool: &str) -> (r: Option<ToolPermission>)
        ensures
            r == if self@.contains_key(tool@) {
                Some(self@[tool@])
            } else {
                None
            },
    {
        proof {
            use_type_invariant(self);
            lemma_map_of_keys(self.entries@, tool@);
        }
        match self.position(tool) {
            Some(i) => {
                proof {
                    lemma_map_of_entry(self.entries@, i as int);
                }
                Some(self.entries[i].1)
            },
            None => None,
        }
    }

    /// Sets the override for `tool`, returning the one it replaces.
    pub fn insert(&mut self, tool: String, permission: ToolPermission) -> (r: Option<ToolPermission>)
        ensures
            final(self)@ == old(self)@.insert(tool@, permission),
            r == if old(self)@.contains_key(tool@) {
                Some(old(self)@[tool@])
            } else {
                None
            },
    {
        proof {
            use_type_invariant(&*self);
            lemma_map_of_keys(self.entries@, tool@);
        }
        let pos = self.position(tool.as_str());
        match pos {
            Some(i) => {
                proof {
                    lemma_map_of_entry(self.entries@, i as int);
                }
                let previous = self.entries[i].1;
                let ghost e = (tool, permission);
                proof {
                    lemma_map_of_update(self.entries@, i as int, e);
                    assert(keys_unique(self.entries@.update(i as int, e))) by {
                        let u = self.entries@.update(i as int, e);
                        assert forall|a: int, b: int|
                            0 <= a < u.len() && 0 <= b < u.len() && a != b implies #[trigger] u[a].0@
                            != #[trigger] u[b].0@ by {
                            assert(a != i ==> u[a] == self.entries@[a]);
                            assert(b != i ==> u[b] == self.entries@[b]);
                        }
                    }
                }
                let mut es: Vec<(String, ToolPermission)> = Vec::new();
                std::mem::swap(&mut es, &mut self.entries);
                es.set(i, (tool, permission));
                self.entries = es;
                Some(previous)
            },
            None => {
                let ghost before = self.entries@;
                let mut es: Vec<(String, ToolPermission)> = Vec::new();
                std::mem::swap(&mut es, &mut self.entries);
                es.push((tool, permission));
                proof {
                    assert(es@.drop_last() =~= before);
                    assert(keys_unique(es@)) by {
                        let u = es@;
                        assert forall|a: int, b: int|
                            0 <= a < u.len() && 0 <= b < u.len() && a != b implies #[trigger] u[a].0@
                            != #[trigger] u[b].0@ by {
                            assert(a < before.len() ==> u[a] == before[a]);
                            assert(b < before.len() ==> u[b] == before[b]);
                        }
                    }
                }
                self.entries = es;
                None
            },
        }
    }
}

/// How an agent may use tools: a default and per-tool overrides.
#[derive(Debug)]
pub struct AgentToolPermissions {
    pub default_permission: ToolPermission,
    /// Whether the default was set on purpose (it then wins over a tool's own default).
    pub default_permission_explicit: bool,
    pub overrides: ToolOverrides,
}

impl Default for AgentToolPermissions {
    /// Confirm every tool, with no overrides.
    fn default() -> (p: Self)
        ensures
            p.default_permission == ToolPermission::Confirm,
            !p.default_permission_explicit,
            p.overrides@ == Map::<Seq<char>, ToolPermission>::empty(),
    {
        AgentToolPermissions {
            default_permission: ToolPermission::Confirm,
            default_permission_explicit: false,
            overrides: ToolOverrides::new(),
        }
    }
}

/// The permission for `tool`: its override, else the default.
pub open spec fn permission_for(p: AgentToolPermissions, tool: Seq<char>) -> ToolPermission {
    if p.overrides@.contains_key(tool) {
        p.overrides@[tool]
    } else {
        p.default_permission
    }
}

impl AgentToolPermissions {
    /// The permission for `tool` (see `permission_for`).
    pub fn get_permission(&self, tool: &str) -> (r: ToolPermission)
        ensures
            r == permission_for(*self, tool@),
    {
        match self.overrides.get(tool) {
            Some(p) => p,
            None => self.default_permission,
        }
    }
}


/// A tool known to the runtime.
#[derive(Debug)]
pub struct ToolDefinition {
    pub name: String,
    pub description: String,
    pub default_permission: ToolPermission,
    /// A tag that an agent must hold to call the tool.
    pub required_tag: Option<String>,
}

/// The definition of a tool a plugin contributes: named `plugin_id:tool_id`,
/// confirmed unless the plugin gives its own default, with no required tag.
pub fn plugin_tool_definition(
    plugin_id: &str,
    tool_id: &str,
    description: String,
    default_permission: Option<ToolPermission>,
) -> (t: ToolDefinition)
    ensures
        t.name@ == plugin_id@ + ":"@ + tool_id@,
        t.description == description,
        t.default_permission == match default_permission {
            Some(p) => p,
            None => ToolPermission::Confirm,
        },
        t.required_tag is None,
{
    let name = crate::text::concat3(plugin_id, ":", tool_id);
    let default_permission = match default_permission {
        Some(p) => p,
        None => ToolPermission::Confirm,
    };
    ToolDefinition { name, description, default_permission, required_tag: None }
}

/// The tools known to the runtime, in registration order.
#[derive(Debug)]
pub struct SpaceToolRegistry {
    pub tools: Vec<ToolDefinition>,
}

/// The first tool called `name`.
pub open spec fn find_tool(tools: Seq<ToolDefinition>, name: Seq<char>) -> Option<ToolDefinition>
    decreases tools.len(),
{
    if tools.len() == 0 {
        None
    } else if tools[0].name@ == name {
        Some(tools[0])
    } else {
        find_tool(tools.drop_first(), name)
    }
}

impl SpaceToolRegistry {
    /// An empty registry.
    pub fn new() -> (r: Self)
        ensures
            r.tools@.len() == 0,
    {
        SpaceToolRegistry { tools: Vec::new() }
    }

    /// Adds a tool at the end.
    pub fn register(&mut self, tool: ToolDefinition)
        ensures
            final(self).tools@ == old(self).tools@.push(tool),
    {
        self.tools.push(tool);
    }

    /// The first tool called `name`.
    pub fn get(&self, name: &str) -> (r: Option<&ToolDefinition>)
        ensures
            r matches Some(t) ==> find_tool(self.tools@, name@) == Some(*t),
            r is None ==> find_tool(self.tools@, name@) is None,
    {
        let n = self.tools.len();
        let ghost ts = self.tools@;
        assert(ts.subrange(0, n as int) =~= ts);
        let mut i: usize = 0;
        while i < n
            invariant
                i <= n,
                n == ts.len(),
                ts == self.tools@,
                find_tool(ts, name@) == find_tool(ts.subrange(i as int, n as int), name@),
            decreases n - i,
        {
            let ghost rest = ts.subrange(i as int, n as int);
            assert(rest[0] == ts[i as int]);
            if crate::text::str_eq(self.tools[i].name.as_str(), name) {
                return Some(&self.tools[i]);
            }
            assert(rest.drop_first() =~= ts.subrange(i + 1, n as int));
            i = i + 1;
        }
        None
    }
}

/// Whether an agent lives on or belongs to one task.
#[derive(Debug, Clone, Copy, PartialEq, Eq, Structural)]
pub enum AgentKind {
    Persistent,
    TaskScoped,
}

/// An agent of the runtime.
#[derive(Debug)]
pub struct Agent {
    pub id: AgentId,
    pub name: String,
    pub model: String,
    pub tags: Vec<String>,
    pub description: String,
    pub kind: AgentKind,
    pub parent_id: Option<AgentId>,
    pub bound_task_id: Option<TaskId>,
    pub tool_permissions: AgentToolPermissions,
    pub system_prompt: Option<String>,
}

/// Where an effective permission comes from.
#[derive(Debug, Clone, Copy, PartialEq, Eq, Structural)]
pub enum PermissionSource {
    Override,
    AgentDefault,
    ToolDefault,
}

/// The permission an agent has for a tool: its override; else its default
/// when set on purpose; else the tool's own default when the tool is
/// registered; else the agent's default.
pub open spec fn effective(p: AgentToolPermissions, tool: Seq<char>, registry: Option<Seq<ToolDefinition>>) -> (
    ToolPermission,
    PermissionSource,
) {
    if p.overrides@.contains_key(tool) {
        (p.overrides@[tool], PermissionSource::Override)
    } else if p.default_permission_explicit {
        (p.default_permission, PermissionSource::AgentDefault)
    } else {
        match registry {
            Some(tools) => match find_tool(tools, tool) {
                Some(t) => (t.default_permission, PermissionSource::ToolDefault),
                None => (p.default_permission, PermissionSource::AgentDefault),
            },
            None => (p.default_permission, PermissionSource::AgentDefault),
        }
    }
}

impl AgentToolPermissions {
    /// The effective permission for `tool` and where it comes from (see `effective`).
    pub fn effective_permission(&self, tool: &str, registry: Option<&SpaceToolRegistry>) -> (r: (
        ToolPermission,
        PermissionSource,
    ))
        ensures
            r == effective(
                *self,
                tool@,
                match registry {
                    Some(reg) => Some(reg.tools@),
                    None => None,
                },
            ),
    {
        match self.overrides.get(tool) {
            Some(p) => (p, PermissionSource::Override),
            None => {
                if self.default_permission_explicit {
                    (self.default_permission, PermissionSource::AgentDefault)
                } else {
                    match registry {
                        Some(reg) => match reg.get(tool) {
                            Some(t) => (t.default_permission, PermissionSource::ToolDefault),
                            None => (self.default_permission, PermissionSource::AgentDefault),
                        },
                        None => (self.default_permission, PermissionSource::AgentDefault),
                    }
                }
            },
        }
    }
}

/// The requested tools that a child may use, each with the parent's
/// effective permission; tools the parent is denied are left out.
pub open spec fn inherited(
    parent: AgentToolPermissions,
    tools: Seq<ToolDefinition>,
    requested: Seq<Seq<char>>,
) -> Seq<(Seq<char>, ToolPermission)>
    decreases requested.len(),
{
    if requested.len() == 0 {
        Seq::empty()
    } else {
        let rest = inherited(parent, tools, requested.drop_last());
        let perm = effective(parent, requested.last(), Some(tools)).0;
        if perm == ToolPermission::Deny {
            rest
        } else {
            rest.push((requested.last(), perm))
        }
    }
}

/// The text view of (tool, permission) pairs.
pub open spec fn pairs_view(v: Seq<(String, ToolPermission)>) -> Seq<(Seq<char>, ToolPermission)> {
    v.map_values(|p: (String, ToolPermission)| (p.0@, p.1))
}

/// For each requested tool the parent is not denied, the tool and the
/// parent's effective permission, in request order.
pub fn inherit_permissions(
    parent: &AgentToolPermissions,
    registry: &SpaceToolRegistry,
    requested: &Vec<String>,
) -> (out: Vec<(String, ToolPermission)>)
    ensures
        pairs_view(out@) == inherited(
            *parent,
            registry.tools@,
            requested@.map_values(|s: String| s@),
        ),
{
    let ghost req = requested@.map_values(|s: String| s@);
    let n = requested.len();
    let mut out: Vec<(String, ToolPermission)> = Vec::new();
    for i in 0..n
        invariant
            n == requested@.len(),
            req == requested@.map_values(|s: String| s@),
            pairs_view(out@) == inherited(*parent, registry.tools@, req.take(i as int)),
    {
        assert(req.take(i + 1).drop_last() =~= req.take(i as int));
        assert(req.take(i + 1).last() == requested@[i as int]@);
        let (perm, _source) = parent.effective_permission(requested[i].as_str(), Some(registry));
        if perm != ToolPermission::Deny {
            let ghost before = out@;
            out.push((requested[i].clone(), perm));
            assert(pairs_view(out@) =~= pairs_view(before).push((requested@[i as int]@, perm)));
        }
    }
    assert(req.take(n as int) =~= req);
    out
}

/// The permission a child ends up with for `tool`: the last inherited entry
/// for it, else `Deny`.
pub open spec fn child_permission(pairs: Seq<(Seq<char>, ToolPermission)>, tool: Seq<char>) -> ToolPermission
    decreases pairs.len(),
{
    if pairs.len() == 0 {
        ToolPermission::Deny
    } else if pairs.last().0 == tool {
        pairs.last().1
    } else {
        child_permission(pairs.drop_last(), tool)
    }
}

/// The permissions of a task-scoped child: deny by default (on purpose),
/// with each inherited pair as an override.
pub fn child_tool_permissions(pairs: Vec<(String, ToolPermission)>) -> (p: AgentToolPermissions)
    ensures
        p.default_permission == ToolPermission::Deny,
        p.default_permission_explicit,
        forall|tool: Seq<char>| #[trigger] permission_for(p, tool) == child_permission(
            pairs_view(pairs@),
            tool,
        ),
{
    let mut overrides = ToolOverrides::new();
    let n = pairs.len();
    for i in 0..n
        invariant
            n == pairs@.len(),
            forall|tool: Seq<char>|
                #[trigger] overrides@.contains_key(tool) ==> overrides@[tool] == child_permission(
                    pairs_view(pairs@).take(i as int),
                    tool,
                ),
            forall|tool: Seq<char>|
                !#[trigger] overrides@.contains_key(tool) ==> child_permission(
                    pairs_view(pairs@).take(i as int),
                    tool,
                ) == ToolPermission::Deny,
    {
        let ghost pv = pairs_view(pairs@);
        assert(pv.take(i + 1).drop_last() =~= pv.take(i as int));
        assert(pv.take(i + 1).last() == (pairs@[i as int].0@, pairs@[i as int].1));
        overrides.insert(pairs[i].0.clone(), pairs[i].1);
    }
    assert(pairs_view(pairs@).take(n as int) =~= pairs_view(pairs@));
    let p = AgentToolPermissions {
        default_permission: ToolPermission::Deny,
        default_permission_explicit: true,
        overrides,
    };
    assert forall|tool: Seq<char>| #[trigger] permission_for(p, tool) == child_permission(
        pairs_view(pairs@),
        tool,
    ) by {}
    p
}


/// A spawned child never holds more than its parent: whatever it may use
/// beyond `Deny` was requested, and carries the parent's effective permission
/// for that tool; a tool the parent is denied stays denied for the child.
pub proof fn lemma_child_never_exceeds_parent(
    parent: AgentToolPermissions,
    tools: Seq<ToolDefinition>,
    requested: Seq<Seq<char>>,
    tool: Seq<char>,
)
    ensures
        child_permission(inherited(parent, tools, requested), tool) != ToolPermission::Deny
            ==> requested.contains(tool) && child_permission(
            inherited(parent, tools, requested),
            tool,
        ) == effective(parent, tool, Some(tools)).0,
        effective(parent, tool, Some(tools)).0 == ToolPermission::Deny ==> child_permission(
            inherited(parent, tools, requested),
            tool,
        ) == ToolPermission::Deny,
    decreases requested.len(),
{
    if requested.len() > 0 {
        let d = requested.drop_last();
        lemma_child_never_exceeds_parent(parent, tools, d, tool);
        let rest = inherited(parent, tools, d);
        let perm = effective(parent, requested.last(), Some(tools)).0;
        if perm != ToolPermission::Deny {
            let pairs = rest.push((requested.last(), perm));
            assert(pairs.drop_last() =~= rest);
            assert(pairs.last() == (requested.last(), perm));
        }
        if d.contains(tool) {
            let k = choose|k: int| 0 <= k < d.len() && d[k] == tool;
            assert(requested[k] == tool);
        }
        assert(requested[requested.len() - 1] == requested.last());
    }
}

/// A request to spawn a task-scoped child agent.
#[derive(Debug)]
pub struct AgentSpawnRequest {
    pub parent_agent_id: AgentId,
    pub task_id: TaskId,
    pub name: String,
    pub description: String,
    pub tools: Vec<String>,
    pub model: Option<String>,
    pub task_prompt: String,
    pub task_system_prompt: Option<String>,
}

impl AgentSpawnRequest {
    /// The request a spawn_agent call makes for its task: the child starts
    /// without a task prompt of its own, so it is briefed by its description.
    pub fn from_tool_call(
        parent_agent_id: AgentId,
        task_id: TaskId,
        name: String,
        model: Option<String>,
        description: String,
        tools: Vec<String>,
    ) -> (r: Self)
        ensures
            r.parent_agent_id == parent_agent_id,
            r.task_id == task_id,
            r.name == name,
            r.model == model,
            r.description == description,
            r.tools == tools,
            r.task_prompt@ == Seq::<char>::empty(),
            r.task_system_prompt is None,
    {
        AgentSpawnRequest {
            parent_agent_id,
            task_id,
            name,
            description,
            tools,
            model,
            task_prompt: String::new(),
            task_system_prompt: None,
        }
    }
}

/// What a spawn request leads to.
#[derive(Debug)]
pub enum SpawnPlan {
    /// The parent agent does not exist; the task fails.
    ParentMissing,
    /// Tools were requested and the parent is denied all of them; the task fails.
    AllToolsDenied,
    /// Spawn the child with these permissions, model and first prompt.
    Spawn {
        inherited: Vec<(String, ToolPermission)>,
        permissions: AgentToolPermissions,
        model: String,
        prompt: String,
    },
}

/// Decides a spawn request: the child inherits the parent's effective
/// permission for each requested tool the parent is not denied, is denied
/// everything else, uses the requested model or the parent's, and starts
/// from the task prompt or, when that is empty, the description.
pub fn plan_spawn(parent: Option<&Agent>, registry: &SpaceToolRegistry, request: &AgentSpawnRequest) -> (plan: SpawnPlan)
    ensures
        parent is None ==> plan is ParentMissing,
        parent matches Some(a) ==> {
            let pairs = inherited(
                a.tool_permissions,
                registry.tools@,
                request.tools@.map_values(|s: String| s@),
            );
            if pairs.len() == 0 && request.tools@.len() > 0 {
                plan is AllToolsDenied
            } else {
                plan matches SpawnPlan::Spawn { inherited, permissions, model, prompt } && {
                    &&& pairs_view(inherited@) == pairs
                    &&& permissions.default_permission == ToolPermission::Deny
                    &&& permissions.default_permission_explicit
                    &&& forall|tool: Seq<char>| #[trigger] permission_for(permissions, tool)
                        == child_permission(pairs, tool)
                    &&& model@ == match request.model {
                        Some(m) => m@,
                        None => a.model@,
                    }
                    &&& prompt@ == if request.task_prompt@.len() == 0 {
                        request.description@
                    } else {
                        request.task_prompt@
                    }
                }
            }
        },
{
    let a = match parent {
        Some(a) => a,
        None => {
            return SpawnPlan::ParentMissing;
        },
    };
    let pairs = inherit_permissions(&a.tool_permissions, registry, &request.tools);
    if pairs.len() == 0 && request.tools.len() > 0 {
        return SpawnPlan::AllToolsDenied;
    }
    let ghost pv = pairs_view(pairs@);
    let kept = clone_pairs(&pairs);
    let permissions = child_tool_permissions(pairs);
    let model = match &request.model {
        Some(m) => m.clone(),
        None => a.model.clone(),
    };
    let prompt = if request.task_prompt.as_str().is_empty() {
        request.description.clone()
    } else {
        request.task_prompt.clone()
    };
    SpawnPlan::Spawn { inherited: kept, permissions, model, prompt }
}

fn clone_pairs(v: &Vec<(String, ToolPermission)>) -> (out: Vec<(String, ToolPermission)>)
    ensures
        pairs_view(out@) == pairs_view(v@),
{
    let mut out: Vec<(String, ToolPermission)> = Vec::new();
    let n = v.len();
    for i in 0..n
        invariant
            n == v@.len(),
            pairs_view(out@) == pairs_view(v@.take(i as int)),
    {
        let ghost before = out@;
        out.push((v[i].0.clone(), v[i].1));
        assert(v@.take(i + 1) =~= v@.take(i as int).push(v@[i as int]));
        assert(pairs_view(out@) =~= pairs_view(before).push((v@[i as int].0@, v@[i as int].1)));
        assert(pairs_view(v@.take(i + 1)) =~= pairs_view(v@.take(i as int)).push((v@[i as int].0@, v@[i as int].1)));
    }
    assert(v@.take(n as int) =~= v@);
    out
}


/// Some agent holds `tag`.
pub open spec fn tag_held(agents: Seq<Agent>, tag: Seq<char>) -> bool {
    exists|a: int, k: int|
        0 <= a < agents.len() && 0 <= k < agents[a].tags@.len() && #[trigger] agents[a].tags@[k]@
            == tag
}

/// The tools, in registry order, whose `required_tag` no agent holds, each
/// with that tag.
pub open spec fn orphaned(tools: Seq<ToolDefinition>, agents: Seq<Agent>) -> Seq<(Seq<char>, Seq<char>)>
    decreases tools.len(),
{
    if tools.len() == 0 {
        Seq::empty()
    } else {
        let rest = orphaned(tools.drop_last(), agents);
        match tools.last().required_tag {
            Some(tag) => if tag_held(agents, tag@) {
                rest
            } else {
                rest.push((tools.last().name@, tag@))
            },
            None => rest,
        }
    }
}

fn tag_held_exec(agents: &[Agent], tag: &String) -> (r: bool)
    ensures
        r == tag_held(agents@, tag@),
{
    let n = agents.len();
    for a in 0..n
        invariant
            n == agents@.len(),
            forall|x: int, k: int|
                0 <= x < a && 0 <= k < agents@[x].tags@.len() ==> #[trigger] agents@[x].tags@[k]@
                    != tag@,
    {
        let m = agents[a].tags.len();
        for k in 0..m
            invariant
                n == agents@.len(),
                a < n,
                m == agents@[a as int].tags@.len(),
                forall|x: int, j: int|
                    0 <= x < a && 0 <= j < agents@[x].tags@.len() ==> #[trigger] agents@[x].tags@[j]@
                        != tag@,
                forall|j: int| 0 <= j < k ==> agents@[a as int].tags@[j]@ != tag@,
        {
            if agents[a].tags[k] == *tag {
                return true;
            }
        }
    }
    false
}

/// The startup scan for `required_tag` orphans: the tools (name, tag) that
/// no loaded agent can use because none holds the tag. Such tools stay
/// registered; the scan only reports them.
pub fn validate_required_tags(registry: &SpaceToolRegistry, agents: &[Agent]) -> (out: Vec<(String, String)>)
    ensures
        out@.map_values(|p: (String, String)| (p.0@, p.1@)) == orphaned(registry.tools@, agents@),
{
    let n = registry.tools.len();
    let mut out: Vec<(String, String)> = Vec::new();
    for i in 0..n
        invariant
            n == registry.tools@.len(),
            out@.map_values(|p: (String, String)| (p.0@, p.1@)) == orphaned(
                registry.tools@.take(i as int),
                agents@,
            ),
    {
        let ghost ts = registry.tools@;
        assert(ts.take(i + 1).drop_last() =~= ts.take(i as int));
        assert(ts.take(i + 1).last() == ts[i as int]);
        let t = &registry.tools[i];
        match &t.required_tag {
            Some(tag) => {
                if !tag_held_exec(agents, tag) {
                    let ghost before = out@;
                    out.push((t.name.clone(), tag.clone()));
                    assert(out@.map_values(|p: (String, String)| (p.0@, p.1@)) =~= before.map_values(
                        |p: (String, String)| (p.0@, p.1@),
                    ).push((t.name@, tag@)));
                }
            },
            None => {},
        }
    }
    assert(registry.tools@.take(n as int) =~= registry.tools@);
    out
}

impl ToolOverrides {
    /// The overrides as name and permission pairs, in the order they were set.
    pub fn to_vec(&self) -> (r: Vec<(String, ToolPermission)>)
        ensures
            map_of(r@) == self@,
    {
        proof {
            use_type_invariant(self);
        }
        let mut out: Vec<(String, ToolPermission)> = Vec::new();
        let n = self.entries.len();
        for i in 0..n
            invariant
                n == self.entries@.len(),
                out@ == self.entries@.take(i as int),
        {
            out.push((self.entries[i].0.clone(), self.entries[i].1));
            assert(out@ =~= self.entries@.take(i + 1));
        }
        assert(self.entries@.take(n as int) =~= self.entries@);
        out
    }
}

/// The overrides that setting the pairs in order leaves: a later pair for
/// the same tool wins.
pub open spec fn pairs_map(pairs: Seq<(String, ToolPermission)>) -> Map<Seq<char>, ToolPermission>
    decreases pairs.len(),
{
    if pairs.len() == 0 {
        Map::empty()
    } else {
        pairs_map(pairs.drop_last()).insert(pairs.last().0@, pairs.last().1)
    }
}

impl ToolPermission {
    /// The name of a permission in configuration files.
    pub open spec fn spec_config_text(self) -> Seq<char> {
        match self {
            ToolPermission::Allow => "allow"@,
            ToolPermission::Confirm => "confirm"@,
            ToolPermission::Deny => "deny"@,
        }
    }

    /// The name of the permission in configuration files.
    pub fn config_text(&self) -> (r: &'static str)
        ensures
            r@ == self.spec_config_text(),
    {
        match self {
            ToolPermission::Allow => "allow",
            ToolPermission::Confirm => "confirm",
            ToolPermission::Deny => "deny",
        }
    }

    /// The permission a configuration file names, if it names one.
    pub fn from_config_text(text: &str) -> (r: Option<ToolPermission>)
        ensures
            r matches Some(p) ==> p.spec_config_text() == text@,
            r is None ==> forall|p: ToolPermission| p.spec_config_text() != text@,
    {
        if crate::text::str_eq(text, "allow") {
            Some(ToolPermission::Allow)
        } else if crate::text::str_eq(text, "confirm") {
            Some(ToolPermission::Confirm)
        } else if crate::text::str_eq(text, "deny") {
            Some(ToolPermission::Deny)
        } else {
            proof {
                assert forall|p: ToolPermission| p.spec_config_text() != text@ by {
                    match p {
                        ToolPermission::Allow => {},
                        ToolPermission::Confirm => {},
                        ToolPermission::Deny => {},
                    }
                }
            }
            None
        }
    }
}

impl AgentToolPermissions {
    /// The permissions a configuration gives: its default, set on purpose
    /// when it names one (else confirm), and its overrides set in order.
    pub fn from_config(default: Option<ToolPermission>, overrides: Vec<(String, ToolPermission)>) -> (r: Self)
        ensures
            r.default_permission == match default {
                Some(p) => p,
                None => ToolPermission::Confirm,
            },
            r.default_permission_explicit == default is Some,
            r.overrides@ == pairs_map(overrides@),
    {
        let mut map = ToolOverrides::new();
        let n = overrides.len();
        let mut rest = overrides;
        let ghost orig = rest@;
        assert(orig.len() == n);
        let mut i: usize = 0;
        assert(orig.skip(0) =~= orig);
        assert(orig.take(0) =~= Seq::<(String, ToolPermission)>::empty());
        while rest.len() > 0
            invariant
                i <= n,
                n == orig.len(),
                rest@ == orig.skip(i as int),
                map@ == pairs_map(orig.take(i as int)),
            decreases rest@.len(),
        {
            assert(i < n);
            let (tool, permission) = rest.remove(0);
            assert((tool, permission) == orig[i as int]);
            assert(orig.skip(i as int).subrange(1, orig.skip(i as int).len() as int) =~= orig.skip(i + 1));
            assert(orig.take(i + 1).drop_last() =~= orig.take(i as int));
            map.insert(tool, permission);
            i = i + 1;
        }
        assert(orig.take(n as int) =~= orig);
        AgentToolPermissions {
            default_permission: match default {
                Some(p) => p,
                None => ToolPermission::Confirm,
            },
            default_permission_explicit: default.is_some(),
            overrides: map,
        }
    }
}

/// `d` defines the tool `name` with `description`, default permission `p`
/// and required tag `tag`.
pub open spec fn defines(d: ToolDefinition, name: Seq<char>, description: Seq<char>, p: ToolPermission, tag: Option<Seq<char>>) -> bool {
    &&& d.name@ == name
    &&& d.description@ == description
    &&& d.default_permission == p
    &&& crate::domain::opt_text(d.required_tag) == tag
}

fn builtin(name: &str, description: &str, p: ToolPermission, tag: Option<&str>) -> (d: ToolDefinition)
    ensures
        defines(d, name@, description@, p, match tag {
            Some(t) => Some(t@),
            None => None,
        }),
{
    ToolDefinition {
        name: name.to_owned(),
        description: description.to_owned(),
        default_permission: p,
        required_tag: match tag {
            Some(t) => Some(t.to_owned()),
            None => None,
        },
    }
}
/// The place of a fixed built-in tool in `builtin_tool_definitions`, by name;
/// -1 for any other name.
pub open spec fn builtin_position(name: Seq<char>) -> int {
    if name == "create_tasks"@ {
        0
    } else     if name == "wait_tasks"@ {
        1
    } else     if name == "shell_exec"@ {
        2
    } else     if name == "shell_start"@ {
        3
    } else     if name == "shell_read"@ {
        4
    } else     if name == "shell_list"@ {
        5
    } else     if name == "shell_input"@ {
        6
    } else     if name == "shell_stop"@ {
        7
    } else     if name == "submit_experience_candidate"@ {
        8
    } else     if name == "list_experience_candidates"@ {
        9
    } else     if name == "chat_with_agent"@ {
        10
    } else     if name == "schedule_task"@ {
        12
    } else     if name == "list_scheduled_tasks"@ {
        13
    } else     if name == "delete_scheduled_task"@ {
        14
    } else     if name == "submit_profile_update"@ {
        15
    } else     if name == "skip_profile_update"@ {
        16
    } else     if name == "submit_skill_update"@ {
        17
    } else {
        -1
    }
}

/// The tools the runtime registers at start, in order: sub-tasks, shell
/// sessions, experience candidates, talking to other agents, the channel
/// layer's `channel_send` (given as `channel_send`), scheduled tasks, and the
/// profile and skill updates. The shell tools that run a command or change a
/// session (`shell_exec`, `shell_start`, `shell_input`, `shell_stop`) need a
/// confirmation; the others are allowed. The profile tools need the tag
/// `profile`, the skill update the tag `skill-updater`. The fixed tools have
/// distinct names.
pub fn builtin_tool_definitions(channel_send: ToolDefinition) -> (defs: Vec<ToolDefinition>)
    ensures
        defs@.len() == 18,
        defines(defs@[0], "create_tasks"@, "Create sub-tasks to delegate work to specialized child agents. Supports creating multiple tasks with dependency ordering. Tasks without dependencies will run in parallel; tasks with dependencies will wait for them to complete."@, ToolPermission::Allow, None),
        defines(defs@[1], "wait_tasks"@, "Wait for child tasks to complete and collect their results. Returns the status and results of all specified tasks when all complete or timeout is reached."@, ToolPermission::Allow, None),
        defines(defs@[2], "shell_exec"@, "同步执行一次性 shell 命令并等待结果，适合 build、test、lint、文件操作等短任务。长时间运行或需要交互的命令请使用 shell_start。"@, ToolPermission::Confirm, None),
        defines(defs@[3], "shell_start"@, "异步启动长时间运行或可交互的 shell 会话，适用于 server、watcher、daemon 等持续型任务。返回 session_id 供后续读取、输入或停止。"@, ToolPermission::Confirm, None),
        defines(defs@[4], "shell_read"@, "读取指定 shell 会话的最新状态和输出快照。"@, ToolPermission::Allow, None),
        defines(defs@[5], "shell_list"@, "列出当前可见的活动 shell 会话。"@, ToolPermission::Allow, None),
        defines(defs@[6], "shell_input"@, "向交互式 shell 会话发送输入。"@, ToolPermission::Confirm, None),
        defines(defs@[7], "shell_stop"@, "停止指定的 shell 会话。"@, ToolPermission::Confirm, None),
        defines(defs@[8], "submit_experience_candidate"@, "提交经验候选。knowledge=事实性知识（知道什么），skill=可复用操作步骤（会做什么，含具体命令/指令/流程）。kind=skill 时 instructions 必须是 markdown 格式且至少包含 1 个 `## Section` 二级标题，落盘前框架会做结构校验。"@, ToolPermission::Allow, None),
        defines(defs@[9], "list_experience_candidates"@, "List experience candidates in the current task's inbox. Use this to review pending experience candidates submitted by child agents."@, ToolPermission::Allow, None),
        defines(defs@[10], "chat_with_agent"@, "与一个持久化 Agent 开始或继续多轮对话。第一轮不传 handle，后续轮次传入 handle。"@, ToolPermission::Allow, None),
        defs@[11] == channel_send,
        defines(defs@[12], "schedule_task"@, "安排一个未来由 AI 执行的任务。支持一次性触发（once:ISO时间）或周期性 cron（cron:5字段表达式），结果会发送到指定输出通道。"@, ToolPermission::Allow, None),
        defines(defs@[13], "list_scheduled_tasks"@, "列出当前空间内的动态定时任务（由 schedule_task 工具创建）。返回每个任务的 kind、content、output_channel、is_once、created_at、next_fire_time 等字段；next_fire_time 对 Once 任务显示原始触发时间，对 Cron 任务显示下次触发点。"@, ToolPermission::Allow, None),
        defines(defs@[14], "delete_scheduled_task"@, "删除指定 kind 的动态定时任务（由 schedule_task 工具创建）。返回 {deleted: kind, existed: bool}——existed 表示删除时任务是否还存在（幂等可观测：删不存在的 kind 不会报错，仅 existed=false）。"@, ToolPermission::Allow, None),
        defines(defs@[15], "submit_profile_update"@, "提交生成或更新后的 Agent profile。孵化场景 name 作为最终 Agent 名称；更新场景 name 仅作参考，系统会强制使用原 name（不可变更）。"@, ToolPermission::Allow, Some("profile"@)),
        defines(defs@[16], "skip_profile_update"@, "明确表示现有 Agent profile 不需要更新。仅在更新场景下使用。"@, ToolPermission::Allow, Some("profile"@)),
        defines(defs@[17], "submit_skill_update"@, "提交 skill 更新的结构化 diff 操作。基于原 skill 内容和经验候选，提交 operations 数组。skill_id、base_version、new_version 由系统自动从当前 skill update 上下文注入，无需填写。operations 支持 replace_section/add_section/remove_section/replace_frontmatter 四种操作；frontmatter 字段仅允许更新 name/description/self_updatable。"@, ToolPermission::Allow, Some("skill-updater"@)),
        forall|k: int| 0 <= k < defs@.len() && k != 11 ==> builtin_position(#[trigger] defs@[k].name@) == k,
        forall|k: int| 0 <= k < defs@.len() && k != 11 ==> executor_for(#[trigger] defs@[k].name@) is Some,
        channel_send.name@ == "channel_send"@ ==> executor_for(defs@[11].name@) == Some(BuiltinExecutor::ChannelSend),
{
    let mut defs: Vec<ToolDefinition> = Vec::new();
    defs.push(builtin("create_tasks", "Create sub-tasks to delegate work to specialized child agents. Supports creating multiple tasks with dependency ordering. Tasks without dependencies will run in parallel; tasks with dependencies will wait for them to complete.", ToolPermission::Allow, None));
    defs.push(builtin("wait_tasks", "Wait for child tasks to complete and collect their results. Returns the status and results of all specified tasks when all complete or timeout is reached.", ToolPermission::Allow, None));
    defs.push(builtin("shell_exec", "同步执行一次性 shell 命令并等待结果，适合 build、test、lint、文件操作等短任务。长时间运行或需要交互的命令请使用 shell_start。", ToolPermission::Confirm, None));
    defs.push(builtin("shell_start", "异步启动长时间运行或可交互的 shell 会话，适用于 server、watcher、daemon 等持续型任务。返回 session_id 供后续读取、输入或停止。", ToolPermission::Confirm, None));
    defs.push(builtin("shell_read", "读取指定 shell 会话的最新状态和输出快照。", ToolPermission::Allow, None));
    defs.push(builtin("shell_list", "列出当前可见的活动 shell 会话。", ToolPermission::Allow, None));
    defs.push(builtin("shell_input", "向交互式 shell 会话发送输入。", ToolPermission::Confirm, None));
    defs.push(builtin("shell_stop", "停止指定的 shell 会话。", ToolPermission::Confirm, None));
    defs.push(builtin("submit_experience_candidate", "提交经验候选。knowledge=事实性知识（知道什么），skill=可复用操作步骤（会做什么，含具体命令/指令/流程）。kind=skill 时 instructions 必须是 markdown 格式且至少包含 1 个 `## Section` 二级标题，落盘前框架会做结构校验。", ToolPermission::Allow, None));
    defs.push(builtin("list_experience_candidates", "List experience candidates in the current task's inbox. Use this to review pending experience candidates submitted by child agents.", ToolPermission::Allow, None));
    defs.push(builtin("chat_with_agent", "与一个持久化 Agent 开始或继续多轮对话。第一轮不传 handle，后续轮次传入 handle。", ToolPermission::Allow, None));
    defs.push(channel_send);
    defs.push(builtin("schedule_task", "安排一个未来由 AI 执行的任务。支持一次性触发（once:ISO时间）或周期性 cron（cron:5字段表达式），结果会发送到指定输出通道。", ToolPermission::Allow, None));
    defs.push(builtin("list_scheduled_tasks", "列出当前空间内的动态定时任务（由 schedule_task 工具创建）。返回每个任务的 kind、content、output_channel、is_once、created_at、next_fire_time 等字段；next_fire_time 对 Once 任务显示原始触发时间，对 Cron 任务显示下次触发点。", ToolPermission::Allow, None));
    defs.push(builtin("delete_scheduled_task", "删除指定 kind 的动态定时任务（由 schedule_task 工具创建）。返回 {deleted: kind, existed: bool}——existed 表示删除时任务是否还存在（幂等可观测：删不存在的 kind 不会报错，仅 existed=false）。", ToolPermission::Allow, None));
    defs.push(builtin("submit_profile_update", "提交生成或更新后的 Agent profile。孵化场景 name 作为最终 Agent 名称；更新场景 name 仅作参考，系统会强制使用原 name（不可变更）。", ToolPermission::Allow, Some("profile")));
    defs.push(builtin("skip_profile_update", "明确表示现有 Agent profile 不需要更新。仅在更新场景下使用。", ToolPermission::Allow, Some("profile")));
    defs.push(builtin("submit_skill_update", "提交 skill 更新的结构化 diff 操作。基于原 skill 内容和经验候选，提交 operations 数组。skill_id、base_version、new_version 由系统自动从当前 skill update 上下文注入，无需填写。operations 支持 replace_section/add_section/remove_section/replace_frontmatter 四种操作；frontmatter 字段仅允许更新 name/description/self_updatable。", ToolPermission::Allow, Some("skill-updater")));
    proof {
        reveal_strlit("create_tasks");
        reveal_strlit("wait_tasks");
        reveal_strlit("shell_exec");
        reveal_strlit("shell_start");
        reveal_strlit("shell_read");
        reveal_strlit("shell_list");
        reveal_strlit("shell_input");
        reveal_strlit("shell_stop");
        reveal_strlit("submit_experience_candidate");
        reveal_strlit("list_experience_candidates");
        reveal_strlit("chat_with_agent");
        reveal_strlit("schedule_task");
        reveal_strlit("list_scheduled_tasks");
        reveal_strlit("delete_scheduled_task");
        reveal_strlit("submit_profile_update");
        reveal_strlit("skip_profile_update");
        reveal_strlit("submit_skill_update");
    }
    proof {
        assert("create_tasks"@.len() == 12);
        assert("wait_tasks"@.len() == 10);
        assert("shell_exec"@.len() == 10);
        assert("shell_start"@.len() == 11);
        assert("shell_read"@.len() == 10);
        assert("shell_list"@.len() == 10);
        assert("shell_input"@.len() == 11);
        assert("shell_stop"@.len() == 10);
        assert("submit_experience_candidate"@.len() == 27);
        assert("list_experience_candidates"@.len() == 26);
        assert("chat_with_agent"@.len() == 15);
        assert("schedule_task"@.len() == 13);
        assert("list_scheduled_tasks"@.len() == 20);
        assert("delete_scheduled_task"@.len() == 21);
        assert("submit_profile_update"@.len() == 21);
        assert("skip_profile_update"@.len() == 19);
        assert("submit_skill_update"@.len() == 19);
        reveal_strlit("channel_send");
        assert("channel_send"@.len() == 12);
        assert("channel_send"@[1] != "create_tasks"@[1]);
        assert("channel_send"@ != "create_tasks"@);
        assert("channel_send"@ != "wait_tasks"@);
        assert("channel_send"@ != "shell_exec"@);
        assert("channel_send"@ != "shell_start"@);
        assert("channel_send"@ != "shell_read"@);
        assert("channel_send"@ != "shell_list"@);
        assert("channel_send"@ != "shell_input"@);
        assert("channel_send"@ != "shell_stop"@);
        assert("channel_send"@ != "submit_experience_candidate"@);
        assert("channel_send"@ != "list_experience_candidates"@);
        assert("channel_send"@ != "chat_with_agent"@);
        assert("channel_send"@ != "schedule_task"@);
        assert("channel_send"@ != "list_scheduled_tasks"@);
        assert("channel_send"@ != "delete_scheduled_task"@);
        assert("channel_send"@ != "submit_profile_update"@);
        assert("channel_send"@ != "skip_profile_update"@);
        assert("channel_send"@ != "submit_skill_update"@);
        assert(builtin_position("channel_send"@) == -1);
        assert forall|k: int| 0 <= k < defs@.len() && k != 11 implies builtin_position(#[trigger] defs@[k].name@) == k by {
        if k == 0 {
            assert(defs@[0].name@ == "create_tasks"@);
            assert(builtin_position("create_tasks"@) == 0);
        } else if k == 1 {
            assert(defs@[1].name@ == "wait_tasks"@);
            assert("wait_tasks"@ != "create_tasks"@);
            assert(builtin_position("wait_tasks"@) == 1);
        } else if k == 2 {
            assert(defs@[2].name@ == "shell_exec"@);
            assert("shell_exec"@ != "create_tasks"@);
            assert("shell_exec"@[0] != "wait_tasks"@[0]);
            assert("shell_exec"@ != "wait_tasks"@);
            assert(builtin_position("shell_exec"@) == 2);
        } else if k == 3 {
            assert(defs@[3].name@ == "shell_start"@);
            assert("shell_start"@ != "create_tasks"@);
            assert("shell_start"@ != "wait_tasks"@);
            assert("shell_start"@ != "shell_exec"@);
            assert(builtin_position("shell_start"@) == 3);
        } else if k == 4 {
            assert(defs@[4].name@ == "shell_read"@);
            assert("shell_read"@ != "create_tasks"@);
            assert("shell_read"@[0] != "wait_tasks"@[0]);
            assert("shell_read"@ != "wait_tasks"@);
            assert("shell_read"@[6] != "shell_exec"@[6]);
            assert("shell_read"@ != "shell_exec"@);
            assert("shell_read"@ != "shell_start"@);
            assert(builtin_position("shell_read"@) == 4);
        } else if k == 5 {
            assert(defs@[5].name@ == "shell_list"@);
            assert("shell_list"@ != "create_tasks"@);
            assert("shell_list"@[0] != "wait_tasks"@[0]);
            assert("shell_list"@ != "wait_tasks"@);
            assert("shell_list"@[6] != "shell_exec"@[6]);
            assert("shell_list"@ != "shell_exec"@);
            assert("shell_list"@ != "shell_start"@);
            assert("shell_list"@[6] != "shell_read"@[6]);
            assert("shell_list"@ != "shell_read"@);
            assert(builtin_position("shell_list"@) == 5);
        } else if k == 6 {
            assert(defs@[6].name@ == "shell_input"@);
            assert("shell_input"@ != "create_tasks"@);
            assert("shell_input"@ != "wait_tasks"@);
            assert("shell_input"@ != "shell_exec"@);
            assert("shell_input"@[6] != "shell_start"@[6]);
            assert("shell_input"@ != "shell_start"@);
            assert("shell_input"@ != "shell_read"@);
            assert("shell_input"@ != "shell_list"@);
            assert(builtin_position("shell_input"@) == 6);
        } else if k == 7 {
            assert(defs@[7].name@ == "shell_stop"@);
            assert("shell_stop"@ != "create_tasks"@);
            assert("shell_stop"@[0] != "wait_tasks"@[0]);
            assert("shell_stop"@ != "wait_tasks"@);
            assert("shell_stop"@[6] != "shell_exec"@[6]);
            assert("shell_stop"@ != "shell_exec"@);
            assert("shell_stop"@ != "shell_start"@);
            assert("shell_stop"@[6] != "shell_read"@[6]);
            assert("shell_stop"@ != "shell_read"@);
            assert("shell_stop"@[6] != "shell_list"@[6]);
            assert("shell_stop"@ != "shell_list"@);
            assert("shell_stop"@ != "shell_input"@);
            assert(builtin_position("shell_stop"@) == 7);
        } else if k == 8 {
            assert(defs@[8].name@ == "submit_experience_candidate"@);
            assert("submit_experience_candidate"@ != "create_tasks"@);
            assert("submit_experience_candidate"@ != "wait_tasks"@);
            assert("submit_experience_candidate"@ != "shell_exec"@);
            assert("submit_experience_candidate"@ != "shell_start"@);
            assert("submit_experience_candidate"@ != "shell_read"@);
            assert("submit_experience_candidate"@ != "shell_list"@);
            assert("submit_experience_candidate"@ != "shell_input"@);
            assert("submit_experience_candidate"@ != "shell_stop"@);
            assert(builtin_position("submit_experience_candidate"@) == 8);
        } else if k == 9 {
            assert(defs@[9].name@ == "list_experience_candidates"@);
            assert("list_experience_candidates"@ != "create_tasks"@);
            assert("list_experience_candidates"@ != "wait_tasks"@);
            assert("list_experience_candidates"@ != "shell_exec"@);
            assert("list_experience_candidates"@ != "shell_start"@);
            assert("list_experience_candidates"@ != "shell_read"@);
            assert("list_experience_candidates"@ != "shell_list"@);
            assert("list_experience_candidates"@ != "shell_input"@);
            assert("list_experience_candidates"@ != "shell_stop"@);
            assert("list_experience_candidates"@ != "submit_experience_candidate"@);
            assert(builtin_position("list_experience_candidates"@) == 9);
        } else if k == 10 {
            assert(defs@[10].name@ == "chat_with_agent"@);
            assert("chat_with_agent"@ != "create_tasks"@);
            assert("chat_with_agent"@ != "wait_tasks"@);
            assert("chat_with_agent"@ != "shell_exec"@);
            assert("chat_with_agent"@ != "shell_start"@);
            assert("chat_with_agent"@ != "shell_read"@);
            assert("chat_with_agent"@ != "shell_list"@);
            assert("chat_with_agent"@ != "shell_input"@);
            assert("chat_with_agent"@ != "shell_stop"@);
            assert("chat_with_agent"@ != "submit_experience_candidate"@);
            assert("chat_with_agent"@ != "list_experience_candidates"@);
            assert(builtin_position("chat_with_agent"@) == 10);
        } else if k == 12 {
            assert(defs@[12].name@ == "schedule_task"@);
            assert("schedule_task"@ != "create_tasks"@);
            assert("schedule_task"@ != "wait_tasks"@);
            assert("schedule_task"@ != "shell_exec"@);
            assert("schedule_task"@ != "shell_start"@);
            assert("schedule_task"@ != "shell_read"@);
            assert("schedule_task"@ != "shell_list"@);
            assert("schedule_task"@ != "shell_input"@);
            assert("schedule_task"@ != "shell_stop"@);
            assert("schedule_task"@ != "submit_experience_candidate"@);
            assert("schedule_task"@ != "list_experience_candidates"@);
            assert("schedule_task"@ != "chat_with_agent"@);
            assert(builtin_position("schedule_task"@) == 12);
        } else if k == 13 {
            assert(defs@[13].name@ == "list_scheduled_tasks"@);
            assert("list_scheduled_tasks"@ != "create_tasks"@);
            assert("list_scheduled_tasks"@ != "wait_tasks"@);
            assert("list_scheduled_tasks"@ != "shell_exec"@);
            assert("list_scheduled_tasks"@ != "shell_start"@);
            assert("list_scheduled_tasks"@ != "shell_read"@);
            assert("list_scheduled_tasks"@ != "shell_list"@);
            assert("list_scheduled_tasks"@ != "shell_input"@);
            assert("list_scheduled_tasks"@ != "shell_stop"@);
            assert("list_scheduled_tasks"@ != "submit_experience_candidate"@);
            assert("list_scheduled_tasks"@ != "list_experience_candidates"@);
            assert("list_scheduled_tasks"@ != "chat_with_agent"@);
            assert("list_scheduled_tasks"@ != "schedule_task"@);
            assert(builtin_position("list_scheduled_tasks"@) == 13);
        } else if k == 14 {
            assert(defs@[14].name@ == "delete_scheduled_task"@);
            assert("delete_scheduled_task"@ != "create_tasks"@);
            assert("delete_scheduled_task"@ != "wait_tasks"@);
            assert("delete_scheduled_task"@ != "shell_exec"@);
            assert("delete_scheduled_task"@ != "shell_start"@);
            assert("delete_scheduled_task"@ != "shell_read"@);
            assert("delete_scheduled_task"@ != "shell_list"@);
            assert("delete_scheduled_task"@ != "shell_input"@);
            assert("delete_scheduled_task"@ != "shell_stop"@);
            assert("delete_scheduled_task"@ != "submit_experience_candidate"@);
            assert("delete_scheduled_task"@ != "list_experience_candidates"@);
            assert("delete_scheduled_task"@ != "chat_with_agent"@);
            assert("delete_scheduled_task"@ != "schedule_task"@);
            assert("delete_scheduled_task"@ != "list_scheduled_tasks"@);
            assert(builtin_position("delete_scheduled_task"@) == 14);
        } else if k == 15 {
            assert(defs@[15].name@ == "submit_profile_update"@);
            assert("submit_profile_update"@ != "create_tasks"@);
            assert("submit_profile_update"@ != "wait_tasks"@);
            assert("submit_profile_update"@ != "shell_exec"@);
            assert("submit_profile_update"@ != "shell_start"@);
            assert("submit_profile_update"@ != "shell_read"@);
            assert("submit_profile_update"@ != "shell_list"@);
            assert("submit_profile_update"@ != "shell_input"@);
            assert("submit_profile_update"@ != "shell_stop"@);
            assert("submit_profile_update"@ != "submit_experience_candidate"@);
            assert("submit_profile_update"@ != "list_experience_candidates"@);
            assert("submit_profile_update"@ != "chat_with_agent"@);
            assert("submit_profile_update"@ != "schedule_task"@);
            assert("submit_profile_update"@ != "list_scheduled_tasks"@);
            assert("submit_profile_update"@[0] != "delete_scheduled_task"@[0]);
            assert("submit_profile_update"@ != "delete_scheduled_task"@);
            assert(builtin_position("submit_profile_update"@) == 15);
        } else if k == 16 {
            assert(defs@[16].name@ == "skip_profile_update"@);
            assert("skip_profile_update"@ != "create_tasks"@);
            assert("skip_profile_update"@ != "wait_tasks"@);
            assert("skip_profile_update"@ != "shell_exec"@);
            assert("skip_profile_update"@ != "shell_start"@);
            assert("skip_profile_update"@ != "shell_read"@);
            assert("skip_profile_update"@ != "shell_list"@);
            assert("skip_profile_update"@ != "shell_input"@);
            assert("skip_profile_update"@ != "shell_stop"@);
            assert("skip_profile_update"@ != "submit_experience_candidate"@);
            assert("skip_profile_update"@ != "list_experience_candidates"@);
            assert("skip_profile_update"@ != "chat_with_agent"@);
            assert("skip_profile_update"@ != "schedule_task"@);
            assert("skip_profile_update"@ != "list_scheduled_tasks"@);
            assert("skip_profile_update"@ != "delete_scheduled_task"@);
            assert("skip_profile_update"@ != "submit_profile_update"@);
            assert(builtin_position("skip_profile_update"@) == 16);
        } else if k == 17 {
            assert(defs@[17].name@ == "submit_skill_update"@);
            assert("submit_skill_update"@ != "create_tasks"@);
            assert("submit_skill_update"@ != "wait_tasks"@);
            assert("submit_skill_update"@ != "shell_exec"@);
            assert("submit_skill_update"@ != "shell_start"@);
            assert("submit_skill_update"@ != "shell_read"@);
            assert("submit_skill_update"@ != "shell_list"@);
            assert("submit_skill_update"@ != "shell_input"@);
            assert("submit_skill_update"@ != "shell_stop"@);
            assert("submit_skill_update"@ != "submit_experience_candidate"@);
            assert("submit_skill_update"@ != "list_experience_candidates"@);
            assert("submit_skill_update"@ != "chat_with_agent"@);
            assert("submit_skill_update"@ != "schedule_task"@);
            assert("submit_skill_update"@ != "list_scheduled_tasks"@);
            assert("submit_skill_update"@ != "delete_scheduled_task"@);
            assert("submit_skill_update"@ != "submit_profile_update"@);
            assert("submit_skill_update"@[1] != "skip_profile_update"@[1]);
            assert("submit_skill_update"@ != "skip_profile_update"@);
            assert(builtin_position("submit_skill_update"@) == 17);
        }
        }
    }
    proof {
        assert forall|k: int| 0 <= k < defs@.len() && k != 11 implies executor_for(#[trigger] defs@[k].name@) is Some by {
            assert(builtin_position(defs@[k].name@) == k);
        }
    }
    defs
}

} // verus!
