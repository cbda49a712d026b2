//! Agent lifecycle decisions: which persistent agents a roster may load, how
//! an agent is built from its configuration entry, which task-scoped agents
//! stop once their task has ended, and how a task is marked failed.

use crate::domain::{AgentId, FailureReason, Task, TaskId, TaskStatus};
use crate::orchestrator::{find_task, lemma_task_position_pub, task_index, task_position};
use crate::permissions::{Agent, AgentKind, AgentToolPermissions};
use vstd::prelude::*;

verus! {

/// One model of an agent's fallback chain.
#[derive(Debug)]
pub struct ModelChainEntry {
    pub provider: String,
    pub model: String,
    pub fallback_cooldown_secs: Option<u64>,
}

/// A persistent agent as its configuration describes it.
#[derive(Debug)]
pub struct AgentEntry {
    pub name: String,
    /// A single model, read when no chain is given.
    pub model: Option<String>,
    pub models: Vec<ModelChainEntry>,
    pub tags: Vec<String>,
    pub description: String,
    pub system_prompt: Option<String>,
    pub tools: Option<AgentToolPermissions>,
}

/// Why a roster of persistent agents cannot be loaded.
#[derive(Debug)]
pub enum RosterError {
    /// A name occurs twice in the configuration file.
    DuplicateInConfig(String),
    /// A plugin contributes a name already taken.
    DuplicateFromPlugin(String),
    /// An agent of the name is already running.
    AlreadyExists(String),
}

/// The texts of the names.
pub open spec fn names_of(v: Seq<String>) -> Seq<Seq<char>> {
    v.map_values(|s: String| s@)
}

/// Name `i` occurs before position `i`.
pub open spec fn repeats_at(names: Seq<Seq<char>>, i: int) -> bool {
    names.take(i).contains(names[i])
}

/// Position `i`, at or after `start`, is the first such that repeats a name.
pub open spec fn first_repeat_from(names: Seq<Seq<char>>, start: int, i: int) -> bool {
    &&& start <= i < names.len()
    &&& repeats_at(names, i)
    &&& forall|j: int| start <= j < i ==> !#[trigger] repeats_at(names, j)
}

/// No name at or after `start` repeats an earlier one.
pub open spec fn no_repeat_from(names: Seq<Seq<char>>, start: int) -> bool {
    forall|j: int| start <= j < names.len() ==> !#[trigger] repeats_at(names, j)
}

/// Position `i` holds the first name that `known` holds.
pub open spec fn first_known(names: Seq<Seq<char>>, known: Seq<Seq<char>>, i: int) -> bool {
    &&& 0 <= i < names.len()
    &&& known.contains(names[i])
    &&& forall|j: int| 0 <= j < i ==> !known.contains(#[trigger] names[j])
}

/// What checking a roster gives: configured names `cfg`, then plugin names
/// `plugins`, against the names of running agents `existing`. A repeat in
/// the configuration is reported first, then a plugin name already taken,
/// then the first name, configured ones first, of a running agent.
pub open spec fn roster_outcome(
    cfg: Seq<Seq<char>>,
    plugins: Seq<Seq<char>>,
    existing: Seq<Seq<char>>,
    r: Result<(), RosterError>,
) -> bool {
    let all = cfg + plugins;
    match r {
        Ok(()) => no_repeat_from(all, 0) && forall|j: int|
            0 <= j < all.len() ==> !existing.contains(#[trigger] all[j]),
        Err(RosterError::DuplicateInConfig(n)) => exists|i: int|
            #![trigger cfg[i]]
            first_repeat_from(cfg, 0, i) && n@ == cfg[i],
        Err(RosterError::DuplicateFromPlugin(n)) => no_repeat_from(cfg, 0) && exists|i: int|
            #![trigger all[i]]
            first_repeat_from(all, cfg.len() as int, i) && n@ == all[i],
        Err(RosterError::AlreadyExists(n)) => no_repeat_from(all, 0) && exists|i: int|
            #![trigger all[i]]
            first_known(all, existing, i) && n@ == all[i],
    }
}

impl RosterError {
    /// The text the loader stops with.
    pub fn message(&self) -> (m: String)
        ensures
            m@ == match *self {
                RosterError::DuplicateInConfig(n) => "duplicate agent name '"@ + n@ + "' in config"@,
                RosterError::DuplicateFromPlugin(n) => "duplicate agent name '"@ + n@ + "' from plugin"@,
                RosterError::AlreadyExists(n) => "agent name '"@ + n@ + "' already exists"@,
            },
    {
        match self {
            RosterError::DuplicateInConfig(n) => crate::text::concat3(
                "duplicate agent name '",
                n.as_str(),
                "' in config",
            ),
            RosterError::DuplicateFromPlugin(n) => crate::text::concat3(
                "duplicate agent name '",
                n.as_str(),
                "' from plugin",
            ),
            RosterError::AlreadyExists(n) => crate::text::concat3(
                "agent name '",
                n.as_str(),
                "' already exists",
            ),
        }
    }
}

/// Whether `names` holds `name`.
fn holds_name(names: &Vec<String>, name: &str) -> (r: bool)
    ensures
        r == names_of(names@).contains(name@),
{
    let n = names.len();
    for k in 0..n
        invariant
            n == names@.len(),
            forall|m: int| 0 <= m < k ==> names@[m]@ != name@,
    {
        if crate::text::str_eq(names[k].as_str(), name) {
            assert(names_of(names@)[k as int] == name@);
            return true;
        }
    }
    proof {
        if names_of(names@).contains(name@) {
            let m = choose|m: int| 0 <= m < names_of(names@).len() && names_of(names@)[m] == name@;
            assert(names@[m]@ == name@);
        }
    }
    false
}

/// The first position at or after `start` whose name repeats an earlier one.
fn first_repeat(names: &Vec<String>, start: usize) -> (r: Option<usize>)
    requires
        start <= names@.len(),
    ensures
        match r {
            Some(i) => first_repeat_from(names_of(names@), start as int, i as int),
            None => no_repeat_from(names_of(names@), start as int),
        },
{
    let ghost ns = names_of(names@);
    let n = names.len();
    for i in start..n
        invariant
            n == names@.len(),
            ns == names_of(names@),
            start <= n,
            forall|j: int| start <= j < i ==> !#[trigger] repeats_at(ns, j),
    {
        for k in 0..i
            invariant
                n == names@.len(),
                start <= i < n,
                ns == names_of(names@),
                forall|j: int| start <= j < i ==> !#[trigger] repeats_at(ns, j),
                forall|m: int| 0 <= m < k ==> names@[m]@ != names@[i as int]@,
        {
            if crate::text::str_eq(names[k].as_str(), names[i].as_str()) {
                assert(ns.take(i as int)[k as int] == ns[i as int]);
                assert(repeats_at(ns, i as int));
                return Some(i);
            }
        }
        proof {
            if repeats_at(ns, i as int) {
                let m = choose|m: int| 0 <= m < ns.take(i as int).len() && ns.take(i as int)[m] == ns[i as int];
                assert(names@[m]@ == names@[i as int]@);
            }
        }
    }
    None
}

/// Checks the names of a roster before any agent is spawned: configured
/// names `config`, plugin names `plugins` (already namespaced), and the
/// names of the agents already running (see `roster_outcome`).
pub fn check_agent_roster(config: &Vec<String>, plugins: &Vec<String>, existing: &Vec<String>) -> (r: Result<(), RosterError>)
    ensures
        roster_outcome(names_of(config@), names_of(plugins@), names_of(existing@), r),
{
    let ghost cfg = names_of(config@);
    let ghost all_names = names_of(config@) + names_of(plugins@);
    match first_repeat(config, 0) {
        Some(i) => {
            return Err(RosterError::DuplicateInConfig(config[i].clone()));
        },
        None => {},
    }
    let mut all: Vec<String> = Vec::new();
    let nc = config.len();
    for k in 0..nc
        invariant
            nc == config@.len(),
            all@ == config@.take(k as int),
    {
        all.push(config[k].clone());
        assert(all@ =~= config@.take(k + 1));
    }
    assert(config@.take(nc as int) =~= config@);
    let np = plugins.len();
    for k in 0..np
        invariant
            np == plugins@.len(),
            all@ == config@ + plugins@.take(k as int),
    {
        all.push(plugins[k].clone());
        assert(all@ =~= config@ + plugins@.take(k + 1));
    }
    assert(plugins@.take(np as int) =~= plugins@);
    assert(names_of(all@) =~= all_names);
    proof {
        assert forall|j: int| 0 <= j < cfg.len() implies #[trigger] repeats_at(all_names, j) == repeats_at(cfg, j) by {
            assert(all_names.take(j) =~= cfg.take(j));
            assert(all_names[j] == cfg[j]);
        }
    }
    match first_repeat(&all, nc) {
        Some(i) => {
            return Err(RosterError::DuplicateFromPlugin(all[i].clone()));
        },
        None => {},
    }
    let na = all.len();
    for k in 0..na
        invariant
            na == all@.len(),
            names_of(all@) == all_names,
            all_names == names_of(config@) + names_of(plugins@),
            no_repeat_from(all_names, 0),
            forall|j: int| 0 <= j < k ==> !names_of(existing@).contains(#[trigger] all_names[j]),
    {
        if holds_name(existing, all[k].as_str()) {
            let name = all[k].clone();
            assert(name@ == all_names[k as int]);
            assert(first_known(all_names, names_of(existing@), k as int));
            return Err(RosterError::AlreadyExists(name));
        }
    }
    Ok(())
}

/// The model an agent built from an entry runs, and its fallback chain: the
/// configured chain when there is one; else the single configured model,
/// served by `default_provider` (or "default"); else no chain and the
/// fallback model.
pub open spec fn entry_model(
    models: Seq<ModelChainEntry>,
    model: Option<String>,
) -> Seq<char> {
    if models.len() > 0 {
        models[0].model@
    } else {
        match model {
            Some(m) => m@,
            None => "gpt-4.1-mini"@,
        }
    }
}

/// The agent built from a configuration entry: persistent, named, tagged and
/// described as the entry says, with the entry's tool permissions (or the
/// defaults) and the model of `entry_model`. The chain comes back beside it.
pub fn agent_from_entry(id: AgentId, entry: AgentEntry, default_provider: Option<String>) -> (r: (
    Agent,
    Option<Vec<ModelChainEntry>>,
))
    ensures
        r.0.id == id,
        r.0.name@ == entry.name@,
        r.0.model@ == entry_model(entry.models@, entry.model),
        r.0.tags@ == entry.tags@,
        r.0.description@ == entry.description@,
        r.0.kind == AgentKind::Persistent,
        r.0.parent_id is None,
        r.0.bound_task_id is None,
        r.0.system_prompt == entry.system_prompt,
        match entry.tools {
            Some(t) => r.0.tool_permissions == t,
            None => r.0.tool_permissions.default_permission == crate::permissions::ToolPermission::Confirm
                && !r.0.tool_permissions.default_permission_explicit
                && r.0.tool_permissions.overrides@ == Map::<Seq<char>, crate::permissions::ToolPermission>::empty(),
        },
        entry.models@.len() > 0 ==> r.1 == Some(entry.models),
        entry.models@.len() == 0 ==> match entry.model {
            Some(m) => r.1 matches Some(chain) && chain@.len() == 1 && chain@[0].model@ == m@
                && chain@[0].provider@ == match default_provider {
                    Some(p) => p@,
                    None => "default"@,
                } && chain@[0].fallback_cooldown_secs is None,
            None => r.1 is None,
        },
{
    let AgentEntry { name, model, models, tags, description, system_prompt, tools } = entry;
    let (profile_model, chain) = if models.len() > 0 {
        (models[0].model.clone(), Some(models))
    } else {
        match model {
            Some(m) => {
                let provider = match default_provider {
                    Some(p) => p,
                    None => "default".to_owned(),
                };
                let first = ModelChainEntry {
                    provider,
                    model: m.clone(),
                    fallback_cooldown_secs: None,
                };
                let mut chain: Vec<ModelChainEntry> = Vec::new();
                chain.push(first);
                (m, Some(chain))
            },
            None => ("gpt-4.1-mini".to_owned(), None),
        }
    };
    let tool_permissions = match tools {
        Some(t) => t,
        None => AgentToolPermissions::default(),
    };
    let agent = Agent {
        id,
        name,
        model: profile_model,
        tags,
        description,
        kind: AgentKind::Persistent,
        parent_id: None,
        bound_task_id: None,
        tool_permissions,
        system_prompt,
    };
    (agent, chain)
}

/// An entry a plugin contributes, renamed into the plugin's namespace as
/// `plugin_id:name`. Returns the new name beside the entry.
pub fn namespaced_entry(plugin_id: &str, entry: AgentEntry) -> (r: (String, AgentEntry))
    ensures
        r.0@ == plugin_id@ + ":"@ + entry.name@,
        r.1.name@ == r.0@,
        r.1.model == entry.model,
        r.1.models == entry.models,
        r.1.tags == entry.tags,
        r.1.description == entry.description,
        r.1.system_prompt == entry.system_prompt,
        r.1.tools == entry.tools,
{
    let full = crate::text::concat3(plugin_id, ":", entry.name.as_str());
    let AgentEntry { name: _, model, models, tags, description, system_prompt, tools } = entry;
    let renamed = AgentEntry {
        name: full.clone(),
        model,
        models,
        tags,
        description,
        system_prompt,
        tools,
    };
    (full, renamed)
}

/// The agent is task-scoped and bound to a task that has ended.
pub open spec fn should_stop(a: Agent, tasks: Seq<Task>) -> bool {
    &&& a.kind == AgentKind::TaskScoped
    &&& a.bound_task_id matches Some(t)
    &&& find_task(tasks, t) matches Some(task)
    &&& task.status.spec_is_terminal()
}

/// The ids of the agents that stop, in order.
pub open spec fn stopping_ids(agents: Seq<Agent>, tasks: Seq<Task>) -> Seq<AgentId>
    decreases agents.len(),
{
    if agents.len() == 0 {
        Seq::empty()
    } else {
        let rest = stopping_ids(agents.drop_last(), tasks);
        if should_stop(agents.last(), tasks) {
            rest.push(agents.last().id)
        } else {
            rest
        }
    }
}

/// After a task terminates: the task-scoped agents whose bound task has
/// ended, to be stopped.
pub fn handle_termination(agents: &[Agent], tasks: &[Task]) -> (r: Vec<AgentId>)
    ensures
        r@ == stopping_ids(agents@, tasks@),
{
    let mut out: Vec<AgentId> = Vec::new();
    let n = agents.len();
    for i in 0..n
        invariant
            n == agents@.len(),
            out@ == stopping_ids(agents@.take(i as int), tasks@),
    {
        let ghost next = agents@.take(i + 1);
        assert(next.drop_last() =~= agents@.take(i as int));
        assert(next.last() == agents@[i as int]);
        let a = &agents[i];
        if a.kind == AgentKind::TaskScoped {
            match a.bound_task_id {
                Some(t) => {
                    proof {
                        lemma_task_position_pub(tasks@, t);
                    }
                    match task_index(tasks, t) {
                        Some(k) => {
                            if tasks[k].status.is_terminal() {
                                out.push(a.id);
                            }
                        },
                        None => {},
                    }
                },
                None => {},
            }
        }
    }
    assert(agents@.take(n as int) =~= agents@);
    out
}

/// Marks the task with id `task_id`, if there is one, failed by an agent
/// error at time `now`, recording `error`. Other tasks are untouched.
pub fn mark_task_failed(tasks: &mut Vec<Task>, task_id: TaskId, error: &str, now: i64)
    ensures
        final(tasks)@.len() == old(tasks)@.len(),
        forall|i: int|
            0 <= i < old(tasks)@.len() && i != task_position(old(tasks)@, task_id)
                ==> #[trigger] final(tasks)@[i] == old(tasks)@[i],
        task_position(old(tasks)@, task_id) >= 0 ==> {
            let p = task_position(old(tasks)@, task_id);
            &&& final(tasks)@[p] == Task {
                status: TaskStatus::Failed(FailureReason::AgentError),
                updated_at: now,
                last_error: final(tasks)@[p].last_error,
                ..old(tasks)@[p]
            }
            &&& final(tasks)@[p].last_error matches Some(e) && e@ == error@
        },
{
    proof {
        lemma_task_position_pub(tasks@, task_id);
    }
    match task_index(tasks.as_slice(), task_id) {
        Some(i) => {
            tasks[i].last_error = Some(error.to_owned());
            tasks[i].status = TaskStatus::Failed(FailureReason::AgentError);
            tasks[i].updated_at = now;
        },
        None => {},
    }
}

} // verus!
