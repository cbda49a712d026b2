//! Sub-task batches: parsing the `create_tasks` arguments and rejecting
//! batches whose `depends_on` edges form a cycle.

use vstd::prelude::*;

use crate::json::{items_field, text_field, text_field_of, texts_field, texts_field_of, JsonValue};
use crate::text::{concat3, concat5, owned};

verus! {

/// One sub-task of a `create_tasks` batch.
#[derive(Clone, Debug)]
pub struct SubTaskDefinition {
    pub name: String,
    pub content: String,
    pub tools: Vec<String>,
    pub depends_on: Vec<String>,
    pub model: Option<String>,
}

/// A sub-task as plain text values.
pub struct SubTaskView {
    pub name: Seq<char>,
    pub content: Seq<char>,
    pub tools: Seq<Seq<char>>,
    pub depends_on: Seq<Seq<char>>,
    pub model: Option<Seq<char>>,
}

/// The texts of the strings.
pub open spec fn texts_view(v: Seq<String>) -> Seq<Seq<char>> {
    v.map_values(|s: String| s@)
}

/// The text of an optional string.
pub open spec fn opt_text_view(o: Option<String>) -> Option<Seq<char>> {
    match o {
        Some(s) => Some(s@),
        None => None,
    }
}

impl View for SubTaskDefinition {
    type V = SubTaskView;

    open spec fn view(&self) -> SubTaskView {
        SubTaskView {
            name: self.name@,
            content: self.content@,
            tools: texts_view(self.tools@),
            depends_on: texts_view(self.depends_on@),
            model: opt_text_view(self.model),
        }
    }
}

/// The views of a sequence of definitions.
pub open spec fn defs_view(v: Seq<SubTaskDefinition>) -> Seq<SubTaskView> {
    v.map_values(|d: SubTaskDefinition| d@)
}

/// The names of a batch, in order.
pub open spec fn names_of(defs: Seq<SubTaskView>) -> Seq<Seq<char>> {
    defs.map_values(|d: SubTaskView| d.name)
}

/// No two sub-tasks of the batch share a name.
pub open spec fn names_unique(defs: Seq<SubTaskView>) -> bool {
    forall|i: int, j: int|
        0 <= i < defs.len() && 0 <= j < defs.len() && i != j ==> #[trigger] defs[i].name
            != #[trigger] defs[j].name
}

/// Sub-task `i` names sub-task `j` in its `depends_on`.
pub open spec fn depends(defs: Seq<SubTaskView>, i: int, j: int) -> bool {
    &&& 0 <= i < defs.len()
    &&& 0 <= j < defs.len()
    &&& defs[i].depends_on.contains(defs[j].name)
}

/// The `k`-th step of the path `p` follows a dependency.
pub open spec fn step_ok(defs: Seq<SubTaskView>, p: Seq<int>, k: int) -> bool {
    depends(defs, p[k], p[k + 1])
}

/// `p` is a closed walk along dependencies: each entry depends on the next,
/// and the last depends on the first.
pub open spec fn is_cycle(defs: Seq<SubTaskView>, p: Seq<int>) -> bool {
    &&& p.len() > 0
    &&& forall|k: int| 0 <= k < p.len() - 1 ==> #[trigger] step_ok(defs, p, k)
    &&& depends(defs, p.last(), p[0])
}

/// Some chain of `depends_on` edges leads from a sub-task back to itself.
pub open spec fn has_cycle(defs: Seq<SubTaskView>) -> bool {
    exists|p: Seq<int>| #[trigger] is_cycle(defs, p)
}

/// Sub-task `v` lies on a dependency cycle.
pub open spec fn on_cycle(defs: Seq<SubTaskView>, v: int) -> bool {
    exists|p: Seq<int>| #[trigger] is_cycle(defs, p) && p.contains(v)
}

/// The error that names a sub-task on a dependency cycle.
pub open spec fn cycle_message(name: Seq<char>) -> Seq<char> {
    "circular dependency detected involving '"@ + name + "'"@
}

/// The error for a name used twice.
pub open spec fn duplicate_message(name: Seq<char>) -> Seq<char> {
    "duplicate task name: '"@ + name + "'"@
}

/// The error for a task without content.
pub open spec fn missing_content_message(name: Seq<char>) -> Seq<char> {
    "task '"@ + name + "' missing 'content' field"@
}

/// The error for a dependency outside the batch.
pub open spec fn missing_dependency_message(task: Seq<char>, dep: Seq<char>) -> Seq<char> {
    "task '"@ + task + "' depends_on '"@ + dep + "' which does not exist in this batch"@
}

/// How one element of the `tasks` array reads, given the names read before it.
pub open spec fn parse_task(v: JsonValue, seen: Seq<Seq<char>>) -> Result<SubTaskView, Seq<char>> {
    match text_field(v, "name"@) {
        None => Err("each task must have a 'name' field"@),
        Some(name) => if seen.contains(name) {
            Err(duplicate_message(name))
        } else {
            match text_field(v, "content"@) {
                None => Err(missing_content_message(name)),
                Some(content) => Ok(
                    SubTaskView {
                        name,
                        content,
                        tools: texts_field(v, "tools"@),
                        depends_on: texts_field(v, "depends_on"@),
                        model: text_field(v, "model"@),
                    },
                ),
            }
        },
    }
}

/// The elements of the `tasks` array read in order; the first bad element decides the error.
pub open spec fn parse_tasks(items: Seq<JsonValue>) -> Result<Seq<SubTaskView>, Seq<char>>
    decreases items.len(),
{
    if items.len() == 0 {
        Ok(Seq::empty())
    } else {
        match parse_tasks(items.drop_last()) {
            Err(e) => Err(e),
            Ok(prev) => match parse_task(items.last(), names_of(prev)) {
                Err(e) => Err(e),
                Ok(d) => Ok(prev.push(d)),
            },
        }
    }
}

/// The first dependency among `deps` that is not in `names`.
pub open spec fn first_unknown(names: Seq<Seq<char>>, deps: Seq<Seq<char>>) -> Option<Seq<char>>
    decreases deps.len(),
{
    if deps.len() == 0 {
        None
    } else if !names.contains(deps[0]) {
        Some(deps[0])
    } else {
        first_unknown(names, deps.drop_first())
    }
}

/// The first (task, dependency) pair, in batch order, whose dependency is not in `names`.
pub open spec fn first_missing(defs: Seq<SubTaskView>, names: Seq<Seq<char>>) -> Option<
    (Seq<char>, Seq<char>),
>
    decreases defs.len(),
{
    if defs.len() == 0 {
        None
    } else {
        match first_unknown(names, defs[0].depends_on) {
            Some(d) => Some((defs[0].name, d)),
            None => first_missing(defs.drop_first(), names),
        }
    }
}

/// The batch that `create_tasks` reads from `input`, with every check but the cycle check.
pub open spec fn checked_definitions(input: JsonValue) -> Result<Seq<SubTaskView>, Seq<char>> {
    match items_field(input, "tasks"@) {
        None => Err("missing or invalid 'tasks' array"@),
        Some(items) => if items.len() == 0 {
            Err("tasks array must not be empty"@)
        } else {
            match parse_tasks(items) {
                Err(e) => Err(e),
                Ok(defs) => match first_missing(defs, names_of(defs)) {
                    Some(pair) => Err(missing_dependency_message(pair.0, pair.1)),
                    None => Ok(defs),
                },
            }
        },
    }
}

/// Names read by `parse_tasks` never repeat.
pub proof fn lemma_parsed_names_unique(items: Seq<JsonValue>)
    requires
        parse_tasks(items) is Ok,
    ensures
        names_unique(parse_tasks(items)->Ok_0),
        parse_tasks(items)->Ok_0.len() == items.len(),
    decreases items.len(),
{
    if items.len() > 0 {
        lemma_parsed_names_unique(items.drop_last());
        let prev = parse_tasks(items.drop_last())->Ok_0;
        let d = parse_task(items.last(), names_of(prev))->Ok_0;
        let defs = prev.push(d);
        assert forall|i: int, j: int|
            0 <= i < defs.len() && 0 <= j < defs.len() && i != j implies #[trigger] defs[i].name
            != #[trigger] defs[j].name by {
            if i == defs.len() - 1 {
                assert(names_of(prev)[j] == prev[j].name);
            } else if j == defs.len() - 1 {
                assert(names_of(prev)[i] == prev[i].name);
            }
        }
    }
}

/// Visit marks of the depth-first search.
#[derive(Clone, Copy, PartialEq, Eq, Structural)]
pub enum VisitState {
    Unvisited,
    Visiting,
    Visited,
}

/// How many nodes are still unvisited.
pub open spec fn unvisited(s: Seq<VisitState>) -> nat
    decreases s.len(),
{
    if s.len() == 0 {
        0
    } else {
        unvisited(s.drop_last()) + if s.last() == VisitState::Unvisited {
            1nat
        } else {
            0nat
        }
    }
}

/// `s2` is `s1` after more search: nothing visited becomes unvisited again.
pub open spec fn advanced(s1: Seq<VisitState>, s2: Seq<VisitState>) -> bool {
    &&& s1.len() == s2.len()
    &&& forall|i: int|
        0 <= i < s1.len() && #[trigger] s1[i] != VisitState::Unvisited ==> s2[i]
            != VisitState::Unvisited
    &&& forall|i: int|
        0 <= i < s1.len() && #[trigger] s1[i] == VisitState::Visited ==> s2[i]
            == VisitState::Visited
}

proof fn lemma_unvisited_shrinks(s1: Seq<VisitState>, s2: Seq<VisitState>, i: int)
    requires
        advanced(s1, s2),
        0 <= i < s1.len(),
        s1[i] == VisitState::Unvisited,
        s2[i] != VisitState::Unvisited,
    ensures
        unvisited(s2) < unvisited(s1),
    decreases s1.len(),
{
    lemma_unvisited_mono(s1.drop_last(), s2.drop_last());
    if i < s1.len() - 1 {
        lemma_unvisited_shrinks(s1.drop_last(), s2.drop_last(), i);
    }
}

proof fn lemma_unvisited_mono(s1: Seq<VisitState>, s2: Seq<VisitState>)
    requires
        advanced(s1, s2),
    ensures
        unvisited(s2) <= unvisited(s1),
    decreases s1.len(),
{
    if s1.len() > 0 {
        lemma_unvisited_mono(s1.drop_last(), s2.drop_last());
        assert(s1.last() == s1[s1.len() - 1]);
    }
}

/// No dependency cycle passes through a visited node.
pub open spec fn visited_off_cycles(defs: Seq<SubTaskView>, s: Seq<VisitState>) -> bool {
    forall|p: Seq<int>, k: int|
        #![trigger is_cycle(defs, p), p[k]]
        is_cycle(defs, p) && 0 <= k < p.len() && 0 <= p[k] < s.len() ==> s[p[k]]
            != VisitState::Visited
}

/// Every entry of a cycle is a sub-task of the batch.
proof fn lemma_cycle_in_range(defs: Seq<SubTaskView>, p: Seq<int>, k: int)
    requires
        is_cycle(defs, p),
        0 <= k < p.len(),
    ensures
        0 <= p[k] < defs.len(),
{
    if k < p.len() - 1 {
        assert(step_ok(defs, p, k));
    }
}

/// The search stack: in range, each entry depends on the next, and its
/// entries are exactly the nodes marked `Visiting`.
pub open spec fn stack_ok(defs: Seq<SubTaskView>, s: Seq<VisitState>, stack: Seq<int>) -> bool {
    &&& forall|k: int| 0 <= k < stack.len() ==> 0 <= #[trigger] stack[k] < defs.len()
    &&& forall|k: int| 0 <= k < stack.len() - 1 ==> #[trigger] step_ok(defs, stack, k)
    &&& forall|v: int|
        0 <= v < s.len() ==> (#[trigger] s[v] == VisitState::Visiting <==> stack.contains(v))
}

/// Index of the first sub-task called `name`.
fn find_name(defs: &Vec<SubTaskDefinition>, name: &String) -> (r: Option<usize>)
    ensures
        r matches Some(j) ==> j < defs@.len() && defs@[j as int].name@ == name@,
        r is None ==> forall|j: int| 0 <= j < defs@.len() ==> defs@[j].name@ != name@,
{
    let n = defs.len();
    for j in 0..n
        invariant
            n == defs@.len(),
            forall|t: int| 0 <= t < j ==> defs@[t].name@ != name@,
    {
        if defs[j].name == *name {
            return Some(j);
        }
    }
    None
}

/// Builds the cycle error for `name`.
fn cycle_error(name: &String) -> (e: String)
    ensures
        e@ == cycle_message(name@),
{
    concat3("circular dependency detected involving '", name.as_str(), "'")
}

proof fn lemma_stack_cycle(defs: Seq<SubTaskView>, stack2: Seq<int>, m: int)
    requires
        0 <= m < stack2.len(),
        forall|k: int| 0 <= k < stack2.len() - 1 ==> #[trigger] step_ok(defs, stack2, k),
        depends(defs, stack2.last(), stack2[m]),
    ensures
        is_cycle(defs, stack2.subrange(m, stack2.len() as int)),
        on_cycle(defs, stack2.last()),
{
    let p = stack2.subrange(m, stack2.len() as int);
    assert forall|t: int| 0 <= t < p.len() - 1 implies #[trigger] step_ok(defs, p, t) by {
        assert(step_ok(defs, stack2, m + t));
        assert(p[t] == stack2[m + t]);
        assert(p[t + 1] == stack2[m + t + 1]);
    }
    assert(p.last() == stack2.last());
    assert(is_cycle(defs, p));
    assert(p.contains(stack2.last()));
}

/// Depth-first search from `node`; `stack` holds the nodes being visited, outermost first.
fn visit(
    node: usize,
    states: &mut Vec<VisitState>,
    defs: &Vec<SubTaskDefinition>,
    Ghost(stack): Ghost<Seq<int>>,
) -> (r: Result<(), String>)
    requires
        names_unique(defs_view(defs@)),
        old(states)@.len() == defs@.len(),
        node < defs@.len(),
        old(states)@[node as int] == VisitState::Unvisited,
        stack_ok(defs_view(defs@), old(states)@, stack),
        stack.len() > 0 ==> depends(defs_view(defs@), stack.last(), node as int),
        visited_off_cycles(defs_view(defs@), old(states)@),
    ensures
        final(states)@.len() == old(states)@.len(),
        r is Ok ==> {
            &&& final(states)@[node as int] == VisitState::Visited
            &&& advanced(old(states)@, final(states)@)
            &&& forall|v: int|
                0 <= v < defs@.len() && v != node ==> (#[trigger] final(states)@[v]
                    == VisitState::Visiting <==> old(states)@[v] == VisitState::Visiting)
            &&& visited_off_cycles(defs_view(defs@), final(states)@)
        },
        r matches Err(e) ==> exists|v: int|
            0 <= v < defs@.len() && on_cycle(defs_view(defs@), v) && e@ == cycle_message(
                #[trigger] defs@[v].name@,
            ),
    decreases unvisited(old(states)@),
{
    let ghost dv = defs_view(defs@);
    let ghost n = defs@.len();
    let ghost entry = states@;
    states.set(node, VisitState::Visiting);
    let ghost stack2 = stack.push(node as int);
    proof {
        assert(advanced(entry, states@));
        assert forall|k: int| 0 <= k < stack2.len() - 1 implies #[trigger] step_ok(dv, stack2, k) by {
            if k < stack.len() - 1 {
                assert(step_ok(dv, stack, k));
            }
        }
        assert forall|v: int| 0 <= v < states@.len() implies (#[trigger] states@[v]
            == VisitState::Visiting <==> stack2.contains(v)) by {
            if v != node {
                if stack.contains(v) {
                    let t = choose|t: int| 0 <= t < stack.len() && stack[t] == v;
                    assert(stack2[t] == v);
                }
                if stack2.contains(v) {
                    let t = choose|t: int| 0 <= t < stack2.len() && stack2[t] == v;
                    assert(stack[t] == v);
                }
            } else {
                assert(stack2[stack2.len() - 1] == v);
            }
        }
        assert forall|p: Seq<int>, k: int| #![trigger is_cycle(dv, p), p[k]]
            is_cycle(dv, p) && 0 <= k < p.len() && 0 <= p[k] < states@.len() implies states@[p[k]]
            != VisitState::Visited by {
            if p[k] != node as int {
                assert(entry[p[k]] != VisitState::Visited);
            }
        }
    }
    let m = defs[node].depends_on.len();
    for k in 0..m
        invariant
            names_unique(dv),
            dv == defs_view(defs@),
            n == defs@.len(),
            node < n,
            m == defs@[node as int].depends_on@.len(),
            states@.len() == n,
            states@[node as int] == VisitState::Visiting,
            advanced(entry.update(node as int, VisitState::Visiting), states@),
            entry[node as int] == VisitState::Unvisited,
            entry.len() == n,
            entry == old(states)@,
            stack2.last() == node,
            stack_ok(dv, states@, stack2),
            visited_off_cycles(dv, states@),
            forall|kk: int, j: int|
                0 <= kk < k && 0 <= j < n && #[trigger] defs@[node as int].depends_on@[kk]@
                    == #[trigger] defs@[j].name@ ==> states@[j] == VisitState::Visited,
    {
        let found = find_name(defs, &defs[node].depends_on[k]);
        match found {
            Some(j) => {
                let st = states[j];
                match st {
                    VisitState::Visiting => {
                        let e = cycle_error(&defs[node].name);
                        proof {
                            let mi = choose|t: int| 0 <= t < stack2.len() && stack2[t] == j;
                            assert(dv[node as int].depends_on[k as int] == defs@[node as int].depends_on@[k as int]@);
                            assert(dv[j as int].name == defs@[j as int].name@);
                            assert(dv[node as int].depends_on.contains(dv[j as int].name));
                            assert(depends(dv, stack2.last(), stack2[mi]));
                            lemma_stack_cycle(dv, stack2, mi);
                            assert(e@ == cycle_message(defs@[node as int].name@));
                        }
                        return Err(e);
                    },
                    VisitState::Unvisited => {
                        proof {
                            let e1 = entry.update(node as int, VisitState::Visiting);
                            assert forall|i: int| 0 <= i < entry.len() && #[trigger] entry[i]
                                != VisitState::Unvisited implies states@[i] != VisitState::Unvisited by {
                                assert(e1[i] == entry[i]);
                            }
                            assert forall|i: int| 0 <= i < entry.len() && #[trigger] entry[i]
                                == VisitState::Visited implies states@[i] == VisitState::Visited by {
                                assert(e1[i] == entry[i]);
                            }
                            assert(advanced(entry, states@));
                            lemma_unvisited_shrinks(entry, states@, node as int);
                            assert(dv[node as int].depends_on[k as int] == defs@[node as int].depends_on@[k as int]@);
                            assert(dv[j as int].name == defs@[j as int].name@);
                            assert(depends(dv, node as int, j as int));
                        }
                        let ghost before = states@;
                        let sub = visit(j, states, defs, Ghost(stack2));
                        match sub {
                            Err(e) => {
                                return Err(e);
                            },
                            Ok(()) => {},
                        }
                        proof {
                            assert forall|v: int| 0 <= v < states@.len() implies (
                            #[trigger] states@[v] == VisitState::Visiting <==> stack2.contains(v)) by {
                                if v == j {
                                    assert(before[v] == VisitState::Unvisited);
                                }
                            }
                        }
                    },
                    VisitState::Visited => {},
                }
                proof {
                    assert forall|j2: int|
                        0 <= j2 < n && #[trigger] defs@[j2].name@ == defs@[node as int].depends_on@[k as int]@
                        implies states@[j2] == VisitState::Visited by {
                        if j2 != j {
                            assert(dv[j2].name == defs@[j2].name@);
                            assert(dv[j as int].name == defs@[j as int].name@);
                        }
                    }
                }
            },
            None => {},
        }
    }
    let ghost pre = states@;
    states.set(node, VisitState::Visited);
    proof {
        assert forall|j: int| depends(dv, node as int, j) implies pre[j] == VisitState::Visited by {
            let kk = choose|kk: int|
                0 <= kk < dv[node as int].depends_on.len() && dv[node as int].depends_on[kk]
                    == dv[j].name;
            assert(dv[node as int].depends_on[kk] == defs@[node as int].depends_on@[kk]@);
            assert(dv[j].name == defs@[j].name@);
        }
        assert forall|p: Seq<int>, k: int| #![trigger is_cycle(dv, p), p[k]]
            is_cycle(dv, p) && 0 <= k < p.len() && 0 <= p[k] < states@.len() implies states@[p[k]]
            != VisitState::Visited by {
            if p[k] == node as int {
                let k2 = if k < p.len() - 1 {
                    k + 1
                } else {
                    0
                };
                if k < p.len() - 1 {
                    assert(step_ok(dv, p, k));
                }
                assert(depends(dv, node as int, p[k2]));
                lemma_cycle_in_range(dv, p, k2);
                assert(pre[p[k2]] == VisitState::Visited);
                assert(pre[p[k2]] != VisitState::Visited);
            } else {
                assert(pre[p[k]] != VisitState::Visited);
            }
        }
        let e1 = entry.update(node as int, VisitState::Visiting);
        assert forall|i: int| 0 <= i < entry.len() && #[trigger] entry[i]
            != VisitState::Unvisited implies states@[i] != VisitState::Unvisited by {
            assert(e1[i] == entry[i]);
        }
        assert forall|i: int| 0 <= i < entry.len() && #[trigger] entry[i]
            == VisitState::Visited implies states@[i] == VisitState::Visited by {
            assert(e1[i] == entry[i]);
        }
        assert(advanced(entry, states@));
    }
    Ok(())
}

/// Rejects a batch whose `depends_on` edges form a cycle.
pub fn detect_cycle(definitions: &Vec<SubTaskDefinition>) -> (r: Result<(), String>)
    requires
        names_unique(defs_view(definitions@)),
    ensures
        r is Ok <==> !has_cycle(defs_view(definitions@)),
        r matches Err(e) ==> exists|v: int|
            0 <= v < definitions@.len() && on_cycle(defs_view(definitions@), v) && e@
                == cycle_message(#[trigger] definitions@[v].name@),
{
    let ghost dv = defs_view(definitions@);
    let n = definitions.len();
    let mut states: Vec<VisitState> = Vec::new();
    for i in 0..n
        invariant
            states@.len() == i,
            forall|t: int| 0 <= t < i ==> #[trigger] states@[t] == VisitState::Unvisited,
    {
        states.push(VisitState::Unvisited);
    }
    proof {
        assert forall|p: Seq<int>, k: int| #![trigger is_cycle(dv, p), p[k]]
            is_cycle(dv, p) && 0 <= k < p.len() && 0 <= p[k] < states@.len() implies states@[p[k]]
            != VisitState::Visited by {
            assert(states@[p[k]] == VisitState::Unvisited);
        }
    }
    for i in 0..n
        invariant
            n == definitions@.len(),
            dv == defs_view(definitions@),
            names_unique(dv),
            states@.len() == n,
            forall|t: int| 0 <= t < i ==> #[trigger] states@[t] == VisitState::Visited,
            forall|t: int| 0 <= t < n ==> #[trigger] states@[t] != VisitState::Visiting,
            visited_off_cycles(dv, states@),
    {
        if states[i] == VisitState::Unvisited {
            proof {
                assert(stack_ok(dv, states@, Seq::<int>::empty()));
            }
            let r = visit(i, &mut states, definitions, Ghost(Seq::<int>::empty()));
            match r {
                Err(e) => {
                    proof {
                        let v = choose|v: int|
                            0 <= v < definitions@.len() && on_cycle(dv, v) && e@ == cycle_message(
                                #[trigger] definitions@[v].name@,
                            );
                        let p = choose|p: Seq<int>| #[trigger] is_cycle(dv, p) && p.contains(v);
                        assert(has_cycle(dv));
                    }
                    return Err(e);
                },
                Ok(()) => {},
            }
        }
    }
    proof {
        if has_cycle(dv) {
            let p = choose|p: Seq<int>| #[trigger] is_cycle(dv, p);
            lemma_cycle_in_range(dv, p, 0);
            assert(states@[p[0]] != VisitState::Visited);
        }
    }
    Ok(())
}


proof fn lemma_parse_err_prefix(items: Seq<JsonValue>, i: int)
    requires
        0 <= i <= items.len(),
        parse_tasks(items.take(i)) is Err,
    ensures
        parse_tasks(items) == parse_tasks(items.take(i)),
    decreases items.len(),
{
    if i == items.len() {
        assert(items.take(i) =~= items);
    } else {
        assert(items.drop_last().take(i) =~= items.take(i));
        lemma_parse_err_prefix(items.drop_last(), i);
    }
}

/// Whether some sub-task in `defs` is called `name`.
fn name_known(defs: &Vec<SubTaskDefinition>, name: &String) -> (r: bool)
    ensures
        r == names_of(defs_view(defs@)).contains(name@),
{
    let ghost dv = defs_view(defs@);
    match find_name(defs, name) {
        Some(j) => {
            assert(names_of(dv)[j as int] == name@);
            true
        },
        None => {
            assert forall|t: int| 0 <= t < names_of(dv).len() implies names_of(dv)[t] != name@ by {
                assert(names_of(dv)[t] == defs@[t].name@);
            }
            false
        },
    }
}

/// Reads one element of the `tasks` array.
fn parse_task_exec(v: &JsonValue, defs: &Vec<SubTaskDefinition>) -> (r: Result<
    SubTaskDefinition,
    String,
>)
    ensures
        match parse_task(*v, names_of(defs_view(defs@))) {
            Ok(d) => r matches Ok(x) && x@ == d,
            Err(e) => r matches Err(x) && x@ == e,
        },
{
    let name = match text_field_of(v, "name") {
        Some(s) => s,
        None => {
            return Err(owned("each task must have a 'name' field"));
        },
    };
    if name_known(defs, &name) {
        return Err(concat3("duplicate task name: '", name.as_str(), "'"));
    }
    let content = match text_field_of(v, "content") {
        Some(s) => s,
        None => {
            return Err(concat3("task '", name.as_str(), "' missing 'content' field"));
        },
    };
    let tools = texts_field_of(v, "tools");
    let depends_on = texts_field_of(v, "depends_on");
    let model = text_field_of(v, "model");
    let d = SubTaskDefinition { name, content, tools, depends_on, model };
    assert(opt_text_view(d.model) == text_field(*v, "model"@));
    Ok(d)
}

/// The first dependency of `deps` that names no sub-task in `defs`.
fn first_unknown_exec(defs: &Vec<SubTaskDefinition>, deps: &Vec<String>) -> (r: Option<usize>)
    ensures
        match first_unknown(names_of(defs_view(defs@)), texts_view(deps@)) {
            Some(d) => r matches Some(k) && k < deps@.len() && deps@[k as int]@ == d,
            None => r is None,
        },
{
    let ghost names = names_of(defs_view(defs@));
    let ghost ds = texts_view(deps@);
    let n = deps.len();
    let mut k: usize = 0;
    assert(ds.subrange(0, n as int) =~= ds);
    while k < n
        invariant
            k <= n,
            n == deps@.len(),
            ds == texts_view(deps@),
            names == names_of(defs_view(defs@)),
            first_unknown(names, ds) == first_unknown(names, ds.subrange(k as int, n as int)),
        decreases n - k,
    {
        let ghost rest = ds.subrange(k as int, n as int);
        assert(rest[0] == deps@[k as int]@);
        if !name_known(defs, &deps[k]) {
            return Some(k);
        }
        assert(rest.drop_first() =~= ds.subrange(k + 1, n as int));
        k = k + 1;
    }
    None
}

/// The first sub-task, in batch order, with a dependency outside the batch, and that dependency.
fn first_missing_exec(defs: &Vec<SubTaskDefinition>) -> (r: Option<(usize, usize)>)
    ensures
        match first_missing(defs_view(defs@), names_of(defs_view(defs@))) {
            Some(pair) => r matches Some(ij) && ij.0 < defs@.len() && ij.1 < defs@[ij.0 as int].depends_on@.len()
                && defs@[ij.0 as int].name@ == pair.0 && defs@[ij.0 as int].depends_on@[ij.1 as int]@ == pair.1,
            None => r is None,
        },
{
    let ghost dv = defs_view(defs@);
    let ghost names = names_of(dv);
    let n = defs.len();
    let mut i: usize = 0;
    assert(dv.subrange(0, n as int) =~= dv);
    while i < n
        invariant
            i <= n,
            n == defs@.len(),
            dv == defs_view(defs@),
            names == names_of(dv),
            first_missing(dv, names) == first_missing(dv.subrange(i as int, n as int), names),
        decreases n - i,
    {
        let ghost rest = dv.subrange(i as int, n as int);
        assert(rest[0] == defs@[i as int]@);
        match first_unknown_exec(defs, &defs[i].depends_on) {
            Some(k) => {
                return Some((i, k));
            },
            None => {},
        }
        assert(rest.drop_first() =~= dv.subrange(i + 1, n as int));
        i = i + 1;
    }
    None
}

/// Reads the `create_tasks` arguments: a non-empty `tasks` array of sub-tasks
/// with unique names, dependencies inside the batch, and no dependency cycle.
pub fn parse_create_tasks_params(input: &JsonValue) -> (r: Result<Vec<SubTaskDefinition>, String>)
    ensures
        match checked_definitions(*input) {
            Err(e) => r matches Err(x) && x@ == e,
            Ok(defs) => if has_cycle(defs) {
                r matches Err(x) && exists|v: int|
                    0 <= v < defs.len() && on_cycle(defs, v) && x@ == cycle_message(
                        #[trigger] defs[v].name,
                    )
            } else {
                r matches Ok(v) && defs_view(v@) == defs
            },
        },
{
    let items = match input.get("tasks") {
        Some(x) => match x.as_array() {
            Some(a) => a,
            None => {
                return Err(owned("missing or invalid 'tasks' array"));
            },
        },
        None => {
            return Err(owned("missing or invalid 'tasks' array"));
        },
    };
    if items.len() == 0 {
        return Err(owned("tasks array must not be empty"));
    }
    let n = items.len();
    let mut defs: Vec<SubTaskDefinition> = Vec::new();
    assert(items_field(*input, "tasks"@) == Some(items@));
    assert(items@.take(0) =~= Seq::<JsonValue>::empty());
    assert(defs_view(defs@) =~= Seq::<SubTaskView>::empty());
    for i in 0..n
        invariant
            n == items@.len(),
            n > 0,
            items_field(*input, "tasks"@) == Some(items@),
            parse_tasks(items@.take(i as int)) == Ok::<Seq<SubTaskView>, Seq<char>>(
                defs_view(defs@),
            ),
    {
        let ghost old_defs = defs@;
        assert(items@.take(i + 1).drop_last() =~= items@.take(i as int));
        assert(items@.take(i + 1).last() == items@[i as int]);
        match parse_task_exec(&items[i], &defs) {
            Ok(d) => {
                let ghost dd = d@;
                defs.push(d);
                assert(defs_view(defs@) =~= defs_view(old_defs).push(dd));
            },
            Err(e) => {
                proof {
                    lemma_parse_err_prefix(items@, i + 1);
                    assert(parse_tasks(items@) == Err::<Seq<SubTaskView>, Seq<char>>(e@));
                }
                return Err(e);
            },
        }
    }
    assert(items@.take(n as int) =~= items@);
    proof {
        lemma_parsed_names_unique(items@);
    }
    match first_missing_exec(&defs) {
        Some((i, k)) => {
            return Err(
                concat5(
                    "task '",
                    defs[i].name.as_str(),
                    "' depends_on '",
                    defs[i].depends_on[k].as_str(),
                    "' which does not exist in this batch",
                ),
            );
        },
        None => {},
    }
    match detect_cycle(&defs) {
        Ok(()) => Ok(defs),
        Err(e) => {
            proof {
                let dv = defs_view(defs@);
                let v = choose|v: int|
                    0 <= v < defs@.len() && on_cycle(dv, v) && e@ == cycle_message(
                        #[trigger] defs@[v].name@,
                    );
                assert(dv[v].name == defs@[v].name@);
            }
            Err(e)
        },
    }
}

/// Each element of the `tasks` array becomes one definition, in order, that
/// keeps the element's `name`, `content`, `tools`, `depends_on` and `model`.
pub proof fn lemma_parsed_tasks_keep_their_fields(items: Seq<JsonValue>)
    requires
        parse_tasks(items) is Ok,
    ensures
        parse_tasks(items)->Ok_0.len() == items.len(),
        forall|k: int|
            0 <= k < items.len() ==> {
                let d = #[trigger] parse_tasks(items)->Ok_0[k];
                &&& text_field(items[k], "name"@) == Some(d.name)
                &&& text_field(items[k], "content"@) == Some(d.content)
                &&& d.tools == texts_field(items[k], "tools"@)
                &&& d.depends_on == texts_field(items[k], "depends_on"@)
                &&& d.model == text_field(items[k], "model"@)
            },
    decreases items.len(),
{
    if items.len() > 0 {
        let rest = items.drop_last();
        lemma_parsed_tasks_keep_their_fields(rest);
        let prev = parse_tasks(rest)->Ok_0;
        assert forall|k: int| 0 <= k < rest.len() implies #[trigger] items[k] == rest[k] by {}
    }
}

/// The `create_tasks` arguments that pass every check but the cycle check
/// give one definition per element of the `tasks` array, in order, each
/// keeping the element's fields (see `lemma_parsed_tasks_keep_their_fields`).
pub proof fn lemma_create_tasks_reads_each_element(input: JsonValue)
    requires
        checked_definitions(input) is Ok,
    ensures
        items_field(input, "tasks"@) matches Some(items) && {
            let defs = checked_definitions(input)->Ok_0;
            &&& defs.len() == items.len()
            &&& forall|k: int|
                0 <= k < items.len() ==> {
                    let d = #[trigger] defs[k];
                    &&& text_field(items[k], "name"@) == Some(d.name)
                    &&& text_field(items[k], "content"@) == Some(d.content)
                    &&& d.tools == texts_field(items[k], "tools"@)
                    &&& d.depends_on == texts_field(items[k], "depends_on"@)
                    &&& d.model == text_field(items[k], "model"@)
                }
        },
{
    let items = items_field(input, "tasks"@)->0;
    lemma_parsed_tasks_keep_their_fields(items);
}

} // verus!
