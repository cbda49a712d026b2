//! Short-term memory: entries, their pairing groups, and which entries a
//! summarization may compress without splitting a group.

use vstd::prelude::*;

verus! {

/// Who wrote a memory entry.
#[derive(Debug, Clone, Copy, PartialEq, Eq, Structural)]
pub enum EntryRole {
    User,
    Assistant,
    Summary,
    Archive,
}

/// One tool call recorded on an assistant entry.
#[derive(Debug)]
pub struct ToolCall {
    pub id: Option<String>,
    pub tool_name: String,
    pub input: String,
    pub output: String,
    /// Unix time of the call, in seconds.
    pub timestamp: i64,
}

/// Extra data of a memory entry.
#[derive(Debug)]
pub struct EntryMetadata {
    pub tool_calls: Vec<ToolCall>,
}

impl EntryMetadata {
    /// Metadata without tool calls.
    pub fn empty() -> (m: Self)
        ensures
            m.tool_calls@.len() == 0,
    {
        EntryMetadata { tool_calls: Vec::new() }
    }
}

/// One entry of short-term memory.
#[derive(Debug)]
pub struct MemoryEntry {
    pub role: EntryRole,
    pub content: String,
    pub metadata: EntryMetadata,
}

/// The entry opens a new pairing group: a user turn, or an assistant turn
/// that calls tools (the anchor that keeps a tool exchange together).
pub open spec fn starts_group(e: MemoryEntry) -> bool {
    e.role == EntryRole::User || (e.role == EntryRole::Assistant && e.metadata.tool_calls@.len()
        > 0)
}

/// The groups laid end to end.
pub open spec fn flatten(groups: Seq<Seq<usize>>) -> Seq<usize>
    decreases groups.len(),
{
    if groups.len() == 0 {
        Seq::empty()
    } else {
        flatten(groups.drop_last()) + groups.last()
    }
}

/// The indices `0 .. n` in order.
pub open spec fn indices(n: nat) -> Seq<usize> {
    Seq::new(n, |i: int| i as usize)
}

/// `groups` cuts the entries into consecutive non-empty runs, a new run
/// starting exactly at each entry that opens a group (the first entry always starts one).
pub open spec fn is_grouping(entries: Seq<MemoryEntry>, groups: Seq<Seq<usize>>) -> bool {
    &&& flatten(groups) == indices(entries.len())
    &&& forall|g: int| 0 <= g < groups.len() ==> #[trigger] groups[g].len() > 0
    &&& forall|g: int| 0 < g < groups.len() ==> starts_group(entries[#[trigger] groups[g][0] as int])
    &&& forall|g: int, k: int|
        0 <= g < groups.len() && 0 < k < groups[g].len() ==> !starts_group(
            entries[#[trigger] groups[g][k] as int],
        )
}

proof fn lemma_flatten_push(groups: Seq<Seq<usize>>, g: Seq<usize>)
    ensures
        flatten(groups.push(g)) == flatten(groups) + g,
{
    assert(groups.push(g).drop_last() =~= groups);
}

/// Splits the entries into pairing groups (lists of entry indices).
pub fn split_into_groups(entries: &[MemoryEntry]) -> (groups: Vec<Vec<usize>>)
    ensures
        is_grouping(entries@, groups@.map_values(|g: Vec<usize>| g@)),
{
    let n = entries.len();
    let mut groups: Vec<Vec<usize>> = Vec::new();
    let mut current: Vec<usize> = Vec::new();
    if n == 0 {
        proof {
            let gv = groups@.map_values(|g: Vec<usize>| g@);
            assert(gv =~= Seq::<Seq<usize>>::empty());
            assert(indices(0) =~= Seq::<usize>::empty());
        }
        return groups;
    }
    for i in 0..n
        invariant
            n == entries@.len(),
            n > 0,
            flatten(groups@.map_values(|g: Vec<usize>| g@)) + current@ == indices(i as nat),
            i > 0 ==> current@.len() > 0,
            i == 0 ==> groups@.len() == 0 && current@.len() == 0,
            forall|g: int|
                0 <= g < groups@.len() ==> #[trigger] groups@[g]@.len() > 0,
            forall|g: int|
                0 < g < groups@.len() ==> starts_group(entries@[#[trigger] groups@[g]@[0] as int]),
            groups@.len() > 0 && current@.len() > 0 ==> starts_group(entries@[current@[0] as int]),
            forall|g: int, k: int|
                0 <= g < groups@.len() && 0 < k < groups@[g]@.len() ==> !starts_group(
                    entries@[#[trigger] groups@[g]@[k] as int],
                ),
            forall|k: int|
                0 < k < current@.len() ==> !starts_group(entries@[#[trigger] current@[k] as int]),
    {
        let e = &entries[i];
        let starts = match e.role {
            EntryRole::User => true,
            EntryRole::Assistant => e.metadata.tool_calls.len() > 0,
            _ => false,
        };
        let ghost gv_before = groups@.map_values(|g: Vec<usize>| g@);
        if starts && current.len() > 0 {
            let ghost cv = current@;
            let mut taken: Vec<usize> = Vec::new();
            std::mem::swap(&mut taken, &mut current);
            groups.push(taken);
            proof {
                let gv = groups@.map_values(|g: Vec<usize>| g@);
                assert(gv =~= gv_before.push(cv));
                lemma_flatten_push(gv_before, cv);
            }
        }
        current.push(i);
        proof {
            assert(indices((i + 1) as nat) =~= indices(i as nat).push(i));
            let gv = groups@.map_values(|g: Vec<usize>| g@);
            assert(flatten(gv) + current@ =~= (flatten(gv) + current@.drop_last()).push(i));
            assert(current@[current@.len() - 1] == i);
        }
    }
    let ghost cv = current@;
    let ghost gv_before = groups@.map_values(|g: Vec<usize>| g@);
    groups.push(current);
    proof {
        let gv = groups@.map_values(|g: Vec<usize>| g@);
        assert(gv =~= gv_before.push(cv));
        lemma_flatten_push(gv_before, cv);
        assert forall|g: int| 0 <= g < gv.len() implies #[trigger] gv[g].len() > 0 by {
            if g < gv.len() - 1 {
                assert(gv[g] == groups@[g]@);
            }
        }
        assert forall|g: int| 0 < g < gv.len() implies starts_group(
            entries@[#[trigger] gv[g][0] as int],
        ) by {
            if g < gv.len() - 1 {
                assert(gv[g] == groups@[g]@);
            }
        }
        assert forall|g: int, k: int|
            0 <= g < gv.len() && 0 < k < gv[g].len() implies !starts_group(
            entries@[#[trigger] gv[g][k] as int],
        ) by {
            if g < gv.len() - 1 {
                assert(gv[g] == groups@[g]@);
            }
        }
    }
    groups
}

/// Entry `i` opens a group: the first entry, or one that starts a group.
pub open spec fn opens(entries: Seq<MemoryEntry>, i: int) -> bool {
    i == 0 || starts_group(entries[i])
}

/// How many groups open before index `k`.
pub open spec fn opens_before(entries: Seq<MemoryEntry>, k: int) -> nat
    decreases k,
{
    if k <= 0 {
        0
    } else {
        opens_before(entries, k - 1) + if opens(entries, k - 1) {
            1nat
        } else {
            0nat
        }
    }
}

/// How many pairing groups the entries form.
pub open spec fn group_count(entries: Seq<MemoryEntry>) -> nat {
    opens_before(entries, entries.len() as int)
}

/// Entries before index `count` can be removed without splitting a group:
/// `count` is the end of the entries or an entry that opens a group.
pub open spec fn at_group_boundary(entries: Seq<MemoryEntry>, count: int) -> bool {
    count == entries.len() || (0 <= count < entries.len() && opens(entries, count))
}

/// `count` leading entries are all the groups but the last `preserve`:
/// none when there are no more than `preserve` groups, else exactly the
/// first `group_count - preserve` whole groups.
pub open spec fn is_compressible_prefix(entries: Seq<MemoryEntry>, preserve: nat, count: int) -> bool {
    if group_count(entries) <= preserve {
        count == 0
    } else {
        &&& 0 < count <= entries.len()
        &&& at_group_boundary(entries, count)
        &&& opens_before(entries, count) == group_count(entries) - preserve
    }
}

/// Counting open positions agrees with the number of groups of a grouping.
proof fn lemma_opens_before_step(entries: Seq<MemoryEntry>, k: int)
    requires
        0 <= k,
    ensures
        opens_before(entries, k + 1) == opens_before(entries, k) + if opens(entries, k) {
            1nat
        } else {
            0nat
        },
{
}

/// How many leading entries a summarization may compress while the last
/// `preserve` groups stay (see `is_compressible_prefix`).
pub fn compressible_entry_count(entries: &[MemoryEntry], preserve: usize) -> (count: usize)
    ensures
        is_compressible_prefix(entries@, preserve as nat, count as int),
{
    let n = entries.len();
    let mut total: usize = 0;
    for i in 0..n
        invariant
            n == entries@.len(),
            total as nat == opens_before(entries@, i as int),
            total <= i,
    {
        proof {
            lemma_opens_before_step(entries@, i as int);
        }
        if i == 0 || opens_exec(&entries[i]) {
            total = total + 1;
        }
    }
    if total <= preserve {
        return 0;
    }
    let target = total - preserve;
    let mut seen: usize = 0;
    for i in 0..n
        invariant
            n == entries@.len(),
            total as nat == group_count(entries@),
            target == total - preserve,
            target > 0,
            seen as nat == opens_before(entries@, i as int),
            seen <= target,
    {
        proof {
            lemma_opens_before_step(entries@, i as int);
        }
        let is_open = i == 0 || opens_exec(&entries[i]);
        if is_open {
            if seen == target {
                return i;
            }
            seen = seen + 1;
        }
    }
    n
}

/// Whether the entry starts a group.
pub fn opens_exec(e: &MemoryEntry) -> (r: bool)
    ensures
        r == starts_group(*e),
{
    match e.role {
        EntryRole::User => true,
        EntryRole::Assistant => e.metadata.tool_calls.len() > 0,
        _ => false,
    }
}


impl Default for EntryMetadata {
    fn default() -> (m: Self)
        ensures
            m.tool_calls@.len() == 0,
    {
        EntryMetadata { tool_calls: Vec::new() }
    }
}

/// Estimated token cost of one entry's text: a quarter token per character, rounded down, plus one.
pub open spec fn entry_tokens(content: Seq<char>) -> nat {
    content.len() / 4 + 1
}

/// Estimated token cost of recorded tool calls: their inputs and outputs.
pub open spec fn calls_tokens(calls: Seq<ToolCall>) -> nat
    decreases calls.len(),
{
    if calls.len() == 0 {
        0
    } else {
        calls_tokens(calls.drop_last()) + entry_tokens(calls.last().input@) + entry_tokens(
            calls.last().output@,
        )
    }
}

/// Estimated token cost of one entry: its text and its tool calls.
pub open spec fn entry_cost(e: MemoryEntry) -> nat {
    entry_tokens(e.content@) + calls_tokens(e.metadata.tool_calls@)
}

/// Estimated token cost of the entries.
pub open spec fn tokens_of(entries: Seq<MemoryEntry>) -> nat
    decreases entries.len(),
{
    if entries.len() == 0 {
        0
    } else {
        tokens_of(entries.drop_last()) + entry_cost(entries.last())
    }
}

proof fn lemma_calls_prefix_mono(calls: Seq<ToolCall>, k: int)
    requires
        0 <= k <= calls.len(),
    ensures
        calls_tokens(calls.take(k)) <= calls_tokens(calls),
    decreases calls.len(),
{
    if k == calls.len() {
        assert(calls.take(k) =~= calls);
    } else {
        lemma_calls_prefix_mono(calls.drop_last(), k);
        assert(calls.drop_last().take(k) =~= calls.take(k));
    }
}

/// Estimated token cost of the tool calls (see `calls_tokens`).
pub fn calls_cost(calls: &Vec<ToolCall>) -> (t: usize)
    requires
        calls_tokens(calls@) <= usize::MAX,
    ensures
        t as nat == calls_tokens(calls@),
{
    let n = calls.len();
    let mut total: usize = 0;
    for i in 0..n
        invariant
            n == calls@.len(),
            total as nat == calls_tokens(calls@.take(i as int)),
            calls_tokens(calls@) <= usize::MAX,
    {
        proof {
            assert(calls@.take(i + 1).drop_last() =~= calls@.take(i as int));
            lemma_calls_prefix_mono(calls@, i + 1);
        }
        let a = estimate_tokens(calls[i].input.as_str());
        let b = estimate_tokens(calls[i].output.as_str());
        total = total + a + b;
    }
    assert(calls@.take(n as int) =~= calls@);
    total
}

/// The working memory of a task.
#[derive(Debug)]
pub struct ShortTermMemory {
    pub entries: Vec<MemoryEntry>,
    pub estimated_tokens: usize,
    pub summary_prefix: Option<String>,
}

impl Default for ShortTermMemory {
    fn default() -> (m: Self)
        ensures
            m.entries@.len() == 0,
            m.estimated_tokens == 0,
            m.summary_prefix is None,
            m.wf(),
    {
        ShortTermMemory { entries: Vec::new(), estimated_tokens: 0, summary_prefix: None }
    }
}

impl ShortTermMemory {
    /// `estimated_tokens` is the estimate of the entries held.
    pub open spec fn wf(&self) -> bool {
        self.estimated_tokens == tokens_of(self.entries@)
    }

    /// Appends an entry and adds its estimated cost (see `entry_cost`).
    pub fn add_entry(&mut self, role: EntryRole, content: &str, metadata: EntryMetadata)
        requires
            old(self).wf(),
            old(self).estimated_tokens + entry_tokens(content@) + calls_tokens(metadata.tool_calls@)
                <= usize::MAX,
        ensures
            final(self).wf(),
            final(self).entries@.len() == old(self).entries@.len() + 1,
            final(self).entries@.drop_last() == old(self).entries@,
            final(self).entries@.last().role == role,
            final(self).entries@.last().content@ == content@,
            final(self).entries@.last().metadata == metadata,
            final(self).estimated_tokens == old(self).estimated_tokens + entry_tokens(content@)
                + calls_tokens(metadata.tool_calls@),
            final(self).summary_prefix == old(self).summary_prefix,
    {
        let cost = estimate_tokens(content) + calls_cost(&metadata.tool_calls);
        let ghost before = self.entries@;
        let entry = MemoryEntry { role, content: content.to_owned(), metadata };
        self.entries.push(entry);
        assert(self.entries@.drop_last() =~= before);
        self.estimated_tokens = self.estimated_tokens + cost;
    }

    /// Recomputes the estimate from the entries.
    pub fn recalculate_tokens(&mut self)
        requires
            tokens_of(old(self).entries@) <= usize::MAX,
        ensures
            final(self).wf(),
            final(self).entries@ == old(self).entries@,
            final(self).summary_prefix == old(self).summary_prefix,
    {
        let n = self.entries.len();
        let mut total: usize = 0;
        for i in 0..n
            invariant
                n == self.entries@.len(),
                total as nat == tokens_of(self.entries@.take(i as int)),
                tokens_of(self.entries@) <= usize::MAX,
        {
            proof {
                assert(self.entries@.take(i + 1).drop_last() =~= self.entries@.take(i as int));
                lemma_tokens_prefix_mono(self.entries@, i + 1);
            }
            let e = &self.entries[i];
            let cost = estimate_tokens(e.content.as_str()) + calls_cost(&e.metadata.tool_calls);
            total = total + cost;
        }
        assert(self.entries@.take(n as int) =~= self.entries@);
        self.estimated_tokens = total;
    }

    /// Removes the leading entries of all groups but the last `preserve`
    /// (see `is_compressible_prefix`) and returns how many were removed.
    pub fn drain_compressed_groups(&mut self, preserve: usize) -> (removed: usize)
        ensures
            is_compressible_prefix(old(self).entries@, preserve as nat, removed as int),
            final(self).entries@ == old(self).entries@.skip(removed as int),
            final(self).estimated_tokens == old(self).estimated_tokens,
            final(self).summary_prefix == old(self).summary_prefix,
    {
        let count = compressible_entry_count(self.entries.as_slice(), preserve);
        let ghost before = self.entries@;
        let mut k: usize = 0;
        assert(before.skip(0) =~= before);
        while k < count
            invariant
                k <= count,
                count <= before.len(),
                self.entries@ == before.skip(k as int),
                self.estimated_tokens == old(self).estimated_tokens,
                self.summary_prefix == old(self).summary_prefix,
            decreases count - k,
        {
            self.entries.remove(0);
            assert(before.skip(k as int).subrange(1, before.skip(k as int).len() as int) =~= before.skip(k + 1));
            k = k + 1;
        }
        count
    }
}

proof fn lemma_tokens_prefix_mono(entries: Seq<MemoryEntry>, k: int)
    requires
        0 <= k <= entries.len(),
    ensures
        tokens_of(entries.take(k)) <= tokens_of(entries),
    decreases entries.len(),
{
    if k == entries.len() {
        assert(entries.take(k) =~= entries);
    } else {
        lemma_tokens_prefix_mono(entries.drop_last(), k);
        assert(entries.drop_last().take(k) =~= entries.take(k));
    }
}

/// Estimated token cost of `content` (see `entry_tokens`).
pub fn estimate_tokens(content: &str) -> (t: usize)
    ensures
        t as nat == entry_tokens(content@),
{
    let cs = crate::text::chars_of(content);
    cs.len() / 4 + 1
}

} // verus!
