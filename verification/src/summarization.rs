//! Memory compression: when a task's memory asks for a summary, what the
//! summary request holds, and what a finished summary changes.

use vstd::prelude::*;
use crate::domain::{Task, TaskId, TaskStatus, WaitingReason};
use crate::memory::{
    compressible_entry_count, is_compressible_prefix, tokens_of, EntryRole, MemoryEntry,
    ShortTermMemory, ToolCall,
};
use crate::orchestrator::{lemma_task_position_pub, task_index, task_position};
use crate::routing::{DispatchHint, DispatchStrategy};
use crate::text::{concat2, concat3};

verus! {

/// What asked for a summary.
#[derive(Debug, Clone, Copy, PartialEq, Eq, Structural)]
pub enum SummarizationTrigger {
    /// The user asked for it.
    UserCommand,
    /// The memory grew past its token threshold.
    TokenThreshold,
    /// The task finished.
    TaskComplete,
}

/// The kinds of work item.
#[derive(Debug, Clone, Copy, PartialEq, Eq, Structural)]
pub enum WorkItemType {
    Summarization,
}

/// A piece of work for an agent that is not a task of its own.
#[derive(Debug)]
pub struct WorkItem {
    pub id: u128,
    pub task_id: TaskId,
    pub work_type: WorkItemType,
    pub content: String,
    pub target_tokens: usize,
    pub trigger: SummarizationTrigger,
}

impl WorkItem {
    /// A summarization of `content` for task `task_id`, under a fresh id.
    pub fn summarization(task_id: TaskId, content: String, target_tokens: usize, trigger: SummarizationTrigger) -> (w: WorkItem)
        ensures
            w.work_type == WorkItemType::Summarization,
            w.task_id == task_id,
            w.content@ == content@,
            w.target_tokens == target_tokens,
            w.trigger == trigger,
    {
        WorkItem {
            id: crate::ids::new_uuid(),
            task_id,
            work_type: WorkItemType::Summarization,
            content,
            target_tokens,
            trigger,
        }
    }
}

/// When memory is compressed and how much of it stays.
#[derive(Debug, Clone, Copy, PartialEq, Eq, Structural)]
pub struct MemoryConfig {
    pub compression_threshold_tokens: usize,
    /// Pairing groups kept as they are.
    pub preserve_recent_turns: u32,
    pub summary_target_tokens: u32,
}

/// A request to summarize part of a task's memory.
#[derive(Debug)]
pub struct SummarizationRequest {
    pub task_id: TaskId,
    pub content_to_summarize: String,
    pub target_tokens: u32,
    pub trigger: SummarizationTrigger,
}

/// The name of a role.
pub open spec fn role_name(r: EntryRole) -> Seq<char> {
    match r {
        EntryRole::User => "User"@,
        EntryRole::Assistant => "Assistant"@,
        EntryRole::Summary => "Summary"@,
        EntryRole::Archive => "Archive"@,
    }
}

/// The names of the tools called, joined with `, `.
pub open spec fn tool_names(calls: Seq<ToolCall>) -> Seq<char>
    decreases calls.len(),
{
    if calls.len() == 0 {
        Seq::empty()
    } else if calls.len() == 1 {
        calls[0].tool_name@
    } else {
        tool_names(calls.drop_last()) + ", "@ + calls.last().tool_name@
    }
}

/// A one-line account of an entry's tool calls.
pub open spec fn tool_calls_summary(calls: Seq<ToolCall>) -> Seq<char> {
    "tool calls: "@ + tool_names(calls)
}

/// How an entry appears in the text to summarize: role, colon, content, and
/// on an indented line its tool calls, if it made any.
pub open spec fn entry_line(e: MemoryEntry) -> Seq<char> {
    let head = role_name(e.role) + ": "@ + e.content@;
    if e.metadata.tool_calls@.len() > 0 {
        head + "\n  "@ + tool_calls_summary(e.metadata.tool_calls@)
    } else {
        head
    }
}

/// The text to summarize: each entry's line followed by a newline.
pub open spec fn compress_text(entries: Seq<MemoryEntry>) -> Seq<char>
    decreases entries.len(),
{
    if entries.len() == 0 {
        Seq::empty()
    } else {
        compress_text(entries.drop_last()) + entry_line(entries.last()) + "\n"@
    }
}

fn role_text(r: EntryRole) -> (s: String)
    ensures
        s@ == role_name(r),
{
    match r {
        EntryRole::User => "User".to_owned(),
        EntryRole::Assistant => "Assistant".to_owned(),
        EntryRole::Summary => "Summary".to_owned(),
        EntryRole::Archive => "Archive".to_owned(),
    }
}

fn tool_names_text(calls: &Vec<ToolCall>) -> (s: String)
    ensures
        s@ == tool_names(calls@),
{
    let mut out = String::new();
    let n = calls.len();
    for i in 0..n
        invariant
            n == calls@.len(),
            out@ == tool_names(calls@.take(i as int)),
    {
        let ghost prefix = calls@.take(i + 1);
        assert(prefix.drop_last() =~= calls@.take(i as int));
        if i == 0 {
            out = calls[i].tool_name.clone();
        } else {
            out = concat3(out.as_str(), ", ", calls[i].tool_name.as_str());
        }
    }
    assert(calls@.take(n as int) =~= calls@);
    out
}

fn entry_line_text(e: &MemoryEntry) -> (s: String)
    ensures
        s@ == entry_line(*e),
{
    let role = role_text(e.role);
    let head = concat3(role.as_str(), ": ", e.content.as_str());
    if e.metadata.tool_calls.len() > 0 {
        let names = tool_names_text(&e.metadata.tool_calls);
        let summary = concat2("tool calls: ", names.as_str());
        concat3(head.as_str(), "\n  ", summary.as_str())
    } else {
        head
    }
}

/// The text to summarize for the first `count` entries.
pub fn compress_text_of(entries: &[MemoryEntry], count: usize) -> (s: String)
    requires
        count <= entries@.len(),
    ensures
        s@ == compress_text(entries@.take(count as int)),
{
    let mut out = String::new();
    for i in 0..count
        invariant
            count <= entries@.len(),
            out@ == compress_text(entries@.take(i as int)),
    {
        let ghost prefix = entries@.take(i + 1);
        assert(prefix.drop_last() =~= entries@.take(i as int));
        let line = entry_line_text(&entries[i]);
        out = concat3(out.as_str(), line.as_str(), "\n");
    }
    out
}

/// The memory of a task in this status is left alone: a finished task, or
/// one already waiting for its summary.
pub open spec fn compression_paused(s: TaskStatus) -> bool {
    s.spec_is_terminal() || s == TaskStatus::Waiting(WaitingReason::Summarization)
}

/// Decides whether a task's memory is to be compressed: it must be over the
/// threshold, and some leading groups must remain once the most recent
/// `preserve_recent_turns` groups are set aside. The request covers exactly
/// those leading entries.
pub fn compression_request(task: &Task, memory: &ShortTermMemory, config: &MemoryConfig) -> (r: Option<SummarizationRequest>)
    ensures
        compression_paused(task.status) || memory.estimated_tokens
            <= config.compression_threshold_tokens ==> r is None,
        !compression_paused(task.status) && memory.estimated_tokens
            > config.compression_threshold_tokens ==> exists|count: int|
            is_compressible_prefix(memory.entries@, config.preserve_recent_turns as nat, count)
                && if count == 0 {
                r is None
            } else {
                r matches Some(req) && req.task_id == task.id && req.content_to_summarize@
                    == compress_text(memory.entries@.take(count)) && req.target_tokens
                    == config.summary_target_tokens && req.trigger
                    == SummarizationTrigger::TokenThreshold
            },
{
    if task.status.is_terminal() || task.status == TaskStatus::Waiting(WaitingReason::Summarization) {
        return None;
    }
    if memory.estimated_tokens <= config.compression_threshold_tokens {
        return None;
    }
    let count = compressible_entry_count(
        memory.entries.as_slice(),
        config.preserve_recent_turns as usize,
    );
    if count == 0 {
        return None;
    }
    let content = compress_text_of(memory.entries.as_slice(), count);
    Some(
        SummarizationRequest {
            task_id: task.id,
            content_to_summarize: content,
            target_tokens: config.summary_target_tokens,
            trigger: SummarizationTrigger::TokenThreshold,
        },
    )
}

/// A task put to wait for `reason` at time `now`.
pub open spec fn waiting_since(t: Task, reason: WaitingReason, now: i64) -> Task {
    Task { status: TaskStatus::Waiting(reason), updated_at: now, ..t }
}

/// Turns a summarization request into a work item for an agent, handed on
/// directly. Unless the task finished (or the summary is of a finished
/// task), the task waits for the summary meanwhile.
pub fn summarization_dispatch(tasks: &mut Vec<Task>, request: &SummarizationRequest, now: i64) -> (r: (WorkItem, DispatchHint))
    ensures
        r.0.work_type == WorkItemType::Summarization,
        r.0.task_id == request.task_id,
        r.0.content@ == request.content_to_summarize@,
        r.0.target_tokens == request.target_tokens,
        r.0.trigger == request.trigger,
        r.1.strategy == DispatchStrategy::DirectDelegate,
        r.1.preferred_agent_name is None,
        final(tasks)@.len() == old(tasks)@.len(),
        forall|i: int|
            0 <= i < old(tasks)@.len() && i != task_position(old(tasks)@, request.task_id)
                ==> #[trigger] final(tasks)@[i] == old(tasks)@[i],
        task_position(old(tasks)@, request.task_id) >= 0 ==> {
            let p = task_position(old(tasks)@, request.task_id);
            final(tasks)@[p] == if request.trigger != SummarizationTrigger::TaskComplete
                && !old(tasks)@[p].status.spec_is_terminal() {
                waiting_since(old(tasks)@[p], WaitingReason::Summarization, now)
            } else {
                old(tasks)@[p]
            }
        },
{
    proof {
        lemma_task_position_pub(tasks@, request.task_id);
    }
    if request.trigger != SummarizationTrigger::TaskComplete {
        match task_index(tasks.as_slice(), request.task_id) {
            Some(i) => {
                if !tasks[i].status.is_terminal() {
                    tasks[i].status = TaskStatus::Waiting(WaitingReason::Summarization);
                    tasks[i].updated_at = now;
                }
            },
            None => {},
        }
    }
    let item = WorkItem::summarization(
        request.task_id,
        request.content_to_summarize.clone(),
        request.target_tokens as usize,
        request.trigger,
    );
    (item, DispatchHint { strategy: DispatchStrategy::DirectDelegate, preferred_agent_name: None })
}

/// What the summarizing agent answered.
#[derive(Debug)]
pub enum SummaryOutcome {
    /// A summary text.
    Text(String),
    /// An answer that is no text.
    NonText,
    /// A failure, with its message.
    Failed(String),
}

/// The notice shown after a summarization.
pub open spec fn summary_notice(o: SummaryOutcome) -> Seq<char> {
    match o {
        SummaryOutcome::Text(s) => "📝 摘要完成\n\n"@ + s@,
        SummaryOutcome::NonText => "⚠️ 摘要失败：返回了非文本输出"@,
        SummaryOutcome::Failed(m) => "⚠️ 摘要失败："@ + m@,
    }
}

/// The token estimate of a sequence is that of its first `k` entries plus
/// that of the rest.
pub proof fn lemma_tokens_split(entries: Seq<MemoryEntry>, k: int)
    requires
        0 <= k <= entries.len(),
    ensures
        tokens_of(entries) == tokens_of(entries.take(k)) + tokens_of(entries.skip(k)),
    decreases entries.len(),
{
    if k == entries.len() {
        assert(entries.take(k) =~= entries);
        assert(entries.skip(k) =~= Seq::<MemoryEntry>::empty());
    } else {
        lemma_tokens_split(entries.drop_last(), k);
        assert(entries.drop_last().take(k) =~= entries.take(k));
        assert(entries.drop_last().skip(k) =~= entries.skip(k).drop_last());
    }
}

/// Applies a finished summarization of task `task_id`. A summary text
/// becomes the memory's summary prefix, the entries it covered (all groups
/// but the last `preserve` ones) leave, and the estimate is recomputed. In
/// every case a task still waiting for its summary goes back to waiting for
/// the user. The answer is the notice to show.
pub fn handle_summarization_result(
    tasks: &mut Vec<Task>,
    memory: &mut Option<ShortTermMemory>,
    task_id: TaskId,
    outcome: SummaryOutcome,
    preserve: u32,
    now: i64,
) -> (notice: String)
    requires
        *old(memory) matches Some(m) ==> tokens_of(m.entries@) <= usize::MAX,
    ensures
        notice@ == summary_notice(outcome),
        match *old(memory) {
            None => *final(memory) is None,
            Some(before) => *final(memory) matches Some(after) && match outcome {
                SummaryOutcome::Text(s) => {
                    &&& after.summary_prefix matches Some(p) && p@ == s@
                    &&& exists|removed: int|
                        is_compressible_prefix(before.entries@, preserve as nat, removed)
                            && after.entries@ == before.entries@.skip(removed)
                    &&& after.wf()
                },
                _ => after == before,
            },
        },
        final(tasks)@.len() == old(tasks)@.len(),
        forall|i: int|
            0 <= i < old(tasks)@.len() && i != task_position(old(tasks)@, task_id) ==> #[trigger] final(tasks)@[i]
                == old(tasks)@[i],
        task_position(old(tasks)@, task_id) >= 0 ==> {
            let p = task_position(old(tasks)@, task_id);
            final(tasks)@[p] == if old(tasks)@[p].status == TaskStatus::Waiting(
                WaitingReason::Summarization,
            ) {
                waiting_since(old(tasks)@[p], WaitingReason::User, now)
            } else {
                old(tasks)@[p]
            }
        },
{
    let notice = match &outcome {
        SummaryOutcome::Text(s) => concat2("📝 摘要完成\n\n", s.as_str()),
        SummaryOutcome::NonText => "⚠️ 摘要失败：返回了非文本输出".to_owned(),
        SummaryOutcome::Failed(m) => concat2("⚠️ 摘要失败：", m.as_str()),
    };
    match &outcome {
        SummaryOutcome::Text(s) => {
            match memory {
                Some(m) => {
                    let ghost before = m.entries@;
                    m.summary_prefix = Some(s.clone());
                    let removed = m.drain_compressed_groups(preserve as usize);
                    proof {
                        lemma_tokens_split(before, removed as int);
                    }
                    m.recalculate_tokens();
                },
                None => {},
            }
        },
        _ => {},
    }
    proof {
        lemma_task_position_pub(tasks@, task_id);
    }
    match task_index(tasks.as_slice(), task_id) {
        Some(i) => {
            if tasks[i].status == TaskStatus::Waiting(WaitingReason::Summarization) {
                tasks[i].status = TaskStatus::Waiting(WaitingReason::User);
                tasks[i].updated_at = now;
            }
        },
        None => {},
    }
    notice
}

/// Only a finished task (done or failed) and a task already waiting for its
/// summary are skipped; every other task, one waiting for the user
/// included, has its memory compressed when it is over the threshold.
pub proof fn lemma_compression_paused_exactly(s: TaskStatus)
    ensures
        compression_paused(s) <==> (s is Done || s is Failed || s == TaskStatus::Waiting(WaitingReason::Summarization)),
{
}

} // verus!
