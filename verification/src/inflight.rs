//! Tool calls in flight on worker threads: the sweeper that claims lost
//! calls, the monitor that cancels calls of finished tasks, and the single
//! place where worker results land.

use vstd::prelude::*;

use crate::domain::{Task, TaskId};
use crate::orchestrator::{find_task, lemma_task_position_pub, task_index};
use crate::text::{concat5, decimal, i64_text};

verus! {

/// A tool call running on a worker.
#[derive(Debug)]
pub struct InFlightToolCall {
    pub tool_call_id: String,
    pub tool_name: String,
    pub task_id: TaskId,
    /// Unix time the call started, in seconds.
    pub started_at: i64,
    /// How long the call may run, in seconds.
    pub timeout_secs: i64,
}

/// Seconds elapsed since the call started.
pub open spec fn elapsed(call: InFlightToolCall, now: i64) -> int {
    now - call.started_at
}

/// The call has run longer than it may.
pub open spec fn lost(call: InFlightToolCall, now: i64) -> bool {
    elapsed(call, now) > call.timeout_secs
}

/// The timeout error the sweeper reports for a lost call.
pub open spec fn lost_message(call: InFlightToolCall, now: i64) -> Seq<char> {
    "tool '"@ + call.tool_name@ + "' lost contact after "@ + decimal(elapsed(call, now)) + "s (sweeper)"@
}

/// A call the sweeper claims: the worker result channel gets a timeout
/// error for it, and the call stops counting as in flight.
#[derive(Debug)]
pub struct SweepClaim {
    /// Position of the call in the scanned list.
    pub index: usize,
    pub tool_call_id: String,
    pub message: String,
}

/// Claims every call that has run longer than its timeout, in order.
pub fn sweep_inflight_tool_calls(now: i64, calls: &[InFlightToolCall]) -> (claims: Vec<SweepClaim>)
    requires
        forall|i: int| 0 <= i < calls@.len() ==> i64::MIN <= #[trigger] elapsed(calls@[i], now) <= i64::MAX,
    ensures
        forall|k: int|
            0 <= k < claims@.len() ==> {
                let c = #[trigger] claims@[k];
                &&& c.index < calls@.len()
                &&& lost(calls@[c.index as int], now)
                &&& c.tool_call_id@ == calls@[c.index as int].tool_call_id@
                &&& c.message@ == lost_message(calls@[c.index as int], now)
            },
        forall|k1: int, k2: int|
            0 <= k1 < k2 < claims@.len() ==> #[trigger] claims@[k1].index < #[trigger] claims@[k2].index,
        forall|i: int|
            0 <= i < calls@.len() && lost(#[trigger] calls@[i], now) ==> exists|k: int|
                0 <= k < claims@.len() && #[trigger] claims@[k].index == i,
{
    let n = calls.len();
    let mut claims: Vec<SweepClaim> = Vec::new();
    for i in 0..n
        invariant
            n == calls@.len(),
            forall|j: int| 0 <= j < calls@.len() ==> i64::MIN <= #[trigger] elapsed(calls@[j], now) <= i64::MAX,
            forall|k: int|
                0 <= k < claims@.len() ==> {
                    let c = #[trigger] claims@[k];
                    &&& c.index < i
                    &&& lost(calls@[c.index as int], now)
                    &&& c.tool_call_id@ == calls@[c.index as int].tool_call_id@
                    &&& c.message@ == lost_message(calls@[c.index as int], now)
                },
            forall|k1: int, k2: int|
                0 <= k1 < k2 < claims@.len() ==> #[trigger] claims@[k1].index < #[trigger] claims@[k2].index,
            forall|j: int|
                0 <= j < i && lost(#[trigger] calls@[j], now) ==> exists|k: int|
                    0 <= k < claims@.len() && #[trigger] claims@[k].index == j,
    {
        let call = &calls[i];
        assert(i64::MIN <= elapsed(calls@[i as int], now) <= i64::MAX);
        let spent: i64 = now - call.started_at;
        if spent > call.timeout_secs {
            let secs = i64_text(spent);
            let message = concat5(
                "tool '",
                call.tool_name.as_str(),
                "' lost contact after ",
                secs.as_str(),
                "s (sweeper)",
            );
            let ghost before = claims@;
            claims.push(SweepClaim { index: i, tool_call_id: call.tool_call_id.clone(), message });
            assert(claims@[claims@.len() - 1].index == i);
            assert forall|j: int|
                0 <= j <= i && lost(#[trigger] calls@[j], now) implies exists|k: int|
                0 <= k < claims@.len() && #[trigger] claims@[k].index == j by {
                if j < i {
                    let k = choose|k: int| 0 <= k < before.len() && #[trigger] before[k].index == j;
                    assert(claims@[k] == before[k]);
                }
            }
        }
    }
    claims
}

/// The call's task is gone or has finished.
pub open spec fn orphaned_call(call: InFlightToolCall, tasks: Seq<Task>) -> bool {
    match find_task(tasks, call.task_id) {
        None => true,
        Some(t) => t.status.spec_is_terminal(),
    }
}

/// The calls to cancel, by position: those whose task is gone or finished.
/// Each is cancelled and stops counting as in flight; its worker reports the
/// cancellation through the result channel.
pub fn cancel_monitor_system(tasks: &[Task], calls: &[InFlightToolCall]) -> (cancel: Vec<usize>)
    ensures
        forall|k: int| 0 <= k < cancel@.len() ==> #[trigger] cancel@[k] < calls@.len(),
        forall|i: int|
            0 <= i < calls@.len() ==> (cancel@.contains(i as usize) <==> orphaned_call(
                #[trigger] calls@[i],
                tasks@,
            )),
        forall|k1: int, k2: int|
            0 <= k1 < k2 < cancel@.len() ==> #[trigger] cancel@[k1] < #[trigger] cancel@[k2],
{
    let n = calls.len();
    let mut cancel: Vec<usize> = Vec::new();
    for i in 0..n
        invariant
            n == calls@.len(),
            forall|k: int| 0 <= k < cancel@.len() ==> #[trigger] cancel@[k] < i,
            forall|j: int|
                0 <= j < i ==> (cancel@.contains(j as usize) <==> orphaned_call(
                    #[trigger] calls@[j],
                    tasks@,
                )),
            forall|k1: int, k2: int|
                0 <= k1 < k2 < cancel@.len() ==> #[trigger] cancel@[k1] < #[trigger] cancel@[k2],
    {
        proof {
            lemma_task_position_pub(tasks@, calls@[i as int].task_id);
        }
        let stop = match task_index(tasks, calls[i].task_id) {
            None => true,
            Some(j) => tasks[j].status.is_terminal(),
        };
        let ghost before = cancel@;
        if stop {
            cancel.push(i);
        }
        assert forall|j: int|
            0 <= j <= i implies (cancel@.contains(j as usize) <==> orphaned_call(
            #[trigger] calls@[j],
            tasks@,
        )) by {
            if j < i {
                if cancel@.contains(j as usize) {
                    let k = choose|k: int| 0 <= k < cancel@.len() && cancel@[k] == j as usize;
                    if k < before.len() {
                        assert(before[k] == j as usize);
                    }
                }
                if before.contains(j as usize) {
                    let k = choose|k: int| 0 <= k < before.len() && before[k] == j as usize;
                    assert(cancel@[k] == j as usize);
                }
            } else {
                if stop {
                    assert(cancel@[cancel@.len() - 1] == i);
                } else {
                    assert(cancel@ == before);
                }
            }
        }
    }
    cancel
}

/// What a worker sends back.
#[derive(Debug, Clone, Copy, PartialEq, Eq, Structural)]
pub enum WorkerPayloadKind {
    /// The tool finished with a result.
    Completed,
    /// The tool asks the main thread to apply an effect.
    Effect,
}

/// What happens to one worker message.
#[derive(Debug, Clone, Copy, PartialEq, Eq, Structural)]
pub enum IngestAction {
    /// Land the result for the pending call at this position and retire that call.
    Land(usize),
    /// The call was already claimed or answered: drop the result.
    DropResult,
    /// Queue the effect; the pending call stays until the effect is committed.
    QueueEffect(usize),
    /// The call is gone: drop the effect.
    DropEffect,
}

/// Pending call `k` has this id and has not landed a result yet.
pub open spec fn live_at(pending: Seq<String>, retired: Seq<bool>, id: Seq<char>, k: int) -> bool {
    0 <= k < pending.len() && pending[k]@ == id && !retired[k]
}

/// Position of the first live pending call with this id at or after `k`, or -1.
pub open spec fn live_from(pending: Seq<String>, retired: Seq<bool>, id: Seq<char>, k: int) -> int
    decreases pending.len() - k,
{
    if k < 0 || k >= pending.len() {
        -1
    } else if live_at(pending, retired, id, k) {
        k
    } else {
        live_from(pending, retired, id, k + 1)
    }
}

/// Which pending calls have landed a result after the messages `results`
/// were drained in order: a completed result retires the first live pending
/// call with its id.
pub open spec fn retired_after(results: Seq<(String, WorkerPayloadKind)>, pending: Seq<String>) -> Seq<bool>
    decreases results.len(),
{
    if results.len() == 0 {
        Seq::new(pending.len(), |i: int| false)
    } else {
        let r = retired_after(results.drop_last(), pending);
        let p = live_from(pending, r, results.last().0@, 0);
        if results.last().1 == WorkerPayloadKind::Completed && p >= 0 {
            r.update(p, true)
        } else {
            r
        }
    }
}

/// The handling of one worker message, given which pending calls have
/// already landed a result in this drain.
pub open spec fn ingest_action(
    kind: WorkerPayloadKind,
    id: Seq<char>,
    pending: Seq<String>,
    retired: Seq<bool>,
) -> IngestAction {
    let p = live_from(pending, retired, id, 0);
    match kind {
        WorkerPayloadKind::Completed => if p >= 0 {
            IngestAction::Land(p as usize)
        } else {
            IngestAction::DropResult
        },
        WorkerPayloadKind::Effect => if p >= 0 {
            IngestAction::QueueEffect(p as usize)
        } else {
            IngestAction::DropEffect
        },
    }
}

/// No two pending calls share an id.
pub open spec fn pending_ids_distinct(pending: Seq<String>) -> bool {
    forall|a: int, b: int| 0 <= a < b < pending.len() ==> (#[trigger] pending[a])@ != (#[trigger] pending[b])@
}

proof fn lemma_live_from(pending: Seq<String>, retired: Seq<bool>, id: Seq<char>, k: int)
    requires
        0 <= k,
    ensures
        ({
            let r = live_from(pending, retired, id, k);
            &&& r == -1 || (k <= r && live_at(pending, retired, id, r))
            &&& forall|j: int| k <= j && (r == -1 || j < r) ==> !#[trigger] live_at(pending, retired, id, j)
        }),
    decreases pending.len() - k,
{
    if k < pending.len() && !live_at(pending, retired, id, k) {
        lemma_live_from(pending, retired, id, k + 1);
    }
}

/// The first live pending call with this id.
fn live_index(pending: &[String], retired: &Vec<bool>, id: &String) -> (r: Option<usize>)
    requires
        retired@.len() == pending@.len(),
    ensures
        match r {
            Some(i) => i as int == live_from(pending@, retired@, id@, 0),
            None => live_from(pending@, retired@, id@, 0) == -1,
        },
{
    proof {
        lemma_live_from(pending@, retired@, id@, 0);
    }
    let n = pending.len();
    for j in 0..n
        invariant
            n == pending@.len(),
            retired@.len() == n,
            forall|jj: int| 0 <= jj < j ==> !#[trigger] live_at(pending@, retired@, id@, jj),
    {
        if pending[j] == *id && !retired[j] {
            proof {
                lemma_live_from(pending@, retired@, id@, 0);
                let r = live_from(pending@, retired@, id@, 0);
                assert(live_at(pending@, retired@, id@, j as int));
                if r == -1 || r > j {
                } else if r < j {
                    assert(!live_at(pending@, retired@, id@, r));
                }
            }
            return Some(j);
        }
    }
    proof {
        lemma_live_from(pending@, retired@, id@, 0);
        let r = live_from(pending@, retired@, id@, 0);
        if r != -1 {
            assert(live_at(pending@, retired@, id@, r));
        }
    }
    None
}

/// Drains the worker messages in arrival order. A result lands exactly once:
/// a completed result lands on the first pending call with its id that has
/// not landed one yet in this drain, and retires it; a later result for a
/// retired call is dropped. An effect is queued only while its call is
/// pending and has not landed.
pub fn ingest_tool_results_system(
    results: &[(String, WorkerPayloadKind)],
    pending: &[String],
) -> (actions: Vec<IngestAction>)
    ensures
        actions@.len() == results@.len(),
        forall|i: int|
            0 <= i < results@.len() ==> #[trigger] actions@[i] == ingest_action(
                results@[i].1,
                results@[i].0@,
                pending@,
                retired_after(results@.take(i), pending@),
            ),
        forall|i: int, j: int|
            0 <= i < j < actions@.len() && (#[trigger] actions@[i]) is Land && (#[trigger] actions@[j]) is Land
                ==> actions@[i]->Land_0 != actions@[j]->Land_0,
        pending_ids_distinct(pending@) ==> forall|i: int, j: int|
            0 <= i < j < actions@.len() && (#[trigger] actions@[i]) is Land && results@[j].0@
                == pending@[actions@[i]->Land_0 as int]@ ==> (#[trigger] actions@[j]) is DropResult
                || actions@[j] is DropEffect,
{
    let n = results.len();
    let np = pending.len();
    let mut actions: Vec<IngestAction> = Vec::new();
    let mut retired: Vec<bool> = Vec::new();
    for k in 0..np
        invariant
            np == pending@.len(),
            retired@ == Seq::new(k as nat, |x: int| false),
    {
        retired.push(false);
        assert(retired@ =~= Seq::new((k + 1) as nat, |x: int| false));
    }
    assert(results@.take(0) =~= Seq::<(String, WorkerPayloadKind)>::empty());
    for i in 0..n
        invariant
            n == results@.len(),
            np == pending@.len(),
            actions@.len() == i,
            retired@ == retired_after(results@.take(i as int), pending@),
            retired@.len() == np,
            forall|k: int|
                0 <= k < i ==> #[trigger] actions@[k] == ingest_action(
                    results@[k].1,
                    results@[k].0@,
                    pending@,
                    retired_after(results@.take(k), pending@),
                ),
            forall|k: int| 0 <= k < i && (#[trigger] actions@[k]) is Land ==> actions@[k]->Land_0 < np
                && retired@[actions@[k]->Land_0 as int],
            forall|k1: int, k2: int|
                0 <= k1 < k2 < i && (#[trigger] actions@[k1]) is Land && (#[trigger] actions@[k2]) is Land
                    ==> actions@[k1]->Land_0 != actions@[k2]->Land_0,
            pending_ids_distinct(pending@) ==> forall|k1: int, k2: int|
                0 <= k1 < k2 < i && (#[trigger] actions@[k1]) is Land && results@[k2].0@
                    == pending@[actions@[k1]->Land_0 as int]@ ==> (#[trigger] actions@[k2]) is DropResult
                    || actions@[k2] is DropEffect,
    {
        let ghost before = retired@;
        let ghost prefix = results@.take(i + 1);
        assert(prefix.drop_last() =~= results@.take(i as int));
        assert(prefix.last() == results@[i as int]);
        proof {
            lemma_live_from(pending@, before, results@[i as int].0@, 0);
        }
        let found = live_index(pending, &retired, &results[i].0);
        let a = match results[i].1 {
            WorkerPayloadKind::Completed => match found {
                Some(p) => {
                    retired.set(p, true);
                    IngestAction::Land(p)
                },
                None => IngestAction::DropResult,
            },
            WorkerPayloadKind::Effect => match found {
                Some(p) => IngestAction::QueueEffect(p),
                None => IngestAction::DropEffect,
            },
        };
        proof {
            let id = results@[i as int].0@;
            let p = live_from(pending@, before, id, 0);
            if a is Land {
                assert(!before[p]);
                assert forall|k: int| 0 <= k < i && (#[trigger] actions@[k]) is Land implies actions@[k]->Land_0
                    != p by {
                    assert(before[actions@[k]->Land_0 as int]);
                }
            }
            if pending_ids_distinct(pending@) {
                assert forall|k: int|
                    0 <= k < i && (#[trigger] actions@[k]) is Land && id == pending@[actions@[k]->Land_0 as int]@
                    implies a is DropResult || a is DropEffect by {
                    let q = actions@[k]->Land_0 as int;
                    assert(before[q]);
                    if p >= 0 {
                        assert(live_at(pending@, before, id, p));
                        if p != q {
                            if p < q {
                                assert(pending@[p]@ != pending@[q]@);
                            } else {
                                assert(pending@[q]@ != pending@[p]@);
                            }
                        }
                    }
                }
            }
        }
        actions.push(a);
        proof {
            assert(actions@[i as int] == a);
        }
    }
    assert(results@.take(n as int) =~= results@);
    actions
}

/// A call is cancelled exactly when its task is gone or has finished: the
/// task is missing, done, or failed for any reason.
pub proof fn lemma_orphaned_exactly(call: InFlightToolCall, tasks: Seq<Task>)
    ensures
        orphaned_call(call, tasks) <==> match find_task(tasks, call.task_id) {
            None => true,
            Some(t) => t.status is Done || t.status is Failed,
        },
{
}

} // verus!
