//! The session table of the native process backend: one record per shell
//! session, keyed by handle id, with the owner checks and the status changes
//! the backend makes when a process ends, times out or is stopped. Starting
//! processes and reading their pipes is the caller's part.

use crate::domain::{AgentId, TaskId};
use crate::ids::{uuid_text, uuid_to_string};
use crate::scheduling::UtcInstant;
use crate::shell_output::SessionOutputSnapshot;
use crate::tools::SessionStartRequest;
use vstd::prelude::*;

verus! {

/// Lifecycle state of a shell session.
#[derive(Debug, Clone, Copy, PartialEq, Eq, Structural)]
pub enum SessionStatus {
    Starting,
    Running,
    WaitingForInput,
    Completed,
    ExitedWithError,
    Stopped,
}

impl SessionStatus {
    /// The session may still produce output or take input.
    pub open spec fn spec_is_live(self) -> bool {
        self is Starting || self is Running || self is WaitingForInput
    }

    /// Whether the session is live.
    pub fn is_live(&self) -> (r: bool)
        ensures
            r == self.spec_is_live(),
    {
        match self {
            SessionStatus::Starting => true,
            SessionStatus::Running => true,
            SessionStatus::WaitingForInput => true,
            _ => false,
        }
    }
}

/// What the backend knows of one session.
#[derive(Debug, Clone)]
pub struct SessionRecord {
    pub handle_id: u128,
    pub status: SessionStatus,
    pub command: String,
    pub session_name: Option<String>,
    pub cwd: Option<String>,
    pub exit_code: Option<i32>,
    pub timed_out: bool,
    pub interaction_required: bool,
    pub started_at: UtcInstant,
    pub finished_at: Option<UtcInstant>,
    pub owner_task_id: TaskId,
    pub owner_agent_id: AgentId,
    pub output: SessionOutputSnapshot,
}

/// How a blocking command ended.
#[derive(Debug, Clone, Copy, PartialEq, Eq, Structural)]
pub enum ExecOutcome {
    /// The process exited by itself, successfully or not, with its code if it has one.
    Exited { success: bool, code: Option<i32> },
    /// The deadline passed and the process was killed.
    TimedOut,
}

/// No handle id occurs twice.
pub open spec fn ids_distinct(s: Seq<SessionRecord>) -> bool {
    forall|i: int, j: int|
        0 <= i < j < s.len() ==> (#[trigger] s[i]).handle_id != (#[trigger] s[j]).handle_id
}

/// Whether some record has the id.
pub open spec fn has_session(s: Seq<SessionRecord>, id: u128) -> bool {
    exists|i: int| 0 <= i < s.len() && (#[trigger] s[i]).handle_id == id
}

/// The ids of the records that `keep` selects, in table order.
pub open spec fn ids_where(s: Seq<SessionRecord>, keep: spec_fn(SessionRecord) -> bool) -> Seq<u128>
    decreases s.len(),
{
    if s.len() == 0 {
        Seq::empty()
    } else {
        let rest = ids_where(s.drop_last(), keep);
        if keep(s.last()) {
            rest.push(s.last().handle_id)
        } else {
            rest
        }
    }
}

/// Sessions of the task.
pub open spec fn owned_by(task: TaskId) -> spec_fn(SessionRecord) -> bool {
    |r: SessionRecord| r.owner_task_id == task
}

/// Live sessions of the task.
pub open spec fn live_owned_by(task: TaskId) -> spec_fn(SessionRecord) -> bool {
    |r: SessionRecord| r.owner_task_id == task && r.status.spec_is_live()
}

/// Live sessions.
pub open spec fn live() -> spec_fn(SessionRecord) -> bool {
    |r: SessionRecord| r.status.spec_is_live()
}

/// The text for an unknown session.
pub open spec fn not_found_text(id: u128) -> Seq<char> {
    "session "@ + uuid_text(id) + " not found"@
}

/// The text for a session another task owns.
pub open spec fn foreign_text(id: u128, task: TaskId) -> Seq<char> {
    "session "@ + uuid_text(id) + " does not belong to task "@ + uuid_text(task)
}

/// The record the backend keeps for a process it has just started.
pub open spec fn started(r: SessionRecord, req: SessionStartRequest, id: u128, at: UtcInstant) -> bool {
    &&& r.handle_id == id
    &&& r.status == SessionStatus::Running
    &&& r.command == req.command
    &&& r.session_name == req.session_name
    &&& r.cwd == req.cwd
    &&& r.exit_code is None
    &&& !r.timed_out
    &&& !r.interaction_required
    &&& r.started_at == at
    &&& r.finished_at is None
    &&& r.owner_task_id == req.owner_task_id
    &&& r.owner_agent_id == req.owner_agent_id
    &&& r.output.output@ == Seq::<char>::empty()
    &&& r.output.returned_lines == 0
    &&& !r.output.truncated
}

/// The record of a blocking command that has ended as `outcome` says.
pub open spec fn finished(
    r: SessionRecord,
    req: SessionStartRequest,
    id: u128,
    outcome: ExecOutcome,
    started_at: UtcInstant,
    finished_at: UtcInstant,
    output: SessionOutputSnapshot,
) -> bool {
    &&& r.handle_id == id
    &&& r.status == match outcome {
        ExecOutcome::Exited { success, .. } => if success {
            SessionStatus::Completed
        } else {
            SessionStatus::ExitedWithError
        },
        ExecOutcome::TimedOut => SessionStatus::Stopped,
    }
    &&& r.exit_code == match outcome {
        ExecOutcome::Exited { code, .. } => code,
        ExecOutcome::TimedOut => None,
    }
    &&& r.timed_out == (outcome is TimedOut)
    &&& r.command == req.command
    &&& r.session_name == req.session_name
    &&& r.cwd == req.cwd
    &&& !r.interaction_required
    &&& r.started_at == started_at
    &&& r.finished_at == Some(finished_at)
    &&& r.owner_task_id == req.owner_task_id
    &&& r.owner_agent_id == req.owner_agent_id
    &&& r.output == output
}

/// The record of a running process that has just been started.
pub fn started_record(request: SessionStartRequest, handle_id: u128, started_at: UtcInstant) -> (r: SessionRecord)
    ensures
        started(r, request, handle_id, started_at),
{
    SessionRecord {
        handle_id,
        status: SessionStatus::Running,
        command: request.command,
        session_name: request.session_name,
        cwd: request.cwd,
        exit_code: None,
        timed_out: false,
        interaction_required: false,
        started_at,
        finished_at: None,
        owner_task_id: request.owner_task_id,
        owner_agent_id: request.owner_agent_id,
        output: SessionOutputSnapshot { output: String::new(), returned_lines: 0, truncated: false },
    }
}

/// The record of a blocking command once it has ended: completed or exited
/// with an error by the process's own status, or stopped when the deadline
/// passed, with the output gathered until then.
pub fn finished_record(
    request: SessionStartRequest,
    handle_id: u128,
    outcome: ExecOutcome,
    started_at: UtcInstant,
    finished_at: UtcInstant,
    output: SessionOutputSnapshot,
) -> (r: SessionRecord)
    ensures
        finished(r, request, handle_id, outcome, started_at, finished_at, output),
{
    let (status, exit_code, timed_out) = match outcome {
        ExecOutcome::Exited { success, code } => (
            if success {
                SessionStatus::Completed
            } else {
                SessionStatus::ExitedWithError
            },
            code,
            false,
        ),
        ExecOutcome::TimedOut => (SessionStatus::Stopped, None, true),
    };
    SessionRecord {
        handle_id,
        status,
        command: request.command,
        session_name: request.session_name,
        cwd: request.cwd,
        exit_code,
        timed_out,
        interaction_required: false,
        started_at,
        finished_at: Some(finished_at),
        owner_task_id: request.owner_task_id,
        owner_agent_id: request.owner_agent_id,
        output,
    }
}

/// What is written to a session's input: the text, and a newline after it
/// when asked.
pub fn stdin_payload(input: &str, append_newline: bool) -> (r: String)
    ensures
        r@ == if append_newline {
            input@ + "\n"@
        } else {
            input@
        },
{
    if append_newline {
        crate::text::concat2(input, "\n")
    } else {
        input.to_owned()
    }
}

/// The name of a status as the backend prints it.
pub open spec fn status_name(s: SessionStatus) -> Seq<char> {
    match s {
        SessionStatus::Starting => "Starting"@,
        SessionStatus::Running => "Running"@,
        SessionStatus::WaitingForInput => "WaitingForInput"@,
        SessionStatus::Completed => "Completed"@,
        SessionStatus::ExitedWithError => "ExitedWithError"@,
        SessionStatus::Stopped => "Stopped"@,
    }
}

/// The text for input sent to a session whose input pipe is gone.
pub fn stdin_unavailable_error(handle_id: u128, status: SessionStatus) -> (r: String)
    ensures
        r@ == "session "@ + uuid_text(handle_id) + " is not accepting input because stdin is unavailable (status: "@
            + status_name(status) + ")"@,
{
    let name = match status {
        SessionStatus::Starting => "Starting",
        SessionStatus::Running => "Running",
        SessionStatus::WaitingForInput => "WaitingForInput",
        SessionStatus::Completed => "Completed",
        SessionStatus::ExitedWithError => "ExitedWithError",
        SessionStatus::Stopped => "Stopped",
    };
    let id = uuid_to_string(handle_id);
    crate::text::concat5(
        "session ",
        id.as_str(),
        " is not accepting input because stdin is unavailable (status: ",
        name,
        ")",
    )
}

/// The backend's records, keyed by handle id.
#[derive(Debug)]
pub struct SessionTable {
    pub sessions: Vec<SessionRecord>,
}

impl SessionTable {
    /// Each handle id has at most one record.
    pub open spec fn wf(&self) -> bool {
        ids_distinct(self.sessions@)
    }

    /// A table without sessions.
    pub fn new() -> (t: Self)
        ensures
            t.wf(),
            t.sessions@.len() == 0,
    {
        SessionTable { sessions: Vec::new() }
    }

    /// Where the record of `id` is.
    pub fn find(&self, id: u128) -> (r: Option<usize>)
        ensures
            r matches Some(i) ==> i < self.sessions@.len() && self.sessions@[i as int].handle_id == id,
            r is None ==> !has_session(self.sessions@, id),
    {
        let n = self.sessions.len();
        for i in 0..n
            invariant
                n == self.sessions@.len(),
                forall|k: int| 0 <= k < i ==> (#[trigger] self.sessions@[k]).handle_id != id,
        {
            if self.sessions[i].handle_id == id {
                return Some(i);
            }
        }
        None
    }

    /// Where the record of `id` is, or the text that no session has the id.
    pub fn get_status(&self, id: u128) -> (r: Result<usize, String>)
        ensures
            r matches Ok(i) ==> i < self.sessions@.len() && self.sessions@[i as int].handle_id == id,
            r matches Err(e) ==> !has_session(self.sessions@, id) && e@ == not_found_text(id),
            !has_session(self.sessions@, id) ==> r is Err,
    {
        match self.find(id) {
            Some(i) => Ok(i),
            None => Err(crate::text::concat3("session ", uuid_to_string(id).as_str(), " not found")),
        }
    }

    /// Stores a record, replacing the one with the same id if there is one.
    pub fn upsert(&mut self, record: SessionRecord)
        requires
            old(self).wf(),
        ensures
            final(self).wf(),
            has_session(old(self).sessions@, record.handle_id) ==> exists|i: int|
                0 <= i < old(self).sessions@.len() && old(self).sessions@[i].handle_id == record.handle_id
                    && final(self).sessions@ == #[trigger] old(self).sessions@.update(i, record),
            !has_session(old(self).sessions@, record.handle_id) ==> final(self).sessions@ == old(
                self,
            ).sessions@.push(record),
    {
        let ghost before = self.sessions@;
        let ghost rec = record;
        match self.find(record.handle_id) {
            Some(i) => {
                self.sessions.set(i, record);
                proof {
                    let after = self.sessions@;
                    assert forall|a: int, b: int| 0 <= a < b < after.len() implies (#[trigger] after[a]).handle_id
                        != (#[trigger] after[b]).handle_id by {
                        if a != i {
                            assert(after[a] == before[a]);
                        }
                        if b != i {
                            assert(after[b] == before[b]);
                        }
                    }
                    assert(before.update(i as int, rec) == after);
                }
            },
            None => {
                self.sessions.push(record);
                proof {
                    let after = self.sessions@;
                    assert forall|a: int, b: int| 0 <= a < b < after.len() implies (#[trigger] after[a]).handle_id
                        != (#[trigger] after[b]).handle_id by {
                        assert(after[a] == before[a]);
                        if b < before.len() {
                            assert(after[b] == before[b]);
                        }
                    }
                }
            },
        }
    }

    /// Checks that task `task_id` owns session `handle_id`.
    pub fn check_owner(&self, task_id: TaskId, handle_id: u128) -> (r: Result<(), String>)
        requires
            self.wf(),
        ensures
            !has_session(self.sessions@, handle_id) ==> (r matches Err(e) && e@ == not_found_text(
                handle_id,
            )),
            forall|i: int|
                0 <= i < self.sessions@.len() && (#[trigger] self.sessions@[i]).handle_id == handle_id
                    ==> if self.sessions@[i].owner_task_id == task_id {
                    r is Ok
                } else {
                    r matches Err(e) && e@ == foreign_text(handle_id, task_id)
                },
    {
        let i = match self.get_status(handle_id) {
            Ok(i) => i,
            Err(e) => {
                return Err(e);
            },
        };
        if self.sessions[i].owner_task_id != task_id {
            let msg = crate::text::concat3("session ", uuid_to_string(handle_id).as_str(), " does not belong to task ");
            let t = uuid_to_string(task_id);
            return Err(crate::text::concat2(msg.as_str(), t.as_str()));
        }
        Ok(())
    }

    /// The ids of the records `keep` selects, in table order.
    fn select(&self, Ghost(keep): Ghost<spec_fn(SessionRecord) -> bool>, task: Option<TaskId>, live_only: bool) -> (r: Vec<u128>)
        requires
            forall|x: SessionRecord|
                #[trigger] keep(x) == ((match task {
                    Some(t) => x.owner_task_id == t,
                    None => true,
                }) && (live_only ==> x.status.spec_is_live())),
        ensures
            r@ == ids_where(self.sessions@, keep),
    {
        let mut out: Vec<u128> = Vec::new();
        let n = self.sessions.len();
        for i in 0..n
            invariant
                n == self.sessions@.len(),
                out@ == ids_where(self.sessions@.take(i as int), keep),
                forall|x: SessionRecord|
                    #[trigger] keep(x) == ((match task {
                        Some(t) => x.owner_task_id == t,
                        None => true,
                    }) && (live_only ==> x.status.spec_is_live())),
        {
            let ghost next = self.sessions@.take(i + 1);
            assert(next.drop_last() =~= self.sessions@.take(i as int));
            assert(next.last() == self.sessions@[i as int]);
            let s = &self.sessions[i];
            let owner_ok = match task {
                Some(t) => s.owner_task_id == t,
                None => true,
            };
            let status_ok = !live_only || s.status.is_live();
            if owner_ok && status_ok {
                out.push(s.handle_id);
            }
        }
        assert(self.sessions@.take(n as int) =~= self.sessions@);
        out
    }

    /// The ids of all sessions of the task.
    pub fn task_session_ids(&self, task_id: TaskId) -> (r: Vec<u128>)
        ensures
            r@ == ids_where(self.sessions@, owned_by(task_id)),
    {
        self.select(Ghost(owned_by(task_id)), Some(task_id), false)
    }

    /// The ids of the live sessions of the task.
    pub fn active_session_ids_for_task(&self, task_id: TaskId) -> (r: Vec<u128>)
        ensures
            r@ == ids_where(self.sessions@, live_owned_by(task_id)),
    {
        self.select(Ghost(live_owned_by(task_id)), Some(task_id), true)
    }

    /// The ids of all live sessions.
    pub fn active_session_ids(&self) -> (r: Vec<u128>)
        ensures
            r@ == ids_where(self.sessions@, live()),
    {
        self.select(Ghost(live()), None, true)
    }

    /// A process of a live session has exited: the session is completed or
    /// exited with an error by its status, with its code, end time and last
    /// output. Fails when no session has the id.
    pub fn record_exit(
        &mut self,
        handle_id: u128,
        success: bool,
        exit_code: Option<i32>,
        finished_at: UtcInstant,
        output: SessionOutputSnapshot,
    ) -> (r: Result<(), String>)
        requires
            old(self).wf(),
        ensures
            final(self).wf(),
            final(self).sessions@.len() == old(self).sessions@.len(),
            !has_session(old(self).sessions@, handle_id) ==> (r matches Err(e) && e@ == not_found_text(
                handle_id,
            )) && final(self).sessions@ == old(self).sessions@,
            forall|i: int|
                0 <= i < old(self).sessions@.len() && (#[trigger] old(self).sessions@[i]).handle_id != handle_id
                    ==> final(self).sessions@[i] == old(self).sessions@[i],
            forall|i: int|
                0 <= i < old(self).sessions@.len() && (#[trigger] old(self).sessions@[i]).handle_id == handle_id
                    ==> r is Ok && final(self).sessions@[i] == (SessionRecord {
                    status: if success {
                        SessionStatus::Completed
                    } else {
                        SessionStatus::ExitedWithError
                    },
                    exit_code,
                    finished_at: Some(finished_at),
                    output,
                    ..old(self).sessions@[i]
                }),
    {
        let i = match self.get_status(handle_id) {
            Ok(i) => i,
            Err(e) => {
                return Err(e);
            },
        };
        self.sessions[i].status = if success {
            SessionStatus::Completed
        } else {
            SessionStatus::ExitedWithError
        };
        self.sessions[i].exit_code = exit_code;
        self.sessions[i].finished_at = Some(finished_at);
        self.sessions[i].output = output;
        proof {
            assert(self.sessions@.len() == old(self).sessions@.len());
            assert forall|a: int, b: int| 0 <= a < b < self.sessions@.len() implies (
            #[trigger] self.sessions@[a]).handle_id != (#[trigger] self.sessions@[b]).handle_id by {
                assert(old(self).sessions@[a].handle_id == self.sessions@[a].handle_id);
                assert(old(self).sessions@[b].handle_id == self.sessions@[b].handle_id);
            }
        }
        Ok(())
    }

    /// A session is stopped: its status is stopped, with the end time and the
    /// last output. Fails when no session has the id.
    pub fn mark_stopped(&mut self, handle_id: u128, finished_at: UtcInstant, output: SessionOutputSnapshot) -> (r: Result<(), String>)
        requires
            old(self).wf(),
        ensures
            final(self).wf(),
            final(self).sessions@.len() == old(self).sessions@.len(),
            !has_session(old(self).sessions@, handle_id) ==> (r matches Err(e) && e@ == not_found_text(
                handle_id,
            )) && final(self).sessions@ == old(self).sessions@,
            forall|i: int|
                0 <= i < old(self).sessions@.len() && (#[trigger] old(self).sessions@[i]).handle_id != handle_id
                    ==> final(self).sessions@[i] == old(self).sessions@[i],
            forall|i: int|
                0 <= i < old(self).sessions@.len() && (#[trigger] old(self).sessions@[i]).handle_id == handle_id
                    ==> r is Ok && final(self).sessions@[i] == (SessionRecord {
                    status: SessionStatus::Stopped,
                    finished_at: Some(finished_at),
                    output,
                    ..old(self).sessions@[i]
                }),
    {
        let i = match self.get_status(handle_id) {
            Ok(i) => i,
            Err(e) => {
                return Err(e);
            },
        };
        self.sessions[i].status = SessionStatus::Stopped;
        self.sessions[i].finished_at = Some(finished_at);
        self.sessions[i].output = output;
        proof {
            assert forall|a: int, b: int| 0 <= a < b < self.sessions@.len() implies (
            #[trigger] self.sessions@[a]).handle_id != (#[trigger] self.sessions@[b]).handle_id by {
                assert(old(self).sessions@[a].handle_id == self.sessions@[a].handle_id);
                assert(old(self).sessions@[b].handle_id == self.sessions@[b].handle_id);
            }
        }
        Ok(())
    }
}

} // verus!
