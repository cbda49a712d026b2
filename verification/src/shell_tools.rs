//! The shell tools: they read their arguments into session requests.

use vstd::prelude::*;
use crate::domain::ToolError;
use crate::ids::{parse_uuid, uuid_parse};
use crate::json::{
    bool_field, bool_field_of, get, text_field, text_field_of, text_of, u64_field, u64_field_of,
    JsonValue,
};
use crate::tools::{
    internal_state, invalid_input, opt_view, SessionInputRequest, SessionOutputRequest,
    SessionReadRequest, SessionSendInput, SessionStartRequest, ToolAction, ToolActionKind,
    ToolContext,
};

verus! {

/// The session id named by `session_id`, or the message of the refusal.
pub open spec fn session_id(input: JsonValue) -> Result<u128, Seq<char>> {
    match text_field(input, "session_id"@) {
        None => Err("missing 'session_id'"@),
        Some(t) => match uuid_parse(t) {
            None => Err("invalid 'session_id'"@),
            Some(id) => Ok(id),
        },
    }
}

/// Reads `session_id`.
fn parse_session_id(input: &JsonValue) -> (r: Result<u128, ToolError>)
    ensures
        match session_id(*input) {
            Ok(id) => r == Ok::<u128, ToolError>(id),
            Err(m) => invalid_input(r, m),
        },
{
    let t = match text_field_of(input, "session_id") {
        Some(t) => t,
        None => {
            return Err(ToolError::InvalidInput("missing 'session_id'".to_owned()));
        },
    };
    match parse_uuid(t.as_str()) {
        Some(id) => Ok(id),
        None => Err(ToolError::InvalidInput("invalid 'session_id'".to_owned())),
    }
}

/// The number of output lines to return: `tail_lines` when given, else the
/// default, and never more than `max`.
pub open spec fn tail_choice(input: JsonValue, default: usize, max: usize) -> usize {
    let t = match u64_field(input, "tail_lines"@) {
        Some(v) => v as usize,
        None => default,
    };
    if t <= max {
        t
    } else {
        max
    }
}

fn tail_of(input: &JsonValue, default: usize, max: usize) -> (r: usize)
    ensures
        r == tail_choice(*input, default, max),
{
    let t: usize = match u64_field_of(input, "tail_lines") {
        Some(v) => v as usize,
        None => default,
    };
    if t <= max {
        t
    } else {
        max
    }
}

/// The texts of a list of name/value pairs.
pub open spec fn pairs_view(v: Seq<(String, String)>) -> Seq<(Seq<char>, Seq<char>)> {
    v.map_values(|p: (String, String)| (p.0@, p.1@))
}

/// Every entry's value is a string.
pub open spec fn all_text_values(es: Seq<(String, JsonValue)>) -> bool {
    forall|i: int| 0 <= i < es.len() ==> (#[trigger] text_of(es[i].1)) is Some
}

/// Entry `i` is the first whose value is no string.
pub open spec fn first_non_text(es: Seq<(String, JsonValue)>, i: int) -> bool {
    &&& 0 <= i < es.len()
    &&& text_of(es[i].1) is None
    &&& forall|j: int| 0 <= j < i ==> (#[trigger] text_of(es[j].1)) is Some
}

/// The entries as name/text pairs.
pub open spec fn text_pairs(es: Seq<(String, JsonValue)>) -> Seq<(Seq<char>, Seq<char>)> {
    es.map_values(|e: (String, JsonValue)| (e.0@, text_of(e.1)->0))
}

/// The environment that `env` names: absent means none; otherwise an object
/// whose values must all be strings.
pub open spec fn env_spec(input: JsonValue) -> Result<Seq<(Seq<char>, Seq<char>)>, Seq<char>> {
    match get(input, "env"@) {
        None => Ok(Seq::empty()),
        Some(e) => match e {
            JsonValue::Object(es) => if all_text_values(es@) {
                Ok(text_pairs(es@))
            } else {
                let i = choose|i: int| first_non_text(es@, i);
                Err("'env."@ + es@[i].0@ + "' must be a string"@)
            },
            _ => Err("'env' must be an object"@),
        },
    }
}

/// Reads the `env` object.
fn parse_env_map(input: &JsonValue) -> (r: Result<Vec<(String, String)>, ToolError>)
    ensures
        match env_spec(*input) {
            Ok(ps) => r matches Ok(v) && pairs_view(v@) == ps,
            Err(m) => invalid_input(r, m),
        },
{
    let e = match input.get("env") {
        Some(e) => e,
        None => {
            let v: Vec<(String, String)> = Vec::new();
            assert(pairs_view(v@) =~= Seq::empty());
            return Ok(v);
        },
    };
    let es = match e {
        JsonValue::Object(es) => es,
        _ => {
            return Err(ToolError::InvalidInput("'env' must be an object".to_owned()));
        },
    };
    let mut out: Vec<(String, String)> = Vec::new();
    let n = es.len();
    for i in 0..n
        invariant
            n == es@.len(),
            get(*input, "env"@) == Some(*e),
            *e == JsonValue::Object(*es),
            out@.len() == i,
            forall|j: int| 0 <= j < i ==> (#[trigger] text_of(es@[j].1)) is Some,
            pairs_view(out@) =~= text_pairs(es@.take(i as int)),
    {
        match es[i].1.as_str() {
            Some(s) => {
                let ghost before = out@;
                out.push((es[i].0.clone(), s.clone()));
                assert(out@ == before.push(out@[i as int]));
                assert(es@.take(i + 1) =~= es@.take(i as int).push(es@[i as int]));
                assert(pairs_view(out@) =~= pairs_view(before).push((es@[i as int].0@, s@)));
                assert(pairs_view(out@) =~= text_pairs(es@.take(i + 1)));
            },
            None => {
                let msg = crate::text::concat3("'env.", es[i].0.as_str(), "' must be a string");
                proof {
                    assert(first_non_text(es@, i as int));
                    let k = choose|k: int| first_non_text(es@, k);
                    assert(k == i) by {
                        if k < i {
                            assert(text_of(es@[k].1) is Some);
                        }
                        if k > i {
                            assert(text_of(es@[i as int].1) is Some);
                        }
                    }
                }
                return Err(ToolError::InvalidInput(msg));
            },
        }
    }
    assert(es@.take(n as int) =~= es@);
    Ok(out)
}

/// Starts a long-running shell session.
pub struct ShellStartTool;

impl ShellStartTool {
    pub fn name(&self) -> (r: &'static str)
        ensures
            r@ == "shell_start"@,
    {
        "shell_start"
    }

    pub fn kind(&self) -> (r: ToolActionKind)
        ensures
            r == ToolActionKind::Sync,
    {
        ToolActionKind::Sync
    }

    /// Reads `command` (required), `cwd` and `env`; the session is owned by
    /// the current task and agent and keeps the default number of lines.
    pub fn execute(&self, input: &JsonValue, ctx: &ToolContext) -> (r: Result<ToolAction, ToolError>)
        ensures
            match text_field(*input, "command"@) {
                None => invalid_input(r, "missing 'command'"@),
                Some(c) => match env_spec(*input) {
                    Err(m) => invalid_input(r, m),
                    Ok(env) => r matches Ok(ToolAction::StartSession(req)) && req.command@ == c
                        && req.session_name is None && opt_view(req.cwd) == text_field(
                        *input,
                        "cwd"@,
                    ) && pairs_view(req.env@) == env && req.timeout_secs is None
                        && req.tail_lines == ctx.shell_default_tail_lines && req.owner_task_id
                        == ctx.current_task_id && req.owner_agent_id == ctx.current_agent_id,
                },
            },
    {
        let command = match text_field_of(input, "command") {
            Some(c) => c,
            None => {
                return Err(ToolError::InvalidInput("missing 'command'".to_owned()));
            },
        };
        let cwd = text_field_of(input, "cwd");
        let env = match parse_env_map(input) {
            Ok(env) => env,
            Err(e) => {
                return Err(e);
            },
        };
        Ok(
            ToolAction::StartSession(
                SessionStartRequest {
                    command,
                    session_name: None,
                    cwd,
                    env,
                    timeout_secs: None,
                    tail_lines: ctx.shell_default_tail_lines,
                    owner_task_id: ctx.current_task_id,
                    owner_agent_id: ctx.current_agent_id,
                },
            ),
        )
    }
}

/// Reads the latest output of a session.
pub struct ShellReadTool;

impl ShellReadTool {
    pub fn name(&self) -> (r: &'static str)
        ensures
            r@ == "shell_read"@,
    {
        "shell_read"
    }

    pub fn kind(&self) -> (r: ToolActionKind)
        ensures
            r == ToolActionKind::Sync,
    {
        ToolActionKind::Sync
    }

    /// Reads `session_id` and `tail_lines`.
    pub fn execute(&self, input: &JsonValue, ctx: &ToolContext) -> (r: Result<ToolAction, ToolError>)
        ensures
            match session_id(*input) {
                Err(m) => invalid_input(r, m),
                Ok(id) => r matches Ok(ToolAction::ReadSession(req)) && req.handle_id == id
                    && req.tail_lines == tail_choice(
                    *input,
                    ctx.shell_default_tail_lines,
                    ctx.shell_max_tail_lines,
                ),
            },
    {
        let handle_id = match parse_session_id(input) {
            Ok(id) => id,
            Err(e) => {
                return Err(e);
            },
        };
        let tail_lines = tail_of(input, ctx.shell_default_tail_lines, ctx.shell_max_tail_lines);
        Ok(ToolAction::ReadSession(SessionReadRequest { handle_id, tail_lines }))
    }
}

/// Lists the open sessions.
pub struct ShellListTool;

impl ShellListTool {
    pub fn name(&self) -> (r: &'static str)
        ensures
            r@ == "shell_list"@,
    {
        "shell_list"
    }

    pub fn kind(&self) -> (r: ToolActionKind)
        ensures
            r == ToolActionKind::Sync,
    {
        ToolActionKind::Sync
    }

    /// Ignores its arguments.
    pub fn execute(&self, _input: &JsonValue, _ctx: &ToolContext) -> (r: Result<ToolAction, ToolError>)
        ensures
            r matches Ok(ToolAction::ListSessions),
    {
        Ok(ToolAction::ListSessions)
    }
}

/// Writes to a session's input.
pub struct ShellInputTool;

impl ShellInputTool {
    pub fn name(&self) -> (r: &'static str)
        ensures
            r@ == "shell_input"@,
    {
        "shell_input"
    }

    pub fn kind(&self) -> (r: ToolActionKind)
        ensures
            r == ToolActionKind::Sync,
    {
        ToolActionKind::Sync
    }

    /// Reads `session_id`, `input` (required) and `append_newline` (default true).
    pub fn execute(&self, input: &JsonValue, _ctx: &ToolContext) -> (r: Result<ToolAction, ToolError>)
        ensures
            match session_id(*input) {
                Err(m) => invalid_input(r, m),
                Ok(id) => match text_field(*input, "input"@) {
                    None => invalid_input(r, "missing 'input'"@),
                    Some(t) => r matches Ok(ToolAction::InputSession(req)) && req.handle_id == id
                        && req.input@ == t && req.append_newline == match bool_field(
                        *input,
                        "append_newline"@,
                    ) {
                        Some(b) => b,
                        None => true,
                    },
                },
            },
    {
        let handle_id = match parse_session_id(input) {
            Ok(id) => id,
            Err(e) => {
                return Err(e);
            },
        };
        let text = match text_field_of(input, "input") {
            Some(t) => t,
            None => {
                return Err(ToolError::InvalidInput("missing 'input'".to_owned()));
            },
        };
        let append_newline = match bool_field_of(input, "append_newline") {
            Some(b) => b,
            None => true,
        };
        Ok(ToolAction::InputSession(SessionInputRequest { handle_id, input: text, append_newline }))
    }
}

/// Stops a session.
pub struct ShellStopTool;

impl ShellStopTool {
    pub fn name(&self) -> (r: &'static str)
        ensures
            r@ == "shell_stop"@,
    {
        "shell_stop"
    }

    pub fn kind(&self) -> (r: ToolActionKind)
        ensures
            r == ToolActionKind::Sync,
    {
        ToolActionKind::Sync
    }

    /// Reads `session_id`.
    pub fn execute(&self, input: &JsonValue, _ctx: &ToolContext) -> (r: Result<ToolAction, ToolError>)
        ensures
            match session_id(*input) {
                Err(m) => invalid_input(r, m),
                Ok(id) => r matches Ok(ToolAction::StopSession(h)) && h == id,
            },
    {
        match parse_session_id(input) {
            Ok(id) => Ok(ToolAction::StopSession(id)),
            Err(e) => Err(e),
        }
    }
}

/// The handle named by `handle_id`, once its presence is checked.
pub open spec fn handle_text(input: JsonValue) -> Option<Seq<char>> {
    text_field(input, "handle_id"@)
}

/// Writes to a session and may wait for its answer.
pub struct ShellSendInputTool;

impl ShellSendInputTool {
    pub fn name(&self) -> (r: &'static str)
        ensures
            r@ == "shell.send_input"@,
    {
        "shell.send_input"
    }

    pub fn kind(&self) -> (r: ToolActionKind)
        ensures
            r == ToolActionKind::Sync,
    {
        ToolActionKind::Sync
    }

    /// Reads `handle_id` and `input` (both required), then checks that the
    /// handle is an id; `append_newline` defaults to true, `wait_for_output`
    /// to false.
    pub fn execute(&self, input: &JsonValue, ctx: &ToolContext) -> (r: Result<ToolAction, ToolError>)
        ensures
            match handle_text(*input) {
                None => invalid_input(r, "missing 'handle_id'"@),
                Some(h) => match text_field(*input, "input"@) {
                    None => invalid_input(r, "missing 'input'"@),
                    Some(t) => match uuid_parse(h) {
                        None => invalid_input(r, "invalid 'handle_id'"@),
                        Some(id) => r matches Ok(ToolAction::SendSessionInput(req))
                            && req.handle_id == id && req.input@ == t && req.append_newline
                            == match bool_field(*input, "append_newline"@) {
                            Some(b) => b,
                            None => true,
                        } && req.wait_for_output == match bool_field(
                            *input,
                            "wait_for_output"@,
                        ) {
                            Some(b) => b,
                            None => false,
                        } && req.wait_timeout_secs == u64_field(*input, "wait_timeout_secs"@)
                            && req.tail_lines == tail_choice(
                            *input,
                            ctx.shell_default_tail_lines,
                            ctx.shell_max_tail_lines,
                        ),
                    },
                },
            },
    {
        let handle = match text_field_of(input, "handle_id") {
            Some(h) => h,
            None => {
                return Err(ToolError::InvalidInput("missing 'handle_id'".to_owned()));
            },
        };
        let body = match text_field_of(input, "input") {
            Some(t) => t,
            None => {
                return Err(ToolError::InvalidInput("missing 'input'".to_owned()));
            },
        };
        let tail_lines = tail_of(input, ctx.shell_default_tail_lines, ctx.shell_max_tail_lines);
        let handle_id = match parse_uuid(handle.as_str()) {
            Some(id) => id,
            None => {
                return Err(ToolError::InvalidInput("invalid 'handle_id'".to_owned()));
            },
        };
        let append_newline = match bool_field_of(input, "append_newline") {
            Some(b) => b,
            None => true,
        };
        let wait_for_output = match bool_field_of(input, "wait_for_output") {
            Some(b) => b,
            None => false,
        };
        let wait_timeout_secs = u64_field_of(input, "wait_timeout_secs");
        Ok(
            ToolAction::SendSessionInput(
                SessionSendInput {
                    handle_id,
                    input: body,
                    append_newline,
                    wait_for_output,
                    wait_timeout_secs,
                    tail_lines,
                },
            ),
        )
    }
}

/// Reads a session's output from a cursor.
pub struct ShellReadOutputTool;

impl ShellReadOutputTool {
    pub fn name(&self) -> (r: &'static str)
        ensures
            r@ == "shell.read_output"@,
    {
        "shell.read_output"
    }

    pub fn kind(&self) -> (r: ToolActionKind)
        ensures
            r == ToolActionKind::Sync,
    {
        ToolActionKind::Sync
    }

    /// Reads `handle_id` (required, an id), `tail_lines` and `cursor`.
    pub fn execute(&self, input: &JsonValue, ctx: &ToolContext) -> (r: Result<ToolAction, ToolError>)
        ensures
            match handle_text(*input) {
                None => invalid_input(r, "missing 'handle_id'"@),
                Some(h) => match uuid_parse(h) {
                    None => invalid_input(r, "invalid 'handle_id'"@),
                    Some(id) => r matches Ok(ToolAction::ReadSessionOutput(req)) && req.handle_id
                        == id && opt_view(req.cursor) == text_field(*input, "cursor"@)
                        && req.tail_lines == tail_choice(
                        *input,
                        ctx.shell_default_tail_lines,
                        ctx.shell_max_tail_lines,
                    ),
                },
            },
    {
        let handle = match text_field_of(input, "handle_id") {
            Some(h) => h,
            None => {
                return Err(ToolError::InvalidInput("missing 'handle_id'".to_owned()));
            },
        };
        let tail_lines = tail_of(input, ctx.shell_default_tail_lines, ctx.shell_max_tail_lines);
        let handle_id = match parse_uuid(handle.as_str()) {
            Some(id) => id,
            None => {
                return Err(ToolError::InvalidInput("invalid 'handle_id'".to_owned()));
            },
        };
        let cursor = text_field_of(input, "cursor");
        Ok(ToolAction::ReadSessionOutput(SessionOutputRequest { handle_id, cursor, tail_lines }))
    }
}

/// Lines of output a one-shot command returns when the call names none.
pub const EXEC_DEFAULT_TAIL_LINES: usize = 200;

/// The most lines of output a one-shot command returns.
pub const EXEC_MAX_TAIL_LINES: usize = 500;

/// How much longer than the command's own timeout the runtime waits before it
/// gives the call up as lost.
pub const EXEC_MARGIN_SECS: u64 = 30;

/// The command's timeout: `timeout_secs` when given, else `default`.
pub open spec fn exec_timeout(input: JsonValue, default: u64) -> u64 {
    match u64_field(input, "timeout_secs"@) {
        Some(t) => t,
        None => default,
    }
}

/// Runs one command to completion on a worker.
pub struct ShellExecTool;

impl ShellExecTool {
    pub fn name(&self) -> (r: &'static str)
        ensures
            r@ == "shell_exec"@,
    {
        "shell_exec"
    }

    pub fn kind(&self) -> (r: ToolActionKind)
        ensures
            r == ToolActionKind::Async,
    {
        ToolActionKind::Async
    }

    /// How long the call may stay in flight, in seconds: the command's
    /// timeout (falling back to the in-flight default) plus the margin.
    pub fn max_duration_secs(&self, input: &JsonValue, tool_inflight_timeout_secs: u64) -> (r: u64)
        requires
            exec_timeout(*input, tool_inflight_timeout_secs) + EXEC_MARGIN_SECS <= u64::MAX,
        ensures
            r == exec_timeout(*input, tool_inflight_timeout_secs) + EXEC_MARGIN_SECS,
    {
        let t = match u64_field_of(input, "timeout_secs") {
            Some(t) => t,
            None => tool_inflight_timeout_secs,
        };
        t + EXEC_MARGIN_SECS
    }

    /// The tool runs on a worker only; called inline it refuses.
    pub fn execute(&self, _input: &JsonValue, _ctx: &ToolContext) -> (r: Result<ToolAction, ToolError>)
        ensures
            internal_state(r, "shell_exec is async-only"@),
    {
        Err(ToolError::InternalState("shell_exec is async-only".to_owned()))
    }

    /// The worker's request: `command` (required), `tail_lines` (default 200,
    /// at most 500), `cwd`, `env` and `timeout_secs` (default: the context's
    /// exec timeout). It needs a process backend; the request has no owner.
    pub fn prepare(&self, input: &JsonValue, default_exec_timeout_secs: u64, backend_available: bool)
        -> (r: Result<SessionStartRequest, ToolError>)
        ensures
            match text_field(*input, "command"@) {
                None => invalid_input(r, "missing 'command'"@),
                Some(c) => match env_spec(*input) {
                    Err(m) => invalid_input(r, m),
                    Ok(env) => if !backend_available {
                        internal_state(r, "NativeProcessBackend not available in OwnedToolContext"@)
                    } else {
                        r matches Ok(req) && req.command@ == c && req.session_name is None
                            && opt_view(req.cwd) == text_field(*input, "cwd"@) && pairs_view(
                            req.env@,
                        ) == env && req.timeout_secs == Some(
                            exec_timeout(*input, default_exec_timeout_secs),
                        ) && req.tail_lines == tail_choice(
                            *input,
                            EXEC_DEFAULT_TAIL_LINES,
                            EXEC_MAX_TAIL_LINES,
                        ) && req.owner_task_id == 0 && req.owner_agent_id == 0
                    },
                },
            },
    {
        let command = match text_field_of(input, "command") {
            Some(c) => c,
            None => {
                return Err(ToolError::InvalidInput("missing 'command'".to_owned()));
            },
        };
        let tail_lines = tail_of(input, EXEC_DEFAULT_TAIL_LINES, EXEC_MAX_TAIL_LINES);
        let cwd = text_field_of(input, "cwd");
        let env = match parse_env_map(input) {
            Ok(env) => env,
            Err(e) => {
                return Err(e);
            },
        };
        let timeout_secs = match u64_field_of(input, "timeout_secs") {
            Some(t) => t,
            None => default_exec_timeout_secs,
        };
        if !backend_available {
            return Err(
                ToolError::InternalState(
                    "NativeProcessBackend not available in OwnedToolContext".to_owned(),
                ),
            );
        }
        Ok(
            SessionStartRequest {
                command,
                session_name: None,
                cwd,
                env,
                timeout_secs: Some(timeout_secs),
                tail_lines,
                owner_task_id: 0,
                owner_agent_id: 0,
            },
        )
    }
}

} // verus!
