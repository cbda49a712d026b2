//! Scheduled tasks: reading a schedule, choosing where results go, and the
//! tools that create, delete and list scheduled tasks.

use std::str::FromStr;
use chrono::TimeZone;
use vstd::prelude::*;
use crate::domain::{ChannelId, FrontendKind, ToolError};
use crate::ids::{new_uuid, uuid_text, uuid_to_string};
use crate::json::{text_field, text_field_of, JsonValue};
use crate::text::{concat2, concat3, has_prefix, strip_prefix};
use crate::tools::{internal_state, invalid_input, ToolActionKind, ToolAction, ToolContext};

verus! {

/// The cron crate's parsed schedule, carried as it is.
#[verifier::external_type_specification]
#[verifier::external_body]
pub struct ExCronSchedule(cron::Schedule);

/// An instant in UTC: seconds since the Unix epoch and the nanoseconds within
/// that second.
#[derive(Debug, Clone, Copy, PartialEq, Eq, Structural)]
pub struct UtcInstant {
    pub secs: i64,
    pub nanos: u32,
}

/// A date and time without a zone, given as the instant it would be in UTC.
#[derive(Debug, Clone, Copy, PartialEq, Eq, Structural)]
pub struct NaiveInstant {
    pub secs: i64,
    pub nanos: u32,
}

/// `a` is no later than `b`.
pub open spec fn not_after(a: UtcInstant, b: UtcInstant) -> bool {
    a.secs < b.secs || (a.secs == b.secs && a.nanos <= b.nanos)
}

/// When a scheduled task fires.
#[derive(Debug)]
pub enum ScheduleSpec {
    /// Once, at the instant.
    Once(UtcInstant),
    /// Whenever the cron schedule says; `source` is the expression it was read from.
    Cron { source: String, schedule: cron::Schedule },
}

/// What `chrono::DateTime::parse_from_rfc3339` reads from `text`, as a UTC instant.
pub uninterp spec fn rfc3339_parse(text: Seq<char>) -> Option<UtcInstant>;

/// What `chrono::NaiveDateTime::parse_from_str` reads from `text` with the
/// format `%Y-%m-%dT%H:%M:%S`, or the text of its error.
pub uninterp spec fn naive_parse(text: Seq<char>) -> Result<NaiveInstant, Seq<char>>;

/// The text of the error `cron::Schedule::from_str` gives for `expr`, or
/// `None` where it accepts it.
pub uninterp spec fn cron_parse_error(expr: Seq<char>) -> Option<Seq<char>>;

/// Reads an RFC 3339 date and time with `chrono::DateTime::parse_from_rfc3339`;
/// the instant is `rfc3339_parse` of the text.
#[verifier::external_body]
fn parse_rfc3339(text: &str) -> (r: Option<UtcInstant>)
    ensures
        r == rfc3339_parse(text@),
{
    match chrono::DateTime::parse_from_rfc3339(text) {
        Ok(dt) => Some(UtcInstant { secs: dt.timestamp(), nanos: dt.timestamp_subsec_nanos() }),
        Err(_) => None,
    }
}

/// Reads a zone-less date and time with `chrono::NaiveDateTime::parse_from_str`
/// and the format `%Y-%m-%dT%H:%M:%S`; the result is `naive_parse` of the text.
#[verifier::external_body]
fn parse_naive(text: &str) -> (r: Result<NaiveInstant, String>)
    ensures
        match naive_parse(text@) {
            Ok(n) => r == Ok::<NaiveInstant, String>(n),
            Err(m) => r matches Err(e) && e@ == m,
        },
{
    match chrono::NaiveDateTime::parse_from_str(text, "%Y-%m-%dT%H:%M:%S") {
        Ok(n) => {
            let u = n.and_utc();
            Ok(NaiveInstant { secs: u.timestamp(), nanos: u.timestamp_subsec_nanos() })
        },
        Err(e) => Err(e.to_string()),
    }
}

/// The instant a zone-less time names in the machine's local time zone, by
/// `chrono::Local::from_local_datetime` and `single`: `None` where the local
/// time is ambiguous or does not exist. It depends on the machine's time zone,
/// so nothing is stated of it.
#[verifier::external_body]
fn local_instant(n: NaiveInstant) -> (r: Option<UtcInstant>) {
    let naive = chrono::DateTime::from_timestamp(n.secs, n.nanos)?.naive_utc();
    let local = chrono::Local.from_local_datetime(&naive).single()?;
    Some(UtcInstant { secs: local.timestamp(), nanos: local.timestamp_subsec_nanos() })
}

/// The current time, from `chrono::Utc::now`; nothing is stated of it.
#[verifier::external_body]
pub(crate) fn utc_now() -> (r: UtcInstant) {
    let now = chrono::Utc::now();
    UtcInstant { secs: now.timestamp(), nanos: now.timestamp_subsec_nanos() }
}

/// Reads a cron expression with `cron::Schedule::from_str`; it fails exactly
/// where `cron_parse_error` names an error, with that text.
#[verifier::external_body]
fn parse_cron(expr: &str) -> (r: Result<cron::Schedule, String>)
    ensures
        match cron_parse_error(expr@) {
            None => r is Ok,
            Some(m) => r matches Err(e) && e@ == m,
        },
{
    match cron::Schedule::from_str(expr) {
        Ok(s) => Ok(s),
        Err(e) => Err(e.to_string()),
    }
}

/// How the time of a one-off schedule was read.
#[derive(Debug)]
pub enum OnceTime {
    /// The instant it names.
    At(UtcInstant),
    /// Neither form reads it; the text of the zone-less reader's error.
    Unreadable(String),
    /// It reads as a local time that is ambiguous or does not exist.
    NoSingleLocal,
}

/// Reads the time of a one-off schedule: an RFC 3339 date and time with its
/// offset, else a zone-less `YYYY-MM-DDTHH:MM:SS` in local time.
pub fn read_once_time(text: &str) -> (r: OnceTime)
    ensures
        match rfc3339_parse(text@) {
            Some(t) => r == OnceTime::At(t),
            None => match naive_parse(text@) {
                Err(m) => r matches OnceTime::Unreadable(e) && e@ == m,
                Ok(_) => r is At || r is NoSingleLocal,
            },
        },
{
    match parse_rfc3339(text) {
        Some(t) => OnceTime::At(t),
        None => match parse_naive(text) {
            Err(e) => OnceTime::Unreadable(e),
            Ok(n) => match local_instant(n) {
                Some(t) => OnceTime::At(t),
                None => OnceTime::NoSingleLocal,
            },
        },
    }
}

/// Decides a one-off schedule from its read time and the current time: it
/// must lie in the future.
pub fn once_schedule(time: OnceTime, now: UtcInstant) -> (r: Result<ScheduleSpec, ToolError>)
    ensures
        match time {
            OnceTime::At(t) => if not_after(t, now) {
                invalid_input(r, "scheduled time is in the past"@)
            } else {
                r matches Ok(ScheduleSpec::Once(u)) && u == t
            },
            OnceTime::Unreadable(m) => invalid_input(r, "invalid once time: "@ + m@),
            OnceTime::NoSingleLocal => invalid_input(r, "ambiguous or invalid local time"@),
        },
{
    match time {
        OnceTime::At(t) => {
            if t.secs < now.secs || (t.secs == now.secs && t.nanos <= now.nanos) {
                Err(ToolError::InvalidInput("scheduled time is in the past".to_owned()))
            } else {
                Ok(ScheduleSpec::Once(t))
            }
        },
        OnceTime::Unreadable(m) => Err(
            ToolError::InvalidInput(concat2("invalid once time: ", m.as_str())),
        ),
        OnceTime::NoSingleLocal => Err(
            ToolError::InvalidInput("ambiguous or invalid local time".to_owned()),
        ),
    }
}

/// The cron expression the crate reads for a user's five-field expression:
/// a zero seconds field in front and an any-year field behind.
pub open spec fn full_cron(rest: Seq<char>) -> Seq<char> {
    "0 "@ + rest + " *"@
}

/// What a schedule text may yield. `once:` and `cron:` lead the two forms;
/// a one-off time must be readable and in the future, which depends on the
/// clock and, for zone-less times, the machine's time zone.
pub open spec fn schedule_outcome(s: Seq<char>, r: Result<ScheduleSpec, ToolError>) -> bool {
    if has_prefix(s, "once:"@) {
        let rest = s.subrange("once:"@.len() as int, s.len() as int);
        &&& (r matches Ok(x) ==> x is Once)
        &&& match rfc3339_parse(rest) {
            Some(t) => (r matches Ok(x) ==> x == ScheduleSpec::Once(t)) && (r is Err
                ==> invalid_input(r, "scheduled time is in the past"@)),
            None => match naive_parse(rest) {
                Err(m) => invalid_input(r, "invalid once time: "@ + m),
                Ok(_) => r is Err ==> (invalid_input(r, "scheduled time is in the past"@)
                    || invalid_input(r, "ambiguous or invalid local time"@)),
            },
        }
    } else if has_prefix(s, "cron:"@) {
        let rest = s.subrange("cron:"@.len() as int, s.len() as int);
        match cron_parse_error(full_cron(rest)) {
            None => r matches Ok(ScheduleSpec::Cron { source, schedule: _ }) && source@ == full_cron(
                rest,
            ),
            Some(m) => invalid_input(r, "invalid cron: "@ + m),
        }
    } else {
        invalid_input(r, "schedule must start with 'once:' or 'cron:'"@)
    }
}

/// Reads a schedule: `once:<time>` or `cron:<five fields>`.
pub fn parse_schedule(s: &str) -> (r: Result<ScheduleSpec, ToolError>)
    ensures
        schedule_outcome(s@, r),
{
    match strip_prefix(s, "once:") {
        Some(rest) => {
            proof {
                assert(s@.subrange("once:"@.len() as int, s@.len() as int) =~= rest@);
            }
            let time = read_once_time(rest.as_str());
            let now = utc_now();
            return once_schedule(time, now);
        },
        None => {},
    }
    match strip_prefix(s, "cron:") {
        Some(rest) => {
            proof {
                assert(s@.subrange("cron:"@.len() as int, s@.len() as int) =~= rest@);
            }
            let expr = concat3("0 ", rest.as_str(), " *");
            match parse_cron(expr.as_str()) {
                Ok(schedule) => Ok(ScheduleSpec::Cron { source: expr, schedule }),
                Err(e) => Err(ToolError::InvalidInput(concat2("invalid cron: ", e.as_str()))),
            }
        },
        None => Err(
            ToolError::InvalidInput("schedule must start with 'once:' or 'cron:'".to_owned()),
        ),
    }
}

/// The front end a name stands for.
pub open spec fn frontend_named(name: Seq<char>) -> Option<FrontendKind> {
    if name == "tui"@ {
        Some(FrontendKind::Tui)
    } else if name == "telegram"@ {
        Some(FrontendKind::Telegram)
    } else if name == "web"@ {
        Some(FrontendKind::Web)
    } else if name == "qq"@ {
        Some(FrontendKind::QQ)
    } else if name == "feishu"@ {
        Some(FrontendKind::Feishu)
    } else {
        None
    }
}

fn frontend_of(name: &str) -> (r: Option<FrontendKind>)
    ensures
        r == frontend_named(name@),
{
    if crate::text::str_eq(name, "tui") {
        Some(FrontendKind::Tui)
    } else if crate::text::str_eq(name, "telegram") {
        Some(FrontendKind::Telegram)
    } else if crate::text::str_eq(name, "web") {
        Some(FrontendKind::Web)
    } else if crate::text::str_eq(name, "qq") {
        Some(FrontendKind::QQ)
    } else if crate::text::str_eq(name, "feishu") {
        Some(FrontendKind::Feishu)
    } else {
        None
    }
}

/// The texts of a channel.
pub open spec fn channel_view(c: ChannelId) -> (FrontendKind, Seq<char>, Option<Seq<char>>) {
    (c.frontend, c.user_id@, crate::domain::opt_text(c.thread_id))
}

/// Where the results of a scheduled task go: an explicit front end needs a
/// target user; without one, the current task's origin channel is inherited.
pub open spec fn output_channel_spec(
    frontend: Option<Seq<char>>,
    target: Option<Seq<char>>,
    inherited: Option<ChannelId>,
) -> Result<(FrontendKind, Seq<char>, Option<Seq<char>>), Seq<char>> {
    match frontend {
        Some(f) => match frontend_named(f) {
            None => Err("unknown output_channel: "@ + f),
            Some(kind) => match target {
                None => Err("target is required when output_channel is provided"@),
                Some(t) => Ok((kind, t, None)),
            },
        },
        None => match inherited {
            Some(c) => Ok(channel_view(c)),
            None => Err("no output_channel provided and current task has no origin_channel"@),
        },
    }
}

/// Builds the output channel of a scheduled task.
pub fn build_output_channel(
    output_channel: Option<&str>,
    target: Option<&str>,
    inherited: &Option<ChannelId>,
) -> (r: Result<Option<ChannelId>, ToolError>)
    ensures
        match output_channel_spec(
            match output_channel {
                Some(f) => Some(f@),
                None => None,
            },
            match target {
                Some(t) => Some(t@),
                None => None,
            },
            *inherited,
        ) {
            Ok(v) => r matches Ok(Some(c)) && channel_view(c) == v,
            Err(m) => invalid_input(r, m),
        },
{
    match output_channel {
        Some(f) => {
            let frontend = match frontend_of(f) {
                Some(k) => k,
                None => {
                    return Err(ToolError::InvalidInput(concat2("unknown output_channel: ", f)));
                },
            };
            match target {
                None => Err(
                    ToolError::InvalidInput(
                        "target is required when output_channel is provided".to_owned(),
                    ),
                ),
                Some(t) => Ok(Some(ChannelId { frontend, user_id: t.to_owned(), thread_id: None })),
            }
        },
        None => match inherited {
            Some(c) => Ok(Some(c.duplicate())),
            None => Err(
                ToolError::InvalidInput(
                    "no output_channel provided and current task has no origin_channel".to_owned(),
                ),
            ),
        },
    }
}

/// An effect that a worker hands back for the main loop to apply.
#[derive(Debug)]
pub enum ToolEffect {
    ScheduleTask {
        id: u128,
        kind: String,
        content: String,
        schedule: ScheduleSpec,
        output_channel: Option<ChannelId>,
    },
    DeleteScheduledTask { kind: String },
    WriteSkillFile { sandbox_dir: String, path: String, content: String },
}

/// An optional text field as an optional text.
pub open spec fn opt_str_view(o: Option<&str>) -> Option<Seq<char>> {
    match o {
        Some(s) => Some(s@),
        None => None,
    }
}

/// What the schedule tool may answer for content `c` and schedule text `s`,
/// given where its results would go: the schedule's own refusal, the
/// channel's refusal, or the new task.
pub open spec fn schedule_task_outcome(
    s: Seq<char>,
    c: Seq<char>,
    channel: Result<(FrontendKind, Seq<char>, Option<Seq<char>>), Seq<char>>,
    r: Result<ToolEffect, ToolError>,
) -> bool {
    exists|sr: Result<ScheduleSpec, ToolError>|
        #![trigger schedule_outcome(s, sr)]
        schedule_outcome(s, sr) && match sr {
            Err(e) => r == Err::<ToolEffect, ToolError>(e),
            Ok(spec) => match channel {
                Err(m) => invalid_input(r, m),
                Ok(ch) => r matches Ok(
                    ToolEffect::ScheduleTask { id, kind, content, schedule, output_channel: Some(oc) },
                ) && kind@ == "scheduled:"@ + uuid_text(id) && content@ == c && schedule == spec
                    && channel_view(oc) == ch,
            },
        }
}

/// Schedules a task to run later, once or repeatedly.
pub struct ScheduleTaskTool;

impl ScheduleTaskTool {
    pub fn name(&self) -> (r: &'static str)
        ensures
            r@ == "schedule_task"@,
    {
        "schedule_task"
    }

    pub fn kind(&self) -> (r: ToolActionKind)
        ensures
            r == ToolActionKind::Async,
    {
        ToolActionKind::Async
    }

    /// The tool runs on a worker only; called inline it refuses.
    pub fn execute(&self, _input: &JsonValue, _ctx: &ToolContext) -> (r: Result<ToolAction, ToolError>)
        ensures
            internal_state(r, "schedule_task is async-only, must go through run_async"@),
    {
        Err(
            ToolError::InternalState(
                "schedule_task is async-only, must go through run_async".to_owned(),
            ),
        )
    }

    /// The worker: reads `content` and `schedule` (both required), the
    /// schedule, then the output channel (`output_channel` with `target`, or
    /// the task's origin channel), and names the new task
    /// `scheduled:<fresh id>`.
    pub fn run(&self, input: &JsonValue, origin_channel: &Option<ChannelId>) -> (r: Result<
        ToolEffect,
        ToolError,
    >)
        ensures
            match text_field(*input, "content"@) {
                None => invalid_input(r, "content is required"@),
                Some(c) => match text_field(*input, "schedule"@) {
                    None => invalid_input(r, "schedule is required"@),
                    Some(s) => schedule_task_outcome(
                        s,
                        c,
                        output_channel_spec(
                            text_field(*input, "output_channel"@),
                            text_field(*input, "target"@),
                            *origin_channel,
                        ),
                        r,
                    ),
                },
            },
    {
        let content = match text_field_of(input, "content") {
            Some(c) => c,
            None => {
                return Err(ToolError::InvalidInput("content is required".to_owned()));
            },
        };
        let schedule_text = match text_field_of(input, "schedule") {
            Some(s) => s,
            None => {
                return Err(ToolError::InvalidInput("schedule is required".to_owned()));
            },
        };
        let frontend = text_field_of(input, "output_channel");
        let target = text_field_of(input, "target");
        let sr = parse_schedule(schedule_text.as_str());
        let ghost sr_g = sr;
        assert(schedule_outcome(schedule_text@, sr_g));
        let schedule = match sr {
            Ok(spec) => spec,
            Err(e) => {
                let ghost c = content@;
                let ghost ch = output_channel_spec(
                    text_field(*input, "output_channel"@),
                    text_field(*input, "target"@),
                    *origin_channel,
                );
                assert(schedule_task_outcome(schedule_text@, c, ch, Err(e)));
                return Err(e);
            },
        };
        let f = match &frontend {
            Some(f) => Some(f.as_str()),
            None => None,
        };
        let t = match &target {
            Some(t) => Some(t.as_str()),
            None => None,
        };
        let ghost ch = output_channel_spec(
            text_field(*input, "output_channel"@),
            text_field(*input, "target"@),
            *origin_channel,
        );
        assert(sr_g == Ok::<ScheduleSpec, ToolError>(schedule));
        assert(opt_str_view(f) == text_field(*input, "output_channel"@));
        assert(opt_str_view(t) == text_field(*input, "target"@));
        let output_channel = match build_output_channel(f, t, origin_channel) {
            Ok(c) => c,
            Err(e) => {
                assert(schedule_task_outcome(schedule_text@, content@, ch, Err(e)));
                return Err(e);
            },
        };
        let id = new_uuid();
        let kind = concat2("scheduled:", uuid_to_string(id).as_str());
        let effect = ToolEffect::ScheduleTask { id, kind, content, schedule, output_channel };
        assert(schedule_task_outcome(schedule_text@, content@, ch, Ok(effect)));
        Ok(effect)
    }
}

/// Deletes a scheduled task by its kind.
pub struct DeleteScheduledTaskTool;

impl DeleteScheduledTaskTool {
    pub fn name(&self) -> (r: &'static str)
        ensures
            r@ == "delete_scheduled_task"@,
    {
        "delete_scheduled_task"
    }

    pub fn kind(&self) -> (r: ToolActionKind)
        ensures
            r == ToolActionKind::Async,
    {
        ToolActionKind::Async
    }

    /// The tool runs on a worker only; called inline it refuses.
    pub fn execute(&self, _input: &JsonValue, _ctx: &ToolContext) -> (r: Result<ToolAction, ToolError>)
        ensures
            internal_state(r, "delete_scheduled_task is async-only"@),
    {
        Err(ToolError::InternalState("delete_scheduled_task is async-only".to_owned()))
    }

    /// The worker: `kind` must be a non-empty text; whether such a task
    /// exists is decided when the effect is applied.
    pub fn run(&self, input: &JsonValue) -> (r: Result<ToolEffect, ToolError>)
        ensures
            match text_field(*input, "kind"@) {
                Some(k) => if k.len() == 0 {
                    invalid_input(r, "missing required parameter: kind"@)
                } else {
                    r matches Ok(ToolEffect::DeleteScheduledTask { kind }) && kind@ == k
                },
                None => invalid_input(r, "missing required parameter: kind"@),
            },
    {
        match text_field_of(input, "kind") {
            Some(k) => {
                if k.as_str().is_empty() {
                    Err(ToolError::InvalidInput("missing required parameter: kind".to_owned()))
                } else {
                    Ok(ToolEffect::DeleteScheduledTask { kind: k })
                }
            },
            None => Err(ToolError::InvalidInput("missing required parameter: kind".to_owned())),
        }
    }
}

/// The RFC 3339 text `chrono` gives for an instant (`DateTime::<Utc>::to_rfc3339`),
/// or the empty text for an instant `DateTime::from_timestamp` cannot hold.
pub uninterp spec fn rfc3339_text(t: UtcInstant) -> Seq<char>;

/// Formats an instant with `chrono::DateTime::<Utc>::to_rfc3339`; the text is
/// `rfc3339_text` of the instant. An instant that
/// `chrono::DateTime::from_timestamp` cannot hold gives the empty text.
#[verifier::external_body]
pub(crate) fn format_rfc3339(t: UtcInstant) -> (r: String)
    ensures
        r@ == rfc3339_text(t),
{
    match chrono::DateTime::<chrono::Utc>::from_timestamp(t.secs, t.nanos) {
        Some(dt) => dt.to_rfc3339(),
        None => String::new(),
    }
}

/// A scheduled task as the scheduler holds it.
#[derive(Debug)]
pub struct DynamicTaskRecord {
    pub kind: String,
    pub created_at: UtcInstant,
    /// When it fires next, if it fires again.
    pub next_fire: Option<UtcInstant>,
}

/// A scheduled task as the trigger registry holds it.
#[derive(Debug)]
pub struct RegisteredTask {
    pub kind: String,
    pub content: String,
    pub output_channel: Option<ChannelId>,
    pub is_once: bool,
}

/// One line of the listing.
#[derive(Debug)]
pub struct ScheduledTaskEntry {
    pub kind: String,
    pub content: String,
    pub output_channel: Option<ChannelId>,
    pub is_once: bool,
    pub created_at: String,
    pub next_fire_time: Option<String>,
}

/// The listing of scheduled tasks.
#[derive(Debug)]
pub struct ScheduledTaskList {
    pub tasks: Vec<ScheduledTaskEntry>,
    pub count: usize,
}

/// The texts of an optional channel.
pub open spec fn opt_channel_view(c: Option<ChannelId>) -> Option<(FrontendKind, Seq<char>, Option<Seq<char>>)> {
    match c {
        Some(x) => Some(channel_view(x)),
        None => None,
    }
}

/// Entry `j` is the first in the registry of the kind.
pub open spec fn first_registered(reg: Seq<RegisteredTask>, kind: Seq<char>, j: int) -> bool {
    &&& 0 <= j < reg.len()
    &&& reg[j].kind@ == kind
    &&& forall|k: int| 0 <= k < j ==> (#[trigger] reg[k].kind@) != kind
}

/// Where the registry holds the kind, at its first entry.
pub open spec fn registered_index(reg: Seq<RegisteredTask>, kind: Seq<char>) -> Option<int> {
    if exists|j: int| first_registered(reg, kind, j) {
        Some(choose|j: int| first_registered(reg, kind, j))
    } else {
        None
    }
}

/// The pairs (scheduler entry, registry entry) that the listing shows, in the
/// scheduler's order: scheduler entries the registry does not hold are left out.
pub open spec fn listed_pairs(tasks: Seq<DynamicTaskRecord>, reg: Seq<RegisteredTask>) -> Seq<(int, int)>
    decreases tasks.len(),
{
    if tasks.len() == 0 {
        Seq::empty()
    } else {
        let prev = listed_pairs(tasks.drop_last(), reg);
        match registered_index(reg, tasks.last().kind@) {
            Some(j) => prev.push((tasks.len() - 1, j)),
            None => prev,
        }
    }
}

/// `e` shows scheduler entry `d` with registry entry `t`.
pub open spec fn shows(e: ScheduledTaskEntry, d: DynamicTaskRecord, t: RegisteredTask) -> bool {
    &&& e.kind@ == d.kind@
    &&& e.content@ == t.content@
    &&& opt_channel_view(e.output_channel) == opt_channel_view(t.output_channel)
    &&& e.is_once == t.is_once
    &&& e.created_at@ == rfc3339_text(d.created_at)
    &&& match d.next_fire {
        Some(n) => e.next_fire_time matches Some(x) && x@ == rfc3339_text(n),
        None => e.next_fire_time is None,
    }
}

pub(crate) fn find_registered(reg: &Vec<RegisteredTask>, kind: &str) -> (r: Option<usize>)
    ensures
        r matches Some(i) ==> i < reg@.len() && registered_index(reg@, kind@) == Some(i as int),
        r is None ==> registered_index(reg@, kind@) is None,
{
    let n = reg.len();
    for i in 0..n
        invariant
            n == reg@.len(),
            forall|k: int| 0 <= k < i ==> (#[trigger] reg@[k].kind@) != kind@,
    {
        if crate::text::str_eq(reg[i].kind.as_str(), kind) {
            proof {
                assert(first_registered(reg@, kind@, i as int));
                let c = choose|j: int| first_registered(reg@, kind@, j);
                assert(c == i) by {
                    if c < i {
                        assert(reg@[c].kind@ != kind@);
                    }
                    if c > i {
                        assert(reg@[i as int].kind@ == kind@);
                    }
                }
            }
            return Some(i);
        }
    }
    assert(!exists|j: int| first_registered(reg@, kind@, j));
    None
}

pub(crate) fn copy_opt_channel(c: &Option<ChannelId>) -> (r: Option<ChannelId>)
    ensures
        opt_channel_view(r) == opt_channel_view(*c),
{
    match c {
        Some(x) => Some(x.duplicate()),
        None => None,
    }
}

/// Lists the scheduled tasks.
pub struct ListScheduledTasksTool;

impl ListScheduledTasksTool {
    pub fn name(&self) -> (r: &'static str)
        ensures
            r@ == "list_scheduled_tasks"@,
    {
        "list_scheduled_tasks"
    }

    pub fn kind(&self) -> (r: ToolActionKind)
        ensures
            r == ToolActionKind::Async,
    {
        ToolActionKind::Async
    }

    /// The tool runs on a worker only; called inline it refuses.
    pub fn execute(&self, _input: &JsonValue, _ctx: &ToolContext) -> (r: Result<ToolAction, ToolError>)
        ensures
            internal_state(r, "list_scheduled_tasks is async-only"@),
    {
        Err(ToolError::InternalState("list_scheduled_tasks is async-only".to_owned()))
    }

    /// The worker: joins the scheduler's tasks with the registry's, in the
    /// scheduler's order, leaving out those the registry does not know.
    /// Both snapshots must have been handed over.
    pub fn run(
        &self,
        scheduler: Option<&Vec<DynamicTaskRecord>>,
        registry: Option<&Vec<RegisteredTask>>,
    ) -> (r: Result<ScheduledTaskList, ToolError>)
        ensures
            match scheduler {
                None => internal_state(r, "scheduler snapshot missing"@),
                Some(tasks) => match registry {
                    None => internal_state(r, "registry snapshot missing"@),
                    Some(reg) => r matches Ok(list) && list.count == list.tasks@.len() && ({
                        let pairs = listed_pairs(tasks@, reg@);
                        &&& list.tasks@.len() == pairs.len()
                        &&& forall|k: int|
                            0 <= k < pairs.len() ==> shows(
                                #[trigger] list.tasks@[k],
                                tasks@[pairs[k].0],
                                reg@[pairs[k].1],
                            )
                    }),
                },
            },
    {
        let tasks = match scheduler {
            Some(t) => t,
            None => {
                return Err(ToolError::InternalState("scheduler snapshot missing".to_owned()));
            },
        };
        let reg = match registry {
            Some(r) => r,
            None => {
                return Err(ToolError::InternalState("registry snapshot missing".to_owned()));
            },
        };
        let mut out: Vec<ScheduledTaskEntry> = Vec::new();
        let n = tasks.len();
        let ghost mut pairs: Seq<(int, int)> = Seq::empty();
        assert(tasks@.take(0) =~= Seq::<DynamicTaskRecord>::empty());
        for i in 0..n
            invariant
                n == tasks@.len(),
                pairs == listed_pairs(tasks@.take(i as int), reg@),
                out@.len() == pairs.len(),
                forall|k: int|
                    #![trigger pairs[k]]
                    0 <= k < pairs.len() ==> 0 <= pairs[k].0 < i && 0 <= pairs[k].1 < reg@.len()
                        && shows(out@[k], tasks@[pairs[k].0], reg@[pairs[k].1]),
        {
            let ghost prefix = tasks@.take(i + 1);
            assert(prefix.drop_last() =~= tasks@.take(i as int));
            assert(prefix.last() == tasks@[i as int]);
            let d = &tasks[i];
            match find_registered(reg, d.kind.as_str()) {
                Some(j) => {
                    let t = &reg[j];
                    let next_fire_time = match d.next_fire {
                        Some(nf) => Some(format_rfc3339(nf)),
                        None => None,
                    };
                    let e = ScheduledTaskEntry {
                        kind: d.kind.clone(),
                        content: t.content.clone(),
                        output_channel: copy_opt_channel(&t.output_channel),
                        is_once: t.is_once,
                        created_at: format_rfc3339(d.created_at),
                        next_fire_time,
                    };
                    let ghost eg = e;
                    assert(shows(eg, tasks@[i as int], reg@[j as int]));
                    out.push(e);
                    proof {
                        assert(listed_pairs(prefix, reg@) =~= pairs.push((i as int, j as int)));
                        pairs = pairs.push((i as int, j as int));
                        assert(out@[out@.len() - 1] == eg);
                    }
                },
                None => {
                    proof {
                        assert(listed_pairs(prefix, reg@) =~= pairs);
                    }
                },
            }
        }
        assert(tasks@.take(n as int) =~= tasks@);
        let count = out.len();
        Ok(ScheduledTaskList { tasks: out, count })
    }
}

} // verus!
