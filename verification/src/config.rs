//! Runtime configuration: its defaults, and how settings given as text
//! override them.

use vstd::prelude::*;

verus! {

/// The stages of one frame of the runtime, in order.
#[derive(Debug, Clone, Copy, PartialEq, Eq, Hash, Structural)]
pub enum HarnessSet {
    Ingress,
    Signal,
    Transform,
    Dispatch,
    Execution,
    Output,
    Maintenance,
}

/// Whether the planning "brain" runs.
#[derive(Debug, Clone, Copy, PartialEq, Eq, Structural)]
pub struct BrainConfig {
    pub enabled: bool,
}

/// The kinds of language-model provider.
#[derive(Debug, Clone, Copy, PartialEq, Eq, Structural)]
pub enum LlmProviderKind {
    OpenAi,
}

/// How to reach the language model.
#[derive(Debug)]
pub struct LlmProviderConfig {
    pub provider: LlmProviderKind,
    pub model: String,
    pub api_key: Option<String>,
    pub api_base: Option<String>,
}

/// The runtime's settings.
#[derive(Debug)]
pub struct HarnessConfig {
    pub max_retries: u32,
    pub max_tool_iterations: u32,
    pub llm: LlmProviderConfig,
    pub brain: Option<BrainConfig>,
    pub agents_config_path: String,
    /// Default timeout of `wait_tasks`, in seconds.
    pub default_wait_tasks_timeout_secs: u64,
    /// Output lines a shell tool returns by default.
    pub shell_default_tail_lines: usize,
    /// The most output lines a shell tool returns.
    pub shell_max_tail_lines: usize,
    /// Default timeout of a one-shot shell command, in seconds.
    pub shell_default_exec_timeout_secs: u64,
    /// Default wait for a stopped session to exit, in seconds.
    pub shell_default_stop_timeout_secs: u64,
    /// How long an asynchronous tool call may stay in flight, in seconds.
    pub tool_inflight_timeout_secs: u64,
    /// The most bytes kept per output stream of a session.
    pub shell_max_buffer_bytes_per_stream: usize,
    /// Poll interval of the main loop while busy, in milliseconds.
    pub active_poll_ms: u64,
    /// Poll interval of the main loop while idle, in milliseconds.
    pub idle_poll_ms: u64,
    /// The channels configuration file, if any.
    pub channels_config_path: Option<String>,
    /// The triggers configuration file, if any.
    pub triggers_config_path: Option<String>,
    pub providers_config_path: String,
}

/// The defaults of every setting.
pub open spec fn has_defaults(c: HarnessConfig) -> bool {
    &&& c.max_retries == 3
    &&& c.max_tool_iterations == 5
    &&& c.llm.provider == LlmProviderKind::OpenAi
    &&& c.llm.model@ == "gpt-4.1-mini"@
    &&& c.llm.api_key matches Some(k) && k@ == "test-api-key"@
    &&& c.llm.api_base is None
    &&& c.brain is None
    &&& c.agents_config_path@ == "agents.toml"@
    &&& c.default_wait_tasks_timeout_secs == 300
    &&& c.shell_default_tail_lines == 200
    &&& c.shell_max_tail_lines == 500
    &&& c.shell_default_exec_timeout_secs == 300
    &&& c.shell_default_stop_timeout_secs == 10
    &&& c.tool_inflight_timeout_secs == 300
    &&& c.shell_max_buffer_bytes_per_stream == 64 * 1024
    &&& c.active_poll_ms == 16
    &&& c.idle_poll_ms == 150
    &&& c.channels_config_path is None
    &&& c.triggers_config_path is None
    &&& c.providers_config_path@ == "providers.toml"@
}

impl Default for HarnessConfig {
    fn default() -> (c: Self)
        ensures
            has_defaults(c),
    {
        HarnessConfig {
            max_retries: 3,
            max_tool_iterations: 5,
            llm: LlmProviderConfig {
                provider: LlmProviderKind::OpenAi,
                model: "gpt-4.1-mini".to_owned(),
                api_key: Some("test-api-key".to_owned()),
                api_base: None,
            },
            brain: None,
            agents_config_path: "agents.toml".to_owned(),
            default_wait_tasks_timeout_secs: 300,
            shell_default_tail_lines: 200,
            shell_max_tail_lines: 500,
            shell_default_exec_timeout_secs: 300,
            shell_default_stop_timeout_secs: 10,
            tool_inflight_timeout_secs: 300,
            shell_max_buffer_bytes_per_stream: 64 * 1024,
            active_poll_ms: 16,
            idle_poll_ms: 150,
            channels_config_path: None,
            triggers_config_path: None,
            providers_config_path: "providers.toml".to_owned(),
        }
    }
}

/// The settings as a shared resource of the runtime.
#[derive(Debug)]
pub struct HarnessSettings(pub HarnessConfig);

impl HarnessSettings {
    /// Settings with every default.
    pub fn default_test() -> (s: Self)
        ensures
            has_defaults(s.0),
    {
        HarnessSettings(HarnessConfig::default())
    }
}

/// The value of a decimal digit.
pub open spec fn digit_value(c: char) -> nat {
    (c as nat - '0' as nat) as nat
}

/// A decimal digit.
pub open spec fn is_digit(c: char) -> bool {
    '0' <= c && c <= '9'
}

/// The value of a string of decimal digits.
pub open spec fn digits_value(ds: Seq<char>) -> nat
    decreases ds.len(),
{
    if ds.len() == 0 {
        0
    } else {
        digits_value(ds.drop_last()) * 10 + digit_value(ds.last())
    }
}

/// The text after an optional leading `+`.
pub open spec fn sign_stripped(s: Seq<char>) -> Seq<char> {
    if s.len() > 0 && s[0] == '+' {
        s.drop_first()
    } else {
        s
    }
}

/// Every character is a decimal digit.
pub open spec fn all_digits(ds: Seq<char>) -> bool {
    forall|i: int| 0 <= i < ds.len() ==> is_digit(#[trigger] ds[i])
}

/// How `str::parse` reads an unsigned integer no greater than `max`: an
/// optional `+`, then at least one decimal digit, and nothing else.
pub open spec fn parse_unsigned(s: Seq<char>, max: nat) -> Option<nat> {
    let ds = sign_stripped(s);
    if ds.len() > 0 && all_digits(ds) && digits_value(ds) <= max {
        Some(digits_value(ds))
    } else {
        None
    }
}

/// A longer string of digits is worth at least as much as its prefix.
proof fn lemma_digits_prefix(ds: Seq<char>, k: int)
    requires
        0 <= k <= ds.len(),
        forall|i: int| 0 <= i < ds.len() ==> is_digit(#[trigger] ds[i]),
    ensures
        digits_value(ds.take(k)) <= digits_value(ds),
    decreases ds.len() - k,
{
    if k < ds.len() {
        lemma_digits_prefix(ds, k + 1);
        assert(ds.take(k + 1).drop_last() =~= ds.take(k));
    } else {
        assert(ds.take(k) =~= ds);
    }
}

/// Reads an unsigned integer no greater than `max` (see `parse_unsigned`).
pub fn parse_unsigned_text(s: &str, max: u64) -> (r: Option<u64>)
    ensures
        match parse_unsigned(s@, max as nat) {
            Some(v) => r == Some(v as u64),
            None => r is None,
        },
{
    let cs = crate::text::chars_of(s);
    let start: usize = if cs.len() > 0 && cs[0] == '+' {
        1
    } else {
        0
    };
    let ghost ds = sign_stripped(s@);
    assert(ds =~= cs@.subrange(start as int, cs@.len() as int));
    if start >= cs.len() {
        return None;
    }
    let n = cs.len();
    for i in start..n
        invariant
            start <= n,
            n == cs@.len(),
            ds =~= cs@.subrange(start as int, n as int),
            ds == sign_stripped(s@),
            forall|j: int| 0 <= j < i - start ==> is_digit(#[trigger] ds[j]),
    {
        if !(cs[i] >= '0' && cs[i] <= '9') {
            assert(!is_digit(ds[i - start]));
            return None;
        }
    }
    let mut v: u128 = 0;
    for i in start..n
        invariant
            start <= n,
            n == cs@.len(),
            ds =~= cs@.subrange(start as int, n as int),
            ds == sign_stripped(s@),
            forall|j: int| 0 <= j < ds.len() ==> is_digit(#[trigger] ds[j]),
            v == digits_value(ds.take(i - start)),
            v <= max,
    {
        assert(ds[i - start] == cs@[i as int]);
        assert(is_digit(ds[i - start]));
        let d: u128 = (cs[i] as u32 - '0' as u32) as u128;
        assert(ds.take(i - start + 1).drop_last() =~= ds.take(i - start));
        assert(ds.take(i - start + 1).last() == cs@[i as int]);
        let next = v * 10 + d;
        if next > max as u128 {
            proof {
                lemma_digits_prefix(ds, i - start + 1);
            }
            return None;
        }
        v = next;
    }
    assert(ds.take(n - start) =~= ds);
    Some(v as u64)
}

/// A setting read as an unsigned integer, or its default when absent or unreadable.
pub open spec fn setting(raw: Option<String>, max: nat, default: nat) -> nat {
    match raw {
        Some(t) => match parse_unsigned(t@, max) {
            Some(v) => v,
            None => default,
        },
        None => default,
    }
}

fn setting_value(raw: &Option<String>, max: u64, default: u64) -> (r: u64)
    requires
        default <= max,
    ensures
        r == setting(*raw, max as nat, default as nat),
{
    match raw {
        Some(t) => match parse_unsigned_text(t.as_str(), max) {
            Some(v) => v,
            None => default,
        },
        None => default,
    }
}

/// What `str::to_lowercase` gives for a text.
pub uninterp spec fn lowercase(text: Seq<char>) -> Seq<char>;

/// Lower-cases a text with `str::to_lowercase`; the result is `lowercase` of it.
#[verifier::external_body]
pub(crate) fn to_lowercase(text: &str) -> (r: String)
    ensures
        r@ == lowercase(text@),
{
    text.to_lowercase()
}

/// The settings as environment variables give them, each absent or its text.
#[derive(Debug)]
pub struct HarnessEnv {
    pub brain_enabled: Option<String>,
    pub agents_config: Option<String>,
    pub max_retries: Option<String>,
    pub max_tool_iterations: Option<String>,
    pub default_wait_tasks_timeout_secs: Option<String>,
    pub shell_default_tail_lines: Option<String>,
    pub shell_max_tail_lines: Option<String>,
    pub shell_default_exec_timeout_secs: Option<String>,
    pub shell_default_stop_timeout_secs: Option<String>,
    pub tool_inflight_timeout_secs: Option<String>,
    pub shell_max_buffer_bytes_per_stream: Option<String>,
    pub active_poll_ms: Option<String>,
    pub idle_poll_ms: Option<String>,
    pub channels_config: Option<String>,
    pub triggers_config: Option<String>,
    pub providers_config: Option<String>,
}

/// The text of an optional string.
pub open spec fn opt_view(o: Option<String>) -> Option<Seq<char>> {
    match o {
        Some(s) => Some(s@),
        None => None,
    }
}

/// A path setting, or its default.
pub open spec fn path_setting(raw: Option<String>, default: Seq<char>) -> Seq<char> {
    match raw {
        Some(t) => t@,
        None => default,
    }
}

fn copy_opt(o: &Option<String>) -> (r: Option<String>)
    ensures
        opt_view(r) == opt_view(*o),
{
    match o {
        Some(t) => Some(t.clone()),
        None => None,
    }
}

fn path_value(raw: &Option<String>, default: &str) -> (r: String)
    ensures
        r@ == path_setting(*raw, default@),
{
    match raw {
        Some(t) => t.clone(),
        None => default.to_owned(),
    }
}

impl HarnessConfig {
    /// The settings from the environment's texts: each number that is given
    /// and reads as one overrides its default; the brain runs when its
    /// variable reads `true` in any case.
    pub fn from_env_values(env: &HarnessEnv, llm: LlmProviderConfig) -> (c: HarnessConfig)
        ensures
            c.llm == llm,
            c.brain == (if env.brain_enabled matches Some(t) && lowercase(t@) == "true"@ {
                Some(BrainConfig { enabled: true })
            } else {
                None
            }),
            c.agents_config_path@ == path_setting(env.agents_config, "agents.toml"@),
            c.max_retries == setting(env.max_retries, u32::MAX as nat, 3),
            c.max_tool_iterations == setting(env.max_tool_iterations, u32::MAX as nat, 5),
            c.default_wait_tasks_timeout_secs == setting(
                env.default_wait_tasks_timeout_secs,
                u64::MAX as nat,
                300,
            ),
            c.shell_default_tail_lines == setting(
                env.shell_default_tail_lines,
                usize::MAX as nat,
                200,
            ),
            c.shell_max_tail_lines == setting(env.shell_max_tail_lines, usize::MAX as nat, 500),
            c.shell_default_exec_timeout_secs == setting(
                env.shell_default_exec_timeout_secs,
                u64::MAX as nat,
                300,
            ),
            c.shell_default_stop_timeout_secs == setting(
                env.shell_default_stop_timeout_secs,
                u64::MAX as nat,
                10,
            ),
            c.tool_inflight_timeout_secs == setting(
                env.tool_inflight_timeout_secs,
                u64::MAX as nat,
                300,
            ),
            c.shell_max_buffer_bytes_per_stream == setting(
                env.shell_max_buffer_bytes_per_stream,
                usize::MAX as nat,
                64 * 1024,
            ),
            c.active_poll_ms == setting(env.active_poll_ms, u64::MAX as nat, 16),
            c.idle_poll_ms == setting(env.idle_poll_ms, u64::MAX as nat, 150),
            opt_view(c.channels_config_path) == opt_view(env.channels_config),
            opt_view(c.triggers_config_path) == opt_view(env.triggers_config),
            c.providers_config_path@ == path_setting(env.providers_config, "providers.toml"@),
    {
        let brain = match &env.brain_enabled {
            Some(t) => {
                let lower = to_lowercase(t.as_str());
                if crate::text::str_eq(lower.as_str(), "true") {
                    Some(BrainConfig { enabled: true })
                } else {
                    None
                }
            },
            None => None,
        };
        let umax: u64 = usize::MAX as u64;
        HarnessConfig {
            max_retries: setting_value(&env.max_retries, u32::MAX as u64, 3) as u32,
            max_tool_iterations: setting_value(&env.max_tool_iterations, u32::MAX as u64, 5) as u32,
            llm,
            brain,
            agents_config_path: path_value(&env.agents_config, "agents.toml"),
            default_wait_tasks_timeout_secs: setting_value(
                &env.default_wait_tasks_timeout_secs,
                u64::MAX,
                300,
            ),
            shell_default_tail_lines: setting_value(&env.shell_default_tail_lines, umax, 200) as usize,
            shell_max_tail_lines: setting_value(&env.shell_max_tail_lines, umax, 500) as usize,
            shell_default_exec_timeout_secs: setting_value(
                &env.shell_default_exec_timeout_secs,
                u64::MAX,
                300,
            ),
            shell_default_stop_timeout_secs: setting_value(
                &env.shell_default_stop_timeout_secs,
                u64::MAX,
                10,
            ),
            tool_inflight_timeout_secs: setting_value(&env.tool_inflight_timeout_secs, u64::MAX, 300),
            shell_max_buffer_bytes_per_stream: setting_value(
                &env.shell_max_buffer_bytes_per_stream,
                umax,
                64 * 1024,
            ) as usize,
            active_poll_ms: setting_value(&env.active_poll_ms, u64::MAX, 16),
            idle_poll_ms: setting_value(&env.idle_poll_ms, u64::MAX, 150),
            channels_config_path: copy_opt(&env.channels_config),
            triggers_config_path: copy_opt(&env.triggers_config),
            providers_config_path: path_value(&env.providers_config, "providers.toml"),
        }
    }
}

} // verus!
