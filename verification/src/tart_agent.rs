//! The agent that runs macOS runners in Tart virtual machines on its host.
use vstd::prelude::*;

use crate::capacity::{
    column, column_number, combine_usage, count_saturated, filled_lines, nonblank_lines,
    number_setting, setting_i64, setting_u64, settings_hold_what_is_written, used_together,
    CapacityUsage, CpuSetting, DiskCapacity,
};
use crate::manager::{is_tart_id, one_line, tart_id_ok};
use crate::models::CPU;
use crate::numbers::{
    decimal, decimal_i64, decimal_reads_back, decimal_u64, decimal_usize, lemma_decimal_value,
    parse_u64, parsed_nat, saturated, signed_decimal, sum_saturated,
};
use crate::scripts::{MACOS_HEAD, MACOS_TAIL};
use crate::search::{blank, has_line_break, is_blank, lines_of, trim, trimmed, words};
use crate::text::{
    alphanumeric, byte_len, chars_of, concat, concat3, concat5, digit, is_alphanumeric, lower, same,
    text_option, texts, to_lower, utf8_len,
};

verus! {

// ---------------------------------------------------------------------------
// Errors

/// Why a request to the agent failed.
#[derive(Debug)]
pub enum AgentError {
    Unauthorized,
    BadRequest(String),
    Conflict(String),
    Guardrail { code: &'static str, message: String },
    NotFound(String),
    Internal(String),
}

/// The model of an agent's error.
pub enum AgentErrorView {
    Unauthorized,
    BadRequest(Seq<char>),
    Conflict(Seq<char>),
    Guardrail { code: Seq<char>, message: Seq<char> },
    NotFound(Seq<char>),
    Internal(Seq<char>),
}

impl View for AgentError {
    type V = AgentErrorView;

    open spec fn view(&self) -> AgentErrorView {
        match self {
            AgentError::Unauthorized => AgentErrorView::Unauthorized,
            AgentError::BadRequest(message) => AgentErrorView::BadRequest(message@),
            AgentError::Conflict(message) => AgentErrorView::Conflict(message@),
            AgentError::Guardrail { code, message } => AgentErrorView::Guardrail {
                code: code@,
                message: message@,
            },
            AgentError::NotFound(message) => AgentErrorView::NotFound(message@),
            AgentError::Internal(message) => AgentErrorView::Internal(message@),
        }
    }
}

/// The answer to a failed request: a status, a code and a message. What went
/// wrong inside is not told.
pub open spec fn agent_answer(error: AgentErrorView) -> (u16, Seq<char>, Seq<char>) {
    match error {
        AgentErrorView::Unauthorized => (401, "unauthorized"@, "Unauthorized"@),
        AgentErrorView::BadRequest(message) => (400, "bad_request"@, message),
        AgentErrorView::Conflict(message) => (409, "conflict"@, message),
        AgentErrorView::Guardrail { code, message } => (429, code, message),
        AgentErrorView::NotFound(message) => (404, "not_found"@, message),
        AgentErrorView::Internal(_) => (500, "internal_error"@, "Tart agent request failed."@),
    }
}

impl AgentError {
    /// The answer to a failed request.
    pub fn into_response(self) -> (r: (u16, String, String))
        ensures
            (r.0, r.1@, r.2@) == agent_answer(self@),
    {
        match self {
            AgentError::Unauthorized => (
                401,
                "unauthorized".to_owned(),
                "Unauthorized".to_owned(),
            ),
            AgentError::BadRequest(message) => (400, "bad_request".to_owned(), message),
            AgentError::Conflict(message) => (409, "conflict".to_owned(), message),
            AgentError::Guardrail { code, message } => (429, code.to_owned(), message),
            AgentError::NotFound(message) => (404, "not_found".to_owned(), message),
            AgentError::Internal(_) => (
                500,
                "internal_error".to_owned(),
                "Tart agent request failed.".to_owned(),
            ),
        }
    }
}

/// A result that fails exactly with the given error, and succeeds without one.
pub open spec fn agent_refuses(
    result: Result<(), AgentError>,
    error: Option<AgentErrorView>,
) -> bool {
    match error {
        Some(expected) => result is Err && result->Err_0@ == expected,
        None => result is Ok,
    }
}

// ---------------------------------------------------------------------------
// Names

/// The name of a runner: letters, digits, hyphens and underscores, 1 to 96 of
/// them.
pub open spec fn runner_name_ok(value: Seq<char>) -> bool {
    &&& 0 < value.len() <= 96
    &&& forall|i: int|
        0 <= i < value.len() ==> alphanumeric(#[trigger] value[i]) || value[i] == '-' || value[i]
            == '_'
}

/// A path in a virtual machine: absolute, of letters, digits and the characters
/// of paths, at most 512 of them.
pub open spec fn guest_path_ok(value: Seq<char>) -> bool {
    &&& 0 < value.len() <= 512
    &&& value[0] == '/'
    &&& forall|i: int|
        0 <= i < value.len() ==> alphanumeric(#[trigger] value[i]) || value[i] == '/' || value[i]
            == '-' || value[i] == '_' || value[i] == '.'
}

/// Whether a name is that of a runner.
pub fn valid_name(value: &str) -> (r: bool)
    ensures
        r == runner_name_ok(value@),
{
    let a: Vec<char> = chars_of(value);
    if a.len() == 0 || a.len() > 96 {
        return false;
    }
    let mut i: usize = 0;
    while i < a.len()
        invariant
            i <= a@.len(),
            a@ == value@,
            forall|k: int|
                0 <= k < i ==> alphanumeric(#[trigger] value@[k]) || value@[k] == '-' || value@[k]
                    == '_',
        decreases a@.len() - i,
    {
        if !(is_alphanumeric(a[i]) || a[i] == '-' || a[i] == '_') {
            proof {
                assert(!alphanumeric(value@[i as int]));
            }
            return false;
        }
        i += 1;
    }
    true
}

/// Whether an identifier is that of a runner of this agent.
pub fn valid_id(value: &str) -> (r: bool)
    ensures
        r == tart_id_ok(value@),
{
    is_tart_id(value)
}

/// Whether a path is one in a virtual machine.
pub fn valid_guest_path(value: &str) -> (r: bool)
    ensures
        r == guest_path_ok(value@),
{
    let a: Vec<char> = chars_of(value);
    if a.len() == 0 || a.len() > 512 || a[0] != '/' {
        return false;
    }
    let mut i: usize = 0;
    while i < a.len()
        invariant
            i <= a@.len(),
            a@ == value@,
            forall|k: int|
                0 <= k < i ==> alphanumeric(#[trigger] value@[k]) || value@[k] == '/' || value@[k]
                    == '-' || value@[k] == '_' || value@[k] == '.',
        decreases a@.len() - i,
    {
        if !(is_alphanumeric(a[i]) || a[i] == '/' || a[i] == '-' || a[i] == '_' || a[i] == '.') {
            proof {
                assert(!alphanumeric(value@[i as int]));
            }
            return false;
        }
        i += 1;
    }
    true
}

// ---------------------------------------------------------------------------
// Settings

/// How virtual machines reach the network.
#[derive(Debug, Clone, Copy, PartialEq, Eq, Structural)]
pub enum NetworkMode {
    Nat,
    Softnet,
}

/// The limits of the agent's host. Processors are counted in billionths.
#[derive(Debug, Clone, Copy, PartialEq, Eq, Structural)]
pub struct AgentLimits {
    pub cpu_budget: i64,
    pub memory_budget_mb: i64,
    pub max_runners: usize,
    pub min_free_disk_mb: u64,
}

/// How virtual machines reach the network by a setting.
pub open spec fn network_named(setting: Option<Seq<char>>) -> Option<NetworkMode> {
    let word = lower(
        match setting {
            Some(text) => text,
            None => "softnet"@,
        },
    );
    if word == "nat"@ {
        Some(NetworkMode::Nat)
    } else if word == "softnet"@ {
        Some(NetworkMode::Softnet)
    } else {
        None
    }
}

/// How virtual machines reach the network by a setting: isolated where nothing
/// is said.
pub fn network_mode(setting: Option<String>) -> (r: Result<NetworkMode, String>)
    ensures
        match network_named(text_option(setting)) {
            Some(mode) => r == Ok::<NetworkMode, String>(mode),
            None => r is Err && r->Err_0@
                == "GRIDOPS_TART_NETWORK_MODE must be nat or softnet"@,
        },
{
    let word: String = match setting {
        Some(text) => to_lower(text.as_str()),
        None => to_lower("softnet"),
    };
    if same(word.as_str(), "nat") {
        Ok(NetworkMode::Nat)
    } else if same(word.as_str(), "softnet") {
        Ok(NetworkMode::Softnet)
    } else {
        Err("GRIDOPS_TART_NETWORK_MODE must be nat or softnet".to_owned())
    }
}

/// The limits of the agent's host by its settings, or what is wrong with them.
pub open spec fn agent_limits_for(
    cpu: CpuSetting,
    memory: Option<Seq<char>>,
    runners: Option<Seq<char>>,
    disk: Option<Seq<char>>,
) -> Result<(int, int, int, int), Seq<char>> {
    let cpu_budget = match cpu {
        CpuSetting::Nanos(nanos) => nanos as int,
        _ => 4 * CPU,
    };
    let memory_mb = number_setting(memory, 6_144, i64::MIN as int, i64::MAX as int);
    let max_runners = number_setting(runners, 1, 0, u64::MAX as int);
    let disk_mb = number_setting(disk, 40_960, 0, u64::MAX as int);
    if cpu == CpuSetting::Invalid {
        Err("GRIDOPS_TART_CPU_BUDGET is invalid"@)
    } else if memory_mb is None {
        Err("GRIDOPS_TART_MEMORY_BUDGET_MB is invalid"@)
    } else if max_runners is None {
        Err("GRIDOPS_TART_MAX_RUNNERS is invalid"@)
    } else if disk_mb is None {
        Err("GRIDOPS_TART_MIN_FREE_DISK_MB is invalid"@)
    } else if cpu_budget < CPU {
        Err("GRIDOPS_TART_CPU_BUDGET must be positive"@)
    } else if memory_mb->0 < 2_048 {
        Err("GRIDOPS_TART_MEMORY_BUDGET_MB is too small"@)
    } else if !(1 <= max_runners->0 <= 100) {
        Err("GRIDOPS_TART_MAX_RUNNERS must be 1-100"@)
    } else {
        Ok((cpu_budget, memory_mb->0, max_runners->0, disk_mb->0))
    }
}

/// The limits of the agent's host by its settings.
pub fn agent_limits(
    cpu: CpuSetting,
    memory: &Option<String>,
    runners: &Option<String>,
    disk: &Option<String>,
) -> (r: Result<AgentLimits, String>)
    ensures
        match agent_limits_for(cpu, text_option(*memory), text_option(*runners), text_option(*disk))
        {
            Ok(limits) => r is Ok && (
                r->Ok_0.cpu_budget as int,
                r->Ok_0.memory_budget_mb as int,
                r->Ok_0.max_runners as int,
                r->Ok_0.min_free_disk_mb as int,
            ) == limits,
            Err(message) => r is Err && r->Err_0@ == message,
        },
{
    let cpu_budget: i64 = match cpu {
        CpuSetting::Unset => 4 * CPU,
        CpuSetting::Invalid => {
            return Err("GRIDOPS_TART_CPU_BUDGET is invalid".to_owned());
        },
        CpuSetting::Nanos(nanos) => nanos,
    };
    let memory_budget_mb: i64 = match setting_i64(memory, 6_144) {
        Some(n) => n,
        None => {
            return Err("GRIDOPS_TART_MEMORY_BUDGET_MB is invalid".to_owned());
        },
    };
    let max_runners: u64 = match setting_u64(runners, 1) {
        Some(n) => n,
        None => {
            return Err("GRIDOPS_TART_MAX_RUNNERS is invalid".to_owned());
        },
    };
    let min_free_disk_mb: u64 = match setting_u64(disk, 40_960) {
        Some(n) => n,
        None => {
            return Err("GRIDOPS_TART_MIN_FREE_DISK_MB is invalid".to_owned());
        },
    };
    if cpu_budget < CPU {
        return Err("GRIDOPS_TART_CPU_BUDGET must be positive".to_owned());
    }
    if memory_budget_mb < 2_048 {
        return Err("GRIDOPS_TART_MEMORY_BUDGET_MB is too small".to_owned());
    }
    if max_runners < 1 || max_runners > 100 {
        return Err("GRIDOPS_TART_MAX_RUNNERS must be 1-100".to_owned());
    }
    Ok(
        AgentLimits {
            cpu_budget,
            memory_budget_mb,
            max_runners: max_runners as usize,
            min_free_disk_mb,
        },
    )
}

/// The token of the agent by its setting and by the contents of its file, or what is
/// wrong with it.
pub open spec fn token_for(setting: Option<Seq<char>>, file: Option<Seq<char>>) -> Result<
    Seq<char>,
    Seq<char>,
> {
    let token = if setting is Some && !blank(setting->0) {
        setting
    } else {
        match file {
            Some(text) => Some(trimmed(text)),
            None => None,
        }
    };
    match token {
        None => Err("GRIDOPS_TART_AGENT_TOKEN or GRIDOPS_TART_AGENT_TOKEN_FILE is required"@),
        Some(text) => if utf8_len(text) >= 32 {
            Ok(text)
        } else {
            Err("Tart agent token must be at least 32 characters"@)
        },
    }
}

/// The token of the agent: the one that is set, unless it is blank, or else the
/// contents of a file without the white space around them; at least 32 bytes.
pub fn agent_token(setting: Option<String>, file: Option<String>) -> (r: Result<String, String>)
    ensures
        match token_for(text_option(setting), text_option(file)) {
            Ok(token) => r is Ok && r->Ok_0@ == token,
            Err(message) => r is Err && r->Err_0@ == message,
        },
{
    let chosen: Option<String> = match setting {
        Some(text) => if is_blank(text.as_str()) {
            match file {
                Some(contents) => Some(trim(contents.as_str())),
                None => None,
            }
        } else {
            Some(text)
        },
        None => match file {
            Some(contents) => Some(trim(contents.as_str())),
            None => None,
        },
    };
    match chosen {
        None => Err(
            "GRIDOPS_TART_AGENT_TOKEN or GRIDOPS_TART_AGENT_TOKEN_FILE is required".to_owned(),
        ),
        Some(token) => if byte_len(token.as_str()) >= 32 {
            Ok(token)
        } else {
            Err("Tart agent token must be at least 32 characters".to_owned())
        },
    }
}

// ---------------------------------------------------------------------------
// Runners

/// A request to start a runner. The processor limit is in billionths of a
/// processor, and zero where it is not a number.
#[derive(Debug)]
pub struct TartProvision {
    pub runner_id: String,
    pub pool_id: String,
    pub name: String,
    pub image: String,
    pub mode: String,
    pub provider: String,
    pub jit_config: Option<String>,
    pub cpu_limit: i64,
    pub memory_limit_mb: i64,
}

/// A runner that the agent has started.
#[derive(Debug)]
pub struct TartRecord {
    pub id: String,
    pub runner_id: String,
    pub pool_id: String,
    pub name: String,
    pub vm_name: String,
    pub image: String,
    pub cpu_limit: i64,
    pub memory_limit_mb: i64,
    pub created_at: String,
}

/// A virtual machine of the host.
#[derive(Debug)]
pub struct TartVm {
    pub name: String,
    pub state: String,
}

impl TartProvision {
    /// What is wrong with the request, if anything is.
    pub open spec fn error(&self) -> Option<AgentErrorView> {
        if self.provider@ != "tart"@ || self.mode@ != "ephemeral"@ {
            Some(
                AgentErrorView::BadRequest(
                    "The Tart provider supports ephemeral macOS runners only."@,
                ),
            )
        } else if self.runner_id@.len() == 0 || utf8_len(self.runner_id@) > 128
            || self.pool_id@.len() == 0 || utf8_len(self.pool_id@) > 128 || !runner_name_ok(
            self.name@,
        ) || blank(self.image@) || utf8_len(self.image@) > 512 {
            Some(AgentErrorView::BadRequest("Runner identity or Tart image is invalid."@))
        } else if !(self.jit_config is Some && one_line(self.jit_config->0@, 20, 900_000)) {
            Some(AgentErrorView::BadRequest("Runner JIT configuration is invalid."@))
        } else if self.cpu_limit <= 0 || self.cpu_limit % CPU != 0 || self.memory_limit_mb <= 0 {
            Some(
                AgentErrorView::BadRequest(
                    "Tart runners require whole CPU cores and positive memory."@,
                ),
            )
        } else {
            None
        }
    }

    /// Checks the request.
    pub fn validate(&self) -> (r: Result<(), AgentError>)
        ensures
            agent_refuses(r, self.error()),
    {
        if !same(self.provider.as_str(), "tart") || !same(self.mode.as_str(), "ephemeral") {
            return Err(
                AgentError::BadRequest(
                    "The Tart provider supports ephemeral macOS runners only.".to_owned(),
                ),
            );
        }
        if self.runner_id.as_str().is_empty() || byte_len(self.runner_id.as_str()) > 128
            || self.pool_id.as_str().is_empty() || byte_len(self.pool_id.as_str()) > 128
            || !valid_name(self.name.as_str()) || is_blank(self.image.as_str()) || byte_len(
            self.image.as_str(),
        ) > 512 {
            return Err(
                AgentError::BadRequest("Runner identity or Tart image is invalid.".to_owned()),
            );
        }
        let complete: bool = match &self.jit_config {
            Some(value) => byte_len(value.as_str()) >= 20 && byte_len(value.as_str()) <= 900_000
                && !has_line_break(value.as_str()),
            None => false,
        };
        if !complete {
            return Err(
                AgentError::BadRequest("Runner JIT configuration is invalid.".to_owned()),
            );
        }
        if self.cpu_limit <= 0 || self.cpu_limit % CPU != 0 || self.memory_limit_mb <= 0 {
            return Err(
                AgentError::BadRequest(
                    "Tart runners require whole CPU cores and positive memory.".to_owned(),
                ),
            );
        }
        Ok(())
    }
}

/// The state of the virtual machine of a name: the last one listed.
pub open spec fn vm_state(vms: Seq<TartVm>, name: Seq<char>) -> Option<Seq<char>>
    decreases vms.len(),
{
    if vms.len() == 0 {
        None
    } else if vms.last().name@ == name {
        Some(vms.last().state@)
    } else {
        vm_state(vms.drop_last(), name)
    }
}

/// The state of the virtual machine of a name.
pub fn find_vm<'a>(vms: &'a [TartVm], name: &str) -> (r: Option<&'a str>)
    ensures
        crate::config::str_option(r) == vm_state(vms@, name@),
{
    let mut k: usize = vms.len();
    proof {
        assert(vms@.take(k as int) =~= vms@);
    }
    while k > 0
        invariant
            k <= vms@.len(),
            vm_state(vms@.take(k as int), name@) == vm_state(vms@, name@),
        decreases k,
    {
        proof {
            let here = vms@.take(k as int);
            assert(here.last() == vms@[k - 1]);
            assert(here.drop_last() =~= vms@.take(k - 1));
        }
        if same(vms[k - 1].name.as_str(), name) {
            return Some(vms[k - 1].state.as_str());
        }
        k -= 1;
    }
    None
}

/// The state of a runner by that of its virtual machine.
pub open spec fn runtime_state(state: Option<Seq<char>>) -> Seq<char> {
    if state == Some("running"@) {
        "running"@
    } else if state == Some("suspended"@) {
        "paused"@
    } else if state == Some("stopped"@) {
        "exited"@
    } else {
        "missing"@
    }
}

/// The state of a runner by that of its virtual machine.
pub fn runner_state(state: Option<&str>) -> (r: &'static str)
    ensures
        r@ == runtime_state(crate::config::str_option(state)),
{
    match state {
        None => "missing",
        Some(state) => if same(state, "running") {
            "running"
        } else if same(state, "suspended") {
            "paused"
        } else if same(state, "stopped") {
            "exited"
        } else {
            "missing"
        },
    }
}

/// A virtual machine in this state takes up capacity.
pub open spec fn active_vm(state: Option<Seq<char>>) -> bool {
    state == Some("running"@) || state == Some("suspended"@)
}

/// What the runners of the host use.
pub open spec fn records_usage(records: Seq<TartRecord>, vms: Seq<TartVm>) -> CapacityUsage
    decreases records.len(),
{
    if records.len() == 0 {
        CapacityUsage { active_runners: 0, cpu: 0, memory_mb: 0 }
    } else {
        let before = records_usage(records.drop_last(), vms);
        let record = records.last();
        if active_vm(vm_state(vms, record.vm_name@)) {
            used_together(
                before,
                CapacityUsage {
                    active_runners: 1,
                    cpu: record.cpu_limit,
                    memory_mb: record.memory_limit_mb,
                },
            )
        } else {
            before
        }
    }
}

/// What the runners of the host use.
pub fn active_capacity(records: &[TartRecord], vms: &[TartVm]) -> (r: CapacityUsage)
    ensures
        r == records_usage(records@, vms@),
{
    let mut usage: CapacityUsage = CapacityUsage { active_runners: 0, cpu: 0, memory_mb: 0 };
    let mut i: usize = 0;
    while i < records.len()
        invariant
            i <= records@.len(),
            usage == records_usage(records@.take(i as int), vms@),
        decreases records@.len() - i,
    {
        proof {
            let next = records@.take(i + 1);
            assert(next.drop_last() =~= records@.take(i as int));
            assert(next.last() == records@[i as int]);
        }
        let active: bool = match find_vm(vms, records[i].vm_name.as_str()) {
            Some(state) => same(state, "running") || same(state, "suspended"),
            None => false,
        };
        if active {
            usage = combine_usage(
                usage,
                CapacityUsage {
                    active_runners: 1,
                    cpu: records[i].cpu_limit,
                    memory_mb: records[i].memory_limit_mb,
                },
            );
        }
        i += 1;
    }
    proof {
        assert(records@.take(records@.len() as int) =~= records@);
    }
    usage
}

/// The disk of the agent's host by the report of `df -Pk`.
pub fn tart_disk_capacity(limits: &AgentLimits, output: &str) -> (r: Result<
    DiskCapacity,
    AgentError,
>)
    ensures
        ({
            let rows = filled_lines(lines_of(output@));
            if rows.len() < 2 {
                r is Err && r->Err_0@ == AgentErrorView::Internal(
                    "Tart disk capacity was invalid"@,
                )
            } else if column_number(rows[1], 1) is None {
                r is Err && r->Err_0@ == AgentErrorView::Internal(
                    "Tart total disk capacity was invalid"@,
                )
            } else if column_number(rows[1], 3) is None {
                r is Err && r->Err_0@ == AgentErrorView::Internal(
                    "Tart available disk capacity was invalid"@,
                )
            } else {
                r is Ok && r->Ok_0.total_mb == column_number(rows[1], 1)->0 / 1_024
                    && r->Ok_0.available_mb == column_number(rows[1], 3)->0 / 1_024
                    && r->Ok_0.minimum_free_mb == limits.min_free_disk_mb
            }
        }),
{
    let filled: Vec<String> = nonblank_lines(output);
    if filled.len() < 2 {
        return Err(AgentError::Internal("Tart disk capacity was invalid".to_owned()));
    }
    let row: Vec<String> = words(filled[1].as_str());
    proof {
        assert(texts(filled@)[1] == filled@[1]@);
        assert(texts(row@).len() == row@.len());
        if row@.len() > 1 {
            assert(texts(row@)[1] == row@[1]@);
        }
        if row@.len() > 3 {
            assert(texts(row@)[3] == row@[3]@);
        }
    }
    let total: u64 = match column(&row, 1) {
        Some(n) => n,
        None => {
            return Err(AgentError::Internal("Tart total disk capacity was invalid".to_owned()));
        },
    };
    let available: u64 = match column(&row, 3) {
        Some(n) => n,
        None => {
            return Err(
                AgentError::Internal("Tart available disk capacity was invalid".to_owned()),
            );
        },
    };
    Ok(
        DiskCapacity {
            total_mb: total / 1_024,
            available_mb: available / 1_024,
            minimum_free_mb: limits.min_free_disk_mb,
        },
    )
}

/// The whole processors nearest to an amount in billionths; of two that are
/// equally near, the even one.
pub open spec fn whole_cpus_text(nanos: int) -> Seq<char> {
    let n = if nanos < 0 {
        -nanos
    } else {
        nanos
    };
    let whole = n / 1_000_000_000;
    let rest = n % 1_000_000_000;
    let rounded = if rest > 500_000_000 || (rest == 500_000_000 && whole % 2 == 1) {
        whole + 1
    } else {
        whole
    };
    if nanos < 0 {
        "-"@ + decimal(rounded as nat)
    } else {
        decimal(rounded as nat)
    }
}

fn format_whole_cpus(nanos: i64) -> (r: String)
    ensures
        r@ == whole_cpus_text(nanos as int),
{
    let n: u64 = if nanos >= 0 {
        nanos as u64
    } else if nanos == i64::MIN {
        9_223_372_036_854_775_808u64
    } else {
        (-nanos) as u64
    };
    let whole: u64 = n / 1_000_000_000;
    let rest: u64 = n % 1_000_000_000;
    let rounded: u64 = if rest > 500_000_000 || (rest == 500_000_000 && whole % 2 == 1) {
        whole + 1
    } else {
        whole
    };
    let text: String = decimal_u64(rounded);
    if nanos < 0 {
        concat("-", text.as_str())
    } else {
        text
    }
}

/// Why a runner is refused, if it is.
pub open spec fn tart_refusal(
    limits: AgentLimits,
    active: CapacityUsage,
    disk: DiskCapacity,
    cpu: i64,
    memory_mb: i64,
) -> Option<AgentErrorView> {
    if disk.available_mb < disk.minimum_free_mb {
        Some(
            AgentErrorView::Guardrail {
                code: "host_disk_guardrail"@,
                message: "Tart provisioning stopped because only "@ + decimal(
                    disk.available_mb as nat,
                ) + " MB disk space remains; "@ + decimal(disk.minimum_free_mb as nat)
                    + " MB is reserved."@,
            },
        )
    } else if count_saturated(active.active_runners + 1) > limits.max_runners || saturated(
        active.cpu + cpu,
    ) > limits.cpu_budget || saturated(active.memory_mb + memory_mb) > limits.memory_budget_mb {
        Some(
            AgentErrorView::Guardrail {
                code: "host_capacity_exhausted"@,
                message: "Tart host budget would be exceeded (active: "@ + decimal(
                    active.active_runners as nat,
                ) + " runners, "@ + whole_cpus_text(active.cpu as int) + " CPU, "@
                    + signed_decimal(active.memory_mb as int) + " MB; requested: "@
                    + whole_cpus_text(cpu as int) + " CPU, "@ + signed_decimal(memory_mb as int)
                    + " MB)."@,
            },
        )
    } else {
        None
    }
}

/// Refuses a runner that the host has no room for.
pub fn enforce_tart_capacity(
    limits: &AgentLimits,
    active: CapacityUsage,
    disk: DiskCapacity,
    cpu: i64,
    memory_mb: i64,
) -> (r: Result<(), AgentError>)
    ensures
        agent_refuses(r, tart_refusal(*limits, active, disk, cpu, memory_mb)),
{
    if disk.available_mb < disk.minimum_free_mb {
        return Err(
            AgentError::Guardrail {
                code: "host_disk_guardrail",
                message: concat5(
                    "Tart provisioning stopped because only ",
                    decimal_u64(disk.available_mb).as_str(),
                    " MB disk space remains; ",
                    decimal_u64(disk.minimum_free_mb).as_str(),
                    " MB is reserved.",
                ),
            },
        );
    }
    if active.active_runners.saturating_add(1) > limits.max_runners || sum_saturated(
        active.cpu,
        cpu,
    ) > limits.cpu_budget || sum_saturated(active.memory_mb, memory_mb)
        > limits.memory_budget_mb {
        let mut message: String = concat5(
            "Tart host budget would be exceeded (active: ",
            decimal_usize(active.active_runners).as_str(),
            " runners, ",
            format_whole_cpus(active.cpu).as_str(),
            " CPU, ",
        );
        message.append(decimal_i64(active.memory_mb).as_str());
        message.append(" MB; requested: ");
        message.append(format_whole_cpus(cpu).as_str());
        message.append(" CPU, ");
        message.append(decimal_i64(memory_mb).as_str());
        message.append(" MB).");
        return Err(AgentError::Guardrail { code: "host_capacity_exhausted", message });
    }
    Ok(())
}

/// A runner that is admitted fits the budgets of the host.
pub proof fn admitted_machines_fit_the_host(
    limits: AgentLimits,
    active: CapacityUsage,
    disk: DiskCapacity,
    cpu: i64,
    memory_mb: i64,
)
    requires
        tart_refusal(limits, active, disk, cpu, memory_mb) is None,
        limits.max_runners < usize::MAX,
        limits.cpu_budget < i64::MAX,
        limits.memory_budget_mb < i64::MAX,
    ensures
        active.active_runners + 1 <= limits.max_runners,
        active.cpu + cpu <= limits.cpu_budget,
        active.memory_mb + memory_mb <= limits.memory_budget_mb,
        disk.available_mb >= disk.minimum_free_mb,
{
}

/// One of the runners has this name.
pub open spec fn name_in_use(records: Seq<TartRecord>, name: Seq<char>) -> bool {
    exists|i: int| 0 <= i < records.len() && (#[trigger] records[i]).name@ == name
}

/// The virtual machine of a runner.
pub open spec fn vm_name_of(name: Seq<char>) -> Seq<char> {
    "gridops-"@ + name
}

/// Why a runner is not started, if it is not.
pub open spec fn tart_admission(
    input: TartProvision,
    limits: AgentLimits,
    records: Seq<TartRecord>,
    vms: Seq<TartVm>,
    disk: DiskCapacity,
) -> Option<AgentErrorView> {
    let refused = tart_refusal(
        limits,
        records_usage(records, vms),
        disk,
        input.cpu_limit,
        input.memory_limit_mb,
    );
    if refused is Some {
        refused
    } else if name_in_use(records, input.name@) {
        Some(AgentErrorView::Conflict("A Tart runner with this name already exists."@))
    } else if vm_state(vms, vm_name_of(input.name@)) is Some {
        Some(AgentErrorView::Conflict("The Tart VM name is already in use."@))
    } else {
        None
    }
}

/// Decides whether a checked request is carried out, and makes the record of the
/// runner that it starts.
pub fn admit_tart_runner(
    input: &TartProvision,
    limits: &AgentLimits,
    records: &[TartRecord],
    vms: &[TartVm],
    disk: DiskCapacity,
    uuid: &str,
    created_at: &str,
) -> (r: Result<TartRecord, AgentError>)
    ensures
        match tart_admission(*input, *limits, records@, vms@, disk) {
            Some(error) => r is Err && r->Err_0@ == error,
            None => {
                &&& r is Ok
                &&& r->Ok_0.id@ == "tart-"@ + uuid@
                &&& r->Ok_0.runner_id@ == input.runner_id@
                &&& r->Ok_0.pool_id@ == input.pool_id@
                &&& r->Ok_0.name@ == input.name@
                &&& r->Ok_0.vm_name@ == vm_name_of(input.name@)
                &&& r->Ok_0.image@ == input.image@
                &&& r->Ok_0.cpu_limit == input.cpu_limit
                &&& r->Ok_0.memory_limit_mb == input.memory_limit_mb
                &&& r->Ok_0.created_at@ == created_at@
            },
        },
{
    let active: CapacityUsage = active_capacity(records, vms);
    if let Err(error) = enforce_tart_capacity(
        limits,
        active,
        disk,
        input.cpu_limit,
        input.memory_limit_mb,
    ) {
        return Err(error);
    }
    let mut i: usize = 0;
    while i < records.len()
        invariant
            i <= records@.len(),
            forall|k: int| 0 <= k < i ==> (#[trigger] records@[k]).name@ != input.name@,
            tart_refusal(
                *limits,
                records_usage(records@, vms@),
                disk,
                input.cpu_limit,
                input.memory_limit_mb,
            ) is None,
        decreases records@.len() - i,
    {
        if same(records[i].name.as_str(), input.name.as_str()) {
            return Err(
                AgentError::Conflict("A Tart runner with this name already exists.".to_owned()),
            );
        }
        i += 1;
    }
    let vm_name: String = concat("gridops-", input.name.as_str());
    if find_vm(vms, vm_name.as_str()).is_some() {
        return Err(AgentError::Conflict("The Tart VM name is already in use.".to_owned()));
    }
    Ok(
        TartRecord {
            id: concat("tart-", uuid),
            runner_id: input.runner_id.clone(),
            pool_id: input.pool_id.clone(),
            name: input.name.clone(),
            vm_name,
            image: input.image.clone(),
            cpu_limit: input.cpu_limit,
            memory_limit_mb: input.memory_limit_mb,
            created_at: created_at.to_owned(),
        },
    )
}

// ---------------------------------------------------------------------------
// Starting a machine

/// What is done next to start a machine.
#[derive(Debug, Clone, Copy, PartialEq, Eq, Structural)]
pub enum MachineStep {
    Clone,
    Configure,
    Persist,
    Start,
    AwaitGuest,
    StartRunner,
    CleanUp,
    Running,
    Failed,
}

/// The step after a step that succeeded or failed. Whatever fails, the machine
/// and its record are cleaned up.
pub open spec fn machine_following(step: MachineStep, succeeded: bool) -> MachineStep {
    match step {
        MachineStep::CleanUp => MachineStep::Failed,
        MachineStep::Failed => MachineStep::Failed,
        MachineStep::Running => MachineStep::Running,
        _ => if !succeeded {
            MachineStep::CleanUp
        } else {
            match step {
                MachineStep::Clone => MachineStep::Configure,
                MachineStep::Configure => MachineStep::Persist,
                MachineStep::Persist => MachineStep::Start,
                MachineStep::Start => MachineStep::AwaitGuest,
                MachineStep::AwaitGuest => MachineStep::StartRunner,
                _ => MachineStep::Running,
            }
        },
    }
}

/// The step after a step that succeeded or failed.
pub fn next_machine_step(step: MachineStep, succeeded: bool) -> (r: MachineStep)
    ensures
        r == machine_following(step, succeeded),
{
    match step {
        MachineStep::CleanUp => MachineStep::Failed,
        MachineStep::Failed => MachineStep::Failed,
        MachineStep::Running => MachineStep::Running,
        _ => if !succeeded {
            MachineStep::CleanUp
        } else {
            match step {
                MachineStep::Clone => MachineStep::Configure,
                MachineStep::Configure => MachineStep::Persist,
                MachineStep::Persist => MachineStep::Start,
                MachineStep::Start => MachineStep::AwaitGuest,
                MachineStep::AwaitGuest => MachineStep::StartRunner,
                _ => MachineStep::Running,
            }
        },
    }
}

/// A start that fails has always cleaned up before.
pub proof fn failed_machines_are_cleaned_up(step: MachineStep, succeeded: bool)
    requires
        machine_following(step, succeeded) == MachineStep::Failed,
        step != MachineStep::Failed,
    ensures
        step == MachineStep::CleanUp,
{
}

/// What is done after asking whether a guest is ready.
#[derive(Debug, Clone, Copy, PartialEq, Eq, Structural)]
pub enum GuestPoll {
    Ready,
    TimedOut,
    Wait,
}

/// What is done after asking whether a guest is ready.
pub open spec fn polled(ready: bool, now: i64, deadline: i64) -> GuestPoll {
    if ready {
        GuestPoll::Ready
    } else if now >= deadline {
        GuestPoll::TimedOut
    } else {
        GuestPoll::Wait
    }
}

/// What is done after asking whether a guest is ready: it is asked until the
/// deadline.
pub fn poll_guest(ready: bool, now: i64, deadline: i64) -> (r: GuestPoll)
    ensures
        r == polled(ready, now, deadline),
{
    if ready {
        GuestPoll::Ready
    } else if now >= deadline {
        GuestPoll::TimedOut
    } else {
        GuestPoll::Wait
    }
}

/// The script that a virtual machine runs. The credential is no part of it.
pub fn runner_script(runner_root: &str) -> (r: String)
    ensures
        r@ == MACOS_HEAD@ + runner_root@ + MACOS_TAIL@,
{
    concat3(MACOS_HEAD, runner_root, MACOS_TAIL)
}

/// The arguments with which a virtual machine is run.
pub open spec fn arguments_for(mode: NetworkMode, vm_name: Seq<char>) -> Seq<Seq<char>> {
    if mode == NetworkMode::Softnet {
        seq![
            "run"@,
            "--no-graphics"@,
            "--no-audio"@,
            "--no-clipboard"@,
            "--net-softnet"@,
            vm_name,
        ]
    } else {
        seq!["run"@, "--no-graphics"@, "--no-audio"@, "--no-clipboard"@, vm_name]
    }
}

/// The arguments with which a virtual machine is run.
pub fn run_arguments(mode: NetworkMode, vm_name: &str) -> (r: Vec<String>)
    ensures
        texts(r@) == arguments_for(mode, vm_name@),
{
    let mut out: Vec<String> = Vec::new();
    out.push("run".to_owned());
    out.push("--no-graphics".to_owned());
    out.push("--no-audio".to_owned());
    out.push("--no-clipboard".to_owned());
    if mode == NetworkMode::Softnet {
        out.push("--net-softnet".to_owned());
    }
    out.push(vm_name.to_owned());
    proof {
        if mode == NetworkMode::Softnet {
            assert(texts(out@) =~= seq![
                "run"@,
                "--no-graphics"@,
                "--no-audio"@,
                "--no-clipboard"@,
                "--net-softnet"@,
                vm_name@,
            ]);
        } else {
            assert(texts(out@) =~= seq![
                "run"@,
                "--no-graphics"@,
                "--no-audio"@,
                "--no-clipboard"@,
                vm_name@,
            ]);
        }
    }
    out
}

// ---------------------------------------------------------------------------
// Controlling machines

/// The position of a record, or why there is none.
pub fn find_record(records: &[TartRecord], id: &str) -> (r: Result<usize, AgentError>)
    ensures
        match r {
            Ok(i) => tart_id_ok(id@) && i < records@.len() && records@[i as int].id@ == id@
                && forall|k: int| 0 <= k < i ==> (#[trigger] records@[k]).id@ != id@,
            Err(error) => if !tart_id_ok(id@) {
                error@ == AgentErrorView::BadRequest("Tart runner identifier is invalid."@)
            } else {
                error@ == AgentErrorView::NotFound("Managed Tart runner was not found."@)
                    && forall|k: int| 0 <= k < records@.len() ==> (#[trigger] records@[k]).id@ != id@
            },
        },
{
    if !valid_id(id) {
        return Err(AgentError::BadRequest("Tart runner identifier is invalid.".to_owned()));
    }
    let mut i: usize = 0;
    while i < records.len()
        invariant
            i <= records@.len(),
            forall|k: int| 0 <= k < i ==> (#[trigger] records@[k]).id@ != id@,
            tart_id_ok(id@),
        decreases records@.len() - i,
    {
        if same(records[i].id.as_str(), id) {
            return Ok(i);
        }
        i += 1;
    }
    Err(AgentError::NotFound("Managed Tart runner was not found.".to_owned()))
}

/// Why nothing is done to a machine, if nothing is.
pub open spec fn machine_action_error(action: Seq<char>) -> Option<AgentErrorView> {
    if action == "stop"@ {
        None
    } else if action == "start"@ || action == "restart"@ || action == "pause"@ || action
        == "resume"@ {
        Some(
            AgentErrorView::Conflict(
                "Ephemeral Tart runners cannot be restarted or suspended; rebuild the runner instead."@,
            ),
        )
    } else {
        Some(AgentErrorView::BadRequest("Runner action is invalid."@))
    }
}

/// Decides what is done to a machine: it can only be stopped.
pub fn control_machine(action: &str) -> (r: Result<(), AgentError>)
    ensures
        agent_refuses(r, machine_action_error(action@)),
{
    if same(action, "stop") {
        Ok(())
    } else if same(action, "start") || same(action, "restart") || same(action, "pause") || same(
        action,
        "resume",
    ) {
        Err(
            AgentError::Conflict(
                "Ephemeral Tart runners cannot be restarted or suspended; rebuild the runner instead."
                    .to_owned(),
            ),
        )
    } else {
        Err(AgentError::BadRequest("Runner action is invalid.".to_owned()))
    }
}

// ---------------------------------------------------------------------------
// Logs

/// The position behind the line feed that has `n` line feeds behind it; the
/// start where there are no more than `n`.
pub open spec fn tail_start(bytes: Seq<u8>, n: nat) -> int
    decreases bytes.len(),
{
    if bytes.len() == 0 {
        0
    } else if bytes.last() != 10 {
        tail_start(bytes.drop_last(), n)
    } else if n == 0 {
        bytes.len() as int
    } else {
        tail_start(bytes.drop_last(), (n - 1) as nat)
    }
}

/// The lines that are asked for: 500 where the text is no number.
pub open spec fn tail_lines(tail: Seq<char>) -> nat {
    match parsed_nat(tail) {
        Some(n) => if n <= u64::MAX {
            n
        } else {
            500
        },
        None => 500,
    }
}

/// The part of a log that is asked for.
pub open spec fn log_tail_of(bytes: Seq<u8>, tail: Seq<char>) -> Seq<u8> {
    if tail == "all"@ {
        bytes
    } else if tail_lines(tail) == 0 {
        Seq::empty()
    } else {
        bytes.skip(tail_start(bytes, tail_lines(tail)))
    }
}

/// The part of a log that is asked for: all of it, or its last lines.
pub fn read_log_tail(bytes: Vec<u8>, tail: &str) -> (r: Vec<u8>)
    ensures
        r@ == log_tail_of(bytes@, tail@),
{
    if same(tail, "all") {
        return bytes;
    }
    let lines: u64 = match parse_u64(tail) {
        Some(n) => n,
        None => 500,
    };
    if lines == 0 {
        return Vec::new();
    }
    let mut left: u64 = lines;
    let mut at: usize = bytes.len();
    let mut found: bool = false;
    proof {
        assert(bytes@.take(at as int) =~= bytes@);
    }
    while at > 0 && !found
        invariant
            at <= bytes@.len(),
            found ==> tail_start(bytes@, lines as nat) == at,
            !found ==> tail_start(bytes@.take(at as int), left as nat) == tail_start(
                bytes@,
                lines as nat,
            ),
        decreases
            at,
            if found {
                0nat
            } else {
                1nat
            },
    {
        proof {
            let here = bytes@.take(at as int);
            assert(here.last() == bytes@[at - 1]);
            assert(here.drop_last() =~= bytes@.take(at - 1));
        }
        if bytes[at - 1] != 10 {
            at -= 1;
        } else if left == 0 {
            found = true;
        } else {
            left -= 1;
            at -= 1;
        }
    }
    let mut out: Vec<u8> = Vec::new();
    let mut i: usize = at;
    while i < bytes.len()
        invariant
            at <= i <= bytes@.len(),
            out@ == bytes@.subrange(at as int, i as int),
        decreases bytes@.len() - i,
    {
        out.push(bytes[i]);
        i += 1;
        proof {
            assert(out@ =~= bytes@.subrange(at as int, i as int));
        }
    }
    proof {
        assert(bytes@.subrange(at as int, bytes@.len() as int) =~= bytes@.skip(at as int));
    }
    out
}

/// The number of line feeds of a row of bytes.
pub open spec fn line_feeds(bytes: Seq<u8>) -> nat
    decreases bytes.len(),
{
    if bytes.len() == 0 {
        0
    } else {
        line_feeds(bytes.drop_last()) + if bytes.last() == 10 {
            1nat
        } else {
            0nat
        }
    }
}

proof fn lemma_tail_start(bytes: Seq<u8>, n: nat)
    ensures
        0 <= tail_start(bytes, n) <= bytes.len(),
        line_feeds(bytes) == line_feeds(bytes.take(tail_start(bytes, n))) + line_feeds(
            bytes.skip(tail_start(bytes, n)),
        ),
        line_feeds(bytes.skip(tail_start(bytes, n))) <= n,
        tail_start(bytes, n) > 0 ==> bytes[tail_start(bytes, n) - 1] == 10 && line_feeds(
            bytes.skip(tail_start(bytes, n)),
        ) == n,
    decreases bytes.len(),
{
    let at = tail_start(bytes, n);
    if bytes.len() == 0 {
        assert(bytes.take(0) =~= bytes);
        assert(bytes.skip(0) =~= bytes);
    } else if bytes.last() == 10 && n == 0 {
        assert(bytes.take(at) =~= bytes);
        assert(bytes.skip(at) =~= Seq::<u8>::empty());
    } else {
        let front = bytes.drop_last();
        let m: nat = if bytes.last() == 10 {
            (n - 1) as nat
        } else {
            n
        };
        lemma_tail_start(front, m);
        assert(front.take(at) =~= bytes.take(at));
        assert(bytes.skip(at).drop_last() =~= front.skip(at));
        assert(bytes.skip(at).last() == bytes.last());
    }
}

/// What is shown of a log are whole lines from its end: it begins at the start
/// of the log or behind a line feed, has no more finished lines than were asked
/// for, and exactly as many where the log has more.
pub proof fn log_tails_are_whole_lines(bytes: Seq<u8>, n: nat)
    ensures
        0 <= tail_start(bytes, n) <= bytes.len(),
        tail_start(bytes, n) > 0 ==> bytes[tail_start(bytes, n) - 1] == 10,
        line_feeds(bytes.skip(tail_start(bytes, n))) <= n,
        tail_start(bytes, n) > 0 ==> line_feeds(bytes.skip(tail_start(bytes, n))) == n,
{
    lemma_tail_start(bytes, n);
}

// ---------------------------------------------------------------------------
// What the agent lets through

/// A machine is admitted exactly if the disk has its reserve and the machine, with those
/// that run, stays within the number of runners, the processors and the memory of the host.
pub proof fn machines_are_admitted_where_they_fit(
    limits: AgentLimits,
    active: CapacityUsage,
    disk: DiskCapacity,
    cpu: i64,
    memory_mb: i64,
)
    requires
        active.active_runners < usize::MAX,
        i64::MIN <= active.cpu + cpu <= i64::MAX,
        i64::MIN <= active.memory_mb + memory_mb <= i64::MAX,
    ensures
        tart_refusal(limits, active, disk, cpu, memory_mb) is None <==> {
            &&& disk.available_mb >= disk.minimum_free_mb
            &&& active.active_runners + 1 <= limits.max_runners
            &&& active.cpu + cpu <= limits.cpu_budget
            &&& active.memory_mb + memory_mb <= limits.memory_budget_mb
        },
        disk.available_mb < disk.minimum_free_mb ==> tart_refusal(
            limits,
            active,
            disk,
            cpu,
            memory_mb,
        )->0->Guardrail_code == "host_disk_guardrail"@,
        disk.available_mb >= disk.minimum_free_mb && tart_refusal(
            limits,
            active,
            disk,
            cpu,
            memory_mb,
        ) is Some ==> tart_refusal(limits, active, disk, cpu, memory_mb)->0->Guardrail_code
            == "host_capacity_exhausted"@,
{
}

/// A machine that runs or is suspended takes up its processors and its memory; one that was
/// stopped, or is gone, takes up nothing.
pub proof fn only_machines_that_run_take_up_capacity(
    records: Seq<TartRecord>,
    vms: Seq<TartVm>,
    one: TartRecord,
)
    requires
        records_usage(records, vms).active_runners < usize::MAX,
        i64::MIN <= records_usage(records, vms).cpu + one.cpu_limit <= i64::MAX,
        i64::MIN <= records_usage(records, vms).memory_mb + one.memory_limit_mb <= i64::MAX,
    ensures
        ({
            let before = records_usage(records, vms);
            let after = records_usage(records.push(one), vms);
            let state = vm_state(vms, one.vm_name@);
            if state == Some("running"@) || state == Some("suspended"@) {
                &&& after.active_runners == before.active_runners + 1
                &&& after.cpu == before.cpu + one.cpu_limit
                &&& after.memory_mb == before.memory_mb + one.memory_limit_mb
            } else {
                after == before
            }
        }),
{
    assert(records.push(one).drop_last() =~= records);
}

/// The state of a machine is that of the last entry of its name.
pub proof fn machines_are_found_by_their_name(vms: Seq<TartVm>, name: Seq<char>, k: int)
    requires
        0 <= k < vms.len(),
        vms[k].name@ == name,
        forall|j: int| k < j < vms.len() ==> (#[trigger] vms[j]).name@ != name,
    ensures
        vm_state(vms, name) == Some(vms[k].state@),
    decreases vms.len(),
{
    if k < vms.len() - 1 {
        let front = vms.drop_last();
        assert(vms[vms.len() - 1].name@ != name);
        assert forall|j: int| k < j < front.len() implies (#[trigger] front[j]).name@ != name by {
            assert(front[j] == vms[j]);
        }
        machines_are_found_by_their_name(front, name, k);
    }
}

/// A runner is what its machine is: it runs, is paused while the machine is suspended, has
/// ended when the machine was stopped, and is missing otherwise.
pub proof fn runners_are_what_their_machines_are()
    ensures
        runtime_state(Some("running"@)) == "running"@,
        runtime_state(Some("suspended"@)) == "paused"@,
        runtime_state(Some("stopped"@)) == "exited"@,
        runtime_state(None) == "missing"@,
{
    reveal_strlit("running");
    reveal_strlit("suspended");
    reveal_strlit("stopped");
    assert("running"@[0] == 'r' && "suspended"@[1] == 'u' && "stopped"@[1] == 't'
        && "suspended"@[0] == 's' && "stopped"@[0] == 's');
}

/// No two machines share a name: a runner is not started under the name of another one, nor
/// where a machine of its name is there already.
pub proof fn names_of_machines_are_used_once(
    input: TartProvision,
    limits: AgentLimits,
    records: Seq<TartRecord>,
    vms: Seq<TartVm>,
    disk: DiskCapacity,
    i: int,
)
    ensures
        0 <= i < records.len() && records[i].name@ == input.name@ ==> tart_admission(
            input,
            limits,
            records,
            vms,
            disk,
        ) is Some,
        vm_state(vms, "gridops-"@ + input.name@) is Some ==> tart_admission(
            input,
            limits,
            records,
            vms,
            disk,
        ) is Some,
        tart_admission(input, limits, records, vms, disk) is None ==> tart_refusal(
            limits,
            records_usage(records, vms),
            disk,
            input.cpu_limit,
            input.memory_limit_mb,
        ) is None,
        tart_refusal(
            limits,
            records_usage(records, vms),
            disk,
            input.cpu_limit,
            input.memory_limit_mb,
        ) is None && (forall|k: int|
            0 <= k < records.len() ==> (#[trigger] records[k]).name@ != input.name@) && vm_state(
            vms,
            "gridops-"@ + input.name@,
        ) is None ==> tart_admission(input, limits, records, vms, disk) is None,
{
    if 0 <= i < records.len() && records[i].name@ == input.name@ {
        assert(name_in_use(records, input.name@));
    }
}

/// A request to the agent is in order exactly if it is for Tart and for one job, names its
/// runner, its pool and its image, has the configuration of the job, and asks for whole
/// processors and some memory.
pub proof fn machine_requests_in_order(input: TartProvision)
    ensures
        input.error() is None <==> {
            &&& input.provider@ == "tart"@
            &&& input.mode@ == "ephemeral"@
            &&& input.runner_id@.len() > 0 && utf8_len(input.runner_id@) <= 128
            &&& input.pool_id@.len() > 0 && utf8_len(input.pool_id@) <= 128
            &&& runner_name_ok(input.name@)
            &&& !blank(input.image@) && utf8_len(input.image@) <= 512
            &&& input.jit_config is Some && 20 <= utf8_len(input.jit_config->0@) <= 900_000
                && !input.jit_config->0@.contains('\n') && !input.jit_config->0@.contains('\r')
            &&& input.cpu_limit > 0
            &&& input.cpu_limit % 1_000_000_000 == 0
            &&& input.memory_limit_mb > 0
        },
{
}

/// The name of a runner is a part of a path and of a command, and can leave neither; a path
/// in a machine is absolute and has nothing in it that a shell would read otherwise.
pub proof fn names_and_paths_hold_nothing_special(name: Seq<char>, path: Seq<char>)
    ensures
        runner_name_ok(name) ==> 1 <= name.len() <= 96 && !name.contains('/') && !name.contains('.')
            && !name.contains(' ') && !name.contains('\'') && !name.contains('$'),
        guest_path_ok(path) ==> 1 <= path.len() <= 512 && path[0] == '/' && !path.contains(' ')
            && !path.contains('\'') && !path.contains('"') && !path.contains('$')
            && !path.contains(';') && !path.contains('`'),
{
    if runner_name_ok(name) {
        assert forall|i: int| 0 <= i < name.len() implies name[i] != '/' && name[i] != '.'
            && name[i] != ' ' && name[i] != '\'' && name[i] != '$' by {
            assert(alphanumeric(name[i]) || name[i] == '-' || name[i] == '_');
        }
    }
    if guest_path_ok(path) {
        assert forall|i: int| 0 <= i < path.len() implies path[i] != ' ' && path[i] != '\''
            && path[i] != '"' && path[i] != '$' && path[i] != ';' && path[i] != '`' by {
            assert(alphanumeric(path[i]) || path[i] == '/' || path[i] == '-' || path[i] == '_'
                || path[i] == '.');
        }
    }
}

/// The limits of the agent's host are those that are set; where nothing is set it has four
/// processors, 6 GB of memory, one machine at a time, and keeps 40 GB of its disk free. A
/// host without a whole processor, with less than 2 GB, or with no machine or more than a
/// hundred is refused.
pub proof fn the_agent_keeps_to_its_settings(
    cpu: CpuSetting,
    memory: int,
    runners: int,
    disk: int,
)
    requires
        i64::MIN <= memory <= i64::MAX,
        0 <= runners <= u64::MAX,
        0 <= disk <= u64::MAX,
    ensures
        agent_limits_for(CpuSetting::Unset, None, None, None) == Ok::<
            (int, int, int, int),
            Seq<char>,
        >((4_000_000_000, 6_144, 1, 40_960)),
        agent_limits_for(CpuSetting::Invalid, None, None, None) is Err,
        cpu is Nanos ==> (agent_limits_for(
            cpu,
            Some(signed_decimal(memory)),
            Some(signed_decimal(runners)),
            Some(signed_decimal(disk)),
        ) is Ok <==> cpu->Nanos_0 >= 1_000_000_000 && memory >= 2_048 && 1 <= runners <= 100),
        cpu is Nanos && cpu->Nanos_0 >= 1_000_000_000 && memory >= 2_048 && 1 <= runners <= 100
            ==> agent_limits_for(
            cpu,
            Some(signed_decimal(memory)),
            Some(signed_decimal(runners)),
            Some(signed_decimal(disk)),
        )->Ok_0 == (cpu->Nanos_0 as int, memory, runners, disk),
{
    settings_hold_what_is_written(memory, 6_144, Seq::empty());
    settings_hold_what_is_written(runners, 1, Seq::empty());
    settings_hold_what_is_written(disk, 40_960, Seq::empty());
}

/// Starting a machine takes its steps in order, and it runs only after its runner was
/// started in it; whatever step fails, the machine is cleaned up.
pub proof fn machines_take_their_steps_in_order(step: MachineStep, succeeded: bool)
    ensures
        ({
            let next = machine_following(step, succeeded);
            &&& next == MachineStep::Configure ==> step == MachineStep::Clone && succeeded
            &&& next == MachineStep::Persist ==> step == MachineStep::Configure && succeeded
            &&& next == MachineStep::Start ==> step == MachineStep::Persist && succeeded
            &&& next == MachineStep::AwaitGuest ==> step == MachineStep::Start && succeeded
            &&& next == MachineStep::StartRunner ==> step == MachineStep::AwaitGuest && succeeded
            &&& next == MachineStep::Running ==> step == MachineStep::Running || (step
                == MachineStep::StartRunner && succeeded)
            &&& !succeeded && step != MachineStep::Running && step != MachineStep::Failed && step
                != MachineStep::CleanUp ==> next == MachineStep::CleanUp
            &&& step == MachineStep::CleanUp ==> next == MachineStep::Failed
            &&& succeeded && step == MachineStep::Clone ==> next == MachineStep::Configure
            &&& succeeded && step == MachineStep::StartRunner ==> next == MachineStep::Running
        }),
{
}

/// All of a log is shown where that is asked for, nothing of it where no lines are, and the
/// whole log where it has no more lines than are asked for.
pub proof fn log_tails_show_what_is_asked_for(bytes: Seq<u8>, n: nat)
    requires
        n <= u64::MAX,
    ensures
        log_tail_of(bytes, "all"@) == bytes,
        log_tail_of(bytes, decimal(0)).len() == 0,
        n > 0 ==> log_tail_of(bytes, decimal(n)) == bytes.skip(tail_start(bytes, n)),
        n > 0 && line_feeds(bytes) <= n ==> log_tail_of(bytes, decimal(n)) == bytes,
{
    decimal_reads_back(n);
    decimal_reads_back(0);
    lemma_decimal_value(n);
    lemma_decimal_value(0);
    reveal_strlit("all");
    assert("all"@[0] == 'a');
    assert(digit(decimal(n)[0]) && digit(decimal(0)[0]));
    if line_feeds(bytes) <= n {
        lemma_short_log(bytes, n);
        assert(bytes.skip(0) =~= bytes);
    }
}

proof fn lemma_short_log(bytes: Seq<u8>, n: nat)
    requires
        line_feeds(bytes) <= n,
    ensures
        tail_start(bytes, n) == 0,
    decreases bytes.len(),
{
    if bytes.len() > 0 {
        if bytes.last() != 10 {
            lemma_short_log(bytes.drop_last(), n);
        } else {
            lemma_short_log(bytes.drop_last(), (n - 1) as nat);
        }
    }
}

/// The answer to a failed request has the status of its reason, and tells nothing of what
/// went wrong inside.
pub proof fn the_agent_answers_with_its_reason(message: Seq<char>, other: Seq<char>)
    ensures
        agent_answer(AgentErrorView::Unauthorized) == (401u16, "unauthorized"@, "Unauthorized"@),
        agent_answer(AgentErrorView::BadRequest(message)) == (400u16, "bad_request"@, message),
        agent_answer(AgentErrorView::Conflict(message)) == (409u16, "conflict"@, message),
        agent_answer(AgentErrorView::NotFound(message)) == (404u16, "not_found"@, message),
        agent_answer(AgentErrorView::Guardrail { code: other, message }) == (
            429u16,
            other,
            message,
        ),
        agent_answer(AgentErrorView::Internal(message)) == agent_answer(
            AgentErrorView::Internal(other),
        ),
        agent_answer(AgentErrorView::Internal(message)) == (
            500u16,
            "internal_error"@,
            "Tart agent request failed."@,
        ),
{
}

/// Machines are kept apart from the network of their host unless it is set otherwise, and run
/// without a screen, sound or clipboard of the host, under their own name.
pub proof fn machines_are_isolated(vm_name: Seq<char>, word: Seq<char>)
    ensures
        network_named(None) == Some(NetworkMode::Softnet),
        lower(word) == "softnet"@ ==> network_named(Some(word)) == Some(NetworkMode::Softnet),
        lower(word) == "nat"@ ==> network_named(Some(word)) == Some(NetworkMode::Nat),
        lower(word) != "softnet"@ && lower(word) != "nat"@ ==> network_named(Some(word)) is None,
        arguments_for(NetworkMode::Softnet, vm_name).contains("--net-softnet"@),
        arguments_for(NetworkMode::Softnet, vm_name).contains("--no-clipboard"@),
        arguments_for(NetworkMode::Nat, vm_name).contains("--no-clipboard"@),
        arguments_for(NetworkMode::Nat, vm_name).len() == 5,
        forall|mode: NetworkMode|
            #![trigger arguments_for(mode, vm_name)]
            arguments_for(mode, vm_name).last() == vm_name && arguments_for(mode, vm_name)[0]
                == "run"@,
        vm_name_of(word) == "gridops-"@ + word,
{
    reveal_strlit("softnet");
    reveal_strlit("nat");
    assert("softnet"@[0] == 's' && "nat"@[0] == 'n');
    assert(lower("softnet"@) =~= "softnet"@);
    assert(arguments_for(NetworkMode::Softnet, vm_name)[4] == "--net-softnet"@);
    assert(arguments_for(NetworkMode::Softnet, vm_name)[3] == "--no-clipboard"@);
    assert(arguments_for(NetworkMode::Nat, vm_name)[3] == "--no-clipboard"@);
}

/// The agent's token is the one that is set, or else that of its file without the white space
/// around it, and has at least 32 bytes.
pub proof fn tokens_of_the_agent_are_long(setting: Seq<char>, file: Option<Seq<char>>)
    ensures
        !blank(setting) ==> (token_for(Some(setting), file) is Ok <==> utf8_len(setting) >= 32),
        !blank(setting) && utf8_len(setting) >= 32 ==> token_for(Some(setting), file)->Ok_0
            == setting,
        blank(setting) ==> token_for(Some(setting), file) == token_for(None, file),
        token_for(None, None) is Err,
        file is Some ==> (token_for(None, file) is Ok <==> utf8_len(trimmed(file->0)) >= 32),
        file is Some && utf8_len(trimmed(file->0)) >= 32 ==> token_for(None, file)->Ok_0 == trimmed(
            file->0,
        ),
{
}

/// A machine is for one job: it can be stopped, and nothing else can be done to it. Its guest is
/// asked until it is ready or the deadline has come.
pub proof fn machines_are_only_stopped(action: Seq<char>, now: i64, deadline: i64)
    ensures
        machine_action_error("stop"@) is None,
        action != "stop"@ ==> machine_action_error(action) is Some,
        action == "start"@ || action == "restart"@ || action == "pause"@ || action == "resume"@
            ==> machine_action_error(action)->0 is Conflict,
        polled(true, now, deadline) == GuestPoll::Ready,
        now < deadline ==> polled(false, now, deadline) == GuestPoll::Wait,
        now >= deadline ==> polled(false, now, deadline) == GuestPoll::TimedOut,
{
    reveal_strlit("stop");
    reveal_strlit("start");
    reveal_strlit("restart");
    reveal_strlit("pause");
    reveal_strlit("resume");
    assert("stop"@.len() == 4 && "start"@.len() == 5 && "restart"@.len() == 7 && "pause"@.len()
        == 5 && "resume"@.len() == 6);
}

/// Processors are told in whole ones: the nearest, and of two that are equally near the even
/// one.
pub proof fn whole_processors_are_the_nearest(n: nat)
    requires
        n <= 9_000_000_000,
    ensures
        whole_cpus_text(n as int * 1_000_000_000) == decimal(n),
        whole_cpus_text(n as int * 1_000_000_000 + 499_999_999) == decimal(n),
        whole_cpus_text(n as int * 1_000_000_000 + 500_000_001) == decimal(n + 1),
        n % 2 == 0 ==> whole_cpus_text(n as int * 1_000_000_000 + 500_000_000) == decimal(n),
        n % 2 == 1 ==> whole_cpus_text(n as int * 1_000_000_000 + 500_000_000) == decimal(n + 1),
{
}

/// The agent refuses as expected exactly if it refuses with the error that is expected, and
/// accepts where none is.
pub proof fn the_agent_refuses_as_expected(
    result: Result<(), AgentError>,
    error: AgentErrorView,
)
    ensures
        agent_refuses(result, None) <==> result is Ok,
        agent_refuses(result, Some(error)) <==> result is Err && result->Err_0@ == error,
{
}

}
