//! The capacity of a runner host: its limits, its disk, the leases that are
//! outstanding, and whether one more runner is admitted.
use vstd::prelude::*;

use crate::manager_error::{ManagerError, ManagerErrorView};
use crate::models::CPU;
use crate::numbers::{
    decimal, decimal_i64, decimal_reads_back, decimal_u64, decimal_usize, digit_char, digits_value,
    larger, lemma_decimal_value, max, min, parse_i64, parse_u64, parsed_int, parsed_nat,
    product_saturated, saturated, signed_decimal, signed_decimal_reads_back, smaller, sum_saturated,
};
use crate::search::{blank, is_blank, lines, lines_of, words, words_of};
use crate::text::{
    alphanumeric, chars_of, concat, concat3, concat5, digit, is_alphanumeric, string_range,
    text_option, texts, whitespace,
};

verus! {

// ---------------------------------------------------------------------------
// Names and sizes

/// A name that Docker takes: letters, digits, full stops, underscores and
/// hyphens, 1 to 128 of them.
pub open spec fn docker_name_ok(value: Seq<char>) -> bool {
    &&& 0 < value.len() <= 128
    &&& forall|i: int|
        0 <= i < value.len() ==> alphanumeric(#[trigger] value[i]) || value[i] == '.' || value[i]
            == '_' || value[i] == '-'
}

/// Whether a name is one that Docker takes.
pub fn valid_docker_name(value: &str) -> (r: bool)
    ensures
        r == docker_name_ok(value@),
{
    let a: Vec<char> = chars_of(value);
    if a.len() == 0 || a.len() > 128 {
        return false;
    }
    let mut i: usize = 0;
    while i < a.len()
        invariant
            i <= a@.len(),
            a@ == value@,
            forall|k: int|
                0 <= k < i ==> alphanumeric(#[trigger] value@[k]) || value@[k] == '.' || value@[k]
                    == '_' || value@[k] == '-',
        decreases a@.len() - i,
    {
        if !(is_alphanumeric(a[i]) || a[i] == '.' || a[i] == '_' || a[i] == '-') {
            proof {
                assert(!alphanumeric(value@[i as int]));
            }
            return false;
        }
        i += 1;
    }
    true
}

/// A size of log files: a positive number and one of the letters `k`, `m`, `g`.
pub open spec fn log_size_ok(value: Seq<char>) -> bool {
    &&& value.len() > 0
    &&& value.last() == 'k' || value.last() == 'm' || value.last() == 'g'
    &&& parsed_nat(value.drop_last()) is Some
    &&& 0 < parsed_nat(value.drop_last())->0 <= u64::MAX
}

/// Whether a text is a size of log files.
pub fn valid_log_size(value: &str) -> (r: bool)
    ensures
        r == log_size_ok(value@),
{
    let a: Vec<char> = chars_of(value);
    if a.len() == 0 {
        return false;
    }
    let suffix: char = a[a.len() - 1];
    if suffix != 'k' && suffix != 'm' && suffix != 'g' {
        return false;
    }
    let number: String = string_range(a.as_slice(), 0, a.len() - 1);
    proof {
        assert(number@ =~= value@.drop_last());
    }
    match parse_u64(number.as_str()) {
        Some(size) => size > 0,
        None => false,
    }
}

// ---------------------------------------------------------------------------
// The limits of a host

/// The limits of a runner host. Processors are counted in billionths.
#[derive(Debug)]
pub struct ManagerLimits {
    pub available_cpus: i64,
    pub total_memory_mb: i64,
    pub cpu_budget: i64,
    pub memory_budget_mb: i64,
    pub max_runners: usize,
    pub min_free_disk_mb: u64,
    pub min_free_disk_percent: u64,
    pub runner_network: String,
    pub log_max_size: String,
    pub log_max_files: u64,
    pub runner_pids_limit: i64,
}

/// The processor budget that is set, in billionths of a processor.
#[derive(Debug, Clone, Copy, PartialEq, Eq, Structural)]
pub enum CpuSetting {
    Unset,
    Invalid,
    Nanos(i64),
}

/// The settings of the limits, as far as they are set.
#[derive(Debug)]
pub struct LimitSettings {
    pub cpu_budget: CpuSetting,
    pub memory_budget_mb: Option<String>,
    pub max_runners: Option<String>,
    pub min_free_disk_mb: Option<String>,
    pub min_free_disk_percent: Option<String>,
    pub runner_pids_limit: Option<String>,
    pub log_max_size: Option<String>,
    pub log_max_files: Option<String>,
    pub runner_network: Option<String>,
}

/// A setting that is a number: its default where it is not set or blank, nothing
/// where it is not a number between the bounds of its type.
pub open spec fn number_setting(
    value: Option<Seq<char>>,
    default: int,
    low: int,
    high: int,
) -> Option<int> {
    match value {
        None => Some(default),
        Some(text) => if blank(text) {
            Some(default)
        } else {
            match if low < 0 {
                parsed_int(text)
            } else {
                match parsed_nat(text) {
                    Some(n) => Some(n as int),
                    None => None,
                }
            } {
                Some(n) => if low <= n <= high {
                    Some(n)
                } else {
                    None
                },
                None => None,
            }
        },
    }
}

pub(crate) fn setting_i64(value: &Option<String>, default: i64) -> (r: Option<i64>)
    ensures
        match r {
            Some(n) => number_setting(
                text_option(*value),
                default as int,
                i64::MIN as int,
                i64::MAX as int,
            ) == Some(n as int),
            None => number_setting(
                text_option(*value),
                default as int,
                i64::MIN as int,
                i64::MAX as int,
            ) is None,
        },
{
    match value {
        None => Some(default),
        Some(text) => if is_blank(text.as_str()) {
            Some(default)
        } else {
            parse_i64(text.as_str())
        },
    }
}

pub(crate) fn setting_u64(value: &Option<String>, default: u64) -> (r: Option<u64>)
    ensures
        match r {
            Some(n) => number_setting(text_option(*value), default as int, 0, u64::MAX as int)
                == Some(n as int),
            None => number_setting(text_option(*value), default as int, 0, u64::MAX as int) is None,
        },
{
    match value {
        None => Some(default),
        Some(text) => if is_blank(text.as_str()) {
            Some(default)
        } else {
            parse_u64(text.as_str())
        },
    }
}

/// The whole processors of a host: at least one.
pub open spec fn whole_cpus(reported: i64) -> int {
    larger(reported as int, 1)
}

/// The memory of a host in megabytes: at least 512.
pub open spec fn whole_memory(bytes: i64) -> int {
    larger(
        if bytes < 0 {
            0
        } else {
            bytes as int / 1_048_576
        },
        512,
    )
}

/// The processors, in billionths, that runners may use where nothing is set:
/// three quarters of the host's, in whole processors, at least one.
pub open spec fn default_cpu_budget(cpus: int) -> int {
    saturated(larger(3 * cpus / 4, 1) * CPU)
}

/// The memory that runners may use where nothing is set: three quarters of the
/// host's, at least 512 MB.
pub open spec fn default_memory_budget(memory_mb: int) -> int {
    larger(memory_mb * 3 / 4, 512)
}

/// The number of runners where nothing is set: as many as fit with two
/// processors and 2048 MB each, at least one.
pub open spec fn default_max_runners(cpu_budget: int, memory_budget_mb: int) -> int {
    larger(smaller(cpu_budget / (2 * CPU), memory_budget_mb / 2_048), 1)
}

/// The values of the limits.
pub struct LimitsView {
    pub available_cpus: int,
    pub total_memory_mb: int,
    pub cpu_budget: int,
    pub memory_budget_mb: int,
    pub max_runners: int,
    pub min_free_disk_mb: int,
    pub min_free_disk_percent: int,
    pub runner_network: Seq<char>,
    pub log_max_size: Seq<char>,
    pub log_max_files: int,
    pub runner_pids_limit: int,
}

impl View for ManagerLimits {
    type V = LimitsView;

    open spec fn view(&self) -> LimitsView {
        LimitsView {
            available_cpus: self.available_cpus as int,
            total_memory_mb: self.total_memory_mb as int,
            cpu_budget: self.cpu_budget as int,
            memory_budget_mb: self.memory_budget_mb as int,
            max_runners: self.max_runners as int,
            min_free_disk_mb: self.min_free_disk_mb as int,
            min_free_disk_percent: self.min_free_disk_percent as int,
            runner_network: self.runner_network@,
            log_max_size: self.log_max_size@,
            log_max_files: self.log_max_files as int,
            runner_pids_limit: self.runner_pids_limit as int,
        }
    }
}

/// The limits of a host with given settings, or what is wrong with them.
pub open spec fn limits_for(cpus: i64, memory_bytes: i64, s: LimitSettings) -> Result<
    LimitsView,
    Seq<char>,
> {
    let available = saturated(whole_cpus(cpus) * CPU);
    let total = whole_memory(memory_bytes);
    let cpu_budget = match s.cpu_budget {
        CpuSetting::Nanos(nanos) => nanos as int,
        _ => default_cpu_budget(whole_cpus(cpus)),
    };
    let memory = number_setting(
        text_option(s.memory_budget_mb),
        default_memory_budget(total),
        i64::MIN as int,
        i64::MAX as int,
    );
    let runners = number_setting(
        text_option(s.max_runners),
        default_max_runners(cpu_budget, memory->0),
        0,
        u64::MAX as int,
    );
    let disk = number_setting(text_option(s.min_free_disk_mb), 25_600, 0, u64::MAX as int);
    let percent = number_setting(text_option(s.min_free_disk_percent), 15, 0, u64::MAX as int);
    let pids = number_setting(
        text_option(s.runner_pids_limit),
        1_024,
        i64::MIN as int,
        i64::MAX as int,
    );
    let size = match s.log_max_size {
        Some(text) => text@,
        None => "20m"@,
    };
    let files = number_setting(text_option(s.log_max_files), 5, 0, u64::MAX as int);
    let network = match s.runner_network {
        Some(text) => text@,
        None => "gridops-runners"@,
    };
    if s.cpu_budget == CpuSetting::Invalid {
        Err("GRIDOPS_RUNNER_CPU_BUDGET is invalid"@)
    } else if memory is None {
        Err("GRIDOPS_RUNNER_MEMORY_BUDGET_MB is invalid"@)
    } else if !(0 < cpu_budget <= available) {
        Err(
            "GRIDOPS_RUNNER_CPU_BUDGET must be positive and no greater than the Docker host CPU count"@,
        )
    } else if !(256 <= memory->0 <= total) {
        Err("GRIDOPS_RUNNER_MEMORY_BUDGET_MB must be between 256 MB and Docker host memory"@)
    } else if runners is None {
        Err("GRIDOPS_MAX_MANAGED_RUNNERS is invalid"@)
    } else if !(1 <= runners->0 <= 1_000) {
        Err("GRIDOPS_MAX_MANAGED_RUNNERS must be between 1 and 1000"@)
    } else if disk is None {
        Err("GRIDOPS_MIN_FREE_DISK_MB is invalid"@)
    } else if percent is None {
        Err("GRIDOPS_MIN_FREE_DISK_PERCENT is invalid"@)
    } else if percent->0 > 95 {
        Err("GRIDOPS_MIN_FREE_DISK_PERCENT must be between 0 and 95"@)
    } else if pids is None {
        Err("GRIDOPS_RUNNER_PIDS_LIMIT is invalid"@)
    } else if !(64 <= pids->0 <= 32_768) {
        Err("GRIDOPS_RUNNER_PIDS_LIMIT must be between 64 and 32768"@)
    } else if !log_size_ok(size) {
        Err("GRIDOPS_RUNNER_LOG_MAX_SIZE must use Docker's positive k, m, or g size syntax"@)
    } else if files is None {
        Err("GRIDOPS_RUNNER_LOG_MAX_FILES is invalid"@)
    } else if !(1 <= files->0 <= 100) {
        Err("GRIDOPS_RUNNER_LOG_MAX_FILES must be between 1 and 100"@)
    } else if !docker_name_ok(network) {
        Err("GRIDOPS_RUNNER_NETWORK is invalid"@)
    } else {
        Ok(
            LimitsView {
                available_cpus: available,
                total_memory_mb: total,
                cpu_budget,
                memory_budget_mb: memory->0,
                max_runners: runners->0,
                min_free_disk_mb: disk->0,
                min_free_disk_percent: percent->0,
                runner_network: network,
                log_max_size: size,
                log_max_files: files->0,
                runner_pids_limit: pids->0,
            },
        )
    }
}

fn text_setting(value: &Option<String>, default: &str) -> (r: String)
    ensures
        r@ == match *value {
            Some(text) => text@,
            None => default@,
        },
{
    match value {
        Some(text) => text.clone(),
        None => default.to_owned(),
    }
}

fn refuse_limits(message: &str) -> (r: Result<ManagerLimits, String>)
    ensures
        r is Err,
        r->Err_0@ == message@,
{
    Err(message.to_owned())
}

impl ManagerLimits {
    /// The limits of a host from what Docker reports of it and from the
    /// settings.
    pub fn from_environment(
        available_cpus: i64,
        total_memory_bytes: i64,
        settings: &LimitSettings,
    ) -> (r: Result<ManagerLimits, String>)
        ensures
            match limits_for(available_cpus, total_memory_bytes, *settings) {
                Ok(limits) => r is Ok && r->Ok_0@ == limits,
                Err(message) => r is Err && r->Err_0@ == message,
            },
    {
        let cpus: i64 = max(available_cpus, 1);
        let available: i64 = product_saturated(cpus, CPU);
        let total: i64 = max(
            if total_memory_bytes < 0 {
                0
            } else {
                total_memory_bytes / 1_048_576
            },
            512,
        );
        let usual_cpu: i64 = product_saturated(max(cpus / 4 * 3 + cpus % 4 * 3 / 4, 1), CPU);
        let usual_memory: i64 = max(total * 3 / 4, 512);
        let cpu_budget: i64 = match settings.cpu_budget {
            CpuSetting::Unset => usual_cpu,
            CpuSetting::Invalid => {
                return refuse_limits("GRIDOPS_RUNNER_CPU_BUDGET is invalid");
            },
            CpuSetting::Nanos(nanos) => nanos,
        };
        let memory_budget_mb: i64 = match setting_i64(&settings.memory_budget_mb, usual_memory) {
            Some(n) => n,
            None => {
                return refuse_limits("GRIDOPS_RUNNER_MEMORY_BUDGET_MB is invalid");
            },
        };
        if cpu_budget <= 0 || cpu_budget > available {
            return refuse_limits(
                "GRIDOPS_RUNNER_CPU_BUDGET must be positive and no greater than the Docker host CPU count",
            );
        }
        if memory_budget_mb < 256 || memory_budget_mb > total {
            return refuse_limits(
                "GRIDOPS_RUNNER_MEMORY_BUDGET_MB must be between 256 MB and Docker host memory",
            );
        }
        let usual_runners: i64 = max(min(cpu_budget / (2 * CPU), memory_budget_mb / 2_048), 1);
        let runners: u64 = match setting_u64(&settings.max_runners, usual_runners as u64) {
            Some(n) => n,
            None => {
                return refuse_limits("GRIDOPS_MAX_MANAGED_RUNNERS is invalid");
            },
        };
        if runners < 1 || runners > 1_000 {
            return refuse_limits("GRIDOPS_MAX_MANAGED_RUNNERS must be between 1 and 1000");
        }
        let min_free_disk_mb: u64 = match setting_u64(&settings.min_free_disk_mb, 25_600) {
            Some(n) => n,
            None => {
                return refuse_limits("GRIDOPS_MIN_FREE_DISK_MB is invalid");
            },
        };
        let min_free_disk_percent: u64 = match setting_u64(&settings.min_free_disk_percent, 15) {
            Some(n) => n,
            None => {
                return refuse_limits("GRIDOPS_MIN_FREE_DISK_PERCENT is invalid");
            },
        };
        if min_free_disk_percent > 95 {
            return refuse_limits("GRIDOPS_MIN_FREE_DISK_PERCENT must be between 0 and 95");
        }
        let runner_pids_limit: i64 = match setting_i64(&settings.runner_pids_limit, 1_024) {
            Some(n) => n,
            None => {
                return refuse_limits("GRIDOPS_RUNNER_PIDS_LIMIT is invalid");
            },
        };
        if runner_pids_limit < 64 || runner_pids_limit > 32_768 {
            return refuse_limits("GRIDOPS_RUNNER_PIDS_LIMIT must be between 64 and 32768");
        }
        let log_max_size: String = text_setting(&settings.log_max_size, "20m");
        if !valid_log_size(log_max_size.as_str()) {
            return refuse_limits(
                "GRIDOPS_RUNNER_LOG_MAX_SIZE must use Docker's positive k, m, or g size syntax",
            );
        }
        let log_max_files: u64 = match setting_u64(&settings.log_max_files, 5) {
            Some(n) => n,
            None => {
                return refuse_limits("GRIDOPS_RUNNER_LOG_MAX_FILES is invalid");
            },
        };
        if log_max_files < 1 || log_max_files > 100 {
            return refuse_limits("GRIDOPS_RUNNER_LOG_MAX_FILES must be between 1 and 100");
        }
        let runner_network: String = text_setting(&settings.runner_network, "gridops-runners");
        if !valid_docker_name(runner_network.as_str()) {
            return refuse_limits("GRIDOPS_RUNNER_NETWORK is invalid");
        }
        Ok(
            ManagerLimits {
                available_cpus: available,
                total_memory_mb: total,
                cpu_budget,
                memory_budget_mb,
                max_runners: runners as usize,
                min_free_disk_mb,
                min_free_disk_percent,
                runner_network,
                log_max_size,
                log_max_files,
                runner_pids_limit,
            },
        )
    }
}

/// Limits that were accepted stay within the host and let at least one runner
/// run.
pub proof fn accepted_limits_fit_the_host(cpus: i64, memory_bytes: i64, s: LimitSettings)
    requires
        limits_for(cpus, memory_bytes, s) is Ok,
    ensures
        ({
            let limits = limits_for(cpus, memory_bytes, s)->Ok_0;
            &&& 0 < limits.cpu_budget <= limits.available_cpus
            &&& 256 <= limits.memory_budget_mb <= limits.total_memory_mb
            &&& 1 <= limits.max_runners <= 1_000
            &&& limits.min_free_disk_percent <= 95
        }),
{
}

/// Without settings, a quarter of the processors and of the memory of a host of
/// at least two processors and 683 MB is kept back, as long as its processors can be
/// counted in billionths.
pub proof fn a_quarter_of_the_host_is_kept_back(cpus: i64, memory_bytes: i64)
    requires
        2 <= cpus <= 9_223_372_037,
        memory_bytes >= 716_177_408,
    ensures
        4 * default_cpu_budget(whole_cpus(cpus)) <= 3 * saturated(whole_cpus(cpus) * CPU),
        4 * default_memory_budget(whole_memory(memory_bytes)) <= 3 * whole_memory(memory_bytes),
{
}

// ---------------------------------------------------------------------------
// Disk space

/// The disk of a host, in megabytes.
#[derive(Debug, Clone, Copy, PartialEq, Eq, Structural)]
pub struct DiskCapacity {
    pub total_mb: u64,
    pub available_mb: u64,
    pub minimum_free_mb: u64,
}

/// The lines of a list that are not blank.
pub open spec fn filled_lines(list: Seq<Seq<char>>) -> Seq<Seq<char>>
    decreases list.len(),
{
    if list.len() == 0 {
        Seq::empty()
    } else {
        let before = filled_lines(list.drop_last());
        if blank(list.last()) {
            before
        } else {
            before.push(list.last())
        }
    }
}

/// The number in a column, counted from zero, of a row.
pub open spec fn column_number(row: Seq<char>, column: int) -> Option<nat> {
    if column < words_of(row).len() {
        match parsed_nat(words_of(row)[column]) {
            Some(n) => if n <= u64::MAX {
                Some(n)
            } else {
                None
            },
            None => None,
        }
    } else {
        None
    }
}

/// The total and the available megabytes in the report of `df -Pk`: the second
/// and the fourth column of its second line.
pub open spec fn df_capacity(output: Seq<char>) -> Option<(nat, nat)> {
    let rows = filled_lines(lines_of(output));
    if rows.len() < 2 || column_number(rows[1], 1) is None || column_number(rows[1], 3) is None {
        None
    } else {
        Some((column_number(rows[1], 1)->0 / 1_024, column_number(rows[1], 3)->0 / 1_024))
    }
}

pub(crate) fn column(row: &Vec<String>, at: usize) -> (r: Option<u64>)
    ensures
        match r {
            Some(n) => at < row@.len() && parsed_nat(row@[at as int]@) == Some(n as nat),
            None => at >= row@.len() || parsed_nat(row@[at as int]@) is None || parsed_nat(
                row@[at as int]@,
            )->0 > u64::MAX,
        },
{
    if at < row.len() {
        parse_u64(row[at].as_str())
    } else {
        None
    }
}

/// The lines of a report that are not blank.
pub(crate) fn nonblank_lines(output: &str) -> (r: Vec<String>)
    ensures
        texts(r@) == filled_lines(lines_of(output@)),
        r@.len() == filled_lines(lines_of(output@)).len(),
{
    let all: Vec<String> = lines(output);
    let ghost every = lines_of(output@);
    let mut filled: Vec<String> = Vec::new();
    let mut i: usize = 0;
    while i < all.len()
        invariant
            i <= all@.len(),
            every == texts(all@),
            texts(filled@) == filled_lines(every.take(i as int)),
        decreases all@.len() - i,
    {
        let ghost before = texts(filled@);
        proof {
            let next = every.take(i + 1);
            assert(next.drop_last() =~= every.take(i as int));
            assert(next.last() == all@[i as int]@);
        }
        if !is_blank(all[i].as_str()) {
            filled.push(all[i].clone());
            proof {
                assert(texts(filled@) =~= before.push(all@[i as int]@));
            }
        }
        i += 1;
    }
    proof {
        assert(every.take(every.len() as int) =~= every);
        assert(texts(filled@).len() == filled@.len());
    }
    filled
}

/// Reads the report of `df -Pk`.
pub fn parse_df_capacity(output: &str) -> (r: Option<(u64, u64)>)
    ensures
        match r {
            Some(found) => df_capacity(output@) == Some((found.0 as nat, found.1 as nat)),
            None => df_capacity(output@) is None,
        },
{
    let filled: Vec<String> = nonblank_lines(output);
    if filled.len() < 2 {
        return None;
    }
    let row: Vec<String> = words(filled[1].as_str());
    proof {
        assert(texts(filled@)[1] == filled@[1]@);
        assert(texts(row@).len() == row@.len());
        if row@.len() > 1 {
            assert(texts(row@)[1] == row@[1]@);
        }
        if row@.len() > 3 {
            assert(texts(row@)[3] == row@[3]@);
        }
    }
    match (column(&row, 1), column(&row, 3)) {
        (Some(total), Some(available)) => Some((total / 1_024, available / 1_024)),
        _ => None,
    }
}

/// The space that must stay free: the larger of the fixed amount and the part
/// of the disk that is set.
pub open spec fn free_floor(total_mb: u64, fixed_mb: int, percent: int) -> int {
    larger(fixed_mb, smaller(total_mb * percent, u64::MAX as int) / 100)
}

/// The disk of a host by the report of `df -Pk`.
pub fn disk_capacity(limits: &ManagerLimits, output: &str) -> (r: Result<
    DiskCapacity,
    ManagerError,
>)
    ensures
        match df_capacity(output@) {
            Some(found) => r is Ok && r->Ok_0.total_mb == found.0 && r->Ok_0.available_mb
                == found.1 && r->Ok_0.minimum_free_mb == free_floor(
                found.0 as u64,
                limits@.min_free_disk_mb,
                limits@.min_free_disk_percent,
            ),
            None => r is Err && r->Err_0@ == ManagerErrorView::Internal(
                "runner-host disk capacity was invalid"@,
            ),
        },
{
    match parse_df_capacity(output) {
        Some(found) => {
            let product: u64 = match found.0.checked_mul(limits.min_free_disk_percent) {
                Some(n) => n,
                None => u64::MAX,
            };
            let floor: u64 = product / 100;
            Ok(
                DiskCapacity {
                    total_mb: found.0,
                    available_mb: found.1,
                    minimum_free_mb: if limits.min_free_disk_mb >= floor {
                        limits.min_free_disk_mb
                    } else {
                        floor
                    },
                },
            )
        },
        None => Err(ManagerError::Internal("runner-host disk capacity was invalid".to_owned())),
    }
}

// ---------------------------------------------------------------------------
// Admission

/// What runners use: their number, their processors in billionths, and their
/// memory.
#[derive(Debug, Clone, Copy, PartialEq, Eq, Structural)]
pub struct CapacityUsage {
    pub active_runners: usize,
    pub cpu: i64,
    pub memory_mb: i64,
}

impl Default for CapacityUsage {
    fn default() -> (r: CapacityUsage)
        ensures
            r == (CapacityUsage { active_runners: 0, cpu: 0, memory_mb: 0 }),
    {
        CapacityUsage { active_runners: 0, cpu: 0, memory_mb: 0 }
    }
}

/// A count held at the end of its range.
pub open spec fn count_saturated(n: int) -> int {
    smaller(n, usize::MAX as int)
}

/// What two groups of runners use together.
pub open spec fn used_together(a: CapacityUsage, b: CapacityUsage) -> CapacityUsage {
    CapacityUsage {
        active_runners: count_saturated(a.active_runners + b.active_runners) as usize,
        cpu: saturated(a.cpu + b.cpu) as i64,
        memory_mb: saturated(a.memory_mb + b.memory_mb) as i64,
    }
}

/// What two groups of runners use together.
pub fn combine_usage(a: CapacityUsage, b: CapacityUsage) -> (r: CapacityUsage)
    ensures
        r == used_together(a, b),
{
    CapacityUsage {
        active_runners: a.active_runners.saturating_add(b.active_runners),
        cpu: sum_saturated(a.cpu, b.cpu),
        memory_mb: sum_saturated(a.memory_mb, b.memory_mb),
    }
}

/// 2^52 billions: from here on, an amount in billionths has the 53 binary digits of
/// a number in double precision before its billionths.
pub const PRECISE: u128 = 4_503_599_627_370_496_000_000_000;

/// An amount doubled until it has that many binary digits.
pub open spec fn doubled(amount: nat) -> nat
    decreases (if amount < PRECISE { PRECISE - amount } else { 0 }),
{
    if amount == 0 || amount >= PRECISE {
        amount
    } else {
        doubled(2 * amount)
    }
}

/// An amount in billionths is held in double precision by a larger number.
pub open spec fn held_above(nanos: nat) -> bool {
    let rest = doubled(nanos) % 1_000_000_000;
    rest > 500_000_000 || (rest == 500_000_000 && doubled(nanos) / 1_000_000_000 % 2 == 1)
}

/// An amount in billionths is held in double precision as it is.
pub open spec fn held_exactly(nanos: nat) -> bool {
    doubled(nanos) % 1_000_000_000 == 0
}

/// The processors, in hundredths, nearest to an amount in billionths. Where two are
/// equally near, the number in double precision decides that holds the amount, and
/// where that is the amount itself, it is the even one.
pub open spec fn hundredths(nanos: nat) -> nat {
    let whole = nanos / 10_000_000;
    let rest = nanos % 10_000_000;
    if rest > 5_000_000 || (rest == 5_000_000 && if held_exactly(nanos) {
        whole % 2 == 1
    } else {
        held_above(nanos)
    }) {
        whole + 1
    } else {
        whole
    }
}

/// Whether half a hundredth is rounded up.
fn rounds_half_up(nanos: u64, whole: u64) -> (r: bool)
    ensures
        r == if held_exactly(nanos as nat) {
            whole % 2 == 1
        } else {
            held_above(nanos as nat)
        },
{
    let mut amount: u128 = nanos as u128;
    while amount != 0 && amount < PRECISE
        invariant
            amount < 2 * PRECISE,
            doubled(amount as nat) == doubled(nanos as nat),
        decreases (if amount < PRECISE { PRECISE - amount } else { 0 }),
    {
        amount = 2 * amount;
    }
    let rest: u128 = amount % 1_000_000_000;
    if rest == 0 {
        whole % 2 == 1
    } else {
        rest > 500_000_000 || (rest == 500_000_000 && amount / 1_000_000_000 % 2 == 1)
    }
}

/// A number of hundredths with two decimals.
pub open spec fn two_decimals(n: nat) -> Seq<char> {
    decimal(n / 100) + "."@ + seq![digit_char((n / 10 % 10) as int), digit_char((n % 10) as int)]
}

/// Processors with two decimals.
pub open spec fn cpu_text(nanos: int) -> Seq<char> {
    if nanos < 0 {
        "-"@ + two_decimals(hundredths((-nanos) as nat))
    } else {
        two_decimals(hundredths(nanos as nat))
    }
}

/// Processors with two decimals.
pub fn format_cpus(nanos: i64) -> (r: String)
    ensures
        r@ == cpu_text(nanos as int),
{
    let magnitude: u64 = if nanos >= 0 {
        nanos as u64
    } else if nanos == i64::MIN {
        9_223_372_036_854_775_808u64
    } else {
        (-nanos) as u64
    };
    let whole: u64 = magnitude / 10_000_000;
    let rest: u64 = magnitude % 10_000_000;
    let n: u64 = if rest > 5_000_000 || (rest == 5_000_000 && rounds_half_up(magnitude, whole)) {
        whole + 1
    } else {
        whole
    };
    let mut digits: Vec<char> = Vec::new();
    digits.push((48u8 + (n / 10 % 10) as u8) as char);
    digits.push((48u8 + (n % 10) as u8) as char);
    let fraction: String = crate::text::string_of(digits.as_slice());
    proof {
        assert(fraction@ =~= seq![
            digit_char((n / 10 % 10) as int),
            digit_char((n % 10) as int),
        ]);
    }
    let text: String = concat3(decimal_u64(n / 100).as_str(), ".", fraction.as_str());
    if nanos < 0 {
        concat("-", text.as_str())
    } else {
        text
    }
}

/// The disk of the host has less space left than must stay free.
pub open spec fn disk_full(disk: DiskCapacity) -> bool {
    disk.available_mb < disk.minimum_free_mb
}

/// The refusal for want of disk space.
pub open spec fn disk_refusal(disk: DiskCapacity) -> ManagerErrorView {
    ManagerErrorView::Guardrail {
        code: "host_disk_guardrail"@,
        message: "Runner provisioning stopped because only "@ + decimal(disk.available_mb as nat)
            + " MB disk space remains; "@ + decimal(disk.minimum_free_mb as nat)
            + " MB is reserved."@,
    }
}

/// What would be used with one more request.
pub open spec fn projected(
    active: CapacityUsage,
    reserved: CapacityUsage,
    requested: CapacityUsage,
) -> CapacityUsage {
    used_together(used_together(active, reserved), requested)
}

/// Why a request is refused, if it is.
pub open spec fn refusal_of(
    limits: LimitsView,
    active: CapacityUsage,
    reserved: CapacityUsage,
    requested: CapacityUsage,
    disk: DiskCapacity,
) -> Option<ManagerErrorView> {
    let total = projected(active, reserved, requested);
    if disk_full(disk) {
        Some(disk_refusal(disk))
    } else if total.active_runners > limits.max_runners {
        Some(
            ManagerErrorView::Guardrail {
                code: "host_capacity_exhausted"@,
                message: "Host runner limit reached ("@ + decimal(total.active_runners as nat) + "/"@
                    + decimal(limits.max_runners as nat) + " including reservations)."@,
            },
        )
    } else if total.cpu > limits.cpu_budget {
        Some(
            ManagerErrorView::Guardrail {
                code: "host_capacity_exhausted"@,
                message: "Host CPU budget would be exceeded ("@ + cpu_text(total.cpu as int) + "/"@
                    + cpu_text(limits.cpu_budget) + " CPUs including reservations)."@,
            },
        )
    } else if total.memory_mb > limits.memory_budget_mb {
        Some(
            ManagerErrorView::Guardrail {
                code: "host_capacity_exhausted"@,
                message: "Host memory budget would be exceeded ("@ + signed_decimal(
                    total.memory_mb as int,
                ) + "/"@ + signed_decimal(limits.memory_budget_mb) + " MB including reservations)."@,
            },
        )
    } else {
        None
    }
}

/// A result that fails exactly with the given error, and succeeds without one.
pub open spec fn refuses_with(
    result: Result<(), ManagerError>,
    error: Option<ManagerErrorView>,
) -> bool {
    match error {
        Some(expected) => result is Err && result->Err_0@ == expected,
        None => result is Ok,
    }
}

fn disk_guardrail(disk: DiskCapacity) -> (r: ManagerError)
    ensures
        r@ == disk_refusal(disk),
{
    ManagerError::Guardrail {
        code: "host_disk_guardrail",
        message: concat5(
            "Runner provisioning stopped because only ",
            decimal_u64(disk.available_mb).as_str(),
            " MB disk space remains; ",
            decimal_u64(disk.minimum_free_mb).as_str(),
            " MB is reserved.",
        ),
    }
}

/// Refuses where the disk has less space left than must stay free.
pub fn ensure_disk_capacity(disk: DiskCapacity) -> (r: Result<(), ManagerError>)
    ensures
        refuses_with(
            r,
            if disk_full(disk) {
                Some(disk_refusal(disk))
            } else {
                None
            },
        ),
{
    if disk.available_mb < disk.minimum_free_mb {
        return Err(disk_guardrail(disk));
    }
    Ok(())
}

/// Refuses a request that the host has no room for.
pub fn enforce_capacity(
    limits: &ManagerLimits,
    active: CapacityUsage,
    reserved: CapacityUsage,
    requested: CapacityUsage,
    disk: DiskCapacity,
) -> (r: Result<(), ManagerError>)
    ensures
        refuses_with(r, refusal_of(limits@, active, reserved, requested, disk)),
{
    if disk.available_mb < disk.minimum_free_mb {
        return Err(disk_guardrail(disk));
    }
    let total: CapacityUsage = combine_usage(combine_usage(active, reserved), requested);
    if total.active_runners > limits.max_runners {
        return Err(
            ManagerError::Guardrail {
                code: "host_capacity_exhausted",
                message: concat5(
                    "Host runner limit reached (",
                    decimal_usize(total.active_runners).as_str(),
                    "/",
                    decimal_usize(limits.max_runners).as_str(),
                    " including reservations).",
                ),
            },
        );
    }
    if total.cpu > limits.cpu_budget {
        return Err(
            ManagerError::Guardrail {
                code: "host_capacity_exhausted",
                message: concat5(
                    "Host CPU budget would be exceeded (",
                    format_cpus(total.cpu).as_str(),
                    "/",
                    format_cpus(limits.cpu_budget).as_str(),
                    " CPUs including reservations).",
                ),
            },
        );
    }
    if total.memory_mb > limits.memory_budget_mb {
        return Err(
            ManagerError::Guardrail {
                code: "host_capacity_exhausted",
                message: concat5(
                    "Host memory budget would be exceeded (",
                    decimal_i64(total.memory_mb).as_str(),
                    "/",
                    decimal_i64(limits.memory_budget_mb).as_str(),
                    " MB including reservations).",
                ),
            },
        );
    }
    Ok(())
}

/// What is admitted stays within every limit of the host.
pub proof fn admitted_runners_fit_the_host(
    limits: LimitsView,
    active: CapacityUsage,
    reserved: CapacityUsage,
    requested: CapacityUsage,
    disk: DiskCapacity,
)
    requires
        refusal_of(limits, active, reserved, requested, disk) is None,
        limits.max_runners < usize::MAX,
        limits.cpu_budget < i64::MAX,
        limits.memory_budget_mb < i64::MAX,
        active.cpu >= 0 && reserved.cpu >= 0 && requested.cpu >= 0,
        active.memory_mb >= 0 && reserved.memory_mb >= 0 && requested.memory_mb >= 0,
    ensures
        active.active_runners + reserved.active_runners + requested.active_runners
            <= limits.max_runners,
        active.cpu + reserved.cpu + requested.cpu <= limits.cpu_budget,
        active.memory_mb + reserved.memory_mb + requested.memory_mb <= limits.memory_budget_mb,
        disk.available_mb >= disk.minimum_free_mb,
{
}

// ---------------------------------------------------------------------------
// What the guardrails keep

/// The space that must stay free is at least the fixed amount and at least the part of the
/// disk that is set, and no more than the larger of the two.
pub proof fn both_reserves_of_the_disk_are_kept(total_mb: u64, fixed_mb: int, percent: int)
    requires
        fixed_mb >= 0,
        percent >= 0,
        total_mb * percent <= u64::MAX,
    ensures
        free_floor(total_mb, fixed_mb, percent) >= fixed_mb,
        100 * (free_floor(total_mb, fixed_mb, percent) + 1) > total_mb * percent,
        free_floor(total_mb, fixed_mb, percent) == fixed_mb || 100 * free_floor(
            total_mb,
            fixed_mb,
            percent,
        ) <= total_mb * percent,
{
    assert(total_mb * percent >= 0) by (nonlinear_arith)
        requires
            total_mb >= 0,
            percent >= 0,
    ;
}

/// A larger disk, a larger part of it or a larger fixed amount never lowers the space that
/// must stay free.
pub proof fn reserves_grow_with_what_they_are_of(
    total_mb: u64,
    larger_mb: u64,
    fixed_mb: int,
    more_mb: int,
    percent: int,
    higher: int,
)
    requires
        total_mb <= larger_mb,
        0 <= fixed_mb <= more_mb,
        0 <= percent <= higher,
    ensures
        free_floor(total_mb, fixed_mb, percent) <= free_floor(larger_mb, more_mb, higher),
{
    assert(total_mb * percent <= larger_mb * higher) by (nonlinear_arith)
        requires
            0 <= total_mb <= larger_mb,
            0 <= percent <= higher,
    ;
}

/// Nothing is admitted on a disk with less than the larger reserve free: neither below the
/// fixed amount nor below the part of the disk that is set.
pub proof fn nothing_is_admitted_below_the_reserves(
    limits: LimitsView,
    active: CapacityUsage,
    reserved: CapacityUsage,
    requested: CapacityUsage,
    total_mb: u64,
    available_mb: u64,
)
    requires
        0 <= limits.min_free_disk_mb <= u64::MAX,
        limits.min_free_disk_percent >= 0,
        total_mb * limits.min_free_disk_percent <= u64::MAX,
        available_mb < limits.min_free_disk_mb || 100 * (available_mb + 1) <= total_mb
            * limits.min_free_disk_percent,
    ensures
        ({
            let disk = DiskCapacity {
                total_mb,
                available_mb,
                minimum_free_mb: free_floor(
                    total_mb,
                    limits.min_free_disk_mb,
                    limits.min_free_disk_percent,
                ) as u64,
            };
            let refusal = refusal_of(limits, active, reserved, requested, disk);
            &&& disk_full(disk)
            &&& refusal is Some
            &&& refusal->0 is Guardrail
            &&& refusal->0->Guardrail_code == "host_disk_guardrail"@
        }),
{
    both_reserves_of_the_disk_are_kept(
        total_mb,
        limits.min_free_disk_mb,
        limits.min_free_disk_percent,
    );
}

/// A host with room refuses nothing: where the disk has its reserve, and with the request
/// the runners, the processors and the memory stay within the limits, it is admitted.
pub proof fn what_fits_the_host_is_admitted(
    limits: LimitsView,
    active: CapacityUsage,
    reserved: CapacityUsage,
    requested: CapacityUsage,
    disk: DiskCapacity,
)
    requires
        active.cpu >= 0 && reserved.cpu >= 0 && requested.cpu >= 0,
        active.memory_mb >= 0 && reserved.memory_mb >= 0 && requested.memory_mb >= 0,
        disk.available_mb >= disk.minimum_free_mb,
        active.active_runners + reserved.active_runners + requested.active_runners
            <= limits.max_runners,
        active.cpu + reserved.cpu + requested.cpu <= limits.cpu_budget,
        active.memory_mb + reserved.memory_mb + requested.memory_mb <= limits.memory_budget_mb,
    ensures
        refusal_of(limits, active, reserved, requested, disk) is None,
{
}

/// What does not fit is refused for want of capacity, where the disk has its reserve: one
/// runner too many, or more processors or memory than the budgets hold.
pub proof fn what_does_not_fit_the_host_is_refused(
    limits: LimitsView,
    active: CapacityUsage,
    reserved: CapacityUsage,
    requested: CapacityUsage,
    disk: DiskCapacity,
)
    requires
        active.cpu >= 0 && reserved.cpu >= 0 && requested.cpu >= 0,
        active.memory_mb >= 0 && reserved.memory_mb >= 0 && requested.memory_mb >= 0,
        limits.max_runners < usize::MAX,
        limits.cpu_budget < i64::MAX,
        limits.memory_budget_mb < i64::MAX,
        disk.available_mb >= disk.minimum_free_mb,
        active.active_runners + reserved.active_runners + requested.active_runners
            > limits.max_runners || active.cpu + reserved.cpu + requested.cpu > limits.cpu_budget
            || active.memory_mb + reserved.memory_mb + requested.memory_mb
            > limits.memory_budget_mb,
    ensures
        ({
            let refusal = refusal_of(limits, active, reserved, requested, disk);
            &&& refusal is Some
            &&& refusal->0 is Guardrail
            &&& refusal->0->Guardrail_code == "host_capacity_exhausted"@
        }),
{
}

/// Two groups of runners use together what each uses.
pub proof fn usage_adds_up(a: CapacityUsage, b: CapacityUsage)
    requires
        a.active_runners + b.active_runners <= usize::MAX,
        i64::MIN <= a.cpu + b.cpu <= i64::MAX,
        i64::MIN <= a.memory_mb + b.memory_mb <= i64::MAX,
    ensures
        used_together(a, b).active_runners == a.active_runners + b.active_runners,
        used_together(a, b).cpu == a.cpu + b.cpu,
        used_together(a, b).memory_mb == a.memory_mb + b.memory_mb,
        used_together(a, b) == used_together(b, a),
{
}

/// A report of the disk gives the second and the fourth column of the line behind its
/// heading, in megabytes, whatever stands in the other columns; blank lines do not count.
pub proof fn reports_of_the_disk_are_read(
    output: Seq<char>,
    total_kb: nat,
    available_kb: nat,
)
    requires
        total_kb <= u64::MAX,
        available_kb <= u64::MAX,
        ({
            let rows = lines_of(output).filter(|line: Seq<char>| !blank(line));
            &&& rows.len() >= 2
            &&& words_of(rows[1]).len() >= 4
            &&& words_of(rows[1])[1] == decimal(total_kb)
            &&& words_of(rows[1])[3] == decimal(available_kb)
        }),
    ensures
        df_capacity(output) == Some((total_kb / 1_024, available_kb / 1_024)),
{
    lemma_filled(lines_of(output));
    decimal_reads_back(total_kb);
    decimal_reads_back(available_kb);
}

proof fn lemma_filled(list: Seq<Seq<char>>)
    ensures
        filled_lines(list) == list.filter(|line: Seq<char>| !blank(line)),
    decreases list.len(),
{
    reveal(Seq::filter);
    if list.len() > 0 {
        lemma_filled(list.drop_last());
    }
}

/// A setting that holds a number in decimal gives that number, where it lies within the
/// bounds of its type; one that is not set or blank gives the usual number.
pub proof fn settings_hold_what_is_written(n: int, usual: int, spaces: Seq<char>)
    requires
        blank(spaces),
    ensures
        0 <= n <= u64::MAX ==> number_setting(
            Some(signed_decimal(n)),
            usual,
            0,
            u64::MAX as int,
        ) == Some(n),
        i64::MIN <= n <= i64::MAX ==> number_setting(
            Some(signed_decimal(n)),
            usual,
            i64::MIN as int,
            i64::MAX as int,
        ) == Some(n),
        n > u64::MAX ==> number_setting(Some(signed_decimal(n)), usual, 0, u64::MAX as int) is None,
        number_setting(None, usual, 0, u64::MAX as int) == Some(usual),
        number_setting(Some(spaces), usual, 0, u64::MAX as int) == Some(usual),
        number_setting(Some(spaces), usual, i64::MIN as int, i64::MAX as int) == Some(usual),
{
    signed_decimal_reads_back(n);
    let size: nat = if n < 0 {
        (-n) as nat
    } else {
        n as nat
    };
    lemma_decimal_value(size);
    decimal_reads_back(size);
    let text = signed_decimal(n);
    assert(digit(decimal(size).last()));
    assert(text.last() == decimal(size).last());
    assert(!whitespace(text[text.len() - 1]));
    assert(!blank(text));
}

/// A host without settings lets runners use three quarters of its processors, in whole
/// ones, and three quarters of its memory; keeps 25 GB or 15 percent of its disk free;
/// allows as many runners as fit with two processors and 2 GB each; and keeps five log
/// files of 20 MB for each.
pub proof fn hosts_without_settings_keep_a_reserve(cpus: i64, memory_bytes: i64, s: LimitSettings)
    requires
        2 <= cpus <= 4_000,
        1_073_741_824 <= memory_bytes,
        s.cpu_budget == CpuSetting::Unset,
        s.memory_budget_mb is None,
        s.max_runners is None,
        s.min_free_disk_mb is None,
        s.min_free_disk_percent is None,
        s.runner_pids_limit is None,
        s.log_max_size is None,
        s.log_max_files is None,
        s.runner_network is None,
        memory_bytes / 1_048_576 * 3 / 4 / 2_048 <= 1_000,
    ensures
        limits_for(cpus, memory_bytes, s) is Ok,
        ({
            let limits = limits_for(cpus, memory_bytes, s)->Ok_0;
            let memory_mb = memory_bytes as int / 1_048_576;
            &&& limits.available_cpus == cpus * 1_000_000_000
            &&& limits.total_memory_mb == memory_mb
            &&& limits.cpu_budget % 1_000_000_000 == 0
            &&& 4 * limits.cpu_budget <= 3 * limits.available_cpus < 4 * (limits.cpu_budget
                + 1_000_000_000)
            &&& 4 * limits.memory_budget_mb <= 3 * memory_mb < 4 * (limits.memory_budget_mb + 1)
            &&& limits.min_free_disk_mb == 25_600
            &&& limits.min_free_disk_percent == 15
            &&& limits.max_runners >= 1
            &&& limits.max_runners > 1 ==> limits.max_runners * 2_000_000_000 <= limits.cpu_budget
                && limits.max_runners * 2_048 <= limits.memory_budget_mb
            &&& (limits.max_runners + 1) * 2_000_000_000 > limits.cpu_budget || (limits.max_runners
                + 1) * 2_048 > limits.memory_budget_mb
            &&& limits.log_max_size == "20m"@
            &&& limits.log_max_files == 5
            &&& limits.runner_pids_limit == 1_024
            &&& limits.runner_network == "gridops-runners"@
        }),
{
    lemma_usual_texts();
    let memory_mb = memory_bytes as int / 1_048_576;
    assert(memory_mb >= 1_024);
    assert(whole_cpus(cpus) == cpus);
    assert(default_cpu_budget(cpus as int) == (3 * cpus / 4) * CPU);
}

proof fn lemma_usual_texts()
    ensures
        log_size_ok("20m"@),
        docker_name_ok("gridops-runners"@),
{
    reveal_strlit("20m");
    reveal_strlit("gridops-runners");
    let digits = "20m"@.drop_last();
    assert(digits =~= seq!['2', '0']);
    assert(digits.drop_last() =~= seq!['2']);
    assert(digits.drop_last().drop_last() =~= Seq::<char>::empty());
    reveal_with_fuel(digits_value, 4);
    assert(digits_value(digits) == 20);
    assert("20m"@.last() == 'm');
}

/// What is set holds: a host's budgets, runners, reserves and logs are those of its
/// settings, or its limits are refused; and none lies outside what a host can have.
pub proof fn settings_are_kept_or_refused(
    cpus: i64,
    memory_bytes: i64,
    s: LimitSettings,
)
    requires
        limits_for(cpus, memory_bytes, s) is Ok,
        1 <= cpus <= 9_223_372_036,
    ensures
        ({
            let limits = limits_for(cpus, memory_bytes, s)->Ok_0;
            &&& s.cpu_budget != CpuSetting::Invalid
            &&& s.cpu_budget is Nanos ==> limits.cpu_budget == s.cpu_budget->Nanos_0
            &&& 0 < limits.cpu_budget <= cpus * 1_000_000_000
            &&& s.memory_budget_mb is Some && parsed_int(s.memory_budget_mb->0@) is Some && !blank(
                s.memory_budget_mb->0@,
            ) ==> limits.memory_budget_mb == parsed_int(s.memory_budget_mb->0@)->0
            &&& s.max_runners is Some && parsed_nat(s.max_runners->0@) is Some && !blank(
                s.max_runners->0@,
            ) ==> limits.max_runners == parsed_nat(s.max_runners->0@)->0
            &&& s.min_free_disk_mb is Some && parsed_nat(s.min_free_disk_mb->0@) is Some && !blank(
                s.min_free_disk_mb->0@,
            ) ==> limits.min_free_disk_mb == parsed_nat(s.min_free_disk_mb->0@)->0
            &&& s.min_free_disk_percent is Some && parsed_nat(s.min_free_disk_percent->0@) is Some
                && !blank(s.min_free_disk_percent->0@) ==> limits.min_free_disk_percent
                == parsed_nat(s.min_free_disk_percent->0@)->0
            &&& s.runner_pids_limit is Some && parsed_int(s.runner_pids_limit->0@) is Some
                && !blank(s.runner_pids_limit->0@) ==> limits.runner_pids_limit == parsed_int(
                s.runner_pids_limit->0@,
            )->0
            &&& s.log_max_files is Some && parsed_nat(s.log_max_files->0@) is Some && !blank(
                s.log_max_files->0@,
            ) ==> limits.log_max_files == parsed_nat(s.log_max_files->0@)->0
            &&& s.log_max_size is Some ==> limits.log_max_size == s.log_max_size->0@
            &&& s.runner_network is Some ==> limits.runner_network == s.runner_network->0@
            &&& 64 <= limits.runner_pids_limit <= 32_768
            &&& 1 <= limits.log_max_files <= 100
            &&& 0 <= limits.min_free_disk_percent <= 95
            &&& 0 <= limits.min_free_disk_mb <= u64::MAX
            &&& 0 < limits.runner_network.len() <= 128
            &&& !limits.runner_network.contains('/')
            &&& !limits.runner_network.contains(' ')
        }),
{
    let network = limits_for(cpus, memory_bytes, s)->Ok_0.runner_network;
    assert(!alphanumeric('/') && !alphanumeric(' '));
    assert forall|i: int| 0 <= i < network.len() implies network[i] != '/' && network[i] != ' ' by {
        assert(alphanumeric(network[i]) || network[i] == '.' || network[i] == '_' || network[i]
            == '-');
    }
}

/// A size of log files is a number above zero and a letter for thousands, millions or
/// billions of bytes.
pub proof fn log_sizes_are_positive(n: nat, unit: char)
    requires
        n <= u64::MAX,
    ensures
        log_size_ok(decimal(n).push(unit)) <==> n > 0 && (unit == 'k' || unit == 'm' || unit
            == 'g'),
{
    decimal_reads_back(n);
    let text = decimal(n).push(unit);
    assert(text.drop_last() =~= decimal(n));
    assert(text.last() == unit);
}

/// Processors are shown by the hundredths nearest to them.
pub proof fn shown_processors_are_the_nearest(nanos: nat)
    ensures
        2 * nanos <= 2 * hundredths(nanos) * 10_000_000 + 10_000_000,
        2 * hundredths(nanos) * 10_000_000 <= 2 * nanos + 10_000_000,
{
}

/// The limits of a host are accepted exactly if each setting is a number within its range: the
/// processors no more than the host's, the memory 256 MB to the host's, 1 to 1000 runners, at
/// most 95 percent of the disk, 64 to 32768 processes, 1 to 100 log files of a proper size, and
/// a network with a proper name.
pub proof fn limits_are_accepted_within_their_ranges(
    cpus: i64,
    memory_bytes: i64,
    s: LimitSettings,
    memory: int,
    runners: int,
    disk: int,
    percent: int,
    pids: int,
    files: int,
)
    requires
        1 <= cpus <= 9_223_372_036,
        s.cpu_budget is Nanos,
        s.memory_budget_mb is Some && s.memory_budget_mb->0@ == signed_decimal(memory),
        s.max_runners is Some && s.max_runners->0@ == signed_decimal(runners),
        s.min_free_disk_mb is Some && s.min_free_disk_mb->0@ == signed_decimal(disk),
        s.min_free_disk_percent is Some && s.min_free_disk_percent->0@ == signed_decimal(percent),
        s.runner_pids_limit is Some && s.runner_pids_limit->0@ == signed_decimal(pids),
        s.log_max_files is Some && s.log_max_files->0@ == signed_decimal(files),
        s.log_max_size is Some,
        s.runner_network is Some,
        i64::MIN <= memory <= i64::MAX,
        0 <= runners <= u64::MAX,
        0 <= disk <= u64::MAX,
        0 <= percent <= u64::MAX,
        i64::MIN <= pids <= i64::MAX,
        0 <= files <= u64::MAX,
    ensures
        limits_for(cpus, memory_bytes, s) is Ok <==> {
            &&& 1 <= s.cpu_budget->Nanos_0 && s.cpu_budget->Nanos_0 <= cpus * 1_000_000_000
            &&& 256 <= memory && memory <= whole_memory(memory_bytes)
            &&& 1 <= runners && runners <= 1_000
            &&& percent <= 95
            &&& 64 <= pids && pids <= 32_768
            &&& 1 <= files && files <= 100
            &&& log_size_ok(s.log_max_size->0@)
            &&& docker_name_ok(s.runner_network->0@)
        },
        memory_bytes >= 536_870_912 ==> whole_memory(memory_bytes) == memory_bytes as int
            / 1_048_576,
        memory_bytes < 536_870_912 ==> whole_memory(memory_bytes) == 512,
{
    settings_hold_what_is_written(memory, default_memory_budget(whole_memory(memory_bytes)), Seq::empty());
    settings_hold_what_is_written(
        runners,
        default_max_runners(s.cpu_budget->Nanos_0 as int, memory),
        Seq::empty(),
    );
    settings_hold_what_is_written(disk, 25_600, Seq::empty());
    settings_hold_what_is_written(percent, 15, Seq::empty());
    settings_hold_what_is_written(pids, 1_024, Seq::empty());
    settings_hold_what_is_written(files, 5, Seq::empty());
}

/// A name that Docker takes has 1 to 128 letters, digits, full stops, underscores and hyphens.
pub proof fn names_for_docker_are_plain(name: Seq<char>)
    ensures
        docker_name_ok(name) <==> 1 <= name.len() && name.len() <= 128 && forall|i: int|
            0 <= i < name.len() ==> ('a' <= #[trigger] name[i] <= 'z' || 'A' <= name[i] <= 'Z'
                || '0' <= name[i] <= '9' || name[i] == '.' || name[i] == '_' || name[i] == '-'),
{
    if docker_name_ok(name) {
        assert forall|i: int| 0 <= i < name.len() implies ('a' <= #[trigger] name[i] <= 'z' || 'A'
            <= name[i] <= 'Z' || '0' <= name[i] <= '9' || name[i] == '.' || name[i] == '_'
            || name[i] == '-') by {
            assert(alphanumeric(name[i]) || name[i] == '.' || name[i] == '_' || name[i] == '-');
        }
    }
}

/// A number with a minus sign is none for a setting that cannot be negative.
pub proof fn counts_have_no_sign(text: Seq<char>, usual: int)
    requires
        text.len() > 0,
        text[0] == '-',
    ensures
        number_setting(Some(text), usual, 0, u64::MAX as int) is None,
{
    assert(!whitespace('-'));
    assert(!blank(text)) by {
        assert(!whitespace(text[0]));
    }
    assert(!digit(text[0]));
}

/// A request is refused as expected exactly if it is refused with the error that is expected,
/// and admitted where none is.
pub proof fn requests_are_refused_as_expected(
    result: Result<(), ManagerError>,
    error: ManagerErrorView,
)
    ensures
        refuses_with(result, None) <==> result is Ok,
        refuses_with(result, Some(error)) <==> result is Err && result->Err_0@ == error,
{
}

}
