//! The runner manager: who may talk to it, which runners it starts, with which
//! commands and limits, and how it controls them.
use vstd::prelude::*;
use vstd::utf8::encode_utf8_decode_utf8;

use crate::capacity::{docker_name_ok, refuses_with, valid_docker_name, ManagerLimits};
use crate::config::{not_blank, optional};
use crate::crypto::constant_time_eq;
use crate::leases::{
    claim_error, live, paused_error, resources_ok, valid_resources, without_lease, LeaseClaim,
    Ledger,
};
use crate::manager_error::{ManagerError, ManagerErrorView};
use crate::numbers::{decimal, decimal_reads_back, lemma_decimal_value, parse_u64, parsed_nat};
use crate::payload::{string, text_member, Member};
use crate::scripts::{
    EPHEMERAL_LAUNCH, EPHEMERAL_SETUP, INSTRUMENT_HEAD, INSTRUMENT_TAIL, PERSISTENT_LAUNCH,
    PERSISTENT_SETUP,
};
use crate::search::{
    blank, contains_char, first_chars, has_line_break, is_blank, join, joined, list_contains,
    starts_with, strip_prefix, take_chars,
};
use crate::text::{
    byte_len, chars_of, concat, concat4, concat5, digit, hex_digit, is_hex_digit, same, text_option,
    texts, utf8_len,
};
use crate::web::{normal_url, scheme_of, url_normal, url_scheme};

verus! {

// ---------------------------------------------------------------------------
// Authentication

/// Whether a request carries the bearer token that is expected.
pub fn bearer_authorized(header: Option<&str>, expected: &str) -> (r: bool)
    ensures
        r == (header is Some && header->0@ == "Bearer "@ + expected@),
{
    match header {
        None => false,
        Some(value) => match strip_prefix(value, "Bearer ") {
            None => {
                proof {
                    if value@ == "Bearer "@ + expected@ {
                        assert(value@.take("Bearer "@.len() as int) =~= "Bearer "@);
                    }
                }
                false
            },
            Some(supplied) => {
                let r: bool = constant_time_eq(
                    supplied.as_str().as_bytes(),
                    expected.as_bytes(),
                );
                proof {
                    encode_utf8_decode_utf8(supplied@);
                    encode_utf8_decode_utf8(expected@);
                    if value@ == "Bearer "@ + expected@ {
                        assert(supplied@ =~= value@.skip("Bearer "@.len() as int));
                        assert(expected@ =~= value@.skip("Bearer "@.len() as int));
                    }
                }
                r
            },
        },
    }
}

// ---------------------------------------------------------------------------
// Requests to start a runner

/// A request to start a runner. The processor limit is in billionths of a
/// processor.
pub struct ProvisionRunner {
    pub runner_id: String,
    pub pool_id: String,
    pub name: String,
    pub image: String,
    pub mode: String,
    pub provider: String,
    pub jit_config: Option<String>,
    pub registration_token: Option<String>,
    pub registration_url: Option<String>,
    pub labels: Vec<String>,
    pub runner_group: Option<String>,
    pub pull_image: bool,
    pub cpu_limit: i64,
    pub memory_limit_mb: i64,
    pub network: String,
    pub capacity_lease: String,
}

/// A text without line breaks whose length in bytes lies between two bounds.
pub open spec fn one_line(value: Seq<char>, low: nat, high: nat) -> bool {
    low <= utf8_len(value) <= high && !value.contains('\n') && !value.contains('\r')
}

/// An address at which a runner can register: below `https://github.com/`, at
/// most 512 bytes, and without white space.
pub open spec fn registration_url_ok(value: Seq<char>) -> bool {
    &&& "https://github.com/"@.is_prefix_of(value)
    &&& utf8_len(value) <= 512
    &&& forall|i: int| 0 <= i < value.len() ==> !ascii_space(#[trigger] value[i])
}

/// White space in ASCII.
pub open spec fn ascii_space(c: char) -> bool {
    c == ' ' || c == '\t' || c == '\n' || c == '\r' || c == '\u{c}'
}

/// A label that can be handed to a runner's configuration.
pub open spec fn registration_label_ok(label: Seq<char>) -> bool {
    0 < label.len() && utf8_len(label) <= 100 && !label.contains(',') && !label.contains('\n')
        && !label.contains('\r')
}

/// Every label can be handed to a runner's configuration.
pub open spec fn registration_labels_ok(labels: Seq<Seq<char>>) -> bool {
    forall|i: int| 0 <= i < labels.len() ==> registration_label_ok(#[trigger] labels[i])
}

/// Whether an address is one at which a runner can register.
pub fn valid_registration_url(value: &str) -> (r: bool)
    ensures
        r == registration_url_ok(value@),
{
    if !starts_with(value, "https://github.com/") || byte_len(value) > 512 {
        return false;
    }
    let a: Vec<char> = chars_of(value);
    let mut i: usize = 0;
    while i < a.len()
        invariant
            i <= a@.len(),
            a@ == value@,
            forall|k: int| 0 <= k < i ==> !ascii_space(#[trigger] value@[k]),
        decreases a@.len() - i,
    {
        let c: char = a[i];
        if c == ' ' || c == '\t' || c == '\n' || c == '\r' || c == '\u{c}' {
            proof {
                assert(ascii_space(value@[i as int]));
            }
            return false;
        }
        i += 1;
    }
    true
}

fn is_one_line(value: &str, low: usize, high: usize) -> (r: bool)
    ensures
        r == one_line(value@, low as nat, high as nat),
{
    let length: usize = byte_len(value);
    low <= length && length <= high && !has_line_break(value)
}

fn valid_registration_labels(labels: &[String]) -> (r: bool)
    ensures
        r == registration_labels_ok(texts(labels@)),
{
    let mut i: usize = 0;
    while i < labels.len()
        invariant
            i <= labels@.len(),
            forall|k: int| 0 <= k < i ==> registration_label_ok(#[trigger] texts(labels@)[k]),
        decreases labels@.len() - i,
    {
        let label: &str = labels[i].as_str();
        proof {
            assert(texts(labels@)[i as int] == label@);
        }
        if label.is_empty() || byte_len(label) > 100 || contains_char(label, ',')
            || has_line_break(label) {
            return false;
        }
        i += 1;
    }
    true
}

impl ProvisionRunner {
    /// The registration of a runner that stays is complete.
    pub open spec fn registration_ok(&self) -> bool {
        &&& self.registration_token is Some && one_line(self.registration_token->0@, 20, 2_048)
        &&& self.registration_url is Some && registration_url_ok(self.registration_url->0@)
        &&& 0 < self.labels@.len() <= 100
        &&& registration_labels_ok(texts(self.labels@))
        &&& self.runner_group is Some ==> self.runner_group->0@.len() > 0 && one_line(
            self.runner_group->0@,
            0,
            100,
        )
    }

    /// What is wrong with the request, if anything is.
    pub open spec fn message(&self) -> Option<Seq<char>> {
        if self.runner_id@.len() == 0 || self.pool_id@.len() == 0 || self.capacity_lease@.len() == 0
            || utf8_len(self.capacity_lease@) > 128 {
            Some("Runner, pool, and capacity lease identifiers are required."@)
        } else if !docker_name_ok(self.name@) || (self.provider@ == "docker"@ && !docker_name_ok(
            self.network@,
        )) {
            Some("Runner or network name contains unsupported characters."@)
        } else if blank(self.image@) || utf8_len(self.image@) > 512 {
            Some("Runner image is invalid."@)
        } else if self.mode@ != "ephemeral"@ && self.mode@ != "persistent"@ {
            Some("Runner mode must be ephemeral or persistent."@)
        } else if self.mode@ == "ephemeral"@ && !(self.jit_config is Some && one_line(
            self.jit_config->0@,
            20,
            900_000,
        )) {
            Some("Runner JIT configuration is invalid."@)
        } else if self.mode@ != "ephemeral"@ && !self.registration_ok() {
            Some("Persistent runner registration is invalid."@)
        } else if self.provider@ != "docker"@ && self.provider@ != "tart"@ {
            Some("Runner provider must be Docker or Tart."@)
        } else if self.provider@ == "tart"@ && self.mode@ != "ephemeral"@ {
            Some("Tart runner pools must be ephemeral."@)
        } else if !resources_ok(self.cpu_limit, self.memory_limit_mb) {
            Some("Runner resource limits are outside the supported range."@)
        } else {
            None
        }
    }

    /// The error for what is wrong with the request, if anything is.
    pub open spec fn error(&self) -> Option<ManagerErrorView> {
        match self.message() {
            Some(message) => Some(ManagerErrorView::BadRequest(message)),
            None => None,
        }
    }

    /// What the request says of its lease.
    pub open spec fn claim(&self) -> LeaseClaim {
        LeaseClaim {
            lease_id: self.capacity_lease@,
            runner_id: self.runner_id@,
            pool_id: self.pool_id@,
            provider: self.provider@,
            cpu_limit: self.cpu_limit,
            memory_limit_mb: self.memory_limit_mb,
        }
    }

    /// Whether the registration of a runner that stays is complete.
    fn has_registration(&self) -> (r: bool)
        ensures
            r == self.registration_ok(),
    {
        let token: bool = match &self.registration_token {
            Some(value) => is_one_line(value.as_str(), 20, 2_048),
            None => false,
        };
        let url: bool = match &self.registration_url {
            Some(value) => valid_registration_url(value.as_str()),
            None => false,
        };
        let group: bool = match &self.runner_group {
            Some(value) => !value.as_str().is_empty() && is_one_line(value.as_str(), 0, 100),
            None => true,
        };
        token && url && self.labels.len() > 0 && self.labels.len() <= 100
            && valid_registration_labels(self.labels.as_slice()) && group
    }

    /// Checks the request.
    pub fn validate(&self) -> (r: Result<(), ManagerError>)
        ensures
            refuses_with(r, self.error()),
    {
        if self.runner_id.as_str().is_empty() || self.pool_id.as_str().is_empty()
            || self.capacity_lease.as_str().is_empty() || byte_len(self.capacity_lease.as_str())
            > 128 {
            return bad_request("Runner, pool, and capacity lease identifiers are required.");
        }
        if !valid_docker_name(self.name.as_str()) || (same(self.provider.as_str(), "docker")
            && !valid_docker_name(self.network.as_str())) {
            return bad_request("Runner or network name contains unsupported characters.");
        }
        if is_blank(self.image.as_str()) || byte_len(self.image.as_str()) > 512 {
            return bad_request("Runner image is invalid.");
        }
        let ephemeral: bool = same(self.mode.as_str(), "ephemeral");
        if !ephemeral && !same(self.mode.as_str(), "persistent") {
            return bad_request("Runner mode must be ephemeral or persistent.");
        }
        if ephemeral {
            let complete: bool = match &self.jit_config {
                Some(value) => is_one_line(value.as_str(), 20, 900_000),
                None => false,
            };
            if !complete {
                return bad_request("Runner JIT configuration is invalid.");
            }
        } else if !self.has_registration() {
            return bad_request("Persistent runner registration is invalid.");
        }
        let tart: bool = same(self.provider.as_str(), "tart");
        if !tart && !same(self.provider.as_str(), "docker") {
            return bad_request("Runner provider must be Docker or Tart.");
        }
        if tart && !ephemeral {
            return bad_request("Tart runner pools must be ephemeral.");
        }
        if !valid_resources(self.cpu_limit, self.memory_limit_mb) {
            return bad_request("Runner resource limits are outside the supported range.");
        }
        Ok(())
    }
}

fn bad_request(message: &str) -> (r: Result<(), ManagerError>)
    ensures
        r is Err,
        r->Err_0@ == ManagerErrorView::BadRequest(message@),
{
    Err(ManagerError::BadRequest(message.to_owned()))
}

/// Where a runner is started.
#[derive(Debug, Clone, Copy, PartialEq, Eq, Structural)]
pub enum ProvisionRoute {
    Docker,
    TartAgent,
}

/// The error where no Tart agent is configured.
pub open spec fn tart_disabled() -> ManagerErrorView {
    ManagerErrorView::Upstream {
        status: 503,
        code: "tart_provider_disabled"@,
        message: "The Tart macOS runner provider is not configured."@,
    }
}

fn tart_disabled_error() -> (r: ManagerError)
    ensures
        r@ == tart_disabled(),
{
    ManagerError::Upstream {
        status: 503,
        code: "tart_provider_disabled".to_owned(),
        message: "The Tart macOS runner provider is not configured.".to_owned(),
    }
}

/// Why a request is refused before any lease is looked at, if it is.
pub open spec fn early_refusal(
    input: ProvisionRunner,
    paused: bool,
    network: Seq<char>,
) -> Option<ManagerErrorView> {
    if input.error() is Some {
        input.error()
    } else if paused_error(paused) is Some {
        paused_error(paused)
    } else if input.network@ != network {
        Some(
            ManagerErrorView::Forbidden(
                "Runner containers may only join the configured GridOps runner network."@,
            ),
        )
    } else {
        None
    }
}

/// Decides where a runner is started: the request must be complete, provisioning
/// must not be paused, the network must be the one that is configured, and a
/// lease must cover it. A lease that covers the request is used up where the
/// request ends with that decision.
pub fn admit_provision(
    ledger: &mut Ledger,
    input: &ProvisionRunner,
    limits: &ManagerLimits,
    paused: bool,
    tart_configured: bool,
    now: i64,
) -> (r: Result<ProvisionRoute, ManagerError>)
    ensures
        old(ledger).wf() ==> final(ledger).wf(),
        ({
            let early = early_refusal(*input, paused, limits.runner_network@);
            let current = live(old(ledger)@, now);
            let claim = claim_error(current, input.claim());
            if early is Some {
                &&& r is Err
                &&& r->Err_0@ == early->0
                &&& final(ledger)@ == old(ledger)@
            } else if claim is Some {
                &&& r is Err
                &&& r->Err_0@ == claim->0
                &&& final(ledger)@ == current
            } else if input.provider@ != "tart"@ {
                &&& r == Ok::<ProvisionRoute, ManagerError>(ProvisionRoute::Docker)
                &&& final(ledger)@ == current
            } else if tart_configured {
                &&& r == Ok::<ProvisionRoute, ManagerError>(ProvisionRoute::TartAgent)
                &&& final(ledger)@ == current
            } else {
                &&& r is Err
                &&& r->Err_0@ == tart_disabled()
                &&& final(ledger)@ == without_lease(current, input.capacity_lease@)
            }
        }),
{
    if let Err(error) = input.validate() {
        return Err(error);
    }
    if let Err(error) = crate::leases::ensure_provisioning_enabled(paused) {
        return Err(error);
    }
    if !same(input.network.as_str(), limits.runner_network.as_str()) {
        return Err(
            ManagerError::Forbidden(
                "Runner containers may only join the configured GridOps runner network."
                    .to_owned(),
            ),
        );
    }
    if let Err(error) = ledger.validate_claim(
        input.capacity_lease.as_str(),
        input.runner_id.as_str(),
        input.pool_id.as_str(),
        input.provider.as_str(),
        input.cpu_limit,
        input.memory_limit_mb,
        now,
    ) {
        return Err(error);
    }
    if !same(input.provider.as_str(), "tart") {
        return Ok(ProvisionRoute::Docker);
    }
    if tart_configured {
        return Ok(ProvisionRoute::TartAgent);
    }
    ledger.release(input.capacity_lease.as_str());
    Err(tart_disabled_error())
}

// ---------------------------------------------------------------------------
// Commands

/// The script of a container: its setup, the start of the runner, and the
/// forwarding of the output of jobs.
pub open spec fn instrumented(setup: Seq<char>, launch: Seq<char>) -> Seq<char> {
    setup + INSTRUMENT_HEAD@ + launch + INSTRUMENT_TAIL@
}

/// The script of a container.
pub fn instrumented_runner_script(setup: &str, launch: &str) -> (r: String)
    ensures
        r@ == instrumented(setup@, launch@),
{
    concat4(setup, INSTRUMENT_HEAD, launch, INSTRUMENT_TAIL)
}

/// The command line and the environment of a container.
#[derive(Debug)]
pub struct RunnerCommand {
    pub command: Vec<String>,
    pub environment: Vec<String>,
}

/// The command line of a runner of a mode.
pub open spec fn command_line(mode: Seq<char>) -> Seq<Seq<char>> {
    if mode == "ephemeral"@ {
        seq!["/bin/bash"@, "-lc"@, instrumented(EPHEMERAL_SETUP@, EPHEMERAL_LAUNCH@)]
    } else {
        seq!["/bin/bash"@, "-lc"@, instrumented(PERSISTENT_SETUP@, PERSISTENT_LAUNCH@)]
    }
}

/// The environment of a runner of a mode.
pub open spec fn command_environment(
    mode: Seq<char>,
    registration_url: Seq<char>,
    name: Seq<char>,
    labels: Seq<Seq<char>>,
    group: Option<Seq<char>>,
) -> Seq<Seq<char>> {
    if mode == "ephemeral"@ {
        Seq::empty()
    } else {
        seq![
            "GRIDOPS_REGISTRATION_URL="@ + registration_url,
            "GRIDOPS_RUNNER_NAME="@ + name,
            "GRIDOPS_RUNNER_LABELS="@ + joined(labels, ","@),
            "GRIDOPS_RUNNER_GROUP="@ + match group {
                Some(group) => group,
                None => ""@,
            },
        ]
    }
}

/// The command line and the environment with which a runner's container is
/// made. They are made of nothing but the mode, the address, the name, the
/// labels and the group: no credential is in them.
pub fn runner_command(input: &ProvisionRunner) -> (r: Result<RunnerCommand, ManagerError>)
    ensures
        if input.mode@ != "ephemeral"@ && input.mode@ != "persistent"@ {
            r is Err && r->Err_0@ == ManagerErrorView::BadRequest("Runner mode is invalid."@)
        } else if input.mode@ != "ephemeral"@ && input.registration_url is None {
            r is Err && r->Err_0@ == ManagerErrorView::BadRequest(
                "Runner registration URL is required."@,
            )
        } else {
            r is Ok && texts(r->Ok_0.command@) == command_line(input.mode@) && texts(
                r->Ok_0.environment@,
            ) == command_environment(
                input.mode@,
                input.registration_url->0@,
                input.name@,
                texts(input.labels@),
                text_option(input.runner_group),
            )
        },
{
    let mut command: Vec<String> = Vec::new();
    let mut environment: Vec<String> = Vec::new();
    command.push("/bin/bash".to_owned());
    command.push("-lc".to_owned());
    if same(input.mode.as_str(), "ephemeral") {
        command.push(instrumented_runner_script(EPHEMERAL_SETUP, EPHEMERAL_LAUNCH));
        proof {
            assert(texts(command@) =~= command_line(input.mode@));
            assert(texts(environment@) =~= Seq::empty());
        }
        return Ok(RunnerCommand { command, environment });
    }
    if !same(input.mode.as_str(), "persistent") {
        return Err(ManagerError::BadRequest("Runner mode is invalid.".to_owned()));
    }
    match &input.registration_url {
        None => Err(
            ManagerError::BadRequest("Runner registration URL is required.".to_owned()),
        ),
        Some(url) => {
            command.push(instrumented_runner_script(PERSISTENT_SETUP, PERSISTENT_LAUNCH));
            environment.push(concat("GRIDOPS_REGISTRATION_URL=", url.as_str()));
            environment.push(concat("GRIDOPS_RUNNER_NAME=", input.name.as_str()));
            environment.push(
                concat("GRIDOPS_RUNNER_LABELS=", join(input.labels.as_slice(), ",").as_str()),
            );
            environment.push(
                match &input.runner_group {
                    Some(group) => concat("GRIDOPS_RUNNER_GROUP=", group.as_str()),
                    None => concat("GRIDOPS_RUNNER_GROUP=", ""),
                },
            );
            proof {
                assert(texts(command@) =~= command_line(input.mode@));
                assert(texts(environment@) =~= command_environment(
                    input.mode@,
                    input.registration_url->0@,
                    input.name@,
                    texts(input.labels@),
                    text_option(input.runner_group),
                ));
            }
            Ok(RunnerCommand { command, environment })
        },
    }
}

/// The credential with which a runner of a mode starts.
pub open spec fn credential(
    mode: Seq<char>,
    jit_config: Option<String>,
    registration_token: Option<String>,
) -> Option<Seq<char>> {
    if mode == "ephemeral"@ {
        text_option(jit_config)
    } else if mode == "persistent"@ {
        text_option(registration_token)
    } else {
        None
    }
}

/// Takes the credential out of a request.
pub fn take_bootstrap_secret(input: &mut ProvisionRunner) -> (r: Result<String, ManagerError>)
    ensures
        match credential(old(input).mode@, old(input).jit_config, old(input).registration_token) {
            Some(secret) => r is Ok && r->Ok_0@ == secret,
            None => r is Err && r->Err_0@ == ManagerErrorView::BadRequest(
                "Runner bootstrap credential is required."@,
            ),
        },
        credential(final(input).mode@, final(input).jit_config, final(input).registration_token)
            is None,
        *final(input) == (ProvisionRunner {
            jit_config: if old(input).mode@ == "ephemeral"@ {
                None
            } else {
                old(input).jit_config
            },
            registration_token: if old(input).mode@ == "persistent"@ && old(input).mode@
                != "ephemeral"@ {
                None
            } else {
                old(input).registration_token
            },
            ..*old(input)
        }),
{
    let value: Option<String> = if same(input.mode.as_str(), "ephemeral") {
        input.jit_config.take()
    } else if same(input.mode.as_str(), "persistent") {
        input.registration_token.take()
    } else {
        None
    };
    match value {
        Some(secret) => Ok(secret),
        None => Err(
            ManagerError::BadRequest("Runner bootstrap credential is required.".to_owned()),
        ),
    }
}

/// The limits with which a runner's container is made.
#[derive(Debug)]
pub struct ContainerPlan {
    pub image: String,
    pub network: String,
    pub command: Vec<String>,
    pub environment: Vec<String>,
    pub labels: Vec<LabelEntry>,
    pub nano_cpus: i64,
    pub memory_bytes: i64,
    pub memory_swap_bytes: i64,
    pub pids_limit: i64,
    pub log_max_size: String,
    pub log_max_files: u64,
    /// The kernel's capabilities that are taken from it.
    pub dropped_capabilities: Vec<String>,
    pub security_options: Vec<String>,
    /// How readily the kernel ends it when memory runs out.
    pub oom_score: i64,
    pub log_driver: &'static str,
    /// Whether it is removed as soon as it stops.
    pub removed_at_exit: bool,
    /// Whether it can be handed a credential while it runs.
    pub takes_input: bool,
}

/// A label of a container.
#[derive(Debug)]
pub struct LabelEntry {
    pub key: String,
    pub value: String,
}

/// The keys and values of labels.
pub open spec fn label_pairs(list: Seq<LabelEntry>) -> Seq<(Seq<char>, Seq<char>)> {
    list.map_values(|entry: LabelEntry| (entry.key@, entry.value@))
}

/// The labels of a runner's container.
pub open spec fn container_labels(input: ProvisionRunner) -> Seq<(Seq<char>, Seq<char>)> {
    seq![
        ("io.gridops.managed"@, "true"@),
        ("io.gridops.runner-id"@, input.runner_id@),
        ("io.gridops.pool-id"@, input.pool_id@),
        ("io.gridops.mode"@, input.mode@),
    ]
}

fn label(key: &str, value: &str) -> (r: LabelEntry)
    ensures
        (r.key@, r.value@) == (key@, value@),
{
    LabelEntry { key: key.to_owned(), value: value.to_owned() }
}

/// The container is that of a runner on a host with given limits.
pub open spec fn plans_container(
    plan: ContainerPlan,
    input: ProvisionRunner,
    limits: ManagerLimits,
) -> bool {
    &&& input.mode@ == "ephemeral"@ || (input.mode@ == "persistent"@ && input.registration_url
        is Some)
    &&& plan.image@ == input.image@
    &&& plan.network@ == input.network@
    &&& texts(plan.command@) == command_line(input.mode@)
    &&& texts(plan.environment@) == command_environment(
        input.mode@,
        input.registration_url->0@,
        input.name@,
        texts(input.labels@),
        text_option(input.runner_group),
    )
    &&& label_pairs(plan.labels@) == container_labels(input)
    &&& plan.nano_cpus == input.cpu_limit
    &&& plan.memory_bytes == input.memory_limit_mb * 1_048_576
    &&& plan.memory_swap_bytes == plan.memory_bytes
    &&& plan.pids_limit == limits.runner_pids_limit
    &&& plan.log_max_size@ == limits.log_max_size@
    &&& plan.log_max_files == limits.log_max_files
    &&& texts(plan.dropped_capabilities@) == seq!["ALL"@]
    &&& texts(plan.security_options@) == seq!["no-new-privileges:true"@]
    &&& plan.oom_score == 500
    &&& plan.log_driver@ == "json-file"@
    &&& !plan.removed_at_exit
    &&& plan.takes_input
}

/// The container of a runner: its memory cannot be exceeded by swapping, it has no
/// capabilities and cannot gain any, it is ended before other programs when memory
/// runs out, and its labels name the runner and the pool that it belongs to.
pub fn container_plan(input: &ProvisionRunner, limits: &ManagerLimits) -> (r: Result<
    ContainerPlan,
    ManagerError,
>)
    requires
        input.memory_limit_mb <= 262_144,
        input.memory_limit_mb >= 0,
    ensures
        match r {
            Ok(plan) => plans_container(plan, *input, *limits),
            Err(error) => if input.mode@ != "ephemeral"@ && input.mode@ != "persistent"@ {
                error@ == ManagerErrorView::BadRequest("Runner mode is invalid."@)
            } else {
                input.mode@ != "ephemeral"@ && input.registration_url is None && error@
                    == ManagerErrorView::BadRequest("Runner registration URL is required."@)
            },
        },
{
    let made: RunnerCommand = match runner_command(input) {
        Ok(made) => made,
        Err(error) => {
            return Err(error);
        },
    };
    let mut labels: Vec<LabelEntry> = Vec::new();
    labels.push(label("io.gridops.managed", "true"));
    labels.push(label("io.gridops.runner-id", input.runner_id.as_str()));
    labels.push(label("io.gridops.pool-id", input.pool_id.as_str()));
    labels.push(label("io.gridops.mode", input.mode.as_str()));
    proof {
        assert(label_pairs(labels@) =~= container_labels(*input));
    }
    let mut dropped_capabilities: Vec<String> = Vec::new();
    dropped_capabilities.push("ALL".to_owned());
    let mut security_options: Vec<String> = Vec::new();
    security_options.push("no-new-privileges:true".to_owned());
    proof {
        assert(texts(dropped_capabilities@) =~= seq!["ALL"@]);
        assert(texts(security_options@) =~= seq!["no-new-privileges:true"@]);
    }
    let memory_bytes: i64 = input.memory_limit_mb * 1_048_576;
    Ok(
        ContainerPlan {
            image: input.image.clone(),
            network: input.network.clone(),
            command: made.command,
            environment: made.environment,
            labels,
            nano_cpus: input.cpu_limit,
            memory_bytes,
            memory_swap_bytes: memory_bytes,
            pids_limit: limits.runner_pids_limit,
            log_max_size: limits.log_max_size.clone(),
            log_max_files: limits.log_max_files,
            dropped_capabilities,
            security_options,
            oom_score: 500,
            log_driver: "json-file",
            removed_at_exit: false,
            takes_input: true,
        },
    )
}

/// The credential of a request has no influence on the metadata of the
/// container: requests that differ only in it get the same command line and the
/// same environment.
pub proof fn credentials_stay_out_of_the_metadata(
    a: ProvisionRunner,
    jit_config: Option<String>,
    registration_token: Option<String>,
)
    ensures
        ({
            let b = ProvisionRunner { jit_config, registration_token, ..a };
            &&& command_line(b.mode@) == command_line(a.mode@)
            &&& command_environment(
                b.mode@,
                b.registration_url->0@,
                b.name@,
                texts(b.labels@),
                text_option(b.runner_group),
            ) == command_environment(
                a.mode@,
                a.registration_url->0@,
                a.name@,
                texts(a.labels@),
                text_option(a.runner_group),
            )
            &&& container_labels(b) == container_labels(a)
        }),
{
}

// ---------------------------------------------------------------------------
// Creating a container

/// What is done next to create a runner's container.
#[derive(Debug, Clone, Copy, PartialEq, Eq, Structural)]
pub enum CreationStep {
    InspectNetwork,
    CreateNetwork,
    InspectImage,
    PullImage,
    CheckDisk,
    ListContainers,
    CreateContainer,
    StartContainer,
    SendCredential,
    RemoveContainer,
    InspectContainer,
    Created,
    Failed,
}

/// How a step came out: `Missing` is the answer that the thing does not exist,
/// and for the list of containers `Taken` the one that the name is in use.
#[derive(Debug, Clone, Copy, PartialEq, Eq, Structural)]
pub enum StepOutcome {
    Done,
    Missing,
    Taken,
    Error,
}

/// The step after a step that came out in some way. An image is pulled where it
/// is missing or where that is asked for; a container that was created and could
/// not be started or given its credential is removed.
pub open spec fn following(step: CreationStep, outcome: StepOutcome, pull_image: bool) -> CreationStep {
    match (step, outcome) {
        (CreationStep::InspectNetwork, StepOutcome::Done) => CreationStep::InspectImage,
        (CreationStep::InspectNetwork, StepOutcome::Missing) => CreationStep::CreateNetwork,
        (CreationStep::CreateNetwork, StepOutcome::Done) => CreationStep::InspectImage,
        (CreationStep::InspectImage, StepOutcome::Done) => if pull_image {
            CreationStep::PullImage
        } else {
            CreationStep::CheckDisk
        },
        (CreationStep::InspectImage, StepOutcome::Missing) => CreationStep::PullImage,
        (CreationStep::PullImage, StepOutcome::Done) => CreationStep::CheckDisk,
        (CreationStep::CheckDisk, StepOutcome::Done) => CreationStep::ListContainers,
        (CreationStep::ListContainers, StepOutcome::Done) => CreationStep::CreateContainer,
        (CreationStep::CreateContainer, StepOutcome::Done) => CreationStep::StartContainer,
        (CreationStep::StartContainer, StepOutcome::Done) => CreationStep::SendCredential,
        (CreationStep::StartContainer, _) => CreationStep::RemoveContainer,
        (CreationStep::SendCredential, StepOutcome::Done) => CreationStep::InspectContainer,
        (CreationStep::SendCredential, _) => CreationStep::RemoveContainer,
        (CreationStep::InspectContainer, StepOutcome::Done) => CreationStep::Created,
        (CreationStep::Created, _) => CreationStep::Created,
        _ => CreationStep::Failed,
    }
}

/// The step after a step that came out in some way.
pub fn next_creation_step(step: CreationStep, outcome: StepOutcome, pull_image: bool) -> (r:
    CreationStep)
    ensures
        r == following(step, outcome, pull_image),
{
    match (step, outcome) {
        (CreationStep::InspectNetwork, StepOutcome::Done) => CreationStep::InspectImage,
        (CreationStep::InspectNetwork, StepOutcome::Missing) => CreationStep::CreateNetwork,
        (CreationStep::CreateNetwork, StepOutcome::Done) => CreationStep::InspectImage,
        (CreationStep::InspectImage, StepOutcome::Done) => if pull_image {
            CreationStep::PullImage
        } else {
            CreationStep::CheckDisk
        },
        (CreationStep::InspectImage, StepOutcome::Missing) => CreationStep::PullImage,
        (CreationStep::PullImage, StepOutcome::Done) => CreationStep::CheckDisk,
        (CreationStep::CheckDisk, StepOutcome::Done) => CreationStep::ListContainers,
        (CreationStep::ListContainers, StepOutcome::Done) => CreationStep::CreateContainer,
        (CreationStep::CreateContainer, StepOutcome::Done) => CreationStep::StartContainer,
        (CreationStep::StartContainer, StepOutcome::Done) => CreationStep::SendCredential,
        (CreationStep::StartContainer, _) => CreationStep::RemoveContainer,
        (CreationStep::SendCredential, StepOutcome::Done) => CreationStep::InspectContainer,
        (CreationStep::SendCredential, _) => CreationStep::RemoveContainer,
        (CreationStep::InspectContainer, StepOutcome::Done) => CreationStep::Created,
        (CreationStep::Created, _) => CreationStep::Created,
        _ => CreationStep::Failed,
    }
}

/// How far a step is from the end.
pub open spec fn remaining_steps(step: CreationStep) -> nat {
    match step {
        CreationStep::InspectNetwork => 11,
        CreationStep::CreateNetwork => 10,
        CreationStep::InspectImage => 9,
        CreationStep::PullImage => 8,
        CreationStep::CheckDisk => 7,
        CreationStep::ListContainers => 6,
        CreationStep::CreateContainer => 5,
        CreationStep::StartContainer => 4,
        CreationStep::SendCredential => 3,
        CreationStep::InspectContainer => 2,
        CreationStep::RemoveContainer => 1,
        CreationStep::Created => 0,
        CreationStep::Failed => 0,
    }
}

/// Creating a container comes to an end, whatever the outcomes.
pub proof fn creation_ends(step: CreationStep, outcome: StepOutcome, pull_image: bool)
    requires
        step != CreationStep::Created,
        step != CreationStep::Failed,
    ensures
        remaining_steps(following(step, outcome, pull_image)) < remaining_steps(step),
{
}

/// A container that was created and whose runner did not get its credential is
/// removed before the creation fails.
pub proof fn half_started_containers_are_removed(
    step: CreationStep,
    outcome: StepOutcome,
    pull_image: bool,
)
    requires
        step == CreationStep::StartContainer || step == CreationStep::SendCredential,
        outcome != StepOutcome::Done,
    ensures
        following(step, outcome, pull_image) == CreationStep::RemoveContainer,
{
}

/// The steps that come before a container is created.
pub open spec fn before_container(step: CreationStep) -> bool {
    remaining_steps(step) >= 5
}

/// A creation that fails leaves no container that was not started and handed its
/// credential: it failed before there was one, or after removing it, or when
/// the runner was already at work.
pub proof fn failures_leave_no_half_started_container(
    step: CreationStep,
    outcome: StepOutcome,
    pull_image: bool,
)
    requires
        step != CreationStep::Failed,
        following(step, outcome, pull_image) == CreationStep::Failed,
    ensures
        before_container(step) || step == CreationStep::RemoveContainer || step
            == CreationStep::InspectContainer,
{
}

/// No container is created while the disk has too little space left, or under a
/// name that is in use.
pub proof fn nothing_is_created_on_a_full_disk(outcome: StepOutcome, pull_image: bool)
    requires
        outcome != StepOutcome::Done,
    ensures
        following(CreationStep::CheckDisk, outcome, pull_image) == CreationStep::Failed,
        following(CreationStep::ListContainers, outcome, pull_image) == CreationStep::Failed,
{
}

/// Whether the name of a new runner is in use by a container.
pub fn container_name_taken(name: &str, existing: &[String]) -> (r: bool)
    ensures
        r == texts(existing@).contains("/"@ + name@),
{
    list_contains(existing, concat("/", name).as_str())
}

// ---------------------------------------------------------------------------
// Controlling runners

/// The identifier of a container: 12 to 64 hexadecimal digits.
pub open spec fn container_id_ok(id: Seq<char>) -> bool {
    12 <= id.len() <= 64 && all_hex(id)
}

/// Every character is a hexadecimal digit.
pub open spec fn all_hex(id: Seq<char>) -> bool {
    forall|i: int| 0 <= i < id.len() ==> hex_digit(#[trigger] id[i])
}

/// The identifier of a runner on a Tart host: `tart-` and 32 hexadecimal digits.
pub open spec fn tart_id_ok(id: Seq<char>) -> bool {
    "tart-"@.is_prefix_of(id) && id.skip("tart-"@.len() as int).len() == 32 && all_hex(
        id.skip("tart-"@.len() as int),
    )
}

fn is_all_hex(id: &str) -> (r: bool)
    ensures
        r == all_hex(id@),
{
    let a: Vec<char> = chars_of(id);
    let mut i: usize = 0;
    while i < a.len()
        invariant
            i <= a@.len(),
            a@ == id@,
            forall|k: int| 0 <= k < i ==> hex_digit(#[trigger] id@[k]),
        decreases a@.len() - i,
    {
        if !is_hex_digit(a[i]) {
            proof {
                assert(!hex_digit(id@[i as int]));
            }
            return false;
        }
        i += 1;
    }
    true
}

/// Checks the identifier of a container.
pub fn validate_container_id(id: &str) -> (r: Result<(), ManagerError>)
    ensures
        refuses_with(
            r,
            if container_id_ok(id@) {
                None
            } else {
                Some(ManagerErrorView::BadRequest("Container identifier is invalid."@))
            },
        ),
{
    let length: usize = chars_of(id).len();
    if 12 <= length && length <= 64 && is_all_hex(id) {
        Ok(())
    } else {
        bad_request("Container identifier is invalid.")
    }
}

/// Whether an identifier is that of a runner on a Tart host.
pub fn is_tart_id(id: &str) -> (r: bool)
    ensures
        r == tart_id_ok(id@),
{
    match strip_prefix(id, "tart-") {
        Some(suffix) => {
            proof {
                assert(id@.skip("tart-"@.len() as int) =~= suffix@);
                assert(id@.take("tart-"@.len() as int) =~= "tart-"@);
            }
            chars_of(suffix.as_str()).len() == 32 && is_all_hex(suffix.as_str())
        },
        None => false,
    }
}

/// Where a runner runs.
#[derive(Debug, Clone, Copy, PartialEq, Eq, Structural)]
pub enum RunnerRoute {
    Docker,
    TartAgent,
}

/// Where the runner of an identifier runs, or why it cannot be reached.
pub fn route_runner(id: &str, tart_configured: bool) -> (r: Result<RunnerRoute, ManagerError>)
    ensures
        if tart_id_ok(id@) {
            if tart_configured {
                r == Ok::<RunnerRoute, ManagerError>(RunnerRoute::TartAgent)
            } else {
                r is Err && r->Err_0@ == tart_disabled()
            }
        } else if container_id_ok(id@) {
            r == Ok::<RunnerRoute, ManagerError>(RunnerRoute::Docker)
        } else {
            r is Err && r->Err_0@ == ManagerErrorView::BadRequest(
                "Container identifier is invalid."@,
            )
        },
{
    if is_tart_id(id) {
        if tart_configured {
            return Ok(RunnerRoute::TartAgent);
        }
        return Err(tart_disabled_error());
    }
    match validate_container_id(id) {
        Ok(_) => Ok(RunnerRoute::Docker),
        Err(error) => Err(error),
    }
}

/// The value of the first label with a key.
pub open spec fn label_value(
    list: Seq<(Seq<char>, Seq<char>)>,
    key: Seq<char>,
    from: int,
) -> Option<Seq<char>>
    decreases list.len() - from,
{
    if from >= list.len() {
        None
    } else if list[from].0 == key {
        Some(list[from].1)
    } else {
        label_value(list, key, from + 1)
    }
}

/// The labels are those of a runner that this system manages.
pub open spec fn managed(list: Seq<(Seq<char>, Seq<char>)>) -> bool {
    &&& label_value(list, "io.gridops.managed"@, 0) == Some("true"@)
    &&& label_value(list, "io.gridops.runner-id"@, 0) is Some
    &&& label_value(list, "io.gridops.runner-id"@, 0)->0.len() > 0
    &&& label_value(list, "io.gridops.pool-id"@, 0) is Some
    &&& label_value(list, "io.gridops.pool-id"@, 0)->0.len() > 0
}

/// The value of the first label with a key.
pub fn find_label<'a>(labels: &'a [LabelEntry], key: &str) -> (r: Option<&'a str>)
    ensures
        crate::config::str_option(r) == label_value(label_pairs(labels@), key@, 0),
{
    let ghost pairs = label_pairs(labels@);
    let mut i: usize = 0;
    while i < labels.len()
        invariant
            i <= labels@.len(),
            pairs == label_pairs(labels@),
            label_value(pairs, key@, i as int) == label_value(pairs, key@, 0),
        decreases labels@.len() - i,
    {
        proof {
            assert(pairs[i as int] == (labels@[i as int].key@, labels@[i as int].value@));
        }
        if same(labels[i].key.as_str(), key) {
            return Some(labels[i].value.as_str());
        }
        i += 1;
    }
    None
}

/// Whether labels are those of a runner that this system manages.
pub fn managed_labels(labels: &[LabelEntry]) -> (r: bool)
    ensures
        r == managed(label_pairs(labels@)),
{
    let marked: bool = match find_label(labels, "io.gridops.managed") {
        Some(value) => same(value, "true"),
        None => false,
    };
    let runner: bool = match find_label(labels, "io.gridops.runner-id") {
        Some(value) => !value.is_empty(),
        None => false,
    };
    let pool: bool = match find_label(labels, "io.gridops.pool-id") {
        Some(value) => !value.is_empty(),
        None => false,
    };
    marked && runner && pool
}

/// Refuses to touch a container that this system does not manage.
pub fn ensure_managed(labels: &[LabelEntry]) -> (r: Result<(), ManagerError>)
    ensures
        refuses_with(
            r,
            if managed(label_pairs(labels@)) {
                None
            } else {
                Some(
                    ManagerErrorView::Forbidden(
                        "GridOps can only control containers carrying its managed-runner label."@,
                    ),
                )
            },
        ),
{
    if managed_labels(labels) {
        Ok(())
    } else {
        Err(
            ManagerError::Forbidden(
                "GridOps can only control containers carrying its managed-runner label."
                    .to_owned(),
            ),
        )
    }
}

/// Every container that the manager makes carries the labels by which it may be
/// controlled later.
pub proof fn created_containers_are_managed(input: ProvisionRunner)
    requires
        input.error() is None,
    ensures
        managed(container_labels(input)),
        label_value(container_labels(input), "io.gridops.mode"@, 0) == Some(input.mode@),
{
    let list = container_labels(input);
    reveal_strlit("io.gridops.managed");
    reveal_strlit("io.gridops.runner-id");
    reveal_strlit("io.gridops.pool-id");
    reveal_strlit("io.gridops.mode");
    assert("io.gridops.managed"@[11] == 'm');
    assert("io.gridops.runner-id"@[11] == 'r');
    assert("io.gridops.pool-id"@[11] == 'p');
    assert("io.gridops.mode"@.len() == 15);
    assert("io.gridops.managed"@.len() == 18);
    assert(list[0].0 == "io.gridops.managed"@);
    assert(list[1].0 == "io.gridops.runner-id"@);
    assert(list[2].0 == "io.gridops.pool-id"@);
    assert(list[3].0 == "io.gridops.mode"@);
    reveal_with_fuel(label_value, 6);
}

/// What is done to a runner.
#[derive(Debug, Clone, Copy, PartialEq, Eq, Structural)]
pub enum ControlAction {
    Start,
    Stop,
    Pause,
    Resume,
    Restart,
}

/// The action of a name.
pub open spec fn action_named(name: Seq<char>) -> Option<ControlAction> {
    if name == "start"@ {
        Some(ControlAction::Start)
    } else if name == "stop"@ {
        Some(ControlAction::Stop)
    } else if name == "pause"@ {
        Some(ControlAction::Pause)
    } else if name == "resume"@ {
        Some(ControlAction::Resume)
    } else if name == "restart"@ {
        Some(ControlAction::Restart)
    } else {
        None
    }
}

/// The action of a name.
pub fn parse_action(name: &str) -> (r: Option<ControlAction>)
    ensures
        r == action_named(name@),
{
    if same(name, "start") {
        Some(ControlAction::Start)
    } else if same(name, "stop") {
        Some(ControlAction::Stop)
    } else if same(name, "pause") {
        Some(ControlAction::Pause)
    } else if same(name, "resume") {
        Some(ControlAction::Resume)
    } else if same(name, "restart") {
        Some(ControlAction::Restart)
    } else {
        None
    }
}

/// Why an action on a container is refused, if it is: a runner for one job does
/// not start a second time, nothing starts while provisioning is paused, and
/// the action must exist.
pub open spec fn control_error(
    action: Seq<char>,
    mode: Option<Seq<char>>,
    paused: bool,
) -> Option<ManagerErrorView> {
    let named = action_named(action);
    let starts = named == Some(ControlAction::Start) || named == Some(ControlAction::Restart);
    if starts && mode == Some("ephemeral"@) {
        Some(
            ManagerErrorView::Conflict(
                "Ephemeral runners cannot be started or restarted; rebuild the runner instead."@,
            ),
        )
    } else if (starts || named == Some(ControlAction::Resume)) && paused {
        paused_error(paused)
    } else if named is None {
        Some(
            ManagerErrorView::BadRequest(
                "Runner action must be start, stop, pause, resume, or restart."@,
            ),
        )
    } else {
        None
    }
}

/// Decides whether an action may be carried out on a container, by the labels
/// that it carries.
pub fn authorize_action(action: &str, labels: &[LabelEntry], paused: bool) -> (r: Result<
    ControlAction,
    ManagerError,
>)
    ensures
        match control_error(
            action@,
            label_value(label_pairs(labels@), "io.gridops.mode"@, 0),
            paused,
        ) {
            Some(error) => r is Err && r->Err_0@ == error,
            None => r is Ok && action_named(action@) == Some(r->Ok_0),
        },
{
    let named: Option<ControlAction> = parse_action(action);
    let ephemeral: bool = match find_label(labels, "io.gridops.mode") {
        Some(mode) => same(mode, "ephemeral"),
        None => false,
    };
    match named {
        Some(found) => {
            let starts: bool = found == ControlAction::Start || found == ControlAction::Restart;
            if starts && ephemeral {
                return Err(
                    ManagerError::Conflict(
                        "Ephemeral runners cannot be started or restarted; rebuild the runner instead."
                            .to_owned(),
                    ),
                );
            }
            if starts || found == ControlAction::Resume {
                if let Err(error) = crate::leases::ensure_provisioning_enabled(paused) {
                    return Err(error);
                }
            }
            Ok(found)
        },
        None => Err(
            ManagerError::BadRequest(
                "Runner action must be start, stop, pause, resume, or restart.".to_owned(),
            ),
        ),
    }
}

/// The state that an action brings a runner to.
pub open spec fn status_of(action: ControlAction) -> Seq<char> {
    match action {
        ControlAction::Stop => "stopped"@,
        ControlAction::Pause => "paused"@,
        _ => "running"@,
    }
}

/// The state that an action brings a runner to.
pub fn status_after(action: ControlAction) -> (r: &'static str)
    ensures
        r@ == status_of(action),
{
    match action {
        ControlAction::Stop => "stopped",
        ControlAction::Pause => "paused",
        _ => "running",
    }
}

/// A container in this state takes up capacity.
pub open spec fn active_container(state: Seq<char>) -> bool {
    state == "created"@ || state == "running"@ || state == "restarting"@ || state == "paused"@
}

/// Whether a container in this state takes up capacity.
pub fn active_container_state(state: &str) -> (r: bool)
    ensures
        r == active_container(state@),
{
    same(state, "created") || same(state, "running") || same(state, "restarting") || same(
        state,
        "paused",
    )
}

/// Whether the answer that nothing was changed ends an action: it does, since
/// the runner is in the wanted state already.
pub fn ignore_not_modified(status: Option<u16>) -> (r: bool)
    ensures
        r == (status == Some(304u16)),
{
    match status {
        Some(304) => true,
        _ => false,
    }
}

/// The host limits of a container.
#[derive(Debug, Clone, Copy)]
pub struct HostLimits {
    pub nano_cpus: Option<i64>,
    pub memory_bytes: Option<i64>,
}

/// What a container uses by its limits.
pub open spec fn container_usage(limits: HostLimits) -> crate::capacity::CapacityUsage {
    crate::capacity::CapacityUsage {
        active_runners: 1,
        cpu: match limits.nano_cpus {
            Some(nanos) => nanos,
            None => 0,
        },
        memory_mb: match limits.memory_bytes {
            Some(bytes) => truncated_megabytes(bytes),
            None => 0,
        },
    }
}

/// A number of bytes in megabytes, without the rest.
pub open spec fn truncated_megabytes(bytes: i64) -> i64 {
    if bytes >= 0 {
        (bytes as int / 1_048_576) as i64
    } else {
        (-((-bytes) as int / 1_048_576)) as i64
    }
}

/// What a container uses by its limits.
pub fn usage_of_container(limits: HostLimits) -> (r: crate::capacity::CapacityUsage)
    ensures
        r == container_usage(limits),
{
    let memory_mb: i64 = match limits.memory_bytes {
        Some(bytes) => if bytes >= 0 {
            bytes / 1_048_576
        } else if bytes == i64::MIN {
            -8_796_093_022_208i64
        } else {
            -((-bytes) / 1_048_576)
        },
        None => 0,
    };
    crate::capacity::CapacityUsage {
        active_runners: 1,
        cpu: match limits.nano_cpus {
            Some(nanos) => nanos,
            None => 0,
        },
        memory_mb,
    }
}

/// What containers use together.
pub open spec fn containers_usage(list: Seq<HostLimits>) -> crate::capacity::CapacityUsage
    decreases list.len(),
{
    if list.len() == 0 {
        crate::capacity::CapacityUsage { active_runners: 0, cpu: 0, memory_mb: 0 }
    } else {
        crate::capacity::used_together(
            containers_usage(list.drop_last()),
            container_usage(list.last()),
        )
    }
}

/// What the active containers of the host use together.
pub fn docker_active_capacity(list: &[HostLimits]) -> (r: crate::capacity::CapacityUsage)
    ensures
        r == containers_usage(list@),
{
    let mut usage: crate::capacity::CapacityUsage = crate::capacity::CapacityUsage {
        active_runners: 0,
        cpu: 0,
        memory_mb: 0,
    };
    let mut i: usize = 0;
    while i < list.len()
        invariant
            i <= list@.len(),
            usage == containers_usage(list@.take(i as int)),
        decreases list@.len() - i,
    {
        proof {
            let next = list@.take(i + 1);
            assert(next.drop_last() =~= list@.take(i as int));
            assert(next.last() == list@[i as int]);
        }
        usage = crate::capacity::combine_usage(usage, usage_of_container(list[i]));
        i += 1;
    }
    proof {
        assert(list@.take(list@.len() as int) =~= list@);
    }
    usage
}

// ---------------------------------------------------------------------------
// Logs

/// How much of a log is asked for: all of it, or a number of lines up to
/// 100000.
pub open spec fn log_tail_ok(value: Seq<char>) -> bool {
    value == "all"@ || (parsed_nat(value) is Some && parsed_nat(value)->0 <= 100_000)
}

/// Whether a text says how much of a log is asked for.
pub fn valid_log_tail(value: &str) -> (r: bool)
    ensures
        r == log_tail_ok(value@),
{
    same(value, "all") || match parse_u64(value) {
        Some(lines) => lines <= 100_000,
        None => false,
    }
}

/// How much of a log is read: 500 lines where nothing is said.
pub fn log_tail(tail: Option<String>) -> (r: Result<String, ManagerError>)
    ensures
        ({
            let value = match tail {
                Some(text) => text@,
                None => "500"@,
            };
            if log_tail_ok(value) {
                r is Ok && r->Ok_0@ == value
            } else {
                r is Err && r->Err_0@ == ManagerErrorView::BadRequest(
                    "Log tail must be all or a number from 0 to 100000."@,
                )
            }
        }),
{
    let value: String = match tail {
        Some(text) => text,
        None => "500".to_owned(),
    };
    if valid_log_tail(value.as_str()) {
        Ok(value)
    } else {
        Err(
            ManagerError::BadRequest(
                "Log tail must be all or a number from 0 to 100000.".to_owned(),
            ),
        )
    }
}

/// The path at which the Tart agent offers the log of a runner.
pub fn tart_log_path(id: &str, tail: &str, follow: bool) -> (r: String)
    ensures
        r@ == "v1/runners/"@ + id@ + "/logs?tail="@ + tail@ + "&follow="@ + if follow {
            "true"@
        } else {
            "false"@
        },
{
    let head: String = concat5("v1/runners/", id, "/logs?tail=", tail, "&follow=");
    if follow {
        concat(head.as_str(), "true")
    } else {
        concat(head.as_str(), "false")
    }
}

// ---------------------------------------------------------------------------
// The Tart agent

/// Where the Tart agent is, and the token that it expects.
pub struct TartAgentSetting {
    pub base_url: String,
    pub token: String,
}

/// The Tart agent of two settings, for the normal form and the scheme of its
/// address: none where neither is set, an error where only one is or where the
/// address is not one of the web.
pub open spec fn tart_setting(
    url: Option<Seq<char>>,
    token: Option<Seq<char>>,
    normal: Option<Seq<char>>,
    scheme: Option<Seq<char>>,
) -> Result<Option<(Seq<char>, Seq<char>)>, Seq<char>> {
    if url is None && token is None {
        Ok(None)
    } else if url is None || token is None {
        Err("GRIDOPS_TART_AGENT_URL and GRIDOPS_TART_AGENT_TOKEN must be configured together"@)
    } else if normal is None {
        Err("GRIDOPS_TART_AGENT_URL is invalid"@)
    } else if scheme != Some("http"@) && scheme != Some("https"@) {
        Err("GRIDOPS_TART_AGENT_URL must use HTTP or HTTPS"@)
    } else {
        Ok(Some((normal->0, token->0)))
    }
}

/// The model of an agent's setting.
pub open spec fn tart_setting_view(
    result: Result<Option<TartAgentSetting>, String>,
) -> Result<Option<(Seq<char>, Seq<char>)>, Seq<char>> {
    match result {
        Ok(Some(setting)) => Ok(Some((setting.base_url@, setting.token@))),
        Ok(None) => Ok(None),
        Err(message) => Err(message@),
    }
}

/// The Tart agent of two settings that are not blank, for the normal form and
/// the scheme of its address.
pub fn tart_agent_from_parts(
    url: Option<String>,
    token: Option<String>,
    normal: Option<String>,
    scheme: Option<String>,
) -> (r: Result<Option<TartAgentSetting>, String>)
    ensures
        tart_setting_view(r) == tart_setting(
            text_option(url),
            text_option(token),
            text_option(normal),
            text_option(scheme),
        ),
{
    match (url, token) {
        (None, None) => Ok(None),
        (Some(_), Some(token)) => match normal {
            None => Err("GRIDOPS_TART_AGENT_URL is invalid".to_owned()),
            Some(base_url) => {
                let web: bool = match &scheme {
                    Some(scheme) => same(scheme.as_str(), "http") || same(
                        scheme.as_str(),
                        "https",
                    ),
                    None => false,
                };
                if web {
                    Ok(Some(TartAgentSetting { base_url, token }))
                } else {
                    Err("GRIDOPS_TART_AGENT_URL must use HTTP or HTTPS".to_owned())
                }
            },
        },
        _ => Err(
            "GRIDOPS_TART_AGENT_URL and GRIDOPS_TART_AGENT_TOKEN must be configured together"
                .to_owned(),
        ),
    }
}

/// The Tart agent of two settings: none where neither is set.
pub fn tart_agent_from_environment(url: &Option<String>, token: &Option<String>) -> (r: Result<
    Option<TartAgentSetting>,
    String,
>)
    ensures
        ({
            let set_url = not_blank(text_option(*url));
            tart_setting_view(r) == tart_setting(
                set_url,
                not_blank(text_option(*token)),
                match set_url {
                    Some(text) => url_normal(text),
                    None => None,
                },
                match set_url {
                    Some(text) => url_scheme(text),
                    None => None,
                },
            )
        }),
{
    let set_url: Option<String> = optional(url);
    let set_token: Option<String> = optional(token);
    let (normal, scheme) = match &set_url {
        Some(text) => (normal_url(text.as_str()), scheme_of(text.as_str())),
        None => (None, None),
    };
    tart_agent_from_parts(set_url, set_token, normal, scheme)
}

/// The error of an answer of the Tart agent that is no success, with the code
/// and the message among the members of its body where it has them.
pub fn tart_agent_error(status: u16, answer: &[Member], body: &str) -> (r: ManagerError)
    ensures
        r@ == (ManagerErrorView::Upstream {
            status,
            code: match text_member(answer@, "code"@) {
                Some(code) => code,
                None => "tart_agent_error"@,
            },
            message: first_chars(
                match text_member(answer@, "error"@) {
                    Some(message) => message,
                    None => body@,
                },
                2_000,
            ),
        }),
{
    ManagerError::Upstream {
        status,
        code: match string(answer, "code") {
            Some(code) => code.to_owned(),
            None => "tart_agent_error".to_owned(),
        },
        message: match string(answer, "error") {
            Some(message) => take_chars(message, 2_000),
            None => take_chars(body, 2_000),
        },
    }
}

/// The error of an answer of the Tart agent to a request for a log that is no
/// success.
pub fn tart_log_error(status: u16, body: &str) -> (r: ManagerError)
    ensures
        r@ == (ManagerErrorView::Upstream {
            status,
            code: "tart_log_error"@,
            message: first_chars(body@, 2_000),
        }),
{
    ManagerError::Upstream {
        status,
        code: "tart_log_error".to_owned(),
        message: take_chars(body, 2_000),
    }
}

// ---------------------------------------------------------------------------
// What the manager lets through

/// A request to start a runner is in order exactly if it names its runner, its pool and its
/// lease, has a name that Docker takes, an image, and limits that are supported; if it is
/// for one job and has the configuration of that one, or stays and can register itself; and
/// if it is for Docker, with a network that Docker takes, or for Tart and for one job.
pub proof fn starts_in_order(input: ProvisionRunner)
    ensures
        input.error() is None <==> {
            &&& input.runner_id@.len() > 0
            &&& input.pool_id@.len() > 0
            &&& input.capacity_lease@.len() > 0 && utf8_len(input.capacity_lease@) <= 128
            &&& docker_name_ok(input.name@)
            &&& !blank(input.image@) && utf8_len(input.image@) <= 512
            &&& 250_000_000 <= input.cpu_limit <= 64_000_000_000
            &&& 256 <= input.memory_limit_mb <= 262_144
            &&& {
                ||| input.mode@ == "ephemeral"@ && input.jit_config is Some && 20 <= utf8_len(
                    input.jit_config->0@,
                ) <= 900_000 && !input.jit_config->0@.contains('\n')
                    && !input.jit_config->0@.contains('\r')
                ||| input.mode@ == "persistent"@ && input.mode@ != "ephemeral"@
                    && input.registration_ok()
            }
            &&& {
                ||| input.provider@ == "docker"@ && docker_name_ok(input.network@)
                ||| input.provider@ == "tart"@ && input.provider@ != "docker"@ && input.mode@
                    == "ephemeral"@
            }
        },
        input.error() is Some ==> input.error()->0 is BadRequest,
{
    lemma_providers_differ();
}

proof fn lemma_providers_differ()
    ensures
        "docker"@ != "tart"@,
{
    reveal_strlit("docker");
    reveal_strlit("tart");
    assert("docker"@.len() == 6 && "tart"@.len() == 4);
}

/// A runner that stays can register itself exactly if it has a token of one line, an
/// address below GitHub's without white space, at least one and at most a hundred labels
/// that can be told apart, and a group of one line where it has one.
pub proof fn registrations_in_order(input: ProvisionRunner)
    ensures
        input.registration_ok() ==> {
            &&& input.registration_token is Some
            &&& 20 <= utf8_len(input.registration_token->0@) <= 2_048
            &&& !input.registration_token->0@.contains('\n')
            &&& input.registration_url is Some
            &&& "https://github.com/"@.is_prefix_of(input.registration_url->0@)
            &&& !input.registration_url->0@.contains(' ')
            &&& !input.registration_url->0@.contains('\n')
            &&& 1 <= input.labels@.len() <= 100
            &&& forall|i: int|
                0 <= i < input.labels@.len() ==> (#[trigger] input.labels@[i])@.len() > 0
                    && !input.labels@[i]@.contains(',') && !input.labels@[i]@.contains('\n')
            &&& input.runner_group is Some ==> 0 < utf8_len(input.runner_group->0@) <= 100
                && !input.runner_group->0@.contains('\n')
        },
{
    if input.registration_ok() {
        let url = input.registration_url->0@;
        assert forall|i: int| 0 <= i < url.len() implies url[i] != ' ' && url[i] != '\n' by {
            assert(!ascii_space(url[i]));
        }
        assert forall|i: int| 0 <= i < input.labels@.len() implies (
        #[trigger] input.labels@[i])@.len() > 0 && !input.labels@[i]@.contains(',')
            && !input.labels@[i]@.contains('\n') by {
            assert(registration_label_ok(texts(input.labels@)[i]));
        }
        if input.runner_group is Some {
            let group = input.runner_group->0@;
            vstd::utf8::encode_utf8_decode_utf8(group);
            if utf8_len(group) == 0 {
                assert(vstd::utf8::encode_utf8(group) =~= Seq::empty());
                assert(vstd::utf8::decode_utf8(Seq::<u8>::empty()) =~= Seq::<char>::empty());
            }
        }
    }
}

/// Nothing is started while provisioning is paused, or in another network than the one of
/// the host; and a request that is in order is not refused otherwise before its lease is
/// looked at.
pub proof fn starts_wait_and_stay_in_their_network(
    input: ProvisionRunner,
    paused: bool,
    network: Seq<char>,
)
    ensures
        paused ==> early_refusal(input, paused, network) is Some,
        input.network@ != network ==> early_refusal(input, paused, network) is Some,
        input.error() is Some ==> early_refusal(input, paused, network) == input.error(),
        input.error() is None && !paused && input.network@ != network ==> early_refusal(
            input,
            paused,
            network,
        )->0 is Forbidden,
        input.error() is None && !paused && input.network@ == network ==> early_refusal(
            input,
            paused,
            network,
        ) is None,
{
}

/// A runner for one job is never started again, nothing is started or resumed while
/// provisioning is paused, anything can be stopped and paused at any time, and no other
/// action is carried out.
pub proof fn actions_that_are_carried_out(
    action: Seq<char>,
    mode: Option<Seq<char>>,
    paused: bool,
)
    ensures
        (action == "start"@ || action == "restart"@) && mode == Some("ephemeral"@)
            ==> control_error(action, mode, paused) is Some && control_error(
            action,
            mode,
            paused,
        )->0 is Conflict,
        (action == "start"@ || action == "restart"@ || action == "resume"@) && paused
            ==> control_error(action, mode, paused) is Some,
        (action == "start"@ || action == "restart"@) && mode != Some("ephemeral"@) && !paused
            ==> control_error(action, mode, paused) is None,
        action == "resume"@ && !paused ==> control_error(action, mode, paused) is None,
        action == "stop"@ || action == "pause"@ ==> control_error(action, mode, paused) is None,
        action != "start"@ && action != "stop"@ && action != "pause"@ && action != "resume"@
            && action != "restart"@ ==> control_error(action, mode, paused) is Some
            && control_error(action, mode, paused)->0 is BadRequest,
        action == "start"@ ==> action_named(action) == Some(ControlAction::Start),
        action == "stop"@ ==> action_named(action) == Some(ControlAction::Stop),
        action == "pause"@ ==> action_named(action) == Some(ControlAction::Pause),
        action == "resume"@ ==> action_named(action) == Some(ControlAction::Resume),
        action == "restart"@ ==> action_named(action) == Some(ControlAction::Restart),
{
    reveal_strlit("start");
    reveal_strlit("stop");
    reveal_strlit("pause");
    reveal_strlit("resume");
    reveal_strlit("restart");
    assert("start"@[0] == 's' && "start"@[2] == 'a' && "stop"@[0] == 's' && "stop"@[2] == 'o'
        && "pause"@[0] == 'p' && "resume"@[0] == 'r' && "restart"@[0] == 'r' && "resume"@[3]
        == 'u' && "restart"@[3] == 't');
}

/// A container takes up capacity from when it is created until it has ended: while it is
/// created, running, restarting or paused.
pub proof fn containers_take_up_capacity_until_they_end()
    ensures
        active_container("created"@),
        active_container("running"@),
        active_container("restarting"@),
        active_container("paused"@),
        !active_container("exited"@),
        !active_container("dead"@),
        !active_container("removing"@),
{
    reveal_strlit("created");
    reveal_strlit("running");
    reveal_strlit("restarting");
    reveal_strlit("paused");
    reveal_strlit("exited");
    reveal_strlit("dead");
    reveal_strlit("removing");
    assert("exited"@[0] == 'e' && "dead"@[0] == 'd' && "removing"@[0] == 'r' && "removing"@[2]
        == 'm' && "running"@[2] == 'n' && "restarting"@[2] == 's' && "created"@[0] == 'c'
        && "paused"@[0] == 'p');
}

/// Each active container counts as one runner with its own processors and whole megabytes
/// of memory.
pub proof fn containers_use_what_they_are_limited_to(list: Seq<HostLimits>, one: HostLimits)
    requires
        containers_usage(list).active_runners < usize::MAX,
        one.nano_cpus is Some ==> i64::MIN <= containers_usage(list).cpu + one.nano_cpus->0
            <= i64::MAX,
        one.memory_bytes is Some ==> one.memory_bytes->0 >= 0 && containers_usage(list).memory_mb
            + one.memory_bytes->0 <= i64::MAX,
    ensures
        ({
            let before = containers_usage(list);
            let after = containers_usage(list.push(one));
            &&& after.active_runners == before.active_runners + 1
            &&& one.nano_cpus is Some ==> after.cpu == before.cpu + one.nano_cpus->0
            &&& one.nano_cpus is None ==> after.cpu == before.cpu
            &&& one.memory_bytes is Some ==> after.memory_mb == before.memory_mb
                + one.memory_bytes->0 as int / 1_048_576
            &&& one.memory_bytes is None ==> after.memory_mb == before.memory_mb
        }),
{
    assert(list.push(one).drop_last() =~= list);
    if one.memory_bytes is Some {
        let bytes = one.memory_bytes->0 as int;
        assert(0 <= bytes / 1_048_576 <= bytes);
    }
}

/// The value of a label is that of the first entry with its key.
pub proof fn labels_are_found_by_their_key(
    list: Seq<(Seq<char>, Seq<char>)>,
    key: Seq<char>,
    from: int,
    i: int,
)
    requires
        0 <= from <= i < list.len(),
        list[i].0 == key,
        forall|k: int| from <= k < i ==> (#[trigger] list[k]).0 != key,
    ensures
        label_value(list, key, from) == Some(list[i].1),
    decreases i - from,
{
    if from < i {
        labels_are_found_by_their_key(list, key, from + 1, i);
    }
}

/// A container that does not say that it is managed, or names no runner or no pool, is left
/// alone.
pub proof fn other_containers_are_left_alone(list: Seq<(Seq<char>, Seq<char>)>)
    ensures
        (forall|k: int|
            0 <= k < list.len() ==> !((#[trigger] list[k]).0 == "io.gridops.managed"@ && list[k].1
                == "true"@)) ==> !managed(list),
        (forall|k: int|
            0 <= k < list.len() ==> !((#[trigger] list[k]).0 == "io.gridops.runner-id"@
                && list[k].1.len() > 0)) ==> !managed(list),
        (forall|k: int|
            0 <= k < list.len() ==> !((#[trigger] list[k]).0 == "io.gridops.pool-id"@
                && list[k].1.len() > 0)) ==> !managed(list),
{
    lemma_label_is_there(list, "io.gridops.managed"@, 0);
    lemma_label_is_there(list, "io.gridops.runner-id"@, 0);
    lemma_label_is_there(list, "io.gridops.pool-id"@, 0);
}

proof fn lemma_label_is_there(list: Seq<(Seq<char>, Seq<char>)>, key: Seq<char>, from: int)
    requires
        0 <= from,
    ensures
        label_value(list, key, from) is Some ==> exists|k: int|
            from <= k < list.len() && (#[trigger] list[k]).0 == key && list[k].1 == label_value(
                list,
                key,
                from,
            )->0,
    decreases list.len() - from,
{
    if from < list.len() && list[from].0 != key {
        lemma_label_is_there(list, key, from + 1);
    } else if from < list.len() {
        assert(list[from].0 == key);
    }
}

/// No identifier is both that of a container and that of a machine of Tart, and neither can
/// lead out of a path.
pub proof fn identifiers_stay_in_their_path(id: Seq<char>)
    ensures
        !(container_id_ok(id) && tart_id_ok(id)),
        container_id_ok(id) || tart_id_ok(id) ==> 12 <= id.len() <= 64 && !id.contains('/')
            && !id.contains('.') && !id.contains('?') && !id.contains('%'),
{
    reveal_strlit("tart-");
    let rest = id.skip(5);
    if tart_id_ok(id) {
        assert(id.take(5) =~= "tart-"@);
        assert(id[0] == id.take(5)[0] && id[1] == id.take(5)[1] && id[2] == id.take(5)[2] && id[3]
            == id.take(5)[3] && id[4] == id.take(5)[4]);
        assert(!hex_digit('t'));
        assert forall|i: int| 0 <= i < id.len() implies id[i] != '/' && id[i] != '.' && id[i]
            != '?' && id[i] != '%' by {
            if i >= 5 {
                assert(hex_digit(rest[i - 5]));
                assert(rest[i - 5] == id[i]);
            }
        }
    }
    if container_id_ok(id) {
        assert(hex_digit(id[0]));
        assert forall|i: int| 0 <= i < id.len() implies id[i] != '/' && id[i] != '.' && id[i]
            != '?' && id[i] != '%' by {
            assert(hex_digit(id[i]));
        }
    }
}

/// A log is asked for whole, or by a number of lines of at most 100000.
pub proof fn log_tails_are_bounded(n: nat)
    ensures
        log_tail_ok("all"@),
        log_tail_ok(decimal(n)) <==> n <= 100_000,
{
    decimal_reads_back(n);
    lemma_decimal_value(n);
    reveal_strlit("all");
    assert(digit(decimal(n)[0]));
    assert("all"@[0] == 'a');
}

/// A container is created only after the disk was found to have room and the name to be
/// free; it gets its credential only after it was started, and counts as created only after
/// that; an image is pulled where it is missing or where that is asked for.
pub proof fn creation_takes_its_steps_in_order(
    step: CreationStep,
    outcome: StepOutcome,
    pull_image: bool,
)
    ensures
        ({
            let next = following(step, outcome, pull_image);
            &&& next == CreationStep::ListContainers ==> step == CreationStep::CheckDisk && outcome
                == StepOutcome::Done
            &&& next == CreationStep::CreateContainer ==> step == CreationStep::ListContainers
                && outcome == StepOutcome::Done
            &&& next == CreationStep::StartContainer ==> step == CreationStep::CreateContainer
                && outcome == StepOutcome::Done
            &&& next == CreationStep::SendCredential ==> step == CreationStep::StartContainer
                && outcome == StepOutcome::Done
            &&& next == CreationStep::InspectContainer ==> step == CreationStep::SendCredential
                && outcome == StepOutcome::Done
            &&& next == CreationStep::Created ==> step == CreationStep::Created || (step
                == CreationStep::InspectContainer && outcome == StepOutcome::Done)
            &&& step == CreationStep::InspectImage && (outcome == StepOutcome::Missing || (outcome
                == StepOutcome::Done && pull_image)) ==> next == CreationStep::PullImage
            &&& step == CreationStep::InspectImage && outcome == StepOutcome::Done && !pull_image
                ==> next == CreationStep::CheckDisk
            &&& step == CreationStep::InspectNetwork && outcome == StepOutcome::Missing ==> next
                == CreationStep::CreateNetwork
            &&& step == CreationStep::RemoveContainer ==> next == CreationStep::Failed
            &&& outcome == StepOutcome::Error && step != CreationStep::Created && step
                != CreationStep::StartContainer && step != CreationStep::SendCredential ==> next
                == CreationStep::Failed
        }),
{
}

/// Where no step goes wrong, a container is created.
pub proof fn creation_succeeds_where_nothing_goes_wrong(pull_image: bool)
    ensures
        ({
            let go = |step: CreationStep| following(step, StepOutcome::Done, pull_image);
            let image = if pull_image {
                go(go(CreationStep::InspectNetwork))
            } else {
                go(CreationStep::InspectNetwork)
            };
            go(go(go(go(go(go(go(image))))))) == CreationStep::Created
        }),
{
}

/// The environment of a runner that stays tells it where to register and under which name,
/// labels and group; a runner for one job has none.
pub proof fn environments_tell_how_to_register(
    url: Seq<char>,
    name: Seq<char>,
    label: Seq<char>,
    group: Option<Seq<char>>,
)
    ensures
        command_environment("ephemeral"@, url, name, seq![label], group).len() == 0,
        ({
            let told = command_environment("persistent"@, url, name, seq![label], group);
            &&& told.len() == 4
            &&& told.contains("GRIDOPS_REGISTRATION_URL="@ + url)
            &&& told.contains("GRIDOPS_RUNNER_NAME="@ + name)
            &&& told.contains("GRIDOPS_RUNNER_LABELS="@ + label)
            &&& group is Some ==> told.contains("GRIDOPS_RUNNER_GROUP="@ + group->0)
        }),
        EPHEMERAL_SETUP@.is_prefix_of(command_line("ephemeral"@)[2]),
        PERSISTENT_SETUP@.is_prefix_of(command_line("persistent"@)[2]),
{
    reveal_strlit("ephemeral");
    reveal_strlit("persistent");
    assert("ephemeral"@[0] == 'e' && "persistent"@[0] == 'p');
    let told = command_environment("persistent"@, url, name, seq![label], group);
    reveal_with_fuel(joined, 2);
    assert(joined(seq![label], ","@) =~= label) by {
        assert(seq![label].drop_last() =~= Seq::empty());
    }
    assert(told[0] == "GRIDOPS_REGISTRATION_URL="@ + url);
    assert(told[1] == "GRIDOPS_RUNNER_NAME="@ + name);
    assert(told[2] == "GRIDOPS_RUNNER_LABELS="@ + label);
    if group is Some {
        assert(told[3] == "GRIDOPS_RUNNER_GROUP="@ + group->0);
    }
    let (one, other) = (command_line("ephemeral"@)[2], command_line("persistent"@)[2]);
    assert(one.take(EPHEMERAL_SETUP@.len() as int) =~= EPHEMERAL_SETUP@);
    assert(other.take(PERSISTENT_SETUP@.len() as int) =~= PERSISTENT_SETUP@);
}

/// A runner for one job starts with its own configuration and one that stays with its
/// token; no other credential is handed out.
pub proof fn runners_start_with_their_own_credential(
    mode: Seq<char>,
    jit_config: Option<String>,
    registration_token: Option<String>,
)
    ensures
        mode == "ephemeral"@ ==> credential(mode, jit_config, registration_token) == text_option(
            jit_config,
        ),
        mode == "persistent"@ ==> credential(mode, jit_config, registration_token) == text_option(
            registration_token,
        ),
        mode != "ephemeral"@ && mode != "persistent"@ ==> credential(
            mode,
            jit_config,
            registration_token,
        ) is None,
{
    reveal_strlit("ephemeral");
    reveal_strlit("persistent");
    assert("ephemeral"@[0] == 'e' && "persistent"@[0] == 'p');
}

/// The Tart agent is set up exactly if both its address and its token are set and the
/// address is one of the web; with neither there is none, and with one alone or another
/// address the settings are refused.
pub proof fn the_agent_needs_an_address_and_a_token(
    url: Option<Seq<char>>,
    token: Option<Seq<char>>,
    normal: Option<Seq<char>>,
    scheme: Option<Seq<char>>,
)
    ensures
        url is None && token is None <==> tart_setting(url, token, normal, scheme) == Ok::<
            Option<(Seq<char>, Seq<char>)>,
            Seq<char>,
        >(None),
        url is Some && token is Some && normal is Some && (scheme == Some("http"@) || scheme
            == Some("https"@)) ==> tart_setting(url, token, normal, scheme) == Ok::<
            Option<(Seq<char>, Seq<char>)>,
            Seq<char>,
        >(Some((normal->0, token->0))),
        (url is Some) != (token is Some) ==> tart_setting(url, token, normal, scheme) is Err,
        url is Some && (normal is None || (scheme != Some("http"@) && scheme != Some("https"@)))
            ==> tart_setting(url, token, normal, scheme) is Err,
{
}

/// A runner's container has the processors and the memory that were asked for and no swap
/// besides; it has no capabilities and gains none; the number of its processes and what is kept
/// of its log are limited as on the whole host; and its labels name it.
pub proof fn containers_are_confined(
    plan: ContainerPlan,
    input: ProvisionRunner,
    limits: ManagerLimits,
)
    requires
        plans_container(plan, input, limits),
    ensures
        plan.image@ == input.image@,
        plan.network@ == input.network@,
        plan.nano_cpus == input.cpu_limit,
        plan.memory_bytes == input.memory_limit_mb * 1_024 * 1_024,
        plan.memory_swap_bytes == plan.memory_bytes,
        plan.pids_limit == limits.runner_pids_limit,
        plan.log_driver@ == "json-file"@,
        plan.log_max_size@ == limits.log_max_size@,
        plan.log_max_files == limits.log_max_files,
        plan.dropped_capabilities@.len() == 1 && plan.dropped_capabilities@[0]@ == "ALL"@,
        plan.security_options@.len() == 1 && plan.security_options@[0]@
            == "no-new-privileges:true"@,
        plan.oom_score > 0,
        !plan.removed_at_exit,
        plan.takes_input,
        input.mode@ == "ephemeral"@ ==> plan.environment@.len() == 0,
        plan.labels@.len() == 4,
        plan.labels@[0].key@ == "io.gridops.managed"@ && plan.labels@[0].value@ == "true"@,
        plan.labels@[1].key@ == "io.gridops.runner-id"@ && plan.labels@[1].value@
            == input.runner_id@,
        plan.labels@[2].key@ == "io.gridops.pool-id"@ && plan.labels@[2].value@ == input.pool_id@,
        plan.labels@[3].key@ == "io.gridops.mode"@ && plan.labels@[3].value@ == input.mode@,
{
    let dropped = texts(plan.dropped_capabilities@);
    let options = texts(plan.security_options@);
    let pairs = label_pairs(plan.labels@);
    assert(dropped.len() == 1 && options.len() == 1 && pairs.len() == 4);
    assert(dropped[0] == "ALL"@ && options[0] == "no-new-privileges:true"@);
    assert(pairs[0] == ("io.gridops.managed"@, "true"@));
    assert(pairs[1] == ("io.gridops.runner-id"@, input.runner_id@));
    assert(pairs[2] == ("io.gridops.pool-id"@, input.pool_id@));
    assert(pairs[3] == ("io.gridops.mode"@, input.mode@));
    assert(input.memory_limit_mb * 1_024 * 1_024 == input.memory_limit_mb * 1_048_576)
        by (nonlinear_arith);
    assert(texts(plan.environment@).len() == plan.environment@.len());
}

/// A container is known by 12 to 64 hexadecimal digits, and a machine of Tart by 32 of them
/// behind its kind.
pub proof fn identifiers_are_hexadecimal(id: Seq<char>)
    ensures
        container_id_ok(id) <==> id.len() >= 12 && id.len() <= 64 && forall|i: int|
            0 <= i < id.len() ==> ('0' <= #[trigger] id[i] <= '9' || 'a' <= id[i] <= 'f' || 'A'
                <= id[i] <= 'F'),
        id.len() == 32 && (forall|i: int|
            0 <= i < id.len() ==> ('0' <= #[trigger] id[i] <= '9' || 'a' <= id[i] <= 'f' || 'A'
                <= id[i] <= 'F')) ==> tart_id_ok("tart-"@ + id),
        tart_id_ok(id) ==> id.len() == 37,
{
    if container_id_ok(id) {
        assert forall|i: int| 0 <= i < id.len() implies ('0' <= #[trigger] id[i] <= '9' || 'a'
            <= id[i] <= 'f' || 'A' <= id[i] <= 'F') by {
            assert(hex_digit(id[i]));
        }
    }
    reveal_strlit("tart-");
    let whole = "tart-"@ + id;
    assert(whole.skip(5) =~= id);
    assert(whole.take(5) =~= "tart-"@);
}

/// A machine is refused as unavailable where Tart is not set up; an action leaves a runner
/// stopped, paused or running; and white space, of which a registration address has none, is
/// a blank, a tab or the end of a line or page.
pub proof fn refusals_and_states_of_the_manager(c: char)
    ensures
        tart_disabled() is Upstream,
        tart_disabled()->status == 503,
        tart_disabled()->Upstream_code == "tart_provider_disabled"@,
        status_of(ControlAction::Stop) == "stopped"@,
        status_of(ControlAction::Pause) == "paused"@,
        status_of(ControlAction::Start) == "running"@,
        status_of(ControlAction::Resume) == "running"@,
        status_of(ControlAction::Restart) == "running"@,
        ascii_space(c) <==> c == ' ' || c == '\t' || c == '\n' || c == '\r' || c == '\u{c}',
{
}

}
