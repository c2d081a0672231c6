//! Starting a runner: what it is for, where it runs, how it registers, what the
//! manager is asked, and what a start that fails undoes.
use vstd::prelude::*;

use crate::autoscaling::{
    arch_label, deficit, effective, effective_runner_labels, foremost, neediest,
    next_runner_provider, next_runner_repository, runner_arch_label, system_labels,
    the_next_runner_goes_where_most_are_missing, ProviderCapacity, RepositoryCapacity,
};
use crate::bitbucket::BitbucketRunner;
use crate::capacity::docker_name_ok;
use crate::error::{fails_as, ApiError, ErrorView};
use crate::github::JitRequest;
use crate::manager::{
    one_line, registration_label_ok, registration_url_ok, ProvisionRunner,
};
use crate::models::{
    image_of, image_ok, label_ok, pool_name_ok, provider_ok, providers_of, settings_error,
    PoolSettings,
};
use crate::order::sorted_set_of;
use crate::pages::runner_registration_url;
use crate::payload::{string, text_member, Member};
use crate::pool_changes::PoolAccess;
use crate::provisioning::{failure_cleanup, plan, ProvisioningPlan};
use crate::search::{blank, first_chars, lemma_trimmed_empty, list_contains, take_chars};
use crate::text::{
    alphanumeric, concat3, copy_strings, digit, lowercase_letter, same, text_option, texts,
    utf8_len,
};

verus! {

/// A connection of a pool to a Bitbucket workspace.
#[derive(Debug)]
pub struct BitbucketPoolConnection {
    pub id: String,
    pub workspace: String,
    pub workspace_uuid: String,
    pub access_token_key: String,
}

// ---------------------------------------------------------------------------
// Choosing what to start

/// Why no runner of a pool is started, if none is.
pub open spec fn start_error(pool_paused: bool, provisioning_paused: bool) -> Option<ErrorView> {
    if pool_paused {
        Some(ErrorView::Conflict("Runner pool is paused."@))
    } else if provisioning_paused {
        Some(ErrorView::Conflict("Runner provisioning is globally paused."@))
    } else {
        None
    }
}

/// Refuses to start a runner of a pool that is paused, or while nothing is
/// started.
pub fn check_start(pool_paused: bool, provisioning_paused: bool) -> (r: Result<(), ApiError>)
    ensures
        fails_as(r, start_error(pool_paused, provisioning_paused)),
{
    if pool_paused {
        return Err(ApiError::Conflict("Runner pool is paused.".to_owned()));
    }
    if provisioning_paused {
        return Err(ApiError::Conflict("Runner provisioning is globally paused.".to_owned()));
    }
    Ok(())
}

/// The name of a new runner.
pub fn new_runner_name(pool_name: &str, suffix: &str) -> (r: String)
    ensures
        r@ == pool_name@ + "-"@ + suffix@,
{
    concat3(pool_name, "-", suffix)
}

/// The repository that a new runner of a pool for repositories is for: the one
/// that is preferred, or else the foremost one. A runner of another pool is for
/// no repository.
pub fn start_repository(
    scope: &str,
    preferred: Option<RepositoryCapacity>,
    capacities: &[RepositoryCapacity],
    factor: i64,
) -> (r: Result<Option<RepositoryCapacity>, ApiError>)
    ensures
        if scope@ != "repository"@ {
            r is Ok && r->Ok_0 is None
        } else {
            match preferred {
                Some(repository) => r is Ok && r->Ok_0 == Some(repository),
                None => if capacities@.len() == 0 {
                    r is Err && r->Err_0@ == ErrorView::Conflict(
                        "Runner pool has no available repositories."@,
                    )
                } else {
                    r is Ok && r->Ok_0 is Some && (r->Ok_0->0)@ == capacities@[foremost(
                        capacities@,
                        factor,
                        capacities@.len() as int,
                    )]@
                },
            }
        },
{
    if !same(scope, "repository") {
        return Ok(None);
    }
    let chosen: Option<RepositoryCapacity> = match preferred {
        Some(repository) => Some(repository),
        None => next_runner_repository(capacities, factor),
    };
    match chosen {
        Some(repository) => Ok(Some(repository)),
        None => Err(ApiError::Conflict("Runner pool has no available repositories.".to_owned())),
    }
}

/// The provider of a new runner, if the pool has one: Tart where the pool has it
/// and a Bitbucket workspace waits for a runner, or else the neediest one.
pub open spec fn provider_chosen(
    providers: Seq<Seq<char>>,
    connection_waits: bool,
    capacities: Seq<ProviderCapacity>,
    factor: i64,
) -> Option<Seq<char>> {
    if connection_waits && providers.contains("tart"@) {
        Some("tart"@)
    } else if capacities.len() == 0 {
        None
    } else {
        match neediest(capacities, factor, capacities.len() as int) {
            Some(k) => Some(capacities[k].provider@),
            None => Some(capacities[0].provider@),
        }
    }
}

/// The provider of a new runner.
pub fn start_provider(
    providers: &[String],
    connection_waits: bool,
    capacities: &[ProviderCapacity],
    factor: i64,
) -> (r: Result<String, ApiError>)
    ensures
        match provider_chosen(texts(providers@), connection_waits, capacities@, factor) {
            Some(provider) => r is Ok && r->Ok_0@ == provider,
            None => r is Err && r->Err_0@ == ErrorView::Conflict(
                "Runner pool has no configured providers."@,
            ),
        },
{
    if connection_waits && list_contains(providers, "tart") {
        return Ok("tart".to_owned());
    }
    match next_runner_provider(capacities, factor) {
        Some(provider) => Ok(provider),
        None => Err(ApiError::Conflict("Runner pool has no configured providers.".to_owned())),
    }
}

/// The providers of a pool as they are listed; its own one where none is.
pub open spec fn providers_or_own(providers: Seq<Seq<char>>, own: Seq<char>) -> Seq<Seq<char>> {
    if providers.len() == 0 {
        seq![own]
    } else {
        providers
    }
}

/// The providers of a pool as they are listed; its own one where none is.
pub fn pool_providers(mut providers: Vec<String>, own: &str) -> (r: Vec<String>)
    ensures
        texts(r@) == providers_or_own(texts(providers@), own@),
{
    let ghost given = texts(providers@);
    if providers.len() == 0 {
        providers.push(own.to_owned());
        proof {
            assert(given.len() == 0);
            assert(texts(providers@) =~= seq![own@]);
        }
    }
    providers
}

/// The system and the architecture of a runner of a provider.
pub fn runner_system(architecture: &str, provider: &str) -> (r: (&'static str, String))
    ensures
        provider@ == "tart"@ ==> r.0@ == "macOS"@ && r.1@ == "ARM64"@,
        provider@ != "tart"@ ==> r.0@ == "linux"@ && r.1@ == arch_label(architecture@),
{
    if same(provider, "tart") {
        ("macOS", "ARM64".to_owned())
    } else {
        ("linux", runner_arch_label(architecture))
    }
}

/// A runner that is to be started.
#[derive(Debug)]
pub struct StartDraft {
    pub runner_id: String,
    pub pool_id: String,
    pub name: String,
    pub plan: ProvisioningPlan,
    pub labels: Vec<String>,
    pub repository: Option<RepositoryCapacity>,
    pub connection: Option<BitbucketPoolConnection>,
    pub cpu_limit: i64,
    pub memory_limit_mb: i64,
}

/// The draft of a new runner of a pool. A connection to Bitbucket is used by a
/// runner of Tart only.
pub fn draft_runner(
    pool: &PoolAccess,
    runner_id: String,
    pool_id: String,
    suffix: &str,
    provider: &str,
    labels: Vec<String>,
    repository: Option<RepositoryCapacity>,
    connection: Option<BitbucketPoolConnection>,
) -> (r: StartDraft)
    ensures
        r.runner_id@ == runner_id@,
        r.pool_id@ == pool_id@,
        r.name@ == pool.name@ + "-"@ + suffix@,
        r.connection == (if provider@ == "tart"@ {
            connection
        } else {
            None
        }),
        r.plan@ == plan(
            provider@,
            r.connection is Some,
            pool.mode@,
            pool.ephemeral,
            pool.macos_runtime@,
            pool.docker_image@,
            pool.tart_image@,
        ),
        r.labels == labels,
        r.repository == repository,
        r.cpu_limit == pool.cpu_limit,
        r.memory_limit_mb == pool.memory_limit_mb,
{
    let connection: Option<BitbucketPoolConnection> = if same(provider, "tart") {
        connection
    } else {
        None
    };
    let plan: ProvisioningPlan = ProvisioningPlan::for_selected_provider(
        provider,
        connection.is_some(),
        pool.mode.as_str(),
        pool.ephemeral,
        pool.macos_runtime.as_str(),
        pool.docker_image.as_str(),
        pool.tart_image.as_str(),
    );
    StartDraft {
        runner_id,
        pool_id,
        name: new_runner_name(pool.name.as_str(), suffix),
        plan,
        labels,
        repository,
        connection,
        cpu_limit: pool.cpu_limit,
        memory_limit_mb: pool.memory_limit_mb,
    }
}

impl StartDraft {
    /// The repository that the runner is recorded for: that of a runner for
    /// GitHub.
    pub fn recorded_repository(&self) -> (r: Option<i64>)
        ensures
            r == (if self.plan.platform@ == "github"@ {
                match self.repository {
                    Some(repository) => Some(repository.repository_id),
                    None => None,
                }
            } else {
                None
            }),
    {
        if same(self.plan.platform, "github") {
            match &self.repository {
                Some(repository) => Some(repository.repository_id),
                None => None,
            }
        } else {
            None
        }
    }

    /// The installation whose token registers the runner: that of its
    /// repository, or else that of its pool.
    pub fn installation(&self, pool_installation_id: i64) -> (r: i64)
        ensures
            r == match self.repository {
                Some(repository) => repository.installation_id,
                None => pool_installation_id,
            },
    {
        match &self.repository {
            Some(repository) => repository.installation_id,
            None => pool_installation_id,
        }
    }
}

// ---------------------------------------------------------------------------
// Registration

/// How a new runner registers.
#[derive(Debug)]
pub enum RegistrationPlan {
    /// At Bitbucket, as a runner of the workspace.
    Bitbucket,
    /// At GitHub, for one job.
    JustInTime(JitRequest),
    /// At GitHub, with a token; with the name of its group where that is not
    /// the usual one.
    Token { named_group: bool },
}

/// How a new runner registers: at Bitbucket with a connection, for one job where
/// the pool's runners are ephemeral, and with a token otherwise.
pub fn registration_plan(architecture: &str, pool: &PoolAccess, draft: &StartDraft) -> (r:
    RegistrationPlan)
    ensures
        if draft.connection is Some {
            r is Bitbucket
        } else if pool.ephemeral {
            &&& r is JustInTime
            &&& r->JustInTime_0.name@ == draft.name@
            &&& r->JustInTime_0.runner_group_id == pool.runner_group_id
            &&& texts(r->JustInTime_0.labels@) == effective(
                system_labels(architecture@, draft.plan.provider@),
                texts(draft.labels@),
            )
            &&& r->JustInTime_0.work_folder@ == "_work"@
        } else {
            r == (RegistrationPlan::Token {
                named_group: pool.scope@ == "organization"@ && pool.runner_group_id != 1,
            })
        },
{
    if draft.connection.is_some() {
        return RegistrationPlan::Bitbucket;
    }
    if pool.ephemeral {
        return RegistrationPlan::JustInTime(
            JitRequest {
                name: draft.name.clone(),
                runner_group_id: pool.runner_group_id,
                labels: effective_runner_labels(
                    architecture,
                    draft.plan.provider.as_str(),
                    draft.labels.as_slice(),
                ),
                work_folder: "_work".to_owned(),
            },
        );
    }
    RegistrationPlan::Token {
        named_group: same(pool.scope.as_str(), "organization") && pool.runner_group_id != 1,
    }
}

/// What came of a registration.
pub enum Registration {
    Bitbucket(BitbucketRunner),
    JustInTime { config: String, github_runner_id: i64 },
    Token { token: String, group: Option<String> },
}

/// Who a runner is at Bitbucket.
pub struct BitbucketIdentity {
    pub account_uuid: String,
    pub runner_uuid: String,
    pub oauth_client_id: String,
    pub oauth_client_secret: String,
}

/// What the manager is asked for.
pub struct StartRequest {
    pub runner: ProvisionRunner,
    pub runtime: String,
    pub platform: &'static str,
    pub bitbucket: Option<BitbucketIdentity>,
    pub github_runner_id: Option<i64>,
}

/// The request for a draft says of the runner what the draft says.
pub open spec fn carries(
    request: ProvisionRunner,
    draft: StartDraft,
    network: Seq<char>,
    lease: Seq<char>,
    pull_image: bool,
) -> bool {
    &&& request.runner_id@ == draft.runner_id@
    &&& request.pool_id@ == draft.pool_id@
    &&& request.name@ == draft.name@
    &&& request.image@ == draft.plan.image@
    &&& request.mode@ == draft.plan.mode@
    &&& request.provider@ == draft.plan.provider@
    &&& texts(request.labels@) == texts(draft.labels@)
    &&& request.pull_image == pull_image
    &&& request.cpu_limit == draft.cpu_limit
    &&& request.memory_limit_mb == draft.memory_limit_mb
    &&& request.network@ == network
    &&& request.capacity_lease@ == lease
}

/// The address at which the runner of a draft registers.
pub open spec fn registration_url_of(draft: StartDraft, account_login: Seq<char>) -> Seq<char> {
    match draft.repository {
        Some(repository) => "https://github.com/"@ + repository.owner@ + "/"@ + repository.name@,
        None => "https://github.com/"@ + account_login,
    }
}

/// What the manager is asked for, for what came of the registration. The
/// credentials are those of the registration, and no others.
pub fn start_request(
    draft: &StartDraft,
    account_login: &str,
    network: &str,
    lease: &str,
    pull_image: bool,
    registration: Registration,
) -> (r: Result<StartRequest, ApiError>)
    ensures
        match registration {
            Registration::Bitbucket(runner) => match runner.oauth_client.secret {
                None => r is Err && r->Err_0@ == ErrorView::Internal(
                    "Bitbucket did not return the runner OAuth secret."@,
                ),
                Some(secret) => {
                    &&& r is Ok
                    &&& r->Ok_0.runner.jit_config is None
                    &&& r->Ok_0.runner.registration_token is None
                    &&& r->Ok_0.runner.registration_url is None
                    &&& r->Ok_0.runner.runner_group is None
                    &&& r->Ok_0.github_runner_id is None
                    &&& r->Ok_0.bitbucket is Some
                    &&& (r->Ok_0.bitbucket->0).account_uuid@ == match draft.connection {
                        Some(connection) => connection.workspace_uuid@,
                        None => ""@,
                    }
                    &&& (r->Ok_0.bitbucket->0).runner_uuid@ == runner.uuid@
                    &&& (r->Ok_0.bitbucket->0).oauth_client_id@ == runner.oauth_client.id@
                    &&& (r->Ok_0.bitbucket->0).oauth_client_secret@ == secret@
                },
            },
            Registration::JustInTime { config, github_runner_id } => {
                &&& r is Ok
                &&& text_option(r->Ok_0.runner.jit_config) == Some(config@)
                &&& r->Ok_0.runner.registration_token is None
                &&& r->Ok_0.runner.registration_url is None
                &&& r->Ok_0.runner.runner_group is None
                &&& r->Ok_0.github_runner_id == Some(github_runner_id)
                &&& r->Ok_0.bitbucket is None
            },
            Registration::Token { token, group } => {
                &&& r is Ok
                &&& r->Ok_0.runner.jit_config is None
                &&& text_option(r->Ok_0.runner.registration_token) == Some(token@)
                &&& text_option(r->Ok_0.runner.registration_url) == Some(
                    registration_url_of(*draft, account_login@),
                )
                &&& text_option(r->Ok_0.runner.runner_group) == text_option(group)
                &&& r->Ok_0.github_runner_id is None
                &&& r->Ok_0.bitbucket is None
            },
        },
        r is Ok ==> carries(r->Ok_0.runner, *draft, network@, lease@, pull_image)
            && r->Ok_0.runtime@ == draft.plan.runtime@ && r->Ok_0.platform@
            == draft.plan.platform@,
{
    let mut runner: ProvisionRunner = ProvisionRunner {
        runner_id: draft.runner_id.clone(),
        pool_id: draft.pool_id.clone(),
        name: draft.name.clone(),
        image: draft.plan.image.clone(),
        mode: draft.plan.mode.clone(),
        provider: draft.plan.provider.clone(),
        jit_config: None,
        registration_token: None,
        registration_url: None,
        labels: copy_strings(draft.labels.as_slice()),
        runner_group: None,
        pull_image,
        cpu_limit: draft.cpu_limit,
        memory_limit_mb: draft.memory_limit_mb,
        network: network.to_owned(),
        capacity_lease: lease.to_owned(),
    };
    let mut bitbucket: Option<BitbucketIdentity> = None;
    let mut runner_at_github: Option<i64> = None;
    match registration {
        Registration::Bitbucket(remote) => {
            let secret: String = match remote.oauth_client.secret {
                Some(secret) => secret,
                None => {
                    return Err(
                        ApiError::Internal(
                            "Bitbucket did not return the runner OAuth secret.".to_owned(),
                        ),
                    );
                },
            };
            bitbucket = Some(
                BitbucketIdentity {
                    account_uuid: match &draft.connection {
                        Some(connection) => connection.workspace_uuid.clone(),
                        None => "".to_owned(),
                    },
                    runner_uuid: remote.uuid,
                    oauth_client_id: remote.oauth_client.id,
                    oauth_client_secret: secret,
                },
            );
        },
        Registration::JustInTime { config, github_runner_id } => {
            runner.jit_config = Some(config);
            runner_at_github = Some(github_runner_id);
        },
        Registration::Token { token, group } => {
            runner.registration_token = Some(token);
            runner.registration_url = Some(
                runner_registration_url(account_login, draft.repository.as_ref()),
            );
            runner.runner_group = group;
        },
    }
    Ok(
        StartRequest {
            runner,
            runtime: draft.plan.runtime.clone(),
            platform: draft.plan.platform,
            bitbucket,
            github_runner_id: runner_at_github,
        },
    )
}

// ---------------------------------------------------------------------------
// Outcomes

/// The reservation that the manager granted, among the members of its answer.
pub fn granted_lease(answer: &[Member]) -> (r: Result<String, ApiError>)
    ensures
        match text_member(answer@, "leaseId"@) {
            Some(lease) => r is Ok && r->Ok_0@ == lease,
            None => r is Err && r->Err_0@ == ErrorView::ServiceUnavailable(
                "Runner manager returned an invalid capacity reservation."@,
            ),
        },
{
    match string(answer, "leaseId") {
        Some(lease) => Ok(lease.to_owned()),
        None => Err(
            ApiError::ServiceUnavailable(
                "Runner manager returned an invalid capacity reservation.".to_owned(),
            ),
        ),
    }
}

/// A runner that was started: its container, and its state.
#[derive(Debug)]
pub struct StartedRunner {
    pub container_id: String,
    pub container_name: Option<String>,
    pub status: &'static str,
}

/// What the members of the manager's answer say of a runner that was started.
pub fn started_runner(answer: &[Member]) -> (r: Result<StartedRunner, ApiError>)
    ensures
        match text_member(answer@, "id"@) {
            Some(id) => {
                &&& r is Ok
                &&& r->Ok_0.container_id@ == id
                &&& text_option(r->Ok_0.container_name) == text_member(answer@, "name"@)
                &&& r->Ok_0.status@ == if text_member(answer@, "state"@) == Some("running"@) {
                    "online"@
                } else {
                    "starting"@
                }
            },
            None => r is Err && r->Err_0@ == ErrorView::ServiceUnavailable(
                "Runner manager returned an invalid container identifier."@,
            ),
        },
{
    match string(answer, "id") {
        Some(id) => {
            let running: bool = match string(answer, "state") {
                Some(state) => same(state, "running"),
                None => false,
            };
            Ok(
                StartedRunner {
                    container_id: id.to_owned(),
                    container_name: match string(answer, "name") {
                        Some(name) => Some(name.to_owned()),
                        None => None,
                    },
                    status: if running {
                        "online"
                    } else {
                        "starting"
                    },
                },
            )
        },
        None => Err(
            ApiError::ServiceUnavailable(
                "Runner manager returned an invalid container identifier.".to_owned(),
            ),
        ),
    }
}

/// What is recorded of a runner that was started.
pub fn started_message(runner_name: &str, pool_name: &str) -> (r: String)
    ensures
        r@ == runner_name@ + " started in pool "@ + pool_name@,
{
    concat3(runner_name, " started in pool ", pool_name)
}

// ---------------------------------------------------------------------------
// The course of a start

/// What is done next to start a runner.
#[derive(Debug, Clone, Copy, PartialEq, Eq, Structural)]
pub enum StartStep {
    /// Ask the manager to reserve capacity.
    Reserve,
    /// Record the runner.
    Record,
    /// Register the runner.
    Register,
    /// Record who the runner is at GitHub.
    KeepIdentity,
    /// Ask the manager for the runner.
    Ask,
    /// Record the runner that the manager made.
    Finish,
    /// Remove the runner at Bitbucket.
    Unregister,
    /// Release the capacity.
    Release,
    /// Mark the runner as failed.
    MarkFailed,
    /// The runner is started.
    Started,
    /// The runner is not started.
    Refused,
}

/// How a step came out. A registration says where the runner is known.
#[derive(Debug, Clone, Copy, PartialEq, Eq, Structural)]
pub enum StartOutcome {
    Done,
    Registered { at_bitbucket: bool, at_github: bool },
    Error,
}

/// How far a start has come: what is done next, and what exists because of it.
#[derive(Debug, Clone, Copy, PartialEq, Eq, Structural)]
pub struct StartProgress {
    pub step: StartStep,
    pub reserved: bool,
    pub recorded: bool,
    pub at_bitbucket: bool,
}

/// The course of a start. Where a step fails, the capacity that was reserved is
/// released; a runner that was registered at Bitbucket is removed there where the
/// manager did not take it; and a runner that was recorded is marked as failed.
pub open spec fn start_after(p: StartProgress, outcome: StartOutcome) -> StartProgress {
    let undo = StartProgress { step: StartStep::Release, ..p };
    let ok = outcome == StartOutcome::Done;
    match p.step {
        StartStep::Reserve => if ok {
            StartProgress { step: StartStep::Record, reserved: true, ..p }
        } else {
            StartProgress { step: StartStep::Refused, ..p }
        },
        StartStep::Record => if ok {
            StartProgress { step: StartStep::Register, recorded: true, ..p }
        } else {
            undo
        },
        StartStep::Register => match outcome {
            StartOutcome::Registered { at_bitbucket, at_github } => StartProgress {
                step: if at_github {
                    StartStep::KeepIdentity
                } else {
                    StartStep::Ask
                },
                at_bitbucket,
                ..p
            },
            _ => undo,
        },
        StartStep::KeepIdentity => if ok {
            StartProgress { step: StartStep::Ask, ..p }
        } else {
            undo
        },
        StartStep::Ask => if ok {
            StartProgress { step: StartStep::Finish, ..p }
        } else if p.at_bitbucket {
            StartProgress { step: StartStep::Unregister, ..p }
        } else {
            undo
        },
        StartStep::Finish => if ok {
            StartProgress { step: StartStep::Started, ..p }
        } else {
            undo
        },
        StartStep::Unregister => StartProgress { at_bitbucket: false, ..undo },
        StartStep::Release => StartProgress {
            step: if p.recorded {
                StartStep::MarkFailed
            } else {
                StartStep::Refused
            },
            reserved: false,
            ..p
        },
        StartStep::MarkFailed => StartProgress { step: StartStep::Refused, ..p },
        StartStep::Started => p,
        StartStep::Refused => p,
    }
}

impl StartProgress {
    /// The beginning of a start.
    pub fn new() -> (r: StartProgress)
        ensures
            r == (StartProgress {
                step: StartStep::Reserve,
                reserved: false,
                recorded: false,
                at_bitbucket: false,
            }),
            r.consistent(),
    {
        StartProgress {
            step: StartStep::Reserve,
            reserved: false,
            recorded: false,
            at_bitbucket: false,
        }
    }

    /// What exists fits how far the start has come.
    pub open spec fn consistent(self) -> bool {
        match self.step {
            StartStep::Reserve => !self.reserved && !self.recorded && !self.at_bitbucket,
            StartStep::Record => self.reserved && !self.recorded && !self.at_bitbucket,
            StartStep::Register => self.reserved && self.recorded && !self.at_bitbucket,
            StartStep::KeepIdentity => self.reserved && self.recorded,
            StartStep::Ask => self.reserved && self.recorded,
            StartStep::Finish => self.reserved && self.recorded,
            StartStep::Unregister => self.reserved && self.recorded && self.at_bitbucket,
            StartStep::Release => self.reserved,
            StartStep::MarkFailed => !self.reserved && self.recorded,
            StartStep::Started => self.reserved && self.recorded,
            StartStep::Refused => !self.reserved,
        }
    }

    /// How far the start has come after a step that came out in some way.
    pub fn after(self, outcome: StartOutcome) -> (r: StartProgress)
        ensures
            r == start_after(self, outcome),
    {
        let ok: bool = outcome == StartOutcome::Done;
        let undo: StartProgress = StartProgress { step: StartStep::Release, ..self };
        match self.step {
            StartStep::Reserve => if ok {
                StartProgress { step: StartStep::Record, reserved: true, ..self }
            } else {
                StartProgress { step: StartStep::Refused, ..self }
            },
            StartStep::Record => if ok {
                StartProgress { step: StartStep::Register, recorded: true, ..self }
            } else {
                undo
            },
            StartStep::Register => match outcome {
                StartOutcome::Registered { at_bitbucket, at_github } => StartProgress {
                    step: if at_github {
                        StartStep::KeepIdentity
                    } else {
                        StartStep::Ask
                    },
                    at_bitbucket,
                    ..self
                },
                _ => undo,
            },
            StartStep::KeepIdentity => if ok {
                StartProgress { step: StartStep::Ask, ..self }
            } else {
                undo
            },
            StartStep::Ask => if ok {
                StartProgress { step: StartStep::Finish, ..self }
            } else if failure_cleanup(
                self.reserved,
                self.at_bitbucket,
                false,
            ).remove_provider_runner {
                StartProgress { step: StartStep::Unregister, ..self }
            } else {
                undo
            },
            StartStep::Finish => if ok {
                StartProgress { step: StartStep::Started, ..self }
            } else {
                undo
            },
            StartStep::Unregister => StartProgress { at_bitbucket: false, ..undo },
            StartStep::Release => StartProgress {
                step: if self.recorded {
                    StartStep::MarkFailed
                } else {
                    StartStep::Refused
                },
                reserved: false,
                ..self
            },
            StartStep::MarkFailed => StartProgress { step: StartStep::Refused, ..self },
            StartStep::Started => self,
            StartStep::Refused => self,
        }
    }
}

/// How far a start has come after steps that came out in some way.
pub open spec fn start_course(outcomes: Seq<StartOutcome>) -> StartProgress
    decreases outcomes.len(),
{
    if outcomes.len() == 0 {
        StartProgress {
            step: StartStep::Reserve,
            reserved: false,
            recorded: false,
            at_bitbucket: false,
        }
    } else {
        start_after(start_course(outcomes.drop_last()), outcomes.last())
    }
}

/// However its steps come out, a start that is refused keeps no capacity
/// reserved, and one that is started is recorded. The manager is asked for a
/// runner only after capacity was reserved and the runner was recorded.
pub proof fn refused_starts_keep_no_capacity(outcomes: Seq<StartOutcome>)
    ensures
        start_course(outcomes).consistent(),
        start_course(outcomes).step == StartStep::Refused ==> !start_course(outcomes).reserved,
        start_course(outcomes).step == StartStep::Started ==> start_course(outcomes).recorded,
        start_course(outcomes).step == StartStep::Ask ==> start_course(outcomes).reserved
            && start_course(outcomes).recorded,
    decreases outcomes.len(),
{
    if outcomes.len() > 0 {
        refused_starts_keep_no_capacity(outcomes.drop_last());
    }
}

/// The number of steps that a start can still take.
pub open spec fn steps_left(step: StartStep) -> nat {
    match step {
        StartStep::Reserve => 9,
        StartStep::Record => 8,
        StartStep::Register => 7,
        StartStep::KeepIdentity => 6,
        StartStep::Ask => 5,
        StartStep::Finish => 4,
        StartStep::Unregister => 3,
        StartStep::Release => 2,
        StartStep::MarkFailed => 1,
        StartStep::Started => 0,
        StartStep::Refused => 0,
    }
}

/// A start ends: each step leaves fewer to take.
pub proof fn starts_end(p: StartProgress, outcome: StartOutcome)
    ensures
        steps_left(p.step) > 0 ==> steps_left(start_after(p, outcome).step) < steps_left(p.step),
{
}

/// The reason that is recorded with a runner that could not be started: the
/// first 2000 characters of the message.
pub fn failure_reason(message: &str) -> (r: String)
    ensures
        r@ == first_chars(message@, 2_000),
{
    take_chars(message, 2_000)
}

// ---------------------------------------------------------------------------
// Pools and the manager

/// The request asks for a GitHub runner of a pool with the given settings, from
/// the given provider.
pub open spec fn asks_for_runner_of(
    request: ProvisionRunner,
    s: PoolSettings,
    provider: Seq<char>,
    macos_runtime: Seq<char>,
    suffix: Seq<char>,
) -> bool {
    &&& request.name@ == s.name + "-"@ + suffix
    &&& request.provider@ == provider
    &&& request.mode@ == s.mode
    &&& request.image@ == plan(
        provider,
        false,
        s.mode,
        s.mode == "ephemeral"@,
        macos_runtime,
        image_of("docker"@, s.provider, s.image, s.docker_image),
        image_of("tart"@, s.provider, s.image, s.tart_image),
    ).image
    &&& sorted_set_of(texts(request.labels@), s.labels.push(s.name))
    &&& request.labels@.len() <= 20
    &&& request.cpu_limit == s.cpu_limit
    &&& request.memory_limit_mb == s.memory_limit_mb
}

/// The manager takes every request for a GitHub runner of a pool whose settings
/// are accepted, given what identifies the runner and what registers it: no pool
/// can be set up whose runners the manager then refuses. A native macOS runner,
/// which has no image, is left out.
pub proof fn the_manager_takes_runners_of_accepted_pools(
    request: ProvisionRunner,
    s: PoolSettings,
    provider: Seq<char>,
    macos_runtime: Seq<char>,
    suffix: Seq<char>,
)
    requires
        settings_error(s) is None,
        providers_of(s.provider, s.providers).contains(provider),
        provider == "tart"@ ==> macos_runtime != "native"@,
        asks_for_runner_of(request, s, provider, macos_runtime, suffix),
        0 < suffix.len() <= 32,
        forall|i: int| 0 <= i < suffix.len() ==> alphanumeric(#[trigger] suffix[i]),
        request.runner_id@.len() > 0,
        request.pool_id@.len() > 0,
        request.capacity_lease@.len() > 0,
        utf8_len(request.capacity_lease@) <= 128,
        docker_name_ok(request.network@),
        s.mode == "ephemeral"@ ==> request.jit_config is Some && one_line(
            request.jit_config->0@,
            20,
            900_000,
        ),
        s.mode != "ephemeral"@ ==> request.registration_token is Some && one_line(
            request.registration_token->0@,
            20,
            2_048,
        ) && request.registration_url is Some && registration_url_ok(request.registration_url->0@),
        request.runner_group is Some ==> request.runner_group->0@.len() > 0 && one_line(
            request.runner_group->0@,
            0,
            100,
        ),
    ensures
        request.error() is None,
{
    let selected = providers_of(s.provider, s.providers);
    let k = choose|k: int| 0 <= k < selected.len() && selected[k] == provider;
    assert(provider_ok(selected[k]));
    lemma_pool_name_is_short(s.name);
    reveal_strlit("-");
    assert forall|i: int| 0 <= i < request.name@.len() implies alphanumeric(
        #[trigger] request.name@[i],
    ) || request.name@[i] == '.' || request.name@[i] == '_' || request.name@[i] == '-' by {
        if i < s.name.len() {
            assert(request.name@[i] == s.name[i]);
        } else if i == s.name.len() {
            assert(request.name@[i] == '-');
        } else {
            assert(request.name@[i] == suffix[i - s.name.len() - 1]);
        }
    }
    assert(docker_name_ok(request.name@));
    let image = request.image@;
    assert(image_ok(image)) by {
        if provider == "tart"@ {
            assert(selected.contains("tart"@));
        } else {
            assert(selected.contains("docker"@));
        }
    }
    lemma_trimmed_empty(image);
    assert(!blank(image));
    let labels = texts(request.labels@);
    let wanted = s.labels.push(s.name);
    assert(wanted.contains(s.name)) by {
        assert(wanted[s.labels.len() as int] == s.name);
    }
    assert(labels.contains(s.name));
    assert(labels.len() > 0);
    assert forall|i: int| 0 <= i < labels.len() implies registration_label_ok(
        #[trigger] labels[i],
    ) by {
        assert(labels.contains(labels[i]));
        assert(wanted.contains(labels[i]));
        let j = choose|j: int| 0 <= j < wanted.len() && wanted[j] == labels[i];
        if j < s.labels.len() {
            assert(label_ok(s.labels[j]));
        } else {
            assert(labels[i] == s.name);
        }
    }
    if s.mode != "ephemeral"@ && provider == "tart"@ {
        assert(selected.contains("tart"@));
    }
}

/// The name of a pool is in ASCII, so it has as many characters as bytes, and
/// can be a label.
proof fn lemma_pool_name_is_short(name: Seq<char>)
    requires
        pool_name_ok(name),
        2 <= utf8_len(name) <= 48,
    ensures
        name.len() == utf8_len(name),
        registration_label_ok(name),
{
    assert forall|i: int| 0 <= i < name.len() implies '\0' <= #[trigger] name[i] <= '\x7f' by {
        assert(lowercase_letter(name[i]) || digit(name[i]) || name[i] == '-');
    }
    vstd::utf8::is_ascii_chars_encode_utf8(name);
}

// ---------------------------------------------------------------------------
// The course of a start

/// A start takes its steps in order: capacity is reserved before the runner is recorded, it
/// is recorded before it is registered, and the manager is asked for it after that; it is
/// started only after the manager made it and that was recorded.
pub proof fn starts_take_their_steps_in_order(p: StartProgress, outcome: StartOutcome)
    ensures
        ({
            let next = start_after(p, outcome).step;
            let ok = outcome == StartOutcome::Done;
            &&& next == StartStep::Record ==> p.step == StartStep::Reserve && ok
            &&& next == StartStep::Register ==> p.step == StartStep::Record && ok
            &&& next == StartStep::KeepIdentity ==> p.step == StartStep::Register && outcome
                is Registered && outcome->at_github
            &&& next == StartStep::Ask ==> (p.step == StartStep::KeepIdentity && ok) || (p.step
                == StartStep::Register && outcome is Registered && !outcome->at_github)
            &&& next == StartStep::Finish ==> p.step == StartStep::Ask && ok
            &&& next == StartStep::Started ==> p.step == StartStep::Started || (p.step
                == StartStep::Finish && ok)
            &&& next == StartStep::Unregister ==> p.step == StartStep::Ask && !ok
                && p.at_bitbucket
            &&& p.step == StartStep::Reserve && !ok ==> next == StartStep::Refused
            &&& (p.step == StartStep::Record || p.step == StartStep::KeepIdentity || p.step
                == StartStep::Finish) && !ok ==> next == StartStep::Release
            &&& p.step == StartStep::Register && !(outcome is Registered) ==> next
                == StartStep::Release
            &&& p.step == StartStep::Ask && !ok && !p.at_bitbucket ==> next == StartStep::Release
            &&& p.step == StartStep::Ask && !ok && p.at_bitbucket ==> next
                == StartStep::Unregister
            &&& p.step == StartStep::Unregister ==> next == StartStep::Release
            &&& p.step == StartStep::Release && p.recorded ==> next == StartStep::MarkFailed
            &&& p.step == StartStep::Release && !p.recorded ==> next == StartStep::Refused
            &&& p.step == StartStep::MarkFailed ==> next == StartStep::Refused
        }),
{
}

/// What a start has done is remembered until it is undone: capacity is reserved until it is
/// released, a runner that was recorded stays so, and one that was registered at Bitbucket is
/// there until it is removed.
pub proof fn starts_remember_what_they_did(p: StartProgress, outcome: StartOutcome)
    ensures
        ({
            let next = start_after(p, outcome);
            &&& p.step == StartStep::Reserve && outcome == StartOutcome::Done ==> next.reserved
            &&& p.reserved && p.step != StartStep::Release ==> next.reserved
            &&& p.step == StartStep::Release ==> !next.reserved
            &&& p.step == StartStep::Record && outcome == StartOutcome::Done ==> next.recorded
            &&& p.recorded ==> next.recorded
            &&& p.step == StartStep::Register && outcome is Registered ==> next.at_bitbucket
                == outcome->at_bitbucket
            &&& p.at_bitbucket && p.step != StartStep::Register && p.step
                != StartStep::Unregister ==> next.at_bitbucket
            &&& p.step == StartStep::Unregister ==> !next.at_bitbucket
        }),
{
}

/// Where no step fails, a runner is started.
pub proof fn starts_succeed_where_nothing_goes_wrong(at_bitbucket: bool)
    ensures
        ({
            let done = StartOutcome::Done;
            let here = start_course(Seq::empty());
            let asked = start_after(
                start_after(start_after(here, done), done),
                StartOutcome::Registered { at_bitbucket, at_github: false },
            );
            start_after(start_after(asked, done), done).step == StartStep::Started
        }),
        ({
            let done = StartOutcome::Done;
            let here = start_course(Seq::empty());
            let known = start_after(
                start_after(start_after(here, done), done),
                StartOutcome::Registered { at_bitbucket, at_github: true },
            );
            start_after(start_after(start_after(known, done), done), done).step
                == StartStep::Started
        }),
{
}

/// A runner is of Tart where a workspace of Bitbucket waits for one and the pool has Tart;
/// otherwise it is of a provider that lacks as many runners as any, or of the first provider
/// where none lacks one.
pub proof fn runners_go_to_the_provider_that_lacks_most(
    providers: Seq<Seq<char>>,
    connection_waits: bool,
    capacities: Seq<ProviderCapacity>,
    factor: i64,
    i: int,
)
    requires
        0 <= i < capacities.len(),
    ensures
        connection_waits && providers.contains("tart"@) ==> provider_chosen(
            providers,
            connection_waits,
            capacities,
            factor,
        ) == Some("tart"@),
        !(connection_waits && providers.contains("tart"@)) ==> exists|k: int|
            0 <= k < capacities.len() && provider_chosen(
                providers,
                connection_waits,
                capacities,
                factor,
            ) == Some((#[trigger] capacities[k]).provider@) && (deficit(
                capacities[i].busy,
                capacities[i].queued,
                capacities[i].active,
                factor,
            ) <= 0 || deficit(
                capacities[i].busy,
                capacities[i].queued,
                capacities[i].active,
                factor,
            ) <= deficit(
                capacities[k].busy,
                capacities[k].queued,
                capacities[k].active,
                factor,
            )),
{
    the_next_runner_goes_where_most_are_missing(capacities, factor, i);
    let k = match neediest(capacities, factor, capacities.len() as int) {
        Some(k) => k,
        None => 0,
    };
    assert(capacities[k].provider@ == capacities[k].provider@);
}

/// A runner registers with its repository, or with its organization where it has none.
pub proof fn runners_register_where_they_belong(draft: StartDraft, account_login: Seq<char>)
    ensures
        draft.repository is Some ==> registration_url_of(draft, account_login)
            == "https://github.com/"@ + draft.repository->0.owner@ + "/"@
            + draft.repository->0.name@,
        draft.repository is None ==> registration_url_of(draft, account_login)
            == "https://github.com/"@ + account_login,
{
}

/// The manager is asked for the very runner that was drafted.
pub proof fn requests_are_for_the_drafted_runner(
    request: ProvisionRunner,
    draft: StartDraft,
    network: Seq<char>,
    lease: Seq<char>,
    pull_image: bool,
)
    requires
        carries(request, draft, network, lease, pull_image),
    ensures
        request.runner_id@ == draft.runner_id@,
        request.pool_id@ == draft.pool_id@,
        request.name@ == draft.name@,
        request.image@ == draft.plan.image@,
        request.mode@ == draft.plan.mode@,
        request.provider@ == draft.plan.provider@,
        texts(request.labels@) == texts(draft.labels@),
        request.cpu_limit == draft.cpu_limit,
        request.memory_limit_mb == draft.memory_limit_mb,
        request.network@ == network,
        request.capacity_lease@ == lease,
        request.pull_image == pull_image,
{
}

/// No runner is started for a pool that is paused or while provisioning is, and one is not
/// refused otherwise. A pool has the providers that are listed, or its own where none is.
pub proof fn paused_pools_start_nothing(
    pool_paused: bool,
    provisioning_paused: bool,
    providers: Seq<Seq<char>>,
    own: Seq<char>,
)
    ensures
        start_error(pool_paused, provisioning_paused) is Some <==> pool_paused
            || provisioning_paused,
        pool_paused || provisioning_paused ==> start_error(pool_paused, provisioning_paused)->0
            is Conflict,
        providers.len() > 0 ==> providers_or_own(providers, own) == providers,
        providers_or_own(Seq::empty(), own) == seq![own],
{
}

}
