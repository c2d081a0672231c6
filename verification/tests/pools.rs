//! New and changed pools, starting and removing their runners.
use gridops::autoscaling::{ProviderCapacity, RepositoryCapacity};
use gridops::bitbucket::{BitbucketRunner, BitbucketRunnerOAuthClient, BitbucketWorkspace};
use gridops::diagnosis::{diagnose_queued_job, Holdup, PoolOutlook};
use gridops::error::ApiError;
use gridops::models::{CreateRunnerPool, UpdateRunnerPool, CPU};
use gridops::payload::{Json, Member};
use gridops::pool_changes::{
    membership_times, paused_pool_state, plan_creation, plan_update, pool_deed, scale_to,
    updated_connections, updated_repositories, PoolAccess, PoolDeed,
};
use gridops::provisioning::ProvisioningPlan;
use gridops::runner_pools::{
    active_runner_count, after_remote_cleanup, bitbucket_registration, cleanup_owner,
    container_removed, container_states, failed_pool_runners, fallback_repository, first_removal_step,
    next_removal_step, next_requested_step, observe_runner, outdated_runner_count, paused_pool_runners,
    pool_runner_to_rotate, pool_state_now, removal_record, runner_deed, runners_to_drain,
    runners_to_trim, waits_for_capacity, works_without_manager, RemoteCleanup,
    RemovalStep, RequestedStep, RunnerAccess, RunnerDeed,
};
use gridops::runner_start::{
    check_start, draft_runner, failure_reason, granted_lease, new_runner_name, pool_providers,
    registration_plan, runner_system, start_provider, start_repository, start_request,
    started_message, started_runner, BitbucketPoolConnection, Registration, RegistrationPlan,
    StartDraft, StartOutcome, StartProgress, StartStep,
};
use gridops::settings::{
    app_urls, can_demote, check_role_change, check_workspace_identity, configuration,
    connection_token_key, default_tart_image, manager_resource_capacity, runner_pool_defaults, settings_to_store,
    stored_settings, ConfiguredParts, CreateBitbucketConnection, StoredSetting, SystemSettings,
};

fn strings(list: &[&str]) -> Vec<String> {
    list.iter().map(|text| text.to_string()).collect()
}

fn creation() -> CreateRunnerPool {
    CreateRunnerPool {
        installation_id: 1,
        repository_id: None,
        repository_ids: vec![10, 11],
        bitbucket_connection_ids: Vec::new(),
        name: "linux-general".into(),
        scope: "repository".into(),
        mode: "ephemeral".into(),
        provider: "docker".into(),
        providers: strings(&["docker", "tart"]),
        labels: strings(&["gpu", "docker", "gpu"]),
        image: "runner:latest".into(),
        docker_image: String::new(),
        tart_image: "macos-base".into(),
        macos_runtime: String::new(),
        desired_count: 1,
        min_count: 0,
        max_count: 10,
        autoscaling_enabled: true,
        queue_scale_factor: 1,
        idle_timeout_minutes: 5,
        cpu_limit: 2 * CPU,
        memory_limit_mb: 4_096,
        runner_group_id: 7,
    }
}

fn change() -> UpdateRunnerPool {
    let new = creation();
    UpdateRunnerPool {
        repository_ids: None,
        bitbucket_connection_ids: None,
        name: new.name,
        mode: new.mode,
        provider: new.provider,
        providers: new.providers,
        labels: new.labels,
        image: new.image,
        docker_image: new.docker_image,
        tart_image: new.tart_image,
        macos_runtime: new.macos_runtime,
        desired_count: new.desired_count,
        min_count: new.min_count,
        max_count: new.max_count,
        autoscaling_enabled: new.autoscaling_enabled,
        queue_scale_factor: new.queue_scale_factor,
        idle_timeout_minutes: new.idle_timeout_minutes,
        cpu_limit: new.cpu_limit,
        memory_limit_mb: new.memory_limit_mb,
        runner_group_id: new.runner_group_id,
    }
}

fn pool() -> PoolAccess {
    PoolAccess {
        installation_id: 1,
        installation_permission: "admin".into(),
        account_login: "octo-org".into(),
        repository_id: Some(10),
        repository_owner: Some("octo-org".into()),
        repository_name: Some("gridops".into()),
        name: "linux-general".into(),
        scope: "repository".into(),
        mode: "ephemeral".into(),
        provider: "docker".into(),
        providers: r#"["docker","tart"]"#.into(),
        labels: r#"["docker","gpu","linux-general"]"#.into(),
        image: "runner:latest".into(),
        docker_image: "runner:latest".into(),
        tart_image: "macos-base".into(),
        macos_runtime: "vm".into(),
        desired_count: 1,
        min_count: 0,
        max_count: 10,
        cpu_limit: 2 * CPU,
        memory_limit_mb: 4_096,
        runner_group_id: 1,
        ephemeral: true,
        paused: false,
        state: "active".into(),
        autoscaling_enabled: true,
        queue_scale_factor: 1,
        idle_timeout_minutes: 5,
        configuration_version: 4,
        provision_failure_count: 0,
        provision_retry_at: None,
        provision_circuit_open: false,
    }
}

fn runner(id: &str, status: &str, busy: bool, version: i64, platform: &str) -> RunnerAccess {
    RunnerAccess {
        runner_id: id.into(),
        runner_name: format!("linux-{id}"),
        container_id: Some(format!("container-{id}")),
        github_runner_id: None,
        ci_platform: platform.into(),
        bitbucket_connection_id: None,
        bitbucket_runner_uuid: None,
        provider: "docker".into(),
        runner_status: status.into(),
        busy,
        ephemeral: true,
        configuration_version: version,
        last_job_id: None,
        pool_id: "pool-1".into(),
        pool_name: "linux-general".into(),
        installation_id: 1,
        account_login: "octo-org".into(),
        target_repository_id: Some(10),
        repository_owner: None,
        repository_name: None,
    }
}

fn repository(repository_id: i64, queued: i64) -> RepositoryCapacity {
    RepositoryCapacity {
        repository_id,
        installation_id: repository_id * 2,
        owner: "octo-org".into(),
        name: "gridops".into(),
        queued,
        active: 0,
        busy: 0,
    }
}

fn connection() -> BitbucketPoolConnection {
    BitbucketPoolConnection {
        id: "connection-1".into(),
        workspace: "acme".into(),
        workspace_uuid: "{workspace}".into(),
        access_token_key: "bitbucket.connection.connection-1.access_token".into(),
    }
}

fn draft(provider: &str, connected: bool) -> StartDraft {
    draft_runner(
        &pool(),
        "runner-1".into(),
        "pool-1".into(),
        "1234abcd",
        provider,
        strings(&["docker", "gpu", "linux-general"]),
        Some(repository(10, 0)),
        if connected { Some(connection()) } else { None },
    )
}

fn told(members: &[(&str, &str)]) -> Vec<Member> {
    members
        .iter()
        .map(|(key, text)| Member {
            key: key.to_string(),
            value: Json::Text(text.to_string()),
        })
        .collect()
}

#[test]
fn new_pools_are_stored_with_their_labels() {
    let made = plan_creation(&creation(), &[10, 11], Some(5), false)
        .ok()
        .expect("a pool");
    assert_eq!(made.labels, strings(&["docker", "gpu", "linux-general"]));
    assert_eq!(made.record.labels, r#"["docker","gpu","linux-general"]"#);
    assert_eq!(made.record.providers, r#"["docker","tart"]"#);
    assert_eq!(made.record.provider, "docker");
    assert_eq!(made.record.image, "runner:latest");
    assert_eq!(made.record.docker_image, "runner:latest");
    assert_eq!(made.record.macos_runtime, "vm");
    assert_eq!(made.record.installation_id, 5);
    assert_eq!(made.record.repository_id, Some(10));
    assert_eq!(made.record.runner_group_id, 1);
    assert!(made.record.ephemeral);
    let mut for_organization = creation();
    for_organization.scope = "organization".into();
    let made = plan_creation(&for_organization, &[], None, false)
        .ok()
        .expect("a pool");
    assert_eq!(made.record.installation_id, 1);
    assert_eq!(made.record.repository_id, None);
    assert_eq!(made.record.runner_group_id, 7);
}

#[test]
fn connected_pools_need_labels_that_bitbucket_takes() {
    assert!(plan_creation(&creation(), &[10], None, true).is_ok());
    let mut shouting = creation();
    shouting.labels = strings(&["GPU"]);
    assert!(plan_creation(&shouting, &[10], None, false).is_ok());
    assert!(matches!(
        plan_creation(&shouting, &[10], None, true),
        Err(ApiError::BadRequest(message))
            if message == "Bitbucket runner labels must use lowercase letters, numbers, and dots; at most 10 are allowed."
    ));
    let mut many = creation();
    many.labels = (0..20).map(|index| format!("label{index}")).collect();
    assert!(matches!(
        plan_creation(&many, &[10], None, false),
        Err(ApiError::BadRequest(message))
            if message == "A runner pool can have at most 20 labels including its pool-name label."
    ));
}

#[test]
fn a_change_that_changes_nothing_replaces_no_runner() {
    let update = plan_update(&change(), &pool(), &[10, 11], &[], &[11, 10], &[], None)
        .ok()
        .expect("an update");
    assert!(!update.runtime_changed);
    assert_eq!(update.configuration_version, 4);
    assert_eq!(update.state, "active");
}

#[test]
fn changes_of_the_runtime_replace_the_runners() {
    let changed = |edit: fn(&mut UpdateRunnerPool)| {
        let mut input = change();
        edit(&mut input);
        let update = plan_update(&input, &pool(), &[10], &[], &[10], &[], None)
            .ok()
            .expect("an update");
        (update.runtime_changed, update.configuration_version)
    };
    assert_eq!(changed(|_| ()), (false, 4));
    assert_eq!(changed(|input| input.desired_count = 2), (false, 4));
    assert_eq!(changed(|input| input.image = "runner:2".into()), (true, 5));
    assert_eq!(changed(|input| input.cpu_limit = CPU), (true, 5));
    assert_eq!(
        changed(|input| input.macos_runtime = "native".into()),
        (true, 5)
    );
    assert_eq!(changed(|input| input.labels.push("extra".into())), (true, 5));
    let moved = plan_update(&change(), &pool(), &[10], &[], &[10, 11], &[], Some(9))
        .ok()
        .expect("an update");
    assert!(moved.runtime_changed);
    assert_eq!(moved.state, "updating");
    assert_eq!(moved.record.installation_id, 9);
    let connected = plan_update(
        &change(),
        &pool(),
        &[10],
        &[],
        &[10],
        &strings(&["connection-1"]),
        None,
    )
    .ok()
    .expect("an update");
    assert!(connected.runtime_changed);
    let mut paused = pool();
    paused.paused = true;
    paused.state = "paused".into();
    let update = plan_update(&change(), &paused, &[10], &[], &[11], &[], None)
        .ok()
        .expect("an update");
    assert_eq!(update.state, "paused");
}

#[test]
fn changed_pools_keep_their_members_where_nothing_is_said() {
    let mut input = change();
    assert_eq!(
        updated_repositories(&input, &pool(), &[10, 11]).ok(),
        Some(vec![10, 11])
    );
    assert_eq!(
        updated_repositories(&input, &pool(), &[]).ok(),
        Some(vec![10])
    );
    assert_eq!(
        updated_connections(&input, &strings(&["a"])),
        strings(&["a"])
    );
    input.repository_ids = Some(vec![12]);
    input.bitbucket_connection_ids = Some(strings(&["b"]));
    assert_eq!(
        updated_repositories(&input, &pool(), &[10]).ok(),
        Some(vec![12])
    );
    assert_eq!(
        updated_connections(&input, &strings(&["a"])),
        strings(&["b"])
    );
    let mut for_organization = pool();
    for_organization.scope = "organization".into();
    assert!(matches!(
        updated_repositories(&input, &for_organization, &[]),
        Err(ApiError::BadRequest(message))
            if message == "Organization pools use runner-group repository access."
    ));
    let mut without = pool();
    without.repository_id = None;
    assert!(matches!(
        updated_repositories(&change(), &without, &[]),
        Err(ApiError::BadRequest(message))
            if message == "A repository pool requires at least one repository."
    ));
    let mut small = change();
    small.max_count = 1;
    assert!(matches!(
        updated_repositories(&small, &pool(), &[10, 11]),
        Err(ApiError::BadRequest(message))
            if message == "Repository count cannot exceed maximum runner capacity."
    ));
    assert_eq!(membership_times(5, 3), vec![5, 6, 7]);
    assert_eq!(
        membership_times(i64::MAX - 1, 3),
        vec![i64::MAX - 1, i64::MAX, i64::MAX]
    );
}

#[test]
fn pools_are_paused_resumed_and_scaled() {
    assert!(matches!(pool_deed("pause"), Ok(PoolDeed::Pause)));
    assert!(matches!(pool_deed("resume"), Ok(PoolDeed::Resume)));
    assert!(matches!(pool_deed("retry"), Ok(PoolDeed::Retry)));
    assert!(matches!(pool_deed("reconcile"), Ok(PoolDeed::Reconcile)));
    assert!(matches!(pool_deed("scale"), Ok(PoolDeed::Scale)));
    assert!(matches!(pool_deed("explode"), Err(ApiError::BadRequest(_))));
    assert_eq!(scale_to(Some(3), 1, 5).ok(), Some(3));
    assert!(matches!(
        scale_to(Some(6), 1, 5),
        Err(ApiError::BadRequest(message))
            if message == "Desired capacity must be between 1 and 5."
    ));
    assert!(matches!(
        scale_to(None, 1, 5),
        Err(ApiError::BadRequest(message)) if message == "desiredCount is required."
    ));
    assert_eq!(paused_pool_state(true), ("draining", "runner_pool.paused"));
    assert_eq!(paused_pool_state(false), ("active", "runner_pool.resumed"));
}

#[test]
fn starts_are_refused_while_paused() {
    assert!(check_start(false, false).is_ok());
    assert!(matches!(
        check_start(true, true),
        Err(ApiError::Conflict(message)) if message == "Runner pool is paused."
    ));
    assert!(matches!(
        check_start(false, true),
        Err(ApiError::Conflict(message)) if message == "Runner provisioning is globally paused."
    ));
}

#[test]
fn runners_are_for_the_repository_that_needs_them() {
    let chosen = |scope: &str, preferred: Option<RepositoryCapacity>, list: &[RepositoryCapacity]| {
        start_repository(scope, preferred, list, 1)
            .ok()
            .map(|found| found.map(|repository| repository.repository_id))
    };
    let list = [repository(10, 0), repository(11, 2)];
    assert_eq!(chosen("repository", None, &list), Some(Some(11)));
    assert_eq!(
        chosen("repository", Some(repository(10, 0)), &list),
        Some(Some(10))
    );
    assert_eq!(chosen("organization", None, &list), Some(None));
    assert_eq!(chosen("repository", None, &[]), None);
}

#[test]
fn waiting_workspaces_get_a_machine() {
    let docker = [ProviderCapacity {
        provider: "docker".into(),
        queued: 1,
        active: 0,
        busy: 0,
    }];
    let mixed = strings(&["docker", "tart"]);
    assert_eq!(
        start_provider(&mixed, true, &docker, 1).ok().as_deref(),
        Some("tart")
    );
    assert_eq!(
        start_provider(&mixed, false, &docker, 1).ok().as_deref(),
        Some("docker")
    );
    assert_eq!(
        start_provider(&strings(&["docker"]), true, &docker, 1)
            .ok()
            .as_deref(),
        Some("docker")
    );
    assert!(matches!(
        start_provider(&[], false, &[], 1),
        Err(ApiError::Conflict(_))
    ));
    assert_eq!(pool_providers(Vec::new(), "docker"), strings(&["docker"]));
    assert_eq!(pool_providers(strings(&["tart"]), "docker"), strings(&["tart"]));
    assert_eq!(
        runner_system("aarch64", "docker"),
        ("linux", "arm64".to_string())
    );
    assert_eq!(
        runner_system("x86_64", "tart"),
        ("macOS", "ARM64".to_string())
    );
}

#[test]
fn drafts_follow_their_pool() {
    let made = draft("docker", true);
    assert_eq!(made.name, "linux-general-1234abcd");
    assert_eq!(new_runner_name("linux-general", "1234abcd"), made.name);
    assert!(made.connection.is_none());
    assert_eq!(
        made.plan,
        ProvisioningPlan::for_selected_provider(
            "docker",
            false,
            "ephemeral",
            true,
            "vm",
            "runner:latest",
            "macos-base"
        )
    );
    assert_eq!(made.recorded_repository(), Some(10));
    assert_eq!(made.installation(1), 20);
    let bitbucket = draft("tart", true);
    assert!(bitbucket.connection.is_some());
    assert_eq!(bitbucket.plan.platform, "bitbucket");
    assert_eq!(bitbucket.recorded_repository(), None);
}

#[test]
fn runners_register_as_their_pool_says() {
    match registration_plan("x86_64", &pool(), &draft("docker", false)) {
        RegistrationPlan::JustInTime(request) => {
            assert_eq!(request.name, "linux-general-1234abcd");
            assert_eq!(request.runner_group_id, 1);
            assert_eq!(request.work_folder, "_work");
            assert_eq!(
                request.labels,
                strings(&["self-hosted", "linux", "x64", "docker", "gpu", "linux-general"])
            );
        }
        _ => panic!("an ephemeral runner registers for one job"),
    }
    let mut persistent = pool();
    persistent.ephemeral = false;
    assert!(matches!(
        registration_plan("x86_64", &persistent, &draft("docker", false)),
        RegistrationPlan::Token { named_group: false }
    ));
    persistent.scope = "organization".into();
    persistent.runner_group_id = 3;
    assert!(matches!(
        registration_plan("x86_64", &persistent, &draft("docker", false)),
        RegistrationPlan::Token { named_group: true }
    ));
    assert!(matches!(
        registration_plan("x86_64", &pool(), &draft("tart", true)),
        RegistrationPlan::Bitbucket
    ));
}

#[test]
fn requests_carry_the_credentials_of_the_registration() {
    let request = |draft: &StartDraft, registration: Registration| {
        start_request(draft, "octo-org", "gridops-runners", "lease-1", true, registration)
    };
    let jit = request(
        &draft("docker", false),
        Registration::JustInTime {
            config: "fake-jit-credential-123456".into(),
            github_runner_id: 40,
        },
    )
    .ok()
    .expect("a request");
    assert_eq!(jit.github_runner_id, Some(40));
    assert_eq!(
        jit.runner.jit_config.as_deref(),
        Some("fake-jit-credential-123456")
    );
    assert!(jit.runner.registration_token.is_none());
    assert_eq!(jit.runner.capacity_lease, "lease-1");
    assert!(jit.runner.validate().is_ok());

    let token = request(
        &draft("docker", false),
        Registration::Token {
            token: "fake-registration-123456".into(),
            group: None,
        },
    )
    .ok()
    .expect("a request");
    assert_eq!(
        token.runner.registration_url.as_deref(),
        Some("https://github.com/octo-org/gridops")
    );

    let remote = |secret: Option<&str>| {
        Registration::Bitbucket(BitbucketRunner {
            uuid: "{runner}".into(),
            name: "linux-general-1234abcd".into(),
            labels: Vec::new(),
            state: None,
            oauth_client: BitbucketRunnerOAuthClient {
                id: "client".into(),
                secret: secret.map(|text| text.to_string()),
            },
        })
    };
    let bitbucket = request(&draft("tart", true), remote(Some("only-once")))
        .ok()
        .expect("a request");
    assert_eq!(bitbucket.platform, "bitbucket");
    let identity = bitbucket.bitbucket.expect("an identity");
    assert_eq!(identity.account_uuid, "{workspace}");
    assert_eq!(identity.runner_uuid, "{runner}");
    assert_eq!(identity.oauth_client_secret, "only-once");
    assert!(matches!(
        request(&draft("tart", true), remote(None)),
        Err(ApiError::Internal(_))
    ));
}

#[test]
fn starts_come_out_in_some_way() {
    assert_eq!(
        granted_lease(&told(&[("leaseId", "lease")])).ok().as_deref(),
        Some("lease")
    );
    assert!(matches!(
        granted_lease(&told(&[("lease", "lease")])),
        Err(ApiError::ServiceUnavailable(_))
    ));
    let started = started_runner(&told(&[("id", "c"), ("name", "linux-1"), ("state", "running")]))
        .ok()
        .unwrap();
    assert_eq!(started.container_id, "c");
    assert_eq!(started.container_name.as_deref(), Some("linux-1"));
    assert_eq!(started.status, "online");
    let starting = started_runner(&told(&[("id", "c")])).ok().unwrap();
    assert_eq!(starting.container_name, None);
    assert_eq!(starting.status, "starting");
    assert!(started_runner(&told(&[("state", "running")])).is_err());
    assert_eq!(
        started_message("linux-1", "linux"),
        "linux-1 started in pool linux"
    );
    assert_eq!(failure_reason(&"x".repeat(3_000)).len(), 2_000);
}

#[test]
fn refused_starts_release_their_capacity() {
    let registered = |at_bitbucket: bool| StartOutcome::Registered {
        at_bitbucket,
        at_github: !at_bitbucket,
    };
    let course = |outcomes: &[StartOutcome]| {
        let mut progress = StartProgress::new();
        let mut steps = vec![progress.step];
        for outcome in outcomes {
            progress = progress.after(*outcome);
            steps.push(progress.step);
        }
        (progress, steps)
    };
    let done = StartOutcome::Done;
    let (progress, steps) = course(&[done, done, registered(false), done, done, done]);
    assert_eq!(progress.step, StartStep::Started);
    assert!(progress.reserved);
    assert!(!steps.contains(&StartStep::Release));

    let (progress, steps) = course(&[
        done,
        done,
        registered(true),
        StartOutcome::Error,
        done,
        done,
        done,
    ]);
    assert_eq!(progress.step, StartStep::Refused);
    assert!(!progress.reserved);
    assert_eq!(
        steps[4..],
        [
            StartStep::Unregister,
            StartStep::Release,
            StartStep::MarkFailed,
            StartStep::Refused,
        ]
    );

    let (progress, steps) = course(&[done, StartOutcome::Error, StartOutcome::Error]);
    assert_eq!(progress.step, StartStep::Refused);
    assert!(steps.contains(&StartStep::Release));
    assert!(!steps.contains(&StartStep::MarkFailed));

    let (progress, steps) = course(&[StartOutcome::Error]);
    assert_eq!(progress.step, StartStep::Refused);
    assert!(!steps.contains(&StartStep::Release));
}

#[test]
fn runners_are_observed_by_their_containers() {
    let answer = [Member {
        key: "runners".into(),
        value: Json::List(vec![
            Json::Object(told(&[("id", "container-b")])),
            Json::Null,
            Json::Object(told(&[("id", "container-a"), ("state", "running")])),
        ]),
    }];
    let states = container_states(&answer);
    assert_eq!(states.len(), 1);
    assert!(container_states(&told(&[("runners", "none")])).is_empty());
    assert_eq!(
        observe_runner(&runner("a", "starting", false, 1, "github"), &states).as_deref(),
        Some("online")
    );
    assert_eq!(
        observe_runner(&runner("b", "online", false, 1, "github"), &states).as_deref(),
        Some("failed")
    );
    let mut without = runner("c", "starting", false, 1, "github");
    without.container_id = None;
    assert_eq!(observe_runner(&without, &states), None);
    assert!(works_without_manager(&[without]));
    assert!(!works_without_manager(&[runner("a", "online", false, 1, "github")]));
}

#[test]
fn passes_keep_busy_runners_and_those_of_bitbucket() {
    let runners = [
        runner("a", "busy", true, 1, "github"),
        runner("b", "online", false, 1, "bitbucket"),
        runner("c", "online", false, 1, "github"),
        runner("d", "failed", false, 2, "github"),
        runner("e", "online", false, 2, "github"),
    ];
    assert_eq!(failed_pool_runners(&runners), vec![3]);
    assert_eq!(pool_runner_to_rotate(&runners, 2), Some(2));
    assert_eq!(pool_runner_to_rotate(&runners, 1), None);
    assert_eq!(paused_pool_runners(&runners), vec![1, 2, 4]);
    assert_eq!(runners_to_drain(&runners), vec![1, 2, 3, 4]);
    assert_eq!(active_runner_count(&runners), 4);
    assert_eq!(outdated_runner_count(&runners, 2), 3);
    assert_eq!(runners_to_trim(&runners, 3), vec![2]);
    assert_eq!(runners_to_trim(&runners, 0), vec![2, 4]);
    assert_eq!(runners_to_trim(&runners, 4), Vec::<usize>::new());
    assert_eq!(pool_state_now(true, 0, 1, 0), "paused");
    assert_eq!(pool_state_now(true, 1, 1, 0), "draining");
    assert_eq!(pool_state_now(false, 1, 1, 1), "updating");
    assert_eq!(pool_state_now(false, 2, 1, 0), "draining");
    assert_eq!(pool_state_now(false, 1, 1, 0), "active");
}

#[test]
fn removals_wait_for_bitbucket_but_not_for_github() {
    assert!(matches!(
        after_remote_cleanup("github", None),
        Ok(RemoteCleanup::Complete)
    ));
    assert!(matches!(
        after_remote_cleanup("github", Some("down")),
        Ok(RemoteCleanup::Deferred(reason)) if reason == "down"
    ));
    assert!(matches!(
        after_remote_cleanup("bitbucket", Some("down")),
        Err(ApiError::ServiceUnavailable(message))
            if message == "Bitbucket runner cleanup failed; the local runner was left intact: down"
    ));
    let complete = removal_record("linux-1", &RemoteCleanup::Complete);
    assert_eq!(
        (complete.level, complete.message.as_str(), complete.outcome),
        ("info", "linux-1 was removed", "complete")
    );
    let deferred = removal_record("linux-1", &RemoteCleanup::Deferred("down".into()));
    assert_eq!(
        (deferred.level, deferred.message.as_str(), deferred.outcome),
        (
            "warn",
            "linux-1 was removed locally; GitHub cleanup will retry",
            "deferred"
        )
    );
    assert!(container_removed(Err(ApiError::NotFound("gone".into()))).is_ok());
    assert!(container_removed(Err(ApiError::Forbidden)).is_err());

    let mut step = first_removal_step(true);
    assert_eq!(step, RemovalStep::Archive);
    step = next_removal_step(step, false, true, true);
    assert_eq!(step, RemovalStep::Unregister);
    assert_eq!(
        next_removal_step(step, false, true, true),
        RemovalStep::Kept
    );
    step = next_removal_step(step, false, false, true);
    assert_eq!(step, RemovalStep::Defer);
    step = next_removal_step(step, true, false, true);
    assert_eq!(step, RemovalStep::RemoveContainer);
    step = next_removal_step(step, true, false, true);
    step = next_removal_step(step, true, false, true);
    assert_eq!(step, RemovalStep::Removed);
}

#[test]
fn runners_of_bitbucket_have_an_identity() {
    let mut remote = runner("a", "online", false, 1, "bitbucket");
    assert!(matches!(
        bitbucket_registration(&remote),
        Err(ApiError::Internal(message)) if message == "Bitbucket runner is missing its connection."
    ));
    remote.bitbucket_connection_id = Some("connection-1".into());
    assert!(matches!(
        bitbucket_registration(&remote),
        Err(ApiError::Internal(message))
            if message == "Bitbucket runner is missing its remote identity."
    ));
    remote.bitbucket_runner_uuid = Some("{runner}".into());
    assert_eq!(
        bitbucket_registration(&remote).ok(),
        Some(("connection-1".to_string(), "{runner}".to_string()))
    );
    assert_eq!(cleanup_owner(&remote), "octo-org");
    remote.repository_owner = Some("other".into());
    assert_eq!(cleanup_owner(&remote), "other");
}

#[test]
fn actions_on_runners_are_checked() {
    assert!(matches!(
        runner_deed("delete", true, None),
        Ok(RunnerDeed::Delete)
    ));
    assert!(matches!(
        runner_deed("rebuild", true, None),
        Ok(RunnerDeed::Rebuild)
    ));
    assert!(matches!(
        runner_deed("stop", true, Some("c")),
        Ok(RunnerDeed::Control { path, status: "stopped" }) if path == "v1/runners/c/stop"
    ));
    assert!(matches!(
        runner_deed("restart", false, Some("c")),
        Ok(RunnerDeed::Control { status: "online", .. })
    ));
    assert!(matches!(
        runner_deed("start", true, Some("c")),
        Err(ApiError::Conflict(_))
    ));
    assert!(matches!(
        runner_deed("pause", false, None),
        Err(ApiError::Conflict(message)) if message == "Runner has no managed container."
    ));
    assert!(matches!(
        runner_deed("explode", false, Some("c")),
        Err(ApiError::BadRequest(_))
    ));
}

#[test]
fn pools_show_their_own_repository() {
    assert_eq!(
        fallback_repository(0, Some(10), Some("octo-org"), Some("gridops")),
        Some((10, "octo-org/gridops".to_string()))
    );
    assert_eq!(
        fallback_repository(1, Some(10), Some("octo-org"), Some("gridops")),
        None
    );
    assert_eq!(fallback_repository(0, None, Some("a"), Some("b")), None);
    assert!(waits_for_capacity("Runner provisioning waiting"));
    assert!(!waits_for_capacity("Runner started"));
}

#[test]
fn waiting_jobs_are_diagnosed() {
    let outlook = |labels: &[&str], paused: bool, circuit_open: bool, active_runners: i64| {
        PoolOutlook {
            id: "pool-1".into(),
            name: "linux".into(),
            labels: strings(labels),
            providers: strings(&["docker"]),
            paused,
            circuit_open,
            max_count: 2,
            active_runners,
            busy_runners: 0,
        }
    };
    let requested = strings(&["self-hosted", "Linux", "gpu"]);
    let diagnose = |pools: &[PoolOutlook]| diagnose_queued_job("x86_64", pools, &requested);
    assert_eq!(
        diagnose(&[]).summary,
        "No accessible runner pool is assigned to this repository."
    );
    let none = diagnose(&[outlook(&[], false, false, 0)]);
    assert_eq!(
        none.summary,
        "No assigned pool matches every requested runner label."
    );
    assert_eq!(none.candidates[0].status, Holdup::Incompatible);
    let open = diagnose(&[outlook(&["gpu"], false, true, 0)]);
    assert_eq!(
        open.summary,
        "A matching pool needs a provisioning retry before GridOps can start another runner."
    );
    let full = diagnose(&[outlook(&["gpu"], false, false, 2)]);
    assert_eq!(
        full.summary,
        "A matching pool exists, but every compatible pool is currently at its configured limit."
    );
    assert_eq!(full.candidates[0].available_capacity, 0);
    let ready = diagnose(&[
        outlook(&["gpu"], true, false, 0),
        outlook(&["GPU"], false, false, 1),
    ]);
    assert_eq!(ready.candidates[0].status.as_str(), "paused");
    assert_eq!(ready.candidates[1].status.as_str(), "ready");
    assert_eq!(ready.candidates[1].provider.as_deref(), Some("docker"));
    assert_eq!(
        ready.summary,
        "A matching pool has configured headroom; GridOps will attempt capacity admission on its next reconcile."
    );
    let by_name = diagnose_queued_job(
        "x86_64",
        &[outlook(&[], false, false, 0)],
        &strings(&["self-hosted", "linux"]),
    );
    assert_eq!(by_name.candidates[0].status, Holdup::Ready);
}

#[test]
fn settings_are_checked_and_read_back() {
    let usual = SystemSettings::default();
    assert!(usual.validate().is_ok());
    assert_eq!(stored_settings(&[]), usual);
    let mut changed = usual;
    changed.log_retention_days = 7;
    changed.provisioning_paused = true;
    let stored = settings_to_store(&changed);
    assert_eq!(stored.len(), 8);
    assert_eq!(stored[0].key, "logRetentionDays");
    assert_eq!(stored[0].value, "7");
    assert_eq!(stored[7].value, "true");
    assert_eq!(stored_settings(&stored), changed);
    let broken = [StoredSetting {
        key: "logRetentionDays".into(),
        value: "\"many\"".into(),
    }];
    assert_eq!(stored_settings(&broken), usual);
    let refused = |edit: fn(&mut SystemSettings)| {
        let mut list = SystemSettings::default();
        edit(&mut list);
        list.validate().is_err()
    };
    assert!(refused(|list| list.log_retention_days = 0));
    assert!(refused(|list| list.log_storage_budget_mb = 99));
    assert!(refused(|list| list.webhook_retention_days = 3_651));
    assert!(refused(|list| list.audit_retention_days = 0));
    assert!(refused(|list| list.reconcile_interval_seconds = 4));
    assert!(refused(|list| list.github_sync_interval_seconds = 29));
}

#[test]
fn connections_to_bitbucket_are_checked() {
    let request = |name: &str, workspace: &str, token: &str| CreateBitbucketConnection {
        name: name.into(),
        workspace: workspace.into(),
        access_token: token.into(),
    };
    let token = "a-token-of-twenty-chars";
    let accepted = request(" Acme ", " ACME-Team ", token)
        .validate()
        .ok()
        .expect("accepted");
    assert_eq!(accepted.name, "Acme");
    assert_eq!(accepted.workspace, "acme-team");
    assert!(request("A", "acme", token).validate().is_err());
    assert!(request("Acme", "acme/../x", token).validate().is_err());
    assert!(request("Acme", "acme", "short").validate().is_err());
    assert_eq!(
        connection_token_key("1"),
        "bitbucket.connection.1.access_token"
    );
    let identity = |slug: &str, uuid: &str| BitbucketWorkspace {
        uuid: uuid.into(),
        slug: slug.into(),
        name: None,
    };
    assert!(check_workspace_identity(&identity("acme", "{1}")).is_ok());
    assert!(check_workspace_identity(&identity("", "{1}")).is_err());
    assert!(check_workspace_identity(&identity("acme", "")).is_err());
}

#[test]
fn someone_administers_the_system() {
    assert!(can_demote("member", 1));
    assert!(can_demote("admin", 2));
    assert!(!can_demote("admin", 1));
    assert!(check_role_change("admin", "member", 1).is_ok());
    assert!(check_role_change("admin", "admin", 1).is_ok());
    assert!(check_role_change("member", "admin", 2).is_ok());
    assert!(matches!(
        check_role_change("member", "admin", 1),
        Err(ApiError::Conflict(_))
    ));
    assert!(matches!(
        check_role_change("owner", "member", 1),
        Err(ApiError::BadRequest(_))
    ));
}

#[test]
fn new_pools_are_offered_what_the_manager_has() {
    assert_eq!(manager_resource_capacity(None, None), (2, 2_048));
    assert_eq!(manager_resource_capacity(Some(1), Some(512)), (1, 512));
    assert_eq!(manager_resource_capacity(Some(64), Some(65_536)), (2, 2_048));
    assert_eq!(manager_resource_capacity(Some(0), Some(255)), (2, 2_048));
    assert_eq!(default_tart_image(None), "gridops-macos-tahoe-base");
    assert_eq!(default_tart_image(Some("mine".into())), "mine");
    let defaults = runner_pool_defaults("runner:latest", "mine", 2, 2_048);
    assert_eq!(defaults.labels, strings(&["gridops"]));
    assert_eq!(defaults.tart_image, "mine");
    assert_eq!(defaults.max_count, 10);
}

#[test]
fn the_configuration_is_shown() {
    let parts = ConfiguredParts {
        oauth_credentials: true,
        app_credentials: false,
        webhook_active: true,
        webhook_secret: false,
        session_secret: true,
        encryption_key: false,
        manager_token: true,
    };
    let shown = configuration(&parts, "https://gridops.example.com", None);
    assert!(shown.github_oauth);
    assert!(!shown.installation_tokens);
    assert!(!shown.secure_storage);
    assert!(shown.runner_manager);
    assert_eq!(
        shown.callback_url,
        "https://gridops.example.com/auth/github/callback"
    );
    assert_eq!(
        shown.webhook_url,
        "https://gridops.example.com/api/webhooks/github"
    );
    assert_eq!(
        app_urls("gridops").1,
        "https://github.com/apps/gridops/installations/new"
    );
}

#[test]
fn pools_are_reconciled_on_request_step_by_step() {
    let course = |paused: bool| {
        let mut steps = vec![RequestedStep::Observe];
        while steps[steps.len() - 1] != RequestedStep::Over {
            steps.push(next_requested_step(steps[steps.len() - 1], paused));
        }
        steps
    };
    assert_eq!(
        course(false),
        vec![
            RequestedStep::Observe,
            RequestedStep::RemoveFailed,
            RequestedStep::Rotate,
            RequestedStep::Resize,
            RequestedStep::Record,
            RequestedStep::Over,
        ]
    );
    assert!(course(true).contains(&RequestedStep::Drain));
    assert!(!course(true).contains(&RequestedStep::Resize));
}
