//! Requests for new and changed pools.
use gridops::autoscaling::{compatible_runner_provider, runner_system_labels, scale_up_target};
use gridops::models::{CreateRunnerPool, UpdateRunnerPool, CPU};

fn pool() -> CreateRunnerPool {
    CreateRunnerPool {
        installation_id: 1,
        repository_id: Some(2),
        repository_ids: Vec::new(),
        bitbucket_connection_ids: Vec::new(),
        name: "linux-general".into(),
        scope: "repository".into(),
        mode: "ephemeral".into(),
        provider: "docker".into(),
        providers: vec!["docker".into()],
        labels: vec!["docker".into()],
        image: "ghcr.io/actions/actions-runner:latest".into(),
        docker_image: "ghcr.io/actions/actions-runner:latest".into(),
        tart_image: "gridops-macos-tahoe-base".into(),
        macos_runtime: "vm".into(),
        desired_count: 1,
        min_count: 0,
        max_count: 10,
        autoscaling_enabled: true,
        queue_scale_factor: 1,
        idle_timeout_minutes: 5,
        cpu_limit: 2 * CPU,
        memory_limit_mb: 4096,
        runner_group_id: 1,
    }
}

fn update_of(original: CreateRunnerPool) -> UpdateRunnerPool {
    UpdateRunnerPool {
        repository_ids: None,
        bitbucket_connection_ids: None,
        name: original.name,
        mode: original.mode,
        provider: original.provider,
        providers: original.providers,
        labels: original.labels,
        image: original.image,
        docker_image: original.docker_image,
        tart_image: original.tart_image,
        macos_runtime: original.macos_runtime,
        desired_count: original.desired_count,
        min_count: original.min_count,
        max_count: original.max_count,
        autoscaling_enabled: original.autoscaling_enabled,
        queue_scale_factor: original.queue_scale_factor,
        idle_timeout_minutes: original.idle_timeout_minutes,
        cpu_limit: original.cpu_limit,
        memory_limit_mb: original.memory_limit_mb,
        runner_group_id: original.runner_group_id,
    }
}

#[test]
fn validates_runner_pool_invariants() {
    assert!(pool().validate().is_ok());
    let mut invalid = pool();
    invalid.desired_count = 11;
    invalid.max_count = 10;
    assert!(invalid.validate().is_err());
    let mut invalid = pool();
    invalid.name = "Bad Pool".into();
    assert!(invalid.validate().is_err());

    let mut mixed = pool();
    mixed.providers = vec!["docker".into(), "tart".into()];
    assert!(mixed.validate().is_ok());
    mixed.mode = "persistent".into();
    assert!(mixed.validate().is_err());

    let mut invalid = pool();
    invalid.labels = vec!["bad,label".into()];
    assert!(invalid.validate().is_err());

    let mut invalid = pool();
    invalid.docker_image = " runner:latest".into();
    assert!(invalid.validate().is_err());

    let mut multi_repository = pool();
    multi_repository.repository_id = None;
    multi_repository.repository_ids = vec![2, 3];
    multi_repository.max_count = 1;
    assert!(multi_repository.validate().is_err());
    multi_repository.max_count = 2;
    assert!(multi_repository.validate().is_ok());
}

#[test]
fn validates_runner_pool_updates() {
    let update = update_of(pool());
    assert!(update.validate().is_ok());

    let mut undersized = update;
    undersized.repository_ids = Some(vec![2, 3]);
    undersized.max_count = 1;
    assert!(undersized.validate().is_err());
}

#[test]
fn shared_provisioning_contract_keeps_provider_labels_and_scale_targets_consistent() {
    assert_eq!(scale_up_target(2, 1, 5, 1, 10), 6);
    assert_eq!(scale_up_target(2, 1, 5, 2, 10), 10);
    let docker_labels = runner_system_labels("x86_64", "docker");
    let tart_labels = runner_system_labels("x86_64", "tart");
    assert_eq!(
        compatible_runner_provider(
            "x86_64",
            &["docker".into(), "tart".into()],
            &docker_labels,
            &["gridops".into()]
        ),
        Some("docker".into())
    );
    assert_eq!(
        compatible_runner_provider(
            "x86_64",
            &["docker".into(), "tart".into()],
            &tart_labels,
            &["gridops".into()]
        ),
        Some("tart".into())
    );
    assert_eq!(
        compatible_runner_provider(
            "x86_64",
            &["docker".into()],
            &["runs-on:macos".into()],
            &["gridops".into()]
        ),
        None
    );

    let input = CreateRunnerPool {
        installation_id: 42,
        repository_id: None,
        repository_ids: vec![7],
        bitbucket_connection_ids: vec![],
        name: "fixture-pool".into(),
        scope: "repository".into(),
        mode: "ephemeral".into(),
        provider: "docker".into(),
        providers: vec!["docker".into(), "tart".into()],
        labels: vec!["gridops".into()],
        image: "fixture-image".into(),
        docker_image: "fixture-image".into(),
        tart_image: "fixture-tart".into(),
        macos_runtime: "vm".into(),
        desired_count: 2,
        min_count: 0,
        max_count: 4,
        autoscaling_enabled: true,
        queue_scale_factor: 1,
        idle_timeout_minutes: 5,
        cpu_limit: 2 * CPU,
        memory_limit_mb: 2_048,
        runner_group_id: 1,
    };
    assert_eq!(input.validate(), Ok(()));
}
