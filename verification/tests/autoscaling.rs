//! Labels, capacity and the assignment of queued jobs.
use gridops::assignment::{
    assigned_queued_jobs, queued_job_assignments, repository_capacities, PlacedRunner,
    PoolCandidate, PoolRepository, WaitingJob,
};
use gridops::autoscaling::{
    compatible_runner_provider, effective_runner_labels, next_runner_provider,
    next_runner_repository, provider_capacities, runner_arch_label, runner_supports_system_label,
    scale_up_target, ProviderRunners,
};

const ARCHITECTURE: &str = "x86_64";

fn strings(list: &[&str]) -> Vec<String> {
    list.iter().map(|text| text.to_string()).collect()
}

#[test]
fn effective_labels_include_supported_runner_system_labels() {
    let labels = effective_runner_labels(
        ARCHITECTURE,
        "docker",
        &["gridops".into(), "SELF-HOSTED".into(), "pool-a".into()],
    );
    assert!(labels.iter().any(|label| label == "self-hosted"));
    assert!(labels.iter().any(|label| label == "linux"));
    assert!(labels
        .iter()
        .any(|label| *label == runner_arch_label(ARCHITECTURE)));
    assert!(labels.iter().any(|label| label == "gridops"));
    assert!(labels.iter().any(|label| label == "pool-a"));
    assert_eq!(
        labels
            .iter()
            .filter(|label| label.eq_ignore_ascii_case("self-hosted"))
            .count(),
        1
    );
}

#[test]
fn unsupported_system_labels_are_not_treated_as_available() {
    let supports =
        |provider: &str, label: &str| runner_supports_system_label(ARCHITECTURE, provider, label);
    assert!(supports("docker", "self-hosted"));
    assert!(supports("docker", "Linux"));
    assert!(supports("docker", &runner_arch_label(ARCHITECTURE)));
    assert!(!supports("docker", "windows"));
    assert!(supports("tart", "macOS"));
    assert!(supports("tart", "arm64"));
    assert!(!supports("tart", "linux"));
    assert!(
        !effective_runner_labels(ARCHITECTURE, "docker", &["macOS".into()])
            .iter()
            .any(|label| label.eq_ignore_ascii_case("macos"))
    );
}

#[test]
fn mixed_pools_choose_the_provider_that_matches_job_system_labels() {
    let providers = vec!["docker".into(), "tart".into()];
    let configured = vec!["gridops".into(), "release".into()];
    assert_eq!(
        compatible_runner_provider(
            ARCHITECTURE,
            &providers,
            &["self-hosted".into(), "macOS".into(), "release".into()],
            &configured,
        ),
        Some("tart".into())
    );
    assert_eq!(
        compatible_runner_provider(
            ARCHITECTURE,
            &providers,
            &["self-hosted".into(), "linux".into()],
            &configured,
        ),
        Some("docker".into())
    );
    assert_eq!(
        compatible_runner_provider(
            ARCHITECTURE,
            &providers,
            &["self-hosted".into(), "windows".into()],
            &configured,
        ),
        None
    );
    assert_eq!(
        compatible_runner_provider(
            ARCHITECTURE,
            &providers,
            &["self-hosted".into()],
            &configured
        ),
        Some("docker".into())
    );
}

#[test]
fn scale_target_is_idempotent_for_the_same_queued_work() {
    assert_eq!(scale_up_target(0, 0, 1, 1, 10), 1);
    assert_eq!(scale_up_target(1, 0, 1, 1, 10), 1);
    assert_eq!(scale_up_target(1, 1, 1, 1, 10), 2);
    assert_eq!(scale_up_target(2, 1, 1, 1, 10), 2);
}

#[test]
fn provisioning_chooses_the_provider_with_an_unfilled_queue() {
    let mixed = PoolCandidate {
        id: "mixed".into(),
        scope: "repository".into(),
        installation_id: 1,
        repository_id: Some(10),
        repositories: vec![10],
        created_at: 1,
        autoscaling_enabled: true,
        paused: false,
        providers: strings(&["docker", "tart"]),
        labels: strings(&["mixed"]),
    };
    let jobs = [
        WaitingJob {
            repository_id: 10,
            installation_id: 1,
            labels: strings(&["self-hosted", "linux"]),
        },
        WaitingJob {
            repository_id: 10,
            installation_id: 1,
            labels: strings(&["self-hosted", "macOS"]),
        },
    ];
    let queued = queued_job_assignments(ARCHITECTURE, &[mixed], &jobs, "mixed");
    let runners = [ProviderRunners {
        provider: "docker".into(),
        active: 1,
        busy: 0,
    }];
    let capacities = provider_capacities(
        ARCHITECTURE,
        &strings(&["docker", "tart"]),
        &strings(&["mixed"]),
        &queued,
        &runners,
        Some(10),
    );
    assert_eq!(next_runner_provider(&capacities, 1), Some("tart".into()));
}

#[test]
fn queued_jobs_are_assigned_to_one_label_compatible_pool() {
    let pool = |id: &str,
                scope: &str,
                repository_id: Option<i64>,
                repositories: &[i64],
                created_at: i64,
                labels: &[&str]| PoolCandidate {
        id: id.into(),
        scope: scope.into(),
        installation_id: 1,
        repository_id,
        repositories: repositories.to_vec(),
        created_at,
        autoscaling_enabled: true,
        paused: false,
        providers: strings(&["docker"]),
        labels: strings(labels),
    };
    let pools = [
        pool(
            "pool-a",
            "repository",
            Some(10),
            &[10, 11],
            1,
            &["docker", "pool-a"],
        ),
        pool(
            "pool-b",
            "repository",
            Some(10),
            &[10],
            2,
            &["gpu", "pool-b"],
        ),
        pool(
            "pool-org",
            "organization",
            None,
            &[],
            0,
            &["org-only", "pool-org"],
        ),
    ];
    let job = |repository_id: i64, installation_id: i64, labels: &[&str]| WaitingJob {
        repository_id,
        installation_id,
        labels: strings(labels),
    };
    let jobs = [
        job(10, 1, &["self-hosted", "linux"]),
        job(10, 1, &["self-hosted", "docker"]),
        job(10, 1, &["self-hosted", "pool-b"]),
        job(10, 1, &["self-hosted", "org-only"]),
        job(10, 1, &["self-hosted", "unmatched"]),
        job(10, 1, &["self-hosted", "windows"]),
        job(11, 2, &["self-hosted", "pool-a"]),
    ];
    assert_eq!(
        assigned_queued_jobs(ARCHITECTURE, &pools, &jobs, "pool-a"),
        3
    );
    assert_eq!(
        assigned_queued_jobs(ARCHITECTURE, &pools, &jobs, "pool-b"),
        1
    );
    assert_eq!(
        assigned_queued_jobs(ARCHITECTURE, &pools, &jobs, "pool-org"),
        1
    );

    let runner = || PlacedRunner {
        target_repository_id: Some(10),
        status: "online".into(),
        busy: false,
    };
    let repository = |repository_id: i64, installation_id: i64, owner: &str, name: &str| {
        PoolRepository {
            repository_id,
            installation_id,
            owner: owner.into(),
            name: name.into(),
        }
    };
    let capacities = repository_capacities(
        ARCHITECTURE,
        &pools,
        &jobs,
        "pool-a",
        &[runner(), runner()],
        &[
            repository(10, 1, "octo-org", "gridops"),
            repository(11, 2, "other-org", "other"),
        ],
    );
    let target = next_runner_repository(&capacities, 1)
        .expect("multi-repository pool should have a target");
    assert_eq!(target.repository_id, 11);
    assert_eq!(target.installation_id, 2);
}
