//! Keeping pools at their size.
use gridops::autoscaling::{ProviderCapacity, RepositoryCapacity};
use gridops::github::{GitHubWorkflowJob, GitHubWorkflowRun, WorkflowActor};
use gridops::maintenance::{
    after_log_removal, capacity_sample, is_sync_due, listed_job, listed_run, log_budget_bytes,
    next_log_removal, reconcile_interval, retention_cutoff, run_completed_at, run_name, runs_with_jobs_to_read,
    LogRemoval,
};
use gridops::models::CPU;
use gridops::payload::{Json, Member};
use gridops::reconciler::{
    active_count, active_status, after_failed_start, busy_count, capacity_admission,
    cleanup_retry, defer_pool_capacity, deferred_manager_error, desired_now, failed_runners,
    github_cleanup_backoff_ms, idle_period_elapsed, manager_failure_message, maybe_scale_down,
    maybe_scale_up, next_pass_step, observed_status, outdated_count, pass_message,
    provision_backoff_ms, provisioning_blocked, record_provision_failure, retry_deferred,
    runner_needs_update, runner_to_rebalance, runner_to_rotate, runners_to_remove,
    runners_to_start, state_after_pass, CapacityAdmission, FailedStart, PassStep, Pool, Runner,
    StartBatch,
};

fn pool(configuration_version: i64) -> Pool {
    Pool {
        id: "pool-1".into(),
        installation_id: 1,
        account_login: "octo-org".into(),
        scope: "organization".into(),
        name: "linux".into(),
        state: "active".into(),
        mode: "ephemeral".into(),
        provider: "docker".into(),
        providers: r#"["docker"]"#.into(),
        labels: "[]".into(),
        docker_image: "runner:latest".into(),
        tart_image: "gridops-macos-tahoe-base".into(),
        desired_count: 1,
        min_count: 0,
        max_count: 10,
        cpu_limit: 2 * CPU,
        memory_limit_mb: 4096,
        runner_group_id: 1,
        ephemeral: true,
        paused: false,
        autoscaling_enabled: true,
        queue_scale_factor: 1,
        idle_timeout_minutes: 5,
        configuration_version,
        provision_failure_count: 0,
        provision_retry_at: None,
        provision_circuit_open: false,
    }
}

fn runner(configuration_version: i64) -> Runner {
    Runner {
        id: "runner-1".into(),
        installation_id: 1,
        name: "linux-1234".into(),
        container_id: None,
        github_runner_id: None,
        target_repository_id: None,
        repository_owner: None,
        repository_name: None,
        provider: "docker".into(),
        status: "online".into(),
        busy: false,
        last_job_id: None,
        configuration_version,
        updated_at: 1_000,
    }
}

fn told(members: &[(&str, &str)]) -> Vec<Member> {
    members
        .iter()
        .map(|(key, text)| Member {
            key: key.to_string(),
            value: Json::Text(text.to_string()),
        })
        .collect()
}

#[test]
fn detects_outdated_runner_generations() {
    assert!(runner_needs_update(&pool(2), &runner(1)));
    assert!(!runner_needs_update(&pool(2), &runner(2)));
    assert!(!runner_needs_update(&pool(2), &runner(3)));
}

#[test]
fn applies_idle_timeout_to_activity_not_heartbeats() {
    let five_minutes = 5 * 60_000;
    assert!(!idle_period_elapsed(1_000 + five_minutes - 1, 5, 1_000));
    assert!(idle_period_elapsed(1_000 + five_minutes, 5, 1_000));
}

#[test]
fn deferred_github_cleanup_uses_bounded_backoff() {
    assert_eq!(github_cleanup_backoff_ms(1), 30_000);
    assert_eq!(github_cleanup_backoff_ms(2), 60_000);
    assert_eq!(github_cleanup_backoff_ms(8), 3_600_000);
    assert_eq!(github_cleanup_backoff_ms(i64::MAX), 3_600_000);
}

#[test]
fn provisioning_failures_back_off_before_opening_the_circuit() {
    assert_eq!(provision_backoff_ms(1), 30_000);
    assert_eq!(provision_backoff_ms(2), 60_000);
    assert_eq!(provision_backoff_ms(3), 120_000);
}

fn runner_in(id: &str, status: &str, busy: bool) -> Runner {
    let mut made = runner(1);
    made.id = id.into();
    made.status = status.into();
    made.busy = busy;
    made
}

fn repository_capacity(repository_id: i64, queued: i64, active: i64, busy: i64) -> RepositoryCapacity {
    RepositoryCapacity {
        repository_id,
        installation_id: 1,
        owner: "octo-org".into(),
        name: "gridops".into(),
        queued,
        active,
        busy,
    }
}

fn provider_capacity(provider: &str, queued: i64, active: i64, busy: i64) -> ProviderCapacity {
    ProviderCapacity {
        provider: provider.into(),
        queued,
        active,
        busy,
    }
}

fn run(id: i64, status: &str) -> GitHubWorkflowRun {
    GitHubWorkflowRun {
        id,
        workflow_id: None,
        name: None,
        display_title: Some("CI".into()),
        run_number: 1,
        run_attempt: 1,
        event: "push".into(),
        status: status.into(),
        conclusion: None,
        head_branch: None,
        head_sha: "abc".into(),
        actor: Some(WorkflowActor {
            login: "octocat".into(),
        }),
        html_url: "".into(),
        run_started_at: None,
        created_at: "".into(),
        updated_at: "".into(),
    }
}

#[test]
fn containers_decide_the_state_of_runners() {
    assert_eq!(observed_status(Some("running"), true, "online"), "busy");
    assert_eq!(observed_status(Some("running"), false, "busy"), "online");
    assert_eq!(observed_status(Some("paused"), false, "online"), "paused");
    assert_eq!(observed_status(Some("exited"), false, "stopped"), "stopped");
    assert_eq!(observed_status(Some("exited"), false, "online"), "failed");
    assert_eq!(observed_status(Some("dead"), false, "busy"), "failed");
    assert_eq!(observed_status(None, false, "stopped"), "failed");
    assert_eq!(
        observed_status(Some("restarting"), false, "online"),
        "restarting"
    );
    assert!(active_status("stopped"));
    assert!(!active_status("failed"));
}

#[test]
fn a_pass_counts_and_sorts_out() {
    let runners = [
        runner_in("a", "online", false),
        runner_in("b", "failed", false),
        runner_in("c", "busy", true),
        runner_in("d", "deleted", false),
    ];
    assert_eq!(active_count(&runners), 2);
    assert_eq!(busy_count(&runners), 1);
    assert_eq!(outdated_count(&runners, 2), 4);
    assert_eq!(failed_runners(&runners), vec![1]);
    assert_eq!(runner_to_rotate(&pool(2), &runners, false), Some(0));
    assert_eq!(runner_to_rotate(&pool(2), &runners, true), None);
    assert_eq!(runner_to_rotate(&pool(1), &runners, false), None);
}

#[test]
fn provisioning_waits_for_its_retry() {
    let mut waiting = pool(1);
    assert!(!provisioning_blocked(&waiting, false, 10));
    assert!(provisioning_blocked(&waiting, true, 10));
    waiting.provision_retry_at = Some(11);
    assert!(retry_deferred(&waiting, 10));
    assert!(provisioning_blocked(&waiting, false, 10));
    assert!(!retry_deferred(&waiting, 11));
    waiting.provision_retry_at = None;
    waiting.provision_circuit_open = true;
    assert!(provisioning_blocked(&waiting, false, 10));
}

#[test]
fn queues_raise_and_idleness_lowers_what_is_wanted() {
    let quiet = [runner_in("a", "online", false)];
    let docker = [provider_capacity("docker", 3, 1, 0)];
    assert_eq!(maybe_scale_up(&pool(1), &quiet, 3, &[], &docker), Some(3));
    assert_eq!(maybe_scale_up(&pool(1), &quiet, 1, &[], &[provider_capacity("docker", 1, 1, 0)]), None);
    let mut paused = pool(1);
    paused.paused = true;
    assert_eq!(maybe_scale_up(&paused, &quiet, 3, &[], &docker), None);

    let later = 1_000 + 5 * 60_000;
    assert_eq!(maybe_scale_down(&pool(1), &quiet, 0, later), Some(0));
    assert_eq!(maybe_scale_down(&pool(1), &quiet, 0, later - 1), None);
    assert_eq!(maybe_scale_down(&pool(1), &quiet, 1, later), None);
    assert_eq!(
        maybe_scale_down(&pool(1), &[runner_in("a", "busy", true)], 0, later),
        None
    );
}

#[test]
fn passes_start_and_remove_what_is_missing_or_too_much() {
    let runners = [
        runner_in("a", "busy", true),
        runner_in("b", "online", false),
        runner_in("c", "online", false),
    ];
    assert_eq!(desired_now(&pool(1), 50), 10);
    let mut paused = pool(1);
    paused.paused = true;
    assert_eq!(desired_now(&paused, 5), 0);
    let crossed = Pool {
        min_count: 9,
        max_count: 3,
        ..paused
    };
    assert_eq!(desired_now(&crossed, 5), 0);
    assert_eq!(runners_to_start(1, 3, false), 2);
    assert_eq!(runners_to_start(1, 3, true), 0);
    assert_eq!(runners_to_start(3, 1, false), 0);
    assert_eq!(runners_to_remove(&runners, 2), vec![1]);
    assert_eq!(runners_to_remove(&runners, 0), vec![1, 2]);
    assert_eq!(runners_to_remove(&runners, 3), Vec::<usize>::new());
}

#[test]
fn idle_runners_move_to_where_they_are_needed() {
    let mut idle = runner_in("a", "online", false);
    idle.target_repository_id = Some(10);
    let mut for_repositories = pool(1);
    for_repositories.scope = "repository".into();
    let capacities = [
        repository_capacity(10, 0, 1, 0),
        repository_capacity(11, 1, 0, 0),
    ];
    let docker = [provider_capacity("docker", 1, 1, 0)];
    let providers = ["docker".to_string()];
    assert_eq!(
        runner_to_rebalance(&for_repositories, &[idle], 1, &capacities, &docker, &providers),
        Some(0)
    );
    let mut busy = runner_in("a", "busy", true);
    busy.target_repository_id = Some(10);
    assert_eq!(
        runner_to_rebalance(&for_repositories, &[busy], 1, &capacities, &docker, &providers),
        None
    );
}

#[test]
fn pools_show_the_state_of_a_pass() {
    let state = |pool: &Pool, paused: bool, deferred: bool, outdated: usize, active: usize| {
        state_after_pass(pool, paused, deferred, false, outdated, active, 1)
    };
    assert_eq!(state(&pool(1), false, false, 0, 1), "active");
    assert_eq!(state(&pool(1), false, false, 0, 2), "draining");
    assert_eq!(state(&pool(1), false, false, 1, 2), "updating");
    assert_eq!(state(&pool(1), false, true, 1, 2), "waiting");
    assert_eq!(state(&pool(1), true, true, 1, 2), "provisioning-paused");
    let mut open = pool(1);
    open.provision_circuit_open = true;
    assert_eq!(state(&open, false, false, 0, 1), "blocked");
    let mut failing = pool(1);
    failing.provision_failure_count = 1;
    assert_eq!(
        state_after_pass(&failing, false, false, true, 0, 1, 1),
        "backoff"
    );
    assert_eq!(
        state_after_pass(&pool(1), false, false, true, 0, 1, 1),
        "waiting"
    );
    let mut paused = pool(1);
    paused.paused = true;
    assert_eq!(state(&paused, true, true, 1, 2), "paused");
    assert_eq!(pass_message(0, 0, 0, 0, 3), None);
    assert_eq!(
        pass_message(1, 2, 0, 1, 3).as_deref(),
        Some("Provisioned 1, removed 2, rotated 0, rebalanced 1, active 3")
    );
}

#[test]
fn the_third_failure_opens_the_circuit() {
    let first = record_provision_failure(0, 0);
    assert_eq!((first.attempts, first.circuit_open), (1, false));
    assert_eq!(first.retry_at, Some(30_000));
    assert_eq!(first.state(), "backoff");
    let third = record_provision_failure(2, 0);
    assert!(third.circuit_open);
    assert_eq!(third.state(), "blocked");
}

#[test]
fn failed_cleanups_are_tried_again() {
    let retry = cleanup_retry(1, 1_000);
    assert_eq!(retry.attempts, 2);
    assert_eq!(retry.next_attempt_at, 61_000);
}

#[test]
fn guardrails_make_a_pool_wait() {
    let message = manager_failure_message(
        429,
        "429 Too Many Requests",
        &told(&[
            ("code", "host_capacity_exhausted"),
            ("error", "Host runner limit reached (4/3 including reservations)."),
        ]),
        "",
    );
    assert!(deferred_manager_error(&message));
    assert!(!deferred_manager_error("connection refused"));
    assert!(matches!(
        after_failed_start(&pool(1), &message, 0),
        FailedStart::Wait(_)
    ));
    assert!(matches!(
        after_failed_start(&pool(1), "connection refused", 0),
        FailedStart::Record(_)
    ));
    assert!(matches!(
        capacity_admission(Ok(told(&[("leaseId", "lease")]))),
        CapacityAdmission::Granted(lease) if lease == "lease"
    ));
    assert!(matches!(
        capacity_admission(Ok(told(&[("lease", "lease")]))),
        CapacityAdmission::Deferred(None)
    ));
    assert_eq!(
        manager_failure_message(500, "500 Internal Server Error", &[], "no JSON"),
        "runner manager request failed (500 Internal Server Error) [manager_error]: no JSON"
    );
    assert!(matches!(
        capacity_admission(Err(message)),
        CapacityAdmission::Deferred(Some(_))
    ));
    assert!(matches!(
        capacity_admission(Err("connection refused".into())),
        CapacityAdmission::Failed(_)
    ));
    let wait = defer_pool_capacity(&pool(1), Some("full".into()), 0);
    assert!(wait.report);
    assert_eq!(wait.retry_at, 30_000);
}

#[test]
fn blocked_passes_skip_what_would_start_runners() {
    let course = |is_blocked: bool| {
        let mut step = PassStep::Observe;
        let mut steps = vec![step];
        while step != PassStep::Over {
            step = next_pass_step(step, is_blocked);
            steps.push(step);
        }
        steps
    };
    assert_eq!(course(false).len(), 9);
    assert_eq!(
        course(true),
        vec![
            PassStep::Observe,
            PassStep::RemoveFailed,
            PassStep::ScaleDown,
            PassStep::Resize,
            PassStep::Record,
            PassStep::Over,
        ]
    );
    let batch = StartBatch::new(3).after(true).after(false);
    assert_eq!((batch.left, batch.provisioned, batch.deferred), (0, 1, true));
}

#[test]
fn maintenance_follows_its_settings() {
    assert_eq!(reconcile_interval(1), 5);
    assert_eq!(reconcile_interval(100_000), 3_600);
    assert!(is_sync_due(60_000, 0, 60));
    assert!(!is_sync_due(59_999, 0, 60));
    assert_eq!(retention_cutoff(86_400_000, 1), 0);
    assert_eq!(log_budget_bytes(4_096), 4_294_967_296);
    assert_eq!(next_log_removal(10, 10, true), LogRemoval::Stop);
    assert_eq!(next_log_removal(11, 10, true), LogRemoval::Remove);
    assert_eq!(next_log_removal(11, 10, false), LogRemoval::Skip);
    assert_eq!(after_log_removal(11, 4), 7);
}

#[test]
fn samples_are_taken_by_the_minute() {
    let sample = capacity_sample(
        &[
            runner_in("a", "busy", true),
            runner_in("b", "online", false),
            runner_in("c", "failed", false),
        ],
        125_000,
    );
    assert_eq!(sample.recorded_at, 120_000);
    assert_eq!(sample.busy, 1);
    assert_eq!(sample.available, 1);
}

#[test]
fn unfinished_and_new_runs_are_read() {
    let mut runs: Vec<GitHubWorkflowRun> = (0..12).map(|id| run(id, "completed")).collect();
    runs.push(run(99, "in_progress"));
    let read = runs_with_jobs_to_read(&runs);
    assert!(read.contains(&0));
    assert!(read.contains(&99));
    assert!(!read.contains(&11));
    assert_eq!(run_name(&runs[0]), "CI");
    assert_eq!(run_completed_at(&runs[0], 7), Some(7));
    assert_eq!(run_completed_at(&runs[12], 7), None);
}

#[test]
fn listed_runs_are_kept_with_their_dates() {
    let mut listed = run(7, "completed");
    listed.run_started_at = Some("1970-01-01T00:00:01Z".into());
    listed.created_at = "1970-01-01T00:00:02Z".into();
    listed.updated_at = "1970-01-01T00:00:03.500Z".into();
    let kept = listed_run(listed, 10, 99);
    assert_eq!((kept.id, kept.repository_id), (7, 10));
    assert_eq!(kept.workflow_name, "CI");
    assert_eq!(kept.actor_login.as_deref(), Some("octocat"));
    assert_eq!(kept.started_at, Some(1_000));
    assert_eq!(kept.github_created_at, 2_000);
    assert_eq!(kept.github_updated_at, 3_500);
    assert_eq!(kept.completed_at, Some(3_500));

    let undated = listed_run(run(8, "queued"), 10, 99);
    assert_eq!(undated.started_at, None);
    assert_eq!(undated.completed_at, None);
    assert_eq!((undated.github_created_at, undated.github_updated_at), (99, 99));
}

#[test]
fn listed_jobs_exist_since_they_were_started() {
    let job = |started_at: Option<&str>| GitHubWorkflowJob {
        id: 30,
        run_id: 7,
        name: "build".into(),
        status: "in_progress".into(),
        conclusion: None,
        runner_id: Some(5),
        runner_name: Some("linux-1".into()),
        runner_group_id: None,
        runner_group_name: None,
        labels: vec!["self-hosted".into()],
        html_url: "https://github.com/job/30".into(),
        started_at: started_at.map(str::to_owned),
        completed_at: Some("not a date".into()),
        steps: Vec::new(),
    };
    let (kept, since) = listed_job(job(Some("1970-01-01T00:00:04Z")), 99);
    assert_eq!((kept.id, kept.run_id, since), (30, 7, 4_000));
    assert_eq!(kept.started_at, Some(4_000));
    assert_eq!(kept.completed_at, None);
    assert_eq!(kept.labels, vec!["self-hosted".to_string()]);
    assert_eq!(kept.runner_name.as_deref(), Some("linux-1"));
    let (waiting, since) = listed_job(job(None), 99);
    assert_eq!((waiting.started_at, since), (None, 99));
}
