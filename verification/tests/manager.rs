//! The manager of containers.
use gridops::capacity::{
    disk_capacity, enforce_capacity, ensure_disk_capacity, format_cpus, parse_df_capacity,
    valid_docker_name, valid_log_size, CapacityUsage, CpuSetting, DiskCapacity, LimitSettings,
    ManagerLimits,
};
use gridops::leases::{paused_at_start, CapacityRequest, Ledger, LEASE_MILLIS};
use gridops::manager::{
    active_container_state, admit_provision, authorize_action, bearer_authorized,
    container_name_taken, container_plan, docker_active_capacity, ensure_managed,
    ignore_not_modified, log_tail, managed_labels, next_creation_step, route_runner,
    runner_command, status_after, take_bootstrap_secret, tart_agent_error, tart_log_error,
    tart_agent_from_environment, tart_log_path, valid_log_tail, valid_registration_url,
    ControlAction, CreationStep, HostLimits, LabelEntry, ProvisionRoute, ProvisionRunner,
    RunnerRoute, StepOutcome,
};
use gridops::manager_error::ManagerError;
use gridops::models::CPU;
use gridops::payload::{Json, Member};

fn provision_request(mode: &str) -> ProvisionRunner {
    ProvisionRunner {
        provider: "docker".into(),
        runner_id: "runner-1".into(),
        pool_id: "pool-1".into(),
        name: "runner-1".into(),
        image: "ghcr.io/actions/actions-runner:latest".into(),
        mode: mode.into(),
        jit_config: if mode == "ephemeral" {
            Some("fake-jit-credential-123456".into())
        } else {
            None
        },
        registration_token: if mode == "persistent" {
            Some("fake-registration-123456".into())
        } else {
            None
        },
        registration_url: if mode == "persistent" {
            Some("https://github.com/iamngoni/gridops".into())
        } else {
            None
        },
        labels: vec!["self-hosted".into(), "linux".into()],
        runner_group: None,
        pull_image: false,
        cpu_limit: 2 * CPU,
        memory_limit_mb: 4_096,
        network: "gridops-runners".into(),
        capacity_lease: "capacity-lease-1".into(),
    }
}

fn label(key: &str, value: &str) -> LabelEntry {
    LabelEntry {
        key: key.into(),
        value: value.into(),
    }
}

fn told(members: &[(&str, &str)]) -> Vec<Member> {
    members
        .iter()
        .map(|(key, text)| Member {
            key: key.to_string(),
            value: Json::Text(text.to_string()),
        })
        .collect()
}

#[test]
fn requires_complete_gridops_management_labels() {
    let mut labels = vec![
        label("io.gridops.managed", "true"),
        label("io.gridops.runner-id", "runner-1"),
        label("io.gridops.pool-id", "pool-1"),
    ];
    assert!(managed_labels(&labels));
    labels.pop();
    assert!(!managed_labels(&labels));
    labels.push(label("io.gridops.pool-id", "pool-1"));
    labels[0] = label("io.gridops.managed", "false");
    assert!(!managed_labels(&labels));
}

#[test]
fn validates_registration_urls() {
    assert!(valid_registration_url(
        "https://github.com/iamngoni/gridops"
    ));
    assert!(valid_registration_url("https://github.com/iamngoni"));
    assert!(!valid_registration_url(
        "https://example.com/iamngoni/gridops"
    ));
    assert!(!valid_registration_url("https://github.com/iamngoni bad"));
}

#[test]
fn validates_log_tails() {
    assert!(valid_log_tail("all"));
    assert!(valid_log_tail("0"));
    assert!(valid_log_tail("500"));
    assert!(!valid_log_tail("100001"));
    assert!(!valid_log_tail("recent"));
}

#[test]
fn enforces_aggregate_runner_budgets() {
    let limits = ManagerLimits {
        available_cpus: 10 * CPU,
        total_memory_mb: 8_192,
        cpu_budget: 6 * CPU,
        memory_budget_mb: 6_144,
        max_runners: 3,
        min_free_disk_mb: 1_024,
        min_free_disk_percent: 10,
        runner_network: "gridops-runners".into(),
        log_max_size: "20m".into(),
        log_max_files: 5,
        runner_pids_limit: 1_024,
    };
    let disk = DiskCapacity {
        total_mb: 100_000,
        available_mb: 50_000,
        minimum_free_mb: 10_000,
    };
    let active = CapacityUsage {
        active_runners: 2,
        cpu: 4 * CPU,
        memory_mb: 4_096,
    };
    let requested = CapacityUsage {
        active_runners: 1,
        cpu: 2 * CPU,
        memory_mb: 2_048,
    };
    assert!(enforce_capacity(&limits, active, CapacityUsage::default(), requested, disk).is_ok());
    let over_budget = CapacityUsage {
        active_runners: 1,
        cpu: 2 * CPU,
        memory_mb: 2_049,
    };
    assert!(matches!(
        enforce_capacity(&limits, active, CapacityUsage::default(), over_budget, disk),
        Err(ManagerError::Guardrail {
            code: "host_capacity_exhausted",
            ..
        })
    ));
}

#[test]
fn validates_explicit_log_rotation_sizes() {
    assert!(valid_log_size("20m"));
    assert!(valid_log_size("1g"));
    assert!(!valid_log_size("20"));
    assert!(!valid_log_size("0m"));
    assert!(!valid_log_size("twentym"));
}

#[test]
fn parses_portable_df_capacity_output() {
    let output = "Filesystem 1024-blocks Used Available Capacity Mounted on\noverlay 104857600 52428800 52428800 50% /\n";
    assert_eq!(parse_df_capacity(output), Some((102_400, 51_200)));
    assert_eq!(parse_df_capacity("Filesystem 1024-blocks\ninvalid"), None);
}

#[test]
fn keeps_ephemeral_bootstrap_credentials_out_of_docker_metadata() {
    let mut input = provision_request("ephemeral");
    assert!(input.validate().is_ok());
    let secret = take_bootstrap_secret(&mut input).expect("a credential");
    let runner = runner_command(&input).expect("a command");
    let metadata = format!("{:?}{:?}", runner.command, runner.environment);

    assert_eq!(secret, "fake-jit-credential-123456");
    assert!(input.jit_config.is_none());
    assert!(!metadata.contains(&secret));
    assert!(metadata.contains("read -r GRIDOPS_BOOTSTRAP_SECRET"));
    assert!(metadata.contains("_diag/pages/*.log"));
    assert!(metadata.contains("GRIDOPS JOB LOG"));
    assert!(metadata.contains("gridops-runner-diagnostics.log"));
    assert!(!metadata.contains("ACTIONS_RUNNER_PRINT_LOG_TO_STDOUT"));
}

#[test]
fn keeps_persistent_bootstrap_credentials_out_of_docker_metadata() {
    let mut input = provision_request("persistent");
    assert!(input.validate().is_ok());
    let secret = take_bootstrap_secret(&mut input).expect("a credential");
    let runner = runner_command(&input).expect("a command");
    let metadata = format!("{:?}{:?}", runner.command, runner.environment);

    assert_eq!(secret, "fake-registration-123456");
    assert!(input.registration_token.is_none());
    assert!(!metadata.contains(&secret));
    assert!(metadata.contains("if [ ! -f .runner ]"));
    assert!(metadata.contains("_diag/pages/*.log"));
    assert!(metadata.contains("GRIDOPS JOB LOG"));
    assert!(metadata.contains("gridops-runner-diagnostics.log"));
    assert!(!metadata.contains("ACTIONS_RUNNER_PRINT_LOG_TO_STDOUT"));
}

fn settings() -> LimitSettings {
    LimitSettings {
        cpu_budget: CpuSetting::Unset,
        memory_budget_mb: None,
        max_runners: None,
        min_free_disk_mb: None,
        min_free_disk_percent: None,
        runner_pids_limit: None,
        log_max_size: None,
        log_max_files: None,
        runner_network: None,
    }
}

fn limits() -> ManagerLimits {
    ManagerLimits::from_environment(8, 17_179_869_184, &settings()).expect("usable limits")
}

fn capacity_request(cpu: i64, memory_limit_mb: i64) -> CapacityRequest {
    CapacityRequest {
        runner_id: "runner-1".into(),
        pool_id: "pool-1".into(),
        provider: "docker".into(),
        cpu_limit: cpu * CPU,
        memory_limit_mb,
    }
}

fn roomy_disk() -> DiskCapacity {
    DiskCapacity {
        total_mb: 100_000,
        available_mb: 90_000,
        minimum_free_mb: 10_000,
    }
}

#[test]
fn a_quarter_of_the_host_stays_free() {
    let limits = limits();
    assert_eq!(limits.available_cpus, 8 * CPU);
    assert_eq!(limits.total_memory_mb, 16_384);
    assert_eq!(limits.cpu_budget, 6 * CPU);
    assert_eq!(limits.memory_budget_mb, 12_288);
    assert_eq!(limits.max_runners, 3);
    assert_eq!(limits.min_free_disk_mb, 25_600);
    assert_eq!(limits.min_free_disk_percent, 15);
    assert_eq!(limits.runner_network, "gridops-runners");
    assert_eq!(limits.log_max_size, "20m");
    assert_eq!(limits.log_max_files, 5);
    assert_eq!(limits.runner_pids_limit, 1_024);
}

#[test]
fn limits_beyond_the_host_are_refused() {
    let message = |change: fn(&mut LimitSettings)| {
        let mut list = settings();
        change(&mut list);
        ManagerLimits::from_environment(8, 17_179_869_184, &list)
            .err()
            .unwrap_or_default()
    };
    assert_eq!(
        message(|list| list.cpu_budget = CpuSetting::Invalid),
        "GRIDOPS_RUNNER_CPU_BUDGET is invalid"
    );
    assert_eq!(
        message(|list| list.cpu_budget = CpuSetting::Nanos(9 * CPU)),
        "GRIDOPS_RUNNER_CPU_BUDGET must be positive and no greater than the Docker host CPU count"
    );
    assert_eq!(
        message(|list| list.memory_budget_mb = Some("many".into())),
        "GRIDOPS_RUNNER_MEMORY_BUDGET_MB is invalid"
    );
    assert_eq!(
        message(|list| list.memory_budget_mb = Some("16385".into())),
        "GRIDOPS_RUNNER_MEMORY_BUDGET_MB must be between 256 MB and Docker host memory"
    );
    assert_eq!(
        message(|list| list.max_runners = Some("0".into())),
        "GRIDOPS_MAX_MANAGED_RUNNERS must be between 1 and 1000"
    );
    assert_eq!(
        message(|list| list.max_runners = Some("x".into())),
        "GRIDOPS_MAX_MANAGED_RUNNERS is invalid"
    );
    assert_eq!(
        message(|list| list.min_free_disk_mb = Some("-1".into())),
        "GRIDOPS_MIN_FREE_DISK_MB is invalid"
    );
    assert_eq!(
        message(|list| list.min_free_disk_percent = Some("96".into())),
        "GRIDOPS_MIN_FREE_DISK_PERCENT must be between 0 and 95"
    );
    assert_eq!(
        message(|list| list.runner_pids_limit = Some("63".into())),
        "GRIDOPS_RUNNER_PIDS_LIMIT must be between 64 and 32768"
    );
    assert_eq!(
        message(|list| list.log_max_size = Some("20".into())),
        "GRIDOPS_RUNNER_LOG_MAX_SIZE must use Docker's positive k, m, or g size syntax"
    );
    assert_eq!(
        message(|list| list.log_max_files = Some("101".into())),
        "GRIDOPS_RUNNER_LOG_MAX_FILES must be between 1 and 100"
    );
    assert_eq!(
        message(|list| list.runner_network = Some("bad network".into())),
        "GRIDOPS_RUNNER_NETWORK is invalid"
    );
    assert_eq!(message(|_| ()), "");
}

#[test]
fn processors_have_two_decimals() {
    assert_eq!(format_cpus(2 * CPU), "2.00");
    assert_eq!(format_cpus(CPU / 4), "0.25");
    assert_eq!(format_cpus(1_005_000_000), "1.00");
    assert_eq!(format_cpus(1_015_000_000), "1.01");
    for nanos in (5_000_000..4_000_000_000).step_by(10_000_000) {
        let shown = format!("{:.2}", nanos as f64 / CPU as f64);
        assert_eq!(format_cpus(nanos), shown);
    }
    assert_eq!(format_cpus(-CPU / 2), "-0.50");
}

#[test]
fn the_disk_keeps_a_reserve() {
    let output = "Filesystem 1024-blocks Used Available Capacity Mounted on\noverlay 104857600 52428800 52428800 50% /\n";
    let disk = disk_capacity(&limits(), output).ok().expect("a disk");
    assert_eq!(disk.total_mb, 102_400);
    assert_eq!(disk.available_mb, 51_200);
    assert_eq!(disk.minimum_free_mb, 25_600);
    assert!(ensure_disk_capacity(disk).is_ok());
    let full = DiskCapacity {
        total_mb: 102_400,
        available_mb: 100,
        minimum_free_mb: 25_600,
    };
    assert!(matches!(
        ensure_disk_capacity(full),
        Err(ManagerError::Guardrail { code: "host_disk_guardrail", message })
            if message == "Runner provisioning stopped because only 100 MB disk space remains; 25600 MB is reserved."
    ));
    assert!(disk_capacity(&limits(), "nothing").is_err());
}

#[test]
fn refusals_say_what_is_exhausted() {
    let refusal = |active: CapacityUsage| {
        let requested = CapacityUsage {
            active_runners: 1,
            cpu: 2 * CPU,
            memory_mb: 2_048,
        };
        match enforce_capacity(
            &limits(),
            active,
            CapacityUsage::default(),
            requested,
            roomy_disk(),
        ) {
            Err(ManagerError::Guardrail { message, .. }) => message,
            _ => String::new(),
        }
    };
    let used = |active_runners: usize, cpu: i64, memory_mb: i64| CapacityUsage {
        active_runners,
        cpu: cpu * CPU,
        memory_mb,
    };
    assert_eq!(
        refusal(used(3, 1, 1)),
        "Host runner limit reached (4/3 including reservations)."
    );
    assert_eq!(
        refusal(used(1, 5, 1)),
        "Host CPU budget would be exceeded (7.00/6.00 CPUs including reservations)."
    );
    assert_eq!(
        refusal(used(1, 1, 12_000)),
        "Host memory budget would be exceeded (14048/12288 MB including reservations)."
    );
    assert_eq!(refusal(used(2, 4, 10_240)), "");
}

#[test]
fn leases_count_until_they_are_used_or_expire() {
    let limits = limits();
    let mut ledger = Ledger::new();
    let none = CapacityUsage::default();
    let request = capacity_request(2, 2_048);
    assert!(ledger
        .reserve(&limits, none, &request, roomy_disk(), 0, "lease-1")
        .is_ok());
    assert!(ledger
        .reserve(&limits, none, &request, roomy_disk(), 0, "lease-2")
        .is_ok());
    assert!(ledger
        .reserve(&limits, none, &request, roomy_disk(), 0, "lease-3")
        .is_ok());
    assert_eq!(ledger.reserved().active_runners, 3);
    assert_eq!(ledger.reserved().cpu, 6 * CPU);
    assert!(matches!(
        ledger.reserve(&limits, none, &request, roomy_disk(), 0, "lease-4"),
        Err(ManagerError::Guardrail {
            code: "host_capacity_exhausted",
            ..
        })
    ));
    assert!(ledger.release("lease-1"));
    assert!(!ledger.release("lease-1"));
    assert!(ledger
        .reserve(&limits, none, &request, roomy_disk(), 0, "lease-4")
        .is_ok());
    ledger.expire(LEASE_MILLIS - 1);
    assert_eq!(ledger.reserved().active_runners, 3);
    ledger.expire(LEASE_MILLIS);
    assert_eq!(ledger.reserved().active_runners, 0);
}

#[test]
fn leases_cover_what_they_were_made_for() {
    let limits = limits();
    let mut ledger = Ledger::new();
    let request = capacity_request(2, 4_096);
    assert!(ledger
        .reserve(
            &limits,
            CapacityUsage::default(),
            &request,
            roomy_disk(),
            0,
            "lease-1"
        )
        .is_ok());
    let claim = |ledger: &mut Ledger, lease: &str, memory: i64| {
        ledger.validate_claim(lease, "runner-1", "pool-1", "docker", 2 * CPU, memory, 1)
    };
    assert!(claim(&mut ledger, "lease-1", 4_096).is_ok());
    assert!(matches!(
        claim(&mut ledger, "lease-1", 8_192),
        Err(ManagerError::Forbidden(_))
    ));
    assert!(matches!(
        claim(&mut ledger, "lease-2", 4_096),
        Err(ManagerError::Guardrail {
            code: "capacity_lease_invalid",
            ..
        })
    ));
}

#[test]
fn capacity_requests_are_checked() {
    assert!(capacity_request(2, 2_048).validate().is_ok());
    assert!(capacity_request(0, 2_048).validate().is_err());
    assert!(capacity_request(2, 255).validate().is_err());
    let mut unknown = capacity_request(2, 2_048);
    unknown.provider = "podman".into();
    assert!(unknown.validate().is_err());
    let mut nameless = capacity_request(2, 2_048);
    nameless.runner_id = String::new();
    assert!(nameless.validate().is_err());
}

#[test]
fn runners_are_admitted_with_a_lease() {
    let limits = limits();
    let mut input = provision_request("ephemeral");
    input.capacity_lease = "lease-1".into();
    let mut ledger = Ledger::new();
    assert!(matches!(
        admit_provision(&mut ledger, &input, &limits, false, false, 0),
        Err(ManagerError::Guardrail {
            code: "capacity_lease_invalid",
            ..
        })
    ));
    let request = capacity_request(2, 4_096);
    assert!(ledger
        .reserve(
            &limits,
            CapacityUsage::default(),
            &request,
            roomy_disk(),
            0,
            "lease-1"
        )
        .is_ok());
    assert!(matches!(
        admit_provision(&mut ledger, &input, &limits, true, false, 1),
        Err(ManagerError::Guardrail {
            code: "provisioning_paused",
            ..
        })
    ));
    assert!(matches!(
        admit_provision(&mut ledger, &input, &limits, false, false, 1),
        Ok(ProvisionRoute::Docker)
    ));
    input.network = "elsewhere".into();
    assert!(matches!(
        admit_provision(&mut ledger, &input, &limits, false, false, 1),
        Err(ManagerError::Forbidden(_))
    ));
}

#[test]
fn requests_to_start_are_checked() {
    let message = |change: fn(&mut ProvisionRunner)| {
        let mut input = provision_request("persistent");
        change(&mut input);
        match input.validate() {
            Err(ManagerError::BadRequest(message)) => message,
            _ => String::new(),
        }
    };
    assert_eq!(
        message(|input| input.runner_id = String::new()),
        "Runner, pool, and capacity lease identifiers are required."
    );
    assert_eq!(
        message(|input| input.name = "bad name".into()),
        "Runner or network name contains unsupported characters."
    );
    assert_eq!(
        message(|input| input.image = " ".into()),
        "Runner image is invalid."
    );
    assert_eq!(
        message(|input| input.mode = "eternal".into()),
        "Runner mode must be ephemeral or persistent."
    );
    assert_eq!(
        message(|input| input.mode = "ephemeral".into()),
        "Runner JIT configuration is invalid."
    );
    assert_eq!(
        message(|input| input.registration_token = None),
        "Persistent runner registration is invalid."
    );
    assert_eq!(
        message(|input| input.provider = "podman".into()),
        "Runner provider must be Docker or Tart."
    );
    assert_eq!(
        message(|input| input.provider = "tart".into()),
        "Tart runner pools must be ephemeral."
    );
    assert_eq!(
        message(|input| input.cpu_limit = 0),
        "Runner resource limits are outside the supported range."
    );
    assert_eq!(message(|_| ()), "");
    assert!(valid_docker_name("gridops_runners.1"));
    assert!(!valid_docker_name(""));
}

#[test]
fn containers_are_made_within_their_limits() {
    let plan = container_plan(&provision_request("ephemeral"), &limits())
        .ok()
        .expect("a plan");
    assert_eq!(plan.nano_cpus, 2 * CPU);
    assert_eq!(plan.memory_bytes, 4_294_967_296);
    assert_eq!(plan.memory_swap_bytes, 4_294_967_296);
    assert_eq!(plan.pids_limit, 1_024);
    assert_eq!(plan.log_max_size, "20m");
    assert_eq!(plan.dropped_capabilities, vec!["ALL".to_string()]);
    assert_eq!(plan.security_options, vec!["no-new-privileges:true".to_string()]);
    assert_eq!((plan.oom_score, plan.log_driver), (500, "json-file"));
    assert!(plan.takes_input && !plan.removed_at_exit);
    assert!(managed_labels(&plan.labels));
    assert!(ensure_managed(&plan.labels).is_ok());
    assert!(ensure_managed(&[]).is_err());
}

#[test]
fn half_made_containers_are_removed() {
    let mut step = CreationStep::InspectNetwork;
    for outcome in [
        StepOutcome::Missing,
        StepOutcome::Done,
        StepOutcome::Missing,
        StepOutcome::Done,
        StepOutcome::Done,
        StepOutcome::Done,
        StepOutcome::Done,
        StepOutcome::Done,
    ] {
        step = next_creation_step(step, outcome, false);
    }
    assert_eq!(step, CreationStep::SendCredential);
    step = next_creation_step(step, StepOutcome::Error, false);
    assert_eq!(step, CreationStep::RemoveContainer);
    step = next_creation_step(step, StepOutcome::Done, false);
    assert_eq!(step, CreationStep::Failed);
    assert_eq!(
        next_creation_step(CreationStep::InspectImage, StepOutcome::Done, true),
        CreationStep::PullImage
    );
    assert_eq!(
        next_creation_step(CreationStep::ListContainers, StepOutcome::Taken, false),
        CreationStep::Failed
    );
}

#[test]
fn names_of_containers_are_taken_once() {
    let existing = ["/runner-1".to_string()];
    assert!(container_name_taken("runner-1", &existing));
    assert!(!container_name_taken("runner-2", &existing));
}

#[test]
fn requests_carry_the_token() {
    assert!(bearer_authorized(Some("Bearer token"), "token"));
    assert!(!bearer_authorized(Some("Bearer other"), "token"));
    assert!(!bearer_authorized(Some("token"), "token"));
    assert!(!bearer_authorized(None, "token"));
}

#[test]
fn runners_are_routed_by_their_identifier() {
    let tart = "tart-0123456789abcdef0123456789abcdef";
    assert!(matches!(
        route_runner("0123456789ab", false),
        Ok(RunnerRoute::Docker)
    ));
    assert!(matches!(route_runner(tart, true), Ok(RunnerRoute::TartAgent)));
    assert!(matches!(
        route_runner(tart, false),
        Err(ManagerError::Upstream { status: 503, .. })
    ));
    assert!(matches!(
        route_runner("../etc", false),
        Err(ManagerError::BadRequest(_))
    ));
}

#[test]
fn runners_for_one_job_do_not_start_again() {
    let ephemeral = [label("io.gridops.mode", "ephemeral")];
    let persistent = [label("io.gridops.mode", "persistent")];
    assert!(matches!(
        authorize_action("start", &ephemeral, false),
        Err(ManagerError::Conflict(_))
    ));
    assert!(matches!(
        authorize_action("stop", &ephemeral, true),
        Ok(ControlAction::Stop)
    ));
    assert!(matches!(
        authorize_action("restart", &persistent, false),
        Ok(ControlAction::Restart)
    ));
    assert!(matches!(
        authorize_action("resume", &persistent, true),
        Err(ManagerError::Guardrail {
            code: "provisioning_paused",
            ..
        })
    ));
    assert!(matches!(
        authorize_action("explode", &persistent, false),
        Err(ManagerError::BadRequest(_))
    ));
    assert_eq!(status_after(ControlAction::Pause), "paused");
    assert_eq!(status_after(ControlAction::Restart), "running");
    assert!(ignore_not_modified(Some(304)));
    assert!(!ignore_not_modified(Some(404)));
}

#[test]
fn containers_use_their_limits() {
    let usage = docker_active_capacity(&[
        HostLimits {
            nano_cpus: Some(2 * CPU),
            memory_bytes: Some(4_294_967_296),
        },
        HostLimits {
            nano_cpus: None,
            memory_bytes: None,
        },
    ]);
    assert_eq!(usage.active_runners, 2);
    assert_eq!(usage.cpu, 2 * CPU);
    assert_eq!(usage.memory_mb, 4_096);
    assert!(active_container_state("running"));
    assert!(!active_container_state("exited"));
}

#[test]
fn log_tails_have_a_default() {
    assert_eq!(log_tail(None).ok().as_deref(), Some("500"));
    assert_eq!(log_tail(Some("all".into())).ok().as_deref(), Some("all"));
    assert!(log_tail(Some("-1".into())).is_err());
    assert_eq!(
        tart_log_path("tart-1", "all", true),
        "v1/runners/tart-1/logs?tail=all&follow=true"
    );
}

#[test]
fn the_tart_agent_is_set_completely_or_not_at_all() {
    let agent = |url: Option<&str>, token: Option<&str>| {
        tart_agent_from_environment(
            &url.map(|text| text.to_string()),
            &token.map(|text| text.to_string()),
        )
        .map(|found| found.map(|setting| setting.base_url))
    };
    assert_eq!(agent(None, None), Ok(None));
    assert_eq!(agent(Some(" "), None), Ok(None));
    assert_eq!(
        agent(Some("http://mac.local:8790"), Some("token")),
        Ok(Some("http://mac.local:8790/".to_string()))
    );
    assert_eq!(
        agent(Some("http://mac.local:8790"), None),
        Err(
            "GRIDOPS_TART_AGENT_URL and GRIDOPS_TART_AGENT_TOKEN must be configured together"
                .to_string()
        )
    );
    assert_eq!(
        agent(Some("nowhere"), Some("token")),
        Err("GRIDOPS_TART_AGENT_URL is invalid".to_string())
    );
    assert_eq!(
        agent(Some("ftp://mac.local"), Some("token")),
        Err("GRIDOPS_TART_AGENT_URL must use HTTP or HTTPS".to_string())
    );
    assert!(matches!(
        tart_agent_error(429, &told(&[("code", "full")]), "body"),
        ManagerError::Upstream { status: 429, code, message }
            if code == "full" && message == "body"
    ));
    assert!(matches!(
        tart_agent_error(500, &told(&[("error", "broken")]), "body"),
        ManagerError::Upstream { status: 500, code, message }
            if code == "tart_agent_error" && message == "broken"
    ));
    assert!(matches!(
        tart_log_error(404, &"x".repeat(3_000)),
        ManagerError::Upstream { status: 404, code, message }
            if code == "tart_log_error" && message.len() == 2_000
    ));
}

#[test]
fn docker_errors_keep_their_meaning() {
    let answer = |status: Option<u16>| ManagerError::from_docker(status, "daemon").into_response();
    assert_eq!(answer(Some(404)).0, 404);
    assert_eq!(answer(Some(409)).0, 409);
    assert_eq!(answer(None).0, 500);
}

#[test]
fn a_host_can_begin_paused() {
    for word in ["1", "true", "YES", "True"] {
        assert!(paused_at_start(&Some(word.into())));
    }
    for word in ["0", "", "on", " true"] {
        assert!(!paused_at_start(&Some(word.into())));
    }
    assert!(!paused_at_start(&None));
}
