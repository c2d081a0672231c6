//! The agent for macOS machines.
use gridops::capacity::{CapacityUsage, CpuSetting, DiskCapacity};
use gridops::models::CPU;
use gridops::tart_agent::{
    active_capacity, admit_tart_runner, agent_limits, agent_token, control_machine,
    enforce_tart_capacity, find_record, find_vm, network_mode, next_machine_step, poll_guest,
    read_log_tail, run_arguments, runner_script, runner_state, tart_disk_capacity,
    valid_guest_path, valid_id, valid_name, AgentError, AgentLimits, GuestPoll, MachineStep,
    NetworkMode, TartProvision, TartRecord, TartVm,
};

#[test]
fn validates_tart_runtime_identifiers() {
    assert!(valid_id("tart-0123456789abcdef0123456789abcdef"));
    assert!(!valid_id("0123456789abcdef"));
    assert!(valid_name("macos-ci-1234abcd"));
    assert!(!valid_name("macos ci"));
}

#[test]
fn generated_runner_script_keeps_jit_secret_off_command_line() {
    let script = runner_script("/Users/admin/actions-runner");
    assert!(script.contains("read -r GRIDOPS_BOOTSTRAP_SECRET"));
    assert!(script.contains("mkdir -p \"$runner_root/_diag\""));
    assert!(script.contains("_diag/pages/*.log"));
    assert!(!script.contains("fake-jit"));
}

#[test]
fn tails_complete_lines() {
    let tail = read_log_tail(b"one\ntwo\nthree\n".to_vec(), "2");
    assert_eq!(tail, b"two\nthree\n");
}

fn limits() -> AgentLimits {
    AgentLimits {
        cpu_budget: 8 * CPU,
        memory_budget_mb: 16_384,
        max_runners: 2,
        min_free_disk_mb: 10_240,
    }
}

fn disk(available_mb: u64) -> DiskCapacity {
    DiskCapacity {
        total_mb: 500_000,
        available_mb,
        minimum_free_mb: 10_240,
    }
}

fn provision() -> TartProvision {
    TartProvision {
        runner_id: "runner-1".into(),
        pool_id: "pool-1".into(),
        name: "macos-ci-1234abcd".into(),
        image: "gridops-macos-tahoe-base".into(),
        mode: "ephemeral".into(),
        provider: "tart".into(),
        jit_config: Some("fake-jit-credential-123456".into()),
        cpu_limit: 4 * CPU,
        memory_limit_mb: 8_192,
    }
}

fn record(id: &str, vm_name: &str) -> TartRecord {
    TartRecord {
        id: id.into(),
        runner_id: "runner-1".into(),
        pool_id: "pool-1".into(),
        name: "macos".into(),
        vm_name: vm_name.into(),
        image: "base".into(),
        cpu_limit: 4 * CPU,
        memory_limit_mb: 8_192,
        created_at: "2026-07-21T00:00:00.000Z".into(),
    }
}

fn vm(name: &str, state: &str) -> TartVm {
    TartVm {
        name: name.into(),
        state: state.into(),
    }
}

#[test]
fn running_machines_count() {
    let records = [record("1", "vm-1"), record("2", "vm-2"), record("3", "vm-3")];
    let vms = [vm("vm-1", "running"), vm("vm-2", "stopped")];
    let usage = active_capacity(&records, &vms);
    assert_eq!(usage.active_runners, 1);
    assert_eq!(usage.cpu, 4 * CPU);
    assert_eq!(usage.memory_mb, 8_192);
    assert_eq!(find_vm(&vms, "vm-2"), Some("stopped"));
    assert_eq!(find_vm(&vms, "vm-3"), None);
    assert_eq!(runner_state(Some("running")), "running");
    assert_eq!(runner_state(Some("stopped")), "exited");
    assert_eq!(runner_state(Some("suspended")), "paused");
    assert_eq!(runner_state(None), "missing");
}

#[test]
fn machines_fit_the_host() {
    let none = CapacityUsage::default();
    assert!(enforce_tart_capacity(&limits(), none, disk(100_000), 4 * CPU, 8_192).is_ok());
    let full = CapacityUsage {
        active_runners: 2,
        cpu: 0,
        memory_mb: 0,
    };
    assert!(matches!(
        enforce_tart_capacity(&limits(), full, disk(100_000), CPU, 2_048),
        Err(AgentError::Guardrail { .. })
    ));
    assert!(matches!(
        enforce_tart_capacity(&limits(), none, disk(100), CPU, 2_048),
        Err(AgentError::Guardrail { .. })
    ));
    assert!(matches!(
        enforce_tart_capacity(&limits(), none, disk(100_000), 9 * CPU, 2_048),
        Err(AgentError::Guardrail { .. })
    ));
    assert!(matches!(
        enforce_tart_capacity(&limits(), none, disk(100_000), CPU, 16_385),
        Err(AgentError::Guardrail { .. })
    ));
}

#[test]
fn machines_are_recorded_when_they_are_admitted() {
    let made = admit_tart_runner(
        &provision(),
        &limits(),
        &[],
        &[],
        disk(100_000),
        "0123456789abcdef0123456789abcdef",
        "2026-07-21T00:00:00.000Z",
    )
    .ok()
    .expect("admitted");
    assert_eq!(made.id, "tart-0123456789abcdef0123456789abcdef");
    assert_eq!(made.name, "macos-ci-1234abcd");
    assert_eq!(made.cpu_limit, 4 * CPU);
    assert_eq!(made.vm_name, "gridops-macos-ci-1234abcd");
    let try_start = |records: &[TartRecord], vms: &[TartVm]| {
        admit_tart_runner(
            &provision(),
            &limits(),
            records,
            vms,
            disk(100_000),
            "0123456789abcdef0123456789abcdef",
            "2026-07-21T00:00:00.000Z",
        )
    };
    assert!(matches!(try_start(&[made], &[]), Err(AgentError::Conflict(_))));
    assert!(matches!(
        try_start(&[], &[vm("gridops-macos-ci-1234abcd", "stopped")]),
        Err(AgentError::Conflict(_))
    ));
}

#[test]
fn requests_for_machines_are_checked() {
    assert!(provision().validate().is_ok());
    let mut persistent = provision();
    persistent.mode = "persistent".into();
    assert!(matches!(
        persistent.validate(),
        Err(AgentError::BadRequest(_))
    ));
    let mut fractional = provision();
    fractional.cpu_limit = CPU / 2 + CPU;
    assert!(fractional.validate().is_err());
    let mut secretless = provision();
    secretless.jit_config = None;
    assert!(secretless.validate().is_err());
}

#[test]
fn failed_machines_are_removed() {
    let mut step = MachineStep::Clone;
    for _ in 0..3 {
        step = next_machine_step(step, true);
    }
    assert_eq!(step, MachineStep::Start);
    assert_eq!(next_machine_step(step, false), MachineStep::CleanUp);
    assert_eq!(
        next_machine_step(MachineStep::CleanUp, true),
        MachineStep::Failed
    );
    assert_eq!(
        next_machine_step(MachineStep::StartRunner, true),
        MachineStep::Running
    );
}

#[test]
fn guests_have_a_deadline() {
    assert!(matches!(poll_guest(true, 10, 5), GuestPoll::Ready));
    assert!(matches!(poll_guest(false, 4, 5), GuestPoll::Wait));
    assert!(matches!(poll_guest(false, 5, 5), GuestPoll::TimedOut));
}

#[test]
fn agents_are_configured() {
    assert!(matches!(network_mode(None), Ok(NetworkMode::Softnet)));
    assert!(matches!(
        network_mode(Some("NAT".into())),
        Ok(NetworkMode::Nat)
    ));
    assert!(network_mode(Some("bridged".into())).is_err());
    let made = agent_limits(CpuSetting::Nanos(4 * CPU), &Some("8192".into()), &None, &None)
        .expect("limits");
    assert_eq!(made.cpu_budget, 4 * CPU);
    assert_eq!(made.memory_budget_mb, 8_192);
    assert!(agent_limits(CpuSetting::Invalid, &None, &None, &None).is_err());
    assert_eq!(
        agent_token(Some("a-token-of-some-length-0123456789".into()), None)
            .ok()
            .as_deref(),
        Some("a-token-of-some-length-0123456789")
    );
    assert!(agent_token(None, None).is_err());
    assert!(run_arguments(NetworkMode::Softnet, "vm-1")
        .iter()
        .any(|argument| argument.contains("softnet")));
    assert!(!run_arguments(NetworkMode::Nat, "vm-1")
        .iter()
        .any(|argument| argument.contains("softnet")));
}

#[test]
fn machines_are_found_and_only_stopped() {
    let known = "tart-0123456789abcdef0123456789abcdef";
    let records = [record(known, "vm-1")];
    assert_eq!(find_record(&records, known).ok(), Some(0));
    assert!(matches!(
        find_record(&records, "tart-ffffffffffffffffffffffffffffffff"),
        Err(AgentError::NotFound(_))
    ));
    assert!(matches!(
        find_record(&records, "tart-1"),
        Err(AgentError::BadRequest(_))
    ));
    assert!(control_machine("stop").is_ok());
    assert!(control_machine("start").is_err());
    assert!(valid_guest_path("/Users/admin/actions-runner"));
    assert!(!valid_guest_path("relative"));
    assert!(!valid_guest_path("/with space"));
}

#[test]
fn tails_of_logs_are_whole_lines() {
    let log = b"one\ntwo\nthree".to_vec();
    assert_eq!(read_log_tail(log.clone(), "all"), log);
    assert_eq!(read_log_tail(log.clone(), "1"), b"two\nthree");
    assert_eq!(read_log_tail(log.clone(), "9"), log);
    assert_eq!(read_log_tail(log, "0"), b"");
    assert_eq!(read_log_tail(Vec::new(), "3"), b"");
}

#[test]
fn the_disk_of_a_mac_is_read() {
    let output = "Filesystem 1024-blocks Used Available Capacity Mounted on\n/dev/disk3s1 104857600 52428800 52428800 50% /\n";
    let found = tart_disk_capacity(&limits(), output).ok().expect("a disk");
    assert_eq!(found.available_mb, 51_200);
    assert_eq!(found.minimum_free_mb, 10_240);
}
