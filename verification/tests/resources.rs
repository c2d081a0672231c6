//! Pages, settings and job logs of the API.
use gridops::autoscaling::RepositoryCapacity;
use gridops::console::{classify_console_line, split_log_timestamp, strip_ansi_sequences, LogLevel};
use gridops::error::ApiError;
use gridops::github::GitHubWorkflowStep;
use gridops::job_log::clean_job_lines;
use gridops::job_steps::structure_job_log;
use gridops::logs::{
    archive_full, archived_text, archived_view, choose_job_log, fallback_step, is_local_source, is_safe_log_name,
    job_log_answer, log_expiry, repository_full_name, retained_bytes, safe_log_path,
    shown_instant, stream_tail, structured_text, structured_window, truncate_log_text, JobLogAnswer, KeptLog,
    MAX_ARCHIVED_LOG_BYTES, MAX_STRUCTURED_LOG_BYTES,
};
use gridops::overview::{
    capacity_window, format_duration_millis, millis_to_seconds, overview_alerts,
    percentile_millis, requested_window, shown_state, success_rate_tenths, summarize_day,
    JobSample,
};
use gridops::pages::{
    additional_labels, bitbucket_runner_labels, bounded_pagination, effective_webhook_url,
    github_installation_settings_url, like_pattern, normalized_pool_labels, pagination,
    query_page, query_page_size, runner_registration_url, workflow_action_endpoint,
    workflow_action_path, DEFAULT_PAGE_SIZE,
};
use gridops::repositories::{
    check_connections, check_repository_total, last_repository_page, offered_repositories,
    repository_page, repository_query, requested_connections, search_query, selected_available_repositories,
    RepositoryChoice,
};
use gridops::settings::runner_pool_defaults;

#[test]
fn capacity_windows_have_bounded_chart_resolution() {
    assert_eq!(capacity_window("24h"), Some((86_400_000, 300_000)));
    assert_eq!(capacity_window("7d"), Some((604_800_000, 1_800_000)));
    assert_eq!(capacity_window("30d"), Some((2_592_000_000, 7_200_000)));
    assert_eq!(capacity_window("1y"), None);
}

#[test]
fn slo_percentiles_use_sorted_observations_and_seconds_round_up() {
    let values = [9_900, 100, 4_000, 2_001];
    assert_eq!(percentile_millis(&values, 50), Some(2_001));
    assert_eq!(percentile_millis(&values, 95), Some(9_900));
    assert_eq!(percentile_millis(&[], 95), None);
    assert_eq!(millis_to_seconds(2_001), 3);
    assert_eq!(format_duration_millis(61_001), "1m 2s");
}

#[test]
fn pool_labels_include_name_and_enforce_total_limit() {
    assert_eq!(
        normalized_pool_labels("linux", &["docker".into(), "docker".into()]).ok(),
        Some(vec!["docker".into(), "linux".into()])
    );
    let too_many = (0..20)
        .map(|index| format!("label-{index}"))
        .collect::<Vec<_>>();
    assert!(normalized_pool_labels("linux", &too_many).is_err());
}

#[test]
fn new_runner_pools_start_with_one_runner_but_can_scale_to_zero() {
    let defaults = runner_pool_defaults("runner:latest", "gridops-macos-tahoe-base", 64, 262_144);

    assert_eq!(defaults.desired_count, 1);
    assert_eq!(defaults.min_count, 0);
}

#[test]
fn workflow_actions_include_force_cancellation() {
    assert_eq!(workflow_action_endpoint("cancel").ok(), Some("cancel"));
    assert_eq!(
        workflow_action_endpoint("force-cancel").ok(),
        Some("force-cancel")
    );
    assert_eq!(workflow_action_endpoint("rerun").ok(), Some("rerun"));
    assert_eq!(
        workflow_action_endpoint("rerun-failed").ok(),
        Some("rerun-failed-jobs")
    );
    assert!(workflow_action_endpoint("delete").is_err());
}

#[test]
fn repository_search_escapes_like_wildcards() {
    assert_eq!(like_pattern(r"a%b_c\d"), r"%a\%b\_c\\d%");
}

#[test]
fn repository_pages_are_one_based_and_bounded() {
    assert_eq!(query_page(None), 1);
    assert_eq!(query_page(Some(-4)), 1);
    assert_eq!(query_page(Some(7)), 7);
    assert_eq!(query_page(Some(i64::MAX)), 1_000_000);
}

#[test]
fn collection_pagination_is_bounded_and_uses_stable_offsets() {
    assert_eq!(pagination(None, None), (1, DEFAULT_PAGE_SIZE));
    assert_eq!(pagination(Some(3), Some(10)), (3, 10));
    assert_eq!(pagination(Some(-1), Some(500)), (1, 100));
    assert_eq!(bounded_pagination(9, 42, 10), (5, 40));
    assert_eq!(bounded_pagination(3, 0, 25), (1, 0));
}

#[test]
fn settings_report_the_effective_webhook_url() {
    let base_url = "https://private.example.com";
    let public_webhook = "https://hooks.example.com/api/webhooks/github";

    assert_eq!(
        effective_webhook_url(base_url, None),
        "https://private.example.com/api/webhooks/github"
    );
    assert_eq!(
        effective_webhook_url(base_url, Some(public_webhook)),
        "https://hooks.example.com/api/webhooks/github"
    );
}

#[test]
fn github_installation_settings_urls_follow_account_ownership() {
    assert_eq!(
        github_installation_settings_url("User", "octocat", 12),
        "https://github.com/settings/installations/12"
    );
    assert_eq!(
        github_installation_settings_url("Organization", "octo-org", 34),
        "https://github.com/organizations/octo-org/settings/installations/34"
    );
}

#[test]
fn structured_job_logs_remove_runner_noise_and_surface_the_failed_step() {
    let steps = vec![
        GitHubWorkflowStep {
            name: "Run checkout".into(),
            status: "completed".into(),
            conclusion: Some("success".into()),
            number: 1,
            started_at: Some("2026-07-21T19:38:58.000Z".into()),
            completed_at: Some("2026-07-21T19:39:00.000Z".into()),
        },
        GitHubWorkflowStep {
            name: "Install pnpm".into(),
            status: "completed".into(),
            conclusion: Some("failure".into()),
            number: 2,
            started_at: Some("2026-07-21T19:39:00.000Z".into()),
            completed_at: Some("2026-07-21T19:39:02.000Z".into()),
        },
    ];
    let raw = [
        "2026-07-21T19:38:57.000000000Z [WORKER 2026-07-21 19:38:57Z INFO JobServerQueue] Uploading logs\n",
        "2026-07-21T19:38:58.000000000Z [GRIDOPS JOB LOG page.log]\n",
        "2026-07-21T19:38:58.100000000Z 2026-07-21T19:38:58.0104000Z ##[group]Run actions/checkout@v5\n",
        "2026-07-21T19:38:58.200000000Z 2026-07-21T19:38:58.2000000Z Checked out repository\n",
        "2026-07-21T19:39:00.100000000Z 2026-07-21T19:39:00.0104000Z ##[group]Run pnpm/action-setup@v4\n",
        "2026-07-21T19:39:01.100000000Z 2026-07-21T19:39:01.0104000Z Error: No pnpm version is specified.\n",
        "2026-07-21T19:39:01.200000000Z 2026-07-21T19:39:01.0204000Z ##[error]Process completed with exit code 1.\n",
        "2026-07-21T19:39:01.300000000Z 2026-07-21T19:39:01.0204999Z ##[error]Process completed with exit code 1.\n",
    ]
    .concat();

    let parsed = structure_job_log(&raw, &steps, true);

    assert_eq!(parsed.steps.len(), 2);
    assert_eq!(parsed.steps[0].lines.len(), 2);
    assert_eq!(parsed.steps[1].lines.len(), 3);
    assert_eq!(parsed.annotations.len(), 1);
    assert_eq!(parsed.annotations[0].step_name, "Install pnpm");
    assert_eq!(
        parsed.annotations[0].message,
        "Process completed with exit code 1."
    );
    assert!(parsed.hidden_diagnostic_lines >= 2);
    assert!(parsed
        .steps
        .iter()
        .flat_map(|step| &step.lines)
        .all(|line| {
            !line.text.contains("JobServerQueue") && !line.text.contains("GRIDOPS JOB LOG")
        }));
}

#[test]
fn github_job_logs_keep_clean_console_lines_and_remove_ansi_sequences() {
    let steps = vec![GitHubWorkflowStep {
        name: "Tests".into(),
        status: "completed".into(),
        conclusion: Some("success".into()),
        number: 1,
        started_at: Some("2026-07-21T19:40:00.000Z".into()),
        completed_at: Some("2026-07-21T19:40:01.000Z".into()),
    }];
    let raw = "2026-07-21T19:40:00.100Z \u{1b}[32m22 tests passed\u{1b}[0m\n";

    let parsed = structure_job_log(raw, &steps, false);

    assert_eq!(parsed.line_count, 1);
    assert_eq!(parsed.steps[0].lines[0].text, "22 tests passed");
}

#[test]
fn final_error_stays_with_the_failed_step_when_cleanup_shares_its_second() {
    let steps = vec![
        GitHubWorkflowStep {
            name: "Verify runner toolchain".into(),
            status: "completed".into(),
            conclusion: Some("failure".into()),
            number: 4,
            started_at: Some("2026-07-21T19:39:01Z".into()),
            completed_at: Some("2026-07-21T19:39:48Z".into()),
        },
        GitHubWorkflowStep {
            name: "Complete job".into(),
            status: "completed".into(),
            conclusion: Some("success".into()),
            number: 17,
            started_at: Some("2026-07-21T19:39:48Z".into()),
            completed_at: Some("2026-07-21T19:39:48Z".into()),
        },
    ];
    let raw = [
        "2026-07-21T19:39:47.900Z rustup could not install the toolchain\n",
        "2026-07-21T19:39:48.385Z ##[error]Process completed with exit code 1.\n",
        "2026-07-21T19:39:48.667Z Cleaning up orphan processes\n",
    ]
    .concat();

    let parsed = structure_job_log(&raw, &steps, false);

    assert_eq!(parsed.annotations.len(), 1);
    assert_eq!(parsed.annotations[0].step_name, "Verify runner toolchain");
    assert_eq!(parsed.steps[0].lines.len(), 2);
    assert_eq!(parsed.steps[1].lines.len(), 1);
    assert_eq!(parsed.steps[0].lines[1].level.as_str(), "error");
}

fn strings(list: &[&str]) -> Vec<String> {
    list.iter().map(|text| text.to_string()).collect()
}

#[test]
fn terminal_control_sequences_are_removed() {
    assert_eq!(strip_ansi_sequences("\u{1b}[1;31mred\u{1b}[0m"), "red");
    assert_eq!(strip_ansi_sequences("plain"), "plain");
    assert!(!strip_ansi_sequences("\u{1b}[2K\u{1b}[1Gx\u{1b}").contains('\u{1b}'));
}

#[test]
fn log_timestamps_are_split_off() {
    assert_eq!(
        split_log_timestamp("1970-01-01T00:00:01Z text here"),
        (Some(1_000), "text here".to_string())
    );
    assert_eq!(
        split_log_timestamp("no timestamp"),
        (None, "no timestamp".to_string())
    );
    assert_eq!(split_log_timestamp("word"), (None, "word".to_string()));
}

#[test]
fn console_lines_are_classified() {
    let class = |line: &str| classify_console_line(line);
    assert_eq!(
        class("##[error]Process failed"),
        Some((LogLevel::Error, "Process failed".to_string()))
    );
    assert_eq!(
        class("##[warning file=a.rs,line=1]Careful"),
        Some((LogLevel::Warning, "Careful".to_string()))
    );
    assert_eq!(
        class("##[section]Build"),
        Some((LogLevel::Group, "Build".to_string()))
    );
    assert_eq!(
        class("plain  "),
        Some((LogLevel::Output, "plain".to_string()))
    );
    assert_eq!(class("##[endgroup]"), None);
    assert_eq!(class("##[debug]hidden"), None);
}

#[test]
fn cleaned_lines_are_sorted_and_distinct() {
    let (lines, hidden) = clean_job_lines(
        "1970-01-01T00:00:02Z two\n1970-01-01T00:00:01Z one\n1970-01-01T00:00:02Z two\n[WORKER 1] noise\n",
        false,
    );
    let shown: Vec<&str> = lines.iter().map(|line| line.text.as_str()).collect();
    assert_eq!(shown, vec!["one", "two"]);
    assert_eq!(hidden, 1);
    assert_eq!(
        lines[0].timestamp.as_deref(),
        Some("1970-01-01T00:00:01.000Z")
    );
}

#[test]
fn failed_steps_without_errors_are_annotated() {
    let steps = vec![GitHubWorkflowStep {
        name: "Build".into(),
        status: "completed".into(),
        conclusion: Some("failure".into()),
        number: 3,
        started_at: None,
        completed_at: None,
    }];
    let parsed = structure_job_log("nothing to see\n", &steps, false);
    assert_eq!(parsed.annotations.len(), 1);
    assert_eq!(parsed.annotations[0].message, "Step concluded with failure.");
    assert_eq!(parsed.annotations[0].step_number, 3);
    let parsed = structure_job_log("An Error occurred\nbye\n", &steps, false);
    assert_eq!(parsed.annotations[0].message, "An Error occurred");
    let parsed = structure_job_log("text\n", &[], false);
    assert_eq!(parsed.steps[0].name, "Job output");
    assert_eq!(parsed.line_count, 1);
}

#[test]
fn log_names_stay_in_their_directory() {
    assert!(is_safe_log_name("0f3a-1.log"));
    assert!(safe_log_path("0f3a-1.log").is_ok());
    for name in ["", ".", "..", "a/b", "/etc/passwd", "a\\b", "a b", "ä.log"] {
        assert!(!is_safe_log_name(name));
        assert!(matches!(
            safe_log_path(name),
            Err(ApiError::BadRequest(message)) if message == "Archived log path is invalid."
        ));
    }
    assert!(!is_safe_log_name(&"a".repeat(129)));
}

#[test]
fn archives_are_bounded() {
    assert_eq!(retained_bytes(0, 10), 10);
    assert_eq!(retained_bytes(MAX_ARCHIVED_LOG_BYTES - 4, 10), 4);
    assert_eq!(retained_bytes(MAX_ARCHIVED_LOG_BYTES, 10), 0);
    assert!(archive_full(MAX_ARCHIVED_LOG_BYTES));
    assert!(!archive_full(0));
    assert_eq!(log_expiry(0, 30), 2_592_000_000);
    assert_eq!(archived_view(10).0, 0);
    assert_eq!(archived_view(1_000_010).0, 10);
    assert_eq!(structured_window(10), (0, false));
    assert_eq!(
        structured_window(MAX_STRUCTURED_LOG_BYTES + 3),
        (3, true)
    );
    assert_eq!(
        truncate_log_text("short".into()),
        ("short".to_string(), false)
    );
}

#[test]
fn long_logs_keep_their_end() {
    let long = format!("{}é", "x".repeat(MAX_STRUCTURED_LOG_BYTES));
    let (kept, truncated) = truncate_log_text(long);
    assert!(truncated);
    assert!(kept.len() <= MAX_STRUCTURED_LOG_BYTES);
    assert!(kept.ends_with("xé"));
}

#[test]
fn logs_come_from_where_they_are() {
    assert_eq!(job_log_answer(404), JobLogAnswer::NotThere);
    assert_eq!(job_log_answer(200), JobLogAnswer::Log);
    assert_eq!(job_log_answer(500), JobLogAnswer::Failed);
    let remote = choose_job_log(Some(("remote".into(), false)), Some(("local".into(), true)));
    assert_eq!(remote.logs, "remote");
    assert!(!is_local_source(remote.source));
    let local = choose_job_log(None, Some(("local".into(), true)));
    assert_eq!(local.logs, "local");
    assert!(local.truncated);
    assert!(is_local_source(local.source));
    assert_eq!(choose_job_log(None, None).logs, "");
    assert_eq!(stream_tail(None).ok().as_deref(), Some("500"));
    assert!(stream_tail(Some("-1")).is_err());
    let step = fallback_step("Build", "completed", Some("success".into()), Some(0), None);
    assert_eq!(step.name, "Build");
    assert_eq!(step.started_at.as_deref(), Some("1970-01-01T00:00:00.000Z"));
    assert_eq!(
        shown_instant(None, Some(0)).as_deref(),
        Some("1970-01-01T00:00:00.000Z")
    );
    assert_eq!(
        repository_full_name(Some("octo-org"), Some("gridops")).as_deref(),
        Some("octo-org/gridops")
    );
    assert_eq!(repository_full_name(Some("octo-org"), None), None);
}

#[test]
fn days_are_summarized() {
    let sample = |status: &str, conclusion: Option<&str>, created_at: i64, started_at: Option<i64>| {
        JobSample {
            status: status.into(),
            conclusion: conclusion.map(|text| text.to_string()),
            created_at,
            started_at,
        }
    };
    let day = summarize_day(
        &[
            sample("queued", None, 1_000, None),
            sample("queued", None, 4_000, None),
            sample("completed", Some("failure"), 0, Some(2_000)),
            sample("completed", Some("cancelled"), 0, Some(4_000)),
            sample("completed", Some("failure"), 10, Some(5)),
            sample("completed", Some("success"), 0, None),
            sample("completed", Some("skipped"), 0, None),
            sample("completed", Some("action_required"), 0, None),
            sample("completed", Some("timed_out"), 0, None),
        ],
        10_000,
    );
    assert_eq!(day.oldest_wait, Some(9_000));
    assert_eq!(day.wait_p95, Some(9_000));
    assert_eq!(day.start_p50, Some(2_000));
    assert_eq!(day.start_p95, Some(4_000));
    assert_eq!(day.started_jobs, 2);
    let failures: Vec<(&str, u64)> = day
        .failures
        .iter()
        .map(|failure| (failure.reason.as_str(), failure.count))
        .collect();
    assert_eq!(
        failures,
        vec![("failure", 2), ("action_required", 1), ("cancelled", 1)]
    );
}

#[test]
fn alerts_say_what_needs_attention() {
    assert!(overview_alerts(None, 0, 0).is_empty());
    assert!(overview_alerts(Some(299_999), 0, 0).is_empty());
    let alerts = overview_alerts(Some(300_000), 2, 3);
    assert_eq!(alerts.len(), 3);
    assert_eq!(alerts[0].detail, "5m 0s");
    assert_eq!(alerts[1].title, "2 provisioning circuit(s) open");
    assert_eq!(alerts[2].title, "3 webhook delivery failure(s) in 24h");
    assert_eq!(success_rate_tenths(2, 3), Some(667));
    assert_eq!(success_rate_tenths(1, 400), Some(3));
    assert_eq!(success_rate_tenths(201, 400), Some(502));
    assert_eq!(success_rate_tenths(203, 400), Some(507));
    assert_eq!(success_rate_tenths(1_001, 2_000), Some(500));
    assert_eq!(success_rate_tenths(i64::MAX, i64::MAX), Some(1_000));
    let counts = [0, 1, 2, 3, 7, 201, 203, 999, 1_001, 123_457, 9_007_199_254_740_993, i64::MAX];
    let rounded = |part: i64, whole: i64| ((part as f64 / whole as f64) * 1_000.0).round() as i64;
    for part in counts {
        for whole in (1..2_100).chain(counts) {
            if whole > 0 {
                assert_eq!(success_rate_tenths(part, whole), Some(rounded(part, whole)));
            }
        }
    }
    assert_eq!(success_rate_tenths(0, 0), None);
    assert_eq!(format_duration_millis(3_661_000), "1h 1m");
    assert_eq!(format_duration_millis(59_000), "59s");
    assert_eq!(shown_state(true, "active"), "paused");
    assert_eq!(shown_state(false, "active"), "active");
    assert_eq!(requested_window(None).ok(), Some((86_400_000, 300_000)));
    assert!(matches!(
        requested_window(Some("1y")),
        Err(ApiError::BadRequest(message)) if message == "Capacity window must be 24h, 7d, or 30d."
    ));
}

#[test]
fn labels_of_pools_are_shown_and_sent() {
    assert_eq!(
        additional_labels(&strings(&["docker", "linux"]), "linux"),
        strings(&["docker"])
    );
    assert_eq!(
        bitbucket_runner_labels("linux-general", &strings(&["gpu", "linux-general"]))
            .ok(),
        Some(strings(&["gpu", "gridops.linux.general"]))
    );
    assert!(bitbucket_runner_labels("linux", &strings(&["GPU"])).is_err());
    assert_eq!(query_page_size(Some(500), 25), 100);
    assert_eq!(query_page_size(None, 25), 25);
}

#[test]
fn addresses_at_github_are_built() {
    let repository = RepositoryCapacity {
        repository_id: 1,
        installation_id: 1,
        owner: "octo-org".into(),
        name: "gridops".into(),
        queued: 0,
        active: 0,
        busy: 0,
    };
    assert_eq!(
        runner_registration_url("octo-org", Some(&repository)),
        "https://github.com/octo-org/gridops"
    );
    assert_eq!(
        runner_registration_url("octo-org", None),
        "https://github.com/octo-org"
    );
    assert_eq!(
        workflow_action_path("octo-org", "gridops", 20, "cancel"),
        "/repos/octo-org/gridops/actions/runs/20/cancel"
    );
}

#[test]
fn repositories_are_searched_and_paged() {
    let names = strings(&["octo/Zeta", "octo/alpha", "other/beta"]);
    let page = repository_page(&names, "OCTO", 1, 10);
    assert_eq!(page.positions, vec![1, 0]);
    assert_eq!(page.total, 2);
    let second = repository_page(&names, "", 2, 2);
    assert_eq!(second.positions, vec![2]);
    assert_eq!(second.page, 2);
    let beyond = repository_page(&names, "", 9, 2);
    assert_eq!(beyond.page, 2);
    assert_eq!(repository_query(&Some("  grid ".into())).ok().as_deref(), Some("grid"));
    assert!(repository_query(&Some("x".repeat(101))).is_err());
    assert_eq!(repository_query(&None).ok().as_deref(), Some(""));
    assert!(search_query("").is_err());
}

#[test]
fn repositories_in_use_are_offered_by_name() {
    let names = strings(&["octo/Zeta", "octo/alpha", "octo/Beta", "octo/gone"]);
    let choices: Vec<RepositoryChoice> = (0..4)
        .map(|id| RepositoryChoice {
            id,
            archived: id == 3,
        })
        .collect();
    assert_eq!(offered_repositories(&names, &choices), vec![1, 2, 0]);
    assert!(offered_repositories(&[], &[]).is_empty());
}

#[test]
fn pools_take_available_repositories() {
    let choice = |id: i64, archived: bool| RepositoryChoice { id, archived };
    let choices = [choice(11, false), choice(10, false), choice(12, true)];
    assert_eq!(
        selected_available_repositories(&choices, &[10, 11, 10]).ok(),
        Some(vec![1, 0])
    );
    assert!(matches!(
        selected_available_repositories(&choices, &[12]),
        Err(ApiError::BadRequest(_))
    ));
    assert_eq!(
        requested_connections(&strings(&["b", "a", "b"])),
        strings(&["a", "b"])
    );
    assert!(check_connections(2, 2).is_ok());
    assert!(check_connections(2, 1).is_err());
    assert_eq!(last_repository_page(0), 1);
    assert_eq!(last_repository_page(101), 2);
    assert!(check_repository_total(3, 3, 1).is_ok());
    assert!(check_repository_total(2, 3, 1).is_err());
}

#[test]
fn kept_logs_have_checksums() {
    let mut log = KeptLog::new();
    assert_eq!(log.keep(b"a"), 1);
    assert_eq!(log.keep(b""), 0);
    assert_eq!(log.keep(b"bc"), 2);
    assert_eq!(log.size, 3);
    assert_eq!(
        log.checksum(),
        "ba7816bf8f01cfea414140de5dae2223b00361a396177a9cb410ff61f20015ad"
    );
    assert_eq!(
        KeptLog::new().checksum(),
        "e3b0c44298fc1c149afbf4c8996fb92427ae41e4649b934ca495991b7852b855"
    );
    let piece = vec![b'x'; 30_000_000];
    let mut pieces = KeptLog::new();
    for kept in [30_000_000, 30_000_000, 30_000_000, 14_857_600, 0] {
        assert_eq!(pieces.keep(&piece), kept);
    }
    assert!(archive_full(pieces.size));
    let mut whole = KeptLog::new();
    assert_eq!(whole.keep(&vec![b'x'; 120_000_000]), 104_857_600);
    assert_eq!(pieces.checksum(), whole.checksum());
}

#[test]
fn logs_are_shown_as_text() {
    assert_eq!(
        structured_text("gr\u{fc}n".as_bytes()),
        ("gr\u{fc}n".to_string(), false)
    );
    assert_eq!(structured_text(b"a\xffb"), ("a\u{fffd}b".to_string(), false));
    let mut long = vec![b'a'; MAX_STRUCTURED_LOG_BYTES];
    long.extend(b"end");
    let (text, truncated) = structured_text(&long);
    assert!(truncated);
    assert_eq!(text.len(), MAX_STRUCTURED_LOG_BYTES);
    assert!(text.ends_with("aend"));
    assert_eq!(archived_text(4, b"done"), "done");
    assert_eq!(
        archived_text(1_000_001, b"done\xff"),
        "[GridOps is showing the final 1 MB of this retained log.]\ndone\u{fffd}"
    );
}
