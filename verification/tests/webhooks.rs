//! Webhooks of GitHub.
use gridops::error::ApiError;
use gridops::payload::{
    array, bool_value, date_value, i64_value, nested_i64, nested_object, nested_string, string,
    Json, Member,
};
use gridops::webhooks::{
    accept_retry, check_webhook_size, classify_event, delivery_answer, delivery_step,
    job_labels, placeholder_repository,
    placeholder_run, pool_for_queued_job, process_installation, process_installation_repositories,
    process_workflow_job, process_workflow_run, processing_record, queued_job_message,
    queued_job_target, rejected_record, require_repository, required_header, run_url_of_job,
    runner_effect, verify_signature, verify_signature_with_secret, DeliveryAnswer, DeliveryStep, EventKind,
    InstallationChange, RunnerEffect, ScaleCandidate, StoredDelivery, MAX_WEBHOOK_BYTES,
};
use hmac::Mac;

fn member(key: &str, value: Json) -> Member {
    Member {
        key: key.into(),
        value,
    }
}

#[test]
fn payload_helpers_reject_wrong_types() {
    let object = [
        member("number", Json::Integer(42)),
        member("text", Json::Text("yes".into())),
        member("array", Json::List(vec![Json::Text("one".into())])),
    ];
    assert_eq!(i64_value(&object, "number"), Some(42));
    assert_eq!(string(&object, "text"), Some("yes"));
    assert_eq!(array(&object, "array").map_or(0, |list| list.len()), 1);
    assert_eq!(string(&object, "number"), None);
}

#[test]
fn webhook_signatures_are_authenticated() {
    let body = br#"{"zen":"Keep it logically awesome."}"#;
    let mut mac =
        hmac::Hmac::<sha2::Sha256>::new_from_slice(b"test-secret").expect("any key is valid");
    mac.update(body);
    let signature = format!("sha256={}", hex::encode(mac.finalize().into_bytes()));
    assert!(verify_signature_with_secret(
        body,
        &signature,
        "test-secret"
    ));
    assert!(!verify_signature_with_secret(
        b"tampered",
        &signature,
        "test-secret"
    ));
}

fn text(value: &str) -> Json {
    Json::Text(value.into())
}

fn object(members: Vec<(&str, Json)>) -> Json {
    Json::Object(
        members
            .into_iter()
            .map(|(key, value)| member(key, value))
            .collect(),
    )
}

fn labels(list: &[&str]) -> Json {
    Json::List(list.iter().map(|label| text(label)).collect())
}

fn payload(members: Vec<(&str, Json)>) -> Vec<Member> {
    members
        .into_iter()
        .map(|(key, value)| member(key, value))
        .collect()
}

#[test]
fn known_signatures_are_accepted() {
    let signature = "sha256=757107ea0eb2509fc211221cce984b8a37570b6d7586c22c46f4379c8b043e17";
    let secret = "It's a Secret to Everybody";
    assert!(verify_signature_with_secret(b"Hello, World!", signature, secret));
    assert!(verify_signature_with_secret(
        b"Hello, World!",
        &signature.replace("757107ea", "757107EA"),
        secret
    ));
    assert!(!verify_signature_with_secret(b"Hello, World", signature, secret));
    assert!(!verify_signature_with_secret(b"Hello, World!", signature, "other"));
    assert!(!verify_signature_with_secret(
        b"Hello, World!",
        &signature.replace("sha256=", ""),
        secret
    ));
    assert!(!verify_signature_with_secret(b"Hello, World!", "sha256=75710", secret));
    assert!(!verify_signature_with_secret(b"Hello, World!", "sha256=zz", secret));
    assert!(verify_signature(b"Hello, World!", Some(signature), Some(secret)));
    assert!(!verify_signature(b"Hello, World!", Some(signature), None));
    assert!(!verify_signature(b"Hello, World!", None, Some(secret)));
}

#[test]
fn deliveries_are_taken_in_once_and_only_signed() {
    assert_eq!(delivery_step(true, true), DeliveryStep::Process);
    assert_eq!(delivery_step(true, false), DeliveryStep::Reject);
    assert_eq!(delivery_step(false, true), DeliveryStep::Duplicate);
    assert_eq!(delivery_step(false, false), DeliveryStep::Duplicate);
    assert!(check_webhook_size(MAX_WEBHOOK_BYTES).is_ok());
    assert!(matches!(
        check_webhook_size(MAX_WEBHOOK_BYTES + 1),
        Err(ApiError::PayloadTooLarge(_))
    ));
    assert!(matches!(
        required_header(None, "x-github-event"),
        Err(ApiError::BadRequest(message)) if message == "Missing x-github-event header."
    ));
    assert_eq!(
        required_header(Some("push"), "x-github-event").ok(),
        Some("push".to_string())
    );
}

#[test]
fn processing_is_recorded() {
    assert_eq!(rejected_record().status, "rejected");
    assert_eq!(processing_record(None).status, "processed");
    assert_eq!(processing_record(None).error, None);
    let long = "x".repeat(2_500);
    let failed = processing_record(Some(&long));
    assert_eq!(failed.status, "failed");
    assert_eq!(failed.error.map_or(0, |error| error.len()), 2_000);
}

#[test]
fn only_verified_deliveries_are_retried() {
    let delivery = |installation_id: Option<i64>, signature_valid: bool, payload: Option<&str>| {
        Some(StoredDelivery {
            event: "ping".into(),
            action: None,
            installation_id,
            signature_valid,
            payload: payload.map(|text| text.to_string()),
        })
    };
    assert!(accept_retry(delivery(Some(1), true, Some("{}")), true, false).is_ok());
    assert!(accept_retry(delivery(None, true, Some("{}")), false, true).is_ok());
    assert!(matches!(
        accept_retry(delivery(Some(1), true, Some("{}")), false, true),
        Err(ApiError::Forbidden)
    ));
    assert!(matches!(
        accept_retry(delivery(None, true, Some("{}")), true, false),
        Err(ApiError::Forbidden)
    ));
    assert!(matches!(
        accept_retry(delivery(Some(1), false, Some("{}")), true, true),
        Err(ApiError::BadRequest(_))
    ));
    assert!(matches!(
        accept_retry(delivery(Some(1), true, None), true, true),
        Err(ApiError::BadRequest(_))
    ));
    assert!(matches!(
        accept_retry(None, true, true),
        Err(ApiError::NotFound(_))
    ));
}

#[test]
fn events_are_told_apart() {
    assert_eq!(classify_event("installation", None), EventKind::Installation);
    assert_eq!(
        classify_event("installation_repositories", Some("added")),
        EventKind::InstallationRepositories
    );
    assert_eq!(classify_event("workflow_run", None), EventKind::WorkflowRun);
    assert_eq!(classify_event("workflow_job", None), EventKind::WorkflowJob);
    assert_eq!(
        classify_event("github_app_authorization", Some("revoked")),
        EventKind::AuthorizationRevoked
    );
    assert_eq!(
        classify_event("github_app_authorization", Some("granted")),
        EventKind::Ignored
    );
    assert_eq!(classify_event("ping", None), EventKind::Ignored);
}

#[test]
fn payloads_are_read_by_type() {
    let list = payload(vec![
        ("flag", Json::Flag(true)),
        ("when", text("2026-07-21T00:00:00Z")),
        (
            "sender",
            object(vec![("id", Json::Integer(9)), ("login", text("octocat"))]),
        ),
    ]);
    assert!(bool_value(&list, "flag"));
    assert!(!bool_value(&list, "when"));
    assert_eq!(date_value(&list, "when"), Some(1_784_592_000_000));
    assert_eq!(date_value(&list, "flag"), None);
    assert_eq!(nested_i64(&list, "sender", "id"), Some(9));
    assert_eq!(nested_string(&list, "sender", "login"), Some("octocat"));
    assert!(nested_object(&list, "when").is_none());
}

#[test]
fn deleted_installations_are_suspended() {
    let installation = object(vec![
        ("id", Json::Integer(5)),
        (
            "account",
            object(vec![("id", Json::Integer(6)), ("login", text("octo-org"))]),
        ),
        ("permissions", object(vec![("actions", text("write"))])),
        ("events", Json::List(vec![text("workflow_job")])),
    ]);
    let event = payload(vec![("installation", installation)]);
    assert!(matches!(
        process_installation(Some("deleted"), &event),
        InstallationChange::Suspend(5)
    ));
    match process_installation(Some("created"), &event) {
        InstallationChange::Keep(record) => {
            assert_eq!(record.id, 5);
            assert_eq!(record.account_id, 6);
            assert_eq!(record.account_login, "octo-org");
            assert_eq!(record.account_type, "User");
            assert_eq!(record.repository_selection, "selected");
            assert_eq!(record.suspended_at, None);
            match record.permissions {
                Some(Json::Object(list)) => assert_eq!(string(list, "actions"), Some("write")),
                _ => panic!("the permissions are kept"),
            }
            assert!(matches!(record.events, Some(Json::List(list)) if list.len() == 1));
        }
        _ => panic!("the installation is kept"),
    }
    assert!(matches!(
        process_installation(Some("created"), &[]),
        InstallationChange::Ignore
    ));
}

#[test]
fn repositories_come_and_go() {
    let event = payload(vec![
        ("installation", object(vec![("id", Json::Integer(5))])),
        (
            "repositories_added",
            Json::List(vec![
                object(vec![
                    ("id", Json::Integer(10)),
                    ("full_name", text("octo-org/gridops")),
                    ("private", Json::Flag(true)),
                ]),
                object(vec![("id", Json::Integer(11))]),
                text("nothing"),
            ]),
        ),
        (
            "repositories_removed",
            Json::List(vec![object(vec![("id", Json::Integer(12))]), Json::Null]),
        ),
    ]);
    let changes = process_installation_repositories(&event).expect("an installation");
    assert_eq!(changes.installation_id, 5);
    assert_eq!(changes.added.len(), 1);
    assert_eq!(changes.added[0].owner, "octo-org");
    assert_eq!(changes.added[0].name, "gridops");
    assert_eq!(changes.added[0].default_branch, "master");
    assert_eq!(
        changes.added[0].html_url,
        "https://github.com/octo-org/gridops"
    );
    assert!(changes.added[0].private);
    assert_eq!(changes.removed, vec![12]);
    assert!(process_installation_repositories(&[]).is_none());
}

#[test]
fn runs_are_recorded() {
    let event = payload(vec![
        ("repository", object(vec![("id", Json::Integer(10))])),
        (
            "workflow_run",
            object(vec![
                ("id", Json::Integer(20)),
                ("display_title", text("CI")),
                ("status", text("completed")),
                ("conclusion", text("success")),
                ("updated_at", text("1970-01-01T00:00:01Z")),
            ]),
        ),
    ]);
    let run = process_workflow_run(&event, 5_000).expect("a run");
    assert_eq!(run.id, 20);
    assert_eq!(run.repository_id, 10);
    assert_eq!(run.workflow_name, "CI");
    assert_eq!(run.run_attempt, 1);
    assert_eq!(run.completed_at, Some(1_000));
    assert_eq!(run.github_created_at, 5_000);
    assert_eq!(run.github_updated_at, 1_000);
    assert!(process_workflow_run(&[], 0).is_none());
    assert!(require_repository(true, 10).is_ok());
    assert!(matches!(
        require_repository(false, 10),
        Err(ApiError::Conflict(message)) if message == "Repository 10 is not synced yet."
    ));
}

#[test]
fn workflow_jobs_track_runners_and_drive_autoscaling() {
    let in_progress = payload(vec![
        ("repository", object(vec![("id", Json::Integer(10))])),
        (
            "workflow_job",
            object(vec![
                ("id", Json::Integer(30)),
                ("run_id", Json::Integer(20)),
                ("name", text("build")),
                ("status", text("in_progress")),
                ("runner_id", Json::Integer(40)),
                ("runner_name", text("pool-a-12345678")),
                ("runner_group_id", Json::Integer(1)),
                ("runner_group_name", text("Default")),
                ("labels", labels(&["self-hosted", "pool-a"])),
                (
                    "html_url",
                    text("https://github.com/iamngoni/gridops/actions/runs/20/job/30"),
                ),
                ("started_at", text("2026-07-21T00:00:00Z")),
            ]),
        ),
    ]);
    let job = process_workflow_job(Some("in_progress"), &in_progress).expect("a job");
    assert_eq!(job.id, 30);
    assert_eq!(job.runner_id, Some(40));
    assert_eq!(job.runner_name.as_deref(), Some("pool-a-12345678"));
    assert_eq!(runner_effect(&job.status), RunnerEffect::Occupy);
    assert_eq!(runner_effect("completed"), RunnerEffect::Free);
    assert_eq!(runner_effect("queued"), RunnerEffect::Nothing);

    let pool = ScaleCandidate {
        id: "pool-1".into(),
        labels: vec!["pool-a".into()],
        providers: vec!["docker".into()],
        desired_count: 1,
        max_count: 10,
        queue_scale_factor: 2,
        busy_count: 0,
    };
    let requested = ["self-hosted".to_string(), "pool-a".to_string()];
    let unmatched = ["self-hosted".to_string(), "unmatched".to_string()];
    let pools = [pool];
    assert_eq!(pool_for_queued_job("x86_64", &pools, &requested), Some(0));
    assert_eq!(pool_for_queued_job("x86_64", &pools, &unmatched), None);
    assert_eq!(queued_job_target(&pools[0], 1), Some(2));
    let scaled = ScaleCandidate {
        id: "pool-1".into(),
        labels: vec!["pool-a".into()],
        providers: vec!["docker".into()],
        desired_count: 2,
        max_count: 10,
        queue_scale_factor: 2,
        busy_count: 0,
    };
    assert_eq!(queued_job_target(&scaled, 1), None);
    assert_eq!(
        queued_job_message(1, 2),
        "Queued job raised desired capacity from 1 to 2"
    );

    let out_of_order = payload(vec![
        ("repository", object(vec![("id", Json::Integer(10))])),
        ("sender", object(vec![("login", text("iamngoni"))])),
        (
            "workflow_job",
            object(vec![
                ("id", Json::Integer(32)),
                ("run_id", Json::Integer(21)),
                ("run_attempt", Json::Integer(1)),
                ("workflow_name", text("Release")),
                ("name", text("publish")),
                ("status", text("queued")),
                ("head_branch", text("master")),
                ("head_sha", text("def456")),
                ("labels", labels(&["self-hosted", "unmatched"])),
                (
                    "html_url",
                    text("https://github.com/iamngoni/gridops/actions/runs/21/job/32"),
                ),
                ("created_at", text("2026-07-21T00:02:00Z")),
            ]),
        ),
    ]);
    assert_eq!(placeholder_repository(&out_of_order, 21).ok(), Some(10));
    let details = nested_object(&out_of_order, "workflow_job").expect("a job");
    let placeholder = placeholder_run(&out_of_order, details, 21, 10, 0);
    assert_eq!(placeholder.workflow_name, "Release");
    assert_eq!(placeholder.head_branch.as_deref(), Some("master"));
    assert_eq!(placeholder.head_sha, "def456");
    assert_eq!(
        placeholder.html_url,
        "https://github.com/iamngoni/gridops/actions/runs/21"
    );
    assert_eq!(run_url_of_job("https://example.com"), "https://example.com");
    assert!(placeholder_repository(&[], 21).is_err());
}

#[test]
fn deliveries_are_answered_by_what_became_of_them() {
    let answer = |step: DeliveryStep, failed: bool| delivery_answer(step, failed).ok();
    let plain = DeliveryAnswer {
        duplicate: false,
        failed: false,
    };
    assert_eq!(answer(DeliveryStep::Process, false), Some(plain));
    assert_eq!(
        answer(DeliveryStep::Process, true),
        Some(DeliveryAnswer {
            failed: true,
            ..plain
        })
    );
    assert_eq!(
        answer(delivery_step(false, true), true),
        Some(DeliveryAnswer {
            duplicate: true,
            ..plain
        })
    );
    assert!(matches!(
        delivery_answer(DeliveryStep::Reject, false),
        Err(ApiError::Unauthorized)
    ));
}

#[test]
fn labels_are_kept_as_they_came() {
    let job = object(vec![(
        "labels",
        Json::List(vec![text("linux"), Json::Integer(7)]),
    )]);
    let event = payload(vec![("workflow_job", job)]);
    assert!(matches!(job_labels(&event), Some(Json::List(list)) if list.len() == 2));
    assert!(job_labels(&payload(vec![])).is_none());
}
