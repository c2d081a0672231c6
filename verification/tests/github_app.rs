//! The manifest of the GitHub App.
use gridops::error::ApiError;
use gridops::github_app::{
    accept_conversion_status, accept_setup, build_manifest, conversion_secrets, manifest_action,
    manifest_code, manifest_name, manifest_state_expiry, settings_error_redirect, valid_slug,
    webhooks_active,
    Manifest, ManifestCallbackQuery, ManifestConversion, ManifestRequest, ManifestState,
};

fn permission<'a>(manifest: &'a Manifest, name: &str) -> Option<&'a str> {
    manifest
        .default_permissions
        .iter()
        .find(|permission| permission.name == name)
        .map(|permission| permission.access)
}

#[test]
fn validates_github_organization_logins() {
    assert!(valid_slug("iamngoni-labs"));
    assert!(!valid_slug("-iamngoni"));
    assert!(!valid_slug("iam_ngoni"));
    assert!(!valid_slug(""));
}

#[test]
fn manifest_contains_runner_permissions_and_safe_local_webhook_defaults() {
    let (manifest, webhook_active) =
        build_manifest("GridOps Test", "http://localhost:3100", None).expect("an address");
    assert!(!webhook_active);
    assert_eq!(
        permission(&manifest, "organization_self_hosted_runners"),
        Some("write")
    );
    assert_eq!(permission(&manifest, "actions"), Some("write"));
    assert_eq!(permission(&manifest, "members"), Some("read"));
    assert_eq!(
        manifest.redirect_url,
        "http://localhost:3100/auth/github-app/manifest/callback"
    );
    assert_eq!(manifest.hook_active, false);
}

#[test]
fn manifest_enables_webhooks_for_public_https_origins() {
    let (manifest, webhook_active) =
        build_manifest("GridOps Test", "https://gridops.example.com", None).expect("an address");
    assert!(webhook_active);
    assert_eq!(manifest.hook_active, true);
    assert_eq!(
        manifest.hook_url,
        "https://gridops.example.com/api/webhooks/github"
    );
}

fn request(owner_type: Option<&str>, organization: Option<&str>) -> ManifestRequest {
    ManifestRequest {
        owner_type: owner_type.map(|text| text.to_string()),
        organization: organization.map(|text| text.to_string()),
        name: None,
    }
}

fn conversion() -> ManifestConversion {
    ManifestConversion {
        id: 42,
        slug: "gridops".into(),
        client_id: "client".into(),
        client_secret: "client-secret".into(),
        pem: "pem".into(),
        webhook_secret: "webhook-secret".into(),
    }
}

#[test]
fn apps_belong_to_users_or_organizations() {
    assert_eq!(
        manifest_action(&request(None, None)).ok().as_deref(),
        Some("https://github.com/settings/apps/new")
    );
    assert_eq!(
        manifest_action(&request(Some("organization"), Some("octo-org")))
            .ok()
            .as_deref(),
        Some("https://github.com/organizations/octo-org/settings/apps/new")
    );
    assert!(matches!(
        manifest_action(&request(Some("organization"), Some("-bad"))),
        Err(ApiError::BadRequest(_))
    ));
    assert!(matches!(
        manifest_action(&request(Some("team"), None)),
        Err(ApiError::BadRequest(_))
    ));
}

#[test]
fn app_names_fall_back() {
    assert_eq!(manifest_name(&Some("  Mine ".into())), "Mine");
    assert_eq!(manifest_name(&Some("   ".into())), "GridOps Self-Hosted");
    assert_eq!(manifest_name(&None), "GridOps Self-Hosted");
}

#[test]
fn webhook_delivery_can_be_set() {
    let active = |base: &str, setting: Option<bool>| {
        build_manifest("GridOps", base, setting).map(|(_, active)| active)
    };
    assert_eq!(active("https://private.example.com", Some(false)), Some(false));
    assert_eq!(active("http://localhost:3000", Some(true)), Some(true));
    assert_eq!(active("https://localhost:3000", None), Some(false));
    assert_eq!(active("https://127.0.0.1", None), Some(false));
    assert_eq!(active("https://[::1]:3000", None), Some(false));
    assert_eq!(active("no address", None), None);
}

#[test]
fn manifests_name_the_events_that_are_processed() {
    let (manifest, _) =
        build_manifest("GridOps", "https://gridops.example.com", None).expect("an address");
    assert_eq!(manifest.default_events, vec!["workflow_job", "workflow_run"]);
    assert_eq!(
        manifest.callback_urls,
        vec!["https://gridops.example.com/auth/github/callback".to_string()]
    );
    assert!(!manifest.public);
}

#[test]
fn setups_are_completed_by_administrators_in_time() {
    let record = |expires_at: i64, role: &str| {
        Some(ManifestState {
            id: "1".into(),
            user_id: "user-1".into(),
            expires_at,
            login: "octocat".into(),
            role: role.into(),
        })
    };
    assert_eq!(manifest_state_expiry(0), 3_600_000);
    assert!(accept_setup(record(11, "admin"), 10).is_ok());
    assert_eq!(
        accept_setup(record(10, "admin"), 10).err(),
        Some("The GitHub App setup request expired.")
    );
    assert_eq!(
        accept_setup(record(11, "member"), 10).err(),
        Some("Only a GridOps administrator can configure the GitHub App.")
    );
    assert_eq!(
        accept_setup(None, 10).err(),
        Some("The GitHub App setup request is invalid.")
    );
    assert_eq!(
        manifest_code(ManifestCallbackQuery {
            code: Some("code".into()),
            state: None,
        })
        .err(),
        Some("GitHub did not return a valid App manifest code.")
    );
    assert!(accept_conversion_status(201).is_ok());
    assert_eq!(
        accept_conversion_status(404).err(),
        Some("GitHub could not complete the App setup.")
    );
}

#[test]
fn every_secret_of_an_app_is_kept() {
    let secrets = conversion_secrets(&conversion()).ok().expect("complete");
    let pairs: Vec<(&str, &str)> = secrets
        .iter()
        .map(|secret| (secret.key, secret.value.as_str()))
        .collect();
    assert_eq!(
        pairs,
        vec![
            ("github.client_id", "client"),
            ("github.client_secret", "client-secret"),
            ("github.app_id", "42"),
            ("github.app_private_key", "pem"),
            ("github.app_slug", "gridops"),
            ("github.webhook_secret", "webhook-secret"),
        ]
    );
    let mut incomplete = conversion();
    incomplete.pem = String::new();
    assert!(matches!(
        conversion_secrets(&incomplete),
        Err(ApiError::Internal(_))
    ));
}

#[test]
fn failed_setups_return_to_the_settings() {
    assert_eq!(
        settings_error_redirect("https://gridops.example.com/x", "Not now").as_deref(),
        Some("https://gridops.example.com/settings?appError=Not+now")
    );
}

#[test]
fn webhooks_need_an_address_that_github_reaches() {
    assert!(webhooks_active("https://grid.example", None));
    assert!(!webhooks_active("http://grid.example", None));
    assert!(!webhooks_active("https://[::1]:3000", None));
    assert!(!webhooks_active("https://grid.example", Some(false)));
    assert!(webhooks_active("http://localhost:3000", Some(true)));
    assert!(!webhooks_active("nowhere", None));
}
