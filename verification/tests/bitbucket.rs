//! Runners of Bitbucket Pipelines.
use gridops::bitbucket::{
    creation_path, removal_path, BitbucketRunner, BitbucketRunnerOAuthClient,
    BitbucketRunnerTarget,
};

#[test]
fn runner_targets_build_scoped_api_paths() {
    assert_eq!(
        BitbucketRunnerTarget::Workspace {
            workspace: "acme".into()
        }
        .runner_path(),
        "workspaces/acme/pipelines-config/runners"
    );
    assert_eq!(
        BitbucketRunnerTarget::Repository {
            workspace: "acme".into(),
            repository: "ios-app".into()
        }
        .runner_path(),
        "repositories/acme/ios-app/pipelines-config/runners"
    );
}

#[test]
fn runner_target_rejects_path_injection() {
    assert!(BitbucketRunnerTarget::Workspace {
        workspace: "acme/../other".into()
    }
    .validate()
    .is_err());
}

#[test]
fn bitbucket_runner_secret_is_deserialized_but_not_required_after_creation() {
    let answer: serde_json::Value = serde_json::from_str(
        r#"{
            "uuid": "{da18d7c2-1d42-4c9a-bac8-4f5227d8ec17}",
            "name": "gridops-macos-01",
            "oauth_client": { "id": "client", "secret": "only-once" }
        }"#,
    )
    .expect("JSON");
    let text = |value: &serde_json::Value| value.as_str().map(|text| text.to_string());
    let created = BitbucketRunner {
        uuid: text(&answer["uuid"]).unwrap_or_default(),
        name: text(&answer["name"]).unwrap_or_default(),
        labels: vec![],
        state: None,
        oauth_client: BitbucketRunnerOAuthClient {
            id: text(&answer["oauth_client"]["id"]).unwrap_or_default(),
            secret: text(&answer["oauth_client"]["secret"]),
        },
    };
    assert_eq!(created.oauth_client.secret.as_deref(), Some("only-once"));

    let listed = BitbucketRunner {
        oauth_client: BitbucketRunnerOAuthClient {
            id: created.oauth_client.id,
            secret: None,
        },
        ..created
    };
    let target = BitbucketRunnerTarget::Workspace {
        workspace: "acme".into(),
    };
    assert_eq!(
        removal_path(&target, &listed.uuid).as_deref(),
        Ok("workspaces/acme/pipelines-config/runners/{da18d7c2-1d42-4c9a-bac8-4f5227d8ec17}")
    );
    assert!(creation_path(&target, &listed.name, &listed.labels).is_ok());
}
