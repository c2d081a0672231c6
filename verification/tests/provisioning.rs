//! Plans for new runners.
use gridops::provisioning::{failure_cleanup, FailureCleanup, ProvisioningPlan};

fn plan(provider: &str, bitbucket: bool) -> ProvisioningPlan {
    ProvisioningPlan::for_selected_provider(
        provider,
        bitbucket,
        "ephemeral",
        true,
        "native",
        "docker:latest",
        "tart:latest",
    )
}

#[test]
fn api_and_reconciler_inputs_produce_the_same_github_plan() {
    assert_eq!(
        plan("tart", false),
        ProvisioningPlan::for_selected_provider(
            "tart",
            false,
            "ephemeral",
            true,
            "native",
            "docker:latest",
            "tart:latest",
        )
    );
    assert_eq!(plan("tart", false).platform, "github");
    assert_eq!(plan("tart", false).runtime, "native");
    assert!(plan("tart", false).image.is_empty());
}

#[test]
fn bitbucket_is_always_persistent_and_vm_hosted() {
    let selected = plan("tart", true);
    assert_eq!(selected.platform, "bitbucket");
    assert_eq!(selected.mode, "persistent");
    assert!(!selected.ephemeral);
    assert_eq!(selected.runtime, "vm");
    assert_eq!(selected.image, "tart:latest");
}

#[test]
fn failure_contract_only_cleans_up_resources_that_exist() {
    assert_eq!(
        failure_cleanup(true, true, false),
        FailureCleanup {
            release_capacity: true,
            remove_provider_runner: true,
            remove_manager_runner: false,
        }
    );
    assert_eq!(
        failure_cleanup(true, false, true),
        FailureCleanup {
            release_capacity: true,
            remove_provider_runner: false,
            remove_manager_runner: true,
        }
    );
}
