//! Decisions about a new runner that every part of the system shares, and what
//! a failed start owes.
use vstd::prelude::*;

use crate::text::same;

verus! {

/// How a runner is provided: where it runs, for which platform, and from which
/// image.
#[derive(Debug, Clone, PartialEq, Eq)]
pub struct ProvisioningPlan {
    pub provider: String,
    pub platform: &'static str,
    pub mode: String,
    pub ephemeral: bool,
    pub runtime: String,
    pub image: String,
}

/// The model of a plan.
pub struct PlanView {
    pub provider: Seq<char>,
    pub platform: Seq<char>,
    pub mode: Seq<char>,
    pub ephemeral: bool,
    pub runtime: Seq<char>,
    pub image: Seq<char>,
}

impl View for ProvisioningPlan {
    type V = PlanView;

    open spec fn view(&self) -> PlanView {
        PlanView {
            provider: self.provider@,
            platform: self.platform@,
            mode: self.mode@,
            ephemeral: self.ephemeral,
            runtime: self.runtime@,
            image: self.image@,
        }
    }
}

/// The plan for a provider. A runner for Bitbucket is persistent and runs in a
/// virtual machine; one for GitHub follows its pool. A native macOS runner has
/// no image.
pub open spec fn plan(
    provider: Seq<char>,
    bitbucket: bool,
    pool_mode: Seq<char>,
    pool_ephemeral: bool,
    macos_runtime: Seq<char>,
    docker_image: Seq<char>,
    tart_image: Seq<char>,
) -> PlanView {
    let runtime = if provider == "tart"@ && !bitbucket {
        macos_runtime
    } else {
        "vm"@
    };
    PlanView {
        provider,
        platform: if bitbucket {
            "bitbucket"@
        } else {
            "github"@
        },
        mode: if bitbucket {
            "persistent"@
        } else {
            pool_mode
        },
        ephemeral: !bitbucket && pool_ephemeral,
        runtime,
        image: if provider != "tart"@ {
            docker_image
        } else if runtime == "native"@ {
            ""@
        } else {
            tart_image
        },
    }
}

impl ProvisioningPlan {
    /// The plan for the provider that was selected.
    pub fn for_selected_provider(
        provider: &str,
        bitbucket_connection_selected: bool,
        pool_mode: &str,
        pool_ephemeral: bool,
        macos_runtime: &str,
        docker_image: &str,
        tart_image: &str,
    ) -> (r: Self)
        ensures
            r@ == plan(
                provider@,
                bitbucket_connection_selected,
                pool_mode@,
                pool_ephemeral,
                macos_runtime@,
                docker_image@,
                tart_image@,
            ),
    {
        let tart: bool = same(provider, "tart");
        let platform: &'static str = if bitbucket_connection_selected {
            "bitbucket"
        } else {
            "github"
        };
        let mode: String = if bitbucket_connection_selected {
            "persistent".to_owned()
        } else {
            pool_mode.to_owned()
        };
        let runtime: String = if tart && !bitbucket_connection_selected {
            macos_runtime.to_owned()
        } else {
            "vm".to_owned()
        };
        let image: String = if tart {
            if same(runtime.as_str(), "native") {
                "".to_owned()
            } else {
                tart_image.to_owned()
            }
        } else {
            docker_image.to_owned()
        };
        ProvisioningPlan {
            provider: provider.to_owned(),
            platform,
            mode,
            ephemeral: !bitbucket_connection_selected && pool_ephemeral,
            runtime,
            image,
        }
    }
}

/// A runner for Bitbucket is persistent and runs in a virtual machine, whatever
/// its pool says.
pub proof fn bitbucket_runners_are_persistent(
    provider: Seq<char>,
    pool_mode: Seq<char>,
    pool_ephemeral: bool,
    macos_runtime: Seq<char>,
    docker_image: Seq<char>,
    tart_image: Seq<char>,
)
    ensures
        ({
            let made = plan(
                provider,
                true,
                pool_mode,
                pool_ephemeral,
                macos_runtime,
                docker_image,
                tart_image,
            );
            &&& made.platform == "bitbucket"@
            &&& made.mode == "persistent"@
            &&& !made.ephemeral
            &&& made.runtime == "vm"@
            &&& made.image == if provider == "tart"@ {
                tart_image
            } else {
                docker_image
            }
        }),
{
    reveal_strlit("vm");
    reveal_strlit("native");
    assert("vm"@.len() != "native"@.len());
}

/// What is to be undone after a failed start.
#[derive(Debug, Clone, Copy, PartialEq, Eq, Structural)]
pub struct FailureCleanup {
    pub release_capacity: bool,
    pub remove_provider_runner: bool,
    pub remove_manager_runner: bool,
}

/// What a failed start owes: everything that exists outside the database is
/// undone, and nothing else.
pub fn failure_cleanup(
    capacity_reserved: bool,
    provider_runner_registered: bool,
    manager_runner_created: bool,
) -> (r: FailureCleanup)
    ensures
        r.release_capacity == capacity_reserved,
        r.remove_provider_runner == provider_runner_registered,
        r.remove_manager_runner == manager_runner_created,
{
    FailureCleanup {
        release_capacity: capacity_reserved,
        remove_provider_runner: provider_runner_registered,
        remove_manager_runner: manager_runner_created,
    }
}

/// A runner for GitHub follows its pool: in its mode, in whether it is for one job, and in
/// its image, which is that of Docker or, in a machine, that of Tart; only a native one on
/// macOS has none.
pub proof fn github_runners_follow_their_pool(
    provider: Seq<char>,
    pool_mode: Seq<char>,
    pool_ephemeral: bool,
    macos_runtime: Seq<char>,
    docker_image: Seq<char>,
    tart_image: Seq<char>,
)
    ensures
        ({
            let made = plan(
                provider,
                false,
                pool_mode,
                pool_ephemeral,
                macos_runtime,
                docker_image,
                tart_image,
            );
            &&& made.provider == provider
            &&& made.platform == "github"@
            &&& made.mode == pool_mode
            &&& made.ephemeral == pool_ephemeral
            &&& provider != "tart"@ ==> made.image == docker_image && made.runtime == "vm"@
            &&& provider == "tart"@ ==> made.runtime == macos_runtime
            &&& provider == "tart"@ && macos_runtime != "native"@ ==> made.image == tart_image
            &&& provider == "tart"@ && macos_runtime == "native"@ ==> made.image.len() == 0
        }),
{
    reveal_strlit("");
}

}
