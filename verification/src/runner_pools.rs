//! Runners of a pool as those who may manage them see them: bringing a pool to
//! the size that is wanted, removing runners, and acting on single ones.
use vstd::prelude::*;

use crate::assignment::runner_counts;
use crate::config::str_option;
use crate::error::{ApiError, ErrorView};
use crate::logs::repository_full_name;
use crate::payload::{array, list_member, string, text_member, Json, Member};
use crate::reconciler::{active, active_status, excess, observed, observed_status, positions};
use crate::search::{first_chars, take_chars};
use crate::text::{concat, concat4, same, text_option};

verus! {

/// A runner as those who may see it see it.
#[derive(Debug)]
pub struct RunnerAccess {
    pub runner_id: String,
    pub runner_name: String,
    pub container_id: Option<String>,
    pub github_runner_id: Option<i64>,
    pub ci_platform: String,
    pub bitbucket_connection_id: Option<String>,
    pub bitbucket_runner_uuid: Option<String>,
    pub provider: String,
    pub runner_status: String,
    pub busy: bool,
    pub ephemeral: bool,
    pub configuration_version: i64,
    pub last_job_id: Option<i64>,
    pub pool_id: String,
    pub pool_name: String,
    pub installation_id: i64,
    pub account_login: String,
    pub target_repository_id: Option<i64>,
    pub repository_owner: Option<String>,
    pub repository_name: Option<String>,
}

/// A container and its state, as the manager tells it.
#[derive(Debug)]
pub struct ContainerState {
    pub id: String,
    pub state: String,
}

// ---------------------------------------------------------------------------
// Selections

/// The positions of the first runners that are selected, at most `limit` of
/// them, among the first `n`.
pub open spec fn picked(selected: spec_fn(int) -> bool, limit: int, n: int) -> Seq<int>
    decreases n,
{
    if n <= 0 {
        Seq::empty()
    } else {
        let before = picked(selected, limit, n - 1);
        if before.len() < limit && selected(n - 1) {
            before.push(n - 1)
        } else {
            before
        }
    }
}

/// What is picked is selected, in order, each once, and nothing that is selected
/// is left out before the limit is reached.
pub proof fn what_is_picked(selected: spec_fn(int) -> bool, limit: int, n: int)
    requires
        0 <= n,
        0 <= limit,
    ensures
        picked(selected, limit, n).len() <= limit,
        forall|k: int|
            0 <= k < picked(selected, limit, n).len() ==> 0 <= #[trigger] picked(
                selected,
                limit,
                n,
            )[k] < n && selected(picked(selected, limit, n)[k]),
        forall|j: int, k: int|
            0 <= j < k < picked(selected, limit, n).len() ==> picked(selected, limit, n)[j]
                < picked(selected, limit, n)[k],
        picked(selected, limit, n).len() < limit ==> forall|i: int|
            0 <= i < n && #[trigger] selected(i) ==> picked(selected, limit, n).contains(i),
    decreases n,
{
    if n > 0 {
        what_is_picked(selected, limit, n - 1);
        let before = picked(selected, limit, n - 1);
        let now = picked(selected, limit, n);
        if now.len() < limit {
            assert forall|i: int| 0 <= i < n && #[trigger] selected(i) implies now.contains(i) by {
                if i < n - 1 {
                    assert(before.contains(i));
                    let k = choose|k: int| 0 <= k < before.len() && before[k] == i;
                    assert(now[k] == i);
                } else {
                    assert(now[now.len() - 1] == i);
                }
            }
        }
    }
}

fn pick(flags: &[bool], limit: usize) -> (r: Vec<usize>)
    ensures
        positions(r@) == picked(|i: int| flags@[i], limit as int, flags@.len() as int),
        forall|k: int| 0 <= k < r@.len() ==> #[trigger] r@[k] < flags@.len(),
{
    let ghost selected = |i: int| flags@[i];
    let mut out: Vec<usize> = Vec::new();
    let mut i: usize = 0;
    proof {
        assert(positions(out@) =~= Seq::empty());
    }
    while i < flags.len()
        invariant
            i <= flags@.len(),
            selected == (|i: int| flags@[i]),
            positions(out@) == picked(selected, limit as int, i as int),
            forall|k: int| 0 <= k < out@.len() ==> #[trigger] out@[k] < i,
        decreases flags@.len() - i,
    {
        proof {
            assert(positions(out@).len() == out@.len());
        }
        if out.len() < limit && flags[i] {
            let ghost before = positions(out@);
            out.push(i);
            proof {
                assert(positions(out@) =~= before.push(i as int));
            }
        }
        i += 1;
    }
    out
}

proof fn lemma_picked_same(
    a: spec_fn(int) -> bool,
    b: spec_fn(int) -> bool,
    limit: int,
    n: int,
)
    requires
        forall|i: int| 0 <= i < n ==> #[trigger] a(i) == b(i),
    ensures
        picked(a, limit, n) == picked(b, limit, n),
    decreases n,
{
    if n > 0 {
        lemma_picked_same(a, b, limit, n - 1);
        assert(a(n - 1) == b(n - 1));
    }
}

// ---------------------------------------------------------------------------
// Observation

/// The state of a container by its name, if the manager tells it; the last one
/// counts.
pub open spec fn state_of(states: Seq<ContainerState>, id: Seq<char>) -> Option<Seq<char>>
    decreases states.len(),
{
    if states.len() == 0 {
        None
    } else if states.last().id@ == id {
        Some(states.last().state@)
    } else {
        state_of(states.drop_last(), id)
    }
}

/// A container that an item of the manager's list tells: its name and its state.
pub open spec fn told_container(item: Json) -> Option<(Seq<char>, Seq<char>)> {
    match item {
        Json::Object(object) => match (
            text_member(object@, "id"@),
            text_member(object@, "state"@),
        ) {
            (Some(id), Some(state)) => Some((id, state)),
            _ => None,
        },
        _ => None,
    }
}

/// The containers that the items of a list tell, in their order.
pub open spec fn told_containers(items: Seq<Json>) -> Seq<(Seq<char>, Seq<char>)>
    decreases items.len(),
{
    if items.len() == 0 {
        Seq::empty()
    } else {
        let before = told_containers(items.drop_last());
        match told_container(items.last()) {
            Some(container) => before.push(container),
            None => before,
        }
    }
}

/// The models of a list of containers.
pub open spec fn container_views(list: Seq<ContainerState>) -> Seq<(Seq<char>, Seq<char>)> {
    list.map_values(|container: ContainerState| (container.id@, container.state@))
}

/// The containers that the manager tells in the members of its answer.
pub fn container_states(answer: &[Member]) -> (r: Vec<ContainerState>)
    ensures
        container_views(r@) == told_containers(list_member(answer@, "runners"@)),
{
    let mut out: Vec<ContainerState> = Vec::new();
    proof {
        assert(container_views(out@) =~= Seq::empty());
    }
    let items: &[Json] = match array(answer, "runners") {
        Some(items) => items,
        None => {
            return out;
        },
    };
    let mut i: usize = 0;
    while i < items.len()
        invariant
            i <= items@.len(),
            container_views(out@) == told_containers(items@.take(i as int)),
        decreases items@.len() - i,
    {
        let ghost before = out@;
        proof {
            let next = items@.take(i + 1);
            assert(next.drop_last() =~= items@.take(i as int));
            assert(next.last() == items@[i as int]);
        }
        if let Json::Object(members) = &items[i] {
            if let (Some(id), Some(state)) = (
                string(members.as_slice(), "id"),
                string(members.as_slice(), "state"),
            ) {
                out.push(ContainerState { id: id.to_owned(), state: state.to_owned() });
                proof {
                    assert(container_views(out@) =~= container_views(before).push(
                        (id@, state@),
                    ));
                }
            }
        }
        i += 1;
    }
    proof {
        assert(items@.take(items@.len() as int) =~= items@);
    }
    out
}

fn find_state<'a>(states: &'a [ContainerState], id: &str) -> (r: Option<&'a str>)
    ensures
        str_option(r) == state_of(states@, id@),
{
    let mut i: usize = states.len();
    proof {
        assert(states@.take(i as int) =~= states@);
    }
    while i > 0
        invariant
            i <= states@.len(),
            state_of(states@, id@) == state_of(states@.take(i as int), id@),
        decreases i,
    {
        i -= 1;
        proof {
            assert(states@.take(i + 1).drop_last() =~= states@.take(i as int));
            assert(states@.take(i + 1).last() == states@[i as int]);
        }
        if same(states[i].id.as_str(), id) {
            return Some(states[i].state.as_str());
        }
    }
    None
}

/// The state that a runner is in by what the manager tells; nothing for a runner
/// without a container. One whose container is gone has failed.
pub fn observe_runner(runner: &RunnerAccess, states: &[ContainerState]) -> (r: Option<String>)
    ensures
        text_option(r) == match runner.container_id {
            Some(id) => Some(
                observed(state_of(states@, id@), runner.busy, runner.runner_status@),
            ),
            None => None,
        },
{
    match &runner.container_id {
        Some(id) => Some(
            observed_status(
                find_state(states, id.as_str()),
                runner.busy,
                runner.runner_status.as_str(),
            ),
        ),
        None => None,
    }
}

/// Whether a pool can be looked after without the manager: no runner of it has a
/// container.
pub fn works_without_manager(runners: &[RunnerAccess]) -> (r: bool)
    ensures
        r == forall|i: int|
            0 <= i < runners@.len() ==> (#[trigger] runners@[i]).container_id is None,
{
    let mut i: usize = 0;
    while i < runners.len()
        invariant
            i <= runners@.len(),
            forall|k: int| 0 <= k < i ==> (#[trigger] runners@[k]).container_id is None,
        decreases runners@.len() - i,
    {
        if runners[i].container_id.is_some() {
            return false;
        }
        i += 1;
    }
    true
}

// ---------------------------------------------------------------------------
// Bringing a pool to its size

/// The runner has failed.
pub open spec fn has_failed(runner: RunnerAccess) -> bool {
    runner.runner_status@ == "failed"@
}

/// The runner can be replaced because it was made with an older configuration: it
/// is idle, and not for Bitbucket.
pub open spec fn can_rotate(runner: RunnerAccess, version: i64) -> bool {
    runner.ci_platform@ != "bitbucket"@ && !runner.busy && runner.configuration_version < version
}

/// The runner counts for its pool, and has nothing to do.
pub open spec fn is_idle(runner: RunnerAccess) -> bool {
    !runner.busy && active(runner.runner_status@)
}

/// The runner can be removed because there are too many: it counts for its pool,
/// is idle, and is not for Bitbucket.
pub open spec fn can_trim(runner: RunnerAccess) -> bool {
    is_idle(runner) && runner.ci_platform@ != "bitbucket"@
}

/// The runners that have failed.
pub fn failed_pool_runners(runners: &[RunnerAccess]) -> (r: Vec<usize>)
    ensures
        positions(r@) == picked(
            |i: int| has_failed(runners@[i]),
            usize::MAX as int,
            runners@.len() as int,
        ),
        forall|k: int| 0 <= k < r@.len() ==> #[trigger] r@[k] < runners@.len(),
{
    let mut flags: Vec<bool> = Vec::new();
    let mut i: usize = 0;
    while i < runners.len()
        invariant
            i <= runners@.len(),
            flags@.len() == i,
            forall|k: int| 0 <= k < i ==> #[trigger] flags@[k] == has_failed(runners@[k]),
        decreases runners@.len() - i,
    {
        flags.push(same(runners[i].runner_status.as_str(), "failed"));
        i += 1;
    }
    proof {
        lemma_picked_same(
            |i: int| flags@[i],
            |i: int| has_failed(runners@[i]),
            usize::MAX as int,
            runners@.len() as int,
        );
    }
    pick(flags.as_slice(), usize::MAX)
}

/// The runner that is replaced in this pass because it was made with an older
/// configuration: the first one, if there is one.
pub fn pool_runner_to_rotate(runners: &[RunnerAccess], version: i64) -> (r: Option<usize>)
    ensures
        match r {
            Some(k) => k < runners@.len() && can_rotate(runners@[k as int], version) && forall|
                j: int,
            |
                0 <= j < k ==> !can_rotate(#[trigger] runners@[j], version),
            None => forall|j: int|
                0 <= j < runners@.len() ==> !can_rotate(#[trigger] runners@[j], version),
        },
{
    let mut i: usize = 0;
    while i < runners.len()
        invariant
            i <= runners@.len(),
            forall|j: int| 0 <= j < i ==> !can_rotate(#[trigger] runners@[j], version),
        decreases runners@.len() - i,
    {
        if !same(runners[i].ci_platform.as_str(), "bitbucket") && !runners[i].busy
            && runners[i].configuration_version < version {
            return Some(i);
        }
        i += 1;
    }
    None
}

/// The runners that are removed from a pool that is paused: those that count for
/// it and are idle.
pub fn paused_pool_runners(runners: &[RunnerAccess]) -> (r: Vec<usize>)
    ensures
        positions(r@) == picked(
            |i: int| is_idle(runners@[i]),
            usize::MAX as int,
            runners@.len() as int,
        ),
        forall|k: int| 0 <= k < r@.len() ==> #[trigger] r@[k] < runners@.len(),
{
    let mut flags: Vec<bool> = Vec::new();
    let mut i: usize = 0;
    while i < runners.len()
        invariant
            i <= runners@.len(),
            flags@.len() == i,
            forall|k: int| 0 <= k < i ==> #[trigger] flags@[k] == is_idle(runners@[k]),
        decreases runners@.len() - i,
    {
        flags.push(!runners[i].busy && active_status(runners[i].runner_status.as_str()));
        i += 1;
    }
    proof {
        lemma_picked_same(
            |i: int| flags@[i],
            |i: int| is_idle(runners@[i]),
            usize::MAX as int,
            runners@.len() as int,
        );
    }
    pick(flags.as_slice(), usize::MAX)
}

/// The runners that are removed when a pool is paused: those that are not busy.
pub fn runners_to_drain(runners: &[RunnerAccess]) -> (r: Vec<usize>)
    ensures
        positions(r@) == picked(
            |i: int| !runners@[i].busy,
            usize::MAX as int,
            runners@.len() as int,
        ),
        forall|k: int| 0 <= k < r@.len() ==> #[trigger] r@[k] < runners@.len(),
{
    let mut flags: Vec<bool> = Vec::new();
    let mut i: usize = 0;
    while i < runners.len()
        invariant
            i <= runners@.len(),
            flags@.len() == i,
            forall|k: int| 0 <= k < i ==> #[trigger] flags@[k] == !runners@[k].busy,
        decreases runners@.len() - i,
    {
        flags.push(!runners[i].busy);
        i += 1;
    }
    proof {
        lemma_picked_same(
            |i: int| flags@[i],
            |i: int| !runners@[i].busy,
            usize::MAX as int,
            runners@.len() as int,
        );
    }
    pick(flags.as_slice(), usize::MAX)
}

/// The number of runners of the first `n` that count for their pool.
pub open spec fn active_of(runners: Seq<RunnerAccess>, n: int) -> nat
    decreases n,
{
    if n <= 0 {
        0
    } else {
        active_of(runners, n - 1) + if active(runners[n - 1].runner_status@) {
            1nat
        } else {
            0nat
        }
    }
}

/// The number of runners of the first `n` with an older configuration.
pub open spec fn outdated_of(runners: Seq<RunnerAccess>, version: i64, n: int) -> nat
    decreases n,
{
    if n <= 0 {
        0
    } else {
        outdated_of(runners, version, n - 1) + if runners[n - 1].configuration_version < version {
            1nat
        } else {
            0nat
        }
    }
}

/// The number of runners that count for their pool.
pub fn active_runner_count(runners: &[RunnerAccess]) -> (r: usize)
    ensures
        r == active_of(runners@, runners@.len() as int),
        r <= runners@.len(),
{
    let mut count: usize = 0;
    let mut i: usize = 0;
    while i < runners.len()
        invariant
            i <= runners@.len(),
            count == active_of(runners@, i as int),
            count <= i,
        decreases runners@.len() - i,
    {
        if active_status(runners[i].runner_status.as_str()) {
            count += 1;
        }
        i += 1;
    }
    count
}

/// The number of runners with an older configuration.
pub fn outdated_runner_count(runners: &[RunnerAccess], version: i64) -> (r: usize)
    ensures
        r == outdated_of(runners@, version, runners@.len() as int),
        r <= runners@.len(),
{
    let mut count: usize = 0;
    let mut i: usize = 0;
    while i < runners.len()
        invariant
            i <= runners@.len(),
            count == outdated_of(runners@, version, i as int),
            count <= i,
        decreases runners@.len() - i,
    {
        if runners[i].configuration_version < version {
            count += 1;
        }
        i += 1;
    }
    count
}

/// The runners that are removed because there are too many: the first idle ones
/// that are not for Bitbucket, as many as there are too many.
pub fn runners_to_trim(runners: &[RunnerAccess], desired: i64) -> (r: Vec<usize>)
    requires
        0 <= desired <= usize::MAX,
    ensures
        positions(r@) == picked(
            |i: int| can_trim(runners@[i]),
            excess(active_of(runners@, runners@.len() as int), desired as int),
            runners@.len() as int,
        ),
        forall|k: int| 0 <= k < r@.len() ==> #[trigger] r@[k] < runners@.len(),
{
    let running: usize = active_runner_count(runners);
    let wanted: usize = desired as usize;
    let limit: usize = if running > wanted {
        running - wanted
    } else {
        0
    };
    let mut flags: Vec<bool> = Vec::new();
    let mut i: usize = 0;
    while i < runners.len()
        invariant
            i <= runners@.len(),
            flags@.len() == i,
            forall|k: int| 0 <= k < i ==> #[trigger] flags@[k] == can_trim(runners@[k]),
        decreases runners@.len() - i,
    {
        flags.push(
            !runners[i].busy && active_status(runners[i].runner_status.as_str()) && !same(
                runners[i].ci_platform.as_str(),
                "bitbucket",
            ),
        );
        i += 1;
    }
    proof {
        lemma_picked_same(
            |i: int| flags@[i],
            |i: int| can_trim(runners@[i]),
            limit as int,
            runners@.len() as int,
        );
    }
    pick(flags.as_slice(), limit)
}

/// What is done next when someone has a pool reconciled.
#[derive(Debug, Clone, Copy, PartialEq, Eq, Structural)]
pub enum RequestedStep {
    /// Record what is observed of each runner.
    Observe,
    /// Remove the runners that have failed.
    RemoveFailed,
    /// Remove a runner with an older configuration.
    Rotate,
    /// Remove the idle runners of a paused pool.
    Drain,
    /// Start the runners that are missing, or remove those that are too many.
    Resize,
    /// Record the state of the pool.
    Record,
    /// The pool is reconciled.
    Over,
}

/// The step after a step: a paused pool is drained, and another one is brought to
/// its size.
pub open spec fn requested_after(step: RequestedStep, paused: bool) -> RequestedStep {
    match step {
        RequestedStep::Observe => RequestedStep::RemoveFailed,
        RequestedStep::RemoveFailed => RequestedStep::Rotate,
        RequestedStep::Rotate => if paused {
            RequestedStep::Drain
        } else {
            RequestedStep::Resize
        },
        RequestedStep::Drain => RequestedStep::Record,
        RequestedStep::Resize => RequestedStep::Record,
        RequestedStep::Record => RequestedStep::Over,
        RequestedStep::Over => RequestedStep::Over,
    }
}

/// The step after a step.
pub fn next_requested_step(step: RequestedStep, paused: bool) -> (r: RequestedStep)
    ensures
        r == requested_after(step, paused),
{
    match step {
        RequestedStep::Observe => RequestedStep::RemoveFailed,
        RequestedStep::RemoveFailed => RequestedStep::Rotate,
        RequestedStep::Rotate => if paused {
            RequestedStep::Drain
        } else {
            RequestedStep::Resize
        },
        RequestedStep::Drain => RequestedStep::Record,
        RequestedStep::Resize => RequestedStep::Record,
        RequestedStep::Record => RequestedStep::Over,
        RequestedStep::Over => RequestedStep::Over,
    }
}

/// The step after `n` steps.
pub open spec fn requested_course(paused: bool, n: nat) -> RequestedStep
    decreases n,
{
    if n == 0 {
        RequestedStep::Observe
    } else {
        requested_after(requested_course(paused, (n - 1) as nat), paused)
    }
}

/// Reconciling a pool on request ends after five steps; it never brings a paused
/// pool to its size, and never drains another one.
pub proof fn requested_passes_end_and_respect_pauses(n: nat)
    ensures
        forall|paused: bool| n >= 5 ==> #[trigger] requested_course(paused, n)
            == RequestedStep::Over,
        requested_course(true, n) != RequestedStep::Resize,
        requested_course(false, n) != RequestedStep::Drain,
    decreases n,
{
    reveal_with_fuel(requested_course, 7);
    if n > 0 {
        requested_passes_end_and_respect_pauses((n - 1) as nat);
    }
}

/// The state of a pool by what it has after a pass.
pub open spec fn state_of_pool(paused: bool, active: nat, desired: int, outdated: nat) -> Seq<
    char,
> {
    if paused {
        if active == 0 {
            "paused"@
        } else {
            "draining"@
        }
    } else if outdated > 0 {
        "updating"@
    } else if active > desired {
        "draining"@
    } else {
        "active"@
    }
}

/// The state of a pool by what it has after a pass.
pub fn pool_state_now(paused: bool, active: usize, desired: i64, outdated: usize) -> (r:
    &'static str)
    requires
        0 <= desired <= usize::MAX,
    ensures
        r@ == state_of_pool(paused, active as nat, desired as int, outdated as nat),
{
    if paused {
        if active == 0 {
            "paused"
        } else {
            "draining"
        }
    } else if outdated > 0 {
        "updating"
    } else if active > desired as usize {
        "draining"
    } else {
        "active"
    }
}

/// No pass over a pool removes a runner that is busy, unless it has failed; nor
/// does one replace or trim a runner for Bitbucket.
pub proof fn busy_runners_are_kept(runner: RunnerAccess, version: i64)
    requires
        runner.busy,
    ensures
        !can_rotate(runner, version),
        !is_idle(runner),
        !can_trim(runner),
{
}

// ---------------------------------------------------------------------------
// Removing a runner

/// What follows the attempt to remove a runner where it is registered.
#[derive(Debug)]
pub enum RemoteCleanup {
    /// It is gone there.
    Complete,
    /// GitHub could not be reached: it is tried again later, for this reason.
    Deferred(String),
}

/// What follows the attempt to remove a runner where it is registered. Where a
/// runner cannot be removed at Bitbucket it is left as it is; at GitHub the
/// removal is tried again later.
pub fn after_remote_cleanup(ci_platform: &str, error: Option<&str>) -> (r: Result<
    RemoteCleanup,
    ApiError,
>)
    ensures
        match error {
            None => r is Ok && r->Ok_0 is Complete,
            Some(message) => if ci_platform@ == "bitbucket"@ {
                r is Err && r->Err_0@ == ErrorView::ServiceUnavailable(
                    "Bitbucket runner cleanup failed; the local runner was left intact: "@
                        + first_chars(message@, 2_000),
                )
            } else {
                r is Ok && r->Ok_0 is Deferred && r->Ok_0->Deferred_0@ == first_chars(
                    message@,
                    2_000,
                )
            },
        },
{
    match error {
        None => Ok(RemoteCleanup::Complete),
        Some(message) => {
            let reason: String = take_chars(message, 2_000);
            if same(ci_platform, "bitbucket") {
                Err(
                    ApiError::ServiceUnavailable(
                        concat(
                            "Bitbucket runner cleanup failed; the local runner was left intact: ",
                            reason.as_str(),
                        ),
                    ),
                )
            } else {
                Ok(RemoteCleanup::Deferred(reason))
            }
        },
    }
}

/// What is done next to remove a runner.
#[derive(Debug, Clone, Copy, PartialEq, Eq, Structural)]
pub enum RemovalStep {
    /// Keep what its container logged.
    Archive,
    /// Remove it where it is registered.
    Unregister,
    /// Record that GitHub is to be tried again.
    Defer,
    /// Forget an earlier failure at GitHub.
    Forget,
    /// Remove its container.
    RemoveContainer,
    /// Mark it as deleted.
    MarkDeleted,
    /// It is removed.
    Removed,
    /// It is left as it is.
    Kept,
}

/// The first step to remove a runner: without a container there is no log to
/// keep.
pub fn first_removal_step(has_container: bool) -> (r: RemovalStep)
    ensures
        r == if has_container {
            RemovalStep::Archive
        } else {
            RemovalStep::Unregister
        },
{
    if has_container {
        RemovalStep::Archive
    } else {
        RemovalStep::Unregister
    }
}

/// The step after a step. That a log cannot be kept does not matter. A runner
/// that Bitbucket does not let go is kept; for one that GitHub does not let go
/// the removal is tried again later.
pub open spec fn removal_after(
    step: RemovalStep,
    succeeded: bool,
    bitbucket: bool,
    has_container: bool,
) -> RemovalStep {
    let local = if has_container {
        RemovalStep::RemoveContainer
    } else {
        RemovalStep::MarkDeleted
    };
    match step {
        RemovalStep::Archive => RemovalStep::Unregister,
        RemovalStep::Unregister => if succeeded {
            RemovalStep::Forget
        } else if bitbucket {
            RemovalStep::Kept
        } else {
            RemovalStep::Defer
        },
        RemovalStep::Defer => if succeeded {
            local
        } else {
            RemovalStep::Kept
        },
        RemovalStep::Forget => if succeeded {
            local
        } else {
            RemovalStep::Kept
        },
        RemovalStep::RemoveContainer => if succeeded {
            RemovalStep::MarkDeleted
        } else {
            RemovalStep::Kept
        },
        RemovalStep::MarkDeleted => if succeeded {
            RemovalStep::Removed
        } else {
            RemovalStep::Kept
        },
        RemovalStep::Removed => RemovalStep::Removed,
        RemovalStep::Kept => RemovalStep::Kept,
    }
}

/// The step after a step that succeeded or not.
pub fn next_removal_step(
    step: RemovalStep,
    succeeded: bool,
    bitbucket: bool,
    has_container: bool,
) -> (r: RemovalStep)
    ensures
        r == removal_after(step, succeeded, bitbucket, has_container),
{
    let local: RemovalStep = if has_container {
        RemovalStep::RemoveContainer
    } else {
        RemovalStep::MarkDeleted
    };
    match step {
        RemovalStep::Archive => RemovalStep::Unregister,
        RemovalStep::Unregister => if succeeded {
            RemovalStep::Forget
        } else if bitbucket {
            RemovalStep::Kept
        } else {
            RemovalStep::Defer
        },
        RemovalStep::Defer | RemovalStep::Forget => if succeeded {
            local
        } else {
            RemovalStep::Kept
        },
        RemovalStep::RemoveContainer => if succeeded {
            RemovalStep::MarkDeleted
        } else {
            RemovalStep::Kept
        },
        RemovalStep::MarkDeleted => if succeeded {
            RemovalStep::Removed
        } else {
            RemovalStep::Kept
        },
        RemovalStep::Removed => RemovalStep::Removed,
        RemovalStep::Kept => RemovalStep::Kept,
    }
}

/// The step after steps that succeeded or not.
pub open spec fn removal_course(
    succeeded: Seq<bool>,
    bitbucket: bool,
    has_container: bool,
) -> RemovalStep
    decreases succeeded.len(),
{
    if succeeded.len() == 0 {
        if has_container {
            RemovalStep::Archive
        } else {
            RemovalStep::Unregister
        }
    } else {
        removal_after(
            removal_course(succeeded.drop_last(), bitbucket, has_container),
            succeeded.last(),
            bitbucket,
            has_container,
        )
    }
}

/// A runner that Bitbucket does not let go keeps its container and its record:
/// whatever follows a failed removal there, nothing of the runner is removed.
pub proof fn runners_that_bitbucket_keeps_are_left_intact(
    before: Seq<bool>,
    after: Seq<bool>,
    has_container: bool,
)
    requires
        removal_course(before, true, has_container) == RemovalStep::Unregister,
    ensures
        removal_course(before.push(false) + after, true, has_container) == RemovalStep::Kept,
    decreases after.len(),
{
    if after.len() == 0 {
        assert(before.push(false) + after =~= before.push(false));
        assert(before.push(false).drop_last() =~= before);
    } else {
        runners_that_bitbucket_keeps_are_left_intact(before, after.drop_last(), has_container);
        assert((before.push(false) + after).drop_last() =~= before.push(false)
            + after.drop_last());
    }
}

/// A runner for GitHub is removed even while GitHub cannot be reached.
pub proof fn github_failures_do_not_stop_a_removal(has_container: bool)
    ensures
        removal_after(RemovalStep::Unregister, false, false, has_container)
            == RemovalStep::Defer,
        removal_after(RemovalStep::Defer, true, false, has_container)
            == removal_after(RemovalStep::Forget, true, false, has_container),
{
}

/// The owner under which a runner is looked up when its removal is tried again:
/// that of its repository, or else the organization.
pub fn cleanup_owner(runner: &RunnerAccess) -> (r: String)
    ensures
        r@ == match runner.repository_owner {
            Some(owner) => owner@,
            None => runner.account_login@,
        },
{
    match &runner.repository_owner {
        Some(owner) => owner.clone(),
        None => runner.account_login.clone(),
    }
}

/// Whether the removal of a container went well enough: it did, or the container
/// was gone.
pub fn container_removed(result: Result<(), ApiError>) -> (r: Result<(), ApiError>)
    ensures
        match result {
            Ok(()) => r is Ok,
            Err(ApiError::NotFound(_)) => r is Ok,
            Err(error) => r == Err::<(), ApiError>(error),
        },
{
    match result {
        Ok(()) => Ok(()),
        Err(ApiError::NotFound(_)) => Ok(()),
        Err(error) => Err(error),
    }
}

/// What is recorded of a runner that was removed.
#[derive(Debug)]
pub struct RemovalRecord {
    pub level: &'static str,
    pub message: String,
    pub outcome: &'static str,
}

/// What is recorded of a runner that was removed.
pub fn removal_record(runner_name: &str, cleanup: &RemoteCleanup) -> (r: RemovalRecord)
    ensures
        match *cleanup {
            RemoteCleanup::Complete => r.level@ == "info"@ && r.message@ == runner_name@
                + " was removed"@ && r.outcome@ == "complete"@,
            RemoteCleanup::Deferred(_) => r.level@ == "warn"@ && r.message@ == runner_name@
                + " was removed locally; GitHub cleanup will retry"@ && r.outcome@
                == "deferred"@,
        },
{
    match cleanup {
        RemoteCleanup::Complete => RemovalRecord {
            level: "info",
            message: concat(runner_name, " was removed"),
            outcome: "complete",
        },
        RemoteCleanup::Deferred(_) => RemovalRecord {
            level: "warn",
            message: concat(runner_name, " was removed locally; GitHub cleanup will retry"),
            outcome: "deferred",
        },
    }
}

/// The connection and the name under which a runner is known at Bitbucket.
pub fn bitbucket_registration(runner: &RunnerAccess) -> (r: Result<(String, String), ApiError>)
    ensures
        match (runner.bitbucket_connection_id, runner.bitbucket_runner_uuid) {
            (None, _) => r is Err && r->Err_0@ == ErrorView::Internal(
                "Bitbucket runner is missing its connection."@,
            ),
            (Some(_), None) => r is Err && r->Err_0@ == ErrorView::Internal(
                "Bitbucket runner is missing its remote identity."@,
            ),
            (Some(connection), Some(uuid)) => r is Ok && (r->Ok_0).0@ == connection@ && (
            r->Ok_0).1@ == uuid@,
        },
{
    match &runner.bitbucket_connection_id {
        None => Err(ApiError::Internal("Bitbucket runner is missing its connection.".to_owned())),
        Some(connection) => match &runner.bitbucket_runner_uuid {
            None => Err(
                ApiError::Internal("Bitbucket runner is missing its remote identity.".to_owned()),
            ),
            Some(uuid) => Ok((connection.clone(), uuid.clone())),
        },
    }
}

// ---------------------------------------------------------------------------
// Actions on single runners

/// What is done with a runner.
#[derive(Debug)]
pub enum RunnerDeed {
    Delete,
    Rebuild,
    /// The manager is asked at the path, and the runner is then in the state.
    Control { path: String, status: &'static str },
}

/// The actions that the manager carries out.
pub open spec fn control_action(action: Seq<char>) -> bool {
    action == "start"@ || action == "stop"@ || action == "pause"@ || action == "resume"@ || action
        == "restart"@
}

/// The state of a runner after an action of the manager.
pub open spec fn state_after(action: Seq<char>) -> Seq<char> {
    if action == "stop"@ {
        "stopped"@
    } else if action == "pause"@ {
        "paused"@
    } else {
        "online"@
    }
}

/// What is done with a runner, by the name of the action. A runner for one job
/// is not started again, and the manager acts on containers only.
pub fn runner_deed(action: &str, ephemeral: bool, container_id: Option<&str>) -> (r: Result<
    RunnerDeed,
    ApiError,
>)
    ensures
        if action@ == "delete"@ {
            r is Ok && r->Ok_0 is Delete
        } else if action@ == "rebuild"@ {
            r is Ok && r->Ok_0 is Rebuild
        } else if !control_action(action@) {
            r is Err && r->Err_0@ == ErrorView::BadRequest("Runner action is invalid."@)
        } else if ephemeral && (action@ == "start"@ || action@ == "restart"@) {
            r is Err && r->Err_0@ == ErrorView::Conflict(
                "Ephemeral runners cannot be started or restarted; rebuild the runner instead."@,
            )
        } else {
            match container_id {
                None => r is Err && r->Err_0@ == ErrorView::Conflict(
                    "Runner has no managed container."@,
                ),
                Some(id) => r is Ok && r->Ok_0 is Control && r->Ok_0->path@ == "v1/runners/"@
                    + id@ + "/"@ + action@ && r->Ok_0->status@ == state_after(action@),
            }
        },
{
    if same(action, "delete") {
        return Ok(RunnerDeed::Delete);
    }
    if same(action, "rebuild") {
        return Ok(RunnerDeed::Rebuild);
    }
    let starts: bool = same(action, "start") || same(action, "restart");
    if !starts && !same(action, "stop") && !same(action, "pause") && !same(action, "resume") {
        return Err(ApiError::BadRequest("Runner action is invalid.".to_owned()));
    }
    if ephemeral && starts {
        return Err(
            ApiError::Conflict(
                "Ephemeral runners cannot be started or restarted; rebuild the runner instead."
                    .to_owned(),
            ),
        );
    }
    match container_id {
        None => Err(ApiError::Conflict("Runner has no managed container.".to_owned())),
        Some(id) => {
            let status: &'static str = if same(action, "stop") {
                "stopped"
            } else if same(action, "pause") {
                "paused"
            } else {
                "online"
            };
            Ok(RunnerDeed::Control { path: concat4("v1/runners/", id, "/", action), status })
        },
    }
}

// ---------------------------------------------------------------------------
// What is shown

/// The repository that is shown for a pool for which none is listed: its own
/// one, where it has one.
pub fn fallback_repository(
    listed: usize,
    repository_id: Option<i64>,
    owner: Option<&str>,
    name: Option<&str>,
) -> (r: Option<(i64, String)>)
    ensures
        match (repository_id, owner, name) {
            (Some(id), Some(owner), Some(name)) => if listed == 0 {
                r is Some && (r->0).0 == id && (r->0).1@ == owner@ + "/"@ + name@
            } else {
                r is None
            },
            _ => r is None,
        },
{
    if listed != 0 {
        return None;
    }
    match (repository_id, repository_full_name(owner, name)) {
        (Some(id), Some(full_name)) => Some((id, full_name)),
        _ => None,
    }
}

/// Whether an event is shown with what the manager has left.
pub fn waits_for_capacity(event: &str) -> (r: bool)
    ensures
        r == (event@ == "Runner provisioning waiting"@),
{
    same(event, "Runner provisioning waiting")
}

// ---------------------------------------------------------------------------
// Which runners are touched

/// Of what is selected the first are picked: where something that is selected is left out,
/// as many as the limit says stand before it.
pub proof fn the_first_are_picked(selected: spec_fn(int) -> bool, limit: int, n: int, i: int)
    requires
        0 <= limit,
        0 <= i < n,
        selected(i),
        !picked(selected, limit, n).contains(i),
    ensures
        picked(selected, limit, n).len() == limit,
        forall|k: int|
            0 <= k < picked(selected, limit, n).len() ==> #[trigger] picked(selected, limit, n)[k]
                < i,
    decreases n,
{
    let before = picked(selected, limit, n - 1);
    let all = picked(selected, limit, n);
    what_is_picked(selected, limit, n);
    what_is_picked(selected, limit, n - 1);
    if i == n - 1 {
        if before.len() < limit {
            assert(all[all.len() - 1] == i);
        }
    } else {
        if before.contains(i) {
            let m = choose|m: int| 0 <= m < before.len() && before[m] == i;
            assert(all[m] == i);
        }
        the_first_are_picked(selected, limit, n - 1, i);
    }
}

/// A runner is removed as failed exactly if it has failed; replaced exactly if it is idle,
/// not for Bitbucket and older than its pool's configuration; and removed for want of work
/// exactly if it counts, is idle and, where there are too many, not for Bitbucket.
pub proof fn runners_are_touched_for_a_reason(runner: RunnerAccess, version: i64)
    ensures
        has_failed(runner) <==> runner.runner_status@ == "failed"@,
        can_rotate(runner, version) <==> !runner.busy && runner.ci_platform@ != "bitbucket"@
            && runner.configuration_version < version,
        is_idle(runner) <==> !runner.busy && runner_counts(runner.runner_status@),
        can_trim(runner) <==> !runner.busy && runner_counts(runner.runner_status@)
            && runner.ci_platform@ != "bitbucket"@,
{
}

/// The state of a container is the one that is told last of it.
pub proof fn the_last_state_told_counts(states: Seq<ContainerState>, id: Seq<char>, k: int)
    requires
        0 <= k < states.len(),
        states[k].id@ == id,
        forall|j: int| k < j < states.len() ==> (#[trigger] states[j]).id@ != id,
    ensures
        state_of(states, id) == Some(states[k].state@),
    decreases states.len(),
{
    if k < states.len() - 1 {
        let front = states.drop_last();
        assert(states[states.len() - 1].id@ != id);
        assert forall|j: int| k < j < front.len() implies (#[trigger] front[j]).id@ != id by {
            assert(front[j] == states[j]);
        }
        the_last_state_told_counts(front, id, k);
    }
}

/// Each item of the manager's list that has a name and a state tells a container, and no
/// other item does.
pub proof fn containers_are_told_one_by_one(items: Seq<Json>, one: Json)
    ensures
        ({
            let told = one is Object && text_member(one->Object_0@, "id"@) is Some && text_member(
                one->Object_0@,
                "state"@,
            ) is Some;
            told_containers(items.push(one)) == if told {
                told_containers(items).push(
                    (
                        text_member(one->Object_0@, "id"@)->0,
                        text_member(one->Object_0@, "state"@)->0,
                    ),
                )
            } else {
                told_containers(items)
            }
        }),
        told_containers(Seq::empty()).len() == 0,
{
    assert(items.push(one).drop_last() =~= items);
}

/// The runners of a pool are counted by their state and by their configuration.
pub proof fn pool_runners_are_counted(runners: Seq<RunnerAccess>, version: i64)
    ensures
        active_of(runners, runners.len() as int) == runners.filter(
            |runner: RunnerAccess| runner_counts(runner.runner_status@),
        ).len(),
        outdated_of(runners, version, runners.len() as int) == runners.filter(
            |runner: RunnerAccess| runner.configuration_version < version,
        ).len(),
    decreases runners.len(),
{
    reveal(Seq::filter);
    if runners.len() > 0 {
        pool_runners_are_counted(runners.drop_last(), version);
        lemma_counted_prefix(runners.drop_last(), runners, version, runners.len() - 1);
    }
}

proof fn lemma_counted_prefix(
    less: Seq<RunnerAccess>,
    more: Seq<RunnerAccess>,
    version: i64,
    n: int,
)
    requires
        less.is_prefix_of(more),
        n <= less.len(),
    ensures
        active_of(less, n) == active_of(more, n),
        outdated_of(less, version, n) == outdated_of(more, version, n),
    decreases n,
{
    if n > 0 {
        assert(less[n - 1] == more[n - 1]);
        lemma_counted_prefix(less, more, version, n - 1);
    }
}

/// A pool that is paused drains until no runner counts; another one is updated while some
/// runners are outdated, then drains while it has too many, and is active otherwise.
pub proof fn states_of_pools(active: nat, desired: int, outdated: nat)
    ensures
        state_of_pool(true, 0, desired, outdated) == "paused"@,
        active > 0 ==> state_of_pool(true, active, desired, outdated) == "draining"@,
        outdated > 0 ==> state_of_pool(false, active, desired, outdated) == "updating"@,
        active > desired ==> state_of_pool(false, active, desired, 0) == "draining"@,
        active <= desired ==> state_of_pool(false, active, desired, 0) == "active"@,
{
}

/// A runner is marked as deleted only after its container was removed, where it has one,
/// and that only after it was removed where it is registered or this was put off; and its
/// log is kept before anything of it is removed.
pub proof fn removals_take_their_steps_in_order(
    step: RemovalStep,
    succeeded: bool,
    bitbucket: bool,
    has_container: bool,
)
    ensures
        ({
            let next = removal_after(step, succeeded, bitbucket, has_container);
            &&& step == RemovalStep::Archive ==> next == RemovalStep::Unregister
            &&& next == RemovalStep::Defer ==> step == RemovalStep::Unregister && !succeeded
                && !bitbucket
            &&& next == RemovalStep::Forget ==> step == RemovalStep::Unregister && succeeded
            &&& next == RemovalStep::RemoveContainer ==> has_container && succeeded && (step
                == RemovalStep::Forget || step == RemovalStep::Defer)
            &&& next == RemovalStep::MarkDeleted ==> succeeded && (if has_container {
                step == RemovalStep::RemoveContainer
            } else {
                step == RemovalStep::RemoveContainer || step == RemovalStep::Forget || step
                    == RemovalStep::Defer
            })
            &&& next == RemovalStep::Removed ==> step == RemovalStep::Removed || (step
                == RemovalStep::MarkDeleted && succeeded)
            &&& !succeeded && (step == RemovalStep::RemoveContainer || step
                == RemovalStep::MarkDeleted) ==> next == RemovalStep::Kept
            &&& !succeeded && step == RemovalStep::Unregister && bitbucket ==> next
                == RemovalStep::Kept
        }),
{
}

/// Where every step succeeds, a runner is removed.
pub proof fn removals_succeed_where_nothing_goes_wrong(bitbucket: bool)
    ensures
        ({
            let go = |step: RemovalStep| removal_after(step, true, bitbucket, true);
            go(go(go(go(go(RemovalStep::Archive))))) == RemovalStep::Removed
        }),
        ({
            let go = |step: RemovalStep| removal_after(step, true, bitbucket, false);
            go(go(go(RemovalStep::Unregister))) == RemovalStep::Removed
        }),
{
}

/// The manager carries out five actions, after which a runner is stopped, paused or online.
pub proof fn actions_bring_runners_to_their_state(action: Seq<char>)
    ensures
        control_action(action) <==> action == "start"@ || action == "stop"@ || action == "pause"@
            || action == "resume"@ || action == "restart"@,
        state_after("stop"@) == "stopped"@,
        state_after("pause"@) == "paused"@,
        state_after("start"@) == "online"@,
        state_after("resume"@) == "online"@,
        state_after("restart"@) == "online"@,
{
    reveal_strlit("start");
    reveal_strlit("stop");
    reveal_strlit("pause");
    reveal_strlit("resume");
    reveal_strlit("restart");
    assert("start"@.len() == 5 && "stop"@.len() == 4 && "pause"@.len() == 5 && "resume"@.len() == 6
        && "restart"@.len() == 7 && "start"@[0] == 's' && "pause"@[0] == 'p');
}

}
