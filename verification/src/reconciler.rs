//! Keeping pools at the size that is wanted: what is observed of runners, which
//! of them are replaced, moved or removed, how many are started, and how
//! failures delay the next try.
use vstd::prelude::*;

use crate::assignment::runner_counts;
use crate::autoscaling::{
    deficit, has_surplus, provider_capacity_deficit, repository_capacity_deficit, scale_up_target,
    surplus, target, ProviderCapacity, RepositoryCapacity,
};
use crate::numbers::{
    clamp, clamped, decimal_usize, decimal, difference_saturated, larger, length_i64, max, min,
    product_saturated, saturated, smaller, sum_saturated,
};
use crate::payload::{string, text_member, Member};
use crate::search::{contains, contains_text, first_chars, list_contains, occurs_at, take_chars};
use crate::text::{concat, concat4, concat5, same, text_option, texts};

verus! {

// ---------------------------------------------------------------------------
// Pools and runners

/// A runner pool as it is kept. The processor limit is in billionths of a
/// processor.
#[derive(Debug)]
pub struct Pool {
    pub id: String,
    pub installation_id: i64,
    pub account_login: String,
    pub scope: String,
    pub name: String,
    pub state: String,
    pub mode: String,
    pub provider: String,
    pub providers: String,
    pub labels: String,
    pub docker_image: String,
    pub tart_image: String,
    pub desired_count: i64,
    pub min_count: i64,
    pub max_count: i64,
    pub cpu_limit: i64,
    pub memory_limit_mb: i64,
    pub runner_group_id: i64,
    pub ephemeral: bool,
    pub paused: bool,
    pub autoscaling_enabled: bool,
    pub queue_scale_factor: i64,
    pub idle_timeout_minutes: i64,
    pub configuration_version: i64,
    pub provision_failure_count: i64,
    pub provision_retry_at: Option<i64>,
    pub provision_circuit_open: bool,
}

/// A runner as it is kept.
#[derive(Debug)]
pub struct Runner {
    pub id: String,
    pub installation_id: i64,
    pub name: String,
    pub container_id: Option<String>,
    pub github_runner_id: Option<i64>,
    pub target_repository_id: Option<i64>,
    pub repository_owner: Option<String>,
    pub repository_name: Option<String>,
    pub provider: String,
    pub status: String,
    pub busy: bool,
    pub last_job_id: Option<i64>,
    pub configuration_version: i64,
    pub updated_at: i64,
}

/// A runner in this state counts for its pool.
pub open spec fn active(status: Seq<char>) -> bool {
    status == "starting"@ || status == "online"@ || status == "idle"@ || status == "busy"@ || status
        == "paused"@ || status == "stopped"@
}

/// Whether a runner in this state counts for its pool.
pub fn active_status(status: &str) -> (r: bool)
    ensures
        r == active(status@),
{
    same(status, "starting") || same(status, "online") || same(status, "idle") || same(
        status,
        "busy",
    ) || same(status, "paused") || same(status, "stopped")
}

/// The state of a runner by that of its container, where it is known.
pub open spec fn observed(
    container: Option<Seq<char>>,
    busy: bool,
    current: Seq<char>,
) -> Seq<char> {
    match container {
        None => "failed"@,
        Some(state) => if state == "running"@ {
            if busy {
                "busy"@
            } else {
                "online"@
            }
        } else if state == "paused"@ {
            "paused"@
        } else if state == "exited"@ || state == "dead"@ {
            if current == "stopped"@ {
                "stopped"@
            } else {
                "failed"@
            }
        } else if state == "missing"@ {
            "failed"@
        } else {
            state
        },
    }
}

/// The state of a runner by that of its container, where it is known. A runner
/// whose container is gone has failed; so has one whose container has ended, unless
/// the runner was stopped on purpose.
pub fn observed_status(container: Option<&str>, busy: bool, current: &str) -> (r: String)
    ensures
        r@ == observed(crate::config::str_option(container), busy, current@),
{
    match container {
        None => "failed".to_owned(),
        Some(state) => if same(state, "running") {
            if busy {
                "busy".to_owned()
            } else {
                "online".to_owned()
            }
        } else if same(state, "paused") {
            "paused".to_owned()
        } else if same(state, "exited") || same(state, "dead") {
            if same(current, "stopped") {
                "stopped".to_owned()
            } else {
                "failed".to_owned()
            }
        } else if same(state, "missing") {
            "failed".to_owned()
        } else {
            state.to_owned()
        },
    }
}

/// A runner was made with an older configuration than its pool has.
pub fn runner_needs_update(pool: &Pool, runner: &Runner) -> (r: bool)
    ensures
        r == (runner.configuration_version < pool.configuration_version),
{
    runner.configuration_version < pool.configuration_version
}

/// The number of runners of the first `n` that count for the pool.
pub open spec fn active_among(runners: Seq<Runner>, n: int) -> nat
    decreases n,
{
    if n <= 0 {
        0
    } else {
        active_among(runners, n - 1) + if active(runners[n - 1].status@) {
            1nat
        } else {
            0nat
        }
    }
}

/// The number of runners of the first `n` that count for the pool and are busy.
pub open spec fn busy_among(runners: Seq<Runner>, n: int) -> nat
    decreases n,
{
    if n <= 0 {
        0
    } else {
        busy_among(runners, n - 1) + if runners[n - 1].busy && active(runners[n - 1].status@) {
            1nat
        } else {
            0nat
        }
    }
}

/// The number of runners of the first `n` with an older configuration.
pub open spec fn outdated_among(runners: Seq<Runner>, version: i64, n: int) -> nat
    decreases n,
{
    if n <= 0 {
        0
    } else {
        outdated_among(runners, version, n - 1) + if runners[n - 1].configuration_version
            < version {
            1nat
        } else {
            0nat
        }
    }
}

/// The number of runners that count for the pool.
pub fn active_count(runners: &[Runner]) -> (r: usize)
    ensures
        r == active_among(runners@, runners@.len() as int),
        r <= runners@.len(),
{
    let mut count: usize = 0;
    let mut i: usize = 0;
    while i < runners.len()
        invariant
            i <= runners@.len(),
            count == active_among(runners@, i as int),
            count <= i,
        decreases runners@.len() - i,
    {
        if active_status(runners[i].status.as_str()) {
            count += 1;
        }
        i += 1;
    }
    count
}

/// The number of busy runners that count for the pool.
pub fn busy_count(runners: &[Runner]) -> (r: usize)
    ensures
        r == busy_among(runners@, runners@.len() as int),
        r <= runners@.len(),
{
    let mut count: usize = 0;
    let mut i: usize = 0;
    while i < runners.len()
        invariant
            i <= runners@.len(),
            count == busy_among(runners@, i as int),
            count <= i,
        decreases runners@.len() - i,
    {
        if runners[i].busy && active_status(runners[i].status.as_str()) {
            count += 1;
        }
        i += 1;
    }
    count
}

/// The number of runners with an older configuration than the pool's.
pub fn outdated_count(runners: &[Runner], version: i64) -> (r: usize)
    ensures
        r == outdated_among(runners@, version, runners@.len() as int),
        r <= runners@.len(),
{
    let mut count: usize = 0;
    let mut i: usize = 0;
    while i < runners.len()
        invariant
            i <= runners@.len(),
            count == outdated_among(runners@, version, i as int),
            count <= i,
        decreases runners@.len() - i,
    {
        if runners[i].configuration_version < version {
            count += 1;
        }
        i += 1;
    }
    count
}

/// The positions of the first `n` runners that have failed.
pub open spec fn failed_among(runners: Seq<Runner>, n: int) -> Seq<int>
    decreases n,
{
    if n <= 0 {
        Seq::empty()
    } else if runners[n - 1].status@ == "failed"@ {
        failed_among(runners, n - 1).push(n - 1)
    } else {
        failed_among(runners, n - 1)
    }
}

/// Positions as mathematical numbers.
pub open spec fn positions(list: Seq<usize>) -> Seq<int> {
    list.map_values(|i: usize| i as int)
}

/// The runners that have failed, which are removed.
pub fn failed_runners(runners: &[Runner]) -> (r: Vec<usize>)
    ensures
        positions(r@) == failed_among(runners@, runners@.len() as int),
        forall|k: int|
            0 <= k < r@.len() ==> #[trigger] r@[k] < runners@.len() && runners@[r@[k] as int].status@
                == "failed"@,
{
    let mut out: Vec<usize> = Vec::new();
    let mut i: usize = 0;
    proof {
        assert(positions(out@) =~= Seq::empty());
    }
    while i < runners.len()
        invariant
            i <= runners@.len(),
            positions(out@) == failed_among(runners@, i as int),
            forall|k: int|
                0 <= k < out@.len() ==> #[trigger] out@[k] < runners@.len()
                    && runners@[out@[k] as int].status@ == "failed"@,
        decreases runners@.len() - i,
    {
        let ghost before = positions(out@);
        if same(runners[i].status.as_str(), "failed") {
            out.push(i);
            proof {
                assert(positions(out@) =~= before.push(i as int));
            }
        }
        i += 1;
    }
    out
}

// ---------------------------------------------------------------------------
// Whether a pool may be given runners

/// The next try lies in the future.
pub open spec fn deferred(retry_at: Option<i64>, now: i64) -> bool {
    retry_at is Some && retry_at->0 > now
}

/// No runner is started for the pool now: everything is paused, its circuit is
/// open, or the next try lies in the future.
pub open spec fn blocked(pool: Pool, provisioning_paused: bool, now: i64) -> bool {
    provisioning_paused || pool.provision_circuit_open || deferred(pool.provision_retry_at, now)
}

/// Whether the next try lies in the future.
pub fn retry_deferred(pool: &Pool, now: i64) -> (r: bool)
    ensures
        r == deferred(pool.provision_retry_at, now),
{
    match pool.provision_retry_at {
        Some(retry_at) => retry_at > now,
        None => false,
    }
}

/// Whether no runner is started for the pool now.
pub fn provisioning_blocked(pool: &Pool, provisioning_paused: bool, now: i64) -> (r: bool)
    ensures
        r == blocked(*pool, provisioning_paused, now),
{
    provisioning_paused || pool.provision_circuit_open || retry_deferred(pool, now)
}

/// The first idle runner from position `i` on with an older configuration.
pub open spec fn stale_from(runners: Seq<Runner>, version: i64, i: int) -> Option<int>
    decreases runners.len() - i,
{
    if i >= runners.len() {
        None
    } else if !runners[i].busy && runners[i].configuration_version < version {
        Some(i)
    } else {
        stale_from(runners, version, i + 1)
    }
}

/// The runner that is replaced in this pass: the first idle one with an older
/// configuration, one per pass, and none while the pool is blocked.
pub fn runner_to_rotate(pool: &Pool, runners: &[Runner], is_blocked: bool) -> (r: Option<usize>)
    ensures
        match r {
            Some(i) => !is_blocked && i < runners@.len() && !runners@[i as int].busy && stale_from(
                runners@,
                pool.configuration_version,
                0,
            ) == Some(i as int),
            None => is_blocked || stale_from(runners@, pool.configuration_version, 0) is None,
        },
{
    if is_blocked {
        return None;
    }
    let mut i: usize = 0;
    while i < runners.len()
        invariant
            i <= runners@.len(),
            stale_from(runners@, pool.configuration_version, i as int) == stale_from(
                runners@,
                pool.configuration_version,
                0,
            ),
            !is_blocked,
        decreases runners@.len() - i,
    {
        if !runners[i].busy && runner_needs_update(pool, &runners[i]) {
            return Some(i);
        }
        i += 1;
    }
    None
}

// ---------------------------------------------------------------------------
// Scaling

/// The missing runners of the first `n` repositories.
pub open spec fn repositories_missing(
    list: Seq<RepositoryCapacity>,
    factor: i64,
    n: int,
) -> int
    decreases n,
{
    if n <= 0 {
        0
    } else {
        let here = list[n - 1];
        saturated(
            repositories_missing(list, factor, n - 1) + larger(
                deficit(here.busy, here.queued, here.active, factor),
                0,
            ),
        )
    }
}

/// The missing runners of the first `n` providers.
pub open spec fn providers_missing(list: Seq<ProviderCapacity>, factor: i64, n: int) -> int
    decreases n,
{
    if n <= 0 {
        0
    } else {
        let here = list[n - 1];
        saturated(
            providers_missing(list, factor, n - 1) + larger(
                deficit(here.busy, here.queued, here.active, factor),
                0,
            ),
        )
    }
}

fn count_repositories_missing(list: &[RepositoryCapacity], factor: i64) -> (r: i64)
    ensures
        r == repositories_missing(list@, factor, list@.len() as int),
{
    let mut total: i64 = 0;
    let mut i: usize = 0;
    while i < list.len()
        invariant
            i <= list@.len(),
            total == repositories_missing(list@, factor, i as int),
        decreases list@.len() - i,
    {
        total = sum_saturated(total, max(repository_capacity_deficit(&list[i], factor), 0));
        i += 1;
    }
    total
}

fn count_providers_missing(list: &[ProviderCapacity], factor: i64) -> (r: i64)
    ensures
        r == providers_missing(list@, factor, list@.len() as int),
{
    let mut total: i64 = 0;
    let mut i: usize = 0;
    while i < list.len()
        invariant
            i <= list@.len(),
            total == providers_missing(list@, factor, i as int),
        decreases list@.len() - i,
    {
        total = sum_saturated(total, max(provider_capacity_deficit(&list[i], factor), 0));
        i += 1;
    }
    total
}

/// The number of runners that the queue asks for: enough for all jobs together,
/// and enough to place those of each repository and of each provider, at most
/// the maximum.
pub open spec fn queue_target(
    pool: Pool,
    runners: Seq<Runner>,
    queued: i64,
    repositories: Seq<RepositoryCapacity>,
    providers: Seq<ProviderCapacity>,
) -> int {
    let n = runners.len() as int;
    let running = saturated(active_among(runners, n) as int);
    let all = target(
        pool.desired_count,
        saturated(busy_among(runners, n) as int) as i64,
        queued,
        pool.queue_scale_factor,
        pool.max_count,
    );
    let placed = if pool.scope@ == "repository"@ {
        repositories_missing(repositories, pool.queue_scale_factor, repositories.len() as int)
    } else {
        0
    };
    let provided = providers_missing(providers, pool.queue_scale_factor, providers.len() as int);
    smaller(
        larger(
            larger(all, saturated(running + placed)),
            saturated(running + provided),
        ),
        pool.max_count as int,
    )
}

/// The new number of wanted runners, where the queue raises it.
pub open spec fn raised(
    pool: Pool,
    runners: Seq<Runner>,
    queued: i64,
    repositories: Seq<RepositoryCapacity>,
    providers: Seq<ProviderCapacity>,
) -> Option<int> {
    let wanted = queue_target(pool, runners, queued, repositories, providers);
    if !pool.autoscaling_enabled || pool.paused || queued == 0 || wanted <= pool.desired_count {
        None
    } else {
        Some(wanted)
    }
}

/// The new number of wanted runners, where the queue raises it.
pub fn maybe_scale_up(
    pool: &Pool,
    runners: &[Runner],
    queued: i64,
    repositories: &[RepositoryCapacity],
    providers: &[ProviderCapacity],
) -> (r: Option<i64>)
    ensures
        match r {
            Some(wanted) => raised(*pool, runners@, queued, repositories@, providers@) == Some(
                wanted as int,
            ),
            None => raised(*pool, runners@, queued, repositories@, providers@) is None,
        },
{
    if !pool.autoscaling_enabled || pool.paused || queued == 0 {
        return None;
    }
    let busy: i64 = length_i64(busy_count(runners));
    let all: i64 = scale_up_target(
        pool.desired_count,
        busy,
        queued,
        pool.queue_scale_factor,
        pool.max_count,
    );
    let placed: i64 = if same(pool.scope.as_str(), "repository") {
        count_repositories_missing(repositories, pool.queue_scale_factor)
    } else {
        0
    };
    let provided: i64 = count_providers_missing(providers, pool.queue_scale_factor);
    let running: i64 = length_i64(active_count(runners));
    let wanted: i64 = min(
        max(max(all, sum_saturated(running, placed)), sum_saturated(running, provided)),
        pool.max_count,
    );
    if wanted <= pool.desired_count {
        return None;
    }
    Some(wanted)
}

/// The latest change of the first `n` runners; zero where there are none.
pub open spec fn last_activity(runners: Seq<Runner>, n: int) -> int
    decreases n,
{
    if n <= 0 {
        0
    } else if n == 1 {
        runners[0].updated_at as int
    } else {
        larger(last_activity(runners, n - 1), runners[n - 1].updated_at as int)
    }
}

/// One of the runners is busy.
pub open spec fn any_busy(runners: Seq<Runner>) -> bool {
    exists|i: int| 0 <= i < runners.len() && (#[trigger] runners[i]).busy
}

/// The pool has been idle for as long as its timeout says.
pub open spec fn idle_elapsed(now: i64, idle_timeout_minutes: i64, last: int) -> bool {
    saturated(now - last) >= saturated(idle_timeout_minutes * 60_000)
}

/// Whether a pool has been idle for as long as its timeout says.
pub fn idle_period_elapsed(now: i64, idle_timeout_minutes: i64, last_activity: i64) -> (r: bool)
    ensures
        r == idle_elapsed(now, idle_timeout_minutes, last_activity as int),
{
    difference_saturated(now, last_activity) >= product_saturated(idle_timeout_minutes, 60_000)
}

/// The pool goes back to its minimum.
pub open spec fn lowered(pool: Pool, runners: Seq<Runner>, queued: i64, now: i64) -> bool {
    &&& pool.autoscaling_enabled
    &&& !pool.paused
    &&& pool.desired_count > pool.min_count
    &&& !any_busy(runners)
    &&& queued <= 0
    &&& idle_elapsed(
        now,
        pool.idle_timeout_minutes,
        last_activity(runners, runners.len() as int),
    )
}

/// The new number of wanted runners, where the pool is idle and goes back to its
/// minimum.
pub fn maybe_scale_down(pool: &Pool, runners: &[Runner], queued: i64, now: i64) -> (r: Option<i64>)
    ensures
        r == if lowered(*pool, runners@, queued, now) {
            Some(pool.min_count)
        } else {
            None
        },
{
    if !pool.autoscaling_enabled || pool.paused || pool.desired_count <= pool.min_count {
        return None;
    }
    let mut last: i64 = 0;
    let mut i: usize = 0;
    while i < runners.len()
        invariant
            i <= runners@.len(),
            last == last_activity(runners@, i as int),
            forall|k: int| 0 <= k < i ==> !(#[trigger] runners@[k]).busy,
        decreases runners@.len() - i,
    {
        if runners[i].busy {
            return None;
        }
        last = if i == 0 {
            runners[i].updated_at
        } else {
            max(last, runners[i].updated_at)
        };
        i += 1;
    }
    if queued > 0 {
        return None;
    }
    if !idle_period_elapsed(now, pool.idle_timeout_minutes, last) {
        return None;
    }
    Some(pool.min_count)
}

/// Scaling up stays within the maximum and only raises; a pool with queued jobs
/// or a busy runner is never scaled down; no pass does both.
pub proof fn scaling_is_bounded_and_exclusive(
    pool: Pool,
    runners: Seq<Runner>,
    queued: i64,
    repositories: Seq<RepositoryCapacity>,
    providers: Seq<ProviderCapacity>,
    now: i64,
)
    requires
        queued >= 0,
    ensures
        match raised(pool, runners, queued, repositories, providers) {
            Some(wanted) => pool.desired_count < wanted <= pool.max_count && queued > 0,
            None => true,
        },
        queued > 0 || any_busy(runners) ==> !lowered(pool, runners, queued, now),
        !(raised(pool, runners, queued, repositories, providers) is Some && lowered(
            pool,
            runners,
            queued,
            now,
        )),
{
}

/// The number of runners that a pool is to have now: none while it is paused.
pub open spec fn wanted_now(pool: Pool, desired: i64) -> int {
    if pool.paused {
        0
    } else {
        clamped(desired as int, pool.min_count as int, pool.max_count as int)
    }
}

/// The number of runners that a pool is to have now.
pub fn desired_now(pool: &Pool, desired: i64) -> (r: i64)
    requires
        pool.paused || pool.min_count <= pool.max_count,
    ensures
        r == wanted_now(*pool, desired),
{
    if pool.paused {
        0
    } else {
        clamp(desired, pool.min_count, pool.max_count)
    }
}

// ---------------------------------------------------------------------------
// Moving capacity

/// A repository lacks runners.
pub open spec fn some_repository_lacks(list: Seq<RepositoryCapacity>, factor: i64) -> bool {
    exists|i: int|
        0 <= i < list.len() && deficit(
            (#[trigger] list[i]).busy,
            list[i].queued,
            list[i].active,
            factor,
        ) > 0
}

/// A provider lacks runners.
pub open spec fn some_provider_lacks(list: Seq<ProviderCapacity>, factor: i64) -> bool {
    exists|i: int|
        0 <= i < list.len() && deficit(
            (#[trigger] list[i]).busy,
            list[i].queued,
            list[i].active,
            factor,
        ) > 0
}

/// The repository is one of the pool's.
pub open spec fn repository_listed(list: Seq<RepositoryCapacity>, id: i64) -> bool {
    exists|i: int| 0 <= i < list.len() && (#[trigger] list[i]).repository_id == id
}

/// The repository has more runners than it needs.
pub open spec fn repository_surplus(
    list: Seq<RepositoryCapacity>,
    factor: i64,
    id: i64,
) -> bool {
    exists|i: int|
        0 <= i < list.len() && (#[trigger] list[i]).repository_id == id && surplus(
            list[i].busy,
            list[i].queued,
            list[i].active,
            factor,
        )
}

/// The provider has more runners than it needs.
pub open spec fn provider_surplus(
    list: Seq<ProviderCapacity>,
    factor: i64,
    provider: Seq<char>,
) -> bool {
    exists|i: int|
        0 <= i < list.len() && (#[trigger] list[i]).provider@ == provider && surplus(
            list[i].busy,
            list[i].queued,
            list[i].active,
            factor,
        )
}

/// A runner can give way: it is idle, and its provider or its repository has
/// more than it needs or is no longer the pool's.
pub open spec fn can_give_way(
    runner: Runner,
    factor: i64,
    repositories: Seq<RepositoryCapacity>,
    capacities: Seq<ProviderCapacity>,
    providers: Seq<Seq<char>>,
) -> bool {
    &&& !runner.busy
    &&& active(runner.status@)
    &&& {
        ||| provider_surplus(capacities, factor, runner.provider@)
        ||| !providers.contains(runner.provider@)
        ||| runner.target_repository_id is Some && (repository_surplus(
            repositories,
            factor,
            runner.target_repository_id->0,
        ) || !repository_listed(repositories, runner.target_repository_id->0))
    }
}

/// The first runner from position `i` on that can give way.
pub open spec fn giving_way_from(
    runners: Seq<Runner>,
    factor: i64,
    repositories: Seq<RepositoryCapacity>,
    capacities: Seq<ProviderCapacity>,
    providers: Seq<Seq<char>>,
    i: int,
) -> Option<int>
    decreases runners.len() - i,
{
    if i >= runners.len() {
        None
    } else if can_give_way(runners[i], factor, repositories, capacities, providers) {
        Some(i)
    } else {
        giving_way_from(runners, factor, repositories, capacities, providers, i + 1)
    }
}

/// The repositories that count for a pool: none for a pool of an organization.
pub open spec fn counted_repositories(
    scope: Seq<char>,
    list: Seq<RepositoryCapacity>,
) -> Seq<RepositoryCapacity> {
    if scope == "repository"@ {
        list
    } else {
        Seq::empty()
    }
}

/// The runner that is removed so that another repository or provider gets its
/// place.
pub open spec fn rebalanced(
    pool: Pool,
    runners: Seq<Runner>,
    desired: i64,
    repositories: Seq<RepositoryCapacity>,
    capacities: Seq<ProviderCapacity>,
    providers: Seq<Seq<char>>,
) -> Option<int> {
    let counted = counted_repositories(pool.scope@, repositories);
    if pool.paused || desired < 0 || active_among(runners, runners.len() as int) < desired {
        None
    } else if !some_repository_lacks(counted, pool.queue_scale_factor) && !some_provider_lacks(
        capacities,
        pool.queue_scale_factor,
    ) {
        None
    } else {
        giving_way_from(runners, pool.queue_scale_factor, counted, capacities, providers, 0)
    }
}

fn repository_lacks(list: &[RepositoryCapacity], factor: i64) -> (r: bool)
    ensures
        r == some_repository_lacks(list@, factor),
{
    let mut i: usize = 0;
    while i < list.len()
        invariant
            i <= list@.len(),
            forall|k: int|
                0 <= k < i ==> deficit(
                    (#[trigger] list@[k]).busy,
                    list@[k].queued,
                    list@[k].active,
                    factor,
                ) <= 0,
        decreases list@.len() - i,
    {
        if repository_capacity_deficit(&list[i], factor) > 0 {
            return true;
        }
        i += 1;
    }
    false
}

fn provider_lacks(list: &[ProviderCapacity], factor: i64) -> (r: bool)
    ensures
        r == some_provider_lacks(list@, factor),
{
    let mut i: usize = 0;
    while i < list.len()
        invariant
            i <= list@.len(),
            forall|k: int|
                0 <= k < i ==> deficit(
                    (#[trigger] list@[k]).busy,
                    list@[k].queued,
                    list@[k].active,
                    factor,
                ) <= 0,
        decreases list@.len() - i,
    {
        if provider_capacity_deficit(&list[i], factor) > 0 {
            return true;
        }
        i += 1;
    }
    false
}

fn gives_way(
    runner: &Runner,
    factor: i64,
    repositories: &[RepositoryCapacity],
    capacities: &[ProviderCapacity],
    providers: &[String],
) -> (r: bool)
    ensures
        r == can_give_way(
            *runner,
            factor,
            repositories@,
            capacities@,
            texts(providers@),
        ),
{
    if runner.busy || !active_status(runner.status.as_str()) {
        return false;
    }
    let mut i: usize = 0;
    while i < capacities.len()
        invariant
            i <= capacities@.len(),
            !runner.busy && active(runner.status@),
            forall|k: int|
                0 <= k < i ==> !((#[trigger] capacities@[k]).provider@ == runner.provider@
                    && surplus(
                    capacities@[k].busy,
                    capacities@[k].queued,
                    capacities@[k].active,
                    factor,
                )),
        decreases capacities@.len() - i,
    {
        let c: &ProviderCapacity = &capacities[i];
        if same(c.provider.as_str(), runner.provider.as_str()) && has_surplus(
            c.busy,
            c.queued,
            c.active,
            factor,
        ) {
            return true;
        }
        i += 1;
    }
    if !list_contains(providers, runner.provider.as_str()) {
        return true;
    }
    match runner.target_repository_id {
        None => false,
        Some(id) => {
            let mut listed: bool = false;
            let mut j: usize = 0;
            while j < repositories.len()
                invariant
                    j <= repositories@.len(),
                    !runner.busy && active(runner.status@),
                    runner.target_repository_id == Some(id),
                    listed == exists|k: int|
                        0 <= k < j && (#[trigger] repositories@[k]).repository_id == id,
                    forall|k: int|
                        0 <= k < j ==> !((#[trigger] repositories@[k]).repository_id == id
                            && surplus(
                            repositories@[k].busy,
                            repositories@[k].queued,
                            repositories@[k].active,
                            factor,
                        )),
                decreases repositories@.len() - j,
            {
                let c: &RepositoryCapacity = &repositories[j];
                if c.repository_id == id {
                    listed = true;
                    if has_surplus(c.busy, c.queued, c.active, factor) {
                        return true;
                    }
                }
                j += 1;
            }
            !listed
        },
    }
}

/// The runner that is removed so that another repository or provider gets its
/// place: only where the pool has as many runners as it wants and something
/// lacks one.
pub fn runner_to_rebalance(
    pool: &Pool,
    runners: &[Runner],
    desired: i64,
    repositories: &[RepositoryCapacity],
    capacities: &[ProviderCapacity],
    providers: &[String],
) -> (r: Option<usize>)
    ensures
        match r {
            Some(i) => i < runners@.len() && !runners@[i as int].busy && rebalanced(
                *pool,
                runners@,
                desired,
                repositories@,
                capacities@,
                texts(providers@),
            ) == Some(i as int),
            None => rebalanced(
                *pool,
                runners@,
                desired,
                repositories@,
                capacities@,
                texts(providers@),
            ) is None,
        },
{
    if pool.paused || desired < 0 {
        return None;
    }
    let running: usize = active_count(runners);
    if (running as u64) < desired as u64 {
        return None;
    }
    let counted: &[RepositoryCapacity] = if same(pool.scope.as_str(), "repository") {
        repositories
    } else {
        proof {
            assert(repositories@.subrange(0, 0) =~= Seq::<RepositoryCapacity>::empty());
        }
        vstd::slice::slice_subrange(repositories, 0, 0)
    };
    proof {
        assert(counted@ == counted_repositories(pool.scope@, repositories@));
    }
    if !repository_lacks(counted, pool.queue_scale_factor) && !provider_lacks(
        capacities,
        pool.queue_scale_factor,
    ) {
        return None;
    }
    let mut i: usize = 0;
    while i < runners.len()
        invariant
            i <= runners@.len(),
            counted@ == counted_repositories(pool.scope@, repositories@),
            giving_way_from(
                runners@,
                pool.queue_scale_factor,
                counted@,
                capacities@,
                texts(providers@),
                i as int,
            ) == rebalanced(
                *pool,
                runners@,
                desired,
                repositories@,
                capacities@,
                texts(providers@),
            ),
        decreases runners@.len() - i,
    {
        if gives_way(&runners[i], pool.queue_scale_factor, counted, capacities, providers) {
            return Some(i);
        }
        i += 1;
    }
    None
}

// ---------------------------------------------------------------------------
// Filling and trimming

/// The number of runners that are started in this pass.
pub open spec fn to_start(active: nat, desired: int, is_blocked: bool) -> int {
    if !is_blocked && active < desired {
        desired - active
    } else {
        0
    }
}

/// The number of runners by which a pool exceeds what it wants.
pub open spec fn excess(active: nat, desired: int) -> int {
    if active > desired {
        active - desired
    } else {
        0
    }
}

/// The positions of the first idle runners that count for the pool, at most
/// `limit` of them, among the first `n`.
pub open spec fn idle_among(runners: Seq<Runner>, limit: int, n: int) -> Seq<int>
    decreases n,
{
    if n <= 0 {
        Seq::empty()
    } else {
        let before = idle_among(runners, limit, n - 1);
        if before.len() < limit && !runners[n - 1].busy && active(runners[n - 1].status@) {
            before.push(n - 1)
        } else {
            before
        }
    }
}

/// How many runners are started in this pass.
pub fn runners_to_start(active: usize, desired: i64, is_blocked: bool) -> (r: usize)
    requires
        0 <= desired <= usize::MAX,
    ensures
        r == to_start(active as nat, desired as int, is_blocked),
{
    let wanted: usize = desired as usize;
    if !is_blocked && active < wanted {
        wanted - active
    } else {
        0
    }
}

/// The runners that are removed in this pass: the first idle ones, as many as
/// there are too many.
pub fn runners_to_remove(runners: &[Runner], desired: i64) -> (r: Vec<usize>)
    requires
        0 <= desired <= usize::MAX,
    ensures
        positions(r@) == idle_among(
            runners@,
            excess(active_among(runners@, runners@.len() as int), desired as int),
            runners@.len() as int,
        ),
        r@.len() <= excess(active_among(runners@, runners@.len() as int), desired as int),
        forall|k: int|
            0 <= k < r@.len() ==> #[trigger] r@[k] < runners@.len() && !runners@[r@[k] as int].busy
                && active(runners@[r@[k] as int].status@),
{
    let running: usize = active_count(runners);
    let wanted: usize = desired as usize;
    let limit: usize = if running > wanted {
        running - wanted
    } else {
        0
    };
    let mut out: Vec<usize> = Vec::new();
    let mut i: usize = 0;
    proof {
        assert(positions(out@) =~= Seq::empty());
    }
    while i < runners.len()
        invariant
            i <= runners@.len(),
            positions(out@) == idle_among(runners@, limit as int, i as int),
            out@.len() <= limit,
            forall|k: int|
                0 <= k < out@.len() ==> #[trigger] out@[k] < runners@.len()
                    && !runners@[out@[k] as int].busy && active(runners@[out@[k] as int].status@),
        decreases runners@.len() - i,
    {
        let ghost before = positions(out@);
        proof {
            assert(before.len() == out@.len());
        }
        if out.len() < limit && !runners[i].busy && active_status(runners[i].status.as_str()) {
            out.push(i);
            proof {
                assert(positions(out@) =~= before.push(i as int));
            }
        }
        i += 1;
    }
    out
}

proof fn lemma_idle_count(runners: Seq<Runner>, limit: int, n: int)
    requires
        0 <= n <= runners.len(),
        0 <= limit,
    ensures
        idle_among(runners, limit, n).len() <= limit,
        idle_among(runners, limit, n).len() + busy_among(runners, n) <= active_among(runners, n),
        idle_among(runners, limit, n).len() == limit || idle_among(runners, limit, n).len()
            + busy_among(runners, n) == active_among(runners, n),
    decreases n,
{
    if n > 0 {
        lemma_idle_count(runners, limit, n - 1);
    }
}

/// Starting what is missing brings an unblocked pool to exactly the number that
/// is wanted, and removing what is too many never takes it below that number and
/// leaves only busy runners above it.
pub proof fn a_pass_converges(runners: Seq<Runner>, desired: int, is_blocked: bool)
    requires
        desired >= 0,
    ensures
        ({
            let n = runners.len() as int;
            let running = active_among(runners, n);
            let removed = idle_among(runners, excess(running, desired), n).len();
            &&& !is_blocked && running < desired ==> running + to_start(running, desired, is_blocked)
                == desired
            &&& is_blocked ==> to_start(running, desired, is_blocked) == 0
            &&& running - removed >= smaller(running as int, desired)
            &&& running > desired ==> running - removed == desired || running - removed
                == busy_among(runners, n)
        }),
{
    let n = runners.len() as int;
    let running = active_among(runners, n);
    lemma_idle_count(runners, excess(running, desired), n);
}

/// The state of a pool after a pass.
pub open spec fn pool_state(
    pool: Pool,
    provisioning_paused: bool,
    capacity_deferred: bool,
    retry_is_deferred: bool,
    outdated: nat,
    active: nat,
    desired: int,
) -> Seq<char> {
    if pool.paused {
        "paused"@
    } else if provisioning_paused {
        "provisioning-paused"@
    } else if pool.provision_circuit_open {
        "blocked"@
    } else if capacity_deferred || (retry_is_deferred && pool.provision_failure_count == 0) {
        "waiting"@
    } else if retry_is_deferred {
        "backoff"@
    } else if outdated > 0 {
        "updating"@
    } else if active > desired {
        "draining"@
    } else {
        "active"@
    }
}

/// The state of a pool after a pass.
pub fn state_after_pass(
    pool: &Pool,
    provisioning_paused: bool,
    capacity_deferred: bool,
    retry_is_deferred: bool,
    outdated: usize,
    active: usize,
    desired: i64,
) -> (r: &'static str)
    requires
        0 <= desired <= usize::MAX,
    ensures
        r@ == pool_state(
            *pool,
            provisioning_paused,
            capacity_deferred,
            retry_is_deferred,
            outdated as nat,
            active as nat,
            desired as int,
        ),
{
    if pool.paused {
        "paused"
    } else if provisioning_paused {
        "provisioning-paused"
    } else if pool.provision_circuit_open {
        "blocked"
    } else if capacity_deferred || (retry_is_deferred && pool.provision_failure_count == 0) {
        "waiting"
    } else if retry_is_deferred {
        "backoff"
    } else if outdated > 0 {
        "updating"
    } else if active > desired as usize {
        "draining"
    } else {
        "active"
    }
}

/// The message about a pass that changed something; nothing where it changed
/// nothing.
pub fn pass_message(
    provisioned: usize,
    removed: usize,
    rotated: usize,
    rebalanced: usize,
    active: usize,
) -> (r: Option<String>)
    ensures
        text_option(r) == if provisioned > 0 || removed > 0 || rotated > 0 || rebalanced > 0 {
            Some(
                "Provisioned "@ + decimal(provisioned as nat) + ", removed "@ + decimal(
                    removed as nat,
                ) + ", rotated "@ + decimal(rotated as nat) + ", rebalanced "@ + decimal(
                    rebalanced as nat,
                ) + ", active "@ + decimal(active as nat),
            )
        } else {
            None
        },
{
    if provisioned == 0 && removed == 0 && rotated == 0 && rebalanced == 0 {
        return None;
    }
    let mut message: String = concat4(
        "Provisioned ",
        decimal_usize(provisioned).as_str(),
        ", removed ",
        decimal_usize(removed).as_str(),
    );
    message.append(", rotated ");
    message.append(decimal_usize(rotated).as_str());
    message.append(", rebalanced ");
    message.append(decimal_usize(rebalanced).as_str());
    message.append(", active ");
    message.append(decimal_usize(active).as_str());
    Some(message)
}

// ---------------------------------------------------------------------------
// Delays after failures

/// Two to the power of `n`.
pub open spec fn doublings(n: int) -> int
    decreases n,
{
    if n <= 0 {
        1
    } else {
        2 * doublings(n - 1)
    }
}

/// A number of tries as an exponent: one less, at least zero, at most `limit`.
pub open spec fn exponent(attempts: i64, limit: int) -> int {
    clamped(saturated(attempts - 1), 0, limit)
}

/// The delay before a removal at GitHub is tried again: half a minute, doubled
/// with each try, at most an hour.
pub open spec fn cleanup_delay(attempts: i64) -> int {
    smaller(30_000 * doublings(exponent(attempts, 7)), 3_600_000)
}

/// The delay before a failed start is tried again: half a minute, doubled with
/// each failure, at most ten times.
pub open spec fn provision_delay(attempts: i64) -> int {
    30_000 * doublings(exponent(attempts, 10))
}

fn power_of_two(n: i64) -> (r: i64)
    requires
        0 <= n <= 20,
    ensures
        r == doublings(n as int),
        1 <= r <= 1_048_576,
{
    let mut value: i64 = 1;
    let mut i: i64 = 0;
    proof {
        lemma_doublings_bound(20);
        lemma_doublings_grow(n as int, 20);
    }
    while i < n
        invariant
            0 <= i <= n <= 20,
            value == doublings(i as int),
            1 <= value <= 1_048_576,
            doublings(20) == 1_048_576,
        decreases n - i,
    {
        proof {
            lemma_doublings_grow(i + 1, 20);
        }
        value = 2 * value;
        i += 1;
    }
    value
}

proof fn lemma_doublings_grow(a: int, b: int)
    requires
        a <= b,
    ensures
        1 <= doublings(a) <= doublings(b),
    decreases b,
{
    if b > 0 {
        if a < b {
            lemma_doublings_grow(a, b - 1);
        } else {
            lemma_doublings_grow(a - 1, b - 1);
        }
    }
}

proof fn lemma_doublings_bound(n: int)
    requires
        n == 20,
    ensures
        doublings(n) == 1_048_576,
{
    reveal_with_fuel(doublings, 22);
}

/// The delay before a removal at GitHub is tried again.
pub fn github_cleanup_backoff_ms(attempts: i64) -> (r: i64)
    ensures
        r == cleanup_delay(attempts),
{
    let exponent: i64 = clamp(difference_saturated(attempts, 1), 0, 7);
    min(30_000 * power_of_two(exponent), 3_600_000)
}

/// The delay before a failed start is tried again.
pub fn provision_backoff_ms(attempts: i64) -> (r: i64)
    ensures
        r == provision_delay(attempts),
{
    let exponent: i64 = clamp(difference_saturated(attempts, 1), 0, 10);
    30_000 * power_of_two(exponent)
}

/// More tries never shorten a delay, and both delays stay between half a minute
/// and their limit.
pub proof fn delays_grow_and_are_bounded(attempts: i64, more: i64)
    requires
        attempts <= more,
    ensures
        30_000 <= cleanup_delay(attempts) <= cleanup_delay(more) <= 3_600_000,
        30_000 <= provision_delay(attempts) <= provision_delay(more) <= 30_720_000,
{
    lemma_doublings_grow(exponent(attempts, 7), exponent(more, 7));
    lemma_doublings_grow(exponent(attempts, 10), exponent(more, 10));
    lemma_doublings_grow(exponent(more, 10), 10);
    assert(doublings(10) == 1_024) by {
        reveal_with_fuel(doublings, 12);
    }
}

/// What is kept of a pool after a failed start.
#[derive(Debug, Clone, Copy, PartialEq, Eq, Structural)]
pub struct FailureRecord {
    pub attempts: i64,
    pub retry_at: Option<i64>,
    pub circuit_open: bool,
}

impl FailureRecord {
    /// The state of the pool.
    pub fn state(&self) -> (r: &'static str)
        ensures
            r@ == if self.circuit_open {
                "blocked"@
            } else {
                "backoff"@
            },
    {
        if self.circuit_open {
            "blocked"
        } else {
            "backoff"
        }
    }
}

/// What is kept of a pool after one more failed start: after the third failure
/// in a row nothing is tried again until someone asks for it.
pub open spec fn failure_after(failures: i64, now: i64) -> FailureRecord {
    let attempts = saturated(failures + 1) as i64;
    FailureRecord {
        attempts,
        retry_at: if attempts >= 3 {
            None
        } else {
            Some(saturated(now + provision_delay(attempts)) as i64)
        },
        circuit_open: attempts >= 3,
    }
}

/// What is kept of a pool after one more failed start.
pub fn record_provision_failure(failures: i64, now: i64) -> (r: FailureRecord)
    ensures
        r == failure_after(failures, now),
{
    let attempts: i64 = sum_saturated(failures, 1);
    let circuit_open: bool = attempts >= 3;
    let retry_at: Option<i64> = if circuit_open {
        None
    } else {
        Some(sum_saturated(now, provision_backoff_ms(attempts)))
    };
    FailureRecord { attempts, retry_at, circuit_open }
}

/// The record of `n` failures in a row.
pub open spec fn failures_in_a_row(now: i64, n: int) -> FailureRecord
    decreases n,
{
    if n <= 0 {
        FailureRecord { attempts: 0, retry_at: None, circuit_open: false }
    } else {
        failure_after(failures_in_a_row(now, n - 1).attempts, now)
    }
}

/// Two failures in a row delay the next start; the third opens the circuit.
pub proof fn the_third_failure_opens_the_circuit(now: i64)
    requires
        now <= i64::MAX - 60_000,
    ensures
        !failures_in_a_row(now, 1).circuit_open,
        failures_in_a_row(now, 1).retry_at == Some((now + 30_000) as i64),
        !failures_in_a_row(now, 2).circuit_open,
        failures_in_a_row(now, 2).retry_at == Some((now + 60_000) as i64),
        failures_in_a_row(now, 3).circuit_open,
        failures_in_a_row(now, 3).retry_at is None,
{
    reveal_with_fuel(failures_in_a_row, 4);
    reveal_with_fuel(doublings, 3);
}

/// What is kept of a removal at GitHub that failed.
#[derive(Debug, Clone, Copy, PartialEq, Eq, Structural)]
pub struct CleanupRetry {
    pub attempts: i64,
    pub next_attempt_at: i64,
}

/// What is kept of a removal at GitHub that failed once more.
pub open spec fn cleanup_after(attempts: i64, now: i64) -> CleanupRetry {
    let tried = saturated(attempts + 1) as i64;
    CleanupRetry {
        attempts: tried,
        next_attempt_at: saturated(now + cleanup_delay(tried)) as i64,
    }
}

/// What is kept of a removal at GitHub that failed once more.
pub fn cleanup_retry(attempts: i64, now: i64) -> (r: CleanupRetry)
    ensures
        r == cleanup_after(attempts, now),
{
    let tried: i64 = sum_saturated(attempts, 1);
    CleanupRetry {
        attempts: tried,
        next_attempt_at: sum_saturated(now, github_cleanup_backoff_ms(tried)),
    }
}

// ---------------------------------------------------------------------------
// Answers of the manager

/// The message for an answer of the manager that is no success.
pub open spec fn manager_failure(
    status: u16,
    status_text: Seq<char>,
    code: Option<Seq<char>>,
    message: Option<Seq<char>>,
    body: Seq<char>,
) -> Seq<char> {
    if status == 404 {
        "runner manager object was not found"@
    } else {
        "runner manager request failed ("@ + status_text + ") ["@ + (match code {
            Some(code) => code,
            None => "manager_error"@,
        }) + "]: "@ + first_chars(
            match message {
                Some(message) => message,
                None => body,
            },
            500,
        )
    }
}

/// The message for an answer of the manager that is no success, with the code
/// and the message among the members of its body where it has them.
pub fn manager_failure_message(
    status: u16,
    status_text: &str,
    answer: &[Member],
    body: &str,
) -> (r: String)
    ensures
        r@ == manager_failure(
            status,
            status_text@,
            text_member(answer@, "code"@),
            text_member(answer@, "error"@),
            body@,
        ),
{
    if status == 404 {
        return "runner manager object was not found".to_owned();
    }
    let code: &str = match string(answer, "code") {
        Some(code) => code,
        None => "manager_error",
    };
    let detail: String = match string(answer, "error") {
        Some(message) => take_chars(message, 500),
        None => take_chars(body, 500),
    };
    let head: String = concat5(
        "runner manager request failed (",
        status_text,
        ") [",
        code,
        "]: ",
    );
    concat(head.as_str(), detail.as_str())
}

/// The message says that the host has no room now: the pool waits and is not
/// charged with a failure.
pub open spec fn defers(message: Seq<char>) -> bool {
    contains_text(message, "[host_capacity_exhausted]"@) || contains_text(
        message,
        "[host_disk_guardrail]"@,
    ) || contains_text(message, "[provisioning_paused]"@)
}

/// Whether the message says that the host has no room now.
pub fn deferred_manager_error(message: &str) -> (r: bool)
    ensures
        r == defers(message@),
{
    contains(message, "[host_capacity_exhausted]") || contains(message, "[host_disk_guardrail]")
        || contains(message, "[provisioning_paused]")
}

/// A refusal of the manager for want of room, of disk space, or because
/// provisioning is paused makes the pool wait.
pub proof fn guardrail_answers_make_the_pool_wait(
    status: u16,
    status_text: Seq<char>,
    code: Seq<char>,
    message: Option<Seq<char>>,
    body: Seq<char>,
)
    requires
        status != 404,
        code == "host_capacity_exhausted"@ || code == "host_disk_guardrail"@ || code
            == "provisioning_paused"@,
    ensures
        defers(manager_failure(status, status_text, Some(code), message, body)),
{
    let whole = manager_failure(status, status_text, Some(code), message, body);
    reveal_strlit(") [");
    reveal_strlit("]: ");
    reveal_strlit("host_capacity_exhausted");
    reveal_strlit("[host_capacity_exhausted]");
    reveal_strlit("host_disk_guardrail");
    reveal_strlit("[host_disk_guardrail]");
    reveal_strlit("provisioning_paused");
    reveal_strlit("[provisioning_paused]");
    let head = "runner manager request failed ("@ + status_text;
    let at = head.len() as int + 2;
    let bracketed = seq!['['] + code + seq![']'];
    assert(whole.subrange(at, at + bracketed.len()) =~= bracketed);
    if code == "host_capacity_exhausted"@ {
        assert(bracketed =~= "[host_capacity_exhausted]"@);
        assert(occurs_at(whole, "[host_capacity_exhausted]"@, at));
    } else if code == "host_disk_guardrail"@ {
        assert(bracketed =~= "[host_disk_guardrail]"@);
        assert(occurs_at(whole, "[host_disk_guardrail]"@, at));
    } else {
        assert(bracketed =~= "[provisioning_paused]"@);
        assert(occurs_at(whole, "[provisioning_paused]"@, at));
    }
}

/// What became of a request for capacity.
#[derive(Debug)]
pub enum CapacityAdmission {
    Granted(String),
    Deferred(Option<String>),
    Failed(String),
}

/// What became of a request for capacity: the lease among the members of the answer,
/// or the error.
pub fn capacity_admission(answer: Result<Vec<Member>, String>) -> (r: CapacityAdmission)
    ensures
        match answer {
            Ok(answer) => match text_member(answer@, "leaseId"@) {
                Some(lease) => r is Granted && r->Granted_0@ == lease,
                None => r == CapacityAdmission::Deferred(None),
            },
            Err(message) => if defers(message@) {
                r == CapacityAdmission::Deferred(Some(message))
            } else {
                r == CapacityAdmission::Failed(message)
            },
        },
{
    match answer {
        Ok(answer) => match string(answer.as_slice(), "leaseId") {
            Some(lease) => CapacityAdmission::Granted(lease.to_owned()),
            None => CapacityAdmission::Deferred(None),
        },
        Err(message) => if deferred_manager_error(message.as_str()) {
            CapacityAdmission::Deferred(Some(message))
        } else {
            CapacityAdmission::Failed(message)
        },
    }
}

/// What is told of a pool that waits for capacity.
pub const WAITING_MESSAGE: &'static str =
    "The runner host has no safe capacity available; GridOps will retry without exceeding host limits.";

/// What is told of a pool that has given up starting runners.
pub const CIRCUIT_MESSAGE: &'static str =
    "GridOps stopped provisioning this pool after three consecutive failures. Retry the pool after correcting the cause.";

/// A wait for capacity: until when, whether it is reported, and why.
#[derive(Debug)]
pub struct CapacityWait {
    pub retry_at: i64,
    pub report: bool,
    pub reason: Option<String>,
}

/// When a pool is tried again that waits for capacity.
pub open spec fn wait_end(now: i64) -> int {
    saturated(now + 30_000)
}

/// A wait for capacity is reported: when it begins.
pub open spec fn wait_reported(state: Seq<char>) -> bool {
    state != "waiting"@
}

/// A wait for capacity: half a minute, reported only when it begins.
pub fn defer_pool_capacity(pool: &Pool, reason: Option<String>, now: i64) -> (r: CapacityWait)
    ensures
        r.retry_at == wait_end(now),
        r.report == wait_reported(pool.state@),
        text_option(r.reason) == match reason {
            Some(text) => Some(first_chars(text@, 2_000)),
            None => None,
        },
{
    CapacityWait {
        retry_at: sum_saturated(now, 30_000),
        report: !same(pool.state.as_str(), "waiting"),
        reason: match reason {
            Some(text) => Some(take_chars(text.as_str(), 2_000)),
            None => None,
        },
    }
}

/// What is done after a start that failed.
#[derive(Debug)]
pub enum FailedStart {
    Wait(CapacityWait),
    Record(FailureRecord),
}

/// What is done after a start that failed: the pool waits where the host has no
/// room, and is charged with a failure otherwise.
pub fn after_failed_start(pool: &Pool, message: &str, now: i64) -> (r: FailedStart)
    ensures
        match r {
            FailedStart::Wait(wait) => defers(message@) && wait.retry_at == wait_end(now)
                && wait.report == wait_reported(pool.state@) && text_option(wait.reason) == Some(
                first_chars(first_chars(message@, 2_000), 2_000),
            ),
            FailedStart::Record(record) => !defers(message@) && record == failure_after(
                pool.provision_failure_count,
                now,
            ),
        },
{
    if deferred_manager_error(message) {
        FailedStart::Wait(defer_pool_capacity(pool, Some(take_chars(message, 2_000)), now))
    } else {
        FailedStart::Record(record_provision_failure(pool.provision_failure_count, now))
    }
}

// ---------------------------------------------------------------------------
// The course of a pass

/// What is done next in a pass over a pool.
#[derive(Debug, Clone, Copy, PartialEq, Eq, Structural)]
pub enum PassStep {
    /// Record what is observed of each runner.
    Observe,
    /// Remove the runners that have failed.
    RemoveFailed,
    /// Replace a runner with an older configuration.
    Rotate,
    /// Raise what is wanted.
    ScaleUp,
    /// Lower what is wanted.
    ScaleDown,
    /// Move a runner to where it is needed.
    Rebalance,
    /// Start or remove runners.
    Resize,
    /// Record the state of the pool.
    Record,
    /// The pass is over.
    Over,
}

/// The step after a step. While no runners are started, none is replaced or
/// moved, and what is wanted is not raised.
pub open spec fn pass_after(step: PassStep, is_blocked: bool) -> PassStep {
    match step {
        PassStep::Observe => PassStep::RemoveFailed,
        PassStep::RemoveFailed => if is_blocked {
            PassStep::ScaleDown
        } else {
            PassStep::Rotate
        },
        PassStep::Rotate => PassStep::ScaleUp,
        PassStep::ScaleUp => PassStep::ScaleDown,
        PassStep::ScaleDown => if is_blocked {
            PassStep::Resize
        } else {
            PassStep::Rebalance
        },
        PassStep::Rebalance => PassStep::Resize,
        PassStep::Resize => PassStep::Record,
        PassStep::Record => PassStep::Over,
        PassStep::Over => PassStep::Over,
    }
}

/// The step after a step.
pub fn next_pass_step(step: PassStep, is_blocked: bool) -> (r: PassStep)
    ensures
        r == pass_after(step, is_blocked),
{
    match step {
        PassStep::Observe => PassStep::RemoveFailed,
        PassStep::RemoveFailed => if is_blocked {
            PassStep::ScaleDown
        } else {
            PassStep::Rotate
        },
        PassStep::Rotate => PassStep::ScaleUp,
        PassStep::ScaleUp => PassStep::ScaleDown,
        PassStep::ScaleDown => if is_blocked {
            PassStep::Resize
        } else {
            PassStep::Rebalance
        },
        PassStep::Rebalance => PassStep::Resize,
        PassStep::Resize => PassStep::Record,
        PassStep::Record => PassStep::Over,
        PassStep::Over => PassStep::Over,
    }
}

/// The step that a pass takes at a position.
pub open spec fn pass_course(is_blocked: bool, n: nat) -> PassStep
    decreases n,
{
    if n == 0 {
        PassStep::Observe
    } else {
        pass_after(pass_course(is_blocked, (n - 1) as nat), is_blocked)
    }
}

/// A pass is over after at most eight steps, and while no runners are started it
/// replaces and moves none, and does not raise what is wanted.
pub proof fn passes_end_and_respect_blocks(n: nat)
    ensures
        n >= 8 ==> pass_course(false, n) == PassStep::Over,
        n >= 5 ==> pass_course(true, n) == PassStep::Over,
        pass_course(true, n) != PassStep::Rotate,
        pass_course(true, n) != PassStep::ScaleUp,
        pass_course(true, n) != PassStep::Rebalance,
    decreases n,
{
    reveal_with_fuel(pass_course, 10);
    if n > 0 {
        passes_end_and_respect_blocks((n - 1) as nat);
    }
}

/// The starts of a pass: how many are left, how many came about, and whether one
/// was deferred for want of capacity.
#[derive(Debug, Clone, Copy, PartialEq, Eq, Structural)]
pub struct StartBatch {
    pub left: usize,
    pub provisioned: usize,
    pub deferred: bool,
}

impl StartBatch {
    /// The starts of a pass.
    pub fn new(count: usize) -> (r: StartBatch)
        ensures
            r == (StartBatch { left: count, provisioned: 0, deferred: false }),
    {
        StartBatch { left: count, provisioned: 0, deferred: false }
    }

    /// The starts that are left after one that came about or was deferred. After
    /// one that was deferred, no other is tried.
    pub fn after(self, started: bool) -> (r: StartBatch)
        requires
            self.left > 0,
            self.left + self.provisioned <= usize::MAX,
        ensures
            started ==> r == (StartBatch {
                left: (self.left - 1) as usize,
                provisioned: (self.provisioned + 1) as usize,
                deferred: self.deferred,
            }),
            !started ==> r == (StartBatch { left: 0, deferred: true, ..self }),
            r.left + r.provisioned <= self.left + self.provisioned,
            r.left < self.left,
    {
        if started {
            StartBatch {
                left: self.left - 1,
                provisioned: self.provisioned + 1,
                deferred: self.deferred,
            }
        } else {
            StartBatch { left: 0, deferred: true, ..self }
        }
    }
}

// ---------------------------------------------------------------------------
// What a pass does to a pool

/// The last activity is that of one of the runners, and none was active later.
pub proof fn the_last_activity_is_the_latest(runners: Seq<Runner>, n: int)
    requires
        0 <= n <= runners.len(),
    ensures
        forall|i: int|
            0 <= i < n ==> (#[trigger] runners[i]).updated_at <= last_activity(runners, n),
        n > 0 ==> exists|i: int|
            0 <= i < n && (#[trigger] runners[i]).updated_at == last_activity(runners, n),
        n == 0 ==> last_activity(runners, n) == 0,
    decreases n,
{
    if n > 1 {
        the_last_activity_is_the_latest(runners, n - 1);
        if last_activity(runners, n) != runners[n - 1].updated_at {
            let i = choose|i: int|
                0 <= i < n - 1 && (#[trigger] runners[i]).updated_at == last_activity(
                    runners,
                    n - 1,
                );
            assert(runners[i].updated_at == last_activity(runners, n));
        }
    } else if n == 1 {
        assert(runners[0].updated_at == last_activity(runners, n));
    }
}

/// A pool goes back to its minimum exactly if it scales with the queue, is not paused,
/// wants more than its minimum, has no queued job and no busy runner, and every runner
/// has been quiet for the timeout.
pub proof fn a_pool_is_lowered_when_all_its_runners_are_quiet(
    pool: Pool,
    runners: Seq<Runner>,
    queued: i64,
    now: i64,
)
    requires
        i64::MIN <= pool.idle_timeout_minutes * 60_000 <= i64::MAX,
        forall|i: int|
            0 <= i < runners.len() ==> i64::MIN <= now - (#[trigger] runners[i]).updated_at
                <= i64::MAX,
    ensures
        lowered(pool, runners, queued, now) <==> {
            &&& pool.autoscaling_enabled
            &&& !pool.paused
            &&& pool.desired_count > pool.min_count
            &&& queued <= 0
            &&& forall|i: int|
                0 <= i < runners.len() ==> !(#[trigger] runners[i]).busy && now
                    - runners[i].updated_at >= pool.idle_timeout_minutes * 60_000
            &&& runners.len() == 0 ==> now >= pool.idle_timeout_minutes * 60_000
        },
{
    let n = runners.len() as int;
    the_last_activity_is_the_latest(runners, n);
    if n > 0 {
        let m = choose|i: int|
            0 <= i < n && (#[trigger] runners[i]).updated_at == last_activity(runners, n);
        assert(now - runners[m].updated_at == now - last_activity(runners, n));
        assert forall|i: int|
            0 <= i < n && lowered(pool, runners, queued, now) implies !(
        #[trigger] runners[i]).busy && now - runners[i].updated_at >= pool.idle_timeout_minutes
            * 60_000 by {
            assert(runners[i].updated_at <= last_activity(runners, n));
        }
    }
}

/// What the clock cannot count does not shorten the timeout: a pool is lowered only if
/// each of its runners has been quiet for as long as can be counted of it.
pub proof fn a_pool_with_a_recent_runner_is_kept(
    pool: Pool,
    runners: Seq<Runner>,
    queued: i64,
    now: i64,
    i: int,
)
    requires
        0 <= i < runners.len(),
        lowered(pool, runners, queued, now),
    ensures
        saturated(now - runners[i].updated_at) >= saturated(pool.idle_timeout_minutes * 60_000),
        !runners[i].busy,
        queued <= 0,
{
    the_last_activity_is_the_latest(runners, runners.len() as int);
    assert(runners[i].updated_at <= last_activity(runners, runners.len() as int));
}

/// The runners that count for their pool are those that start, wait, work, pause or were
/// stopped; the busy ones are those of them that work on a job; and a runner is outdated
/// if its configuration is older than the pool's.
pub proof fn runners_are_counted_by_their_state(runners: Seq<Runner>, version: i64)
    ensures
        active_among(runners, runners.len() as int) == runners.filter(
            |runner: Runner| runner_counts(runner.status@),
        ).len(),
        busy_among(runners, runners.len() as int) == runners.filter(
            |runner: Runner| runner.busy && runner_counts(runner.status@),
        ).len(),
        outdated_among(runners, version, runners.len() as int) == runners.filter(
            |runner: Runner| runner.configuration_version < version,
        ).len(),
    decreases runners.len(),
{
    reveal(Seq::filter);
    if runners.len() > 0 {
        let front = runners.drop_last();
        runners_are_counted_by_their_state(front, version);
        lemma_counts_prefix(front, runners, version, front.len() as int);
    }
}

proof fn lemma_counts_prefix(less: Seq<Runner>, more: Seq<Runner>, version: i64, n: int)
    requires
        less.is_prefix_of(more),
        n <= less.len(),
    ensures
        active_among(less, n) == active_among(more, n),
        busy_among(less, n) == busy_among(more, n),
        outdated_among(less, version, n) == outdated_among(more, version, n),
    decreases n,
{
    if n > 0 {
        assert(less[n - 1] == more[n - 1]);
        lemma_counts_prefix(less, more, version, n - 1);
    }
}

/// The runners that are removed as failed are those that have failed, all of them and no
/// other, in their order.
pub proof fn failed_runners_are_all_removed(runners: Seq<Runner>, n: int)
    requires
        0 <= n <= runners.len(),
    ensures
        forall|i: int|
            0 <= i < n ==> (failed_among(runners, n).contains(i) <==> (
            #[trigger] runners[i]).status@ == "failed"@),
        forall|k: int|
            0 <= k < failed_among(runners, n).len() ==> 0 <= #[trigger] failed_among(runners, n)[k]
                < n,
        forall|a: int, b: int|
            0 <= a < b < failed_among(runners, n).len() ==> #[trigger] failed_among(runners, n)[a]
                < #[trigger] failed_among(runners, n)[b],
    decreases n,
{
    if n > 0 {
        failed_runners_are_all_removed(runners, n - 1);
        let before = failed_among(runners, n - 1);
        let all = failed_among(runners, n);
        assert forall|i: int| 0 <= i < n implies (all.contains(i) <==> (
        #[trigger] runners[i]).status@ == "failed"@) by {
            if before.contains(i) {
                let m = choose|m: int| 0 <= m < before.len() && before[m] == i;
                assert(all[m] == i);
            }
            if all.contains(i) && i < n - 1 {
                let m = choose|m: int| 0 <= m < all.len() && all[m] == i;
                assert(before[m] == i);
            }
            if i == n - 1 && runners[i].status@ == "failed"@ {
                assert(all[all.len() - 1] == i);
            }
        }
    }
}

/// Nothing is started for a pool exactly while all provisioning is paused, while its
/// circuit is open, or until the instant of its next try.
pub proof fn pools_wait_until_their_next_try(pool: Pool, provisioning_paused: bool, now: i64)
    ensures
        provisioning_paused ==> blocked(pool, provisioning_paused, now),
        pool.provision_circuit_open ==> blocked(pool, provisioning_paused, now),
        pool.provision_retry_at is Some && now < pool.provision_retry_at->0 ==> blocked(
            pool,
            provisioning_paused,
            now,
        ),
        !provisioning_paused && !pool.provision_circuit_open && (pool.provision_retry_at is None
            || pool.provision_retry_at->0 <= now) ==> !blocked(pool, provisioning_paused, now),
{
}

/// The runner that is replaced is idle and has an older configuration than its pool, and
/// no runner before it is so; none is replaced only where there is no such runner.
pub proof fn the_first_idle_outdated_runner_is_replaced(
    runners: Seq<Runner>,
    version: i64,
    from: int,
)
    requires
        0 <= from <= runners.len(),
    ensures
        match stale_from(runners, version, from) {
            Some(k) => {
                &&& from <= k < runners.len()
                &&& !runners[k].busy
                &&& runners[k].configuration_version < version
                &&& forall|i: int|
                    from <= i < k ==> (#[trigger] runners[i]).busy
                        || runners[i].configuration_version >= version
            },
            None => forall|i: int|
                from <= i < runners.len() ==> (#[trigger] runners[i]).busy
                    || runners[i].configuration_version >= version,
        },
    decreases runners.len() - from,
{
    if from < runners.len() {
        the_first_idle_outdated_runner_is_replaced(runners, version, from + 1);
    }
}

/// The missing runners of repositories are counted one repository after the other: one
/// that lacks none adds none, and one that lacks some adds as many as it lacks, as far as
/// that can be counted.
pub proof fn missing_runners_add_up(
    repositories: Seq<RepositoryCapacity>,
    providers: Seq<ProviderCapacity>,
    factor: i64,
    n: int,
)
    requires
        0 < n,
    ensures
        n <= repositories.len() ==> {
            let here = repositories[n - 1];
            let lacks = deficit(here.busy, here.queued, here.active, factor);
            let before = repositories_missing(repositories, factor, n - 1);
            let after = repositories_missing(repositories, factor, n);
            &&& 0 <= before <= after <= i64::MAX
            &&& lacks <= 0 ==> after == before
            &&& lacks > 0 && before + lacks <= i64::MAX ==> after == before + lacks
            &&& lacks > 0 && before + lacks > i64::MAX ==> after == i64::MAX
        },
        n <= providers.len() ==> {
            let here = providers[n - 1];
            let lacks = deficit(here.busy, here.queued, here.active, factor);
            let before = providers_missing(providers, factor, n - 1);
            let after = providers_missing(providers, factor, n);
            &&& 0 <= before <= after <= i64::MAX
            &&& lacks <= 0 ==> after == before
            &&& lacks > 0 && before + lacks <= i64::MAX ==> after == before + lacks
            &&& lacks > 0 && before + lacks > i64::MAX ==> after == i64::MAX
        },
        repositories_missing(repositories, factor, 0) == 0,
        providers_missing(providers, factor, 0) == 0,
    decreases n,
{
    if n > 1 {
        missing_runners_add_up(repositories, providers, factor, n - 1);
    }
}

/// A pool is raised exactly if it scales with the queue, is not paused, has queued jobs,
/// and these ask for more than it wants: for all of them together as many as are busy and
/// as the factor says for each queued one, and for each repository and each provider, on
/// top of what counts already, as many as it lacks. It is raised to the most that one of
/// these asks for, or to its maximum where that is less.
pub proof fn a_pool_is_raised_to_what_its_queue_asks_for(
    pool: Pool,
    runners: Seq<Runner>,
    queued: i64,
    repositories: Seq<RepositoryCapacity>,
    providers: Seq<ProviderCapacity>,
)
    requires
        runners.len() <= i64::MAX,
        queued * pool.queue_scale_factor <= i64::MAX - runners.len(),
        queued * pool.queue_scale_factor >= i64::MIN,
        runners.len() + repositories_missing(
            repositories,
            pool.queue_scale_factor,
            repositories.len() as int,
        ) <= i64::MAX,
        runners.len() + providers_missing(
            providers,
            pool.queue_scale_factor,
            providers.len() as int,
        ) <= i64::MAX,
    ensures
        ({
            let busy = runners.filter(
                |runner: Runner| runner.busy && runner_counts(runner.status@),
            ).len();
            let running = runners.filter(|runner: Runner| runner_counts(runner.status@)).len();
            let together = busy + queued * pool.queue_scale_factor;
            let placed = running + if pool.scope@ == "repository"@ {
                repositories_missing(
                    repositories,
                    pool.queue_scale_factor,
                    repositories.len() as int,
                )
            } else {
                0
            };
            let provided = running + providers_missing(
                providers,
                pool.queue_scale_factor,
                providers.len() as int,
            );
            let more = (together > pool.desired_count || placed > pool.desired_count || provided
                > pool.desired_count) && pool.max_count > pool.desired_count;
            match raised(pool, runners, queued, repositories, providers) {
                Some(wanted) => {
                    &&& pool.autoscaling_enabled && !pool.paused && queued != 0 && more
                    &&& wanted <= pool.max_count
                    &&& wanted == pool.max_count || (wanted >= together && wanted >= placed
                        && wanted >= provided)
                    &&& wanted == together || wanted == placed || wanted == provided || (wanted
                        == pool.max_count && (together > pool.max_count || placed > pool.max_count
                        || provided > pool.max_count))
                },
                None => !pool.autoscaling_enabled || pool.paused || queued == 0 || !more,
            }
        }),
{
    runners_are_counted_by_their_state(runners, 0);
    let counted = |runner: Runner| runner_counts(runner.status@);
    let working = |runner: Runner| runner.busy && runner_counts(runner.status@);
    runners.lemma_filter_len(counted);
    runners.lemma_filter_len(working);
    lemma_missing_range(repositories, providers, pool.queue_scale_factor);
}

proof fn lemma_missing_range(
    repositories: Seq<RepositoryCapacity>,
    providers: Seq<ProviderCapacity>,
    factor: i64,
)
    ensures
        0 <= repositories_missing(repositories, factor, repositories.len() as int) <= i64::MAX,
        0 <= providers_missing(providers, factor, providers.len() as int) <= i64::MAX,
{
    if repositories.len() > 0 {
        missing_runners_add_up(repositories, providers, factor, repositories.len() as int);
    }
    if providers.len() > 0 {
        missing_runners_add_up(repositories, providers, factor, providers.len() as int);
    }
}

/// A paused pool is to have no runners; another one has what is wanted, but not less than
/// its minimum and not more than its maximum.
pub proof fn pools_stay_between_their_bounds(pool: Pool, desired: i64)
    requires
        pool.min_count <= pool.max_count,
    ensures
        pool.paused ==> wanted_now(pool, desired) == 0,
        !pool.paused ==> pool.min_count <= wanted_now(pool, desired) <= pool.max_count,
        !pool.paused && pool.min_count <= desired <= pool.max_count ==> wanted_now(pool, desired)
            == desired,
        !pool.paused && desired < pool.min_count ==> wanted_now(pool, desired) == pool.min_count,
        !pool.paused && desired > pool.max_count ==> wanted_now(pool, desired) == pool.max_count,
{
}

/// A runner gives way only in a pool that is not paused, has all the runners that it wants,
/// and lacks one for a repository or a provider. It is idle and counts, and its provider
/// has too many runners or is none of the pool's, or its repository has too many or is none
/// of the pool's. No runner before it could have given way.
pub proof fn only_runners_that_are_not_needed_give_way(
    pool: Pool,
    runners: Seq<Runner>,
    desired: i64,
    repositories: Seq<RepositoryCapacity>,
    capacities: Seq<ProviderCapacity>,
    providers: Seq<Seq<char>>,
)
    requires
        rebalanced(pool, runners, desired, repositories, capacities, providers) is Some,
    ensures
        ({
            let k = rebalanced(pool, runners, desired, repositories, capacities, providers)->0;
            let factor = pool.queue_scale_factor;
            let own = runners[k].target_repository_id;
            &&& 0 <= k < runners.len()
            &&& !pool.paused
            &&& 0 <= desired <= runners.filter(
                |runner: Runner| runner_counts(runner.status@),
            ).len()
            &&& {
                ||| pool.scope@ == "repository"@ && exists|i: int|
                    0 <= i < repositories.len() && deficit(
                        (#[trigger] repositories[i]).busy,
                        repositories[i].queued,
                        repositories[i].active,
                        factor,
                    ) > 0
                ||| exists|i: int|
                    0 <= i < capacities.len() && deficit(
                        (#[trigger] capacities[i]).busy,
                        capacities[i].queued,
                        capacities[i].active,
                        factor,
                    ) > 0
            }
            &&& !runners[k].busy
            &&& runner_counts(runners[k].status@)
            &&& {
                ||| exists|i: int|
                    0 <= i < capacities.len() && (#[trigger] capacities[i]).provider@
                        == runners[k].provider@ && surplus(
                        capacities[i].busy,
                        capacities[i].queued,
                        capacities[i].active,
                        factor,
                    )
                ||| !providers.contains(runners[k].provider@)
                ||| own is Some && pool.scope@ == "repository"@ && exists|i: int|
                    0 <= i < repositories.len() && (#[trigger] repositories[i]).repository_id
                        == own->0 && surplus(
                        repositories[i].busy,
                        repositories[i].queued,
                        repositories[i].active,
                        factor,
                    )
                ||| own is Some && (pool.scope@ != "repository"@ || forall|i: int|
                    0 <= i < repositories.len() ==> (#[trigger] repositories[i]).repository_id
                        != own->0)
            }
            &&& forall|i: int|
                0 <= i < k ==> (#[trigger] runners[i]).busy || !runner_counts(runners[i].status@)
                    || (!provider_surplus(capacities, factor, runners[i].provider@)
                    && providers.contains(runners[i].provider@))
        }),
{
    let counted = counted_repositories(pool.scope@, repositories);
    let k = rebalanced(pool, runners, desired, repositories, capacities, providers)->0;
    lemma_first_giving_way(
        runners,
        pool.queue_scale_factor,
        counted,
        capacities,
        providers,
        0,
    );
    runners_are_counted_by_their_state(runners, 0);
}

proof fn lemma_first_giving_way(
    runners: Seq<Runner>,
    factor: i64,
    repositories: Seq<RepositoryCapacity>,
    capacities: Seq<ProviderCapacity>,
    providers: Seq<Seq<char>>,
    from: int,
)
    requires
        0 <= from,
    ensures
        match giving_way_from(runners, factor, repositories, capacities, providers, from) {
            Some(k) => from <= k < runners.len() && can_give_way(
                runners[k],
                factor,
                repositories,
                capacities,
                providers,
            ) && forall|i: int|
                from <= i < k ==> !can_give_way(
                    #[trigger] runners[i],
                    factor,
                    repositories,
                    capacities,
                    providers,
                ),
            None => forall|i: int|
                from <= i < runners.len() ==> !can_give_way(
                    #[trigger] runners[i],
                    factor,
                    repositories,
                    capacities,
                    providers,
                ),
        },
    decreases runners.len() - from,
{
    if from < runners.len() {
        lemma_first_giving_way(runners, factor, repositories, capacities, providers, from + 1);
    }
}

/// Where a provider lacks a runner, an idle runner of a provider that has too many gives
/// way, or one before it does.
pub proof fn an_idle_runner_gives_way_to_need(
    pool: Pool,
    runners: Seq<Runner>,
    desired: i64,
    repositories: Seq<RepositoryCapacity>,
    capacities: Seq<ProviderCapacity>,
    providers: Seq<Seq<char>>,
    needy: int,
    rich: int,
    i: int,
)
    requires
        !pool.paused,
        0 <= desired <= active_among(runners, runners.len() as int),
        0 <= needy < capacities.len(),
        0 <= rich < capacities.len(),
        0 <= i < runners.len(),
        deficit(
            capacities[needy].busy,
            capacities[needy].queued,
            capacities[needy].active,
            pool.queue_scale_factor,
        ) > 0,
        surplus(
            capacities[rich].busy,
            capacities[rich].queued,
            capacities[rich].active,
            pool.queue_scale_factor,
        ),
        runners[i].provider@ == capacities[rich].provider@,
        !runners[i].busy,
        runner_counts(runners[i].status@),
    ensures
        rebalanced(pool, runners, desired, repositories, capacities, providers) is Some,
        0 <= rebalanced(pool, runners, desired, repositories, capacities, providers)->0 <= i,
{
    let counted = counted_repositories(pool.scope@, repositories);
    let factor = pool.queue_scale_factor;
    assert(some_provider_lacks(capacities, factor));
    assert(provider_surplus(capacities, factor, runners[i].provider@));
    assert(can_give_way(runners[i], factor, counted, capacities, providers));
    lemma_first_giving_way(runners, factor, counted, capacities, providers, 0);
}

/// A pass starts runners only where some are missing, and removes only idle runners that
/// count, the first ones, no more than there are too many, and all of the idle ones where
/// these are fewer than that.
pub proof fn passes_remove_the_first_idle_runners(runners: Seq<Runner>, limit: int, n: int)
    requires
        0 <= n <= runners.len(),
        0 <= limit,
    ensures
        ({
            let removed = idle_among(runners, limit, n);
            &&& removed.len() <= limit
            &&& forall|k: int|
                0 <= k < removed.len() ==> 0 <= #[trigger] removed[k] < n
                    && !runners[removed[k]].busy && runner_counts(runners[removed[k]].status@)
            &&& forall|a: int, b: int|
                0 <= a < b < removed.len() ==> #[trigger] removed[a] < #[trigger] removed[b]
            &&& forall|i: int|
                0 <= i < n && !(#[trigger] runners[i]).busy && runner_counts(runners[i].status@)
                    && !removed.contains(i) ==> removed.len() == limit && forall|k: int|
                    0 <= k < removed.len() ==> #[trigger] removed[k] < i
        }),
    decreases n,
{
    if n > 0 {
        passes_remove_the_first_idle_runners(runners, limit, n - 1);
        let before = idle_among(runners, limit, n - 1);
        let removed = idle_among(runners, limit, n);
        assert forall|i: int|
            0 <= i < n && !(#[trigger] runners[i]).busy && runner_counts(runners[i].status@)
                && !removed.contains(i) implies removed.len() == limit && (forall|k: int|
            0 <= k < removed.len() ==> #[trigger] removed[k] < i) by {
            if i == n - 1 {
                if before.len() < limit {
                    assert(removed[removed.len() - 1] == i);
                }
            } else {
                if before.contains(i) {
                    let m = choose|m: int| 0 <= m < before.len() && before[m] == i;
                    assert(removed[m] == i);
                }
            }
        }
    }
}

/// A pool that has as many runners as it wants starts none, and has none too many; a
/// blocked one starts none.
pub proof fn pools_of_the_right_size_are_left_alone(active: nat, desired: int, is_blocked: bool)
    ensures
        active >= desired ==> to_start(active, desired, is_blocked) == 0,
        active <= desired ==> excess(active, desired) == 0,
        is_blocked ==> to_start(active, desired, is_blocked) == 0,
        !is_blocked && active < desired ==> to_start(active, desired, is_blocked) == desired
            - active,
        active > desired ==> excess(active, desired) == active - desired,
{
}

/// The state of a pool after a pass names the first of these that holds: the pool is
/// paused, all provisioning is paused, its circuit is open, it waits for room on the host,
/// it waits after a failure, some of its runners are outdated, it has too many.
pub proof fn pool_states_name_what_holds_a_pool_back(
    pool: Pool,
    provisioning_paused: bool,
    capacity_deferred: bool,
    retry_is_deferred: bool,
    outdated: nat,
    active: nat,
    desired: int,
)
    ensures
        ({
            let state = pool_state(
                pool,
                provisioning_paused,
                capacity_deferred,
                retry_is_deferred,
                outdated,
                active,
                desired,
            );
            let runs = !pool.paused && !provisioning_paused && !pool.provision_circuit_open;
            &&& pool.paused ==> state == "paused"@
            &&& !pool.paused && provisioning_paused ==> state == "provisioning-paused"@
            &&& !pool.paused && !provisioning_paused && pool.provision_circuit_open ==> state
                == "blocked"@
            &&& runs && capacity_deferred ==> state == "waiting"@
            &&& runs && retry_is_deferred && pool.provision_failure_count == 0 ==> state
                == "waiting"@
            &&& runs && !capacity_deferred && retry_is_deferred && pool.provision_failure_count
                != 0 ==> state == "backoff"@
            &&& runs && !capacity_deferred && !retry_is_deferred && outdated > 0 ==> state
                == "updating"@
            &&& runs && !capacity_deferred && !retry_is_deferred && outdated == 0 && active
                > desired ==> state == "draining"@
            &&& runs && !capacity_deferred && !retry_is_deferred && outdated == 0 && active
                <= desired ==> state == "active"@
        }),
{
}

/// A runner is what its container is: it works or waits while the container runs, pauses
/// with it, and has failed when it is gone; when it has ended, the runner has failed unless
/// it was stopped before.
pub proof fn runners_are_what_their_containers_are(busy: bool, current: Seq<char>)
    ensures
        observed(None, busy, current) == "failed"@,
        observed(Some("missing"@), busy, current) == "failed"@,
        observed(Some("running"@), true, current) == "busy"@,
        observed(Some("running"@), false, current) == "online"@,
        observed(Some("paused"@), busy, current) == "paused"@,
        observed(Some("exited"@), busy, "stopped"@) == "stopped"@,
        observed(Some("dead"@), busy, "stopped"@) == "stopped"@,
        current != "stopped"@ ==> observed(Some("exited"@), busy, current) == "failed"@,
        current != "stopped"@ ==> observed(Some("dead"@), busy, current) == "failed"@,
        observed(Some("created"@), busy, current) == "created"@,
        observed(Some("restarting"@), busy, current) == "restarting"@,
{
    reveal_strlit("missing");
    reveal_strlit("running");
    reveal_strlit("paused");
    reveal_strlit("exited");
    reveal_strlit("dead");
    reveal_strlit("created");
    reveal_strlit("restarting");
    assert("missing"@[0] == 'm' && "running"@[0] == 'r' && "running"@[1] == 'u' && "paused"@[0]
        == 'p' && "exited"@[0] == 'e' && "dead"@[0] == 'd' && "created"@[0] == 'c'
        && "restarting"@[0] == 'r' && "restarting"@[1] == 'e');
}

/// The first failure is followed by half a minute, and each further one by twice as long,
/// until the delay no longer grows: after ten doublings for starts, at an hour for removals
/// at GitHub.
pub proof fn delays_double(attempts: i64)
    requires
        attempts < i64::MAX,
    ensures
        attempts <= 1 ==> provision_delay(attempts) == 30_000 && cleanup_delay(attempts) == 30_000,
        1 <= attempts <= 10 ==> provision_delay((attempts + 1) as i64) == 2 * provision_delay(
            attempts,
        ),
        attempts >= 11 ==> provision_delay(attempts) == 30_720_000,
        1 <= attempts <= 6 ==> cleanup_delay((attempts + 1) as i64) == 2 * cleanup_delay(attempts),
        attempts >= 8 ==> cleanup_delay(attempts) == 3_600_000,
{
    reveal_with_fuel(doublings, 12);
}

/// Each failed start counts as one more. While there are fewer than three the pool is tried
/// again after a delay, and from the third on it is not tried again.
pub proof fn failures_are_counted_up_to_the_third(failures: i64, now: i64)
    requires
        0 <= failures < i64::MAX,
        now <= i64::MAX - 60_000,
    ensures
        ({
            let record = failure_after(failures, now);
            &&& record.attempts == failures + 1
            &&& record.circuit_open <==> failures + 1 >= 3
            &&& record.retry_at is Some <==> failures + 1 < 3
            &&& failures == 0 ==> record.retry_at == Some((now + 30_000) as i64)
            &&& failures == 1 ==> record.retry_at == Some((now + 60_000) as i64)
        }),
{
    reveal_with_fuel(doublings, 12);
}

/// A message for an answer of the manager holds the status and the code of the answer, and
/// its message, or its body where it has none.
pub proof fn failures_of_the_manager_are_told(
    status: u16,
    status_text: Seq<char>,
    code: Option<Seq<char>>,
    message: Option<Seq<char>>,
    body: Seq<char>,
)
    ensures
        status == 404 ==> manager_failure(status, status_text, code, message, body)
            == "runner manager object was not found"@,
        status != 404 && code is Some && message is Some && message->0.len() <= 500
            ==> manager_failure(status, status_text, code, message, body)
            == "runner manager request failed ("@ + status_text + ") ["@ + code->0 + "]: "@
            + message->0,
        status != 404 && code is None && message is None && body.len() <= 500 ==> manager_failure(
            status,
            status_text,
            code,
            message,
            body,
        ) == "runner manager request failed ("@ + status_text + ") [manager_error]: "@ + body,
{
    reveal_strlit(") [");
    reveal_strlit("]: ");
    reveal_strlit("manager_error");
    reveal_strlit(") [manager_error]: ");
    if message is Some && message->0.len() <= 500 {
        assert(first_chars(message->0, 500) =~= message->0);
    }
    if body.len() <= 500 {
        assert(first_chars(body, 500) =~= body);
    }
    assert("runner manager request failed ("@ + status_text + ") ["@ + "manager_error"@ + "]: "@
        + body =~= "runner manager request failed ("@ + status_text + ") [manager_error]: "@
        + body);
}

/// A pool that waits for capacity is tried again after half a minute, and its wait is reported
/// once. A removal at GitHub that failed counts as one more try, and the next one follows after
/// half a minute at first, and never later than after an hour.
pub proof fn waits_end(now: i64, attempts: i64, state: Seq<char>)
    requires
        now <= i64::MAX - 3_600_000,
        0 <= attempts < i64::MAX,
    ensures
        wait_end(now) == now + 30_000,
        wait_reported(state) <==> state != "waiting"@,
        cleanup_after(attempts, now).attempts == attempts + 1,
        cleanup_after(0, now).next_attempt_at == now + 30_000,
        now + 30_000 <= cleanup_after(attempts, now).next_attempt_at <= now + 3_600_000,
        attempts >= 7 ==> cleanup_after(attempts, now).next_attempt_at == now + 3_600_000,
{
    delays_grow_and_are_bounded((attempts + 1) as i64, (attempts + 1) as i64);
    delays_double(1);
    if attempts + 1 < i64::MAX {
        delays_double((attempts + 1) as i64);
    } else {
        reveal_with_fuel(doublings, 12);
    }
}

/// A message makes the pool wait exactly if it holds one of the three codes in brackets.
pub proof fn only_guardrails_make_a_pool_wait(message: Seq<char>)
    ensures
        defers(message) <==> contains_text(message, "[host_capacity_exhausted]"@) || contains_text(
            message,
            "[host_disk_guardrail]"@,
        ) || contains_text(message, "[provisioning_paused]"@),
        !defers("runner manager object was not found"@),
        message.len() < 21 ==> !defers(message),
{
    reveal_strlit("[host_capacity_exhausted]");
    reveal_strlit("[host_disk_guardrail]");
    reveal_strlit("[provisioning_paused]");
    reveal_strlit("runner manager object was not found");
    let told = "runner manager object was not found"@;
    assert forall|i: int| #![trigger occurs_at(told, "[host_capacity_exhausted]"@, i)]
        !occurs_at(told, "[host_capacity_exhausted]"@, i) by {
        if occurs_at(told, "[host_capacity_exhausted]"@, i) {
            assert(told.subrange(i, i + 25)[0] == told[i]);
        }
    }
    assert forall|i: int| #![trigger occurs_at(told, "[host_disk_guardrail]"@, i)]
        !occurs_at(told, "[host_disk_guardrail]"@, i) by {
        if occurs_at(told, "[host_disk_guardrail]"@, i) {
            assert(told.subrange(i, i + 21)[0] == told[i]);
        }
    }
    assert forall|i: int| #![trigger occurs_at(told, "[provisioning_paused]"@, i)]
        !occurs_at(told, "[provisioning_paused]"@, i) by {
        if occurs_at(told, "[provisioning_paused]"@, i) {
            assert(told.subrange(i, i + 21)[0] == told[i]);
        }
    }
}

}
