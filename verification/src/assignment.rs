//! Which pool a queued job belongs to, and what each repository of a pool has
//! and needs.
use vstd::prelude::*;

use crate::autoscaling::{
    compatible, compatible_runner_provider, supports, the_first_compatible_provider_is_chosen,
    QueuedJob, RepositoryCapacity, RepositoryView,
};
use crate::numbers::{length_i64, saturated};
use crate::order::{
    at_most, lemma_text_reflexive, lemma_text_total, lemma_text_transitive, text_at_most,
    text_before,
};
use crate::reconciler::{active, active_status};
use crate::text::{copy_strings, same, texts};

verus! {

/// A pool that queued jobs may belong to. `repositories` are those that it
/// lists; an older pool has one of its own.
#[derive(Clone, Debug)]
pub struct PoolCandidate {
    pub id: String,
    pub scope: String,
    pub installation_id: i64,
    pub repository_id: Option<i64>,
    pub repositories: Vec<i64>,
    pub created_at: i64,
    pub autoscaling_enabled: bool,
    pub paused: bool,
    pub providers: Vec<String>,
    pub labels: Vec<String>,
}

/// A job that waits for a runner.
#[derive(Clone, Debug)]
pub struct WaitingJob {
    pub repository_id: i64,
    pub installation_id: i64,
    pub labels: Vec<String>,
}

/// The pool covers a repository: it lists it, has it as its own, or is for the
/// organization.
pub open spec fn covers(pool: PoolCandidate, repository_id: i64, installation_id: i64) -> bool {
    ||| pool.repositories@.contains(repository_id)
    ||| pool.repository_id == Some(repository_id)
    ||| pool.scope@ == "organization"@ && pool.installation_id == installation_id
}

/// A pool may take a job: it scales with the queue, is not paused, covers the
/// job's repository, and has a provider whose runners answer to every label.
pub open spec fn eligible(architecture: Seq<char>, pool: PoolCandidate, job: WaitingJob) -> bool {
    &&& pool.autoscaling_enabled
    &&& !pool.paused
    &&& covers(pool, job.repository_id, job.installation_id)
    &&& compatible(
        architecture,
        texts(pool.providers@),
        texts(job.labels@),
        texts(pool.labels@),
        0,
    ) < pool.providers@.len()
}

/// The pool is for repositories.
pub open spec fn for_repositories(pool: PoolCandidate) -> bool {
    pool.scope@ == "repository"@
}

/// Pool `a` comes before `b`: pools for repositories before other ones, older
/// pools before younger ones, then by their names.
pub open spec fn outranks(a: PoolCandidate, b: PoolCandidate) -> bool {
    ||| for_repositories(a) && !for_repositories(b)
    ||| for_repositories(a) == for_repositories(b) && a.created_at < b.created_at
    ||| for_repositories(a) == for_repositories(b) && a.created_at == b.created_at && text_before(
        a.id@,
        b.id@,
    )
}

/// The pool, of the first `n`, that a job belongs to.
pub open spec fn assignment(
    architecture: Seq<char>,
    pools: Seq<PoolCandidate>,
    job: WaitingJob,
    n: int,
) -> Option<int>
    decreases n,
{
    if n <= 0 {
        None
    } else {
        let best = assignment(architecture, pools, job, n - 1);
        if !eligible(architecture, pools[n - 1], job) {
            best
        } else {
            match best {
                Some(k) => if outranks(pools[n - 1], pools[k]) {
                    Some(n - 1)
                } else {
                    best
                },
                None => Some(n - 1),
            }
        }
    }
}

fn lists_repository(list: &[i64], repository_id: i64) -> (r: bool)
    ensures
        r == list@.contains(repository_id),
{
    let mut i: usize = 0;
    while i < list.len()
        invariant
            i <= list@.len(),
            forall|k: int| 0 <= k < i ==> list@[k] != repository_id,
        decreases list@.len() - i,
    {
        if list[i] == repository_id {
            return true;
        }
        i += 1;
    }
    false
}

fn is_eligible(architecture: &str, pool: &PoolCandidate, job: &WaitingJob) -> (r: bool)
    ensures
        r == eligible(architecture@, *pool, *job),
{
    let own: bool = match pool.repository_id {
        Some(id) => id == job.repository_id,
        None => false,
    };
    let covered: bool = own || lists_repository(pool.repositories.as_slice(), job.repository_id)
        || (same(pool.scope.as_str(), "organization") && pool.installation_id
        == job.installation_id);
    pool.autoscaling_enabled && !pool.paused && covered && compatible_runner_provider(
        architecture,
        pool.providers.as_slice(),
        job.labels.as_slice(),
        pool.labels.as_slice(),
    ).is_some()
}

fn comes_before(a: &PoolCandidate, b: &PoolCandidate) -> (r: bool)
    ensures
        r == outranks(*a, *b),
{
    let first: bool = same(a.scope.as_str(), "repository");
    let second: bool = same(b.scope.as_str(), "repository");
    (first && !second) || (first == second && (a.created_at < b.created_at || (a.created_at
        == b.created_at && !at_most(b.id.as_str(), a.id.as_str()))))
}

/// The pool that a queued job belongs to, by its position.
pub fn assigned_pool(architecture: &str, pools: &[PoolCandidate], job: &WaitingJob) -> (r: Option<
    usize,
>)
    ensures
        match r {
            Some(i) => i < pools@.len() && assignment(
                architecture@,
                pools@,
                *job,
                pools@.len() as int,
            ) == Some(i as int),
            None => assignment(architecture@, pools@, *job, pools@.len() as int) is None,
        },
{
    let mut best: Option<usize> = None;
    let mut i: usize = 0;
    while i < pools.len()
        invariant
            i <= pools@.len(),
            match best {
                Some(k) => k < i && assignment(architecture@, pools@, *job, i as int) == Some(
                    k as int,
                ),
                None => assignment(architecture@, pools@, *job, i as int) is None,
            },
        decreases pools@.len() - i,
    {
        if is_eligible(architecture, &pools[i], job) {
            match best {
                Some(k) => {
                    if comes_before(&pools[i], &pools[k]) {
                        best = Some(i);
                    }
                },
                None => {
                    best = Some(i);
                },
            }
        }
        i += 1;
    }
    best
}

/// A job belongs to a pool that may take it, and no other pool that may take it
/// comes before that one; it belongs to none only where no pool may take it.
pub proof fn a_job_belongs_to_the_first_eligible_pool(
    architecture: Seq<char>,
    pools: Seq<PoolCandidate>,
    job: WaitingJob,
    n: int,
)
    requires
        0 <= n <= pools.len(),
    ensures
        match assignment(architecture, pools, job, n) {
            Some(k) => 0 <= k < n && eligible(architecture, pools[k], job) && forall|i: int|
                0 <= i < n && eligible(architecture, #[trigger] pools[i], job) ==> !outranks(
                    pools[i],
                    pools[k],
                ),
            None => forall|i: int|
                0 <= i < n ==> !eligible(architecture, #[trigger] pools[i], job),
        },
    decreases n,
{
    if n > 0 {
        a_job_belongs_to_the_first_eligible_pool(architecture, pools, job, n - 1);
        let best = assignment(architecture, pools, job, n - 1);
        let result = assignment(architecture, pools, job, n);
        if result is Some {
            let k = result->0;
            assert forall|i: int|
                0 <= i < n && eligible(architecture, #[trigger] pools[i], job) implies !outranks(
                pools[i],
                pools[k],
            ) by {
                if best is Some && k == n - 1 && i < n - 1 {
                    lemma_outranks_transitive(pools[i], pools[k], pools[best->0]);
                }
                if i == k {
                    lemma_text_reflexive(pools[k].id@);
                }
            }
        }
    }
}

proof fn lemma_outranks_transitive(a: PoolCandidate, b: PoolCandidate, c: PoolCandidate)
    requires
        outranks(b, c),
        !outranks(a, c),
    ensures
        !outranks(a, b),
{
    if outranks(a, b) {
        if for_repositories(a) == for_repositories(b) && for_repositories(b) == for_repositories(c)
            && a.created_at == b.created_at && b.created_at == c.created_at {
            lemma_text_total(a.id@, b.id@);
            if text_at_most(c.id@, a.id@) {
                lemma_text_transitive(c.id@, a.id@, b.id@);
            }
        }
    }
}

// ---------------------------------------------------------------------------
// The queue of a pool

/// The job belongs to the pool with the name.
pub open spec fn belongs_to(
    architecture: Seq<char>,
    pools: Seq<PoolCandidate>,
    job: WaitingJob,
    pool_id: Seq<char>,
) -> bool {
    match assignment(architecture, pools, job, pools.len() as int) {
        Some(k) => pools[k].id@ == pool_id,
        None => false,
    }
}

/// A job belongs to one pool at most.
pub proof fn a_job_belongs_to_one_pool(
    architecture: Seq<char>,
    pools: Seq<PoolCandidate>,
    job: WaitingJob,
    one: Seq<char>,
    other: Seq<char>,
)
    requires
        belongs_to(architecture, pools, job, one),
        belongs_to(architecture, pools, job, other),
    ensures
        one == other,
{
}

/// The positions of the jobs, of the first `n`, that belong to a pool.
pub open spec fn queue_of(
    architecture: Seq<char>,
    pools: Seq<PoolCandidate>,
    jobs: Seq<WaitingJob>,
    pool_id: Seq<char>,
    n: int,
) -> Seq<int>
    decreases n,
{
    if n <= 0 {
        Seq::empty()
    } else {
        let before = queue_of(architecture, pools, jobs, pool_id, n - 1);
        if belongs_to(architecture, pools, jobs[n - 1], pool_id) {
            before.push(n - 1)
        } else {
            before
        }
    }
}

fn is_assigned(architecture: &str, pools: &[PoolCandidate], job: &WaitingJob, pool_id: &str) -> (r:
    bool)
    ensures
        r == belongs_to(architecture@, pools@, *job, pool_id@),
{
    match assigned_pool(architecture, pools, job) {
        Some(k) => same(pools[k].id.as_str(), pool_id),
        None => false,
    }
}

/// The queued jobs that belong to a pool, in their order.
pub fn queued_job_assignments(
    architecture: &str,
    pools: &[PoolCandidate],
    jobs: &[WaitingJob],
    pool_id: &str,
) -> (r: Vec<QueuedJob>)
    ensures
        ({
            let queue = queue_of(
                architecture@,
                pools@,
                jobs@,
                pool_id@,
                jobs@.len() as int,
            );
            &&& r@.len() == queue.len()
            &&& forall|k: int|
                0 <= k < r@.len() ==> (#[trigger] r@[k]).repository_id
                    == jobs@[queue[k]].repository_id && texts(r@[k].labels@) == texts(
                    jobs@[queue[k]].labels@,
                )
        }),
{
    let mut out: Vec<QueuedJob> = Vec::new();
    let mut i: usize = 0;
    while i < jobs.len()
        invariant
            i <= jobs@.len(),
            out@.len() == queue_of(architecture@, pools@, jobs@, pool_id@, i as int).len(),
            forall|k: int|
                0 <= k < out@.len() ==> (#[trigger] out@[k]).repository_id == jobs@[queue_of(
                    architecture@,
                    pools@,
                    jobs@,
                    pool_id@,
                    i as int,
                )[k]].repository_id && texts(out@[k].labels@) == texts(
                    jobs@[queue_of(architecture@, pools@, jobs@, pool_id@, i as int)[k]].labels@,
                ),
        decreases jobs@.len() - i,
    {
        if is_assigned(architecture, pools, &jobs[i], pool_id) {
            out.push(
                QueuedJob {
                    repository_id: jobs[i].repository_id,
                    labels: copy_strings(jobs[i].labels.as_slice()),
                },
            );
        }
        i += 1;
    }
    out
}

/// The number of queued jobs that belong to a pool.
pub fn assigned_queued_jobs(
    architecture: &str,
    pools: &[PoolCandidate],
    jobs: &[WaitingJob],
    pool_id: &str,
) -> (r: i64)
    ensures
        r == saturated(
            queue_of(architecture@, pools@, jobs@, pool_id@, jobs@.len() as int).len() as int,
        ),
{
    length_i64(queued_job_assignments(architecture, pools, jobs, pool_id).len())
}

// ---------------------------------------------------------------------------
// The repositories of a pool

/// A repository of a pool.
#[derive(Clone, Debug)]
pub struct PoolRepository {
    pub repository_id: i64,
    pub installation_id: i64,
    pub owner: String,
    pub name: String,
}

/// A runner of a pool, and what it is for.
#[derive(Clone, Debug)]
pub struct PlacedRunner {
    pub target_repository_id: Option<i64>,
    pub status: String,
    pub busy: bool,
}

/// The number of jobs of the first `n` that belong to a pool and are of a
/// repository.
pub open spec fn queued_for(
    architecture: Seq<char>,
    pools: Seq<PoolCandidate>,
    jobs: Seq<WaitingJob>,
    pool_id: Seq<char>,
    repository_id: i64,
    n: int,
) -> nat
    decreases n,
{
    if n <= 0 {
        0
    } else {
        queued_for(architecture, pools, jobs, pool_id, repository_id, n - 1) + if jobs[n
            - 1].repository_id == repository_id && belongs_to(
            architecture,
            pools,
            jobs[n - 1],
            pool_id,
        ) {
            1nat
        } else {
            0nat
        }
    }
}

/// The number of runners of the first `n` that count for a repository.
pub open spec fn active_for(runners: Seq<PlacedRunner>, repository_id: i64, n: int) -> nat
    decreases n,
{
    if n <= 0 {
        0
    } else {
        active_for(runners, repository_id, n - 1) + if runners[n - 1].target_repository_id == Some(
            repository_id,
        ) && active(runners[n - 1].status@) {
            1nat
        } else {
            0nat
        }
    }
}

/// The number of busy runners of the first `n` that count for a repository.
pub open spec fn busy_for(runners: Seq<PlacedRunner>, repository_id: i64, n: int) -> nat
    decreases n,
{
    if n <= 0 {
        0
    } else {
        busy_for(runners, repository_id, n - 1) + if runners[n - 1].target_repository_id == Some(
            repository_id,
        ) && active(runners[n - 1].status@) && runners[n - 1].busy {
            1nat
        } else {
            0nat
        }
    }
}

/// What a repository of a pool has and needs.
pub open spec fn capacity_of(
    architecture: Seq<char>,
    pools: Seq<PoolCandidate>,
    jobs: Seq<WaitingJob>,
    pool_id: Seq<char>,
    runners: Seq<PlacedRunner>,
    repository: PoolRepository,
) -> RepositoryView {
    RepositoryView {
        repository_id: repository.repository_id,
        installation_id: repository.installation_id,
        owner: repository.owner@,
        name: repository.name@,
        queued: saturated(
            queued_for(
                architecture,
                pools,
                jobs,
                pool_id,
                repository.repository_id,
                jobs.len() as int,
            ) as int,
        ) as i64,
        active: saturated(
            active_for(runners, repository.repository_id, runners.len() as int) as int,
        ) as i64,
        busy: saturated(
            busy_for(runners, repository.repository_id, runners.len() as int) as int,
        ) as i64,
    }
}

fn capacity_for(
    architecture: &str,
    pools: &[PoolCandidate],
    jobs: &[WaitingJob],
    pool_id: &str,
    runners: &[PlacedRunner],
    repository: &PoolRepository,
) -> (r: RepositoryCapacity)
    ensures
        r@ == capacity_of(architecture@, pools@, jobs@, pool_id@, runners@, *repository),
{
    let id: i64 = repository.repository_id;
    let mut queued: usize = 0;
    let mut i: usize = 0;
    while i < jobs.len()
        invariant
            i <= jobs@.len(),
            queued == queued_for(architecture@, pools@, jobs@, pool_id@, id, i as int),
            queued <= i,
        decreases jobs@.len() - i,
    {
        if jobs[i].repository_id == id && is_assigned(architecture, pools, &jobs[i], pool_id) {
            queued += 1;
        }
        i += 1;
    }
    let mut running: usize = 0;
    let mut busy: usize = 0;
    let mut j: usize = 0;
    while j < runners.len()
        invariant
            j <= runners@.len(),
            running == active_for(runners@, id, j as int),
            busy == busy_for(runners@, id, j as int),
            running <= j,
            busy <= j,
        decreases runners@.len() - j,
    {
        let here: bool = match runners[j].target_repository_id {
            Some(target) => target == id,
            None => false,
        };
        if here && active_status(runners[j].status.as_str()) {
            running += 1;
            if runners[j].busy {
                busy += 1;
            }
        }
        j += 1;
    }
    RepositoryCapacity {
        repository_id: id,
        installation_id: repository.installation_id,
        owner: repository.owner.clone(),
        name: repository.name.clone(),
        queued: length_i64(queued),
        active: length_i64(running),
        busy: length_i64(busy),
    }
}

/// What each repository of a pool has and needs, from the queued jobs and the
/// runners of the pool.
pub fn repository_capacities(
    architecture: &str,
    pools: &[PoolCandidate],
    jobs: &[WaitingJob],
    pool_id: &str,
    runners: &[PlacedRunner],
    repositories: &[PoolRepository],
) -> (r: Vec<RepositoryCapacity>)
    ensures
        r@.len() == repositories@.len(),
        forall|i: int|
            0 <= i < r@.len() ==> (#[trigger] r@[i])@ == capacity_of(
                architecture@,
                pools@,
                jobs@,
                pool_id@,
                runners@,
                repositories@[i],
            ),
{
    let mut out: Vec<RepositoryCapacity> = Vec::new();
    let mut i: usize = 0;
    while i < repositories.len()
        invariant
            i <= repositories@.len(),
            out@.len() == i,
            forall|k: int|
                0 <= k < i ==> (#[trigger] out@[k])@ == capacity_of(
                    architecture@,
                    pools@,
                    jobs@,
                    pool_id@,
                    runners@,
                    repositories@[k],
                ),
        decreases repositories@.len() - i,
    {
        out.push(capacity_for(architecture, pools, jobs, pool_id, runners, &repositories[i]));
        i += 1;
    }
    out
}

// ---------------------------------------------------------------------------
// What belongs to whom

/// A job belongs to a pool that scales with the queue and is not paused; that lists the
/// job's repository, has it as its own, or is for the organization of the same
/// installation; and that has a provider whose runners answer to all its labels.
pub proof fn a_job_belongs_to_a_pool_that_scales_and_runs(
    architecture: Seq<char>,
    pools: Seq<PoolCandidate>,
    job: WaitingJob,
)
    requires
        assignment(architecture, pools, job, pools.len() as int) is Some,
    ensures
        ({
            let k = assignment(architecture, pools, job, pools.len() as int)->0;
            &&& 0 <= k < pools.len()
            &&& pools[k].autoscaling_enabled
            &&& !pools[k].paused
            &&& {
                ||| pools[k].repositories@.contains(job.repository_id)
                ||| pools[k].repository_id == Some(job.repository_id)
                ||| pools[k].scope@ == "organization"@ && pools[k].installation_id
                    == job.installation_id
            }
            &&& exists|p: int|
                0 <= p < pools[k].providers@.len() && #[trigger] supports(
                    architecture,
                    pools[k].providers@[p]@,
                    texts(job.labels@),
                    texts(pools[k].labels@),
                )
        }),
{
    a_job_belongs_to_the_first_eligible_pool(architecture, pools, job, pools.len() as int);
    let k = assignment(architecture, pools, job, pools.len() as int)->0;
    let providers = texts(pools[k].providers@);
    let (asked, labels) = (texts(job.labels@), texts(pools[k].labels@));
    the_first_compatible_provider_is_chosen(architecture, providers, asked, labels, 0);
    let p = compatible(architecture, providers, asked, labels, 0);
    assert(supports(architecture, pools[k].providers@[p]@, asked, labels));
}

/// A job waits for no pool in vain: where a pool scales with the queue, is not paused,
/// covers the job's repository and has a provider for its labels, the job belongs to that
/// pool or to one that comes before it. A pool for repositories comes before any other;
/// otherwise the older one does, and of two of one age the one whose name is first.
pub proof fn a_job_belongs_to_the_oldest_pool_for_it(
    architecture: Seq<char>,
    pools: Seq<PoolCandidate>,
    job: WaitingJob,
    i: int,
    p: int,
)
    requires
        0 <= i < pools.len(),
        pools[i].autoscaling_enabled,
        !pools[i].paused,
        pools[i].repositories@.contains(job.repository_id) || pools[i].repository_id == Some(
            job.repository_id,
        ) || (pools[i].scope@ == "organization"@ && pools[i].installation_id
            == job.installation_id),
        0 <= p < pools[i].providers@.len(),
        supports(
            architecture,
            pools[i].providers@[p]@,
            texts(job.labels@),
            texts(pools[i].labels@),
        ),
    ensures
        ({
            let found = assignment(architecture, pools, job, pools.len() as int);
            let k = found->0;
            &&& found is Some
            &&& pools[i].scope@ == "repository"@ ==> pools[k].scope@ == "repository"@
            &&& (pools[i].scope@ == "repository"@) == (pools[k].scope@ == "repository"@)
                ==> pools[k].created_at <= pools[i].created_at
            &&& (pools[i].scope@ == "repository"@) == (pools[k].scope@ == "repository"@)
                && pools[k].created_at == pools[i].created_at ==> text_at_most(
                pools[k].id@,
                pools[i].id@,
            )
        }),
{
    a_job_belongs_to_the_first_eligible_pool(architecture, pools, job, pools.len() as int);
    let providers = texts(pools[i].providers@);
    let (asked, labels) = (texts(job.labels@), texts(pools[i].labels@));
    the_first_compatible_provider_is_chosen(architecture, providers, asked, labels, 0);
    assert(providers[p] == pools[i].providers@[p]@);
    assert(compatible(architecture, providers, asked, labels, 0) <= p);
    assert(eligible(architecture, pools[i], job));
    let k = assignment(architecture, pools, job, pools.len() as int)->0;
    lemma_text_total(pools[k].id@, pools[i].id@);
}

/// Paused pools, and pools that do not scale with the queue, take no part: a job belongs
/// to the same pool when they are taken out of the list.
pub proof fn pools_that_take_no_jobs_do_not_matter(
    architecture: Seq<char>,
    pools: Seq<PoolCandidate>,
    job: WaitingJob,
)
    ensures
        ({
            let rest = pools.filter(
                |pool: PoolCandidate| pool.autoscaling_enabled && !pool.paused,
            );
            match assignment(architecture, pools, job, pools.len() as int) {
                Some(k) => {
                    let found = assignment(architecture, rest, job, rest.len() as int);
                    &&& found is Some
                    &&& 0 <= found->0 < rest.len()
                    &&& rest[found->0] == pools[k]
                },
                None => assignment(architecture, rest, job, rest.len() as int) is None,
            }
        }),
    decreases pools.len(),
{
    reveal(Seq::filter);
    let keep = |pool: PoolCandidate| pool.autoscaling_enabled && !pool.paused;
    if pools.len() > 0 {
        let front = pools.drop_last();
        let n = front.len() as int;
        let less = front.filter(keep);
        let rest = pools.filter(keep);
        pools_that_take_no_jobs_do_not_matter(architecture, front, job);
        lemma_assignment_prefix(architecture, front, pools, job, n);
        a_job_belongs_to_the_first_eligible_pool(architecture, front, job, n);
        if keep(pools.last()) {
            lemma_assignment_prefix(architecture, less, rest, job, less.len() as int);
            a_job_belongs_to_the_first_eligible_pool(architecture, less, job, less.len() as int);
        }
    }
}

proof fn lemma_assignment_prefix(
    architecture: Seq<char>,
    less: Seq<PoolCandidate>,
    more: Seq<PoolCandidate>,
    job: WaitingJob,
    n: int,
)
    requires
        less.is_prefix_of(more),
        n <= less.len(),
    ensures
        assignment(architecture, less, job, n) == assignment(architecture, more, job, n),
    decreases n,
{
    if n > 0 {
        lemma_assignment_prefix(architecture, less, more, job, n - 1);
        a_job_belongs_to_the_first_eligible_pool(architecture, less, job, n - 1);
        assert(less[n - 1] == more[n - 1]);
        let best = assignment(architecture, less, job, n - 1);
        if best is Some {
            assert(less[best->0] == more[best->0]);
        }
    }
}

/// The queue of a pool holds the jobs that belong to it, all of them and no other, in
/// their order.
pub proof fn queues_hold_the_jobs_of_their_pool(
    architecture: Seq<char>,
    pools: Seq<PoolCandidate>,
    jobs: Seq<WaitingJob>,
    pool_id: Seq<char>,
    n: int,
)
    requires
        0 <= n <= jobs.len(),
    ensures
        ({
            let queue = queue_of(architecture, pools, jobs, pool_id, n);
            &&& forall|k: int| 0 <= k < queue.len() ==> 0 <= #[trigger] queue[k] < n
            &&& forall|a: int, b: int|
                0 <= a < b < queue.len() ==> #[trigger] queue[a] < #[trigger] queue[b]
            &&& forall|i: int|
                0 <= i < n ==> (queue.contains(i) <==> match assignment(
                    architecture,
                    pools,
                    #[trigger] jobs[i],
                    pools.len() as int,
                ) {
                    Some(k) => pools[k].id@ == pool_id,
                    None => false,
                })
        }),
    decreases n,
{
    let queue = queue_of(architecture, pools, jobs, pool_id, n);
    if n > 0 {
        queues_hold_the_jobs_of_their_pool(architecture, pools, jobs, pool_id, n - 1);
        let before = queue_of(architecture, pools, jobs, pool_id, n - 1);
        assert forall|i: int| 0 <= i < n implies (queue.contains(i) <==> match assignment(
            architecture,
            pools,
            #[trigger] jobs[i],
            pools.len() as int,
        ) {
            Some(k) => pools[k].id@ == pool_id,
            None => false,
        }) by {
            if before.contains(i) {
                let m = choose|m: int| 0 <= m < before.len() && before[m] == i;
                assert(queue[m] == i);
            }
            if queue.contains(i) && i < n - 1 {
                let m = choose|m: int| 0 <= m < queue.len() && queue[m] == i;
                assert(before[m] == i);
            }
            if i == n - 1 && belongs_to(architecture, pools, jobs[i], pool_id) {
                assert(queue[queue.len() - 1] == i);
            }
        }
    }
}

/// The job belongs to the pool with the name, and is of the repository.
pub open spec fn waits_in(
    architecture: Seq<char>,
    pools: Seq<PoolCandidate>,
    job: WaitingJob,
    pool_id: Seq<char>,
    repository_id: i64,
) -> bool {
    job.repository_id == repository_id && belongs_to(architecture, pools, job, pool_id)
}

/// A repository of a pool has as many queued jobs as jobs of that repository belong to the
/// pool, as many active runners as there are runners for it that count, and as many busy
/// ones as of these are busy.
pub proof fn repositories_have_what_is_for_them(
    architecture: Seq<char>,
    pools: Seq<PoolCandidate>,
    jobs: Seq<WaitingJob>,
    pool_id: Seq<char>,
    runners: Seq<PlacedRunner>,
    repository: PoolRepository,
)
    requires
        jobs.len() <= i64::MAX,
        runners.len() <= i64::MAX,
    ensures
        ({
            let found = capacity_of(architecture, pools, jobs, pool_id, runners, repository);
            let id = repository.repository_id;
            &&& found.repository_id == id
            &&& found.installation_id == repository.installation_id
            &&& found.owner == repository.owner@
            &&& found.name == repository.name@
            &&& found.queued == jobs.filter(
                |job: WaitingJob| waits_in(architecture, pools, job, pool_id, id),
            ).len()
            &&& found.active == runners.filter(
                |runner: PlacedRunner|
                    runner.target_repository_id == Some(id) && runner_counts(runner.status@),
            ).len()
            &&& found.busy == runners.filter(
                |runner: PlacedRunner|
                    runner.target_repository_id == Some(id) && runner_counts(runner.status@)
                        && runner.busy,
            ).len()
        }),
{
    let id = repository.repository_id;
    lemma_queued_for(architecture, pools, jobs, pool_id, id);
    lemma_runners_for(runners, id);
    let a = |job: WaitingJob| waits_in(architecture, pools, job, pool_id, id);
    let b = |runner: PlacedRunner|
        runner.target_repository_id == Some(id) && runner_counts(runner.status@);
    let c = |runner: PlacedRunner|
        runner.target_repository_id == Some(id) && runner_counts(runner.status@) && runner.busy;
    jobs.lemma_filter_len(a);
    runners.lemma_filter_len(b);
    runners.lemma_filter_len(c);
}

/// A runner in this state counts as active.
pub open spec fn runner_counts(status: Seq<char>) -> bool {
    ||| status == "starting"@
    ||| status == "online"@
    ||| status == "idle"@
    ||| status == "busy"@
    ||| status == "paused"@
    ||| status == "stopped"@
}

proof fn lemma_queued_for(
    architecture: Seq<char>,
    pools: Seq<PoolCandidate>,
    jobs: Seq<WaitingJob>,
    pool_id: Seq<char>,
    id: i64,
)
    ensures
        queued_for(architecture, pools, jobs, pool_id, id, jobs.len() as int) == jobs.filter(
            |job: WaitingJob| waits_in(architecture, pools, job, pool_id, id),
        ).len(),
    decreases jobs.len(),
{
    reveal(Seq::filter);
    if jobs.len() > 0 {
        lemma_queued_for(architecture, pools, jobs.drop_last(), pool_id, id);
        lemma_queued_prefix(
            architecture,
            pools,
            jobs.drop_last(),
            jobs,
            pool_id,
            id,
            jobs.len() - 1,
        );
    }
}

proof fn lemma_queued_prefix(
    architecture: Seq<char>,
    pools: Seq<PoolCandidate>,
    less: Seq<WaitingJob>,
    more: Seq<WaitingJob>,
    pool_id: Seq<char>,
    id: i64,
    n: int,
)
    requires
        less.is_prefix_of(more),
        n <= less.len(),
    ensures
        queued_for(architecture, pools, less, pool_id, id, n) == queued_for(
            architecture,
            pools,
            more,
            pool_id,
            id,
            n,
        ),
    decreases n,
{
    if n > 0 {
        assert(less[n - 1] == more[n - 1]);
        lemma_queued_prefix(architecture, pools, less, more, pool_id, id, n - 1);
    }
}

proof fn lemma_runners_for(runners: Seq<PlacedRunner>, id: i64)
    ensures
        active_for(runners, id, runners.len() as int) == runners.filter(
            |runner: PlacedRunner|
                runner.target_repository_id == Some(id) && runner_counts(runner.status@),
        ).len(),
        busy_for(runners, id, runners.len() as int) == runners.filter(
            |runner: PlacedRunner|
                runner.target_repository_id == Some(id) && runner_counts(runner.status@)
                    && runner.busy,
        ).len(),
    decreases runners.len(),
{
    reveal(Seq::filter);
    if runners.len() > 0 {
        lemma_runners_for(runners.drop_last(), id);
        lemma_runners_prefix(runners.drop_last(), runners, id, runners.len() - 1);
    }
}

proof fn lemma_runners_prefix(
    less: Seq<PlacedRunner>,
    more: Seq<PlacedRunner>,
    id: i64,
    n: int,
)
    requires
        less.is_prefix_of(more),
        n <= less.len(),
    ensures
        active_for(less, id, n) == active_for(more, id, n),
        busy_for(less, id, n) == busy_for(more, id, n),
    decreases n,
{
    if n > 0 {
        assert(less[n - 1] == more[n - 1]);
        lemma_runners_prefix(less, more, id, n - 1);
    }
}

}
