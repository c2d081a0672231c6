//! Why a queued job waits: the pools that could run it, and what holds them up.
use vstd::prelude::*;

use crate::autoscaling::{
    compatible, compatible_runner_provider, holds, holds_ignoring_case, supports,
    the_first_compatible_provider_is_chosen,
};
use crate::numbers::{difference_saturated, saturated};
use crate::text::{copy_strings, lower, text_option, texts};

verus! {

/// A pool of a job's repository, and what it has.
#[derive(Debug)]
pub struct PoolOutlook {
    pub id: String,
    pub name: String,
    pub labels: Vec<String>,
    pub providers: Vec<String>,
    pub paused: bool,
    pub circuit_open: bool,
    pub max_count: i64,
    pub active_runners: i64,
    pub busy_runners: i64,
}

/// What holds a pool up.
#[derive(Debug, Clone, Copy, PartialEq, Eq, Structural)]
pub enum Holdup {
    Paused,
    Incompatible,
    CircuitOpen,
    AtCapacity,
    Ready,
}

impl Holdup {
    /// The name of what holds a pool up.
    pub fn as_str(&self) -> (r: &'static str)
        ensures
            r@ == match *self {
                Holdup::Paused => "paused"@,
                Holdup::Incompatible => "incompatible"@,
                Holdup::CircuitOpen => "circuit_open"@,
                Holdup::AtCapacity => "at_capacity"@,
                Holdup::Ready => "ready"@,
            },
    {
        match self {
            Holdup::Paused => "paused",
            Holdup::Incompatible => "incompatible",
            Holdup::CircuitOpen => "circuit_open",
            Holdup::AtCapacity => "at_capacity",
            Holdup::Ready => "ready",
        }
    }
}

/// The labels that the runners of a pool answer to: the configured ones, and the
/// pool's name.
pub open spec fn pool_labels(pool: PoolOutlook) -> Seq<Seq<char>> {
    if holds(texts(pool.labels@), pool.name@) {
        texts(pool.labels@)
    } else {
        texts(pool.labels@).push(pool.name@)
    }
}

/// The provider of a pool that can run a job, by its position.
pub open spec fn provider_position(
    architecture: Seq<char>,
    pool: PoolOutlook,
    requested: Seq<Seq<char>>,
) -> int {
    compatible(architecture, texts(pool.providers@), requested, pool_labels(pool), 0)
}

/// A provider of the pool can run the job.
pub open spec fn pool_matches(
    architecture: Seq<char>,
    pool: PoolOutlook,
    requested: Seq<Seq<char>>,
) -> bool {
    provider_position(architecture, pool, requested) < pool.providers@.len()
}

/// What holds a pool up.
pub open spec fn holdup(
    architecture: Seq<char>,
    pool: PoolOutlook,
    requested: Seq<Seq<char>>,
) -> Holdup {
    if pool.paused {
        Holdup::Paused
    } else if !pool_matches(architecture, pool, requested) {
        Holdup::Incompatible
    } else if pool.circuit_open {
        Holdup::CircuitOpen
    } else if pool.active_runners >= pool.max_count {
        Holdup::AtCapacity
    } else {
        Holdup::Ready
    }
}

/// A pool that could run a job, with what holds it up.
#[derive(Debug)]
pub struct PoolFinding {
    pub status: Holdup,
    pub provider: Option<String>,
    pub available_capacity: i64,
}

/// The finding is what holds of a pool.
pub open spec fn finds(
    finding: PoolFinding,
    architecture: Seq<char>,
    pool: PoolOutlook,
    requested: Seq<Seq<char>>,
) -> bool {
    &&& finding.status == holdup(architecture, pool, requested)
    &&& text_option(finding.provider) == if pool_matches(architecture, pool, requested) {
        Some(pool.providers@[provider_position(architecture, pool, requested)]@)
    } else {
        None
    }
    &&& finding.available_capacity == saturated(pool.max_count - pool.active_runners)
}

/// The number of the first `n` findings with a status.
pub open spec fn count_status(list: Seq<PoolFinding>, status: Holdup, n: int) -> nat
    decreases n,
{
    if n <= 0 {
        0
    } else {
        count_status(list, status, n - 1) + if list[n - 1].status == status {
            1nat
        } else {
            0nat
        }
    }
}

/// What is said of a job that waits.
pub open spec fn summary_of(list: Seq<PoolFinding>) -> Seq<char> {
    let n = list.len() as int;
    let ready = count_status(list, Holdup::Ready, n);
    let full = count_status(list, Holdup::AtCapacity, n);
    let open = count_status(list, Holdup::CircuitOpen, n);
    if n == 0 {
        "No accessible runner pool is assigned to this repository."@
    } else if ready + full == 0 {
        if open > 0 {
            "A matching pool needs a provisioning retry before GridOps can start another runner."@
        } else {
            "No assigned pool matches every requested runner label."@
        }
    } else if ready == 0 {
        "A matching pool exists, but every compatible pool is currently at its configured limit."@
    } else {
        "A matching pool has configured headroom; GridOps will attempt capacity admission on its next reconcile."@
    }
}

/// Why a job waits.
#[derive(Debug)]
pub struct Diagnosis {
    pub summary: String,
    pub candidates: Vec<PoolFinding>,
}

fn examine_pool(architecture: &str, pool: &PoolOutlook, requested: &[String]) -> (r: PoolFinding)
    ensures
        finds(r, architecture@, *pool, texts(requested@)),
{
    let mut labels: Vec<String> = copy_strings(pool.labels.as_slice());
    if !holds_ignoring_case(labels.as_slice(), pool.name.as_str()) {
        labels.push(pool.name.clone());
    }
    proof {
        assert(texts(labels@) =~= pool_labels(*pool));
    }
    let provider: Option<String> = compatible_runner_provider(
        architecture,
        pool.providers.as_slice(),
        requested,
        labels.as_slice(),
    );
    let status: Holdup = if pool.paused {
        Holdup::Paused
    } else if provider.is_none() {
        Holdup::Incompatible
    } else if pool.circuit_open {
        Holdup::CircuitOpen
    } else if pool.active_runners >= pool.max_count {
        Holdup::AtCapacity
    } else {
        Holdup::Ready
    };
    PoolFinding {
        status,
        provider,
        available_capacity: difference_saturated(pool.max_count, pool.active_runners),
    }
}

/// Why a queued job waits, by the pools of its repository.
pub fn diagnose_queued_job(architecture: &str, pools: &[PoolOutlook], requested: &[String]) -> (r:
    Diagnosis)
    ensures
        r.candidates@.len() == pools@.len(),
        forall|i: int|
            0 <= i < pools@.len() ==> finds(
                #[trigger] r.candidates@[i],
                architecture@,
                pools@[i],
                texts(requested@),
            ),
        r.summary@ == summary_of(r.candidates@),
{
    let mut candidates: Vec<PoolFinding> = Vec::new();
    let mut ready: usize = 0;
    let mut full: usize = 0;
    let mut open: usize = 0;
    let mut i: usize = 0;
    while i < pools.len()
        invariant
            i <= pools@.len(),
            candidates@.len() == i,
            forall|k: int|
                0 <= k < i ==> finds(
                    #[trigger] candidates@[k],
                    architecture@,
                    pools@[k],
                    texts(requested@),
                ),
            ready == count_status(candidates@, Holdup::Ready, i as int),
            full == count_status(candidates@, Holdup::AtCapacity, i as int),
            open == count_status(candidates@, Holdup::CircuitOpen, i as int),
            ready <= i,
            full <= i,
            open <= i,
        decreases pools@.len() - i,
    {
        let finding: PoolFinding = examine_pool(architecture, &pools[i], requested);
        let ghost before = candidates@;
        match finding.status {
            Holdup::Ready => {
                ready += 1;
            },
            Holdup::AtCapacity => {
                full += 1;
            },
            Holdup::CircuitOpen => {
                open += 1;
            },
            _ => {},
        }
        candidates.push(finding);
        proof {
            lemma_count_prefix(before, candidates@, Holdup::Ready, i as int);
            lemma_count_prefix(before, candidates@, Holdup::AtCapacity, i as int);
            lemma_count_prefix(before, candidates@, Holdup::CircuitOpen, i as int);
        }
        i += 1;
    }
    let summary: String = if pools.len() == 0 {
        "No accessible runner pool is assigned to this repository.".to_owned()
    } else if ready == 0 && full == 0 {
        if open > 0 {
            "A matching pool needs a provisioning retry before GridOps can start another runner."
                .to_owned()
        } else {
            "No assigned pool matches every requested runner label.".to_owned()
        }
    } else if ready == 0 {
        "A matching pool exists, but every compatible pool is currently at its configured limit."
            .to_owned()
    } else {
        "A matching pool has configured headroom; GridOps will attempt capacity admission on its next reconcile."
            .to_owned()
    };
    Diagnosis { summary, candidates }
}

proof fn lemma_count_prefix(a: Seq<PoolFinding>, b: Seq<PoolFinding>, status: Holdup, n: int)
    requires
        0 <= n <= a.len(),
        n <= b.len(),
        forall|i: int| 0 <= i < n ==> a[i] == b[i],
    ensures
        count_status(a, status, n) == count_status(b, status, n),
    decreases n,
{
    if n > 0 {
        lemma_count_prefix(a, b, status, n - 1);
    }
}

/// What holds a pool up is the first of these that holds: it is paused, no provider of it can
/// run the job, its circuit is open, it has as many runners as it may have.
pub proof fn pools_are_held_up_for_a_reason(
    architecture: Seq<char>,
    pool: PoolOutlook,
    requested: Seq<Seq<char>>,
    p: int,
)
    ensures
        pool.paused ==> holdup(architecture, pool, requested) == Holdup::Paused,
        !pool.paused && (forall|k: int|
            0 <= k < pool.providers@.len() ==> !#[trigger] supports(
                architecture,
                pool.providers@[k]@,
                requested,
                pool_labels(pool),
            )) ==> holdup(architecture, pool, requested) == Holdup::Incompatible,
        !pool.paused && 0 <= p < pool.providers@.len() && supports(
            architecture,
            pool.providers@[p]@,
            requested,
            pool_labels(pool),
        ) ==> holdup(architecture, pool, requested) == if pool.circuit_open {
            Holdup::CircuitOpen
        } else if pool.active_runners >= pool.max_count {
            Holdup::AtCapacity
        } else {
            Holdup::Ready
        },
{
    let providers = texts(pool.providers@);
    the_first_compatible_provider_is_chosen(
        architecture,
        providers,
        requested,
        pool_labels(pool),
        0,
    );
    if 0 <= p < pool.providers@.len() {
        assert(providers[p] == pool.providers@[p]@);
    }
    let found = provider_position(architecture, pool, requested);
    if found < pool.providers@.len() {
        assert(providers[found] == pool.providers@[found]@);
        assert(supports(
            architecture,
            pool.providers@[found]@,
            requested,
            pool_labels(pool),
        ));
    }
}

/// The runners of a pool answer to its labels and to its name.
pub proof fn pools_answer_to_their_name(pool: PoolOutlook, label: Seq<char>)
    ensures
        holds(pool_labels(pool), pool.name@),
        texts(pool.labels@).contains(label) ==> pool_labels(pool).contains(label),
        pool_labels(pool).contains(label) ==> texts(pool.labels@).contains(label) || label
            == pool.name@,
{
    let labels = texts(pool.labels@);
    let all = pool_labels(pool);
    if !holds(labels, pool.name@) {
        assert(lower(all[all.len() - 1]) == lower(pool.name@));
    }
    if labels.contains(label) {
        let i = choose|i: int| 0 <= i < labels.len() && labels[i] == label;
        assert(all[i] == label);
    }
    if all.contains(label) {
        let i = choose|i: int| 0 <= i < all.len() && all[i] == label;
        if i < labels.len() {
            assert(labels[i] == label);
        }
    }
}

/// What is said of a job that waits follows from its pools: there is none; one is ready; none
/// is, but one is full; one needs a retry; or none matches.
pub proof fn diagnoses_follow_from_the_pools(list: Seq<PoolFinding>, i: int)
    ensures
        list.len() == 0 ==> summary_of(list)
            == "No accessible runner pool is assigned to this repository."@,
        0 <= i < list.len() && list[i].status == Holdup::Ready ==> summary_of(list)
            == "A matching pool has configured headroom; GridOps will attempt capacity admission on its next reconcile."@,
        0 <= i < list.len() && list[i].status == Holdup::AtCapacity && (forall|k: int|
            0 <= k < list.len() ==> (#[trigger] list[k]).status != Holdup::Ready) ==> summary_of(
            list,
        )
            == "A matching pool exists, but every compatible pool is currently at its configured limit."@,
        0 <= i < list.len() && list[i].status == Holdup::CircuitOpen && (forall|k: int|
            0 <= k < list.len() ==> (#[trigger] list[k]).status != Holdup::Ready && list[k].status
                != Holdup::AtCapacity) ==> summary_of(list)
            == "A matching pool needs a provisioning retry before GridOps can start another runner."@,
        list.len() > 0 && (forall|k: int|
            0 <= k < list.len() ==> (#[trigger] list[k]).status == Holdup::Paused || list[k].status
                == Holdup::Incompatible) ==> summary_of(list)
            == "No assigned pool matches every requested runner label."@,
{
    let n = list.len() as int;
    lemma_status_counts(list, Holdup::Ready, n);
    lemma_status_counts(list, Holdup::AtCapacity, n);
    lemma_status_counts(list, Holdup::CircuitOpen, n);
}

proof fn lemma_status_counts(list: Seq<PoolFinding>, status: Holdup, n: int)
    requires
        0 <= n <= list.len(),
    ensures
        count_status(list, status, n) == 0 <==> forall|k: int|
            0 <= k < n ==> (#[trigger] list[k]).status != status,
    decreases n,
{
    if n > 0 {
        lemma_status_counts(list, status, n - 1);
        assert(list[n - 1].status == list[n - 1].status);
    }
}

/// What is found of a pool names the first of its providers that can run the job, and how many
/// more runners it may have.
pub proof fn findings_name_a_provider_and_what_is_left(
    finding: PoolFinding,
    architecture: Seq<char>,
    pool: PoolOutlook,
    requested: Seq<Seq<char>>,
    p: int,
)
    requires
        finds(finding, architecture, pool, requested),
        i64::MIN <= pool.max_count - pool.active_runners <= i64::MAX,
    ensures
        finding.available_capacity == pool.max_count - pool.active_runners,
        finding.status == holdup(architecture, pool, requested),
        0 <= p < pool.providers@.len() && supports(
            architecture,
            pool.providers@[p]@,
            requested,
            pool_labels(pool),
        ) && (forall|k: int|
            0 <= k < p ==> !#[trigger] supports(
                architecture,
                pool.providers@[k]@,
                requested,
                pool_labels(pool),
            )) ==> text_option(finding.provider) == Some(pool.providers@[p]@),
        (forall|k: int|
            0 <= k < pool.providers@.len() ==> !#[trigger] supports(
                architecture,
                pool.providers@[k]@,
                requested,
                pool_labels(pool),
            )) ==> finding.provider is None,
{
    let providers = texts(pool.providers@);
    the_first_compatible_provider_is_chosen(
        architecture,
        providers,
        requested,
        pool_labels(pool),
        0,
    );
    let found = provider_position(architecture, pool, requested);
    if 0 <= p < pool.providers@.len() {
        assert(providers[p] == pool.providers@[p]@);
    }
    if found < pool.providers@.len() {
        assert(providers[found] == pool.providers@[found]@);
        assert(supports(architecture, pool.providers@[found]@, requested, pool_labels(pool)));
        if 0 <= p < found {
            assert(!supports(architecture, providers[p], requested, pool_labels(pool)));
        }
    }
}

}
