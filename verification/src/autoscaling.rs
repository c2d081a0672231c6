//! Which jobs a runner can take, which pool a queued job belongs to, and how
//! many runners of which provider and for which repository are missing.
use vstd::prelude::*;

use crate::numbers::{
    difference_saturated, larger, max, min, product_saturated, saturated, smaller, sum_saturated,
};
use crate::text::{lower, same, same_ignoring_case, texts};

verus! {

// ---------------------------------------------------------------------------
// Labels

/// The label by which runners name a processor architecture.
pub open spec fn arch_label(architecture: Seq<char>) -> Seq<char> {
    if architecture == "x86_64"@ {
        "x64"@
    } else if architecture == "aarch64"@ {
        "arm64"@
    } else {
        architecture
    }
}

/// The labels that every runner of a provider carries, on a host of the given
/// processor architecture.
pub open spec fn system_labels(architecture: Seq<char>, provider: Seq<char>) -> Seq<Seq<char>> {
    if provider == "tart"@ {
        seq!["self-hosted"@, "macOS"@, "ARM64"@]
    } else {
        seq!["self-hosted"@, "linux"@, arch_label(architecture)]
    }
}

/// A list holds a text, but for the case of ASCII letters.
pub open spec fn holds(list: Seq<Seq<char>>, value: Seq<char>) -> bool {
    exists|i: int| 0 <= i < list.len() && lower(#[trigger] list[i]) == lower(value)
}

/// A label that speaks of the system a runner runs on.
pub open spec fn system_label(label: Seq<char>) -> bool {
    ||| lower("self-hosted"@) == lower(label)
    ||| lower("linux"@) == lower(label)
    ||| lower("macos"@) == lower(label)
    ||| lower("windows"@) == lower(label)
    ||| lower("x64"@) == lower(label)
    ||| lower("arm64"@) == lower(label)
    ||| lower("arm"@) == lower(label)
    ||| lower("x86"@) == lower(label)
}

/// A runner of a provider, with configured labels, answers to a requested one.
pub open spec fn answers(
    architecture: Seq<char>,
    provider: Seq<char>,
    requested: Seq<char>,
    configured: Seq<Seq<char>>,
) -> bool {
    if lower(requested) == lower("self-hosted"@) {
        true
    } else if system_label(requested) {
        holds(system_labels(architecture, provider), requested)
    } else {
        holds(configured, requested)
    }
}

/// A runner of a provider, with configured labels, answers to every label that
/// a job requests.
pub open spec fn supports(
    architecture: Seq<char>,
    provider: Seq<char>,
    requested: Seq<Seq<char>>,
    configured: Seq<Seq<char>>,
) -> bool {
    forall|i: int|
        0 <= i < requested.len() ==> answers(
            architecture,
            provider,
            #[trigger] requested[i],
            configured,
        )
}

/// The first of the providers whose runners can take a job, by its position;
/// the number of providers where none can.
pub open spec fn compatible(
    architecture: Seq<char>,
    providers: Seq<Seq<char>>,
    requested: Seq<Seq<char>>,
    configured: Seq<Seq<char>>,
    from: int,
) -> int
    decreases providers.len() - from,
{
    if from >= providers.len() {
        providers.len() as int
    } else if supports(architecture, providers[from], requested, configured) {
        from
    } else {
        compatible(architecture, providers, requested, configured, from + 1)
    }
}

/// The label by which runners name a processor architecture.
pub fn runner_arch_label(architecture: &str) -> (r: String)
    ensures
        r@ == arch_label(architecture@),
{
    if same(architecture, "x86_64") {
        "x64".to_owned()
    } else if same(architecture, "aarch64") {
        "arm64".to_owned()
    } else {
        architecture.to_owned()
    }
}

/// The labels that every runner of a provider carries.
pub fn runner_system_labels(architecture: &str, provider: &str) -> (r: Vec<String>)
    ensures
        texts(r@) == system_labels(architecture@, provider@),
{
    let mut labels: Vec<String> = Vec::new();
    labels.push("self-hosted".to_owned());
    if same(provider, "tart") {
        labels.push("macOS".to_owned());
        labels.push("ARM64".to_owned());
    } else {
        labels.push("linux".to_owned());
        labels.push(runner_arch_label(architecture));
    }
    proof {
        assert(texts(labels@) =~= system_labels(architecture@, provider@));
    }
    labels
}

/// Whether a list holds a string, but for the case of ASCII letters.
pub fn holds_ignoring_case(list: &[String], value: &str) -> (r: bool)
    ensures
        r == holds(texts(list@), value@),
{
    let mut i: usize = 0;
    while i < list.len()
        invariant
            i <= list@.len(),
            forall|k: int| 0 <= k < i ==> lower(#[trigger] texts(list@)[k]) != lower(value@),
        decreases list@.len() - i,
    {
        proof {
            assert(texts(list@)[i as int] == list@[i as int]@);
        }
        if same_ignoring_case(list[i].as_str(), value) {
            return true;
        }
        i += 1;
    }
    false
}

/// Whether a label speaks of the system a runner runs on.
pub fn is_runner_system_label(label: &str) -> (r: bool)
    ensures
        r == system_label(label@),
{
    same_ignoring_case("self-hosted", label) || same_ignoring_case("linux", label)
        || same_ignoring_case("macos", label) || same_ignoring_case("windows", label)
        || same_ignoring_case("x64", label) || same_ignoring_case("arm64", label)
        || same_ignoring_case("arm", label) || same_ignoring_case("x86", label)
}

/// Whether every runner of a provider carries a label.
pub fn runner_supports_system_label(architecture: &str, provider: &str, label: &str) -> (r: bool)
    ensures
        r == holds(system_labels(architecture@, provider@), label@),
{
    holds_ignoring_case(runner_system_labels(architecture, provider).as_slice(), label)
}

/// Whether a runner of a provider, with configured labels, can take a job.
pub fn provider_supports_labels(
    architecture: &str,
    provider: &str,
    requested: &[String],
    configured: &[String],
) -> (r: bool)
    ensures
        r == supports(architecture@, provider@, texts(requested@), texts(configured@)),
{
    let mut i: usize = 0;
    while i < requested.len()
        invariant
            i <= requested@.len(),
            forall|k: int|
                0 <= k < i ==> answers(
                    architecture@,
                    provider@,
                    #[trigger] texts(requested@)[k],
                    texts(configured@),
                ),
        decreases requested@.len() - i,
    {
        let label: &str = requested[i].as_str();
        let answered: bool = if same_ignoring_case(label, "self-hosted") {
            true
        } else if is_runner_system_label(label) {
            runner_supports_system_label(architecture, provider, label)
        } else {
            holds_ignoring_case(configured, label)
        };
        proof {
            assert(texts(requested@)[i as int] == label@);
        }
        if !answered {
            return false;
        }
        i += 1;
    }
    true
}

/// The position of the first provider whose runners can take a job; the number
/// of providers where none can.
fn compatible_position(
    architecture: &str,
    providers: &[String],
    requested: &[String],
    configured: &[String],
) -> (r: usize)
    ensures
        r == compatible(
            architecture@,
            texts(providers@),
            texts(requested@),
            texts(configured@),
            0,
        ),
        r <= providers@.len(),
{
    let mut i: usize = 0;
    while i < providers.len()
        invariant
            i <= providers@.len(),
            compatible(
                architecture@,
                texts(providers@),
                texts(requested@),
                texts(configured@),
                i as int,
            ) == compatible(
                architecture@,
                texts(providers@),
                texts(requested@),
                texts(configured@),
                0,
            ),
        decreases providers@.len() - i,
    {
        if provider_supports_labels(architecture, providers[i].as_str(), requested, configured) {
            return i;
        }
        i += 1;
    }
    i
}

/// The first of the providers whose runners can take a job.
pub fn compatible_runner_provider(
    architecture: &str,
    providers: &[String],
    requested: &[String],
    configured: &[String],
) -> (r: Option<String>)
    ensures
        ({
            let i = compatible(
                architecture@,
                texts(providers@),
                texts(requested@),
                texts(configured@),
                0,
            );
            match r {
                Some(provider) => 0 <= i < providers@.len() && provider@ == providers@[i]@,
                None => i == providers@.len(),
            }
        }),
{
    let i: usize = compatible_position(architecture, providers, requested, configured);
    if i < providers.len() {
        Some(providers[i].clone())
    } else {
        None
    }
}

/// The provider that a job goes to can take it, and no earlier one can.
pub proof fn the_first_compatible_provider_is_chosen(
    architecture: Seq<char>,
    providers: Seq<Seq<char>>,
    requested: Seq<Seq<char>>,
    configured: Seq<Seq<char>>,
    from: int,
)
    requires
        0 <= from <= providers.len(),
    ensures
        ({
            let i = compatible(architecture, providers, requested, configured, from);
            &&& from <= i <= providers.len()
            &&& i < providers.len() ==> supports(architecture, providers[i], requested, configured)
            &&& forall|k: int|
                from <= k < i ==> !supports(
                    architecture,
                    #[trigger] providers[k],
                    requested,
                    configured,
                )
        }),
    decreases providers.len() - from,
{
    if from < providers.len() && !supports(architecture, providers[from], requested, configured) {
        the_first_compatible_provider_is_chosen(
            architecture,
            providers,
            requested,
            configured,
            from + 1,
        );
    }
}

/// No runner takes both a job that asks for Linux and one that asks for macOS,
/// whatever labels its pool has when the one job comes and when the other comes.
/// This covers every processor architecture: only one whose label were `macos`
/// itself is left out, and there is none of that name.
pub proof fn linux_and_macos_jobs_never_share_a_provider(
    architecture: Seq<char>,
    provider: Seq<char>,
    linux_job: Seq<Seq<char>>,
    macos_job: Seq<Seq<char>>,
    configured_first: Seq<Seq<char>>,
    configured_then: Seq<Seq<char>>,
)
    requires
        holds(linux_job, "linux"@),
        holds(macos_job, "macos"@),
        lower(arch_label(architecture)) != lower("macos"@),
    ensures
        !(supports(architecture, provider, linux_job, configured_first) && supports(
            architecture,
            provider,
            macos_job,
            configured_then,
        )),
{
    let i = choose|i: int| 0 <= i < linux_job.len() && lower(#[trigger] linux_job[i]) == lower("linux"@);
    let j = choose|j: int| 0 <= j < macos_job.len() && lower(#[trigger] macos_job[j]) == lower("macos"@);
    reveal_strlit("linux");
    reveal_strlit("macos");
    reveal_strlit("macOS");
    reveal_strlit("ARM64");
    reveal_strlit("self-hosted");
    let labels = system_labels(architecture, provider);
    assert(lower("linux"@).len() == 5);
    assert(lower("self-hosted"@).len() == 11);
    assert(lower("macos"@)[0] == 'm');
    assert(lower("macOS"@)[0] == 'm');
    assert(lower("ARM64"@)[0] == 'a');
    assert(lower("linux"@)[0] == 'l');
    assert(lower("macos"@).len() == 5);
    if provider == "tart"@ {
        assert(labels[0] == "self-hosted"@ && labels[1] == "macOS"@ && labels[2] == "ARM64"@);
        assert(!holds(labels, linux_job[i]));
    } else {
        assert(labels[0] == "self-hosted"@ && labels[1] == "linux"@);
        assert(!holds(labels, macos_job[j]));
    }
}

/// A runner can take a job that asks for two lists of labels exactly if it can take
/// one that asks for the first and one that asks for the second.
pub proof fn labels_are_asked_for_one_by_one(
    architecture: Seq<char>,
    provider: Seq<char>,
    first: Seq<Seq<char>>,
    second: Seq<Seq<char>>,
    configured: Seq<Seq<char>>,
)
    ensures
        supports(architecture, provider, first + second, configured) == (supports(
            architecture,
            provider,
            first,
            configured,
        ) && supports(architecture, provider, second, configured)),
{
    let both = first + second;
    if supports(architecture, provider, both, configured) {
        assert forall|i: int| 0 <= i < first.len() implies answers(
            architecture,
            provider,
            #[trigger] first[i],
            configured,
        ) by {
            assert(both[i] == first[i]);
        }
        assert forall|i: int| 0 <= i < second.len() implies answers(
            architecture,
            provider,
            #[trigger] second[i],
            configured,
        ) by {
            assert(both[first.len() + i] == second[i]);
        }
    }
}

// ---------------------------------------------------------------------------
// The labels that a runner registers with

/// The system labels, and then each configured label that is not one of the
/// system and does not stand there already.
pub open spec fn effective(system: Seq<Seq<char>>, configured: Seq<Seq<char>>) -> Seq<Seq<char>>
    decreases configured.len(),
{
    if configured.len() == 0 {
        system
    } else {
        let before = effective(system, configured.drop_last());
        if !system_label(configured.last()) && !holds(before, configured.last()) {
            before.push(configured.last())
        } else {
            before
        }
    }
}

/// The labels that a runner registers with.
pub fn effective_runner_labels(architecture: &str, provider: &str, configured: &[String]) -> (r:
    Vec<String>)
    ensures
        texts(r@) == effective(system_labels(architecture@, provider@), texts(configured@)),
{
    let ghost system = system_labels(architecture@, provider@);
    let mut labels: Vec<String> = runner_system_labels(architecture, provider);
    let mut i: usize = 0;
    while i < configured.len()
        invariant
            i <= configured@.len(),
            texts(labels@) == effective(system, texts(configured@).take(i as int)),
        decreases configured@.len() - i,
    {
        let ghost before = texts(labels@);
        proof {
            let next = texts(configured@).take(i + 1);
            assert(next.drop_last() =~= texts(configured@).take(i as int));
            assert(next.last() == configured@[i as int]@);
        }
        if !is_runner_system_label(configured[i].as_str()) && !holds_ignoring_case(
            labels.as_slice(),
            configured[i].as_str(),
        ) {
            labels.push(configured[i].clone());
            proof {
                assert(texts(labels@) =~= before.push(configured@[i as int]@));
            }
        }
        i += 1;
    }
    proof {
        assert(texts(configured@).take(configured@.len() as int) =~= texts(configured@));
    }
    labels
}

/// No two of the texts agree but for the case of ASCII letters.
pub open spec fn distinct_ignoring_case(list: Seq<Seq<char>>) -> bool {
    forall|i: int, j: int|
        0 <= i < j < list.len() ==> lower(#[trigger] list[i]) != lower(#[trigger] list[j])
}

/// A runner registers with all its system labels in front, with every configured
/// label that is not one of the system, with no other label, and with none twice.
pub proof fn effective_labels_are_complete_and_distinct(
    system: Seq<Seq<char>>,
    configured: Seq<Seq<char>>,
)
    requires
        distinct_ignoring_case(system),
    ensures
        system.is_prefix_of(effective(system, configured)),
        distinct_ignoring_case(effective(system, configured)),
        forall|i: int|
            0 <= i < configured.len() && !system_label(#[trigger] configured[i]) ==> holds(
                effective(system, configured),
                configured[i],
            ),
        forall|k: int|
            system.len() <= k < effective(system, configured).len() ==> configured.contains(
                #[trigger] effective(system, configured)[k],
            ) && !system_label(effective(system, configured)[k]),
    decreases configured.len(),
{
    let all = effective(system, configured);
    if configured.len() > 0 {
        let front = configured.drop_last();
        let before = effective(system, front);
        let label = configured.last();
        effective_labels_are_complete_and_distinct(system, front);
        assert forall|i: int|
            0 <= i < configured.len() && !system_label(#[trigger] configured[i]) implies holds(
            all,
            configured[i],
        ) by {
            if i < front.len() {
                assert(front[i] == configured[i]);
                assert(holds(before, front[i]));
                let k = choose|k: int|
                    0 <= k < before.len() && lower(#[trigger] before[k]) == lower(front[i]);
                assert(all[k] == before[k]);
            } else if !holds(before, label) {
                assert(all[all.len() - 1] == label);
            }
        }
        assert forall|k: int| system.len() <= k < all.len() implies configured.contains(
            #[trigger] all[k],
        ) && !system_label(all[k]) by {
            if k < before.len() {
                assert(all[k] == before[k]);
                assert(front.contains(before[k]));
                let m = choose|m: int| 0 <= m < front.len() && front[m] == before[k];
                assert(configured[m] == all[k]);
            } else {
                assert(configured[configured.len() - 1] == all[k]);
            }
        }
        assert forall|i: int, j: int| 0 <= i < j < all.len() implies lower(#[trigger] all[i])
            != lower(#[trigger] all[j]) by {
            assert(all[i] == before[i]);
            if j < before.len() {
                assert(all[j] == before[j]);
            }
        }
    }
}

// ---------------------------------------------------------------------------
// How many runners are wanted

/// The number of runners that busy ones and queued jobs ask for.
pub open spec fn demand(busy: i64, queued: i64, factor: i64) -> int {
    saturated(busy + saturated(queued * factor))
}

/// The number of runners to aim for: what is asked for, at least what is
/// desired already, at most the maximum.
pub open spec fn target(desired: i64, busy: i64, queued: i64, factor: i64, maximum: i64) -> int {
    smaller(maximum as int, larger(desired as int, demand(busy, queued, factor)))
}

fn demanded(busy: i64, queued: i64, factor: i64) -> (r: i64)
    ensures
        r == demand(busy, queued, factor),
{
    sum_saturated(busy, product_saturated(queued, factor))
}

/// The number of runners to aim for.
pub fn scale_up_target(desired: i64, busy: i64, queued: i64, factor: i64, maximum: i64) -> (r: i64)
    ensures
        r == target(desired, busy, queued, factor, maximum),
{
    min(maximum, max(desired, demanded(busy, queued, factor)))
}

/// Asking again for the same work does not raise the target again.
pub proof fn scaling_up_is_idempotent(
    desired: i64,
    busy: i64,
    queued: i64,
    factor: i64,
    maximum: i64,
)
    ensures
        target(
            target(desired, busy, queued, factor, maximum) as i64,
            busy,
            queued,
            factor,
            maximum,
        ) == target(desired, busy, queued, factor, maximum),
{
}

/// The target never exceeds the maximum, and never lies below what is desired
/// within it.
pub proof fn scaling_up_is_bounded(
    desired: i64,
    busy: i64,
    queued: i64,
    factor: i64,
    maximum: i64,
)
    ensures
        target(desired, busy, queued, factor, maximum) <= maximum,
        desired <= maximum ==> desired <= target(desired, busy, queued, factor, maximum),
        demand(busy, queued, factor) <= maximum ==> demand(busy, queued, factor) <= target(
            desired,
            busy,
            queued,
            factor,
            maximum,
        ),
{
}

/// More queued jobs never lower the target.
pub proof fn scaling_up_is_monotonic(
    desired: i64,
    busy: i64,
    queued: i64,
    more: i64,
    factor: i64,
    maximum: i64,
)
    requires
        queued <= more,
        factor >= 0,
    ensures
        target(desired, busy, queued, factor, maximum) <= target(
            desired,
            busy,
            more,
            factor,
            maximum,
        ),
{
    assert(queued * factor <= more * factor) by (nonlinear_arith)
        requires
            queued <= more,
            factor >= 0,
    ;
}

// ---------------------------------------------------------------------------
// Capacity by provider and by repository

/// What a repository of a pool has and needs.
#[derive(Clone, Debug)]
pub struct RepositoryCapacity {
    pub repository_id: i64,
    pub installation_id: i64,
    pub owner: String,
    pub name: String,
    pub queued: i64,
    pub active: i64,
    pub busy: i64,
}

/// The model of a repository's capacity.
pub struct RepositoryView {
    pub repository_id: i64,
    pub installation_id: i64,
    pub owner: Seq<char>,
    pub name: Seq<char>,
    pub queued: i64,
    pub active: i64,
    pub busy: i64,
}

impl View for RepositoryCapacity {
    type V = RepositoryView;

    open spec fn view(&self) -> RepositoryView {
        RepositoryView {
            repository_id: self.repository_id,
            installation_id: self.installation_id,
            owner: self.owner@,
            name: self.name@,
            queued: self.queued,
            active: self.active,
            busy: self.busy,
        }
    }
}

impl RepositoryCapacity {
    /// A copy of the capacity.
    pub fn copy(&self) -> (r: RepositoryCapacity)
        ensures
            r@ == self@,
    {
        RepositoryCapacity {
            repository_id: self.repository_id,
            installation_id: self.installation_id,
            owner: self.owner.clone(),
            name: self.name.clone(),
            queued: self.queued,
            active: self.active,
            busy: self.busy,
        }
    }
}

/// What a provider of a pool has and needs.
#[derive(Clone, Debug)]
pub struct ProviderCapacity {
    pub provider: String,
    pub queued: i64,
    pub active: i64,
    pub busy: i64,
}

/// The model of a provider's capacity.
pub struct ProviderView {
    pub provider: Seq<char>,
    pub queued: i64,
    pub active: i64,
    pub busy: i64,
}

impl View for ProviderCapacity {
    type V = ProviderView;

    open spec fn view(&self) -> ProviderView {
        ProviderView {
            provider: self.provider@,
            queued: self.queued,
            active: self.active,
            busy: self.busy,
        }
    }
}

/// How many runners are missing: negative where there are more than asked for.
pub open spec fn deficit(busy: i64, queued: i64, active: i64, factor: i64) -> int {
    saturated(demand(busy, queued, factor) - active)
}

fn missing(busy: i64, queued: i64, active: i64, factor: i64) -> (r: i64)
    ensures
        r == deficit(busy, queued, active, factor),
{
    difference_saturated(demanded(busy, queued, factor), active)
}

/// How many runners of a provider are missing.
pub fn provider_capacity_deficit(capacity: &ProviderCapacity, factor: i64) -> (r: i64)
    ensures
        r == deficit(capacity.busy, capacity.queued, capacity.active, factor),
{
    missing(capacity.busy, capacity.queued, capacity.active, factor)
}

/// How many runners of a repository are missing.
pub fn repository_capacity_deficit(capacity: &RepositoryCapacity, factor: i64) -> (r: i64)
    ensures
        r == deficit(capacity.busy, capacity.queued, capacity.active, factor),
{
    missing(capacity.busy, capacity.queued, capacity.active, factor)
}

/// More runners are active than busy ones and queued jobs ask for.
pub open spec fn surplus(busy: i64, queued: i64, active: i64, factor: i64) -> bool {
    active > demand(busy, queued, factor)
}

/// Whether more runners are active than are asked for.
pub fn has_surplus(busy: i64, queued: i64, active: i64, factor: i64) -> (r: bool)
    ensures
        r == surplus(busy, queued, active, factor),
{
    active > demanded(busy, queued, factor)
}

/// A queued job that a pool has been given.
#[derive(Clone, Debug)]
pub struct QueuedJob {
    pub repository_id: i64,
    pub labels: Vec<String>,
}

/// The active and the busy runners of a provider.
#[derive(Clone, Debug)]
pub struct ProviderRunners {
    pub provider: String,
    pub active: i64,
    pub busy: i64,
}

/// A job counts for a repository, or for every repository where none is named.
pub open spec fn counts_for(job: QueuedJob, repository_id: Option<i64>) -> bool {
    repository_id is None || repository_id->0 == job.repository_id
}

/// The number of jobs that go to the provider at position `i`.
pub open spec fn queued_count(
    architecture: Seq<char>,
    providers: Seq<Seq<char>>,
    configured: Seq<Seq<char>>,
    jobs: Seq<QueuedJob>,
    repository_id: Option<i64>,
    i: int,
) -> nat
    decreases jobs.len(),
{
    if jobs.len() == 0 {
        0
    } else {
        let job = jobs.last();
        let before = queued_count(
            architecture,
            providers,
            configured,
            jobs.drop_last(),
            repository_id,
            i,
        );
        if counts_for(job, repository_id) && compatible(
            architecture,
            providers,
            texts(job.labels@),
            configured,
            0,
        ) == i {
            before + 1
        } else {
            before
        }
    }
}

/// The last of the rows for a provider.
pub open spec fn last_row(rows: Seq<ProviderRunners>, provider: Seq<char>) -> Option<
    ProviderRunners,
>
    decreases rows.len(),
{
    if rows.len() == 0 {
        None
    } else if rows.last().provider@ == provider {
        Some(rows.last())
    } else {
        last_row(rows.drop_last(), provider)
    }
}

/// The same provider stands earlier in the list.
pub open spec fn repeated(providers: Seq<Seq<char>>, i: int) -> bool {
    exists|k: int| 0 <= k < i && #[trigger] providers[k] == providers[i]
}

/// The capacity of the provider at position `i`.
pub open spec fn capacity_at(
    architecture: Seq<char>,
    providers: Seq<Seq<char>>,
    configured: Seq<Seq<char>>,
    jobs: Seq<QueuedJob>,
    rows: Seq<ProviderRunners>,
    repository_id: Option<i64>,
    i: int,
) -> ProviderView {
    let row = last_row(rows, providers[i]);
    let counted = row is Some && !repeated(providers, i);
    ProviderView {
        provider: providers[i],
        queued: saturated(
            queued_count(architecture, providers, configured, jobs, repository_id, i) as int,
        ) as i64,
        active: if counted {
            row->0.active
        } else {
            0
        },
        busy: if counted {
            row->0.busy
        } else {
            0
        },
    }
}

fn count_queued(
    architecture: &str,
    providers: &[String],
    configured: &[String],
    jobs: &[QueuedJob],
    repository_id: Option<i64>,
    i: usize,
) -> (r: i64)
    ensures
        r == saturated(
            queued_count(
                architecture@,
                texts(providers@),
                texts(configured@),
                jobs@,
                repository_id,
                i as int,
            ) as int,
        ),
{
    let mut count: i64 = 0;
    let mut k: usize = 0;
    while k < jobs.len()
        invariant
            k <= jobs@.len(),
            count == saturated(
                queued_count(
                    architecture@,
                    texts(providers@),
                    texts(configured@),
                    jobs@.take(k as int),
                    repository_id,
                    i as int,
                ) as int,
            ),
        decreases jobs@.len() - k,
    {
        proof {
            let next = jobs@.take(k + 1);
            assert(next.drop_last() =~= jobs@.take(k as int));
            assert(next.last() == jobs@[k as int]);
        }
        let counted: bool = match repository_id {
            Some(id) => id == jobs[k].repository_id,
            None => true,
        };
        if counted && compatible_position(
            architecture,
            providers,
            jobs[k].labels.as_slice(),
            configured,
        ) == i {
            count = sum_saturated(count, 1);
        }
        k += 1;
    }
    proof {
        assert(jobs@.take(jobs@.len() as int) =~= jobs@);
    }
    count
}

fn find_row<'a>(rows: &'a [ProviderRunners], provider: &str) -> (r: Option<&'a ProviderRunners>)
    ensures
        match r {
            Some(row) => last_row(rows@, provider@) == Some(*row),
            None => last_row(rows@, provider@) is None,
        },
{
    let mut k: usize = rows.len();
    proof {
        assert(rows@.take(k as int) =~= rows@);
    }
    while k > 0
        invariant
            k <= rows@.len(),
            last_row(rows@.take(k as int), provider@) == last_row(rows@, provider@),
        decreases k,
    {
        proof {
            let here = rows@.take(k as int);
            assert(here.last() == rows@[k - 1]);
            assert(here.drop_last() =~= rows@.take(k - 1));
        }
        if same(rows[k - 1].provider.as_str(), provider) {
            return Some(&rows[k - 1]);
        }
        k -= 1;
    }
    None
}

fn is_repeated(providers: &[String], i: usize) -> (r: bool)
    requires
        i < providers@.len(),
    ensures
        r == repeated(texts(providers@), i as int),
{
    let mut k: usize = 0;
    while k < i
        invariant
            k <= i < providers@.len(),
            forall|j: int| 0 <= j < k ==> #[trigger] texts(providers@)[j] != texts(providers@)[i as int],
        decreases i - k,
    {
        proof {
            assert(texts(providers@)[k as int] == providers@[k as int]@);
        }
        if same(providers[k].as_str(), providers[i].as_str()) {
            return true;
        }
        k += 1;
    }
    false
}

/// The capacity of each provider of a pool, from the queued jobs that the pool
/// has been given and the runners that it has. With a repository, only the jobs
/// of that repository count.
pub fn provider_capacities(
    architecture: &str,
    providers: &[String],
    configured: &[String],
    jobs: &[QueuedJob],
    rows: &[ProviderRunners],
    repository_id: Option<i64>,
) -> (r: Vec<ProviderCapacity>)
    ensures
        r@.len() == providers@.len(),
        forall|i: int|
            0 <= i < r@.len() ==> (#[trigger] r@[i])@ == capacity_at(
                architecture@,
                texts(providers@),
                texts(configured@),
                jobs@,
                rows@,
                repository_id,
                i,
            ),
{
    let mut out: Vec<ProviderCapacity> = Vec::new();
    let mut i: usize = 0;
    while i < providers.len()
        invariant
            i <= providers@.len(),
            out@.len() == i,
            forall|k: int|
                0 <= k < i ==> (#[trigger] out@[k])@ == capacity_at(
                    architecture@,
                    texts(providers@),
                    texts(configured@),
                    jobs@,
                    rows@,
                    repository_id,
                    k,
                ),
        decreases providers@.len() - i,
    {
        let queued: i64 = count_queued(
            architecture,
            providers,
            configured,
            jobs,
            repository_id,
            i,
        );
        let mut active: i64 = 0;
        let mut busy: i64 = 0;
        if !is_repeated(providers, i) {
            if let Some(row) = find_row(rows, providers[i].as_str()) {
                active = row.active;
                busy = row.busy;
            }
        }
        proof {
            assert(texts(providers@)[i as int] == providers@[i as int]@);
        }
        out.push(ProviderCapacity { provider: providers[i].clone(), queued, active, busy });
        i += 1;
    }
    out
}

/// The number of jobs that count and that some provider can take.
pub open spec fn placeable_count(
    architecture: Seq<char>,
    providers: Seq<Seq<char>>,
    configured: Seq<Seq<char>>,
    jobs: Seq<QueuedJob>,
    repository_id: Option<i64>,
) -> nat
    decreases jobs.len(),
{
    if jobs.len() == 0 {
        0
    } else {
        placeable_count(architecture, providers, configured, jobs.drop_last(), repository_id) + if
            counts_for(jobs.last(), repository_id) && compatible(
                architecture,
                providers,
                texts(jobs.last().labels@),
                configured,
                0,
            ) < providers.len() {
            1nat
        } else {
            0nat
        }
    }
}

/// The number of jobs that go to the first `n` providers.
pub open spec fn queued_total(
    architecture: Seq<char>,
    providers: Seq<Seq<char>>,
    configured: Seq<Seq<char>>,
    jobs: Seq<QueuedJob>,
    repository_id: Option<i64>,
    n: int,
) -> nat
    decreases n,
{
    if n <= 0 {
        0
    } else {
        queued_total(architecture, providers, configured, jobs, repository_id, n - 1)
            + queued_count(architecture, providers, configured, jobs, repository_id, n - 1)
    }
}

proof fn lemma_queued_total(
    architecture: Seq<char>,
    providers: Seq<Seq<char>>,
    configured: Seq<Seq<char>>,
    jobs: Seq<QueuedJob>,
    repository_id: Option<i64>,
    n: int,
)
    requires
        0 <= n <= providers.len(),
        jobs.len() > 0,
    ensures
        queued_total(architecture, providers, configured, jobs, repository_id, n) == queued_total(
            architecture,
            providers,
            configured,
            jobs.drop_last(),
            repository_id,
            n,
        ) + if counts_for(jobs.last(), repository_id) && compatible(
            architecture,
            providers,
            texts(jobs.last().labels@),
            configured,
            0,
        ) < n {
            1nat
        } else {
            0nat
        },
    decreases n,
{
    the_first_compatible_provider_is_chosen(
        architecture,
        providers,
        texts(jobs.last().labels@),
        configured,
        0,
    );
    if n > 0 {
        lemma_queued_total(architecture, providers, configured, jobs, repository_id, n - 1);
    }
}

/// Every queued job that some provider of the pool can take is counted for
/// exactly one provider.
pub proof fn each_job_counts_for_one_provider(
    architecture: Seq<char>,
    providers: Seq<Seq<char>>,
    configured: Seq<Seq<char>>,
    jobs: Seq<QueuedJob>,
    repository_id: Option<i64>,
)
    ensures
        queued_total(
            architecture,
            providers,
            configured,
            jobs,
            repository_id,
            providers.len() as int,
        ) == placeable_count(architecture, providers, configured, jobs, repository_id),
    decreases jobs.len(),
{
    let n = providers.len() as int;
    if jobs.len() == 0 {
        lemma_no_jobs(architecture, providers, configured, jobs, repository_id, n);
    } else {
        each_job_counts_for_one_provider(
            architecture,
            providers,
            configured,
            jobs.drop_last(),
            repository_id,
        );
        lemma_queued_total(architecture, providers, configured, jobs, repository_id, n);
    }
}

proof fn lemma_no_jobs(
    architecture: Seq<char>,
    providers: Seq<Seq<char>>,
    configured: Seq<Seq<char>>,
    jobs: Seq<QueuedJob>,
    repository_id: Option<i64>,
    n: int,
)
    requires
        jobs.len() == 0,
    ensures
        queued_total(architecture, providers, configured, jobs, repository_id, n) == 0,
    decreases n,
{
    if n > 0 {
        lemma_no_jobs(architecture, providers, configured, jobs, repository_id, n - 1);
    }
}

// ---------------------------------------------------------------------------
// The next runner

/// Provider `a` needs a runner more than `b` does.
pub open spec fn needier(a: ProviderView, b: ProviderView, factor: i64) -> bool {
    let da = deficit(a.busy, a.queued, a.active, factor);
    let db = deficit(b.busy, b.queued, b.active, factor);
    da > db || (da == db && a.queued > b.queued)
}

/// The neediest of the first `n` providers that lack a runner; the earliest one
/// of those that need it equally.
pub open spec fn neediest(list: Seq<ProviderCapacity>, factor: i64, n: int) -> Option<int>
    decreases n,
{
    if n <= 0 {
        None
    } else {
        let best = neediest(list, factor, n - 1);
        let here = list[n - 1]@;
        if deficit(here.busy, here.queued, here.active, factor) <= 0 {
            best
        } else {
            match best {
                Some(k) => if needier(here, list[k]@, factor) {
                    Some(n - 1)
                } else {
                    best
                },
                None => Some(n - 1),
            }
        }
    }
}

proof fn lemma_neediest_range(list: Seq<ProviderCapacity>, factor: i64, n: int)
    ensures
        neediest(list, factor, n) is Some ==> 0 <= neediest(list, factor, n)->0 < n,
    decreases n,
{
    if n > 0 {
        lemma_neediest_range(list, factor, n - 1);
    }
}

/// The provider of the next runner: the neediest one, or the pool's first one
/// where no provider lacks a runner.
pub fn next_runner_provider(capacities: &[ProviderCapacity], factor: i64) -> (r: Option<String>)
    ensures
        match r {
            Some(provider) => capacities@.len() > 0 && provider@ == match neediest(
                capacities@,
                factor,
                capacities@.len() as int,
            ) {
                Some(k) => capacities@[k].provider@,
                None => capacities@[0].provider@,
            },
            None => capacities@.len() == 0,
        },
{
    if capacities.len() == 0 {
        return None;
    }
    let mut best: Option<usize> = None;
    let mut i: usize = 0;
    while i < capacities.len()
        invariant
            i <= capacities@.len(),
            match best {
                Some(k) => neediest(capacities@, factor, i as int) == Some(k as int) && k < i,
                None => neediest(capacities@, factor, i as int) is None,
            },
        decreases capacities@.len() - i,
    {
        let here: i64 = provider_capacity_deficit(&capacities[i], factor);
        if here > 0 {
            match best {
                Some(k) => {
                    let there: i64 = provider_capacity_deficit(&capacities[k], factor);
                    if here > there || (here == there && capacities[i].queued
                        > capacities[k].queued) {
                        best = Some(i);
                    }
                },
                None => {
                    best = Some(i);
                },
            }
        }
        i += 1;
    }
    match best {
        Some(k) => Some(capacities[k].provider.clone()),
        None => Some(capacities[0].provider.clone()),
    }
}

/// No provider needs the next runner more than the one that gets it, and of those
/// that need it as much, it is the first.
pub proof fn the_neediest_provider_gets_the_next_runner(
    list: Seq<ProviderCapacity>,
    factor: i64,
    n: int,
)
    requires
        0 <= n <= list.len(),
    ensures
        match neediest(list, factor, n) {
            Some(k) => 0 <= k < n && deficit(
                list[k]@.busy,
                list[k]@.queued,
                list[k]@.active,
                factor,
            ) > 0 && (forall|i: int| 0 <= i < n ==> !needier((#[trigger] list[i])@, list[k]@, factor))
                && (forall|i: int| 0 <= i < k ==> needier(list[k]@, (#[trigger] list[i])@, factor)),
            None => forall|i: int|
                0 <= i < n ==> deficit(
                    (#[trigger] list[i])@.busy,
                    list[i]@.queued,
                    list[i]@.active,
                    factor,
                ) <= 0,
        },
    decreases n,
{
    if n > 0 {
        the_neediest_provider_gets_the_next_runner(list, factor, n - 1);
        lemma_neediest_range(list, factor, n - 1);
    }
}

/// Repository `a` comes before `b`: it lacks more runners, or has more queued
/// jobs, or fewer active runners, or the smaller number.
pub open spec fn placed_before(a: RepositoryView, b: RepositoryView, factor: i64) -> bool {
    let da = deficit(a.busy, a.queued, a.active, factor);
    let db = deficit(b.busy, b.queued, b.active, factor);
    ||| da > db
    ||| da == db && a.queued > b.queued
    ||| da == db && a.queued == b.queued && a.active < b.active
    ||| da == db && a.queued == b.queued && a.active == b.active && a.repository_id
        < b.repository_id
}

/// The first repository in that order of the first `n`.
pub open spec fn foremost(list: Seq<RepositoryCapacity>, factor: i64, n: int) -> int
    decreases n,
{
    if n <= 1 {
        0
    } else {
        let best = foremost(list, factor, n - 1);
        if placed_before(list[n - 1]@, list[best]@, factor) {
            n - 1
        } else {
            best
        }
    }
}

/// The repository that the next runner is for.
pub fn next_runner_repository(capacities: &[RepositoryCapacity], factor: i64) -> (r: Option<
    RepositoryCapacity,
>)
    ensures
        match r {
            Some(repository) => capacities@.len() > 0 && repository@ == capacities@[foremost(
                capacities@,
                factor,
                capacities@.len() as int,
            )]@,
            None => capacities@.len() == 0,
        },
{
    if capacities.len() == 0 {
        return None;
    }
    let mut best: usize = 0;
    let mut i: usize = 1;
    while i < capacities.len()
        invariant
            1 <= i <= capacities@.len(),
            best < i,
            best == foremost(capacities@, factor, i as int),
        decreases capacities@.len() - i,
    {
        let a: &RepositoryCapacity = &capacities[i];
        let b: &RepositoryCapacity = &capacities[best];
        let da: i64 = repository_capacity_deficit(a, factor);
        let db: i64 = repository_capacity_deficit(b, factor);
        if da > db || (da == db && (a.queued > b.queued || (a.queued == b.queued && (a.active
            < b.active || (a.active == b.active && a.repository_id < b.repository_id))))) {
            best = i;
        }
        i += 1;
    }
    Some(capacities[best].copy())
}

/// No repository comes before the one that the next runner is for.
pub proof fn the_foremost_repository_gets_the_next_runner(
    list: Seq<RepositoryCapacity>,
    factor: i64,
    n: int,
)
    requires
        0 < n <= list.len(),
    ensures
        0 <= foremost(list, factor, n) < n,
        forall|i: int|
            0 <= i < n ==> !placed_before(
                (#[trigger] list[i])@,
                list[foremost(list, factor, n)]@,
                factor,
            ),
    decreases n,
{
    if n > 1 {
        the_foremost_repository_gets_the_next_runner(list, factor, n - 1);
    }
}

// ---------------------------------------------------------------------------
// What is asked for, and who gets it

/// Each busy runner asks for itself and each queued job for as many runners as the factor
/// says: one more busy runner raises the demand by one, whatever the factor, and one more
/// queued job by the factor. Without queued jobs the factor does not matter.
pub proof fn the_factor_is_for_queued_jobs_alone(busy: i64, queued: i64, factor: i64, other: i64)
    requires
        i64::MIN <= queued * factor <= i64::MAX,
        i64::MIN <= busy + queued * factor <= i64::MAX,
    ensures
        demand(busy, queued, factor) == busy + queued * factor,
        demand(busy, 0, factor) == busy,
        demand(busy, 0, factor) == demand(busy, 0, other),
        busy < i64::MAX && busy + queued * factor < i64::MAX ==> demand(
            (busy + 1) as i64,
            queued,
            factor,
        ) == demand(busy, queued, factor) + 1,
        queued < i64::MAX && i64::MIN <= (queued + 1) * factor <= i64::MAX && i64::MIN <= busy + (
        queued + 1) * factor <= i64::MAX ==> demand(busy, (queued + 1) as i64, factor) == demand(
            busy,
            queued,
            factor,
        ) + factor,
{
    assert(0 * factor == 0 && 0 * other == 0) by (nonlinear_arith);
    assert((queued + 1) * factor == queued * factor + factor) by (nonlinear_arith);
}

/// A demand beyond what can be counted is as large, or as small, as can be counted.
pub proof fn demand_does_not_wrap(busy: i64, queued: i64, factor: i64)
    requires
        busy >= 0,
        queued >= 0,
        factor >= 0,
        busy + queued * factor > i64::MAX,
    ensures
        demand(busy, queued, factor) == i64::MAX,
{
    assert(queued * factor >= 0) by (nonlinear_arith)
        requires
            queued >= 0,
            factor >= 0,
    ;
}

/// The target is the largest of what is desired, and of what busy runners and queued jobs
/// ask for, but not more than the maximum. With nothing queued it is what is desired or
/// the number of busy runners, whichever is more, for every factor.
pub proof fn the_target_is_the_demand_within_bounds(
    desired: i64,
    busy: i64,
    queued: i64,
    factor: i64,
    maximum: i64,
)
    requires
        i64::MIN <= queued * factor <= i64::MAX,
        i64::MIN <= busy + queued * factor <= i64::MAX,
    ensures
        ({
            let wanted = busy + queued * factor;
            let r = target(desired, busy, queued, factor, maximum);
            &&& r <= maximum
            &&& r == maximum || (r >= desired && r >= wanted)
            &&& r == maximum || r == desired || r == wanted
            &&& r == maximum ==> desired >= maximum || wanted >= maximum
        }),
        target(desired, busy, 0, factor, maximum) == if maximum <= desired || maximum <= busy {
            maximum as int
        } else if desired >= busy {
            desired as int
        } else {
            busy as int
        },
{
    assert(0 * factor == 0) by (nonlinear_arith);
}

/// What is missing is what is asked for less what is active, and there is a surplus
/// exactly where more is active than is asked for.
pub proof fn what_is_missing_is_not_active(busy: i64, queued: i64, active: i64, factor: i64)
    requires
        i64::MIN <= queued * factor <= i64::MAX,
        i64::MIN <= busy + queued * factor <= i64::MAX,
        i64::MIN <= busy + queued * factor - active <= i64::MAX,
    ensures
        deficit(busy, queued, active, factor) == busy + queued * factor - active,
        surplus(busy, queued, active, factor) <==> busy + queued * factor < active,
        surplus(busy, queued, active, factor) <==> deficit(busy, queued, active, factor) < 0,
{
}

/// The provider that gets the next runner lacks one; no provider lacks more, none that
/// lacks as many has more queued jobs, and none before it has as many of both.
pub proof fn the_next_runner_goes_where_most_are_missing(
    list: Seq<ProviderCapacity>,
    factor: i64,
    i: int,
)
    requires
        0 <= i < list.len(),
    ensures
        ({
            let here = deficit(list[i].busy, list[i].queued, list[i].active, factor);
            match neediest(list, factor, list.len() as int) {
                Some(k) => {
                    let most = deficit(list[k].busy, list[k].queued, list[k].active, factor);
                    &&& 0 <= k < list.len()
                    &&& most > 0
                    &&& here <= most
                    &&& here == most ==> list[i].queued <= list[k].queued
                    &&& here == most && list[i].queued == list[k].queued ==> k <= i
                },
                None => here <= 0,
            }
        }),
{
    the_neediest_provider_gets_the_next_runner(list, factor, list.len() as int);
    assert(!needier(list[i]@, list[i]@, factor));
}

/// The repository that gets the next runner lacks as many as any; of those that lack as
/// many it has the most queued jobs, then the fewest active runners, then the smallest
/// number.
pub proof fn the_next_runner_is_for_the_neediest_repository(
    list: Seq<RepositoryCapacity>,
    factor: i64,
    i: int,
)
    requires
        0 <= i < list.len(),
    ensures
        ({
            let k = foremost(list, factor, list.len() as int);
            let here = deficit(list[i].busy, list[i].queued, list[i].active, factor);
            let most = deficit(list[k].busy, list[k].queued, list[k].active, factor);
            &&& 0 <= k < list.len()
            &&& here <= most
            &&& here == most ==> list[i].queued <= list[k].queued
            &&& here == most && list[i].queued == list[k].queued ==> list[i].active
                >= list[k].active
            &&& here == most && list[i].queued == list[k].queued && list[i].active
                == list[k].active ==> list[i].repository_id >= list[k].repository_id
        }),
{
    the_foremost_repository_gets_the_next_runner(list, factor, list.len() as int);
    assert(list[i]@.repository_id == list[i].repository_id);
}

/// A job counts for the provider at a position exactly if it is of the repository that is
/// asked for, or none is, that provider can take it, and no provider before it can.
pub proof fn jobs_count_for_the_first_provider_that_takes_them(
    architecture: Seq<char>,
    providers: Seq<Seq<char>>,
    configured: Seq<Seq<char>>,
    jobs: Seq<QueuedJob>,
    repository_id: Option<i64>,
    i: int,
)
    requires
        0 <= i < providers.len(),
    ensures
        queued_count(architecture, providers, configured, jobs, repository_id, i) == jobs.filter(
            |job: QueuedJob|
                (repository_id is None || repository_id->0 == job.repository_id) && supports(
                    architecture,
                    providers[i],
                    texts(job.labels@),
                    configured,
                ) && forall|k: int|
                    0 <= k < i ==> !supports(
                        architecture,
                        #[trigger] providers[k],
                        texts(job.labels@),
                        configured,
                    ),
        ).len(),
    decreases jobs.len(),
{
    reveal(Seq::filter);
    if jobs.len() > 0 {
        jobs_count_for_the_first_provider_that_takes_them(
            architecture,
            providers,
            configured,
            jobs.drop_last(),
            repository_id,
            i,
        );
        the_first_compatible_provider_is_chosen(
            architecture,
            providers,
            texts(jobs.last().labels@),
            configured,
            0,
        );
    }
}

/// A provider of a pool has the active and busy runners that the last row for it tells,
/// and none where it has no row or stands earlier in the list already.
pub proof fn providers_have_the_runners_of_their_row(
    architecture: Seq<char>,
    providers: Seq<Seq<char>>,
    configured: Seq<Seq<char>>,
    jobs: Seq<QueuedJob>,
    rows: Seq<ProviderRunners>,
    repository_id: Option<i64>,
    i: int,
    k: int,
)
    requires
        0 <= i < providers.len(),
        0 <= k < rows.len(),
        rows[k].provider@ == providers[i],
        forall|j: int| k < j < rows.len() ==> (#[trigger] rows[j]).provider@ != providers[i],
    ensures
        ({
            let found = capacity_at(
                architecture,
                providers,
                configured,
                jobs,
                rows,
                repository_id,
                i,
            );
            &&& found.provider == providers[i]
            &&& (forall|j: int| 0 <= j < i ==> #[trigger] providers[j] != providers[i])
                ==> found.active == rows[k].active && found.busy == rows[k].busy
            &&& (exists|j: int| 0 <= j < i && #[trigger] providers[j] == providers[i])
                ==> found.active == 0 && found.busy == 0
        }),
    decreases rows.len(),
{
    lemma_last_row(rows, providers[i], k);
}

proof fn lemma_last_row(rows: Seq<ProviderRunners>, provider: Seq<char>, k: int)
    requires
        0 <= k < rows.len(),
        rows[k].provider@ == provider,
        forall|j: int| k < j < rows.len() ==> (#[trigger] rows[j]).provider@ != provider,
    ensures
        last_row(rows, provider) == Some(rows[k]),
    decreases rows.len(),
{
    if k < rows.len() - 1 {
        let front = rows.drop_last();
        assert(rows[rows.len() - 1].provider@ != provider);
        assert forall|j: int| k < j < front.len() implies (#[trigger] front[j]).provider@
            != provider by {
            assert(front[j] == rows[j]);
        }
        lemma_last_row(front, provider, k);
    }
}

/// Which labels a runner answers to: every one is self-hosted; in a container it is Linux
/// and has the host's processor, in a machine of Tart it is macOS on ARM; none is Windows;
/// and it answers to any other label exactly if that is configured. Case does not matter.
pub proof fn runners_answer_to_their_system_and_their_labels(
    architecture: Seq<char>,
    provider: Seq<char>,
    requested: Seq<char>,
    configured: Seq<Seq<char>>,
)
    ensures
        lower(requested) == "self-hosted"@ ==> answers(
            architecture,
            provider,
            requested,
            configured,
        ),
        lower(requested) == "linux"@ && provider != "tart"@ ==> answers(
            architecture,
            provider,
            requested,
            configured,
        ),
        lower(requested) == "linux"@ && provider == "tart"@ ==> !answers(
            architecture,
            provider,
            requested,
            configured,
        ),
        lower(requested) == "macos"@ && provider == "tart"@ ==> answers(
            architecture,
            provider,
            requested,
            configured,
        ),
        lower(requested) == "arm64"@ && provider == "tart"@ ==> answers(
            architecture,
            provider,
            requested,
            configured,
        ),
        lower(requested) == "x64"@ && provider == "tart"@ ==> !answers(
            architecture,
            provider,
            requested,
            configured,
        ),
        lower(requested) == "x64"@ && provider != "tart"@ && architecture == "x86_64"@ ==> answers(
            architecture,
            provider,
            requested,
            configured,
        ),
        lower(requested) == "x64"@ && provider != "tart"@ && architecture == "aarch64"@
            ==> !answers(architecture, provider, requested, configured),
        lower(requested) == "arm64"@ && provider != "tart"@ && architecture == "aarch64"@
            ==> answers(architecture, provider, requested, configured),
        lower(requested) == "arm64"@ && provider != "tart"@ && architecture == "x86_64"@
            ==> !answers(architecture, provider, requested, configured),
        lower(requested) == "macos"@ && provider != "tart"@ && (architecture == "x86_64"@
            || architecture == "aarch64"@) ==> !answers(
            architecture,
            provider,
            requested,
            configured,
        ),
        lower(requested) == "windows"@ && (provider == "tart"@ || architecture == "x86_64"@
            || architecture == "aarch64"@) ==> !answers(
            architecture,
            provider,
            requested,
            configured,
        ),
{
    reveal_strlit("self-hosted");
    reveal_strlit("linux");
    reveal_strlit("macos");
    reveal_strlit("macOS");
    reveal_strlit("ARM64");
    reveal_strlit("arm64");
    reveal_strlit("x64");
    reveal_strlit("windows");
    assert(lower("self-hosted"@) =~= "self-hosted"@);
    assert(lower("linux"@) =~= "linux"@);
    assert(lower("macos"@) =~= "macos"@);
    assert(lower("macOS"@) =~= "macos"@);
    assert(lower("ARM64"@) =~= "arm64"@);
    assert(lower("arm64"@) =~= "arm64"@);
    assert(lower("x64"@) =~= "x64"@);
    assert(lower("windows"@) =~= "windows"@);
    assert("linux"@[0] == 'l' && "macos"@[0] == 'm' && "arm64"@[0] == 'a' && "x64"@[0] == 'x'
        && "windows"@[0] == 'w' && "self-hosted"@[0] == 's');
    lemma_architectures_differ();
    let labels = system_labels(architecture, provider);
    assert(labels.len() == 3);
    assert(lower(labels[0]) == "self-hosted"@);
    if provider == "tart"@ {
        assert(lower(labels[1]) == "macos"@ && lower(labels[2]) == "arm64"@);
    } else {
        assert(lower(labels[1]) == "linux"@ && labels[2] == arch_label(architecture));
    }
    assert(holds(labels, requested) == (lower(labels[0]) == lower(requested) || lower(labels[1])
        == lower(requested) || lower(labels[2]) == lower(requested))) by {
        if holds(labels, requested) {
            let i = choose|i: int|
                0 <= i < labels.len() && lower(#[trigger] labels[i]) == lower(requested);
            assert(i == 0 || i == 1 || i == 2);
        }
    }
}

proof fn lemma_architectures_differ()
    ensures
        "x86_64"@ != "aarch64"@,
{
    reveal_strlit("x86_64");
    reveal_strlit("aarch64");
    assert("x86_64"@[0] == 'x' && "aarch64"@[0] == 'a');
}

/// A label that speaks of no system is answered exactly by runners that are configured
/// with it, and the case of letters does not matter for any label.
pub proof fn other_labels_are_answered_where_they_are_configured(
    architecture: Seq<char>,
    provider: Seq<char>,
    requested: Seq<char>,
    again: Seq<char>,
    configured: Seq<Seq<char>>,
)
    requires
        lower(requested) == lower(again),
    ensures
        answers(architecture, provider, requested, configured) == answers(
            architecture,
            provider,
            again,
            configured,
        ),
        system_label(requested) <==> lower(requested) == "self-hosted"@ || lower(requested)
            == "linux"@ || lower(requested) == "macos"@ || lower(requested) == "windows"@ || lower(
            requested,
        ) == "x64"@ || lower(requested) == "arm64"@ || lower(requested) == "arm"@ || lower(
            requested,
        ) == "x86"@,
        !system_label(requested) ==> (answers(architecture, provider, requested, configured)
            <==> exists|i: int|
            0 <= i < configured.len() && lower(#[trigger] configured[i]) == lower(requested)),
{
    reveal_strlit("self-hosted");
    reveal_strlit("linux");
    reveal_strlit("macos");
    reveal_strlit("windows");
    reveal_strlit("x64");
    reveal_strlit("arm64");
    reveal_strlit("arm");
    reveal_strlit("x86");
    assert(lower("self-hosted"@) =~= "self-hosted"@);
    assert(lower("linux"@) =~= "linux"@);
    assert(lower("macos"@) =~= "macos"@);
    assert(lower("windows"@) =~= "windows"@);
    assert(lower("x64"@) =~= "x64"@);
    assert(lower("arm64"@) =~= "arm64"@);
    assert(lower("arm"@) =~= "arm"@);
    assert(lower("x86"@) =~= "x86"@);
    let labels = system_labels(architecture, provider);
    assert(holds(labels, requested) == holds(labels, again));
    assert(holds(configured, requested) == holds(configured, again));
}

}
