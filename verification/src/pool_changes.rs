//! New and changed runner pools: what is stored for a request, and when the
//! runners of a pool have to be replaced.
use vstd::prelude::*;

use crate::error::{ApiError, ErrorView};
use crate::json::{encode_strings, strings_json};
use crate::models::{image_of, providers_of, runtime_of, CreateRunnerPool, UpdateRunnerPool};
use crate::numbers::{decimal_i64, length_i64, saturated, signed_decimal, sum_saturated};
use crate::order::{lemma_sorted_set_unique, sorted_set_of};
use crate::pages::{
    bitbucket_runner_labels, normalized_pool_labels, other_labels, remote_labels_ok,
    remote_pool_label,
};
use crate::search::list_contains;
use crate::text::{concat5, copy_strings, same, texts};

verus! {

/// A runner pool as those who may see it see it. The processor limit is in
/// billionths of a processor.
#[derive(Debug)]
pub struct PoolAccess {
    pub installation_id: i64,
    pub installation_permission: String,
    pub account_login: String,
    pub repository_id: Option<i64>,
    pub repository_owner: Option<String>,
    pub repository_name: Option<String>,
    pub name: String,
    pub scope: String,
    pub mode: String,
    pub provider: String,
    pub providers: String,
    pub labels: String,
    pub image: String,
    pub docker_image: String,
    pub tart_image: String,
    pub macos_runtime: String,
    pub desired_count: i64,
    pub min_count: i64,
    pub max_count: i64,
    pub cpu_limit: i64,
    pub memory_limit_mb: i64,
    pub runner_group_id: i64,
    pub ephemeral: bool,
    pub paused: bool,
    pub state: String,
    pub autoscaling_enabled: bool,
    pub queue_scale_factor: i64,
    pub idle_timeout_minutes: i64,
    pub configuration_version: i64,
    pub provision_failure_count: i64,
    pub provision_retry_at: Option<i64>,
    pub provision_circuit_open: bool,
}

/// What is stored of a pool. The lists are JSON texts.
#[derive(Debug)]
pub struct PoolRecord {
    pub installation_id: i64,
    pub repository_id: Option<i64>,
    pub name: String,
    pub mode: String,
    pub provider: String,
    pub providers: String,
    pub labels: String,
    pub image: String,
    pub docker_image: String,
    pub tart_image: String,
    pub macos_runtime: String,
    pub desired_count: i64,
    pub min_count: i64,
    pub max_count: i64,
    pub cpu_limit: i64,
    pub memory_limit_mb: i64,
    pub ephemeral: bool,
    pub runner_group_id: i64,
    pub autoscaling_enabled: bool,
    pub queue_scale_factor: i64,
    pub idle_timeout_minutes: i64,
}

/// The model of what is stored of a pool; its lists are as they are meant.
pub struct RecordView {
    pub installation_id: i64,
    pub repository_id: Option<i64>,
    pub name: Seq<char>,
    pub mode: Seq<char>,
    pub providers: Seq<Seq<char>>,
    pub labels: Seq<Seq<char>>,
    pub docker_image: Seq<char>,
    pub tart_image: Seq<char>,
    pub macos_runtime: Seq<char>,
    pub desired_count: i64,
    pub min_count: i64,
    pub max_count: i64,
    pub cpu_limit: i64,
    pub memory_limit_mb: i64,
    pub runner_group_id: i64,
    pub autoscaling_enabled: bool,
    pub queue_scale_factor: i64,
    pub idle_timeout_minutes: i64,
}

impl PoolRecord {
    /// The record stores what is meant: the first provider is the pool's own,
    /// and so is its image.
    pub open spec fn stores(&self, view: RecordView) -> bool {
        &&& self.installation_id == view.installation_id
        &&& self.repository_id == view.repository_id
        &&& self.name@ == view.name
        &&& self.mode@ == view.mode
        &&& view.providers.len() > 0
        &&& self.provider@ == view.providers[0]
        &&& self.providers@ == strings_json(view.providers)
        &&& self.labels@ == strings_json(view.labels)
        &&& self.image@ == if view.providers[0] == "tart"@ {
            view.tart_image
        } else {
            view.docker_image
        }
        &&& self.docker_image@ == view.docker_image
        &&& self.tart_image@ == view.tart_image
        &&& self.macos_runtime@ == view.macos_runtime
        &&& self.desired_count == view.desired_count
        &&& self.min_count == view.min_count
        &&& self.max_count == view.max_count
        &&& self.cpu_limit == view.cpu_limit
        &&& self.memory_limit_mb == view.memory_limit_mb
        &&& self.ephemeral == (view.mode == "ephemeral"@)
        &&& self.runner_group_id == view.runner_group_id
        &&& self.autoscaling_enabled == view.autoscaling_enabled
        &&& self.queue_scale_factor == view.queue_scale_factor
        &&& self.idle_timeout_minutes == view.idle_timeout_minutes
    }
}

/// The group of a pool's runners: one for repositories has the usual one.
pub open spec fn group_of(scope: Seq<char>, runner_group_id: i64) -> i64 {
    if scope == "repository"@ {
        1
    } else {
        runner_group_id
    }
}

/// The number of a first element, if there is one.
pub open spec fn first_of(list: Seq<i64>) -> Option<i64> {
    if list.len() == 0 {
        None
    } else {
        Some(list[0])
    }
}

/// What a request for a new pool asks to be stored, with the given labels.
pub open spec fn created_view(
    input: CreateRunnerPool,
    repositories: Seq<i64>,
    first_installation: Option<i64>,
    labels: Seq<Seq<char>>,
) -> RecordView {
    RecordView {
        installation_id: match first_installation {
            Some(id) => id,
            None => input.installation_id,
        },
        repository_id: first_of(repositories),
        name: input.name@,
        mode: input.mode@,
        providers: providers_of(input.provider@, texts(input.providers@)),
        labels,
        docker_image: image_of("docker"@, input.provider@, input.image@, input.docker_image@),
        tart_image: image_of("tart"@, input.provider@, input.image@, input.tart_image@),
        macos_runtime: runtime_of(input.macos_runtime@),
        desired_count: input.desired_count,
        min_count: input.min_count,
        max_count: input.max_count,
        cpu_limit: input.cpu_limit,
        memory_limit_mb: input.memory_limit_mb,
        runner_group_id: group_of(input.scope@, input.runner_group_id),
        autoscaling_enabled: input.autoscaling_enabled,
        queue_scale_factor: input.queue_scale_factor,
        idle_timeout_minutes: input.idle_timeout_minutes,
    }
}

/// What a request to change a pool asks to be stored, with the given labels.
pub open spec fn updated_view(
    input: UpdateRunnerPool,
    pool: PoolAccess,
    repositories: Seq<i64>,
    first_installation: Option<i64>,
    labels: Seq<Seq<char>>,
) -> RecordView {
    RecordView {
        installation_id: match first_installation {
            Some(id) => id,
            None => pool.installation_id,
        },
        repository_id: first_of(repositories),
        name: input.name@,
        mode: input.mode@,
        providers: providers_of(input.provider@, texts(input.providers@)),
        labels,
        docker_image: image_of("docker"@, input.provider@, input.image@, input.docker_image@),
        tart_image: image_of("tart"@, input.provider@, input.image@, input.tart_image@),
        macos_runtime: runtime_of(input.macos_runtime@),
        desired_count: input.desired_count,
        min_count: input.min_count,
        max_count: input.max_count,
        cpu_limit: input.cpu_limit,
        memory_limit_mb: input.memory_limit_mb,
        runner_group_id: group_of(pool.scope@, input.runner_group_id),
        autoscaling_enabled: input.autoscaling_enabled,
        queue_scale_factor: input.queue_scale_factor,
        idle_timeout_minutes: input.idle_timeout_minutes,
    }
}

// ---------------------------------------------------------------------------
// Labels

/// The labels of a pool are the given ones and its name, in order, each once.
pub open spec fn pool_labels_are(
    labels: Seq<Seq<char>>,
    name: Seq<char>,
    additional: Seq<Seq<char>>,
) -> bool {
    sorted_set_of(labels, additional.push(name))
}

/// The labels are those with which the pool's runners register at Bitbucket.
pub open spec fn remote_labels_are(
    remote: Seq<Seq<char>>,
    name: Seq<char>,
    labels: Seq<Seq<char>>,
) -> bool {
    sorted_set_of(remote, seq![remote_pool_label(name)] + other_labels(labels, name))
}

/// What is wrong with the labels of a pool, if anything is: there are more than
/// 20, or Bitbucket would not take them where the pool is connected to it.
pub open spec fn labels_refused(
    name: Seq<char>,
    additional: Seq<Seq<char>>,
    connected: bool,
    error: ErrorView,
) -> bool {
    exists|labels: Seq<Seq<char>>| #[trigger]
        pool_labels_are(labels, name, additional) && if labels.len() > 20 {
            error == ErrorView::BadRequest(
                "A runner pool can have at most 20 labels including its pool-name label."@,
            )
        } else {
            &&& connected
            &&& exists|remote: Seq<Seq<char>>| #[trigger]
                remote_labels_are(remote, name, labels) && !remote_labels_ok(remote)
            &&& error == ErrorView::BadRequest(
                "Bitbucket runner labels must use lowercase letters, numbers, and dots; at most 10 are allowed."@,
            )
        }
}

/// The labels can be used.
pub open spec fn labels_usable(
    labels: Seq<Seq<char>>,
    name: Seq<char>,
    additional: Seq<Seq<char>>,
    connected: bool,
) -> bool {
    &&& pool_labels_are(labels, name, additional)
    &&& labels.len() <= 20
    &&& connected ==> exists|remote: Seq<Seq<char>>| #[trigger]
        remote_labels_are(remote, name, labels) && remote_labels_ok(remote)
}

/// The labels of a pool.
fn checked_labels(name: &str, additional: &[String], connected: bool) -> (r: Result<
    Vec<String>,
    ApiError,
>)
    ensures
        match r {
            Ok(labels) => labels_usable(texts(labels@), name@, texts(additional@), connected),
            Err(error) => labels_refused(name@, texts(additional@), connected, error@),
        },
{
    let labels: Vec<String> = match normalized_pool_labels(name, additional) {
        Ok(labels) => labels,
        Err(error) => {
            proof {
                let all = choose|all: Seq<Seq<char>>| #[trigger]
                    sorted_set_of(all, texts(additional@).push(name@)) && all.len() > 20;
                assert(pool_labels_are(all, name@, texts(additional@)));
            }
            return Err(error);
        },
    };
    proof {
        assert(pool_labels_are(texts(labels@), name@, texts(additional@)));
    }
    if connected {
        match bitbucket_runner_labels(name, labels.as_slice()) {
            Ok(remote) => {
                proof {
                    assert(remote_labels_are(texts(remote@), name@, texts(labels@)));
                }
            },
            Err(error) => {
                proof {
                    let wanted = seq![remote_pool_label(name@)] + other_labels(
                        texts(labels@),
                        name@,
                    );
                    let all = choose|all: Seq<Seq<char>>| #[trigger]
                        sorted_set_of(all, wanted) && !remote_labels_ok(all);
                    assert(remote_labels_are(all, name@, texts(labels@)));
                }
                return Err(error);
            },
        }
    }
    Ok(labels)
}

/// Labels are either used or refused, and refused with one error.
pub proof fn labels_are_used_or_refused(
    labels: Seq<Seq<char>>,
    name: Seq<char>,
    additional: Seq<Seq<char>>,
    connected: bool,
    error: ErrorView,
    other: ErrorView,
)
    requires
        labels_refused(name, additional, connected, error),
    ensures
        !labels_usable(labels, name, additional, connected),
        labels_refused(name, additional, connected, other) ==> other == error,
{
    let refused = choose|refused: Seq<Seq<char>>| #[trigger]
        pool_labels_are(refused, name, additional) && if refused.len() > 20 {
            error == ErrorView::BadRequest(
                "A runner pool can have at most 20 labels including its pool-name label."@,
            )
        } else {
            &&& connected
            &&& exists|remote: Seq<Seq<char>>| #[trigger]
                remote_labels_are(remote, name, refused) && !remote_labels_ok(remote)
            &&& error == ErrorView::BadRequest(
                "Bitbucket runner labels must use lowercase letters, numbers, and dots; at most 10 are allowed."@,
            )
        };
    if labels_usable(labels, name, additional, connected) {
        lemma_sorted_set_unique(labels, refused, additional.push(name));
        let good = choose|remote: Seq<Seq<char>>| #[trigger]
            remote_labels_are(remote, name, labels) && remote_labels_ok(remote);
        let bad = choose|remote: Seq<Seq<char>>| #[trigger]
            remote_labels_are(remote, name, refused) && !remote_labels_ok(remote);
        lemma_sorted_set_unique(
            good,
            bad,
            seq![remote_pool_label(name)] + other_labels(labels, name),
        );
    }
    if labels_refused(name, additional, connected, other) {
        let again = choose|again: Seq<Seq<char>>| #[trigger]
            pool_labels_are(again, name, additional) && if again.len() > 20 {
                other == ErrorView::BadRequest(
                    "A runner pool can have at most 20 labels including its pool-name label."@,
                )
            } else {
                &&& connected
                &&& exists|remote: Seq<Seq<char>>| #[trigger]
                    remote_labels_are(remote, name, again) && !remote_labels_ok(remote)
                &&& other == ErrorView::BadRequest(
                    "Bitbucket runner labels must use lowercase letters, numbers, and dots; at most 10 are allowed."@,
                )
            };
        lemma_sorted_set_unique(again, refused, additional.push(name));
    }
}

// ---------------------------------------------------------------------------
// New pools

/// What is stored of a new pool.
#[derive(Debug)]
pub struct PoolCreation {
    pub record: PoolRecord,
    pub labels: Vec<String>,
}

/// The first of a list, if there is one.
fn first_number(list: &[i64]) -> (r: Option<i64>)
    ensures
        r == first_of(list@),
{
    if list.len() == 0 {
        None
    } else {
        Some(list[0])
    }
}

/// What is stored of a new pool. `repositories` are those of the pool,
/// `first_installation` the installation of the first of them, and `connected`
/// says whether the pool has connections to Bitbucket.
pub fn plan_creation(
    input: &CreateRunnerPool,
    repositories: &[i64],
    first_installation: Option<i64>,
    connected: bool,
) -> (r: Result<PoolCreation, ApiError>)
    ensures
        match r {
            Ok(creation) => labels_usable(
                texts(creation.labels@),
                input.name@,
                texts(input.labels@),
                connected,
            ) && creation.record.stores(
                created_view(*input, repositories@, first_installation, texts(creation.labels@)),
            ),
            Err(error) => labels_refused(
                input.name@,
                texts(input.labels@),
                connected,
                error@,
            ),
        },
{
    let labels: Vec<String> = match checked_labels(
        input.name.as_str(),
        input.labels.as_slice(),
        connected,
    ) {
        Ok(labels) => labels,
        Err(error) => {
            return Err(error);
        },
    };
    let providers: Vec<String> = input.selected_providers();
    let docker_image: String = input.selected_docker_image();
    let tart_image: String = input.selected_tart_image();
    proof {
        assert(texts(providers@).len() == providers@.len());
        assert(texts(providers@)[0] == providers@[0]@);
    }
    let record: PoolRecord = PoolRecord {
        installation_id: match first_installation {
            Some(id) => id,
            None => input.installation_id,
        },
        repository_id: first_number(repositories),
        name: input.name.clone(),
        mode: input.mode.clone(),
        provider: providers[0].clone(),
        providers: encode_strings(providers.as_slice()),
        labels: encode_strings(labels.as_slice()),
        image: if same(providers[0].as_str(), "tart") {
            tart_image.clone()
        } else {
            docker_image.clone()
        },
        docker_image,
        tart_image,
        macos_runtime: input.selected_macos_runtime(),
        desired_count: input.desired_count,
        min_count: input.min_count,
        max_count: input.max_count,
        cpu_limit: input.cpu_limit,
        memory_limit_mb: input.memory_limit_mb,
        ephemeral: same(input.mode.as_str(), "ephemeral"),
        runner_group_id: if same(input.scope.as_str(), "repository") {
            1
        } else {
            input.runner_group_id
        },
        autoscaling_enabled: input.autoscaling_enabled,
        queue_scale_factor: input.queue_scale_factor,
        idle_timeout_minutes: input.idle_timeout_minutes,
    };
    Ok(PoolCreation { record, labels })
}

/// The instants under which the members of a pool are stored: each one after
/// the one before, so that their order is kept.
pub fn membership_times(now: i64, count: usize) -> (r: Vec<i64>)
    ensures
        r@.len() == count,
        forall|i: int| 0 <= i < count ==> #[trigger] r@[i] == saturated(now + saturated(i)),
{
    let mut out: Vec<i64> = Vec::new();
    let mut i: usize = 0;
    while i < count
        invariant
            i <= count,
            out@.len() == i,
            forall|k: int| 0 <= k < i ==> #[trigger] out@[k] == saturated(now + saturated(k)),
        decreases count - i,
    {
        out.push(sum_saturated(now, length_i64(i)));
        i += 1;
    }
    out
}

// ---------------------------------------------------------------------------
// Changed pools

/// The connections of a changed pool: those that are asked for, or else those
/// that it has.
pub open spec fn connections_asked(input: UpdateRunnerPool, existing: Seq<Seq<char>>) -> Seq<
    Seq<char>,
> {
    match input.bitbucket_connection_ids {
        Some(list) => texts(list@),
        None => existing,
    }
}

/// The connections of a changed pool.
pub fn updated_connections(input: &UpdateRunnerPool, existing: &[String]) -> (r: Vec<String>)
    ensures
        texts(r@) == connections_asked(*input, texts(existing@)),
{
    match &input.bitbucket_connection_ids {
        Some(list) => copy_strings(list.as_slice()),
        None => copy_strings(existing),
    }
}

/// The repositories of a changed pool: those that are asked for, or else those
/// that it has. A pool for an organization has none.
pub open spec fn repositories_asked(
    input: UpdateRunnerPool,
    scope: Seq<char>,
    repository_id: Option<i64>,
    existing: Seq<i64>,
) -> Seq<i64> {
    if scope != "repository"@ {
        Seq::empty()
    } else {
        match input.repository_ids {
            Some(list) => list@,
            None => if existing.len() == 0 {
                match repository_id {
                    Some(id) => seq![id],
                    None => Seq::empty(),
                }
            } else {
                existing
            },
        }
    }
}

/// What is wrong with the repositories of a changed pool, if anything is.
pub open spec fn repositories_refused(
    input: UpdateRunnerPool,
    scope: Seq<char>,
    repositories: Seq<i64>,
) -> Option<Seq<char>> {
    if scope == "repository"@ && repositories.len() == 0 {
        Some("A repository pool requires at least one repository."@)
    } else if saturated(repositories.len() as int) > input.max_count {
        Some("Repository count cannot exceed maximum runner capacity."@)
    } else if input.repository_ids is Some && scope != "repository"@ {
        Some("Organization pools use runner-group repository access."@)
    } else {
        None
    }
}

fn copy_numbers(list: &[i64]) -> (r: Vec<i64>)
    ensures
        r@ == list@,
{
    let mut out: Vec<i64> = Vec::new();
    let mut i: usize = 0;
    while i < list.len()
        invariant
            i <= list@.len(),
            out@ == list@.take(i as int),
        decreases list@.len() - i,
    {
        out.push(list[i]);
        i += 1;
        proof {
            assert(out@ =~= list@.take(i as int));
        }
    }
    proof {
        assert(list@.take(list@.len() as int) =~= list@);
    }
    out
}

/// The repositories of a changed pool.
pub fn updated_repositories(input: &UpdateRunnerPool, pool: &PoolAccess, existing: &[i64]) -> (r:
    Result<Vec<i64>, ApiError>)
    ensures
        ({
            let asked = repositories_asked(*input, pool.scope@, pool.repository_id, existing@);
            match repositories_refused(*input, pool.scope@, asked) {
                Some(message) => r is Err && r->Err_0@ == ErrorView::BadRequest(message),
                None => r is Ok && r->Ok_0@ == asked,
            }
        }),
{
    let for_repositories: bool = same(pool.scope.as_str(), "repository");
    let mut repositories: Vec<i64> = Vec::new();
    if for_repositories {
        match &input.repository_ids {
            Some(list) => {
                repositories = copy_numbers(list.as_slice());
            },
            None => {
                if existing.len() == 0 {
                    if let Some(id) = pool.repository_id {
                        repositories.push(id);
                    }
                } else {
                    repositories = copy_numbers(existing);
                }
            },
        }
    }
    proof {
        assert(repositories@ =~= repositories_asked(
            *input,
            pool.scope@,
            pool.repository_id,
            existing@,
        ));
    }
    if for_repositories && repositories.len() == 0 {
        return Err(
            ApiError::BadRequest("A repository pool requires at least one repository.".to_owned()),
        );
    }
    if length_i64(repositories.len()) > input.max_count {
        return Err(
            ApiError::BadRequest(
                "Repository count cannot exceed maximum runner capacity.".to_owned(),
            ),
        );
    }
    if input.repository_ids.is_some() && !for_repositories {
        return Err(
            ApiError::BadRequest(
                "Organization pools use runner-group repository access.".to_owned(),
            ),
        );
    }
    Ok(repositories)
}

/// Two lists have the same members.
pub open spec fn same_members<T>(a: Seq<T>, b: Seq<T>) -> bool {
    forall|x: T| a.contains(x) <==> b.contains(x)
}

fn number_listed(list: &[i64], n: i64) -> (r: bool)
    ensures
        r == list@.contains(n),
{
    let mut i: usize = 0;
    while i < list.len()
        invariant
            i <= list@.len(),
            forall|k: int| 0 <= k < i ==> list@[k] != n,
        decreases list@.len() - i,
    {
        if list[i] == n {
            return true;
        }
        i += 1;
    }
    false
}

fn numbers_listed(a: &[i64], b: &[i64]) -> (r: bool)
    ensures
        r == (forall|x: i64| a@.contains(x) ==> b@.contains(x)),
{
    let mut i: usize = 0;
    while i < a.len()
        invariant
            i <= a@.len(),
            forall|k: int| 0 <= k < i ==> b@.contains(#[trigger] a@[k]),
        decreases a@.len() - i,
    {
        if !number_listed(b, a[i]) {
            proof {
                assert(a@.contains(a@[i as int]));
            }
            return false;
        }
        i += 1;
    }
    true
}

fn texts_listed(a: &[String], b: &[String]) -> (r: bool)
    ensures
        r == (forall|x: Seq<char>| texts(a@).contains(x) ==> texts(b@).contains(x)),
{
    let mut i: usize = 0;
    while i < a.len()
        invariant
            i <= a@.len(),
            forall|k: int| 0 <= k < i ==> texts(b@).contains(#[trigger] texts(a@)[k]),
        decreases a@.len() - i,
    {
        proof {
            assert(texts(a@)[i as int] == a@[i as int]@);
        }
        if !list_contains(b, a[i].as_str()) {
            proof {
                assert(texts(a@).contains(texts(a@)[i as int]));
            }
            return false;
        }
        i += 1;
    }
    true
}

/// What a change of a pool stores.
#[derive(Debug)]
pub struct PoolUpdate {
    pub record: PoolRecord,
    pub labels: Vec<String>,
    pub runtime_changed: bool,
    pub configuration_version: i64,
    pub state: String,
}

/// What is stored differs from what the pool has in something that its runners
/// were made with.
pub open spec fn runtime_differs(
    pool: PoolAccess,
    record: PoolRecord,
    repositories_changed: bool,
    connections_changed: bool,
) -> bool {
    ||| pool.name@ != record.name@
    ||| pool.mode@ != record.mode@
    ||| pool.provider@ != record.provider@
    ||| pool.providers@ != record.providers@
    ||| pool.labels@ != record.labels@
    ||| pool.image@ != record.image@
    ||| pool.docker_image@ != record.docker_image@
    ||| pool.tart_image@ != record.tart_image@
    ||| pool.macos_runtime@ != record.macos_runtime@
    ||| pool.cpu_limit != record.cpu_limit
    ||| pool.memory_limit_mb != record.memory_limit_mb
    ||| pool.runner_group_id != record.runner_group_id
    ||| repositories_changed
    ||| connections_changed
}

/// A change stores what is asked for, and has the runners replaced where they
/// were made with something else.
pub open spec fn updates(
    update: PoolUpdate,
    input: UpdateRunnerPool,
    pool: PoolAccess,
    existing_repositories: Seq<i64>,
    existing_connections: Seq<Seq<char>>,
    repositories: Seq<i64>,
    connections: Seq<Seq<char>>,
    first_installation: Option<i64>,
) -> bool {
    &&& labels_usable(texts(update.labels@), input.name@, texts(input.labels@), connections.len() > 0)
    &&& update.record.stores(
        updated_view(input, pool, repositories, first_installation, texts(update.labels@)),
    )
    &&& update.runtime_changed == runtime_differs(
        pool,
        update.record,
        !same_members(existing_repositories, repositories),
        !same_members(existing_connections, connections),
    )
    &&& update.configuration_version == pool.configuration_version + if update.runtime_changed {
        1int
    } else {
        0int
    }
    &&& update.state@ == if update.runtime_changed && !pool.paused {
        "updating"@
    } else {
        pool.state@
    }
}

/// What a change of a pool stores. Failures to start runners are forgotten.
pub fn plan_update(
    input: &UpdateRunnerPool,
    pool: &PoolAccess,
    existing_repositories: &[i64],
    existing_connections: &[String],
    repositories: &[i64],
    connections: &[String],
    first_installation: Option<i64>,
) -> (r: Result<PoolUpdate, ApiError>)
    requires
        pool.configuration_version < i64::MAX,
    ensures
        match r {
            Ok(update) => updates(
                update,
                *input,
                *pool,
                existing_repositories@,
                texts(existing_connections@),
                repositories@,
                texts(connections@),
                first_installation,
            ),
            Err(error) => labels_refused(
                input.name@,
                texts(input.labels@),
                connections@.len() > 0,
                error@,
            ),
        },
{
    let labels: Vec<String> = match checked_labels(
        input.name.as_str(),
        input.labels.as_slice(),
        connections.len() > 0,
    ) {
        Ok(labels) => labels,
        Err(error) => {
            return Err(error);
        },
    };
    let providers: Vec<String> = input.selected_providers();
    let docker_image: String = input.selected_docker_image();
    let tart_image: String = input.selected_tart_image();
    proof {
        assert(texts(providers@).len() == providers@.len());
        assert(texts(providers@)[0] == providers@[0]@);
    }
    let record: PoolRecord = PoolRecord {
        installation_id: match first_installation {
            Some(id) => id,
            None => pool.installation_id,
        },
        repository_id: first_number(repositories),
        name: input.name.clone(),
        mode: input.mode.clone(),
        provider: providers[0].clone(),
        providers: encode_strings(providers.as_slice()),
        labels: encode_strings(labels.as_slice()),
        image: if same(providers[0].as_str(), "tart") {
            tart_image.clone()
        } else {
            docker_image.clone()
        },
        docker_image,
        tart_image,
        macos_runtime: input.selected_macos_runtime(),
        desired_count: input.desired_count,
        min_count: input.min_count,
        max_count: input.max_count,
        cpu_limit: input.cpu_limit,
        memory_limit_mb: input.memory_limit_mb,
        ephemeral: same(input.mode.as_str(), "ephemeral"),
        runner_group_id: if same(pool.scope.as_str(), "repository") {
            1
        } else {
            input.runner_group_id
        },
        autoscaling_enabled: input.autoscaling_enabled,
        queue_scale_factor: input.queue_scale_factor,
        idle_timeout_minutes: input.idle_timeout_minutes,
    };
    let repositories_kept: bool = numbers_listed(existing_repositories, repositories)
        && numbers_listed(repositories, existing_repositories);
    let connections_kept: bool = texts_listed(existing_connections, connections) && texts_listed(
        connections,
        existing_connections,
    );
    let runtime_changed: bool = !same(pool.name.as_str(), record.name.as_str()) || !same(
        pool.mode.as_str(),
        record.mode.as_str(),
    ) || !same(pool.provider.as_str(), record.provider.as_str()) || !same(
        pool.providers.as_str(),
        record.providers.as_str(),
    ) || !same(pool.labels.as_str(), record.labels.as_str()) || !same(
        pool.image.as_str(),
        record.image.as_str(),
    ) || !same(pool.docker_image.as_str(), record.docker_image.as_str()) || !same(
        pool.tart_image.as_str(),
        record.tart_image.as_str(),
    ) || !same(pool.macos_runtime.as_str(), record.macos_runtime.as_str()) || pool.cpu_limit
        != record.cpu_limit || pool.memory_limit_mb != record.memory_limit_mb
        || pool.runner_group_id != record.runner_group_id || !repositories_kept
        || !connections_kept;
    let configuration_version: i64 = if runtime_changed {
        pool.configuration_version + 1
    } else {
        pool.configuration_version
    };
    let state: String = if runtime_changed && !pool.paused {
        "updating".to_owned()
    } else {
        pool.state.clone()
    };
    Ok(PoolUpdate { record, labels, runtime_changed, configuration_version, state })
}

/// The pool has what a change stored.
pub open spec fn has_stored(pool: PoolAccess, update: PoolUpdate) -> bool {
    &&& pool.installation_id == update.record.installation_id
    &&& pool.name@ == update.record.name@
    &&& pool.mode@ == update.record.mode@
    &&& pool.provider@ == update.record.provider@
    &&& pool.providers@ == update.record.providers@
    &&& pool.labels@ == update.record.labels@
    &&& pool.image@ == update.record.image@
    &&& pool.docker_image@ == update.record.docker_image@
    &&& pool.tart_image@ == update.record.tart_image@
    &&& pool.macos_runtime@ == update.record.macos_runtime@
    &&& pool.cpu_limit == update.record.cpu_limit
    &&& pool.memory_limit_mb == update.record.memory_limit_mb
    &&& pool.runner_group_id == update.record.runner_group_id
    &&& pool.configuration_version == update.configuration_version
}

/// A change that is made again replaces no runner: what it asks for is there.
pub proof fn repeating_a_change_replaces_no_runner(
    first: PoolUpdate,
    again: PoolUpdate,
    input: UpdateRunnerPool,
    before: PoolAccess,
    after: PoolAccess,
    old_repositories: Seq<i64>,
    old_connections: Seq<Seq<char>>,
    repositories: Seq<i64>,
    connections: Seq<Seq<char>>,
    first_installation: Option<i64>,
)
    requires
        updates(
            first,
            input,
            before,
            old_repositories,
            old_connections,
            repositories,
            connections,
            first_installation,
        ),
        has_stored(after, first),
        after.scope@ == before.scope@,
        updates(
            again,
            input,
            after,
            repositories,
            connections,
            repositories,
            connections,
            first_installation,
        ),
    ensures
        !again.runtime_changed,
        again.configuration_version == first.configuration_version,
        again.state@ == after.state@,
{
    lemma_sorted_set_unique(
        texts(first.labels@),
        texts(again.labels@),
        texts(input.labels@).push(input.name@),
    );
}

/// A change that adds or removes a repository has the runners replaced: the
/// version of the configuration goes up, and every runner is older than it.
pub proof fn changed_members_replace_the_runners(
    update: PoolUpdate,
    input: UpdateRunnerPool,
    pool: PoolAccess,
    existing_repositories: Seq<i64>,
    existing_connections: Seq<Seq<char>>,
    repositories: Seq<i64>,
    connections: Seq<Seq<char>>,
    first_installation: Option<i64>,
    runner_version: i64,
)
    requires
        updates(
            update,
            input,
            pool,
            existing_repositories,
            existing_connections,
            repositories,
            connections,
            first_installation,
        ),
        !same_members(existing_repositories, repositories) || !same_members(
            existing_connections,
            connections,
        ),
        runner_version <= pool.configuration_version,
    ensures
        update.runtime_changed,
        runner_version < update.configuration_version,
{
}

// ---------------------------------------------------------------------------
// Actions on pools

/// What is done with a pool.
#[derive(Debug, Clone, Copy, PartialEq, Eq, Structural)]
pub enum PoolDeed {
    Pause,
    Resume,
    Retry,
    Reconcile,
    Scale,
}

/// What is done with a pool, by the name of the action.
pub fn pool_deed(action: &str) -> (r: Result<PoolDeed, ApiError>)
    ensures
        if action@ == "pause"@ {
            r == Ok::<PoolDeed, ApiError>(PoolDeed::Pause)
        } else if action@ == "resume"@ {
            r == Ok::<PoolDeed, ApiError>(PoolDeed::Resume)
        } else if action@ == "retry"@ {
            r == Ok::<PoolDeed, ApiError>(PoolDeed::Retry)
        } else if action@ == "reconcile"@ {
            r == Ok::<PoolDeed, ApiError>(PoolDeed::Reconcile)
        } else if action@ == "scale"@ {
            r == Ok::<PoolDeed, ApiError>(PoolDeed::Scale)
        } else {
            r is Err && r->Err_0@ == ErrorView::BadRequest("Runner pool action is invalid."@)
        },
{
    if same(action, "pause") {
        Ok(PoolDeed::Pause)
    } else if same(action, "resume") {
        Ok(PoolDeed::Resume)
    } else if same(action, "retry") {
        Ok(PoolDeed::Retry)
    } else if same(action, "reconcile") {
        Ok(PoolDeed::Reconcile)
    } else if same(action, "scale") {
        Ok(PoolDeed::Scale)
    } else {
        Err(ApiError::BadRequest("Runner pool action is invalid.".to_owned()))
    }
}

/// A pool can be scaled to a size.
pub open spec fn scales_to(n: i64, min_count: i64, max_count: i64) -> bool {
    min_count <= n <= max_count
}

/// The size that a pool is scaled to, which lies within its bounds.
pub fn scale_to(desired: Option<i64>, min_count: i64, max_count: i64) -> (r: Result<i64, ApiError>)
    ensures
        match desired {
            None => r is Err && r->Err_0@ == ErrorView::BadRequest("desiredCount is required."@),
            Some(n) => if scales_to(n, min_count, max_count) {
                r == Ok::<i64, ApiError>(n)
            } else {
                r is Err && r->Err_0@ == ErrorView::BadRequest(
                    "Desired capacity must be between "@ + signed_decimal(min_count as int)
                        + " and "@ + signed_decimal(max_count as int) + "."@,
                )
            },
        },
{
    match desired {
        None => Err(ApiError::BadRequest("desiredCount is required.".to_owned())),
        Some(n) => if n < min_count || n > max_count {
            Err(
                ApiError::BadRequest(
                    concat5(
                        "Desired capacity must be between ",
                        decimal_i64(min_count).as_str(),
                        " and ",
                        decimal_i64(max_count).as_str(),
                        ".",
                    ),
                ),
            )
        } else {
            Ok(n)
        },
    }
}

/// The state of a pool that is paused or resumed, and the name under which that
/// is recorded.
pub fn paused_pool_state(paused: bool) -> (r: (&'static str, &'static str))
    ensures
        r.0@ == if paused {
            "draining"@
        } else {
            "active"@
        },
        r.1@ == if paused {
            "runner_pool.paused"@
        } else {
            "runner_pool.resumed"@
        },
{
    if paused {
        ("draining", "runner_pool.paused")
    } else {
        ("active", "runner_pool.resumed")
    }
}

// ---------------------------------------------------------------------------
// What a change does

/// What is stored of a new pool is what was asked for.
pub proof fn new_pools_are_stored_as_asked(
    record: PoolRecord,
    input: CreateRunnerPool,
    repositories: Seq<i64>,
    first_installation: Option<i64>,
    labels: Seq<Seq<char>>,
)
    requires
        record.stores(created_view(input, repositories, first_installation, labels)),
    ensures
        record.name@ == input.name@,
        record.mode@ == input.mode@,
        record.ephemeral <==> input.mode@ == "ephemeral"@,
        input.providers@.len() == 0 ==> record.provider@ == input.provider@,
        input.providers@.len() > 0 ==> record.provider@ == input.providers@[0]@,
        record.desired_count == input.desired_count,
        record.min_count == input.min_count,
        record.max_count == input.max_count,
        record.cpu_limit == input.cpu_limit,
        record.memory_limit_mb == input.memory_limit_mb,
        record.autoscaling_enabled == input.autoscaling_enabled,
        record.queue_scale_factor == input.queue_scale_factor,
        record.idle_timeout_minutes == input.idle_timeout_minutes,
        input.scope@ == "repository"@ ==> record.runner_group_id == 1,
        input.scope@ != "repository"@ ==> record.runner_group_id == input.runner_group_id,
        repositories.len() > 0 ==> record.repository_id == Some(repositories[0]),
        repositories.len() == 0 ==> record.repository_id is None,
        first_installation is Some ==> record.installation_id == first_installation->0,
        first_installation is None ==> record.installation_id == input.installation_id,
        input.docker_image@.len() > 0 ==> record.docker_image@ == input.docker_image@,
        input.tart_image@.len() > 0 ==> record.tart_image@ == input.tart_image@,
        record.labels@ == strings_json(labels),
{
}

/// What is stored of a changed pool is what was asked for.
pub proof fn changed_pools_are_stored_as_asked(
    record: PoolRecord,
    input: UpdateRunnerPool,
    pool: PoolAccess,
    repositories: Seq<i64>,
    first_installation: Option<i64>,
    labels: Seq<Seq<char>>,
)
    requires
        record.stores(updated_view(input, pool, repositories, first_installation, labels)),
    ensures
        record.name@ == input.name@,
        record.mode@ == input.mode@,
        record.ephemeral <==> input.mode@ == "ephemeral"@,
        input.providers@.len() == 0 ==> record.provider@ == input.provider@,
        input.providers@.len() > 0 ==> record.provider@ == input.providers@[0]@,
        record.desired_count == input.desired_count,
        record.min_count == input.min_count,
        record.max_count == input.max_count,
        record.cpu_limit == input.cpu_limit,
        record.memory_limit_mb == input.memory_limit_mb,
        record.autoscaling_enabled == input.autoscaling_enabled,
        record.queue_scale_factor == input.queue_scale_factor,
        record.idle_timeout_minutes == input.idle_timeout_minutes,
        pool.scope@ == "repository"@ ==> record.runner_group_id == 1,
        pool.scope@ != "repository"@ ==> record.runner_group_id == input.runner_group_id,
        repositories.len() > 0 ==> record.repository_id == Some(repositories[0]),
        first_installation is Some ==> record.installation_id == first_installation->0,
        first_installation is None ==> record.installation_id == pool.installation_id,
        input.docker_image@.len() > 0 ==> record.docker_image@ == input.docker_image@,
        input.tart_image@.len() > 0 ==> record.tart_image@ == input.tart_image@,
        record.labels@ == strings_json(labels),
{
}

/// A change has the runners replaced exactly if something is different with which they were
/// made: the name, the mode, the providers, the labels, an image, how macOS runs, the
/// processors, the memory, the group, the repositories or the connections. A change of the
/// sizes or of how the pool scales replaces none. The version of the configuration goes up by
/// one exactly if runners are replaced.
pub proof fn only_what_runners_are_made_with_replaces_them(
    update: PoolUpdate,
    input: UpdateRunnerPool,
    pool: PoolAccess,
    existing_repositories: Seq<i64>,
    existing_connections: Seq<Seq<char>>,
    repositories: Seq<i64>,
    connections: Seq<Seq<char>>,
    first_installation: Option<i64>,
)
    requires
        updates(
            update,
            input,
            pool,
            existing_repositories,
            existing_connections,
            repositories,
            connections,
            first_installation,
        ),
    ensures
        pool.name@ != input.name@ ==> update.runtime_changed,
        pool.mode@ != input.mode@ ==> update.runtime_changed,
        pool.cpu_limit != input.cpu_limit ==> update.runtime_changed,
        pool.memory_limit_mb != input.memory_limit_mb ==> update.runtime_changed,
        pool.labels@ != strings_json(texts(update.labels@)) ==> update.runtime_changed,
        pool.providers@ != strings_json(
            providers_of(input.provider@, texts(input.providers@)),
        ) ==> update.runtime_changed,
        input.docker_image@.len() > 0 && pool.docker_image@ != input.docker_image@
            ==> update.runtime_changed,
        input.tart_image@.len() > 0 && pool.tart_image@ != input.tart_image@
            ==> update.runtime_changed,
        input.macos_runtime@.len() > 0 && pool.macos_runtime@ != input.macos_runtime@
            ==> update.runtime_changed,
        pool.scope@ != "repository"@ && pool.runner_group_id != input.runner_group_id
            ==> update.runtime_changed,
        update.runtime_changed ==> {
            ||| pool.name@ != update.record.name@
            ||| pool.mode@ != update.record.mode@
            ||| pool.provider@ != update.record.provider@
            ||| pool.providers@ != update.record.providers@
            ||| pool.labels@ != update.record.labels@
            ||| pool.image@ != update.record.image@
            ||| pool.docker_image@ != update.record.docker_image@
            ||| pool.tart_image@ != update.record.tart_image@
            ||| pool.macos_runtime@ != update.record.macos_runtime@
            ||| pool.cpu_limit != update.record.cpu_limit
            ||| pool.memory_limit_mb != update.record.memory_limit_mb
            ||| pool.runner_group_id != update.record.runner_group_id
            ||| exists|id: i64| existing_repositories.contains(id) != repositories.contains(id)
            ||| exists|id: Seq<char>|
                existing_connections.contains(id) != connections.contains(id)
        },
        update.configuration_version == pool.configuration_version + 1
            <==> update.runtime_changed,
        update.configuration_version == pool.configuration_version <==> !update.runtime_changed,
        update.runtime_changed && !pool.paused ==> update.state@ == "updating"@,
        !update.runtime_changed || pool.paused ==> update.state@ == pool.state@,
        update.labels@.len() <= 20,
        connections.len() == 0 ==> labels_usable(
            texts(update.labels@),
            input.name@,
            texts(input.labels@),
            false,
        ),
        connections.len() > 0 ==> labels_usable(
            texts(update.labels@),
            input.name@,
            texts(input.labels@),
            true,
        ),
{
}

/// A pool for an organization has no repositories; another one has those that are asked for,
/// or else those that it has, or its own one. Its connections are those that are asked for, or
/// else those that it has.
pub proof fn pools_keep_their_repositories(
    input: UpdateRunnerPool,
    scope: Seq<char>,
    repository_id: Option<i64>,
    existing: Seq<i64>,
    connected: Seq<Seq<char>>,
)
    ensures
        ({
            let asked = repositories_asked(input, scope, repository_id, existing);
            &&& scope != "repository"@ ==> asked.len() == 0
            &&& scope == "repository"@ && input.repository_ids is Some ==> asked
                == input.repository_ids->0@
            &&& scope == "repository"@ && input.repository_ids is None && existing.len() > 0
                ==> asked == existing
            &&& scope == "repository"@ && input.repository_ids is None && existing.len() == 0
                && repository_id is Some ==> asked == seq![repository_id->0]
        }),
        input.bitbucket_connection_ids is None ==> connections_asked(input, connected)
            == connected,
        input.bitbucket_connection_ids is Some ==> connections_asked(input, connected) == texts(
            input.bitbucket_connection_ids->0@,
        ),
{
}

/// The repositories of a changed pool are refused exactly if a pool for repositories would
/// have none, if there are more than the pool may have runners, or if they are asked for a
/// pool of an organization.
pub proof fn repositories_are_refused_for_a_reason(
    input: UpdateRunnerPool,
    scope: Seq<char>,
    repositories: Seq<i64>,
)
    requires
        repositories.len() <= i64::MAX,
    ensures
        repositories_refused(input, scope, repositories) is Some <==> (scope == "repository"@
            && repositories.len() == 0) || repositories.len() > input.max_count || (
        input.repository_ids is Some && scope != "repository"@),
{
}

/// A pool can be scaled to its bounds and to all sizes between them, and to no other.
pub proof fn pools_are_scaled_within_their_bounds(n: i64, min_count: i64, max_count: i64)
    ensures
        n < min_count ==> !scales_to(n, min_count, max_count),
        n > max_count ==> !scales_to(n, min_count, max_count),
        min_count <= n && n <= max_count ==> scales_to(n, min_count, max_count),
{
}

}
