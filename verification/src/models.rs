//! What the control plane is asked for and what it shows: runner pools, the
//! person who is signed in, and the state of the configuration.
use vstd::prelude::*;

use crate::numbers::length_i64;
use crate::order::{increasing_set_of, increasing_unique, lemma_increasing_set};
use crate::search::{
    contains_char, has_line_break, list_contains, trim, trimmed,
    trimmed_texts_have_no_space_at_their_ends,
};
use crate::text::{
    byte_len, chars_of, copy_strings, digit, is_digit, is_lowercase_letter, lowercase_letter, same,
    texts, utf8_len, whitespace,
};

verus! {

/// One processor, in billionths: the unit of every processor limit.
pub const CPU: i64 = 1_000_000_000;

/// A person who is signed in.
#[derive(Debug)]
pub struct Viewer {
    pub id: String,
    pub github_id: i64,
    pub login: String,
    pub name: Option<String>,
    pub email: Option<String>,
    pub avatar_url: Option<String>,
    pub role: String,
    pub alerts: Alerts,
}

/// How many things need attention.
#[derive(Debug, Clone, Copy, PartialEq, Eq, Structural)]
pub struct Alerts {
    pub failed_runners: i64,
    pub failed_webhooks: i64,
    pub queued_jobs: i64,
    pub deferred_runner_cleanup: i64,
}

impl Default for Alerts {
    fn default() -> (r: Alerts)
        ensures
            r == (Alerts {
                failed_runners: 0,
                failed_webhooks: 0,
                queued_jobs: 0,
                deferred_runner_cleanup: 0,
            }),
    {
        Alerts { failed_runners: 0, failed_webhooks: 0, queued_jobs: 0, deferred_runner_cleanup: 0 }
    }
}

/// Which parts of the installation are configured.
#[derive(Debug)]
pub struct ConfigurationState {
    pub github_oauth: bool,
    pub github_app_control: bool,
    pub webhook_active: bool,
    pub webhook_verification: bool,
    pub secure_storage: bool,
    pub runner_manager: bool,
    pub installation_tokens: bool,
    pub callback_url: String,
    pub webhook_url: String,
}

/// A request for a new runner pool. The processor limit is in billionths of a
/// processor.
#[derive(Debug)]
pub struct CreateRunnerPool {
    pub installation_id: i64,
    pub repository_id: Option<i64>,
    pub repository_ids: Vec<i64>,
    pub bitbucket_connection_ids: Vec<String>,
    pub name: String,
    pub scope: String,
    pub mode: String,
    pub provider: String,
    pub providers: Vec<String>,
    pub labels: Vec<String>,
    pub image: String,
    pub docker_image: String,
    pub tart_image: String,
    pub macos_runtime: String,
    pub desired_count: i64,
    pub min_count: i64,
    pub max_count: i64,
    pub autoscaling_enabled: bool,
    pub queue_scale_factor: i64,
    pub idle_timeout_minutes: i64,
    pub cpu_limit: i64,
    pub memory_limit_mb: i64,
    pub runner_group_id: i64,
}

/// A change of a runner pool. The processor limit is in billionths of a
/// processor.
#[derive(Debug)]
pub struct UpdateRunnerPool {
    pub repository_ids: Option<Vec<i64>>,
    pub bitbucket_connection_ids: Option<Vec<String>>,
    pub name: String,
    pub mode: String,
    pub provider: String,
    pub providers: Vec<String>,
    pub labels: Vec<String>,
    pub image: String,
    pub docker_image: String,
    pub tart_image: String,
    pub macos_runtime: String,
    pub desired_count: i64,
    pub min_count: i64,
    pub max_count: i64,
    pub autoscaling_enabled: bool,
    pub queue_scale_factor: i64,
    pub idle_timeout_minutes: i64,
    pub cpu_limit: i64,
    pub memory_limit_mb: i64,
    pub runner_group_id: i64,
}

/// The model of what a pool is configured with.
pub struct PoolSettings {
    pub name: Seq<char>,
    pub mode: Seq<char>,
    pub provider: Seq<char>,
    pub providers: Seq<Seq<char>>,
    pub labels: Seq<Seq<char>>,
    pub image: Seq<char>,
    pub docker_image: Seq<char>,
    pub tart_image: Seq<char>,
    pub desired_count: i64,
    pub min_count: i64,
    pub max_count: i64,
    pub queue_scale_factor: i64,
    pub idle_timeout_minutes: i64,
    pub cpu_limit: i64,
    pub memory_limit_mb: i64,
    pub runner_group_id: i64,
}

// ---------------------------------------------------------------------------
// Selections

/// The providers of a pool: the list, or the one provider where it is empty.
pub open spec fn providers_of(provider: Seq<char>, providers: Seq<Seq<char>>) -> Seq<Seq<char>> {
    if providers.len() == 0 {
        seq![provider]
    } else {
        providers
    }
}

/// The image for a provider: the one configured for it, or the pool's image
/// where none is configured and the provider is the pool's first one.
pub open spec fn image_of(
    kind: Seq<char>,
    provider: Seq<char>,
    image: Seq<char>,
    configured: Seq<char>,
) -> Seq<char> {
    if configured.len() == 0 && provider == kind {
        image
    } else {
        configured
    }
}

/// How macOS runners run: in a virtual machine where nothing is said.
pub open spec fn runtime_of(configured: Seq<char>) -> Seq<char> {
    if configured.len() == 0 {
        "vm"@
    } else {
        configured
    }
}

/// An image that is named without white space at its ends, in 1 to 300 bytes.
pub open spec fn image_ok(image: Seq<char>) -> bool {
    trimmed(image) == image && image.len() > 0 && utf8_len(image) <= 300
}

/// Small letters, digits and hyphens, with no hyphen at either end.
pub open spec fn pool_name_ok(name: Seq<char>) -> bool {
    &&& name.len() > 0 ==> name[0] != '-' && name.last() != '-'
    &&& forall|i: int|
        0 <= i < name.len() ==> lowercase_letter(#[trigger] name[i]) || digit(name[i]) || name[i]
            == '-'
}

/// A label that is usable: not empty, at most 64 bytes, without commas, line
/// breaks and white space at its ends.
pub open spec fn label_ok(label: Seq<char>) -> bool {
    &&& label.len() > 0
    &&& utf8_len(label) <= 64
    &&& !label.contains(',')
    &&& !label.contains('\n')
    &&& !label.contains('\r')
    &&& trimmed(label) == label
}

/// A provider that exists.
pub open spec fn provider_ok(provider: Seq<char>) -> bool {
    provider == "docker"@ || provider == "tart"@
}

/// Every label is usable.
pub open spec fn labels_ok(labels: Seq<Seq<char>>) -> bool {
    forall|i: int| 0 <= i < labels.len() ==> label_ok(#[trigger] labels[i])
}

/// Every provider exists.
pub open spec fn all_providers_ok(providers: Seq<Seq<char>>) -> bool {
    forall|i: int| 0 <= i < providers.len() ==> provider_ok(#[trigger] providers[i])
}

/// What is wrong with the settings of a pool, if anything is.
pub open spec fn settings_error(s: PoolSettings) -> Option<Seq<char>> {
    let selected = providers_of(s.provider, s.providers);
    let tart = selected.contains("tart"@);
    if utf8_len(s.name) < 2 || utf8_len(s.name) > 48 || !pool_name_ok(s.name) {
        Some("Use 2-48 lowercase letters, numbers, and hyphens for the pool name."@)
    } else if s.mode != "ephemeral"@ && s.mode != "persistent"@ {
        Some("Runner pool mode is invalid."@)
    } else if selected.len() > 2 || !all_providers_ok(selected) {
        Some("Choose one or more supported runner providers."@)
    } else if !selected.no_duplicates() || selected[0] != s.provider {
        Some("Runner providers must be unique and the primary provider must be first."@)
    } else if tart && s.mode != "ephemeral"@ {
        Some("Pools that include Tart must be ephemeral."@)
    } else if !(0 <= s.min_count <= s.desired_count <= s.max_count <= 100) {
        Some("Capacity must satisfy 0 <= minimum <= desired <= maximum <= 100."@)
    } else if !(CPU / 4 <= s.cpu_limit <= 64 * CPU) || !(256 <= s.memory_limit_mb <= 262_144) {
        Some("Runner resource limits are outside the supported range."@)
    } else if tart && (s.cpu_limit % CPU != 0 || s.memory_limit_mb < 2_048) {
        Some("Tart runners require whole CPU cores and at least 2048 MB of memory."@)
    } else if !(1 <= s.queue_scale_factor <= 20) || !(1 <= s.idle_timeout_minutes <= 1_440) {
        Some("Autoscaling settings are outside the supported range."@)
    } else if s.labels.len() > 20 || !labels_ok(s.labels) {
        Some("Use at most 20 runner labels of 1-64 characters each."@)
    } else if selected.contains("docker"@) && !image_ok(
        image_of("docker"@, s.provider, s.image, s.docker_image),
    ) {
        Some("Docker image must contain 1-300 non-padding characters."@)
    } else if tart && !image_ok(image_of("tart"@, s.provider, s.image, s.tart_image)) {
        Some("Tart base VM must contain 1-300 non-padding characters."@)
    } else if s.runner_group_id <= 0 {
        Some("Runner group ID must be positive."@)
    } else {
        None
    }
}

/// A result that fails exactly with the given message, and succeeds without one.
pub open spec fn fails_with(result: Result<(), String>, error: Option<Seq<char>>) -> bool {
    match error {
        Some(message) => result is Err && result->Err_0@ == message,
        None => result is Ok,
    }
}

/// The providers of a pool.
fn selected_providers(provider: &str, providers: &[String]) -> (r: Vec<String>)
    ensures
        texts(r@) == providers_of(provider@, texts(providers@)),
{
    if providers.len() == 0 {
        let mut out: Vec<String> = Vec::new();
        out.push(provider.to_owned());
        proof {
            assert(texts(out@) =~= seq![provider@]);
        }
        out
    } else {
        copy_strings(providers)
    }
}

/// The image for a provider.
fn selected_image(kind: &str, provider: &str, image: &str, configured: &str) -> (r: String)
    ensures
        r@ == image_of(kind@, provider@, image@, configured@),
{
    if configured.is_empty() && same(provider, kind) {
        image.to_owned()
    } else {
        configured.to_owned()
    }
}

/// How macOS runners run.
fn selected_runtime(configured: &str) -> (r: String)
    ensures
        r@ == runtime_of(configured@),
{
    if configured.is_empty() {
        "vm".to_owned()
    } else {
        configured.to_owned()
    }
}

/// Whether an image is named properly.
pub fn valid_image(image: &str) -> (r: bool)
    ensures
        r == image_ok(image@),
{
    same(trim(image).as_str(), image) && !image.is_empty() && byte_len(image) <= 300
}

/// Whether a pool's name has only small letters, digits and inner hyphens.
pub fn valid_pool_name(value: &str) -> (r: bool)
    ensures
        r == pool_name_ok(value@),
{
    let a: Vec<char> = chars_of(value);
    if a.len() > 0 && (a[0] == '-' || a[a.len() - 1] == '-') {
        return false;
    }
    let mut i: usize = 0;
    while i < a.len()
        invariant
            i <= a@.len(),
            a@ == value@,
            forall|k: int|
                0 <= k < i ==> lowercase_letter(#[trigger] value@[k]) || digit(value@[k])
                    || value@[k] == '-',
        decreases a@.len() - i,
    {
        if !(is_lowercase_letter(a[i]) || is_digit(a[i]) || a[i] == '-') {
            proof {
                assert(!lowercase_letter(value@[i as int]));
            }
            return false;
        }
        i += 1;
    }
    true
}

/// Whether a label is usable.
pub fn valid_label(label: &str) -> (r: bool)
    ensures
        r == label_ok(label@),
{
    !label.is_empty() && byte_len(label) <= 64 && !contains_char(label, ',') && !has_line_break(
        label,
    ) && same(trim(label).as_str(), label)
}

fn valid_labels(labels: &[String]) -> (r: bool)
    ensures
        r == labels_ok(texts(labels@)),
{
    let mut i: usize = 0;
    while i < labels.len()
        invariant
            i <= labels@.len(),
            forall|k: int| 0 <= k < i ==> label_ok(#[trigger] texts(labels@)[k]),
        decreases labels@.len() - i,
    {
        if !valid_label(labels[i].as_str()) {
            proof {
                assert(!label_ok(texts(labels@)[i as int]));
            }
            return false;
        }
        i += 1;
    }
    true
}

fn valid_providers(providers: &[String]) -> (r: bool)
    ensures
        r == all_providers_ok(texts(providers@)),
{
    let mut i: usize = 0;
    while i < providers.len()
        invariant
            i <= providers@.len(),
            forall|k: int| 0 <= k < i ==> provider_ok(#[trigger] texts(providers@)[k]),
        decreases providers@.len() - i,
    {
        if !same(providers[i].as_str(), "docker") && !same(providers[i].as_str(), "tart") {
            proof {
                assert(!provider_ok(texts(providers@)[i as int]));
            }
            return false;
        }
        i += 1;
    }
    true
}

fn refuse(message: &str) -> (r: Result<(), String>)
    ensures
        r is Err,
        r->Err_0@ == message@,
{
    Err(message.to_owned())
}

/// Checks the settings of a pool.
pub fn validate_pool_configuration(
    name: &str,
    mode: &str,
    provider: &str,
    providers: &[String],
    labels: &[String],
    image: &str,
    docker_image: &str,
    tart_image: &str,
    desired_count: i64,
    min_count: i64,
    max_count: i64,
    queue_scale_factor: i64,
    idle_timeout_minutes: i64,
    cpu_limit: i64,
    memory_limit_mb: i64,
    runner_group_id: i64,
) -> (r: Result<(), String>)
    ensures
        fails_with(
            r,
            settings_error(
                PoolSettings {
                    name: name@,
                    mode: mode@,
                    provider: provider@,
                    providers: texts(providers@),
                    labels: texts(labels@),
                    image: image@,
                    docker_image: docker_image@,
                    tart_image: tart_image@,
                    desired_count,
                    min_count,
                    max_count,
                    queue_scale_factor,
                    idle_timeout_minutes,
                    cpu_limit,
                    memory_limit_mb,
                    runner_group_id,
                },
            ),
        ),
{
    let ghost wanted = providers_of(provider@, texts(providers@));
    if byte_len(name) < 2 || byte_len(name) > 48 || !valid_pool_name(name) {
        return refuse("Use 2-48 lowercase letters, numbers, and hyphens for the pool name.");
    }
    let ephemeral: bool = same(mode, "ephemeral");
    if !ephemeral && !same(mode, "persistent") {
        return refuse("Runner pool mode is invalid.");
    }
    let selected: Vec<String> = selected_providers(provider, providers);
    proof {
        assert(texts(selected@).len() == selected@.len());
    }
    if selected.len() > 2 || !valid_providers(selected.as_slice()) {
        return refuse("Choose one or more supported runner providers.");
    }
    let repeated: bool = selected.len() == 2 && same(selected[0].as_str(), selected[1].as_str());
    proof {
        assert(wanted[0] == selected@[0]@);
        if selected@.len() == 2 {
            assert(wanted[1] == selected@[1]@);
        }
        assert(repeated == !wanted.no_duplicates());
    }
    if repeated || !same(selected[0].as_str(), provider) {
        return refuse("Runner providers must be unique and the primary provider must be first.");
    }
    let includes_tart: bool = list_contains(selected.as_slice(), "tart");
    if includes_tart && !ephemeral {
        return refuse("Pools that include Tart must be ephemeral.");
    }
    if min_count < 0 || desired_count < min_count || desired_count > max_count || max_count > 100 {
        return refuse("Capacity must satisfy 0 <= minimum <= desired <= maximum <= 100.");
    }
    if cpu_limit < CPU / 4 || cpu_limit > 64 * CPU || memory_limit_mb < 256 || memory_limit_mb
        > 262_144 {
        return refuse("Runner resource limits are outside the supported range.");
    }
    if includes_tart && (cpu_limit % CPU != 0 || memory_limit_mb < 2_048) {
        return refuse("Tart runners require whole CPU cores and at least 2048 MB of memory.");
    }
    if queue_scale_factor < 1 || queue_scale_factor > 20 || idle_timeout_minutes < 1
        || idle_timeout_minutes > 1_440 {
        return refuse("Autoscaling settings are outside the supported range.");
    }
    if labels.len() > 20 || !valid_labels(labels) {
        return refuse("Use at most 20 runner labels of 1-64 characters each.");
    }
    if list_contains(selected.as_slice(), "docker") && !valid_image(
        selected_image("docker", provider, image, docker_image).as_str(),
    ) {
        return refuse("Docker image must contain 1-300 non-padding characters.");
    }
    if includes_tart && !valid_image(
        selected_image("tart", provider, image, tart_image).as_str(),
    ) {
        return refuse("Tart base VM must contain 1-300 non-padding characters.");
    }
    if runner_group_id <= 0 {
        return refuse("Runner group ID must be positive.");
    }
    Ok(())
}

// ---------------------------------------------------------------------------
// New pools

/// The list with one more number behind it, where there is one.
pub open spec fn with_optional(list: Seq<i64>, more: Option<i64>) -> Seq<i64> {
    match more {
        Some(n) => list.push(n),
        None => list,
    }
}

/// Every number is positive.
pub open spec fn all_positive(list: Seq<i64>) -> bool {
    forall|i: int| 0 <= i < list.len() ==> #[trigger] list[i] > 0
}

/// What is wrong with the repositories of a new pool, if anything is.
pub open spec fn repositories_error(
    scope: Seq<char>,
    requested: Seq<i64>,
    max_count: i64,
) -> Option<Seq<char>> {
    let repositories = requested.to_set();
    if scope == "repository"@ && repositories.len() == 0 {
        Some("Repository scope requires at least one repository."@)
    } else if scope == "organization"@ && repositories.len() > 0 {
        Some("Organization pools use runner-group access instead of repository assignments."@)
    } else if repositories.len() > 1_000 || !all_positive(requested) {
        Some("Repository assignments are invalid."@)
    } else if scope == "repository"@ && repositories.len() > max_count {
        Some("Repository count cannot exceed maximum runner capacity."@)
    } else if scope != "repository"@ && scope != "organization"@ {
        Some("Runner pool scope is invalid."@)
    } else {
        None
    }
}

fn is_all_positive(list: &[i64]) -> (r: bool)
    ensures
        r == all_positive(list@),
{
    let mut i: usize = 0;
    while i < list.len()
        invariant
            i <= list@.len(),
            forall|k: int| 0 <= k < i ==> #[trigger] list@[k] > 0,
        decreases list@.len() - i,
    {
        if list[i] <= 0 {
            return false;
        }
        i += 1;
    }
    true
}

impl CreateRunnerPool {
    /// The repositories that are asked for: the list and the single one.
    pub open spec fn requested_repositories(&self) -> Seq<i64> {
        with_optional(self.repository_ids@, self.repository_id)
    }

    /// The settings that are asked for.
    pub open spec fn settings(&self) -> PoolSettings {
        PoolSettings {
            name: self.name@,
            mode: self.mode@,
            provider: self.provider@,
            providers: texts(self.providers@),
            labels: texts(self.labels@),
            image: self.image@,
            docker_image: self.docker_image@,
            tart_image: self.tart_image@,
            desired_count: self.desired_count,
            min_count: self.min_count,
            max_count: self.max_count,
            queue_scale_factor: self.queue_scale_factor,
            idle_timeout_minutes: self.idle_timeout_minutes,
            cpu_limit: self.cpu_limit,
            memory_limit_mb: self.memory_limit_mb,
            runner_group_id: self.runner_group_id,
        }
    }

    /// The providers of the pool.
    pub fn selected_providers(&self) -> (r: Vec<String>)
        ensures
            texts(r@) == providers_of(self.provider@, texts(self.providers@)),
    {
        selected_providers(self.provider.as_str(), self.providers.as_slice())
    }

    /// The image for Docker.
    pub fn selected_docker_image(&self) -> (r: String)
        ensures
            r@ == image_of("docker"@, self.provider@, self.image@, self.docker_image@),
    {
        selected_image(
            "docker",
            self.provider.as_str(),
            self.image.as_str(),
            self.docker_image.as_str(),
        )
    }

    /// The image for Tart.
    pub fn selected_tart_image(&self) -> (r: String)
        ensures
            r@ == image_of("tart"@, self.provider@, self.image@, self.tart_image@),
    {
        selected_image(
            "tart",
            self.provider.as_str(),
            self.image.as_str(),
            self.tart_image.as_str(),
        )
    }

    /// How macOS runners run.
    pub fn selected_macos_runtime(&self) -> (r: String)
        ensures
            r@ == runtime_of(self.macos_runtime@),
    {
        selected_runtime(self.macos_runtime.as_str())
    }

    /// The repositories of the pool in order, each once.
    pub fn selected_repository_ids(&self) -> (r: Vec<i64>)
        ensures
            increasing_set_of(r@, self.requested_repositories()),
    {
        let mut repositories: Vec<i64> = Vec::new();
        let mut i: usize = 0;
        while i < self.repository_ids.len()
            invariant
                i <= self.repository_ids@.len(),
                repositories@ == self.repository_ids@.take(i as int),
            decreases self.repository_ids@.len() - i,
        {
            repositories.push(self.repository_ids[i]);
            i += 1;
            proof {
                assert(repositories@ =~= self.repository_ids@.take(i as int));
            }
        }
        proof {
            assert(self.repository_ids@.take(self.repository_ids@.len() as int)
                =~= self.repository_ids@);
        }
        if let Some(repository_id) = self.repository_id {
            repositories.push(repository_id);
        }
        increasing_unique(repositories.as_slice())
    }

    /// Checks the request.
    pub fn validate(&self) -> (r: Result<(), String>)
        ensures
            fails_with(
                r,
                match repositories_error(
                    self.scope@,
                    self.requested_repositories(),
                    self.max_count,
                ) {
                    Some(message) => Some(message),
                    None => settings_error(self.settings()),
                },
            ),
    {
        let repositories: Vec<i64> = self.selected_repository_ids();
        proof {
            let requested = self.requested_repositories();
            lemma_increasing_set(repositories@, requested);
            if all_positive(repositories@) {
                assert forall|i: int| 0 <= i < requested.len() implies #[trigger] requested[i]
                    > 0 by {
                    assert(requested.contains(requested[i]));
                    assert(repositories@.contains(requested[i]));
                }
            }
            if all_positive(requested) {
                assert forall|i: int| 0 <= i < repositories@.len() implies #[trigger] repositories@[i]
                    > 0 by {
                    assert(repositories@.contains(repositories@[i]));
                    assert(requested.contains(repositories@[i]));
                }
            }
        }
        let by_repository: bool = same(self.scope.as_str(), "repository");
        let by_organization: bool = same(self.scope.as_str(), "organization");
        if by_repository && repositories.len() == 0 {
            return refuse("Repository scope requires at least one repository.");
        }
        if by_organization && repositories.len() > 0 {
            proof {
                reveal_strlit("repository");
                reveal_strlit("organization");
                assert("repository"@.len() != "organization"@.len());
            }
            return refuse(
                "Organization pools use runner-group access instead of repository assignments.",
            );
        }
        if repositories.len() > 1_000 || !is_all_positive(repositories.as_slice()) {
            return refuse("Repository assignments are invalid.");
        }
        if by_repository && length_i64(repositories.len()) > self.max_count {
            return refuse("Repository count cannot exceed maximum runner capacity.");
        }
        if !by_repository && !by_organization {
            return refuse("Runner pool scope is invalid.");
        }
        validate_pool_configuration(
            self.name.as_str(),
            self.mode.as_str(),
            self.provider.as_str(),
            self.providers.as_slice(),
            self.labels.as_slice(),
            self.image.as_str(),
            self.docker_image.as_str(),
            self.tart_image.as_str(),
            self.desired_count,
            self.min_count,
            self.max_count,
            self.queue_scale_factor,
            self.idle_timeout_minutes,
            self.cpu_limit,
            self.memory_limit_mb,
            self.runner_group_id,
        )
    }
}

// ---------------------------------------------------------------------------
// Changed pools

/// What is wrong with the repositories of a changed pool, if anything is.
pub open spec fn changed_repositories_error(
    repositories: Option<Seq<i64>>,
    max_count: i64,
) -> Option<Seq<char>> {
    match repositories {
        None => None,
        Some(list) => if list.len() == 0 || list.len() > 1_000 || !all_positive(list)
            || !list.no_duplicates() {
            Some("Choose between 1 and 1,000 unique repositories for the pool."@)
        } else if list.len() > max_count {
            Some("Repository count cannot exceed maximum runner capacity."@)
        } else {
            None
        },
    }
}

/// Whether no number occurs twice.
pub fn is_distinct(list: &[i64]) -> (r: bool)
    ensures
        r == list@.no_duplicates(),
{
    let mut i: usize = 0;
    while i < list.len()
        invariant
            i <= list@.len(),
            forall|a: int, b: int| 0 <= a < i && 0 <= b < i && a != b ==> list@[a] != list@[b],
        decreases list@.len() - i,
    {
        let mut j: usize = 0;
        while j < i
            invariant
                j <= i < list@.len(),
                forall|a: int| 0 <= a < j ==> list@[a] != list@[i as int],
            decreases i - j,
        {
            if list[j] == list[i] {
                return false;
            }
            j += 1;
        }
        i += 1;
    }
    true
}

impl UpdateRunnerPool {
    /// The repositories that are asked for, if any are.
    pub open spec fn requested_repositories(&self) -> Option<Seq<i64>> {
        match self.repository_ids {
            Some(list) => Some(list@),
            None => None,
        }
    }

    /// The settings that are asked for.
    pub open spec fn settings(&self) -> PoolSettings {
        PoolSettings {
            name: self.name@,
            mode: self.mode@,
            provider: self.provider@,
            providers: texts(self.providers@),
            labels: texts(self.labels@),
            image: self.image@,
            docker_image: self.docker_image@,
            tart_image: self.tart_image@,
            desired_count: self.desired_count,
            min_count: self.min_count,
            max_count: self.max_count,
            queue_scale_factor: self.queue_scale_factor,
            idle_timeout_minutes: self.idle_timeout_minutes,
            cpu_limit: self.cpu_limit,
            memory_limit_mb: self.memory_limit_mb,
            runner_group_id: self.runner_group_id,
        }
    }

    /// The providers of the pool.
    pub fn selected_providers(&self) -> (r: Vec<String>)
        ensures
            texts(r@) == providers_of(self.provider@, texts(self.providers@)),
    {
        selected_providers(self.provider.as_str(), self.providers.as_slice())
    }

    /// The image for Docker.
    pub fn selected_docker_image(&self) -> (r: String)
        ensures
            r@ == image_of("docker"@, self.provider@, self.image@, self.docker_image@),
    {
        selected_image(
            "docker",
            self.provider.as_str(),
            self.image.as_str(),
            self.docker_image.as_str(),
        )
    }

    /// The image for Tart.
    pub fn selected_tart_image(&self) -> (r: String)
        ensures
            r@ == image_of("tart"@, self.provider@, self.image@, self.tart_image@),
    {
        selected_image(
            "tart",
            self.provider.as_str(),
            self.image.as_str(),
            self.tart_image.as_str(),
        )
    }

    /// How macOS runners run.
    pub fn selected_macos_runtime(&self) -> (r: String)
        ensures
            r@ == runtime_of(self.macos_runtime@),
    {
        selected_runtime(self.macos_runtime.as_str())
    }

    /// Checks the request.
    pub fn validate(&self) -> (r: Result<(), String>)
        ensures
            fails_with(
                r,
                match changed_repositories_error(self.requested_repositories(), self.max_count) {
                    Some(message) => Some(message),
                    None => settings_error(self.settings()),
                },
            ),
    {
        if let Some(repositories) = &self.repository_ids {
            if repositories.len() == 0 || repositories.len() > 1_000 || !is_all_positive(
                repositories.as_slice(),
            ) || !is_distinct(repositories.as_slice()) {
                return refuse("Choose between 1 and 1,000 unique repositories for the pool.");
            }
            if length_i64(repositories.len()) > self.max_count {
                return refuse("Repository count cannot exceed maximum runner capacity.");
            }
        }
        validate_pool_configuration(
            self.name.as_str(),
            self.mode.as_str(),
            self.provider.as_str(),
            self.providers.as_slice(),
            self.labels.as_slice(),
            self.image.as_str(),
            self.docker_image.as_str(),
            self.tart_image.as_str(),
            self.desired_count,
            self.min_count,
            self.max_count,
            self.queue_scale_factor,
            self.idle_timeout_minutes,
            self.cpu_limit,
            self.memory_limit_mb,
            self.runner_group_id,
        )
    }
}

/// The settings of a pool that passes the check keep the order of its counts,
/// leave room for every runner that is wanted, and name only known providers.
pub proof fn accepted_settings_are_consistent(s: PoolSettings)
    requires
        settings_error(s) is None,
    ensures
        0 <= s.min_count <= s.desired_count <= s.max_count <= 100,
        providers_of(s.provider, s.providers).len() > 0,
        providers_of(s.provider, s.providers)[0] == s.provider,
        all_providers_ok(providers_of(s.provider, s.providers)),
        providers_of(s.provider, s.providers).contains("tart"@) ==> s.mode == "ephemeral"@
            && s.cpu_limit % CPU == 0,
        s.cpu_limit > 0,
        s.memory_limit_mb > 0,
{
}

// ---------------------------------------------------------------------------
// What settings are in order

/// The settings of a pool are in order exactly if its name has 2 to 48 bytes of small
/// letters, digits and inner hyphens; its runners are for one job or stay; it has one or two
/// providers, each once, of which its own is the first; its sizes are in order and at most a
/// hundred; its runners have what is supported, and whole processors and 2 GB under Tart,
/// where they are for one job; one queued job asks for 1 to 20 runners; it is idle for a
/// minute to a day; and it has at most 20 labels that are usable, an image for each of its
/// providers, and a group.
pub proof fn settings_in_order(s: PoolSettings)
    ensures
        settings_error(s) is None <==> {
            let selected = providers_of(s.provider, s.providers);
            &&& 2 <= utf8_len(s.name) <= 48
            &&& pool_name_ok(s.name)
            &&& s.mode == "ephemeral"@ || s.mode == "persistent"@
            &&& selected.len() <= 2
            &&& forall|i: int|
                0 <= i < selected.len() ==> #[trigger] selected[i] == "docker"@ || selected[i]
                    == "tart"@
            &&& selected.no_duplicates()
            &&& selected[0] == s.provider
            &&& 0 <= s.min_count
            &&& s.min_count <= s.desired_count
            &&& s.desired_count <= s.max_count
            &&& s.max_count <= 100
            &&& 250_000_000 <= s.cpu_limit <= 64_000_000_000
            &&& 256 <= s.memory_limit_mb <= 262_144
            &&& selected.contains("tart"@) ==> s.mode == "ephemeral"@ && s.cpu_limit
                % 1_000_000_000 == 0 && s.memory_limit_mb >= 2_048 && image_ok(
                image_of("tart"@, s.provider, s.image, s.tart_image),
            )
            &&& selected.contains("docker"@) ==> image_ok(
                image_of("docker"@, s.provider, s.image, s.docker_image),
            )
            &&& 1 <= s.queue_scale_factor <= 20
            &&& 1 <= s.idle_timeout_minutes <= 1_440
            &&& s.labels.len() <= 20
            &&& forall|i: int| 0 <= i < s.labels.len() ==> label_ok(#[trigger] s.labels[i])
            &&& s.runner_group_id >= 1
        },
{
    let selected = providers_of(s.provider, s.providers);
    assert(all_providers_ok(selected) <==> forall|i: int|
        0 <= i < selected.len() ==> #[trigger] selected[i] == "docker"@ || selected[i] == "tart"@)
        by {
        if forall|i: int|
            0 <= i < selected.len() ==> #[trigger] selected[i] == "docker"@ || selected[i]
                == "tart"@ {
            assert forall|i: int| 0 <= i < selected.len() implies provider_ok(
                #[trigger] selected[i],
            ) by {}
        }
        if all_providers_ok(selected) {
            assert forall|i: int| 0 <= i < selected.len() implies #[trigger] selected[i]
                == "docker"@ || selected[i] == "tart"@ by {
                assert(provider_ok(selected[i]));
            }
        }
    }
}

/// The name of a pool holds small letters, digits and hyphens, with no hyphen at its ends.
pub proof fn names_of_pools_are_plain(name: Seq<char>)
    ensures
        pool_name_ok(name) <==> (name.len() > 0 ==> name[0] != '-' && name[name.len() - 1] != '-')
            && forall|i: int|
            0 <= i < name.len() ==> ('a' <= #[trigger] name[i] <= 'z' || '0' <= name[i] <= '9'
                || name[i] == '-'),
{
    if pool_name_ok(name) {
        assert forall|i: int| 0 <= i < name.len() implies ('a' <= #[trigger] name[i] <= 'z' || '0'
            <= name[i] <= '9' || name[i] == '-') by {
            assert(lowercase_letter(name[i]) || digit(name[i]) || name[i] == '-');
        }
    }
}

/// A label is usable exactly if it has 1 to 64 bytes, no comma, no line break and no white
/// space at its ends; an image is named properly exactly if it has 1 to 300 bytes and no white
/// space at its ends.
pub proof fn labels_and_images_are_plain(text: Seq<char>)
    requires
        text.len() > 0,
    ensures
        label_ok(text) <==> utf8_len(text) <= 64 && !text.contains(',') && !text.contains('\n')
            && !text.contains('\r') && !whitespace(text[0]) && !whitespace(text.last()),
        image_ok(text) <==> utf8_len(text) <= 300 && !whitespace(text[0]) && !whitespace(
            text.last(),
        ),
        !label_ok(Seq::empty()),
        !image_ok(Seq::empty()),
{
    trimmed_texts_have_no_space_at_their_ends(text);
}

/// A pool has the providers that are listed, or its own where none is; the image that is set
/// for a provider, or the pool's where none is and the provider is its own; and runs macOS in
/// machines where nothing is said.
pub proof fn what_is_not_set_is_as_usual(
    kind: Seq<char>,
    provider: Seq<char>,
    providers: Seq<Seq<char>>,
    image: Seq<char>,
    configured: Seq<char>,
)
    ensures
        providers.len() > 0 ==> providers_of(provider, providers) == providers,
        providers_of(provider, Seq::empty()) == seq![provider],
        configured.len() > 0 ==> image_of(kind, provider, image, configured) == configured,
        configured.len() == 0 ==> image_of(kind, kind, image, configured) == image,
        configured.len() == 0 && provider != kind ==> image_of(
            kind,
            provider,
            image,
            configured,
        ).len() == 0,
        configured.len() > 0 ==> runtime_of(configured) == configured,
        configured.len() == 0 ==> runtime_of(configured) == "vm"@,
{
}

/// The repositories of a new pool are in order exactly if a pool for repositories has at
/// least one, and no more than it may have runners, and a pool for an organization has none;
/// there are no other pools.
pub proof fn repositories_in_order(scope: Seq<char>, requested: Seq<i64>, max_count: i64)
    ensures
        repositories_error(scope, requested, max_count) is None <==> {
            ||| scope == "repository"@ && 1 <= requested.to_set().len() <= 1_000
                && requested.to_set().len() <= max_count && forall|i: int|
                0 <= i < requested.len() ==> #[trigger] requested[i] >= 1
            ||| scope == "organization"@ && requested.len() == 0
        },
{
    reveal_strlit("repository");
    reveal_strlit("organization");
    assert("repository"@.len() == 10 && "organization"@.len() == 12);
    requested.lemma_cardinality_of_set();
    if requested.len() > 0 {
        assert(requested.contains(requested[0]));
        assert(requested.to_set().contains(requested[0]));
        assert(requested.to_set().len() > 0) by {
            if requested.to_set().len() == 0 {
                requested.to_set().lemma_len0_is_empty();
            }
        }
    }
}

/// The repositories of a changed pool are in order exactly if none are asked for, or at least
/// one is, each once, and no more than the pool may have runners.
pub proof fn changed_repositories_in_order(repositories: Option<Seq<i64>>, max_count: i64)
    ensures
        changed_repositories_error(repositories, max_count) is None <==> (repositories is Some ==> {
            let list = repositories->0;
            &&& 1 <= list.len() <= 1_000
            &&& list.len() <= max_count
            &&& list.no_duplicates()
            &&& forall|i: int| 0 <= i < list.len() ==> #[trigger] list[i] >= 1
        }),
{
}

/// The repositories of a new pool are those of the list, and the single one.
pub proof fn all_requested_repositories_count(list: Seq<i64>, more: Option<i64>, id: i64)
    ensures
        with_optional(list, more).contains(id) <==> list.contains(id) || more == Some(id),
{
    let all = with_optional(list, more);
    if list.contains(id) {
        let i = choose|i: int| 0 <= i < list.len() && list[i] == id;
        assert(all[i] == id);
    }
    if more == Some(id) {
        assert(all[all.len() - 1] == id);
    }
    if all.contains(id) {
        let i = choose|i: int| 0 <= i < all.len() && all[i] == id;
        if i < list.len() {
            assert(list[i] == id);
        }
    }
}

/// A check fails as expected exactly if it fails with the message that is expected, and
/// succeeds where none is.
pub proof fn checks_fail_as_expected(result: Result<(), String>, message: Seq<char>)
    ensures
        fails_with(result, None) <==> result is Ok,
        fails_with(result, Some(message)) <==> result is Err && result->Err_0@ == message,
{
}

}
