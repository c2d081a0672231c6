//! The settings of the system, connections to Bitbucket workspaces, and the
//! defaults of new pools.
use vstd::prelude::*;

use crate::bitbucket::{segment_ok, BitbucketWorkspace};
use crate::config::str_option;
use crate::error::{fails_as, ApiError, ErrorView};
use crate::json::{
    encode_flag, encode_number, flag_or, flags_read_back, number_or, numbers_read_back, stored_flag,
    stored_number,
};
use crate::models::ConfigurationState;
use crate::numbers::{clamp, clamped, signed_decimal};
use crate::pages::effective_webhook_url;
use crate::repositories::{lowercased, to_lowercase};
use crate::search::{has_line_break, trim, trimmed};
use crate::text::{
    byte_len, chars_of, concat3, digit, is_digit, is_lowercase_letter, lowercase_letter, same,
    concat, texts, utf8_len,
};
use crate::web::{join_url, url_joined};

verus! {

/// The settings of the system.
#[derive(Debug, Clone, Copy, PartialEq, Eq, Structural)]
pub struct SystemSettings {
    pub log_retention_days: i64,
    pub log_storage_budget_mb: i64,
    pub webhook_retention_days: i64,
    pub audit_retention_days: i64,
    pub reconcile_interval_seconds: i64,
    pub github_sync_interval_seconds: i64,
    pub auto_update_images: bool,
    pub provisioning_paused: bool,
}

impl SystemSettings {
    /// The settings lie within what is supported.
    pub open spec fn supported(&self) -> bool {
        &&& 1 <= self.log_retention_days <= 3_650
        &&& 100 <= self.log_storage_budget_mb <= 1_048_576
        &&& 1 <= self.webhook_retention_days <= 3_650
        &&& 1 <= self.audit_retention_days <= 3_650
        &&& 5 <= self.reconcile_interval_seconds <= 3_600
        &&& 30 <= self.github_sync_interval_seconds <= 3_600
    }

    /// Checks the settings.
    pub fn validate(&self) -> (r: Result<(), ApiError>)
        ensures
            fails_as(
                r,
                if self.supported() {
                    None
                } else {
                    Some(
                        ErrorView::BadRequest(
                            "Retention or reconciliation settings are outside the supported range."@,
                        ),
                    )
                },
            ),
    {
        if self.log_retention_days < 1 || self.log_retention_days > 3_650
            || self.log_storage_budget_mb < 100 || self.log_storage_budget_mb > 1_048_576
            || self.webhook_retention_days < 1 || self.webhook_retention_days > 3_650
            || self.audit_retention_days < 1 || self.audit_retention_days > 3_650
            || self.reconcile_interval_seconds < 5 || self.reconcile_interval_seconds > 3_600
            || self.github_sync_interval_seconds < 30 || self.github_sync_interval_seconds
            > 3_600 {
            return Err(
                ApiError::BadRequest(
                    "Retention or reconciliation settings are outside the supported range."
                        .to_owned(),
                ),
            );
        }
        Ok(())
    }
}

impl Default for SystemSettings {
    fn default() -> (r: SystemSettings)
        ensures
            r == (SystemSettings {
                log_retention_days: 30,
                log_storage_budget_mb: 4_096,
                webhook_retention_days: 90,
                audit_retention_days: 365,
                reconcile_interval_seconds: 30,
                github_sync_interval_seconds: 60,
                auto_update_images: false,
                provisioning_paused: false,
            }),
            r.supported(),
    {
        SystemSettings {
            log_retention_days: 30,
            log_storage_budget_mb: 4_096,
            webhook_retention_days: 90,
            audit_retention_days: 365,
            reconcile_interval_seconds: 30,
            github_sync_interval_seconds: 60,
            auto_update_images: false,
            provisioning_paused: false,
        }
    }
}

// ---------------------------------------------------------------------------
// Stored settings

/// A setting as it is stored: its name, and its value as JSON text.
#[derive(Debug)]
pub struct StoredSetting {
    pub key: String,
    pub value: String,
}

/// The value of a setting among those that are stored; the last one counts.
pub open spec fn value_of(stored: Seq<StoredSetting>, key: Seq<char>) -> Option<Seq<char>>
    decreases stored.len(),
{
    if stored.len() == 0 {
        None
    } else if stored.last().key@ == key {
        Some(stored.last().value@)
    } else {
        value_of(stored.drop_last(), key)
    }
}

/// The settings that are stored, with the usual value for each one that is not.
pub open spec fn settings_of(stored: Seq<StoredSetting>) -> SystemSettings {
    SystemSettings {
        log_retention_days: number_or(value_of(stored, "logRetentionDays"@), 30),
        log_storage_budget_mb: number_or(value_of(stored, "logStorageBudgetMb"@), 4_096),
        webhook_retention_days: number_or(value_of(stored, "webhookRetentionDays"@), 90),
        audit_retention_days: number_or(value_of(stored, "auditRetentionDays"@), 365),
        reconcile_interval_seconds: number_or(value_of(stored, "reconcileIntervalSeconds"@), 30),
        github_sync_interval_seconds: number_or(
            value_of(stored, "githubSyncIntervalSeconds"@),
            60,
        ),
        auto_update_images: flag_or(value_of(stored, "autoUpdateImages"@), false),
        provisioning_paused: flag_or(value_of(stored, "provisioningPaused"@), false),
    }
}

fn find_setting<'a>(stored: &'a [StoredSetting], key: &str) -> (r: Option<&'a str>)
    ensures
        str_option(r) == value_of(stored@, key@),
{
    let mut i: usize = stored.len();
    proof {
        assert(stored@.take(i as int) =~= stored@);
    }
    while i > 0
        invariant
            i <= stored@.len(),
            value_of(stored@, key@) == value_of(stored@.take(i as int), key@),
        decreases i,
    {
        i -= 1;
        proof {
            assert(stored@.take(i + 1).drop_last() =~= stored@.take(i as int));
            assert(stored@.take(i + 1).last() == stored@[i as int]);
        }
        if same(stored[i].key.as_str(), key) {
            return Some(stored[i].value.as_str());
        }
    }
    None
}

/// The settings that are stored, with the usual value for each one that is not.
pub fn stored_settings(stored: &[StoredSetting]) -> (r: SystemSettings)
    ensures
        r == settings_of(stored@),
{
    SystemSettings {
        log_retention_days: stored_number(find_setting(stored, "logRetentionDays"), 30),
        log_storage_budget_mb: stored_number(find_setting(stored, "logStorageBudgetMb"), 4_096),
        webhook_retention_days: stored_number(find_setting(stored, "webhookRetentionDays"), 90),
        audit_retention_days: stored_number(find_setting(stored, "auditRetentionDays"), 365),
        reconcile_interval_seconds: stored_number(
            find_setting(stored, "reconcileIntervalSeconds"),
            30,
        ),
        github_sync_interval_seconds: stored_number(
            find_setting(stored, "githubSyncIntervalSeconds"),
            60,
        ),
        auto_update_images: stored_flag(find_setting(stored, "autoUpdateImages"), false),
        provisioning_paused: stored_flag(find_setting(stored, "provisioningPaused"), false),
    }
}

/// Where nothing is stored, the usual settings hold.
pub proof fn nothing_stored_means_the_usual_settings()
    ensures
        settings_of(Seq::empty()) == (SystemSettings {
            log_retention_days: 30,
            log_storage_budget_mb: 4_096,
            webhook_retention_days: 90,
            audit_retention_days: 365,
            reconcile_interval_seconds: 30,
            github_sync_interval_seconds: 60,
            auto_update_images: false,
            provisioning_paused: false,
        }),
        settings_of(Seq::empty()).supported(),
{
}

/// What is stored for settings. Reading it gives the settings back.
pub fn settings_to_store(settings: &SystemSettings) -> (r: Vec<StoredSetting>)
    ensures
        r@.len() == 8,
        r@[0].key@ == "logRetentionDays"@,
        r@[1].key@ == "logStorageBudgetMb"@,
        r@[2].key@ == "webhookRetentionDays"@,
        r@[3].key@ == "auditRetentionDays"@,
        r@[4].key@ == "reconcileIntervalSeconds"@,
        r@[5].key@ == "githubSyncIntervalSeconds"@,
        r@[6].key@ == "autoUpdateImages"@,
        r@[7].key@ == "provisioningPaused"@,
        settings_of(r@) == *settings,
{
    let mut out: Vec<StoredSetting> = Vec::new();
    out.push(
        StoredSetting {
            key: "logRetentionDays".to_owned(),
            value: encode_number(settings.log_retention_days),
        },
    );
    out.push(
        StoredSetting {
            key: "logStorageBudgetMb".to_owned(),
            value: encode_number(settings.log_storage_budget_mb),
        },
    );
    out.push(
        StoredSetting {
            key: "webhookRetentionDays".to_owned(),
            value: encode_number(settings.webhook_retention_days),
        },
    );
    out.push(
        StoredSetting {
            key: "auditRetentionDays".to_owned(),
            value: encode_number(settings.audit_retention_days),
        },
    );
    out.push(
        StoredSetting {
            key: "reconcileIntervalSeconds".to_owned(),
            value: encode_number(settings.reconcile_interval_seconds),
        },
    );
    out.push(
        StoredSetting {
            key: "githubSyncIntervalSeconds".to_owned(),
            value: encode_number(settings.github_sync_interval_seconds),
        },
    );
    out.push(
        StoredSetting {
            key: "autoUpdateImages".to_owned(),
            value: encode_flag(settings.auto_update_images),
        },
    );
    out.push(
        StoredSetting {
            key: "provisioningPaused".to_owned(),
            value: encode_flag(settings.provisioning_paused),
        },
    );
    proof {
        reveal_strlit("logRetentionDays");
        reveal_strlit("logStorageBudgetMb");
        reveal_strlit("webhookRetentionDays");
        reveal_strlit("auditRetentionDays");
        reveal_strlit("reconcileIntervalSeconds");
        reveal_strlit("githubSyncIntervalSeconds");
        reveal_strlit("autoUpdateImages");
        reveal_strlit("provisioningPaused");
        assert("logRetentionDays"@.len() == 16);
        assert("logStorageBudgetMb"@.len() == 18);
        assert("webhookRetentionDays"@.len() == 20);
        assert("auditRetentionDays"@.len() == 18);
        assert("reconcileIntervalSeconds"@.len() == 24);
        assert("githubSyncIntervalSeconds"@.len() == 25);
        assert("autoUpdateImages"@.len() == 16);
        assert("provisioningPaused"@.len() == 18);
        assert("logRetentionDays"@[0] != "autoUpdateImages"@[0]);
        assert("logStorageBudgetMb"@[0] != "auditRetentionDays"@[0]);
        assert("logStorageBudgetMb"@[0] != "provisioningPaused"@[0]);
        assert("auditRetentionDays"@[0] != "provisioningPaused"@[0]);
        lemma_value_at(out@, 0);
        lemma_value_at(out@, 1);
        lemma_value_at(out@, 2);
        lemma_value_at(out@, 3);
        lemma_value_at(out@, 4);
        lemma_value_at(out@, 5);
        lemma_value_at(out@, 6);
        lemma_value_at(out@, 7);
    }
    out
}

proof fn lemma_value_at(stored: Seq<StoredSetting>, i: int)
    requires
        0 <= i < stored.len(),
        forall|k: int| i < k < stored.len() ==> (#[trigger] stored[k]).key@ != stored[i].key@,
    ensures
        value_of(stored, stored[i].key@) == Some(stored[i].value@),
    decreases stored.len(),
{
    if i < stored.len() - 1 {
        assert(stored.last().key@ != stored[i].key@);
        lemma_value_at(stored.drop_last(), i);
    }
}

/// Whether the role of someone can be taken away: someone must administer the
/// system.
pub fn can_demote(role: &str, admin_count: i64) -> (r: bool)
    ensures
        r == (role@ != "admin"@ || admin_count > 1),
{
    !same(role, "admin") || admin_count > 1
}

/// Why the role of someone is not changed, if it is not: there are two roles, and
/// someone must administer the system.
pub open spec fn role_error(role: Seq<char>, current: Seq<char>, admin_count: i64) -> Option<
    ErrorView,
> {
    if role != "admin"@ && role != "member"@ {
        Some(ErrorView::BadRequest("Role is invalid."@))
    } else if role != current && current == "admin"@ && admin_count <= 1 {
        Some(ErrorView::Conflict("At least one administrator must remain."@))
    } else {
        None
    }
}

/// Checks a change of someone's role, by the number of those who administer the
/// system.
pub fn check_role_change(role: &str, current: &str, admin_count: i64) -> (r: Result<(), ApiError>)
    ensures
        fails_as(r, role_error(role@, current@, admin_count)),
{
    if !same(role, "admin") && !same(role, "member") {
        Err(ApiError::BadRequest("Role is invalid.".to_owned()))
    } else if !same(role, current) && !can_demote(current, admin_count) {
        Err(ApiError::Conflict("At least one administrator must remain.".to_owned()))
    } else {
        Ok(())
    }
}

/// A change of roles that passes the check leaves someone who administers the
/// system, where someone did: `others` administer it besides the person whose role
/// is changed.
pub proof fn someone_always_administers(role: Seq<char>, current: Seq<char>, others: i64)
    requires
        0 <= others < i64::MAX,
        others > 0 || current == "admin"@,
        role_error(
            role,
            current,
            if current == "admin"@ {
                (others + 1) as i64
            } else {
                others
            },
        ) is None,
    ensures
        others > 0 || role == "admin"@,
{
}

// ---------------------------------------------------------------------------
// Bitbucket workspaces

/// A request for a connection to a Bitbucket workspace.
pub struct CreateBitbucketConnection {
    pub name: String,
    pub workspace: String,
    pub access_token: String,
}

/// A request for a connection that can be carried out.
pub struct CheckedConnection {
    pub name: String,
    pub workspace: String,
    pub access_token: String,
}

/// The name of a workspace: small letters, digits, hyphens and underscores, 1 to
/// 255 of them.
pub open spec fn workspace_ok(workspace: Seq<char>) -> bool {
    &&& workspace.len() > 0
    &&& utf8_len(workspace) <= 255
    &&& forall|i: int|
        0 <= i < workspace.len() ==> lowercase_letter(#[trigger] workspace[i]) || digit(
            workspace[i],
        ) || workspace[i] == '-' || workspace[i] == '_'
}

/// What is wrong with a request for a connection, if anything is, where
/// `workspace` is its workspace in small letters.
pub open spec fn connection_error(
    name: Seq<char>,
    workspace: Seq<char>,
    token: Seq<char>,
) -> Option<Seq<char>> {
    if !(2 <= utf8_len(name) <= 80) || name.contains('\r') || name.contains('\n') {
        Some("Bitbucket connection name must contain 2-80 visible characters."@)
    } else if !workspace_ok(workspace) {
        Some(
            "Bitbucket workspace must contain lowercase letters, numbers, hyphens, or underscores."@,
        )
    } else if !(20 <= utf8_len(token) <= 4_096) || token.contains('\r') || token.contains('\n') {
        Some("Bitbucket API token is invalid."@)
    } else {
        None
    }
}

fn is_workspace(workspace: &str) -> (r: bool)
    ensures
        r == workspace_ok(workspace@),
{
    if workspace.is_empty() || byte_len(workspace) > 255 {
        return false;
    }
    let a: Vec<char> = chars_of(workspace);
    let mut i: usize = 0;
    while i < a.len()
        invariant
            i <= a@.len(),
            a@ == workspace@,
            forall|k: int|
                0 <= k < i ==> lowercase_letter(#[trigger] workspace@[k]) || digit(workspace@[k])
                    || workspace@[k] == '-' || workspace@[k] == '_',
        decreases a@.len() - i,
    {
        if !(is_lowercase_letter(a[i]) || is_digit(a[i]) || a[i] == '-' || a[i] == '_') {
            proof {
                assert(!lowercase_letter(workspace@[i as int]));
            }
            return false;
        }
        i += 1;
    }
    true
}

/// Checks a request for a connection whose workspace is in small letters.
pub fn check_connection(name: String, workspace: String, access_token: String) -> (r: Result<
    CheckedConnection,
    ApiError,
>)
    ensures
        match connection_error(name@, workspace@, access_token@) {
            Some(message) => r is Err && r->Err_0@ == ErrorView::BadRequest(message),
            None => r is Ok && r->Ok_0.name@ == name@ && r->Ok_0.workspace@ == workspace@
                && r->Ok_0.access_token@ == access_token@,
        },
{
    let name_length: usize = byte_len(name.as_str());
    if name_length < 2 || name_length > 80 || has_line_break(name.as_str()) {
        return Err(
            ApiError::BadRequest(
                "Bitbucket connection name must contain 2-80 visible characters.".to_owned(),
            ),
        );
    }
    if !is_workspace(workspace.as_str()) {
        return Err(
            ApiError::BadRequest(
                "Bitbucket workspace must contain lowercase letters, numbers, hyphens, or underscores."
                    .to_owned(),
            ),
        );
    }
    let token_length: usize = byte_len(access_token.as_str());
    if token_length < 20 || token_length > 4_096 || has_line_break(access_token.as_str()) {
        return Err(ApiError::BadRequest("Bitbucket API token is invalid.".to_owned()));
    }
    Ok(CheckedConnection { name, workspace, access_token })
}

impl CreateBitbucketConnection {
    /// Checks the request: white space around its parts does not count, nor the
    /// case of the workspace.
    pub fn validate(&self) -> (r: Result<CheckedConnection, ApiError>)
        ensures
            ({
                let name = trimmed(self.name@);
                let workspace = lowercased(trimmed(self.workspace@));
                let token = trimmed(self.access_token@);
                match connection_error(name, workspace, token) {
                    Some(message) => r is Err && r->Err_0@ == ErrorView::BadRequest(message),
                    None => r is Ok && r->Ok_0.name@ == name && r->Ok_0.workspace@ == workspace
                        && r->Ok_0.access_token@ == token,
                }
            }),
    {
        let name: String = trim(self.name.as_str());
        let workspace: String = to_lowercase(trim(self.workspace.as_str()).as_str());
        let token: String = trim(self.access_token.as_str());
        check_connection(name, workspace, token)
    }
}

/// A workspace that is accepted can be part of a path at Bitbucket.
pub proof fn accepted_workspaces_are_path_segments(
    name: Seq<char>,
    workspace: Seq<char>,
    token: Seq<char>,
)
    requires
        connection_error(name, workspace, token) is None,
    ensures
        segment_ok(workspace),
{
}

/// Refuses a workspace that Bitbucket does not name completely.
pub fn check_workspace_identity(workspace: &BitbucketWorkspace) -> (r: Result<(), ApiError>)
    ensures
        fails_as(
            r,
            if workspace.slug@.len() == 0 || workspace.uuid@.len() == 0 {
                Some(
                    ErrorView::BadRequest("Bitbucket returned an incomplete workspace identity."@),
                )
            } else {
                None
            },
        ),
{
    if workspace.slug.as_str().is_empty() || workspace.uuid.as_str().is_empty() {
        return Err(
            ApiError::BadRequest(
                "Bitbucket returned an incomplete workspace identity.".to_owned(),
            ),
        );
    }
    Ok(())
}

/// The name under which the token of a connection is kept.
pub fn connection_token_key(id: &str) -> (r: String)
    ensures
        r@ == "bitbucket.connection."@ + id@ + ".access_token"@,
{
    concat3("bitbucket.connection.", id, ".access_token")
}

// ---------------------------------------------------------------------------
// New pools

/// The processors that a pool is offered where the manager does not tell.
pub const FALLBACK_MANAGER_CPU_LIMIT: i64 = 2;

/// The memory that a pool is offered where the manager does not tell, in
/// megabytes.
pub const FALLBACK_MANAGER_MEMORY_LIMIT_MB: i64 = 2_048;

/// The whole processors and the memory that a pool is offered, for what the
/// manager tells of its budgets.
pub fn manager_resource_capacity(cpus: Option<i64>, memory_mb: Option<i64>) -> (r: (i64, i64))
    ensures
        r.0 == match cpus {
            Some(cpus) => if cpus > 0 {
                clamped(cpus as int, 1, FALLBACK_MANAGER_CPU_LIMIT as int)
            } else {
                FALLBACK_MANAGER_CPU_LIMIT as int
            },
            None => FALLBACK_MANAGER_CPU_LIMIT as int,
        },
        r.1 == match memory_mb {
            Some(memory) => if memory >= 256 {
                clamped(memory as int, 256, FALLBACK_MANAGER_MEMORY_LIMIT_MB as int)
            } else {
                FALLBACK_MANAGER_MEMORY_LIMIT_MB as int
            },
            None => FALLBACK_MANAGER_MEMORY_LIMIT_MB as int,
        },
{
    let cpu: i64 = match cpus {
        Some(cpus) => if cpus > 0 {
            clamp(cpus, 1, FALLBACK_MANAGER_CPU_LIMIT)
        } else {
            FALLBACK_MANAGER_CPU_LIMIT
        },
        None => FALLBACK_MANAGER_CPU_LIMIT,
    };
    let memory: i64 = match memory_mb {
        Some(memory) => if memory >= 256 {
            clamp(memory, 256, FALLBACK_MANAGER_MEMORY_LIMIT_MB)
        } else {
            FALLBACK_MANAGER_MEMORY_LIMIT_MB
        },
        None => FALLBACK_MANAGER_MEMORY_LIMIT_MB,
    };
    (cpu, memory)
}

/// The base image of macOS runners: the one that is set, or the usual one.
pub fn default_tart_image(setting: Option<String>) -> (r: String)
    ensures
        r@ == match setting {
            Some(image) => image@,
            None => "gridops-macos-tahoe-base"@,
        },
{
    match setting {
        Some(image) => image,
        None => "gridops-macos-tahoe-base".to_owned(),
    }
}

/// What a new pool is offered. The processor limit is in whole processors.
#[derive(Debug)]
pub struct PoolDefaults {
    pub provider: &'static str,
    pub providers: Vec<String>,
    pub image: String,
    pub docker_image: String,
    pub tart_image: String,
    pub macos_runtime: &'static str,
    pub labels: Vec<String>,
    pub cpu_limit: i64,
    pub memory_limit_mb: i64,
    pub desired_count: i64,
    pub min_count: i64,
    pub max_count: i64,
    pub autoscaling_enabled: bool,
    pub queue_scale_factor: i64,
    pub idle_timeout_minutes: i64,
    pub runner_group_id: i64,
    pub max_cpu_limit: i64,
    pub max_memory_limit_mb: i64,
}

/// What a new pool is offered: it starts with one runner and can go down to
/// none.
pub fn runner_pool_defaults(
    image: &str,
    tart_image: &str,
    max_cpu_limit: i64,
    max_memory_limit_mb: i64,
) -> (r: PoolDefaults)
    ensures
        r.provider@ == "docker"@,
        texts(r.providers@) == seq!["docker"@],
        r.image@ == image@,
        r.docker_image@ == image@,
        r.tart_image@ == tart_image@,
        r.macos_runtime@ == "vm"@,
        texts(r.labels@) == seq!["gridops"@],
        r.cpu_limit == 2,
        r.memory_limit_mb == 2_048,
        r.desired_count == 1,
        r.min_count == 0,
        r.max_count == 10,
        r.autoscaling_enabled,
        r.queue_scale_factor == 1,
        r.idle_timeout_minutes == 5,
        r.runner_group_id == 1,
        r.max_cpu_limit == max_cpu_limit,
        r.max_memory_limit_mb == max_memory_limit_mb,
{
    let mut providers: Vec<String> = Vec::new();
    providers.push("docker".to_owned());
    let mut labels: Vec<String> = Vec::new();
    labels.push("gridops".to_owned());
    proof {
        assert(texts(providers@) =~= seq!["docker"@]);
        assert(texts(labels@) =~= seq!["gridops"@]);
    }
    PoolDefaults {
        provider: "docker",
        providers,
        image: image.to_owned(),
        docker_image: image.to_owned(),
        tart_image: tart_image.to_owned(),
        macos_runtime: "vm",
        labels,
        cpu_limit: 2,
        memory_limit_mb: 2_048,
        desired_count: 1,
        min_count: 0,
        max_count: 10,
        autoscaling_enabled: true,
        queue_scale_factor: 1,
        idle_timeout_minutes: 5,
        runner_group_id: 1,
        max_cpu_limit,
        max_memory_limit_mb,
    }
}

// ---------------------------------------------------------------------------
// What is configured

/// What is known of the configuration.
#[derive(Debug, Clone, Copy)]
pub struct ConfiguredParts {
    pub oauth_credentials: bool,
    pub app_credentials: bool,
    pub webhook_active: bool,
    pub webhook_secret: bool,
    pub session_secret: bool,
    pub encryption_key: bool,
    pub manager_token: bool,
}

/// The address to which GitHub sends those who sign in, for what joining it to
/// the base address gave.
pub fn callback_url_from(joined: Option<String>) -> (r: String)
    ensures
        r@ == match joined {
            Some(url) => url@,
            None => "/auth/github/callback"@,
        },
{
    match joined {
        Some(url) => url,
        None => "/auth/github/callback".to_owned(),
    }
}

/// What is configured, for those who set the system up.
pub fn configuration(
    parts: &ConfiguredParts,
    base_url: &str,
    webhook_override: Option<&str>,
) -> (r: ConfigurationState)
    ensures
        r.github_oauth == parts.oauth_credentials,
        r.github_app_control == parts.app_credentials,
        r.webhook_active == parts.webhook_active,
        r.webhook_verification == parts.webhook_secret,
        r.secure_storage == (parts.session_secret && parts.encryption_key),
        r.runner_manager == parts.manager_token,
        r.installation_tokens == parts.app_credentials,
        r.callback_url@ == match url_joined(base_url@, "/auth/github/callback"@) {
            Some(url) => url,
            None => "/auth/github/callback"@,
        },
        r.webhook_url@ == match webhook_override {
            Some(url) => url@,
            None => match url_joined(base_url@, "/api/webhooks/github"@) {
                Some(url) => url,
                None => "/api/webhooks/github"@,
            },
        },
{
    ConfigurationState {
        github_oauth: parts.oauth_credentials,
        github_app_control: parts.app_credentials,
        webhook_active: parts.webhook_active,
        webhook_verification: parts.webhook_secret,
        secure_storage: parts.session_secret && parts.encryption_key,
        runner_manager: parts.manager_token,
        installation_tokens: parts.app_credentials,
        callback_url: callback_url_from(join_url(base_url, "/auth/github/callback")),
        webhook_url: effective_webhook_url(base_url, webhook_override),
    }
}

/// The addresses of a GitHub App: its own, and the one at which it is installed.
pub fn app_urls(slug: &str) -> (r: (String, String))
    ensures
        r.0@ == "https://github.com/apps/"@ + slug@,
        r.1@ == "https://github.com/apps/"@ + slug@ + "/installations/new"@,
{
    (
        concat("https://github.com/apps/", slug),
        concat3("https://github.com/apps/", slug, "/installations/new"),
    )
}

// ---------------------------------------------------------------------------
// What settings hold

/// Settings are supported exactly within their ranges.
pub proof fn settings_have_their_ranges(s: SystemSettings)
    ensures
        s.supported() <==> {
            &&& s.log_retention_days >= 1 && s.log_retention_days <= 3_650
            &&& s.webhook_retention_days >= 1 && s.webhook_retention_days <= 3_650
            &&& s.audit_retention_days >= 1 && s.audit_retention_days <= 3_650
            &&& s.log_storage_budget_mb >= 100 && s.log_storage_budget_mb <= 1_048_576
            &&& s.reconcile_interval_seconds >= 5 && s.reconcile_interval_seconds <= 3_600
            &&& s.github_sync_interval_seconds >= 30 && s.github_sync_interval_seconds <= 3_600
        },
{
}

/// Of the values that are stored for a setting the last one counts.
pub proof fn the_last_value_stored_counts(stored: Seq<StoredSetting>, key: Seq<char>, k: int)
    requires
        0 <= k < stored.len(),
        stored[k].key@ == key,
        forall|j: int| k < j < stored.len() ==> (#[trigger] stored[j]).key@ != key,
    ensures
        value_of(stored, key) == Some(stored[k].value@),
    decreases stored.len(),
{
    if k < stored.len() - 1 {
        let front = stored.drop_last();
        assert(stored[stored.len() - 1].key@ != key);
        assert forall|j: int| k < j < front.len() implies (#[trigger] front[j]).key@ != key by {
            assert(front[j] == stored[j]);
        }
        the_last_value_stored_counts(front, key, k);
    }
}

/// A number that is stored for a setting is its value, and so is a truth value.
pub proof fn stored_values_are_the_settings(
    stored: Seq<StoredSetting>,
    n: i64,
    flag: bool,
)
    ensures
        value_of(stored, "logRetentionDays"@) == Some(signed_decimal(n as int)) ==> settings_of(
            stored,
        ).log_retention_days == n,
        value_of(stored, "logStorageBudgetMb"@) == Some(signed_decimal(n as int)) ==> settings_of(
            stored,
        ).log_storage_budget_mb == n,
        value_of(stored, "webhookRetentionDays"@) == Some(signed_decimal(n as int))
            ==> settings_of(stored).webhook_retention_days == n,
        value_of(stored, "auditRetentionDays"@) == Some(signed_decimal(n as int)) ==> settings_of(
            stored,
        ).audit_retention_days == n,
        value_of(stored, "reconcileIntervalSeconds"@) == Some(signed_decimal(n as int))
            ==> settings_of(stored).reconcile_interval_seconds == n,
        value_of(stored, "githubSyncIntervalSeconds"@) == Some(signed_decimal(n as int))
            ==> settings_of(stored).github_sync_interval_seconds == n,
        value_of(stored, "autoUpdateImages"@) == Some(
            if flag {
                "true"@
            } else {
                "false"@
            },
        ) ==> settings_of(stored).auto_update_images == flag,
        value_of(stored, "provisioningPaused"@) == Some(
            if flag {
                "true"@
            } else {
                "false"@
            },
        ) ==> settings_of(stored).provisioning_paused == flag,
{
    numbers_read_back(n);
    flags_read_back(flag);
}

/// A role is changed exactly if it is one of the two, and if someone else administers the
/// system where an administrator gives the role up.
pub proof fn roles_are_changed_while_someone_administers(
    role: Seq<char>,
    current: Seq<char>,
    admin_count: i64,
)
    ensures
        role_error(role, current, admin_count) is None <==> role == "admin"@ || (role == "member"@
            && (current != "admin"@ || admin_count >= 2)),
{
    reveal_strlit("admin");
    reveal_strlit("member");
    assert("admin"@.len() == 5 && "member"@.len() == 6);
}

/// A connection is in order exactly with a name of 2 to 80 bytes on one line, a workspace of
/// small letters, digits, hyphens and underscores, and a token of 20 to 4096 bytes on one line.
pub proof fn connections_in_order(name: Seq<char>, workspace: Seq<char>, token: Seq<char>)
    ensures
        connection_error(name, workspace, token) is None <==> {
            &&& 2 <= utf8_len(name) && utf8_len(name) <= 80
            &&& !name.contains('\n') && !name.contains('\r')
            &&& workspace.len() > 0 && utf8_len(workspace) <= 255
            &&& forall|i: int|
                0 <= i < workspace.len() ==> ('a' <= #[trigger] workspace[i] <= 'z' || '0'
                    <= workspace[i] <= '9' || workspace[i] == '-' || workspace[i] == '_')
            &&& 20 <= utf8_len(token) && utf8_len(token) <= 4_096
            &&& !token.contains('\n') && !token.contains('\r')
        },
{
    if workspace_ok(workspace) {
        assert forall|i: int| 0 <= i < workspace.len() implies ('a' <= #[trigger] workspace[i]
            <= 'z' || '0' <= workspace[i] <= '9' || workspace[i] == '-' || workspace[i] == '_') by {
            assert(lowercase_letter(workspace[i]) || digit(workspace[i]) || workspace[i] == '-'
                || workspace[i] == '_');
        }
    }
}

}
