//! Setting up the GitHub App that controls runners: the manifest that GitHub is
//! asked to make it from, and what GitHub sends back.
use vstd::prelude::*;

use crate::error::{ApiError, ErrorView};
use crate::numbers::{decimal_i64, saturated, signed_decimal, sum_saturated};
use crate::search::{blank, trim, trimmed, trimmed_texts_have_no_space_at_their_ends};
use crate::text::{
    alphanumeric, byte_len, chars_of, concat3, is_alphanumeric, same, text_option, texts, utf8_len,
    whitespace,
};
use crate::web::{
    extend_url, extended_url, host_of, is_success, join_url, scheme_of, success, url_host,
    url_joined, url_scheme,
};

verus! {

/// How long the setup of an App may take, in milliseconds: an hour.
pub const MANIFEST_STATE_TTL_MILLIS: i64 = 3_600_000;

/// A request for the manifest of an App.
#[derive(Debug)]
pub struct ManifestRequest {
    pub owner_type: Option<String>,
    pub organization: Option<String>,
    pub name: Option<String>,
}

/// What GitHub sends back when an App has been made from a manifest.
#[derive(Debug)]
pub struct ManifestCallbackQuery {
    pub code: Option<String>,
    pub state: Option<String>,
}

/// The App that GitHub has made.
pub struct ManifestConversion {
    pub id: i64,
    pub slug: String,
    pub client_id: String,
    pub client_secret: String,
    pub pem: String,
    pub webhook_secret: String,
}

// ---------------------------------------------------------------------------
// The request

/// The login of an account: letters, digits and inner hyphens, 1 to 39 of them.
pub open spec fn slug_ok(value: Seq<char>) -> bool {
    &&& 0 < value.len() <= 39
    &&& value[0] != '-'
    &&& value.last() != '-'
    &&& forall|i: int| 0 <= i < value.len() ==> alphanumeric(#[trigger] value[i]) || value[i] == '-'
}

/// Whether a text is the login of an account.
pub fn valid_slug(value: &str) -> (r: bool)
    ensures
        r == slug_ok(value@),
{
    let a: Vec<char> = chars_of(value);
    if a.len() == 0 || a.len() > 39 || a[0] == '-' || a[a.len() - 1] == '-' {
        return false;
    }
    let mut i: usize = 0;
    while i < a.len()
        invariant
            i <= a@.len(),
            a@ == value@,
            forall|k: int| 0 <= k < i ==> alphanumeric(#[trigger] value@[k]) || value@[k] == '-',
        decreases a@.len() - i,
    {
        if !(is_alphanumeric(a[i]) || a[i] == '-') {
            proof {
                assert(!alphanumeric(value@[i as int]));
            }
            return false;
        }
        i += 1;
    }
    true
}

/// Where a manifest is sent, by who is to own the App.
pub open spec fn manifest_target(
    owner_type: Option<Seq<char>>,
    organization: Option<Seq<char>>,
) -> Result<Seq<char>, ErrorView> {
    let owner = match owner_type {
        Some(owner) => owner,
        None => "user"@,
    };
    if owner == "user"@ {
        Ok("https://github.com/settings/apps/new"@)
    } else if owner == "organization"@ {
        if organization is Some && slug_ok(organization->0) {
            Ok("https://github.com/organizations/"@ + organization->0 + "/settings/apps/new"@)
        } else {
            Err(
                ErrorView::BadRequest(
                    "A valid organization login is required for organization-owned apps."@,
                ),
            )
        }
    } else {
        Err(ErrorView::BadRequest("GitHub App owner type must be user or organization."@))
    }
}

/// Where a manifest is sent.
pub fn manifest_action(input: &ManifestRequest) -> (r: Result<String, ApiError>)
    ensures
        match manifest_target(text_option(input.owner_type), text_option(input.organization)) {
            Ok(action) => r is Ok && r->Ok_0@ == action,
            Err(error) => r is Err && r->Err_0@ == error,
        },
{
    let (by_user, by_organization) = match &input.owner_type {
        None => (true, false),
        Some(owner) => (same(owner.as_str(), "user"), same(owner.as_str(), "organization")),
    };
    if by_user {
        return Ok("https://github.com/settings/apps/new".to_owned());
    }
    if by_organization {
        if let Some(organization) = &input.organization {
            if valid_slug(organization.as_str()) {
                return Ok(
                    concat3(
                        "https://github.com/organizations/",
                        organization.as_str(),
                        "/settings/apps/new",
                    ),
                );
            }
        }
        return Err(
            ApiError::BadRequest(
                "A valid organization login is required for organization-owned apps.".to_owned(),
            ),
        );
    }
    Err(ApiError::BadRequest("GitHub App owner type must be user or organization.".to_owned()))
}

/// The name of an App: the one that is asked for, without white space around it,
/// where it has 1 to 100 bytes.
pub open spec fn app_name(name: Option<Seq<char>>) -> Seq<char> {
    match name {
        Some(name) => if trimmed(name).len() > 0 && utf8_len(trimmed(name)) <= 100 {
            trimmed(name)
        } else {
            "GridOps Self-Hosted"@
        },
        None => "GridOps Self-Hosted"@,
    }
}

/// The name of an App.
pub fn manifest_name(name: &Option<String>) -> (r: String)
    ensures
        r@ == app_name(text_option(*name)),
{
    match name {
        None => "GridOps Self-Hosted".to_owned(),
        Some(name) => {
            let wanted: String = trim(name.as_str());
            if !wanted.as_str().is_empty() && byte_len(wanted.as_str()) <= 100 {
                wanted
            } else {
                "GridOps Self-Hosted".to_owned()
            }
        },
    }
}

/// When the setup of an App that begins now ends.
pub fn manifest_state_expiry(now: i64) -> (r: i64)
    ensures
        r == saturated(now + MANIFEST_STATE_TTL_MILLIS),
{
    sum_saturated(now, MANIFEST_STATE_TTL_MILLIS)
}

// ---------------------------------------------------------------------------
// The manifest

/// A permission of an App.
#[derive(Debug)]
pub struct AppPermission {
    pub name: &'static str,
    pub access: &'static str,
}

/// The manifest of an App.
#[derive(Debug)]
pub struct Manifest {
    pub name: String,
    pub url: String,
    pub description: &'static str,
    pub hook_url: String,
    pub hook_active: bool,
    pub redirect_url: String,
    pub callback_urls: Vec<String>,
    pub setup_url: String,
    pub public: bool,
    pub request_oauth_on_install: bool,
    pub setup_on_update: bool,
    pub default_permissions: Vec<AppPermission>,
    pub default_events: Vec<&'static str>,
}

/// The addresses in a manifest, with the scheme and the host at which webhooks
/// are delivered.
#[derive(Debug)]
pub struct ManifestUrls {
    pub callback: String,
    pub manifest_callback: String,
    pub setup: String,
    pub webhook: String,
    pub webhook_scheme: Option<String>,
    pub webhook_host: Option<String>,
}

/// A host that only the machine itself reaches.
pub open spec fn loopback(host: Option<Seq<char>>) -> bool {
    host == Some("localhost"@) || host == Some("127.0.0.1"@) || host == Some("::1"@) || host
        == Some("[::1]"@)
}

/// Webhooks are delivered: as it is set, or else where GitHub can reach the
/// address, which is with encryption and not on the machine itself.
pub open spec fn delivers(
    setting: Option<bool>,
    scheme: Option<Seq<char>>,
    host: Option<Seq<char>>,
) -> bool {
    match setting {
        Some(active) => active,
        None => scheme == Some("https"@) && !loopback(host),
    }
}

/// Whether webhooks are delivered.
pub fn webhook_delivery_active(
    setting: Option<bool>,
    scheme: &Option<String>,
    host: &Option<String>,
) -> (r: bool)
    ensures
        r == delivers(setting, text_option(*scheme), text_option(*host)),
{
    match setting {
        Some(active) => active,
        None => {
            let encrypted: bool = match scheme {
                Some(scheme) => same(scheme.as_str(), "https"),
                None => false,
            };
            let local: bool = match host {
                Some(host) => {
                    let h: &str = host.as_str();
                    same(h, "localhost") || same(h, "127.0.0.1") || same(h, "::1") || same(
                        h,
                        "[::1]",
                    )
                },
                None => false,
            };
            encrypted && !local
        },
    }
}

/// Webhooks are delivered to the system at a base address, where there is an
/// address for them.
pub open spec fn delivers_to(base_url: Seq<char>, setting: Option<bool>) -> bool {
    match url_joined(base_url, "/api/webhooks/github"@) {
        Some(url) => delivers(setting, url_scheme(url), url_host(url)),
        None => delivers(setting, None, None),
    }
}

/// Whether webhooks are delivered to the system at a base address.
pub fn webhooks_active(base_url: &str, setting: Option<bool>) -> (r: bool)
    ensures
        r == delivers_to(base_url@, setting),
{
    match join_url(base_url, "/api/webhooks/github") {
        Some(url) => webhook_delivery_active(
            setting,
            &scheme_of(url.as_str()),
            &host_of(url.as_str()),
        ),
        None => webhook_delivery_active(setting, &None, &None),
    }
}

/// The permissions of an App, each with its access.
pub open spec fn permission_pairs(list: Seq<AppPermission>) -> Seq<(Seq<char>, Seq<char>)> {
    list.map_values(|permission: AppPermission| (permission.name@, permission.access@))
}

/// The names of events.
pub open spec fn event_names(list: Seq<&'static str>) -> Seq<Seq<char>> {
    list.map_values(|event: &'static str| event@)
}

impl Manifest {
    /// The manifest asks for an App of this name at these addresses, with the
    /// permissions and events that controlling runners takes. GitHub delivers
    /// the events of installations and of authorizations unasked, and does not
    /// let a manifest name them.
    pub open spec fn asks_for(
        &self,
        name: Seq<char>,
        base_url: Seq<char>,
        urls: ManifestUrls,
        active: bool,
    ) -> bool {
        &&& self.name@ == name
        &&& self.url@ == base_url
        &&& self.description@ == "Self-hosted GitHub Actions runner control plane"@
        &&& self.hook_url@ == urls.webhook@
        &&& self.hook_active == active
        &&& self.redirect_url@ == urls.manifest_callback@
        &&& texts(self.callback_urls@) == seq![urls.callback@]
        &&& self.setup_url@ == urls.setup@
        &&& !self.public
        &&& self.request_oauth_on_install
        &&& self.setup_on_update
        &&& permission_pairs(self.default_permissions@) == seq![
            ("actions"@, "write"@),
            ("administration"@, "write"@),
            ("metadata"@, "read"@),
            ("members"@, "read"@),
            ("organization_self_hosted_runners"@, "write"@),
        ]
        &&& event_names(self.default_events@) == seq!["workflow_job"@, "workflow_run"@]
    }
}

fn permission(name: &'static str, access: &'static str) -> (r: AppPermission)
    ensures
        (r.name@, r.access@) == (name@, access@),
{
    AppPermission { name, access }
}

/// The manifest of an App at given addresses, and whether webhooks are
/// delivered.
pub fn manifest_for(name: &str, base_url: &str, urls: ManifestUrls, setting: Option<bool>) -> (r: (
    Manifest,
    bool,
))
    ensures
        r.1 == delivers(setting, text_option(urls.webhook_scheme), text_option(urls.webhook_host)),
        r.0.asks_for(name@, base_url@, urls, r.1),
{
    let active: bool = webhook_delivery_active(setting, &urls.webhook_scheme, &urls.webhook_host);
    let mut callback_urls: Vec<String> = Vec::new();
    callback_urls.push(urls.callback);
    let mut permissions: Vec<AppPermission> = Vec::new();
    permissions.push(permission("actions", "write"));
    permissions.push(permission("administration", "write"));
    permissions.push(permission("metadata", "read"));
    permissions.push(permission("members", "read"));
    permissions.push(permission("organization_self_hosted_runners", "write"));
    let mut events: Vec<&'static str> = Vec::new();
    events.push("workflow_job");
    events.push("workflow_run");
    proof {
        assert(texts(callback_urls@) =~= seq![urls.callback@]);
        assert(permission_pairs(permissions@) =~= seq![
            ("actions"@, "write"@),
            ("administration"@, "write"@),
            ("metadata"@, "read"@),
            ("members"@, "read"@),
            ("organization_self_hosted_runners"@, "write"@),
        ]);
        assert(event_names(events@) =~= seq!["workflow_job"@, "workflow_run"@]);
    }
    (
        Manifest {
            name: name.to_owned(),
            url: base_url.to_owned(),
            description: "Self-hosted GitHub Actions runner control plane",
            hook_url: urls.webhook,
            hook_active: active,
            redirect_url: urls.manifest_callback,
            callback_urls,
            setup_url: urls.setup,
            public: false,
            request_oauth_on_install: true,
            setup_on_update: true,
            default_permissions: permissions,
            default_events: events,
        },
        active,
    )
}

/// The addresses of a manifest below a base address.
pub open spec fn urls_below(base: Seq<char>, urls: ManifestUrls) -> bool {
    &&& url_joined(base, "/auth/github/callback"@) == Some(urls.callback@)
    &&& url_joined(base, "/auth/github-app/manifest/callback"@) == Some(urls.manifest_callback@)
    &&& url_joined(base, "/settings?appCreated=1"@) == Some(urls.setup@)
    &&& url_joined(base, "/api/webhooks/github"@) == Some(urls.webhook@)
    &&& text_option(urls.webhook_scheme) == url_scheme(urls.webhook@)
    &&& text_option(urls.webhook_host) == url_host(urls.webhook@)
}

/// The addresses of a manifest below a base address; nothing where one of them
/// cannot be made.
pub fn manifest_urls(base_url: &str) -> (r: Option<ManifestUrls>)
    ensures
        match r {
            Some(urls) => urls_below(base_url@, urls),
            None => url_joined(base_url@, "/auth/github/callback"@) is None || url_joined(
                base_url@,
                "/auth/github-app/manifest/callback"@,
            ) is None || url_joined(base_url@, "/settings?appCreated=1"@) is None || url_joined(
                base_url@,
                "/api/webhooks/github"@,
            ) is None,
        },
{
    let callback: Option<String> = join_url(base_url, "/auth/github/callback");
    let manifest_callback: Option<String> = join_url(
        base_url,
        "/auth/github-app/manifest/callback",
    );
    let setup: Option<String> = join_url(base_url, "/settings?appCreated=1");
    let webhook: Option<String> = join_url(base_url, "/api/webhooks/github");
    match (callback, manifest_callback, setup, webhook) {
        (Some(callback), Some(manifest_callback), Some(setup), Some(webhook)) => {
            let webhook_scheme: Option<String> = scheme_of(webhook.as_str());
            let webhook_host: Option<String> = host_of(webhook.as_str());
            Some(
                ManifestUrls {
                    callback,
                    manifest_callback,
                    setup,
                    webhook,
                    webhook_scheme,
                    webhook_host,
                },
            )
        },
        _ => None,
    }
}

/// The manifest of an App below a base address, and whether webhooks are
/// delivered; nothing where an address cannot be made.
pub fn build_manifest(name: &str, base_url: &str, setting: Option<bool>) -> (r: Option<
    (Manifest, bool),
>)
    ensures
        match r {
            Some(made) => exists|urls: ManifestUrls| #[trigger]
                urls_below(base_url@, urls) && made.1 == delivers(
                    setting,
                    url_scheme(urls.webhook@),
                    url_host(urls.webhook@),
                ) && made.0.asks_for(name@, base_url@, urls, made.1),
            None => url_joined(base_url@, "/auth/github/callback"@) is None || url_joined(
                base_url@,
                "/auth/github-app/manifest/callback"@,
            ) is None || url_joined(base_url@, "/settings?appCreated=1"@) is None || url_joined(
                base_url@,
                "/api/webhooks/github"@,
            ) is None,
        },
{
    match manifest_urls(base_url) {
        Some(urls) => {
            proof {
                assert(urls_below(base_url@, urls));
            }
            Some(manifest_for(name, base_url, urls, setting))
        },
        None => None,
    }
}

/// Where nothing is set, webhooks are never delivered to the machine itself or
/// without encryption; and they are never delivered where that is set.
pub proof fn local_addresses_get_no_webhooks(scheme: Option<Seq<char>>, host: Option<Seq<char>>)
    ensures
        loopback(host) ==> !delivers(None, scheme, host),
        scheme != Some("https"@) ==> !delivers(None, scheme, host),
        !delivers(Some(false), scheme, host),
{
}

// ---------------------------------------------------------------------------
// The answer

/// What is known of a setup that was begun.
#[derive(Debug)]
pub struct ManifestState {
    pub id: String,
    pub user_id: String,
    pub expires_at: i64,
    pub login: String,
    pub role: String,
}

/// The code and the state of an answer, where GitHub sent both.
pub fn manifest_code(query: ManifestCallbackQuery) -> (r: Result<(String, String), &'static str>)
    ensures
        match (query.code, query.state) {
            (Some(code), Some(state)) => r is Ok && r->Ok_0 == (code, state),
            _ => r is Err && r->Err_0@ == "GitHub did not return a valid App manifest code."@,
        },
{
    match (query.code, query.state) {
        (Some(code), Some(state)) => Ok((code, state)),
        _ => Err("GitHub did not return a valid App manifest code."),
    }
}

/// Why an answer to a setup is refused, if it is.
pub open spec fn setup_refusal(record: Option<ManifestState>, now: i64) -> Option<Seq<char>> {
    match record {
        None => Some("The GitHub App setup request is invalid."@),
        Some(record) => if record.expires_at <= now {
            Some("The GitHub App setup request expired."@)
        } else if record.role@ != "admin"@ {
            Some("Only a GridOps administrator can configure the GitHub App."@)
        } else {
            None
        },
    }
}

/// The setup that an answer belongs to, where it was begun, has not expired, and
/// was begun by someone who administers the system.
pub fn accept_setup(record: Option<ManifestState>, now: i64) -> (r: Result<
    ManifestState,
    &'static str,
>)
    ensures
        match setup_refusal(record, now) {
            Some(message) => r is Err && r->Err_0@ == message,
            None => r is Ok && record == Some(r->Ok_0),
        },
{
    match record {
        None => Err("The GitHub App setup request is invalid."),
        Some(found) => if found.expires_at <= now {
            Err("The GitHub App setup request expired.")
        } else if !same(found.role.as_str(), "admin") {
            Err("Only a GridOps administrator can configure the GitHub App.")
        } else {
            Ok(found)
        },
    }
}

/// Whether GitHub has made the App, by the status of its answer.
pub fn accept_conversion_status(status: u16) -> (r: Result<(), &'static str>)
    ensures
        if success(status) {
            r is Ok
        } else {
            r is Err && r->Err_0@ == "GitHub could not complete the App setup."@
        },
{
    if is_success(status) {
        Ok(())
    } else {
        Err("GitHub could not complete the App setup.")
    }
}

/// A secret that is kept, and the name under which it is kept.
pub struct NamedSecret {
    pub key: &'static str,
    pub value: String,
}

/// The names and values of secrets.
pub open spec fn secret_pairs(list: Seq<NamedSecret>) -> Seq<(Seq<char>, Seq<char>)> {
    list.map_values(|secret: NamedSecret| (secret.key@, secret.value@))
}

/// GitHub has sent everything that the App needs.
pub open spec fn conversion_complete(app: ManifestConversion) -> bool {
    app.id > 0 && app.slug@.len() > 0 && app.client_id@.len() > 0 && app.client_secret@.len() > 0
        && app.pem@.len() > 0 && app.webhook_secret@.len() > 0
}

/// The secrets of an App.
pub open spec fn app_secrets(app: ManifestConversion) -> Seq<(Seq<char>, Seq<char>)> {
    seq![
        ("github.client_id"@, app.client_id@),
        ("github.client_secret"@, app.client_secret@),
        ("github.app_id"@, signed_decimal(app.id as int)),
        ("github.app_private_key"@, app.pem@),
        ("github.app_slug"@, app.slug@),
        ("github.webhook_secret"@, app.webhook_secret@),
    ]
}

fn named(key: &'static str, value: &str) -> (r: NamedSecret)
    ensures
        (r.key@, r.value@) == (key@, value@),
{
    NamedSecret { key, value: value.to_owned() }
}

/// The secrets that are kept of an App that GitHub has made, each to be sealed
/// under its name.
pub fn conversion_secrets(app: &ManifestConversion) -> (r: Result<Vec<NamedSecret>, ApiError>)
    ensures
        if conversion_complete(*app) {
            r is Ok && secret_pairs(r->Ok_0@) == app_secrets(*app)
        } else {
            r is Err && r->Err_0@ == ErrorView::Internal(
                "GitHub returned an incomplete App manifest conversion"@,
            )
        },
{
    if app.id <= 0 || app.slug.as_str().is_empty() || app.client_id.as_str().is_empty()
        || app.client_secret.as_str().is_empty() || app.pem.as_str().is_empty()
        || app.webhook_secret.as_str().is_empty() {
        return Err(
            ApiError::Internal("GitHub returned an incomplete App manifest conversion".to_owned()),
        );
    }
    let mut out: Vec<NamedSecret> = Vec::new();
    out.push(named("github.client_id", app.client_id.as_str()));
    out.push(named("github.client_secret", app.client_secret.as_str()));
    out.push(named("github.app_id", decimal_i64(app.id).as_str()));
    out.push(named("github.app_private_key", app.pem.as_str()));
    out.push(named("github.app_slug", app.slug.as_str()));
    out.push(named("github.webhook_secret", app.webhook_secret.as_str()));
    proof {
        assert(secret_pairs(out@) =~= app_secrets(*app));
    }
    Ok(out)
}

/// The address of the settings with a message about a failed setup.
pub fn settings_error_redirect(base_url: &str, message: &str) -> (r: Option<String>)
    ensures
        text_option(r) == extended_url(base_url@, "/settings"@, "appError"@, message@),
{
    extend_url(base_url, "/settings", "appError", message)
}

/// An answer is accepted only for a setup that was begun by someone who
/// administers the system, and only until it expires.
pub proof fn only_administrators_complete_a_setup(record: Option<ManifestState>, now: i64)
    requires
        setup_refusal(record, now) is None,
    ensures
        record is Some,
        record->0.role@ == "admin"@,
        record->0.expires_at > now,
{
}

// ---------------------------------------------------------------------------
// What an App is set up with

/// Webhooks are delivered as it is set; where nothing is set, exactly to an address with
/// encryption that is not on the machine itself.
pub proof fn webhooks_go_where_github_reaches(
    setting: Option<bool>,
    scheme: Option<Seq<char>>,
    host: Option<Seq<char>>,
)
    ensures
        setting is Some ==> delivers(setting, scheme, host) == setting->0,
        setting is None ==> (delivers(setting, scheme, host) <==> scheme == Some("https"@) && host
            != Some("localhost"@) && host != Some("127.0.0.1"@) && host != Some("::1"@) && host
            != Some("[::1]"@)),
{
}

/// An App of a person is set up in the person's settings and one of an organization in the
/// organization's, where that has a proper login; there are no others.
pub proof fn apps_belong_to_people_and_organizations(owner: Seq<char>, organization: Seq<char>)
    ensures
        manifest_target(None, None) == Ok::<Seq<char>, ErrorView>(
            "https://github.com/settings/apps/new"@,
        ),
        manifest_target(Some("user"@), Some(organization)) == Ok::<Seq<char>, ErrorView>(
            "https://github.com/settings/apps/new"@,
        ),
        slug_ok(organization) ==> manifest_target(Some("organization"@), Some(organization))
            == Ok::<Seq<char>, ErrorView>(
            "https://github.com/organizations/"@ + organization + "/settings/apps/new"@,
        ),
        !slug_ok(organization) ==> manifest_target(Some("organization"@), Some(organization))
            is Err,
        manifest_target(Some("organization"@), None) is Err,
        owner != "user"@ && owner != "organization"@ ==> manifest_target(
            Some(owner),
            Some(organization),
        ) is Err,
        slug_ok(organization) ==> 1 <= organization.len() <= 39 && organization[0] != '-'
            && !organization.contains('/') && !organization.contains('.'),
{
    reveal_strlit("user");
    reveal_strlit("organization");
    assert("user"@.len() == 4 && "organization"@.len() == 12);
    if slug_ok(organization) {
        assert forall|i: int| 0 <= i < organization.len() implies organization[i] != '/'
            && organization[i] != '.' by {
            assert(alphanumeric(organization[i]) || organization[i] == '-');
        }
    }
}

/// An App has the name that is asked for, where that has 1 to 100 bytes and no white space
/// around it, and the usual one otherwise.
pub proof fn apps_have_the_name_that_is_asked_for(name: Seq<char>)
    ensures
        name.len() > 0 && !whitespace(name[0]) && !whitespace(name.last()) && utf8_len(name) <= 100
            ==> app_name(Some(name)) == name,
        blank(name) ==> app_name(Some(name)) == "GridOps Self-Hosted"@,
        app_name(None) == "GridOps Self-Hosted"@,
{
    trimmed_texts_have_no_space_at_their_ends(name);
}

/// A setup is completed exactly if it was begun, has not ended, and was begun by someone who
/// administers the system.
pub proof fn setups_are_completed_in_time_by_administrators(
    record: Option<ManifestState>,
    now: i64,
)
    ensures
        setup_refusal(record, now) is None <==> record is Some && now < record->0.expires_at
            && record->0.role@ == "admin"@,
{
}

/// An App is taken over exactly if GitHub sent its number, its name, both parts of its
/// credentials, its key and the secret of its webhooks; each is kept under its own name.
pub proof fn apps_are_taken_over_whole(app: ManifestConversion)
    ensures
        conversion_complete(app) <==> app.id >= 1 && app.slug@.len() > 0 && app.client_id@.len() > 0
            && app.client_secret@.len() > 0 && app.pem@.len() > 0 && app.webhook_secret@.len() > 0,
        app_secrets(app).len() == 6,
        app_secrets(app).contains(("github.client_id"@, app.client_id@)),
        app_secrets(app).contains(("github.client_secret"@, app.client_secret@)),
        app_secrets(app).contains(("github.app_id"@, signed_decimal(app.id as int))),
        app_secrets(app).contains(("github.app_private_key"@, app.pem@)),
        app_secrets(app).contains(("github.app_slug"@, app.slug@)),
        app_secrets(app).contains(("github.webhook_secret"@, app.webhook_secret@)),
{
    let kept = app_secrets(app);
    assert(kept[0] == ("github.client_id"@, app.client_id@));
    assert(kept[1] == ("github.client_secret"@, app.client_secret@));
    assert(kept[2] == ("github.app_id"@, signed_decimal(app.id as int)));
    assert(kept[3] == ("github.app_private_key"@, app.pem@));
    assert(kept[4] == ("github.app_slug"@, app.slug@));
    assert(kept[5] == ("github.webhook_secret"@, app.webhook_secret@));
}

/// An App may do what controlling runners takes and no more: it writes actions, runs and
/// runners, reads what there is and who is a member, is told of jobs and runs, and is not
/// offered to others.
pub proof fn apps_ask_for_no_more_than_they_need(
    manifest: Manifest,
    name: Seq<char>,
    base_url: Seq<char>,
    urls: ManifestUrls,
    active: bool,
)
    requires
        manifest.asks_for(name, base_url, urls, active),
    ensures
        manifest.name@ == name,
        manifest.hook_url@ == urls.webhook@,
        manifest.hook_active == active,
        manifest.redirect_url@ == urls.manifest_callback@,
        manifest.setup_url@ == urls.setup@,
        manifest.callback_urls@.len() == 1 && manifest.callback_urls@[0]@ == urls.callback@,
        !manifest.public,
        manifest.default_permissions@.len() == 5,
        manifest.default_permissions@[0].name@ == "actions"@
            && manifest.default_permissions@[0].access@ == "write"@,
        manifest.default_permissions@[1].name@ == "administration"@
            && manifest.default_permissions@[1].access@ == "write"@,
        manifest.default_permissions@[2].name@ == "metadata"@
            && manifest.default_permissions@[2].access@ == "read"@,
        manifest.default_permissions@[3].name@ == "members"@
            && manifest.default_permissions@[3].access@ == "read"@,
        manifest.default_permissions@[4].name@ == "organization_self_hosted_runners"@
            && manifest.default_permissions@[4].access@ == "write"@,
        manifest.default_events@.len() == 2,
        manifest.default_events@[0]@ == "workflow_job"@,
        manifest.default_events@[1]@ == "workflow_run"@,
{
    let pairs = permission_pairs(manifest.default_permissions@);
    assert(pairs.len() == 5);
    assert(pairs[0] == ("actions"@, "write"@));
    assert(pairs[1] == ("administration"@, "write"@));
    assert(pairs[2] == ("metadata"@, "read"@));
    assert(pairs[3] == ("members"@, "read"@));
    assert(pairs[4] == ("organization_self_hosted_runners"@, "write"@));
    let events = event_names(manifest.default_events@);
    assert(events.len() == 2);
    assert(events[0] == "workflow_job"@ && events[1] == "workflow_run"@);
    let urls_asked = texts(manifest.callback_urls@);
    assert(urls_asked.len() == 1);
    assert(urls_asked[0] == urls.callback@);
}

}
