//! What the GitHub API sends and takes, the paths it is asked at, and the tokens
//! with which a GitHub App is authorized.
use std::collections::HashMap;
use vstd::prelude::*;

use crate::config::str_option;
use crate::numbers::{
    decimal_i64, difference_saturated, saturated, signed_decimal, sum_saturated,
};
use crate::json::{text_json, write_text};
use crate::keys::{is_readable_key, readable_key};
use crate::text::{
    byte_len, concat, concat3, concat4, concat5, copy_option, same, text_option, utf8_len,
};

verus! {

// ---------------------------------------------------------------------------
// Values

/// A user of GitHub.
#[derive(Debug)]
pub struct GitHubUser {
    pub id: i64,
    pub login: String,
    pub name: Option<String>,
    pub email: Option<String>,
    pub avatar_url: String,
}

/// A page of the installations of a GitHub App.
#[derive(Debug)]
pub struct InstallationPage {
    pub installations: Vec<GitHubInstallation>,
}

/// An installation of a GitHub App. The permissions are kept as they came.
#[derive(Debug)]
pub struct GitHubInstallation {
    pub id: i64,
    pub account: Option<GitHubAccount>,
    pub target_type: String,
    pub repository_selection: String,
    pub permissions: String,
    pub events: Vec<String>,
    pub suspended_at: Option<String>,
}

/// The account of an installation.
#[derive(Debug)]
pub struct GitHubAccount {
    pub id: i64,
    pub login: String,
    pub kind: String,
    pub avatar_url: String,
}

/// The membership of a user in an organization.
#[derive(Debug)]
pub struct GitHubOrganizationMembership {
    pub state: String,
    pub role: String,
}

/// A page of repositories.
#[derive(Debug)]
pub struct RepositoryPage {
    pub total_count: i64,
    pub repositories: Vec<GitHubRepository>,
}

/// A repository.
#[derive(Debug)]
pub struct GitHubRepository {
    pub id: i64,
    pub name: String,
    pub full_name: String,
    pub private: bool,
    pub archived: bool,
    pub default_branch: String,
    pub html_url: String,
    pub updated_at: Option<String>,
    pub owner: GitHubOwner,
    pub permissions: Option<Vec<RepositoryPermission>>,
}

/// A permission on a repository, and whether it is granted.
#[derive(Debug)]
pub struct RepositoryPermission {
    pub name: String,
    pub allowed: bool,
}

/// A page of workflow jobs.
#[derive(Debug)]
pub struct WorkflowJobPage {
    pub jobs: Vec<GitHubWorkflowJob>,
}

/// A workflow job.
#[derive(Debug)]
pub struct GitHubWorkflowJob {
    pub id: i64,
    pub run_id: i64,
    pub name: String,
    pub status: String,
    pub conclusion: Option<String>,
    pub runner_id: Option<i64>,
    pub runner_name: Option<String>,
    pub runner_group_id: Option<i64>,
    pub runner_group_name: Option<String>,
    pub labels: Vec<String>,
    pub html_url: String,
    pub started_at: Option<String>,
    pub completed_at: Option<String>,
    pub steps: Vec<GitHubWorkflowStep>,
}

/// A step of a workflow job.
#[derive(Debug)]
pub struct GitHubWorkflowStep {
    pub name: String,
    pub status: String,
    pub conclusion: Option<String>,
    pub number: i64,
    pub started_at: Option<String>,
    pub completed_at: Option<String>,
}

impl GitHubWorkflowStep {
    /// A copy of a step.
    pub fn copy(&self) -> (r: GitHubWorkflowStep)
        ensures
            r@ == self@,
    {
        GitHubWorkflowStep {
            name: self.name.clone(),
            status: self.status.clone(),
            conclusion: copy_option(&self.conclusion),
            number: self.number,
            started_at: copy_option(&self.started_at),
            completed_at: copy_option(&self.completed_at),
        }
    }
}

/// A page of workflow runs.
#[derive(Debug)]
pub struct WorkflowRunPage {
    pub workflow_runs: Vec<GitHubWorkflowRun>,
}

/// A workflow run.
#[derive(Debug)]
pub struct GitHubWorkflowRun {
    pub id: i64,
    pub workflow_id: Option<i64>,
    pub name: Option<String>,
    pub display_title: Option<String>,
    pub run_number: i64,
    pub run_attempt: i64,
    pub event: String,
    pub status: String,
    pub conclusion: Option<String>,
    pub head_branch: Option<String>,
    pub head_sha: String,
    pub actor: Option<WorkflowActor>,
    pub html_url: String,
    pub run_started_at: Option<String>,
    pub created_at: String,
    pub updated_at: String,
}

/// The person who started a workflow run.
#[derive(Debug)]
pub struct WorkflowActor {
    pub login: String,
}

/// The owner of a repository.
#[derive(Debug)]
pub struct GitHubOwner {
    pub login: String,
}

/// What a runner is registered for.
#[derive(Clone, Copy, Debug)]
pub enum RunnerTarget<'a> {
    Repository { owner: &'a str, repository: &'a str },
    Organization { organization: &'a str },
}

/// A request for the configuration of a runner for one job.
#[derive(Debug)]
pub struct JitRequest {
    pub name: String,
    pub runner_group_id: i64,
    pub labels: Vec<String>,
    pub work_folder: String,
}

/// The configuration of a runner for one job.
pub struct JitResponse {
    pub runner: JitRunner,
    pub encoded_jit_config: String,
}

/// A runner that is registered at GitHub.
#[derive(Debug)]
pub struct JitRunner {
    pub id: i64,
    pub name: String,
    pub status: String,
    pub busy: bool,
}

/// A token with which a runner registers itself.
pub struct RegistrationToken {
    pub token: String,
    pub expires_at: String,
}

/// A group of runners.
#[derive(Debug)]
pub struct RunnerGroup {
    pub id: i64,
    pub name: String,
    pub visibility: String,
    pub is_default: bool,
}

// ---------------------------------------------------------------------------
// Paths

/// The path of what a runner is registered for.
pub open spec fn target_path(target: RunnerTarget) -> Seq<char> {
    match target {
        RunnerTarget::Repository { owner, repository } => "/repos/"@ + owner@ + "/"@ + repository@
            + "/actions/runners"@,
        RunnerTarget::Organization { organization } => "/orgs/"@ + organization@
            + "/actions/runners"@,
    }
}

/// The path of the runners of a target.
pub fn runners_path(target: RunnerTarget) -> (r: String)
    ensures
        r@ == target_path(target),
{
    match target {
        RunnerTarget::Repository { owner, repository } => concat5(
            "/repos/",
            owner,
            "/",
            repository,
            "/actions/runners",
        ),
        RunnerTarget::Organization { organization } => concat3(
            "/orgs/",
            organization,
            "/actions/runners",
        ),
    }
}

/// The path at which the configuration of a runner for one job is made.
pub fn jit_config_path(target: RunnerTarget) -> (r: String)
    ensures
        r@ == target_path(target) + "/generate-jitconfig"@,
{
    concat(runners_path(target).as_str(), "/generate-jitconfig")
}

/// The path at which a registration token is made.
pub fn registration_token_path(target: RunnerTarget) -> (r: String)
    ensures
        r@ == target_path(target) + "/registration-token"@,
{
    concat(runners_path(target).as_str(), "/registration-token")
}

/// The path of a page of the runners of a target.
pub fn runner_page_path(target: RunnerTarget, page: i64) -> (r: String)
    ensures
        r@ == target_path(target) + "?per_page=100&page="@ + signed_decimal(page as int),
{
    concat3(
        runners_path(target).as_str(),
        "?per_page=100&page=",
        decimal_i64(page).as_str(),
    )
}

/// The path of a runner of a target.
pub fn runner_path(target: RunnerTarget, runner_id: i64) -> (r: String)
    ensures
        r@ == target_path(target) + "/"@ + signed_decimal(runner_id as int),
{
    concat3(runners_path(target).as_str(), "/", decimal_i64(runner_id).as_str())
}

/// The path of a runner group of an organization.
pub fn runner_group_path(organization: &str, group_id: i64) -> (r: String)
    ensures
        r@ == "/orgs/"@ + organization@ + "/actions/runner-groups/"@ + signed_decimal(
            group_id as int,
        ),
{
    concat4("/orgs/", organization, "/actions/runner-groups/", decimal_i64(group_id).as_str())
}

/// The path of a page of the runner groups of an organization.
pub fn runner_group_page_path(organization: &str, page: i64) -> (r: String)
    ensures
        r@ == "/orgs/"@ + organization@ + "/actions/runner-groups?per_page=100&page="@
            + signed_decimal(page as int),
{
    concat4(
        "/orgs/",
        organization,
        "/actions/runner-groups?per_page=100&page=",
        decimal_i64(page).as_str(),
    )
}

/// The path at which a token for an installation is made.
pub fn access_token_path(installation_id: i64) -> (r: String)
    ensures
        r@ == "/app/installations/"@ + signed_decimal(installation_id as int) + "/access_tokens"@,
{
    concat3("/app/installations/", decimal_i64(installation_id).as_str(), "/access_tokens")
}

/// What a runner is registered for: its repository where it has one, or else the
/// organization.
pub open spec fn runner_target_of(
    owner: Option<Seq<char>>,
    repository: Option<Seq<char>>,
    organization: Seq<char>,
) -> Seq<char> {
    if owner is Some && repository is Some {
        "/repos/"@ + owner->0 + "/"@ + repository->0 + "/actions/runners"@
    } else {
        "/orgs/"@ + organization + "/actions/runners"@
    }
}

/// What a runner is registered for.
pub fn runner_target<'a>(
    owner: Option<&'a str>,
    repository: Option<&'a str>,
    organization: &'a str,
) -> (r: RunnerTarget<'a>)
    ensures
        target_path(r) == runner_target_of(str_option(owner), str_option(repository), organization@),
{
    match (owner, repository) {
        (Some(owner), Some(repository)) => RunnerTarget::Repository { owner, repository },
        _ => RunnerTarget::Organization { organization },
    }
}

// ---------------------------------------------------------------------------
// Pages

/// The last page that is read of anything.
pub const LAST_PAGE: i64 = 100;

/// The page that is read after a page with `count` items: none after a page that
/// is not full, and none after the last one.
pub open spec fn page_after(page: i64, count: nat) -> Option<i64> {
    if count < 100 || page >= LAST_PAGE {
        None
    } else {
        Some((page + 1) as i64)
    }
}

/// The page that is read after a page with `count` items.
pub fn next_page(page: i64, count: usize) -> (r: Option<i64>)
    ensures
        r == page_after(page, count as nat),
{
    if count < 100 || page >= LAST_PAGE {
        None
    } else {
        Some(page + 1)
    }
}

/// Reading pages comes to an end after at most a hundred of them.
pub proof fn reading_pages_ends(page: i64, count: nat)
    requires
        1 <= page <= LAST_PAGE,
    ensures
        page_after(page, count) is Some ==> page < page_after(page, count)->0 <= LAST_PAGE,
{
}

/// The first of a page's runners with a name.
pub fn runner_by_name(runners: &[JitRunner], name: &str) -> (r: Option<i64>)
    ensures
        match r {
            Some(id) => exists|i: int|
                0 <= i < runners@.len() && (#[trigger] runners@[i]).name@ == name@ && runners@[i].id
                    == id && forall|k: int| 0 <= k < i ==> (#[trigger] runners@[k]).name@ != name@,
            None => forall|i: int| 0 <= i < runners@.len() ==> (#[trigger] runners@[i]).name@ != name@,
        },
{
    let mut i: usize = 0;
    while i < runners.len()
        invariant
            i <= runners@.len(),
            forall|k: int| 0 <= k < i ==> (#[trigger] runners@[k]).name@ != name@,
        decreases runners@.len() - i,
    {
        if same(runners[i].name.as_str(), name) {
            proof {
                assert(runners@[i as int].name@ == name@);
            }
            return Some(runners[i].id);
        }
        i += 1;
    }
    None
}

/// The first permission that is granted, of those listed.
pub open spec fn granted_from(list: Seq<RepositoryPermission>, from: int) -> Option<Seq<char>>
    decreases list.len() - from,
{
    if from >= list.len() {
        None
    } else if list[from].allowed {
        Some(list[from].name@)
    } else {
        granted_from(list, from + 1)
    }
}

/// The first permission on a repository that is granted.
pub fn granted_permission(repository: &GitHubRepository) -> (r: Option<String>)
    ensures
        text_option(r) == match repository.permissions {
            Some(list) => granted_from(list@, 0),
            None => None,
        },
{
    match &repository.permissions {
        None => None,
        Some(list) => {
            let mut i: usize = 0;
            while i < list.len()
                invariant
                    i <= list@.len(),
                    repository.permissions == Some(*list),
                    granted_from(list@, i as int) == granted_from(list@, 0),
                decreases list@.len() - i,
            {
                if list[i].allowed {
                    return Some(list[i].name.clone());
                }
                i += 1;
            }
            None
        },
    }
}

// ---------------------------------------------------------------------------
// Tokens of installations

/// How long before its end a token is no longer used, in milliseconds.
pub const TOKEN_MARGIN_MILLIS: i64 = 300_000;

/// A token that is still used at an instant.
pub open spec fn token_usable(expires_at: i64, now: i64) -> bool {
    expires_at > saturated(now + TOKEN_MARGIN_MILLIS)
}

/// Whether a token is still used at an instant.
pub fn is_token_usable(expires_at: i64, now: i64) -> (r: bool)
    ensures
        r == token_usable(expires_at, now),
{
    expires_at > sum_saturated(now, TOKEN_MARGIN_MILLIS)
}

/// A token of an installation, and the App that it was made for.
pub struct CachedToken {
    pub app_id: String,
    pub token: String,
    pub expires_at: i64,
}

/// The model of a cached token.
pub struct CachedTokenView {
    pub app_id: Seq<char>,
    pub token: Seq<char>,
    pub expires_at: i64,
}

impl View for CachedToken {
    type V = CachedTokenView;

    open spec fn view(&self) -> CachedTokenView {
        CachedTokenView {
            app_id: self.app_id@,
            token: self.token@,
            expires_at: self.expires_at,
        }
    }
}

/// The tokens of installations that are still known.
pub struct TokenCache {
    pub tokens: HashMap<i64, CachedToken>,
}

impl TokenCache {
    /// The token that is kept for an installation.
    pub open spec fn entry(&self, installation_id: i64) -> Option<CachedTokenView> {
        if self.tokens@.contains_key(installation_id) {
            Some(self.tokens@[installation_id]@)
        } else {
            None
        }
    }

    /// The cache without tokens.
    pub fn new() -> (r: TokenCache)
        ensures
            forall|id: i64| (#[trigger] r.entry(id)) is None,
    {
        TokenCache { tokens: HashMap::new() }
    }

    /// The token of an installation, where one is kept for the same App that is
    /// still used.
    pub fn lookup(&self, installation_id: i64, app_id: &str, now: i64) -> (r: Option<String>)
        ensures
            text_option(r) == match self.entry(installation_id) {
                Some(cached) => if cached.app_id == app_id@ && token_usable(
                    cached.expires_at,
                    now,
                ) {
                    Some(cached.token)
                } else {
                    None
                },
                None => None,
            },
    {
        broadcast use vstd::std_specs::hash::group_hash_axioms;

        match self.tokens.get(&installation_id) {
            Some(cached) => {
                if same(cached.app_id.as_str(), app_id) && is_token_usable(cached.expires_at, now) {
                    Some(cached.token.clone())
                } else {
                    None
                }
            },
            None => None,
        }
    }

    /// Keeps the token of an installation in place of the one that was kept.
    pub fn store(&mut self, installation_id: i64, app_id: &str, token: &str, expires_at: i64)
        ensures
            final(self).entry(installation_id) == Some(
                CachedTokenView { app_id: app_id@, token: token@, expires_at },
            ),
            forall|id: i64|
                id != installation_id ==> (#[trigger] final(self).entry(id)) == old(self).entry(id),
    {
        broadcast use vstd::std_specs::hash::group_hash_axioms;

        self.tokens.insert(
            installation_id,
            CachedToken { app_id: app_id.to_owned(), token: token.to_owned(), expires_at },
        );
    }
}

/// A token is used until five minutes before its end, and never later.
pub proof fn tokens_are_used_until_shortly_before_their_end(expires_at: i64, now: i64)
    requires
        now <= i64::MAX - TOKEN_MARGIN_MILLIS,
    ensures
        token_usable(expires_at, now) <==> expires_at - now > TOKEN_MARGIN_MILLIS,
{
}

/// What a GitHub App claims of itself: when the claim was made and when it ends,
/// in seconds since the Unix epoch, and which App makes it.
#[derive(Debug)]
pub struct AppClaims {
    pub iat: i64,
    pub exp: i64,
    pub iss: String,
}

/// What a GitHub App claims of itself at an instant in seconds: made a minute
/// ago, so that clocks may differ, and valid for nine more minutes.
pub fn app_claims(now_seconds: i64, app_id: &str) -> (r: AppClaims)
    ensures
        r.iat == saturated(now_seconds - 60),
        r.exp == saturated(now_seconds + 540),
        r.iss@ == app_id@,
{
    AppClaims {
        iat: difference_saturated(now_seconds, 60),
        exp: sum_saturated(now_seconds, 540),
        iss: app_id.to_owned(),
    }
}

/// A claim is never valid for more than ten minutes, which is the longest that
/// GitHub takes.
pub proof fn claims_last_ten_minutes(now_seconds: i64)
    requires
        i64::MIN + 60 <= now_seconds <= i64::MAX - 540,
    ensures
        saturated(now_seconds + 540) - saturated(now_seconds - 60) == 600,
        saturated(now_seconds - 60) < now_seconds < saturated(now_seconds + 540),
{
}

/// The JSON text of what a GitHub App claims of itself.
pub open spec fn claims_text(iat: i64, exp: i64, iss: Seq<char>) -> Seq<char> {
    "{\"iat\":"@ + signed_decimal(iat as int) + ",\"exp\":"@ + signed_decimal(exp as int)
        + ",\"iss\":"@ + text_json(iss) + "}"@
}

impl AppClaims {
    /// The claims as a JSON text.
    pub fn to_json(&self) -> (r: String)
        ensures
            r@ == claims_text(self.iat, self.exp, self.iss@),
    {
        let iat: String = decimal_i64(self.iat);
        let exp: String = decimal_i64(self.exp);
        let iss: String = write_text(self.iss.as_str());
        let first: String = concat4("{\"iat\":", iat.as_str(), ",\"exp\":", exp.as_str());
        concat4(first.as_str(), ",\"iss\":", iss.as_str(), "}")
    }
}

/// Claims of which a token can be held in memory, where they take a third more than
/// in a text, and a key that does not nest too deeply.
pub open spec fn signable(claims: Seq<char>, private_key: Seq<char>) -> bool {
    utf8_len(claims) <= isize::MAX / 2 - 4_096 && readable_key(private_key)
}

/// The token that holds given claims, signed with a private key; nothing where
/// the key cannot be used.
pub uninterp spec fn app_token(claims: Seq<char>, private_key: Seq<char>) -> Option<Seq<char>>;

/// `jsonwebtoken::encode` with RS256, the claims as they are written, and a key
/// read by `jsonwebtoken::EncodingKey::from_rsa_pem`. The signature has no random
/// part, and the token is named. Reading a key goes one call deeper for each level
/// of it: so it must not nest deeply. A key in armor is found, decoded and read as
/// `pem::parse` and `simple_asn1::from_der` do it.
#[verifier::external_body]
fn sign_claims(claims: &str, private_key: &str) -> (r: Option<String>)
    requires
        signable(claims@, private_key@),
    ensures
        text_option(r) == app_token(claims@, private_key@),
{
    let claims = serde_json::value::RawValue::from_string(claims.to_owned()).ok()?;
    let header = jsonwebtoken::Header::new(jsonwebtoken::Algorithm::RS256);
    let key = jsonwebtoken::EncodingKey::from_rsa_pem(private_key.as_bytes()).ok()?;
    jsonwebtoken::encode(&header, &claims, &key).ok()
}

/// The token with which a GitHub App asks for tokens of its installations, at an
/// instant in seconds. There is none with a key that nests too deeply.
pub fn app_jwt(now_seconds: i64, app_id: &str, private_key: &str) -> (r: Option<String>)
    ensures
        ({
            let claims = claims_text(
                saturated(now_seconds - 60) as i64,
                saturated(now_seconds + 540) as i64,
                app_id@,
            );
            text_option(r) == if signable(claims, private_key@) {
                app_token(claims, private_key@)
            } else {
                None
            }
        }),
{
    let claims: String = app_claims(now_seconds, app_id).to_json();
    if byte_len(claims.as_str()) <= (isize::MAX / 2 - 4_096) as usize && is_readable_key(
        private_key,
    ) {
        sign_claims(claims.as_str(), private_key)
    } else {
        None
    }
}

/// What is used of a value that can be kept in the database and set in the
/// environment: the one that is kept comes first.
pub fn prefer_stored(stored: Option<String>, configured: Option<&str>) -> (r: Option<String>)
    ensures
        text_option(r) == match stored {
            Some(value) => Some(value@),
            None => str_option(configured),
        },
{
    match stored {
        Some(value) => Some(value),
        None => match configured {
            Some(value) => Some(value.to_owned()),
            None => None,
        },
    }
}

// ---------------------------------------------------------------------------
// What is asked of GitHub

/// The next page is read after a full one of a hundred items, up to the hundredth page; a
/// token is used until five minutes before its end.
pub proof fn full_pages_are_followed(page: i64, count: nat, expires_at: i64, now: i64)
    requires
        1 <= page,
        now <= i64::MAX - 300_000,
    ensures
        count >= 100 && page < 100 ==> page_after(page, count) == Some((page + 1) as i64),
        count < 100 ==> page_after(page, count) is None,
        page >= 100 ==> page_after(page, count) is None,
        token_usable(expires_at, now) <==> expires_at > now + 5 * 60 * 1_000,
{
}

/// A runner is registered for its repository where both its owner and its name are known, and
/// for the organization otherwise.
pub proof fn runners_belong_to_a_repository_or_an_organization(
    owner: Seq<char>,
    repository: Seq<char>,
    organization: Seq<char>,
)
    ensures
        runner_target_of(Some(owner), Some(repository), organization) == "/repos/"@ + owner + "/"@
            + repository + "/actions/runners"@,
        runner_target_of(None, Some(repository), organization) == "/orgs/"@ + organization
            + "/actions/runners"@,
        runner_target_of(Some(owner), None, organization) == "/orgs/"@ + organization
            + "/actions/runners"@,
        runner_target_of(None, None, organization) == "/orgs/"@ + organization
            + "/actions/runners"@,
{
}

/// The permission on a repository is the first one that is granted.
pub proof fn the_first_granted_permission_counts(
    list: Seq<RepositoryPermission>,
    from: int,
    i: int,
)
    requires
        0 <= from <= i < list.len(),
        list[i].allowed,
        forall|k: int| from <= k < i ==> !(#[trigger] list[k]).allowed,
    ensures
        granted_from(list, from) == Some(list[i].name@),
    decreases i - from,
{
    if from < i {
        the_first_granted_permission_counts(list, from + 1, i);
    }
}

/// Where no permission on a repository is granted, there is none.
pub proof fn permissions_are_granted_or_there_is_none(list: Seq<RepositoryPermission>, from: int)
    requires
        0 <= from <= list.len(),
        forall|k: int| from <= k < list.len() ==> !(#[trigger] list[k]).allowed,
    ensures
        granted_from(list, from) is None,
    decreases list.len() - from,
{
    if from < list.len() {
        permissions_are_granted_or_there_is_none(list, from + 1);
    }
}

}
