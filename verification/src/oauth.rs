//! Signing in with GitHub, the tokens of those who did, and what they may do in
//! the installations that they see.
use vstd::prelude::*;

use crate::config::str_option;
use crate::crypto::{hash_token, token_digest};
use crate::error::{ApiError, ErrorView};
use crate::github::{
    is_token_usable, token_usable, GitHubAccount, GitHubOrganizationMembership,
};
use crate::numbers::{product_saturated, saturated, sum_saturated};
use crate::search::starts_with;
use crate::text::{concat, concat3, lower, same, same_ignoring_case, text_option};
use crate::web::{extend_url, extended_url, is_success, join_url, success, url_joined};

verus! {

/// How long signing in may take, in milliseconds: ten minutes.
pub const OAUTH_STATE_TTL_MILLIS: i64 = 600_000;

/// What is asked for when someone begins to sign in.
#[derive(Debug)]
pub struct BeginQuery {
    pub return_to: Option<String>,
}

/// What GitHub sends back.
#[derive(Debug)]
pub struct CallbackQuery {
    pub code: Option<String>,
    pub state: Option<String>,
    pub error: Option<String>,
    pub error_description: Option<String>,
}

/// The answer to a request for a token.
pub struct TokenResponse {
    pub access_token: Option<String>,
    pub expires_in: Option<i64>,
    pub refresh_token: Option<String>,
    pub refresh_token_expires_in: Option<i64>,
    pub error: Option<String>,
    pub error_description: Option<String>,
}

// ---------------------------------------------------------------------------
// Beginning

/// Where someone returns to after signing in: a path of the system itself, or
/// its start.
pub open spec fn return_path(value: Option<Seq<char>>) -> Seq<char> {
    match value {
        Some(path) => if "/"@.is_prefix_of(path) && !"//"@.is_prefix_of(path) {
            path
        } else {
            "/"@
        },
        None => "/"@,
    }
}

/// Where someone returns to after signing in.
pub fn safe_return_to(value: Option<&str>) -> (r: String)
    ensures
        r@ == return_path(str_option(value)),
{
    match value {
        Some(path) => if starts_with(path, "/") && !starts_with(path, "//") {
            path.to_owned()
        } else {
            "/".to_owned()
        },
        None => "/".to_owned(),
    }
}

/// Whatever was asked for, what someone returns to begins with one slash, and not
/// with two.
pub proof fn returns_begin_with_one_slash(value: Option<Seq<char>>)
    ensures
        "/"@.is_prefix_of(return_path(value)),
        !"//"@.is_prefix_of(return_path(value)),
{
    reveal_strlit("/");
    reveal_strlit("//");
}

/// The challenge of a verifier: what is sent first, so that the verifier proves
/// later that the same side asks.
pub fn code_challenge(verifier: &str) -> (r: String)
    ensures
        r@ == token_digest(verifier@),
{
    hash_token(verifier)
}

/// When an attempt to sign in that begins now ends.
pub open spec fn attempt_end(now: i64) -> int {
    saturated(now + OAUTH_STATE_TTL_MILLIS)
}

/// When an attempt to sign in that begins now ends.
pub fn oauth_state_expiry(now: i64) -> (r: i64)
    ensures
        r == attempt_end(now),
{
    sum_saturated(now, OAUTH_STATE_TTL_MILLIS)
}

/// An address with one more pair in its query, where there is an address.
pub open spec fn also(
    url: Option<Seq<char>>,
    key: Seq<char>,
    value: Seq<char>,
) -> Option<Seq<char>> {
    match url {
        Some(url) => extended_url(url, "/login/oauth/authorize"@, key, value),
        None => None,
    }
}

fn and_also(url: Option<String>, key: &str, value: &str) -> (r: Option<String>)
    ensures
        text_option(r) == also(text_option(url), key@, value@),
{
    match url {
        Some(url) => extend_url(url.as_str(), "/login/oauth/authorize", key, value),
        None => None,
    }
}

/// The address at GitHub at which someone signs in.
pub fn authorize_url(client_id: &str, redirect_uri: &str, state: &str, challenge: &str) -> (r:
    Option<String>)
    ensures
        text_option(r) == also(
            also(
                also(
                    also(
                        also(Some("https://github.com/"@), "client_id"@, client_id@),
                        "redirect_uri"@,
                        redirect_uri@,
                    ),
                    "state"@,
                    state@,
                ),
                "code_challenge"@,
                challenge@,
            ),
            "code_challenge_method"@,
            "S256"@,
        ),
{
    let start: Option<String> = and_also(
        Some("https://github.com/".to_owned()),
        "client_id",
        client_id,
    );
    let url: Option<String> = and_also(start, "redirect_uri", redirect_uri);
    let url: Option<String> = and_also(url, "state", state);
    let url: Option<String> = and_also(url, "code_challenge", challenge);
    and_also(url, "code_challenge_method", "S256")
}

/// The address that GitHub sends people back to, for what joining it to the base
/// address gave.
pub fn callback_url_from(base_url: &str, joined: Option<String>) -> (r: String)
    ensures
        r@ == match joined {
            Some(url) => url@,
            None => base_url@ + "/auth/github/callback"@,
        },
{
    match joined {
        Some(url) => url,
        None => concat(base_url, "/auth/github/callback"),
    }
}

/// The address that GitHub sends people back to.
pub fn callback_url(base_url: &str) -> (r: String)
    ensures
        r@ == match url_joined(base_url@, "/auth/github/callback"@) {
            Some(url) => url,
            None => base_url@ + "/auth/github/callback"@,
        },
{
    callback_url_from(base_url, join_url(base_url, "/auth/github/callback"))
}

/// The address of the sign-in page with a message about what failed.
pub fn error_redirect(base_url: &str, message: &str) -> (r: Option<String>)
    ensures
        text_option(r) == extended_url(base_url@, "/login"@, "authError"@, message@),
{
    extend_url(base_url, "/login", "authError", message)
}

/// The address that someone is sent to after signing in.
pub fn return_location(base_url: &str, return_to: &str) -> (r: Option<String>)
    ensures
        text_option(r) == url_joined(base_url@, return_to@),
{
    join_url(base_url, return_to)
}

// ---------------------------------------------------------------------------
// The answer

/// The code and the state of an answer, or the message about what failed.
pub open spec fn answer_code(query: CallbackQuery) -> Result<(Seq<char>, Seq<char>), Seq<char>> {
    match query.error {
        Some(error) => Err(
            match query.error_description {
                Some(description) => description@,
                None => error@,
            },
        ),
        None => match (query.code, query.state) {
            (Some(code), Some(state)) => Ok((code@, state@)),
            _ => Err("GitHub did not return a valid authorization code."@),
        },
    }
}

/// The code and the state of an answer, where it is no refusal.
pub fn callback_code(query: CallbackQuery) -> (r: Result<(String, String), String>)
    ensures
        match answer_code(query) {
            Ok(found) => r is Ok && ((r->Ok_0).0@, (r->Ok_0).1@) == found,
            Err(message) => r is Err && r->Err_0@ == message,
        },
{
    if let Some(error) = query.error {
        return Err(
            match query.error_description {
                Some(description) => description,
                None => error,
            },
        );
    }
    match (query.code, query.state) {
        (Some(code), Some(state)) => Ok((code, state)),
        _ => Err("GitHub did not return a valid authorization code.".to_owned()),
    }
}

/// What is known of an attempt to sign in.
#[derive(Debug)]
pub struct OAuthState {
    pub id: String,
    pub code_verifier: String,
    pub return_to: String,
    pub expires_at: i64,
}

/// The attempt that an answer belongs to, where it was begun and has not
/// expired.
pub fn accept_oauth_state(record: Option<OAuthState>, now: i64) -> (r: Result<
    OAuthState,
    &'static str,
>)
    ensures
        match record {
            None => r is Err && r->Err_0@ == "The GitHub authorization request is invalid."@,
            Some(found) => if found.expires_at <= now {
                r is Err && r->Err_0@ == "The GitHub authorization request expired."@
            } else {
                r == Ok::<OAuthState, &'static str>(found)
            },
        },
{
    match record {
        None => Err("The GitHub authorization request is invalid."),
        Some(found) => if found.expires_at <= now {
            Err("The GitHub authorization request expired.")
        } else {
            Ok(found)
        },
    }
}

/// The first of two texts that is there, or a third.
pub open spec fn first_text(
    a: Option<Seq<char>>,
    b: Option<Seq<char>>,
    fallback: Seq<char>,
) -> Seq<char> {
    match a {
        Some(text) => text,
        None => match b {
            Some(text) => text,
            None => fallback,
        },
    }
}

fn choose_text(a: Option<String>, b: Option<String>, fallback: &str) -> (r: String)
    ensures
        r@ == first_text(text_option(a), text_option(b), fallback@),
{
    match a {
        Some(text) => text,
        None => match b {
            Some(text) => text,
            None => fallback.to_owned(),
        },
    }
}

/// Whether a request for a token succeeded, by the status of its answer.
pub fn token_answer(status: u16, status_text: &str, token: TokenResponse) -> (r: Result<
    TokenResponse,
    ApiError,
>)
    ensures
        if success(status) {
            r == Ok::<TokenResponse, ApiError>(token)
        } else {
            r is Err && r->Err_0@ == ErrorView::BadRequest(
                first_text(
                    text_option(token.error_description),
                    text_option(token.error),
                    "GitHub token exchange failed ("@ + status_text@ + ")."@,
                ),
            )
        },
{
    if is_success(status) {
        return Ok(token);
    }
    let fallback: String = concat3("GitHub token exchange failed (", status_text, ").");
    Err(
        ApiError::BadRequest(
            choose_text(token.error_description, token.error, fallback.as_str()),
        ),
    )
}

/// The tokens of someone who has signed in, and when they end.
pub struct GrantedTokens {
    pub access_token: String,
    pub access_expires_at: Option<i64>,
    pub refresh_token: Option<String>,
    pub refresh_expires_at: Option<i64>,
}

/// When something that lasts some seconds ends.
pub open spec fn expiry(seconds: Option<i64>, now: i64) -> Option<i64> {
    match seconds {
        Some(seconds) => Some(saturated(now + saturated(seconds * 1_000)) as i64),
        None => None,
    }
}

fn expires_at(seconds: Option<i64>, now: i64) -> (r: Option<i64>)
    ensures
        r == expiry(seconds, now),
{
    match seconds {
        Some(seconds) => Some(sum_saturated(now, product_saturated(seconds, 1_000))),
        None => None,
    }
}

/// The tokens of an answer, where it holds one.
pub fn granted_tokens(token: TokenResponse, now: i64) -> (r: Result<GrantedTokens, ApiError>)
    ensures
        match token.access_token {
            Some(access_token) => {
                &&& r is Ok
                &&& r->Ok_0.access_token == access_token
                &&& r->Ok_0.access_expires_at == expiry(token.expires_in, now)
                &&& r->Ok_0.refresh_token == token.refresh_token
                &&& r->Ok_0.refresh_expires_at == expiry(token.refresh_token_expires_in, now)
            },
            None => r is Err && r->Err_0@ == ErrorView::BadRequest(
                first_text(
                    text_option(token.error_description),
                    text_option(token.error),
                    "GitHub token exchange failed."@,
                ),
            ),
        },
{
    match token.access_token {
        Some(access_token) => Ok(
            GrantedTokens {
                access_token,
                access_expires_at: expires_at(token.expires_in, now),
                refresh_token: token.refresh_token,
                refresh_expires_at: expires_at(token.refresh_token_expires_in, now),
            },
        ),
        None => Err(
            ApiError::BadRequest(
                choose_text(
                    token.error_description,
                    token.error,
                    "GitHub token exchange failed.",
                ),
            ),
        ),
    }
}

// ---------------------------------------------------------------------------
// Tokens that are kept

/// What is done for a token of someone who has signed in.
#[derive(Debug, Clone, Copy, PartialEq, Eq, Structural)]
pub enum TokenSource {
    Stored,
    Refresh,
    SignInAgain,
}

/// What is done for a token: the one that is kept is used until shortly before
/// its end, then it is renewed, as long as that can be done.
pub open spec fn token_source_for(
    access_expires_at: Option<i64>,
    refresh_expires_at: Option<i64>,
    has_refresh_token: bool,
    now: i64,
) -> TokenSource {
    if access_expires_at is None || token_usable(access_expires_at->0, now) {
        TokenSource::Stored
    } else if (refresh_expires_at is Some && refresh_expires_at->0 <= now) || !has_refresh_token {
        TokenSource::SignInAgain
    } else {
        TokenSource::Refresh
    }
}

/// What is done for a token.
pub fn token_source(
    access_expires_at: Option<i64>,
    refresh_expires_at: Option<i64>,
    has_refresh_token: bool,
    now: i64,
) -> (r: TokenSource)
    ensures
        r == token_source_for(access_expires_at, refresh_expires_at, has_refresh_token, now),
{
    let usable: bool = match access_expires_at {
        Some(expiry) => is_token_usable(expiry, now),
        None => true,
    };
    if usable {
        return TokenSource::Stored;
    }
    let ended: bool = match refresh_expires_at {
        Some(expiry) => expiry <= now,
        None => false,
    };
    if ended || !has_refresh_token {
        TokenSource::SignInAgain
    } else {
        TokenSource::Refresh
    }
}

/// The tokens after a renewal: the token for the next renewal stays where no new
/// one came.
pub fn renewed_tokens(token: TokenResponse, refresh_token: String, now: i64) -> (r: Result<
    GrantedTokens,
    ApiError,
>)
    ensures
        match token.access_token {
            Some(access_token) => {
                &&& r is Ok
                &&& r->Ok_0.access_token == access_token
                &&& r->Ok_0.access_expires_at == expiry(token.expires_in, now)
                &&& r->Ok_0.refresh_token == Some(
                    match token.refresh_token {
                        Some(next) => next,
                        None => refresh_token,
                    },
                )
                &&& r->Ok_0.refresh_expires_at == expiry(token.refresh_token_expires_in, now)
            },
            None => r is Err && r->Err_0@ == ErrorView::BadRequest(
                "GitHub rejected the refresh token."@,
            ),
        },
{
    match token.access_token {
        Some(access_token) => Ok(
            GrantedTokens {
                access_token,
                access_expires_at: expires_at(token.expires_in, now),
                refresh_token: Some(
                    match token.refresh_token {
                        Some(next) => next,
                        None => refresh_token,
                    },
                ),
                refresh_expires_at: expires_at(token.refresh_token_expires_in, now),
            },
        ),
        None => Err(ApiError::BadRequest("GitHub rejected the refresh token.".to_owned())),
    }
}

/// The credentials of the App for signing in, where both are configured.
pub fn oauth_credentials(client_id: Option<String>, client_secret: Option<String>) -> (r: Result<
    (String, String),
    ApiError,
>)
    ensures
        match (client_id, client_secret) {
            (Some(id), Some(secret)) => r == Ok::<(String, String), ApiError>((id, secret)),
            _ => r is Err && r->Err_0@ == ErrorView::BadRequest("GitHub OAuth is not configured."@),
        },
{
    match (client_id, client_secret) {
        (Some(id), Some(secret)) => Ok((id, secret)),
        _ => Err(ApiError::BadRequest("GitHub OAuth is not configured.".to_owned())),
    }
}

// ---------------------------------------------------------------------------
// Permissions

/// What someone may do in the installation of an account: those who own it
/// administer it, the others may look.
pub open spec fn account_permission(
    kind: Seq<char>,
    account_login: Seq<char>,
    user_login: Seq<char>,
    membership: Option<(Seq<char>, Seq<char>)>,
) -> Seq<char> {
    if kind == "Organization"@ {
        if membership is Some && (membership->0).0 == "active"@ && (membership->0).1 == "admin"@ {
            "admin"@
        } else {
            "read"@
        }
    } else if lower(account_login) == lower(user_login) {
        "admin"@
    } else {
        "read"@
    }
}

/// The state and the role of a membership.
pub open spec fn membership_view(membership: Option<&GitHubOrganizationMembership>) -> Option<
    (Seq<char>, Seq<char>),
> {
    match membership {
        Some(membership) => Some((membership.state@, membership.role@)),
        None => None,
    }
}

/// What someone may do in the installation of an account.
pub fn permission_for_account(
    account_kind: &str,
    account_login: &str,
    user_login: &str,
    membership: Option<&GitHubOrganizationMembership>,
) -> (r: &'static str)
    ensures
        r@ == account_permission(
            account_kind@,
            account_login@,
            user_login@,
            membership_view(membership),
        ),
{
    if same(account_kind, "Organization") {
        let owns: bool = match membership {
            Some(membership) => same(membership.state.as_str(), "active") && same(
                membership.role.as_str(),
                "admin",
            ),
            None => false,
        };
        if owns {
            "admin"
        } else {
            "read"
        }
    } else if same_ignoring_case(account_login, user_login) {
        "admin"
    } else {
        "read"
    }
}

/// What someone may do in the installation of an account, for what GitHub says
/// of their membership: where it cannot be determined they may only look.
pub fn installation_permission(
    account: &GitHubAccount,
    user_login: &str,
    membership: Result<GitHubOrganizationMembership, String>,
) -> (r: &'static str)
    ensures
        r@ == account_permission(
            account.kind@,
            account.login@,
            user_login@,
            match membership {
                Ok(membership) => Some((membership.state@, membership.role@)),
                Err(_) => None,
            },
        ),
{
    match membership {
        Ok(membership) => permission_for_account(
            account.kind.as_str(),
            account.login.as_str(),
            user_login,
            Some(&membership),
        ),
        Err(_) => permission_for_account(
            account.kind.as_str(),
            account.login.as_str(),
            user_login,
            None,
        ),
    }
}

/// Nobody administers the installation of an organization without being an
/// active owner of it.
pub proof fn only_owners_administer_organizations(
    account_login: Seq<char>,
    user_login: Seq<char>,
    membership: Option<(Seq<char>, Seq<char>)>,
)
    requires
        account_permission("Organization"@, account_login, user_login, membership) == "admin"@,
    ensures
        membership == Some(("active"@, "admin"@)),
{
    reveal_strlit("admin");
    reveal_strlit("read");
    assert("admin"@.len() != "read"@.len());
}

// ---------------------------------------------------------------------------
// Users

/// The role of someone who signs in for the first time.
pub open spec fn new_role(some_administrator: bool) -> Seq<char> {
    if some_administrator {
        "member"@
    } else {
        "admin"@
    }
}

/// The role of someone who signs in for the first time: the first one
/// administers the system.
pub fn role_of_new_user(some_administrator: bool) -> (r: &'static str)
    ensures
        r@ == new_role(some_administrator),
{
    if some_administrator {
        "member"
    } else {
        "admin"
    }
}

// ---------------------------------------------------------------------------
// Who signs in, and for how long

/// Someone returns to the path that they asked for, where it is one of the system itself, and
/// to its start otherwise.
pub proof fn people_return_to_where_they_were(path: Seq<char>)
    ensures
        path.len() > 0 && path[0] == '/' && (path.len() == 1 || path[1] != '/') ==> return_path(
            Some(path),
        ) == path,
        path.len() == 0 || path[0] != '/' ==> return_path(Some(path)) == "/"@,
        path.len() > 1 && path[0] == '/' && path[1] == '/' ==> return_path(Some(path)) == "/"@,
        return_path(None) == "/"@,
{
    reveal_strlit("/");
    reveal_strlit("//");
    if path.len() > 0 && path[0] == '/' {
        assert(path.take(1) =~= "/"@);
        if path.len() > 1 && path[1] == '/' {
            assert(path.take(2) =~= "//"@);
        } else if "//"@.is_prefix_of(path) {
            assert(path.take(2)[1] == path[1]);
        }
    } else if "/"@.is_prefix_of(path) {
        assert(path.take(1)[0] == path[0]);
    }
}

/// An attempt to sign in lasts ten minutes, and a token as many seconds as GitHub says.
pub proof fn attempts_and_tokens_end(now: i64, seconds: i64)
    requires
        0 <= now <= i64::MAX - 600_000,
        0 <= seconds,
        now + seconds * 1_000 <= i64::MAX,
    ensures
        attempt_end(now) - now == 10 * 60 * 1_000,
        expiry(Some(seconds), now) == Some((now + seconds * 1_000) as i64),
        expiry(None, now) is None,
{
}

/// A token is used as it is kept until five minutes before its end; then it is renewed as long
/// as there is a token for that which has not ended; and otherwise one has to sign in again.
pub proof fn tokens_are_renewed_before_they_end(
    access: i64,
    refresh: Option<i64>,
    has_refresh_token: bool,
    now: i64,
)
    requires
        now <= i64::MAX - 300_000,
    ensures
        token_source_for(None, refresh, has_refresh_token, now) == TokenSource::Stored,
        access > now + 300_000 ==> token_source_for(Some(access), refresh, has_refresh_token, now)
            == TokenSource::Stored,
        access <= now + 300_000 && has_refresh_token && (refresh is None || refresh->0 > now)
            ==> token_source_for(Some(access), refresh, has_refresh_token, now)
            == TokenSource::Refresh,
        access <= now + 300_000 && (!has_refresh_token || (refresh is Some && refresh->0 <= now))
            ==> token_source_for(Some(access), refresh, has_refresh_token, now)
            == TokenSource::SignInAgain,
{
}

/// Active owners administer the installation of an organization, and people that of their own
/// account; all others may look. The first one who signs in administers the system.
pub proof fn owners_administer(
    kind: Seq<char>,
    account: Seq<char>,
    user: Seq<char>,
    membership: Option<(Seq<char>, Seq<char>)>,
)
    ensures
        kind == "Organization"@ && membership == Some(("active"@, "admin"@)) ==> account_permission(
            kind,
            account,
            user,
            membership,
        ) == "admin"@,
        kind == "Organization"@ && membership != Some(("active"@, "admin"@)) ==> account_permission(
            kind,
            account,
            user,
            membership,
        ) == "read"@,
        kind != "Organization"@ && lower(account) == lower(user) ==> account_permission(
            kind,
            account,
            user,
            membership,
        ) == "admin"@,
        kind != "Organization"@ && lower(account) != lower(user) ==> account_permission(
            kind,
            account,
            user,
            membership,
        ) == "read"@,
        new_role(false) == "admin"@,
        new_role(true) == "member"@,
{
}

/// An answer with an error is refused with its description, or its name where it has none; one
/// without an error counts exactly with a code and a state.
pub proof fn answers_count_with_a_code_and_a_state(query: CallbackQuery)
    ensures
        query.error is Some && query.error_description is Some ==> answer_code(query) == Err::<
            (Seq<char>, Seq<char>),
            Seq<char>,
        >(query.error_description->0@),
        query.error is Some && query.error_description is None ==> answer_code(query) == Err::<
            (Seq<char>, Seq<char>),
            Seq<char>,
        >(query.error->0@),
        query.error is None ==> (answer_code(query) is Ok <==> query.code is Some && query.state
            is Some),
        answer_code(query) is Ok ==> answer_code(query)->Ok_0 == (
            query.code->0@,
            query.state->0@,
        ),
{
}

}
