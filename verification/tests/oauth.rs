//! Signing in with GitHub.
use gridops::auth::{
    accept_session, assert_same_origin, can_manage, clear_cookie, cookie, is_secure, logout_token,
    optional_auth, random_token, require_system_admin, session_cookie, session_expiry,
    session_token, token_of, AuthUser, StoredSession,
};
use gridops::crypto::Vault;
use gridops::error::ApiError;
use gridops::github::{GitHubAccount, GitHubOrganizationMembership};
use gridops::oauth::{
    accept_oauth_state, authorize_url, callback_code, callback_url, code_challenge,
    error_redirect, granted_tokens, installation_permission, oauth_credentials,
    return_location,
    oauth_state_expiry, permission_for_account, renewed_tokens, role_of_new_user, safe_return_to,
    token_answer, token_source, CallbackQuery, OAuthState, TokenResponse, TokenSource,
};

#[test]
fn installation_permissions_follow_account_ownership() {
    let owner = GitHubOrganizationMembership {
        state: "active".into(),
        role: "admin".into(),
    };
    let member = GitHubOrganizationMembership {
        state: "active".into(),
        role: "member".into(),
    };
    assert_eq!(
        permission_for_account("Organization", "octo-org", "octocat", Some(&owner)),
        "admin"
    );
    assert_eq!(
        permission_for_account("Organization", "octo-org", "octocat", Some(&member)),
        "read"
    );
    assert_eq!(
        permission_for_account("User", "OctoCat", "octocat", None),
        "admin"
    );
    assert_eq!(
        permission_for_account("User", "someone-else", "octocat", None),
        "read"
    );
}

fn answer() -> TokenResponse {
    TokenResponse {
        access_token: Some("access".into()),
        expires_in: Some(60),
        refresh_token: Some("refresh".into()),
        refresh_token_expires_in: None,
        error: None,
        error_description: None,
    }
}

fn user(role: &str) -> AuthUser {
    AuthUser {
        id: "user-1".into(),
        login: "octocat".into(),
        github_id: 7,
        role: role.into(),
    }
}

#[test]
fn challenges_follow_the_verifier() {
    assert_eq!(
        code_challenge("dBjftJeZ4CVP-mB92K27uhbUJU1p1r_wW1gFWFOEjXk"),
        "E9Melhoa2OwvFrEMTJguCHaoeK1t8URWbuGJSstw-cM"
    );
}

#[test]
fn returns_stay_in_the_system() {
    assert_eq!(safe_return_to(Some("/runner-pools?page=2")), "/runner-pools?page=2");
    assert_eq!(safe_return_to(Some("//evil.example")), "/");
    assert_eq!(safe_return_to(Some("https://evil.example")), "/");
    assert_eq!(safe_return_to(None), "/");
}

#[test]
fn authorization_requests_carry_the_challenge() {
    let url = authorize_url(
        "client",
        "http://localhost:3000/auth/github/callback",
        "state",
        "challenge",
    )
    .expect("an address");
    assert!(url.starts_with("https://github.com/login/oauth/authorize?client_id=client"));
    assert!(url.contains("redirect_uri=http%3A%2F%2Flocalhost%3A3000%2Fauth%2Fgithub%2Fcallback"));
    assert!(url.contains("state=state"));
    assert!(url.contains("code_challenge=challenge"));
    assert!(url.contains("code_challenge_method=S256"));
}

#[test]
fn callbacks_are_below_the_base_address() {
    assert_eq!(
        callback_url("https://gridops.example.com"),
        "https://gridops.example.com/auth/github/callback"
    );
    assert_eq!(
        error_redirect("https://gridops.example.com", "No & never"),
        Some("https://gridops.example.com/login?authError=No+%26+never".to_string())
    );
}

#[test]
fn callbacks_need_a_code_and_a_state() {
    let query = |code: Option<&str>, state: Option<&str>, error: Option<&str>| CallbackQuery {
        code: code.map(|text| text.to_string()),
        state: state.map(|text| text.to_string()),
        error: error.map(|text| text.to_string()),
        error_description: None,
    };
    assert_eq!(
        callback_code(query(Some("c"), Some("s"), None)),
        Ok(("c".to_string(), "s".to_string()))
    );
    assert_eq!(
        callback_code(query(Some("c"), Some("s"), Some("access_denied"))),
        Err("access_denied".to_string())
    );
    assert_eq!(
        callback_code(query(Some("c"), None, None)),
        Err("GitHub did not return a valid authorization code.".to_string())
    );
}

#[test]
fn sign_ins_expire() {
    let state = |expires_at: i64| {
        Some(OAuthState {
            id: "1".into(),
            code_verifier: "sealed".into(),
            return_to: "/".into(),
            expires_at,
        })
    };
    assert_eq!(oauth_state_expiry(1_000), 601_000);
    assert!(accept_oauth_state(state(11), 10).is_ok());
    assert_eq!(
        accept_oauth_state(state(10), 10).err(),
        Some("The GitHub authorization request expired.")
    );
    assert_eq!(
        accept_oauth_state(None, 10).err(),
        Some("The GitHub authorization request is invalid.")
    );
}

#[test]
fn tokens_are_granted_for_their_time() {
    let granted = granted_tokens(answer(), 1_000).ok().expect("granted");
    assert_eq!(granted.access_token, "access");
    assert_eq!(granted.access_expires_at, Some(61_000));
    assert_eq!(granted.refresh_token.as_deref(), Some("refresh"));
    assert_eq!(granted.refresh_expires_at, None);

    let mut refused = answer();
    refused.access_token = None;
    refused.error = Some("bad_verification_code".into());
    assert!(matches!(
        granted_tokens(refused, 0),
        Err(ApiError::BadRequest(message)) if message == "bad_verification_code"
    ));
    let mut silent = answer();
    silent.access_token = None;
    assert!(matches!(
        granted_tokens(silent, 0),
        Err(ApiError::BadRequest(message)) if message == "GitHub token exchange failed."
    ));
}

#[test]
fn renewed_tokens_keep_the_old_refresh_token() {
    let mut renewed = answer();
    renewed.refresh_token = None;
    let kept = renewed_tokens(renewed, "old".into(), 0).ok().expect("renewed");
    assert_eq!(kept.refresh_token.as_deref(), Some("old"));
    let replaced = renewed_tokens(answer(), "old".into(), 0).ok().expect("renewed");
    assert_eq!(replaced.refresh_token.as_deref(), Some("refresh"));
}

#[test]
fn refused_token_requests_are_errors() {
    assert!(token_answer(200, "200 OK", answer()).is_ok());
    assert!(token_answer(401, "401 Unauthorized", answer()).is_err());
}

#[test]
fn stored_tokens_are_used_until_shortly_before_their_end() {
    assert_eq!(token_source(None, None, false, 0), TokenSource::Stored);
    assert_eq!(
        token_source(Some(300_001), None, true, 0),
        TokenSource::Stored
    );
    assert_eq!(
        token_source(Some(300_000), None, true, 0),
        TokenSource::Refresh
    );
    assert_eq!(
        token_source(Some(300_000), None, false, 0),
        TokenSource::SignInAgain
    );
    assert_eq!(
        token_source(Some(0), Some(10), true, 10),
        TokenSource::SignInAgain
    );
}

#[test]
fn credentials_come_in_pairs() {
    assert!(oauth_credentials(Some("id".into()), Some("secret".into())).is_ok());
    assert!(oauth_credentials(Some("id".into()), None).is_err());
    assert!(oauth_credentials(None, Some("secret".into())).is_err());
}

#[test]
fn memberships_that_cannot_be_read_give_no_rights() {
    let account = GitHubAccount {
        id: 1,
        login: "octo-org".into(),
        kind: "Organization".into(),
        avatar_url: "".into(),
    };
    assert_eq!(
        installation_permission(&account, "octocat", Err("unavailable".into())),
        "read"
    );
    assert_eq!(
        installation_permission(
            &account,
            "octocat",
            Ok(GitHubOrganizationMembership {
                state: "pending".into(),
                role: "admin".into(),
            })
        ),
        "read"
    );
}

#[test]
fn the_first_user_administers_the_system() {
    assert_eq!(role_of_new_user(false), "admin");
    assert_eq!(role_of_new_user(true), "member");
}

#[test]
fn cookies_are_found_by_name() {
    assert_eq!(
        cookie(Some("a=1; b=2=3; b=4"), "b"),
        Some("2=3".to_string())
    );
    assert_eq!(cookie(Some("a=1"), "b"), None);
    assert_eq!(cookie(None, "b"), None);
}

#[test]
fn session_cookies_carry_their_token_back() {
    let vault = Vault::new([7; 32], b"test-session-secret".to_vec());
    let cookie = session_cookie(&vault, "token-1", true);
    assert!(cookie.starts_with("gridops_session=token-1."));
    assert!(cookie.ends_with("; Path=/; HttpOnly; SameSite=Lax; Max-Age=2592000; Secure;"));
    let sent = cookie.split(';').next().unwrap_or_default().to_string();
    assert_eq!(
        session_token(&vault, Some(&sent)),
        Some("token-1".to_string())
    );
    assert_eq!(logout_token(Some(&sent)), Some("token-1".to_string()));

    let forged = sent.replace("token-1", "token-2");
    assert_eq!(session_token(&vault, Some(&forged)), None);
    let stranger = Vault::new([7; 32], b"another-secret".to_vec());
    assert_eq!(session_token(&stranger, Some(&sent)), None);
    assert_eq!(
        clear_cookie(false),
        "gridops_session=; Path=/; HttpOnly; SameSite=Lax; Max-Age=0;"
    );
}

#[test]
fn sessions_end() {
    let session = |expires_at: i64| {
        Some(StoredSession {
            session_id: "s".into(),
            user: user("member"),
            expires_at,
        })
    };
    assert_eq!(session_expiry(0), 2_592_000_000);
    assert!(accept_session(session(11), 10).is_ok());
    assert!(matches!(
        accept_session(session(10), 10),
        Err(ApiError::Unauthorized)
    ));
    assert!(matches!(
        accept_session(None, 10),
        Err(ApiError::Unauthorized)
    ));
}

#[test]
fn nobody_may_be_signed_in() {
    assert!(matches!(
        optional_auth(Err(ApiError::Unauthorized)),
        Ok(found) if found.0.is_none()
    ));
    assert!(matches!(
        optional_auth(Ok(user("member"))),
        Ok(found) if found.0.is_some()
    ));
    assert!(matches!(
        optional_auth(Err(ApiError::Internal("database".into()))),
        Err(ApiError::Internal(_))
    ));
}

#[test]
fn requests_come_from_the_same_origin() {
    let base = "https://gridops.example.com/path";
    assert!(assert_same_origin(base, None).is_ok());
    assert!(assert_same_origin(base, Some("https://gridops.example.com")).is_ok());
    assert!(matches!(
        assert_same_origin(base, Some("https://evil.example")),
        Err(ApiError::Forbidden)
    ));
    assert!(is_secure(base));
    assert!(!is_secure("http://localhost:3000"));
}

#[test]
fn administrators_manage_everything() {
    assert!(require_system_admin(&user("admin")).is_ok());
    assert!(matches!(
        require_system_admin(&user("member")),
        Err(ApiError::Forbidden)
    ));
    assert!(can_manage("admin", "read"));
    assert!(can_manage("member", "admin"));
    assert!(!can_manage("member", "read"));
}

#[test]
fn tokens_are_random_and_safe_in_addresses() {
    assert_eq!(token_of(&[0, 1, 2, 3]), "AAECAw");
    assert_eq!(token_of(&[0xfb, 0xff]), "-_8");
    let one = random_token(32);
    let two = random_token(32);
    assert_eq!(one.len(), 43);
    assert_ne!(one, two);
    assert!(one
        .chars()
        .all(|c| c.is_ascii_alphanumeric() || c == '-' || c == '_'));
}

#[test]
fn people_return_to_where_they_came_from() {
    assert_eq!(
        return_location("https://grid.example/base", "/runners?page=2").as_deref(),
        Some("https://grid.example/runners?page=2")
    );
    assert_eq!(return_location("nowhere", "/runners"), None);
}

#[test]
fn a_control_plane_without_an_origin_accepts_none() {
    let nested = format!("{}https://grid.example", "blob:".repeat(100_000));
    assert!(assert_same_origin(&nested, None).is_ok());
    assert!(matches!(
        assert_same_origin(&nested, Some("https://grid.example")),
        Err(ApiError::Forbidden)
    ));
}
