//! The configuration, GitHub, and requests over the web.
use base64::engine::general_purpose::{STANDARD, URL_SAFE_NO_PAD};
use base64::Engine;
use gridops::bitbucket::{
    creation_path, removal_path, strip_braces, valid_segment, valid_uuid, workspace_path,
    BitbucketRunnerTarget,
};
use gridops::config::{Config, ConfigError, Environment};
use gridops::error::ApiError;
use gridops::github::{
    access_token_path, app_claims, app_jwt, granted_permission, is_token_usable, jit_config_path,
    next_page, prefer_stored, registration_token_path, runner_by_name, runner_group_page_path,
    runner_group_path, runner_page_path, runner_path, runner_target, runners_path, GitHubOwner,
    GitHubRepository, JitRunner, RepositoryPermission, RunnerTarget, TokenCache,
};
use gridops::keys::{find_encoded_key, is_readable_key, MAX_KEY_DEPTH};
use gridops::payload::{Json, Member};
use gridops::web::{
    deletion_outcome, extend_url, is_success, refusal_message, request_outcome, service_location,
    site_origin, MAX_ORIGIN_BYTES,
};
use jsonwebtoken::{decode, Algorithm, DecodingKey, Validation};

fn environment() -> Environment {
    Environment {
        base_url: None,
        database_path: None,
        log_directory: None,
        github_client_id: None,
        github_client_secret: None,
        github_app_id: None,
        github_app_private_key: None,
        github_app_slug: None,
        github_webhook_secret: None,
        github_webhook_active: None,
        session_secret: None,
        encryption_key: None,
        manager_url: None,
        manager_token: None,
        runner_network: None,
        runner_image: None,
        api_bind: None,
        manager_bind: None,
    }
}

fn repository(permissions: Option<&[(&str, bool)]>) -> GitHubRepository {
    GitHubRepository {
        id: 10,
        name: "gridops".into(),
        full_name: "octo-org/gridops".into(),
        private: false,
        archived: false,
        default_branch: "master".into(),
        html_url: "".into(),
        updated_at: None,
        owner: GitHubOwner {
            login: "octo-org".into(),
        },
        permissions: permissions.map(|list| {
            list.iter()
                .map(|(name, allowed)| RepositoryPermission {
                    name: name.to_string(),
                    allowed: *allowed,
                })
                .collect()
        }),
    }
}

#[test]
fn everything_has_a_default() {
    let config = Config::from_env(&environment()).ok().expect("configured");
    assert_eq!(config.base_url(), "http://localhost:3000/");
    assert_eq!(config.manager_url(), "http://localhost:8788/");
    assert_eq!(config.database_path(), "./data/gridops.sqlite");
    assert_eq!(config.log_directory(), "./data/logs");
    assert_eq!(config.github_app_slug(), "gridops");
    assert_eq!(config.runner_network(), "gridops-runners");
    assert_eq!(
        config.runner_image(),
        "ghcr.io/actions/actions-runner:latest"
    );
    assert_eq!(config.api_bind(), "0.0.0.0:8080");
    assert_eq!(config.manager_bind(), "127.0.0.1:8788");
    assert_eq!(config.github_client_id(), None);
    assert_eq!(config.github_webhook_active(), None);
    assert!(matches!(
        config.validate_api(),
        Err(ConfigError::SecretsRequired)
    ));
}

#[test]
fn settings_are_read() {
    let mut list = environment();
    list.base_url = Some("https://gridops.example.com/x".into());
    list.github_client_id = Some("  ".into());
    list.github_app_private_key = Some("a\\nb".into());
    list.github_webhook_active = Some("FALSE".into());
    list.session_secret = Some("secret".into());
    list.encryption_key = Some("key".into());
    let config = Config::from_env(&list).ok().expect("configured");
    assert_eq!(config.base_url(), "https://gridops.example.com/x");
    assert_eq!(config.github_client_id(), None);
    assert_eq!(config.github_app_private_key(), Some("a\nb"));
    assert_eq!(config.github_webhook_active(), Some(false));
    assert!(config.validate_api().is_ok());
}

#[test]
fn broken_settings_are_refused() {
    let refused = |change: fn(&mut Environment)| {
        let mut list = environment();
        change(&mut list);
        Config::from_env(&list).err()
    };
    assert!(matches!(
        refused(|list| list.base_url = Some("nowhere".into())),
        Some(ConfigError::BaseUrl)
    ));
    assert!(matches!(
        refused(|list| list.manager_url = Some("nowhere".into())),
        Some(ConfigError::ManagerUrl)
    ));
    assert!(matches!(
        refused(|list| list.github_webhook_active = Some("perhaps".into())),
        Some(ConfigError::WebhookActive)
    ));
    assert!(refused(|_| ()).is_none());
}

#[test]
fn runners_have_paths_at_github() {
    let target = RunnerTarget::Repository {
        owner: "octo-org",
        repository: "gridops",
    };
    assert_eq!(
        jit_config_path(target),
        "/repos/octo-org/gridops/actions/runners/generate-jitconfig"
    );
    let organization = || RunnerTarget::Organization {
        organization: "octo-org",
    };
    assert_eq!(runners_path(organization()), "/orgs/octo-org/actions/runners");
    assert_eq!(
        registration_token_path(organization()),
        "/orgs/octo-org/actions/runners/registration-token"
    );
    assert_eq!(
        runner_page_path(organization(), 2),
        "/orgs/octo-org/actions/runners?per_page=100&page=2"
    );
    assert_eq!(
        runner_path(runner_target(Some("o"), Some("r"), "x"), 7),
        "/repos/o/r/actions/runners/7"
    );
    assert_eq!(
        runner_path(runner_target(Some("o"), None, "x"), 7),
        "/orgs/x/actions/runners/7"
    );
    assert_eq!(
        runner_group_path("octo-org", 3),
        "/orgs/octo-org/actions/runner-groups/3"
    );
    assert_eq!(
        runner_group_page_path("octo-org", 1),
        "/orgs/octo-org/actions/runner-groups?per_page=100&page=1"
    );
    assert_eq!(
        access_token_path(5),
        "/app/installations/5/access_tokens"
    );
}

#[test]
fn pages_are_read_until_one_is_short() {
    assert_eq!(next_page(1, 100), Some(2));
    assert_eq!(next_page(1, 99), None);
    assert_eq!(next_page(100, 100), None);
    let runner = |id: i64, name: &str| JitRunner {
        id,
        name: name.into(),
        status: "online".into(),
        busy: false,
    };
    let list = [runner(1, "a"), runner(2, "b")];
    assert_eq!(runner_by_name(&list, "b"), Some(2));
    assert_eq!(runner_by_name(&list, "c"), None);
}

#[test]
fn permissions_are_the_first_that_is_granted() {
    assert_eq!(
        granted_permission(&repository(Some(&[("admin", false), ("push", true)]))).as_deref(),
        Some("push")
    );
    assert_eq!(granted_permission(&repository(Some(&[("pull", false)]))), None);
    assert_eq!(granted_permission(&repository(None)), None);
}

#[test]
fn tokens_are_cached_for_their_app() {
    let mut cache = TokenCache::new();
    cache.store(5, "app", "token", 1_000_000);
    assert_eq!(cache.lookup(5, "app", 0).as_deref(), Some("token"));
    assert_eq!(cache.lookup(5, "other", 0), None);
    assert_eq!(cache.lookup(6, "app", 0), None);
    assert_eq!(cache.lookup(5, "app", 700_000), None);
    assert!(is_token_usable(1_000_000, 699_999));
    assert!(!is_token_usable(1_000_000, 700_000));
}

#[test]
fn apps_claim_ten_minutes() {
    let claims = app_claims(1_000, "42");
    assert_eq!((claims.iat, claims.exp), (940, 1_540));
    assert_eq!(claims.iss, "42");
    assert_eq!(app_jwt(1_000, "42", "no key"), None);
}

const EXPONENT: &str = "010001";

const MODULUS: &str =
    "b140a3d000e6600761f21062746076add5025b9456d790941a34f0c386db2efcd15ef129ee61\
     809415048d6e37e1e24829e358e32219d76c849d363349d7d9da9965a7326f529b316d84813d\
     b01a6a9021464d5aebce7da66319110e435832a1a6fb377d7513e301cf68335c00d28be77d86\
     67f01ad4c8098db419354fc490b60ad1e54ee1712a56ee77e17f42fbfd1c464d8ed6af004076\
     bd064791e4939f498dce2095b92fbbdacf7ad80bdc915b841c016e20ffde22ea5088d4b32ae3\
     beae4cd721203df6e91c1490f6862fe6966f9079121bca9949df22f538b7c07c4d42aa4ed080\
     0032578f24ad309939c07f6835809de0ff6ee4d6e7a11a75de5eb9b9";

/// The parts of a key that sign: the private exponent, the primes, and what
/// speeds up their use.
const SIGNING: [&str; 6] = [
    "6c4e700a1012b488ae4b87c17114e44f9181904dd2c6831c4beb1f568a1771dd9f5d6104db19\
     0ec4ed16cc0895f2db1e7721e8d558a7eb9eee655591ff43fa64fd284502a74d15711d5742d5\
     5bbeb8707b3486ddd08a6af27948fec7f55476139a8194457f7d784f49d984d069dc3d0a6503\
     f48c9d08797684f49016a83816a770ecfb320d82be0ad34b6f19ffdf83053cb6d6005e450685\
     ec88bce280f03bc9f8892b945112c6c71b564f219a109f784b3a096229a3ba7ee0e550223e0c\
     a6a292f0c7806fb6d23e45babf996646d933be3dfcb73974e3339f110cf757563b3b9e4b9f3d\
     cd69f3e289af493e5b8ba00a7f7335ff1ab68b39a1b01e5a2b78a651",
    "dd86431232bb600464384bcc8a18a855b07bd29fbf8eed5c664ef49ec8d2293120d3a7f22757\
     f3185de6d5ebde0a68faa8c0762e01d0bc18577a318d14cc69e71856c2a113f8e1662577dc30\
     a2dfc1f27f8962f1c48b58daaa054bccf3a13bc9967b25867d5bdca5770c82e81966f4b76a52\
     255535d3e3653b3f28cf2a54a8f5",
    "ccd68ad38c57fc30681bef98f0b0044ab849f0e57b9a3bc84134db5ee1278e6303d0d8d0cd10\
     b68f5a02f8bf4ee3c2dc215dbebd19d2caa092b9ed0f122dee87b6e4aea79f6b8ef18c0ddcb9\
     ca7907314870bacf7cd362b290e7ebe44f40a8bbf15e38df83845b3045370cf26fc7d05f1584\
     daa2a18172953484dfbe3add6335",
    "1589cc53a4a31b3ed20fb72ef7ee55cf9f0d2af965429c49739911a7ae96e0726a62a9dd9d7d\
     aba11ee026c47c1e3efec011966bfab934d09910c468973118cae34eec35851f99aab8d1e292\
     c8034174367a4128889793d80ed7dcfadc653ccee8d6a85b5f2ce3532334103648e1fdc12791\
     3d17ffd7ce3035867a8d49ec5951",
    "083df5b60f6696ea27b6400cca5a7ac1baea96bbd51e5e9b6f2c3e4b7209d26bdf826ec6f009\
     651f1d83131937866897ccebe5b9dc29242813df514f92eeb0335bc395d77ecda821c5fde4cc\
     c0fddfb136f5fa3e510a7c652cf977ff66c4f64521b025dfb07e09e14657b1b8ab90c1aca1c4\
     07bc157d8cebbe023eb27bd1dea5",
    "b0f4d3d3ddee70f3bae85455613f83e9d55fa37ed83e71b8ca52728c7c57a3b57095e0483dad\
     f4a6bea3ffd5d9169f96a1b1d048addf3f1331a8b9b00fcb555788ec26fc339e544e0702fd2f\
     9f728417735cae8508adb67c9e68fa82c97867b970f9e12d432b8297da3a932182f75c7b306d\
     3c95ddbc6875073bced1150aa88a",
];

const SHORT_MODULUS: &str =
    "a170160676a8960eb41153ba9190b27152a6249b32a149d6edb0fe3c6f5bba67";

const SHORT_SIGNING: [&str; 6] = [
    "56672b22a2777078c61f4ff4d6dbdee4b67d28bfe66b3779a21e25d843c4cf01",
    "ccdf62a2a3c627bb02734ea2f138d607",
    "c9b9cd1d7e83913e53a3b06db831e0a1",
    "28337d6b64afb18424caf3974db65569",
    "52a0845fbc5e6fb3b3d6ac81849d0981",
    "b8a8b4fd3a7fa6808a7d6dfb9f9e1142",
];

fn encoded(tag: u8, content: &[u8]) -> Vec<u8> {
    let length = content.len();
    let mut bytes = vec![tag];
    if length < 128 {
        bytes.push(length as u8);
    } else if length < 256 {
        bytes.extend([0x81, length as u8]);
    } else {
        bytes.extend([0x82, (length >> 8) as u8, length as u8]);
    }
    bytes.extend(content);
    bytes
}

fn integer(digits: &str) -> Vec<u8> {
    let mut content = hex::decode(digits).unwrap();
    if content[0] >= 128 {
        content.insert(0, 0);
    }
    encoded(2, &content)
}

fn armored(bytes: &[u8]) -> String {
    let text = STANDARD.encode(bytes);
    let lines: Vec<&str> = (0..text.len())
        .step_by(64)
        .map(|at| &text[at..text.len().min(at + 64)])
        .collect();
    let kind = "RSA PRIVATE KEY";
    format!(
        "-----BEGIN {kind}-----\n{}\n-----END {kind}-----\n",
        lines.join("\n")
    )
}

fn signing_key(modulus: &str, signing: [&str; 6]) -> String {
    let mut parts = encoded(2, &[0]);
    parts.extend(integer(modulus));
    parts.extend(integer(EXPONENT));
    for part in signing {
        parts.extend(integer(part));
    }
    armored(&encoded(0x30, &parts))
}

#[test]
fn apps_sign_what_they_claim() {
    let key = signing_key(MODULUS, SIGNING);
    let token = app_jwt(1_000, "42", &key).unwrap();
    assert_eq!(app_jwt(1_000, "42", &key), Some(token.clone()));
    let modulus = URL_SAFE_NO_PAD.encode(hex::decode(MODULUS).unwrap());
    let exponent = URL_SAFE_NO_PAD.encode(hex::decode(EXPONENT).unwrap());
    let public = DecodingKey::from_rsa_components(&modulus, &exponent).unwrap();
    let mut validation = Validation::new(Algorithm::RS256);
    validation.validate_exp = false;
    let claims = decode::<serde_json::Value>(&token, &public, &validation)
        .unwrap()
        .claims;
    assert_eq!(claims["iat"], 940);
    assert_eq!(claims["exp"], 1_540);
    assert_eq!(claims["iss"], "42");
    let parts: Vec<&str> = token.split('.').collect();
    assert_eq!(
        URL_SAFE_NO_PAD.decode(parts[1]).unwrap(),
        br#"{"iat":940,"exp":1540,"iss":"42"}"#
    );
    let other = app_jwt(1_000, "43", &key).unwrap();
    assert_ne!(other, token);
}

#[test]
fn claims_are_written_in_order() {
    assert_eq!(
        app_claims(1_000, "4\"2\n").to_json(),
        r#"{"iat":940,"exp":1540,"iss":"4\"2\n"}"#
    );
}

#[test]
fn keys_that_cannot_sign_give_no_token() {
    let short = signing_key(SHORT_MODULUS, SHORT_SIGNING);
    assert_eq!(app_jwt(1_000, "42", &short), None);
    let mut mixed = SIGNING;
    mixed.swap(3, 4);
    assert_eq!(app_jwt(1_000, "42", &signing_key(MODULUS, mixed)), None);
    let key = signing_key(MODULUS, SIGNING);
    let token = app_jwt(1_000, "42", &key);
    assert!(token.is_some());
    assert_eq!(app_jwt(1_000, "42", &format!("A key:\n{key}\n")), token);
    assert_eq!(app_jwt(1_000, "42", &key.replace('\n', "\r\n")), token);
    let headed = key.replacen('\n', "\nProc-Type: 4\n\n", 1);
    assert_eq!(app_jwt(1_000, "42", &headed), token);
    let blank = key.replacen('\n', "\n\n \n", 1);
    assert_eq!(app_jwt(1_000, "42", &blank), token);
    assert_eq!(app_jwt(1_000, "42", &format!("-- a key --\n{key}")), token);
    assert_eq!(app_jwt(1_000, "42", &format!("-{key}")), None);
    let unnamed = key.replacen('\n', "\nProc-Type\n\n", 1);
    assert_eq!(app_jwt(1_000, "42", &unnamed), None);
    assert_eq!(app_jwt(1_000, "42", &key.replace("END", "STOP")), None);
    assert_eq!(app_jwt(1_000, "42", "no key"), None);
}

#[test]
fn wrapped_keys_sign_as_well() {
    let mut inner = encoded(2, &[0]);
    inner.extend(integer(MODULUS));
    inner.extend(integer(EXPONENT));
    for part in SIGNING {
        inner.extend(integer(part));
    }
    let mut algorithm = encoded(6, &[42, 134, 72, 134, 247, 13, 1, 1, 1]);
    algorithm.extend(encoded(5, &[]));
    let mut wrapped = encoded(2, &[0]);
    wrapped.extend(encoded(0x30, &algorithm));
    wrapped.extend(encoded(4, &encoded(0x30, &inner)));
    let token = app_jwt(1_000, "42", &signing_key(MODULUS, SIGNING));
    assert!(token.is_some());
    let key = armored(&encoded(0x30, &wrapped)).replace("RSA PRIVATE", "PRIVATE");
    assert_eq!(app_jwt(1_000, "42", &key), token);
    let mut long = vec![0x30, 0x85, 0, 0, 0];
    long.extend([(wrapped.len() >> 8) as u8, wrapped.len() as u8]);
    long.extend(&wrapped);
    let key = armored(&long).replace("RSA PRIVATE", "PRIVATE");
    assert_eq!(app_jwt(1_000, "42", &key), token);
    let mut tagged = vec![0x1F, 0x80, 0x10, 0x82];
    tagged.extend([(wrapped.len() >> 8) as u8, wrapped.len() as u8]);
    tagged.extend(&wrapped);
    let key = armored(&tagged).replace("RSA PRIVATE", "PRIVATE");
    assert_eq!(app_jwt(1_000, "42", &key), token);
}

#[test]
fn nested_keys_give_no_token() {
    let mut nested = encoded(0x05, &[]);
    for depth in 0..10_000_u32 {
        if depth < 80 || depth == 9_999 {
            let key = armored(&nested);
            assert_eq!(is_readable_key(&key), depth <= u32::from(MAX_KEY_DEPTH));
            assert_eq!(app_jwt(1_000, "42", &key), None);
        }
        nested = encoded(if depth % 2 == 0 { 0x30 } else { 0xA0 }, &nested);
    }
}

#[test]
fn only_what_is_read_as_elements_nests() {
    let deep = |header: &[u8]| {
        let mut nested = vec![5, 0];
        for _ in 0..MAX_KEY_DEPTH + 1 {
            let length = nested.len();
            let mut outer = header.to_vec();
            outer.extend([0x82, (length >> 8) as u8, length as u8]);
            outer.extend(nested);
            nested = outer;
        }
        is_readable_key(&armored(&nested))
    };
    assert!(!deep(&[0x30]));
    assert!(!deep(&[0x10]));
    assert!(!deep(&[0x31]));
    assert!(!deep(&[0xA0]));
    assert!(!deep(&[0xBF, 0x81, 0x02]));
    assert!(!deep(&[0x1F, 0x10]));
    assert!(!deep(&[0x3F, 0x80, 0x11]));
    assert!(deep(&[0x1F, 0x81, 0x10]));
    assert!(deep(&[0x80]));
    assert!(deep(&[0x24]));
    assert!(deep(&[0x04]));
    for bytes in [&[2, 2, 7][..], &[2], &[0x30, 3, 2, 2, 7], &[0x1F], &[2, 0x80], &[2, 0x89]] {
        assert!(is_readable_key(&armored(bytes)));
        assert_eq!(app_jwt(1_000, "42", &armored(bytes)), None);
    }
    assert!(is_readable_key(""));
}

#[test]
fn keys_are_found_in_their_armor() {
    let found = |text: &str| find_encoded_key(text);
    let text = "-----BEGIN KEY-----\nAQ\u{2003}ID\nBA==\n-----END KEY-----";
    assert_eq!(found(text).as_deref(), Some("AQIDBA=="));
    let text = "--- -----BEGIN KEY----- \t\r\nA: b\r\n\r\nAQ==-----END ";
    assert_eq!(found(text).as_deref(), Some("AQ=="));
    assert_eq!(found("------BEGIN KEY-----\nAQ==\n-----END KEY-----"), None);
    assert_eq!(found("-----BEGIN KEY-----\nAQ=="), None);
    assert_eq!(found("-----BEGIN KEY"), None);
}

#[test]
fn kept_values_come_first() {
    assert_eq!(
        prefer_stored(Some("kept".into()), Some("set")).as_deref(),
        Some("kept")
    );
    assert_eq!(prefer_stored(None, Some("set")).as_deref(), Some("set"));
    assert_eq!(prefer_stored(None, None), None);
}

#[test]
fn bitbucket_paths_are_checked() {
    let target = BitbucketRunnerTarget::Workspace {
        workspace: "acme".into(),
    };
    let labels = ["gridops.linux".to_string()];
    assert_eq!(
        creation_path(&target, "runner", &labels).ok().as_deref(),
        Some("workspaces/acme/pipelines-config/runners")
    );
    assert!(creation_path(&target, "", &labels).is_err());
    assert!(creation_path(&target, "runner", &["Bad Label".to_string()]).is_err());
    let uuid = "{da18d7c2-1d42-4c9a-bac8-4f5227d8ec17}";
    assert!(valid_uuid(uuid));
    assert!(!valid_uuid("{nothing}"));
    assert_eq!(strip_braces("{{a}"), "a");
    assert!(removal_path(&target, uuid)
        .ok()
        .is_some_and(|path| path.starts_with("workspaces/acme/pipelines-config/runners/")));
    assert!(removal_path(&target, "../other").is_err());
    assert_eq!(
        workspace_path("acme").ok().as_deref(),
        Some("workspaces/acme")
    );
    assert!(workspace_path("a/b").is_err());
    assert!(valid_segment("ios-app"));
    assert!(!valid_segment(""));
}

#[test]
fn answers_are_told_apart() {
    assert!(is_success(204));
    assert!(!is_success(302));
    assert!(request_outcome("GitHub request", 200, "200 OK", "").is_ok());
    assert!(request_outcome("GitHub request", 404, "404 Not Found", "").is_err());
    assert!(deletion_outcome("GitHub request", 404, "404 Not Found", "").is_ok());
    assert!(deletion_outcome("GitHub request", 500, "500 Internal Server Error", "").is_err());
    assert!(refusal_message("request", "500", &"x".repeat(500), 10).len() < 100);
}

#[test]
fn errors_are_answered_without_inner_details() {
    let answer = |error: ApiError| error.into_response();
    assert_eq!(answer(ApiError::Unauthorized).0, 401);
    assert_eq!(answer(ApiError::Forbidden).0, 403);
    assert_eq!(
        answer(ApiError::BadRequest("bad".into())),
        (400, "bad".to_string())
    );
    assert_eq!(answer(ApiError::NotFound("gone".into())).0, 404);
    assert_eq!(answer(ApiError::Conflict("taken".into())).0, 409);
    assert_eq!(answer(ApiError::PayloadTooLarge("big".into())).0, 413);
    assert_eq!(answer(ApiError::ServiceUnavailable("down".into())).0, 503);
    assert_eq!(
        answer(ApiError::Internal("password".into())),
        (500, "GridOps could not complete the request.".to_string())
    );
    assert_eq!(ApiError::Internal("inner".into()).message(), "inner");
    let told = [Member {
        key: "error".into(),
        value: Json::Text("gone".into()),
    }];
    assert!(matches!(
        ApiError::from_manager(404, "404 Not Found", &told),
        ApiError::NotFound(message) if message == "gone"
    ));
    let other = [Member {
        key: "error".into(),
        value: Json::Integer(7),
    }];
    assert!(matches!(
        ApiError::from_manager(429, "429 Too Many Requests", &other),
        ApiError::Conflict(message)
            if message == "Runner manager request failed (429 Too Many Requests)."
    ));
    assert!(matches!(
        ApiError::from_manager(500, "500 Internal Server Error", &[]),
        ApiError::ServiceUnavailable(_)
    ));
}

#[test]
fn addresses_are_extended() {
    assert_eq!(
        extend_url("https://grid.example/a?b=1", "/login", "authError", "no way").as_deref(),
        Some("https://grid.example/login?b=1&authError=no+way")
    );
    assert_eq!(extend_url("no address", "/login", "a", "b"), None);
    let base = "https://grid.example/";
    let long = "\u{fc}".repeat(20_000_000);
    assert_eq!(
        extend_url(base, "/login", "key", &long).map(|url| url.len()),
        Some("https://grid.example/login?key=".len() + 120_000_000)
    );
}

#[test]
fn services_are_asked_below_their_address() {
    assert_eq!(
        service_location("http://localhost:8788/", "//v1/health").as_deref(),
        Some("http://localhost:8788/v1/health")
    );
    assert_eq!(
        service_location("https://api.bitbucket.org/2.0/", "workspaces/acme").as_deref(),
        Some("https://api.bitbucket.org/2.0/workspaces/acme")
    );
    assert_eq!(service_location("nowhere", "v1/health"), None);
    assert_eq!(
        site_origin("https://grid.example:8443/path").as_deref(),
        Some("https://grid.example:8443")
    );
}

#[test]
fn origins_are_looked_for_up_to_a_limit() {
    let inside = "https://grid.example/page";
    let within = |bytes: usize| format!("{}{inside}", "blob:".repeat(bytes / 5));
    let room = MAX_ORIGIN_BYTES - inside.len();
    assert_eq!(
        site_origin(&within(room)).as_deref(),
        Some("https://grid.example")
    );
    assert_eq!(site_origin(&within(room + 5)), None);
    assert_eq!(site_origin(&within(1_000_000)), None);
    let long = format!("{inside}?{}", "x".repeat(1_000_000));
    assert_eq!(site_origin(&long).as_deref(), Some("https://grid.example"));
    assert_eq!(site_origin("no address"), None);
}
