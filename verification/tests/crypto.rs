//! Sealing, signing and hashing.
use gridops::config::{Config, Environment};
use gridops::crypto::{hash_token, Vault, VaultError};

fn vault() -> Vault {
    Vault::new([7; 32], b"test-session-secret".to_vec())
}

#[test]
fn sealed_values_round_trip_and_detect_tampering() {
    let vault = vault();
    let sealed = vault.seal("github-token").expect("sealed");
    assert!(!sealed.contains("github-token"));
    assert_eq!(vault.open(&sealed).expect("opened"), "github-token");
    let mut tampered = sealed;
    tampered.push('A');
    assert!(vault.open(&tampered).is_err());
}

#[test]
fn signatures_are_bound_to_the_value() {
    let vault = vault();
    let signature = vault.sign("session").expect("signed");
    assert!(vault.verify("session", &signature));
    assert!(!vault.verify("different", &signature));
}

fn environment(key: Option<&str>, secret: Option<&str>) -> Environment {
    Environment {
        base_url: None,
        database_path: None,
        log_directory: None,
        github_client_id: None,
        github_client_secret: None,
        github_app_id: None,
        github_app_private_key: None,
        github_app_slug: None,
        github_webhook_secret: None,
        github_webhook_active: None,
        session_secret: secret.map(|text| text.to_string()),
        encryption_key: key.map(|text| text.to_string()),
        manager_url: None,
        manager_token: None,
        runner_network: None,
        runner_image: None,
        api_bind: None,
        manager_bind: None,
    }
}

fn vault_error(key: Option<&str>, secret: Option<&str>) -> Option<VaultError> {
    let config = Config::from_env(&environment(key, secret)).ok()?;
    Vault::from_config(&config).err()
}

#[test]
fn tokens_are_hashed_with_sha_256() {
    assert_eq!(
        hash_token(""),
        "47DEQpj8HBSa-_TImW-5JCeuQeRkm5NMpJWZG3hSuFU"
    );
    assert_eq!(
        hash_token("abc"),
        "ungWv48Bz-pBQUDeXa4iI7ADYaOWF3qctBD_YfIAFa0"
    );
}

#[test]
fn signatures_are_hmac_codes() {
    let vault = Vault::new([0; 32], b"key".to_vec());
    let signature = vault
        .sign("The quick brown fox jumps over the lazy dog")
        .expect("signed");
    assert_eq!(signature, "97yD9DBThCSxMpjmqm-xQ-9NWaFJRhdZl0edvC0aPNg");
}

#[test]
fn envelopes_hold_the_nonce_and_the_ciphertext() {
    let vault = vault();
    let nonce = [0, 1, 2, 3, 4, 5, 6, 7, 8, 9, 10, 11];
    let sealed = vault.seal_with(&nonce, "secret").expect("sealed");
    assert!(sealed.starts_with("AAECAwQFBgcICQoL."));
    assert_eq!(vault.open(&sealed).expect("opened"), "secret");
    let again = vault.seal_with(&nonce, "secret").expect("sealed");
    assert_eq!(sealed, again);
    let other = Vault::new([8; 32], b"test-session-secret".to_vec());
    assert!(matches!(
        other.open(&sealed),
        Err(VaultError::AuthenticationFailed)
    ));
}

#[test]
fn sealing_twice_gives_different_envelopes() {
    let vault = vault();
    let one = vault.seal("github-token").expect("sealed");
    let two = vault.seal("github-token").expect("sealed");
    assert_ne!(one, two);
    assert_eq!(vault.open(&one).ok(), vault.open(&two).ok());
}

#[test]
fn broken_envelopes_are_told_apart() {
    let vault = vault();
    assert!(matches!(vault.open("AAAA"), Err(VaultError::InvalidEnvelope)));
    assert!(matches!(
        vault.open("###.AAAA"),
        Err(VaultError::InvalidNonce)
    ));
    assert!(matches!(
        vault.open("AAEC.AAAA"),
        Err(VaultError::InvalidNonceLength)
    ));
    assert!(matches!(
        vault.open("AAECAwQFBgcICQoL.###"),
        Err(VaultError::InvalidCiphertext)
    ));
    assert!(matches!(
        vault.open("AAECAwQFBgcICQoL.AAAA"),
        Err(VaultError::AuthenticationFailed)
    ));
}

#[test]
fn decrypted_bytes_must_be_text() {
    assert!(matches!(
        Vault::finish_open(Some(vec![0xff])),
        Err(VaultError::NotUtf8)
    ));
    assert!(matches!(
        Vault::finish_open(None),
        Err(VaultError::AuthenticationFailed)
    ));
    assert_eq!(
        Vault::finish_open(Some("é".as_bytes().to_vec())).ok(),
        Some("é".to_string())
    );
}

#[test]
fn a_vault_needs_a_key_and_a_secret() {
    let key = "BwcHBwcHBwcHBwcHBwcHBwcHBwcHBwcHBwcHBwcHBwc=";
    assert!(vault_error(Some(key), Some("secret")).is_none());
    assert!(matches!(
        vault_error(None, Some("secret")),
        Some(VaultError::KeyRequired)
    ));
    assert!(matches!(
        vault_error(Some("not base64"), Some("secret")),
        Some(VaultError::KeyNotBase64)
    ));
    assert!(matches!(
        vault_error(Some("AAAA"), Some("secret")),
        Some(VaultError::KeyLength)
    ));
    assert!(matches!(
        vault_error(Some(key), None),
        Some(VaultError::SessionSecretRequired)
    ));
}

#[test]
fn a_vault_from_the_configuration_opens_what_it_sealed() {
    let key = "BwcHBwcHBwcHBwcHBwcHBwcHBwcHBwcHBwcHBwcHBwc=";
    let config =
        Config::from_env(&environment(Some(key), Some("test-session-secret"))).expect("configured");
    let configured = Vault::from_config(&config).ok().expect("a vault");
    let sealed = configured.seal("token").expect("sealed");
    assert_eq!(vault().open(&sealed).expect("opened"), "token");
}
