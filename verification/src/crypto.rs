//! Secrets at rest, signatures and digests of tokens.
use aes_gcm::aead::Aead;
use aes_gcm::KeyInit;
use base64::Engine;
use subtle::ConstantTimeEq;
use vstd::prelude::*;
use vstd::utf8::{
    decode_utf8, decode_utf8_encode_utf8, encode_utf8, encode_utf8_decode_utf8,
    encode_utf8_valid_utf8, valid_utf8,
};

use crate::config::{str_option, Config};
use crate::search::split_once;
use crate::text::{alphanumeric, concat3, text_option};

verus! {

// ---------------------------------------------------------------------------
// Base64

/// The text of bytes in Base64 with the alphabet for URLs and without padding.
pub uninterp spec fn base64_url(bytes: Seq<u8>) -> Seq<char>;

/// The bytes that a text in Base64 with the alphabet for URLs and without
/// padding stands for; nothing for any other text.
pub uninterp spec fn base64_url_decoded(text: Seq<char>) -> Option<Seq<u8>>;

/// The bytes that a text in Base64 with the standard alphabet and with padding
/// stands for; nothing for any other text.
pub uninterp spec fn base64_decoded(text: Seq<char>) -> Option<Seq<u8>>;

/// Letters, digits, hyphens and underscores: the alphabet of Base64 for URLs.
pub open spec fn url_alphabet(text: Seq<char>) -> bool {
    forall|i: int|
        0 <= i < text.len() ==> alphanumeric(#[trigger] text[i]) || text[i] == '-' || text[i]
            == '_'
}

/// Bytes whose text in Base64 fits in memory.
pub open spec fn encodable(length: nat) -> bool {
    length * 4 / 3 + 4 <= isize::MAX
}

/// The bytes of an optional list.
pub open spec fn bytes_option(value: Option<Vec<u8>>) -> Option<Seq<u8>> {
    match value {
        Some(bytes) => Some(bytes@),
        None => None,
    }
}

/// `base64::engine::general_purpose::URL_SAFE_NO_PAD.encode`. The text is named;
/// decoding it gives the bytes back, and it is made of the alphabet for URLs.
#[verifier::external_body]
pub(crate) fn encode_url(bytes: &[u8]) -> (r: String)
    requires
        encodable(bytes@.len()),
    ensures
        r@ == base64_url(bytes@),
        base64_url_decoded(r@) == Some(bytes@),
        url_alphabet(r@),
{
    base64::engine::general_purpose::URL_SAFE_NO_PAD.encode(bytes)
}

/// `base64::engine::general_purpose::URL_SAFE_NO_PAD.decode`. The result is
/// named. It takes neither padding nor bits that are left over: so a text that is
/// decoded is the one that encoding the bytes gives.
#[verifier::external_body]
fn decode_url(text: &str) -> (r: Option<Vec<u8>>)
    ensures
        bytes_option(r) == base64_url_decoded(text@),
        r is Some ==> base64_url(r->0@) == text@,
{
    base64::engine::general_purpose::URL_SAFE_NO_PAD.decode(text).ok()
}

/// `base64::engine::general_purpose::STANDARD.decode`. The result is named.
#[verifier::external_body]
pub(crate) fn decode_standard(text: &str) -> (r: Option<Vec<u8>>)
    ensures
        bytes_option(r) == base64_decoded(text@),
{
    base64::engine::general_purpose::STANDARD.decode(text).ok()
}

// ---------------------------------------------------------------------------
// Encryption, authentication, digests

/// The bytes that AES-256 in Galois/Counter Mode makes of a plaintext, followed
/// by the tag that authenticates them; nothing for a plaintext that is too long.
pub uninterp spec fn aes_gcm_encrypted(key: Seq<u8>, nonce: Seq<u8>, plaintext: Seq<u8>) -> Option<
    Seq<u8>,
>;

/// The plaintext of encrypted bytes; nothing where the tag does not fit.
pub uninterp spec fn aes_gcm_decrypted(key: Seq<u8>, nonce: Seq<u8>, sealed: Seq<u8>) -> Option<
    Seq<u8>,
>;

/// The code that authenticates a message under a key: HMAC with SHA-256.
pub uninterp spec fn hmac_sha256(key: Seq<u8>, message: Seq<u8>) -> Seq<u8>;

/// The digest of bytes: SHA-256.
pub uninterp spec fn sha256(bytes: Seq<u8>) -> Seq<u8>;

/// `aes_gcm::Aes256Gcm` with `encrypt`. The result is named. It is there exactly
/// for a plaintext of at most 2^36 bytes, is 16 bytes longer than it, and is
/// decrypted to it.
#[verifier::external_body]
fn aes_encrypt(key: &[u8; 32], nonce: &[u8; 12], plaintext: &[u8]) -> (r: Option<Vec<u8>>)
    ensures
        bytes_option(r) == aes_gcm_encrypted(key@, nonce@, plaintext@),
        r is Some <==> plaintext@.len() <= 68_719_476_736,
        r is Some ==> r->0@.len() == plaintext@.len() + 16,
        r is Some ==> aes_gcm_decrypted(key@, nonce@, r->0@) == Some(plaintext@),
{
    let cipher = aes_gcm::Aes256Gcm::new(aes_gcm::Key::<aes_gcm::Aes256Gcm>::from_slice(key));
    cipher.encrypt(aes_gcm::Nonce::from_slice(nonce), plaintext).ok()
}

/// `aes_gcm::Aes256Gcm` with `decrypt`. The result is named. It compares the tag
/// with the one of the encrypted bytes: so bytes that are decrypted are the ones
/// that encrypting the result gives, for a result that can be encrypted. That
/// nobody finds such bytes without the key is not stated.
#[verifier::external_body]
fn aes_decrypt(key: &[u8; 32], nonce: &[u8; 12], sealed: &[u8]) -> (r: Option<Vec<u8>>)
    ensures
        bytes_option(r) == aes_gcm_decrypted(key@, nonce@, sealed@),
        r is Some && r->0@.len() <= 68_719_476_736 ==> aes_gcm_encrypted(
            key@,
            nonce@,
            r->0@,
        ) == Some(sealed@),
{
    let cipher = aes_gcm::Aes256Gcm::new(aes_gcm::Key::<aes_gcm::Aes256Gcm>::from_slice(key));
    cipher.decrypt(aes_gcm::Nonce::from_slice(nonce), sealed).ok()
}

/// `hmac::Hmac<sha2::Sha256>`: the code of a message under a key of any length.
/// The code is named; it has 32 bytes.
#[verifier::external_body]
pub(crate) fn hmac_code(key: &[u8], message: &[u8]) -> (r: Vec<u8>)
    ensures
        r@ == hmac_sha256(key@, message@),
        r@.len() == 32,
{
    let mut mac = <hmac::Hmac<sha2::Sha256> as hmac::Mac>::new_from_slice(key)
        .expect("a key may have any length");
    hmac::Mac::update(&mut mac, message);
    hmac::Mac::finalize(mac).into_bytes().to_vec()
}

/// `sha2::Sha256::digest`. The digest is named; it has 32 bytes.
#[verifier::external_body]
pub(crate) fn sha256_digest(bytes: &[u8]) -> (r: Vec<u8>)
    ensures
        r@ == sha256(bytes@),
        r@.len() == 32,
{
    <sha2::Sha256 as sha2::Digest>::digest(bytes).to_vec()
}

/// How much SHA-256 takes: less than 2^64 bits.
pub const MAX_DIGESTED_BYTES: u64 = 0x1fff_ffff_ffff_ffff;

/// A digest that bytes are fed to piece by piece: `sha2::Sha256`, which is a type
/// with parameters that are all given.
#[verifier::external_body]
pub struct GrowingDigest {
    hasher: sha2::Sha256,
}

/// The bytes that a digest was fed.
pub uninterp spec fn absorbed(digest: GrowingDigest) -> Seq<u8>;

/// `sha2::Digest::new` of `sha2::Sha256`: a digest that was fed nothing.
#[verifier::external_body]
pub(crate) fn new_digest() -> (r: GrowingDigest)
    ensures
        absorbed(r) == Seq::<u8>::empty(),
{
    GrowingDigest { hasher: <sha2::Sha256 as sha2::Digest>::new() }
}

/// `sha2::Digest::update` of `sha2::Sha256`: the bytes come behind those that it was
/// fed before.
#[verifier::external_body]
pub(crate) fn feed_digest(digest: &mut GrowingDigest, bytes: &[u8])
    requires
        absorbed(*old(digest)).len() + bytes@.len() <= MAX_DIGESTED_BYTES,
    ensures
        absorbed(*final(digest)) == absorbed(*old(digest)) + bytes@,
{
    sha2::Digest::update(&mut digest.hasher, bytes)
}

/// `sha2::Digest::finalize` of `sha2::Sha256`: the digest of all that it was fed.
#[verifier::external_body]
pub(crate) fn end_digest(digest: GrowingDigest) -> (r: Vec<u8>)
    ensures
        r@ == sha256(absorbed(digest)),
        r@.len() == 32,
{
    sha2::Digest::finalize(digest.hasher).to_vec()
}

/// The hexadecimal digit of a number below 16.
pub open spec fn nibble(n: int) -> char {
    if n < 10 {
        (48 + n) as char
    } else {
        (87 + n) as char
    }
}

/// Bytes in hexadecimal: two digits each, in small letters.
pub open spec fn hex_text(bytes: Seq<u8>) -> Seq<char>
    decreases bytes.len(),
{
    if bytes.len() == 0 {
        Seq::empty()
    } else {
        seq![nibble(bytes[0] as int / 16), nibble(bytes[0] as int % 16)] + hex_text(bytes.skip(1))
    }
}

/// `hex::encode`: bytes in hexadecimal.
#[verifier::external_body]
pub(crate) fn encode_hex(bytes: &[u8]) -> (r: String)
    requires
        bytes@.len() * 2 <= isize::MAX,
    ensures
        r@ == hex_text(bytes@),
{
    hex::encode(bytes)
}

/// `subtle::ConstantTimeEq::ct_eq` on byte slices: whether they are equal.
#[verifier::external_body]
pub(crate) fn constant_time_eq(a: &[u8], b: &[u8]) -> (r: bool)
    ensures
        r == (a@ == b@),
{
    a.ct_eq(b).into()
}

/// `rand::random` for twelve bytes. Of the bytes nothing is stated.
#[verifier::external_body]
fn random_nonce() -> (r: [u8; 12])
{
    rand::random::<[u8; 12]>()
}

/// `String::from_utf8`: the text of bytes, where they are valid UTF-8.
#[verifier::external_body]
pub(crate) fn text_of_bytes(bytes: Vec<u8>) -> (r: Option<String>)
    ensures
        match r {
            Some(text) => valid_utf8(bytes@) && text@ == decode_utf8(bytes@),
            None => !valid_utf8(bytes@),
        },
{
    String::from_utf8(bytes).ok()
}

// ---------------------------------------------------------------------------
// The vault

/// Why a secret could not be sealed or opened, or a vault not be made.
#[derive(Debug, Clone, Copy, PartialEq, Eq, Structural)]
pub enum VaultError {
    KeyRequired,
    KeyNotBase64,
    KeyLength,
    SessionSecretRequired,
    EncryptionFailed,
    InvalidEnvelope,
    InvalidNonce,
    InvalidNonceLength,
    InvalidCiphertext,
    AuthenticationFailed,
    NotUtf8,
}

impl VaultError {
    /// The message of the error.
    pub open spec fn text(self) -> Seq<char> {
        match self {
            VaultError::KeyRequired => "GRIDOPS_ENCRYPTION_KEY is required"@,
            VaultError::KeyNotBase64 => "GRIDOPS_ENCRYPTION_KEY must be base64"@,
            VaultError::KeyLength => "GRIDOPS_ENCRYPTION_KEY must contain 32 bytes"@,
            VaultError::SessionSecretRequired => "GRIDOPS_SESSION_SECRET is required"@,
            VaultError::EncryptionFailed => "credential encryption failed"@,
            VaultError::InvalidEnvelope => "invalid encrypted value"@,
            VaultError::InvalidNonce => "invalid encrypted nonce"@,
            VaultError::InvalidNonceLength => "invalid encrypted nonce length"@,
            VaultError::InvalidCiphertext => "invalid ciphertext"@,
            VaultError::AuthenticationFailed => "credential authentication failed"@,
            VaultError::NotUtf8 => "credential is not UTF-8"@,
        }
    }

    /// The message of the error.
    pub fn message(&self) -> (r: &'static str)
        ensures
            r@ == self.text(),
    {
        match self {
            VaultError::KeyRequired => "GRIDOPS_ENCRYPTION_KEY is required",
            VaultError::KeyNotBase64 => "GRIDOPS_ENCRYPTION_KEY must be base64",
            VaultError::KeyLength => "GRIDOPS_ENCRYPTION_KEY must contain 32 bytes",
            VaultError::SessionSecretRequired => "GRIDOPS_SESSION_SECRET is required",
            VaultError::EncryptionFailed => "credential encryption failed",
            VaultError::InvalidEnvelope => "invalid encrypted value",
            VaultError::InvalidNonce => "invalid encrypted nonce",
            VaultError::InvalidNonceLength => "invalid encrypted nonce length",
            VaultError::InvalidCiphertext => "invalid ciphertext",
            VaultError::AuthenticationFailed => "credential authentication failed",
            VaultError::NotUtf8 => "credential is not UTF-8",
        }
    }
}

/// The keys that seal secrets and sign sessions.
#[derive(Clone)]
pub struct Vault {
    encryption_key: [u8; 32],
    session_secret: Vec<u8>,
}

/// The envelope of a sealed secret: the nonce and the encrypted bytes.
pub open spec fn envelope(nonce: Seq<u8>, sealed: Seq<u8>) -> Seq<char> {
    base64_url(nonce) + "."@ + base64_url(sealed)
}

/// What is made of decrypted bytes.
pub open spec fn plaintext_of(decrypted: Option<Seq<u8>>) -> Result<Seq<char>, VaultError> {
    match decrypted {
        None => Err(VaultError::AuthenticationFailed),
        Some(bytes) => if valid_utf8(bytes) {
            Ok(decode_utf8(bytes))
        } else {
            Err(VaultError::NotUtf8)
        },
    }
}

/// What an envelope opens to under a key, for its decoded parts.
pub open spec fn opened_parts(
    key: Seq<u8>,
    nonce: Option<Seq<u8>>,
    sealed: Option<Seq<u8>>,
) -> Result<Seq<char>, VaultError> {
    match nonce {
        None => Err(VaultError::InvalidNonce),
        Some(nonce) => if nonce.len() != 12 {
            Err(VaultError::InvalidNonceLength)
        } else {
            match sealed {
                None => Err(VaultError::InvalidCiphertext),
                Some(sealed) => plaintext_of(aes_gcm_decrypted(key, nonce, sealed)),
            }
        },
    }
}

/// What an envelope opens to under a key.
pub open spec fn opened(key: Seq<u8>, text: Seq<char>) -> Result<Seq<char>, VaultError> {
    if text.contains('.') {
        let i = crate::search::first_position(text, '.');
        opened_parts(
            key,
            base64_url_decoded(text.take(i)),
            base64_url_decoded(text.skip(i + 1)),
        )
    } else {
        Err(VaultError::InvalidEnvelope)
    }
}

/// An envelope is what sealing a text with some nonce gives.
pub open spec fn sealed_as(key: Seq<u8>, plaintext: Seq<char>, text: Seq<char>) -> bool {
    exists|nonce: Seq<u8>|
        nonce.len() == 12 && (#[trigger] aes_gcm_encrypted(key, nonce, encode_utf8(plaintext)))
            is Some && text == envelope(
            nonce,
            aes_gcm_encrypted(key, nonce, encode_utf8(plaintext))->0,
        )
}

/// A text that has not the form of an envelope is refused under every key: one
/// without a dot, with a part that cannot be decoded, or with a nonce that has not
/// twelve bytes.
pub proof fn malformed_envelopes_are_refused(key: Seq<u8>, text: Seq<char>)
    requires
        ({
            let i = crate::search::first_position(text, '.');
            let nonce = base64_url_decoded(text.take(i));
            ||| !text.contains('.')
            ||| nonce is None
            ||| nonce->0.len() != 12
            ||| base64_url_decoded(text.skip(i + 1)) is None
        }),
    ensures
        opened(key, text) is Err,
{
}

/// The characters of a result.
pub open spec fn result_text(result: Result<String, VaultError>) -> Result<Seq<char>, VaultError> {
    match result {
        Ok(text) => Ok(text@),
        Err(error) => Err(error),
    }
}

/// The first 32 bytes of a list as an array.
fn array_of_32(bytes: &Vec<u8>) -> (r: [u8; 32])
    requires
        bytes@.len() == 32,
    ensures
        r@ == bytes@,
{
    let mut out: [u8; 32] = [0u8; 32];
    let mut i: usize = 0;
    while i < 32
        invariant
            i <= 32,
            bytes@.len() == 32,
            forall|k: int| 0 <= k < i ==> out@[k] == bytes@[k],
        decreases 32 - i,
    {
        out[i] = bytes[i];
        i += 1;
    }
    proof {
        assert(out@ =~= bytes@);
    }
    out
}

/// The first 12 bytes of a list as an array.
fn array_of_12(bytes: &Vec<u8>) -> (r: [u8; 12])
    requires
        bytes@.len() == 12,
    ensures
        r@ == bytes@,
{
    let mut out: [u8; 12] = [0u8; 12];
    let mut i: usize = 0;
    while i < 12
        invariant
            i <= 12,
            bytes@.len() == 12,
            forall|k: int| 0 <= k < i ==> out@[k] == bytes@[k],
        decreases 12 - i,
    {
        out[i] = bytes[i];
        i += 1;
    }
    proof {
        assert(out@ =~= bytes@);
    }
    out
}

/// The key that a setting stands for, for its decoded bytes.
pub open spec fn key_of(setting: Option<Seq<char>>, decoded: Option<Seq<u8>>) -> Result<
    Seq<u8>,
    VaultError,
> {
    match setting {
        None => Err(VaultError::KeyRequired),
        Some(_) => match decoded {
            None => Err(VaultError::KeyNotBase64),
            Some(bytes) => if bytes.len() == 32 {
                Ok(bytes)
            } else {
                Err(VaultError::KeyLength)
            },
        },
    }
}

impl Vault {
    /// The key under which secrets are sealed.
    pub closed spec fn key(&self) -> Seq<u8> {
        self.encryption_key@
    }

    /// The secret under which sessions are signed.
    pub closed spec fn secret(&self) -> Seq<u8> {
        self.session_secret@
    }

    /// The vault with given keys.
    pub fn new(encryption_key: [u8; 32], session_secret: Vec<u8>) -> (r: Vault)
        ensures
            r.key() == encryption_key@,
            r.secret() == session_secret@,
    {
        Vault { encryption_key, session_secret }
    }

    /// The vault for the settings of the two keys, with the bytes that the
    /// first one was decoded to.
    pub fn from_settings(
        encryption_key: Option<&str>,
        decoded: Option<Vec<u8>>,
        session_secret: Option<&str>,
    ) -> (r: Result<Vault, VaultError>)
        ensures
            match r {
                Ok(vault) => key_of(str_option(encryption_key), bytes_option(decoded)) == Ok::<
                    Seq<u8>,
                    VaultError,
                >(vault.key()) && session_secret is Some && vault.secret() == encode_utf8(
                    session_secret->0@,
                ),
                Err(error) => match key_of(str_option(encryption_key), bytes_option(decoded)) {
                    Err(expected) => error == expected,
                    Ok(_) => session_secret is None && error == VaultError::SessionSecretRequired,
                },
            },
    {
        if encryption_key.is_none() {
            return Err(VaultError::KeyRequired);
        }
        let bytes: Vec<u8> = match decoded {
            Some(bytes) => bytes,
            None => {
                return Err(VaultError::KeyNotBase64);
            },
        };
        if bytes.len() != 32 {
            return Err(VaultError::KeyLength);
        }
        let key: [u8; 32] = array_of_32(&bytes);
        match session_secret {
            Some(secret) => Ok(
                Vault { encryption_key: key, session_secret: secret.as_bytes_vec() },
            ),
            None => Err(VaultError::SessionSecretRequired),
        }
    }

    /// The vault of a configuration.
    pub fn from_config(config: &Config) -> (r: Result<Vault, VaultError>)
        ensures
            ({
                let setting = text_option(config.encryption_key);
                let key = key_of(
                    setting,
                    match setting {
                        Some(text) => base64_decoded(text),
                        None => None,
                    },
                );
                match r {
                    Ok(vault) => key == Ok::<Seq<u8>, VaultError>(vault.key())
                        && config.session_secret is Some && vault.secret() == encode_utf8(
                        config.session_secret->0@,
                    ),
                    Err(error) => match key {
                        Err(expected) => error == expected,
                        Ok(_) => config.session_secret is None && error
                            == VaultError::SessionSecretRequired,
                    },
                }
            }),
    {
        let setting: Option<&str> = config.encryption_key();
        let decoded: Option<Vec<u8>> = match setting {
            Some(text) => decode_standard(text),
            None => None,
        };
        Vault::from_settings(setting, decoded, config.session_secret())
    }

    /// Seals a text with a given nonce.
    pub fn seal_with(&self, nonce: &[u8; 12], plaintext: &str) -> (r: Result<String, VaultError>)
        requires
            encodable(crate::text::utf8_len(plaintext@) + 16),
        ensures
            match r {
                Ok(text) => aes_gcm_encrypted(self.key(), nonce@, encode_utf8(plaintext@)) is Some
                    && text@ == envelope(
                    nonce@,
                    aes_gcm_encrypted(self.key(), nonce@, encode_utf8(plaintext@))->0,
                ) && opened(self.key(), text@) == Ok::<Seq<char>, VaultError>(plaintext@),
                Err(error) => error == VaultError::EncryptionFailed,
            },
            r is Ok <==> crate::text::utf8_len(plaintext@) <= 68_719_476_736,
    {
        let sealed: Vec<u8> = match aes_encrypt(
            &self.encryption_key,
            nonce,
            plaintext.as_bytes(),
        ) {
            Some(sealed) => sealed,
            None => {
                return Err(VaultError::EncryptionFailed);
            },
        };
        let first: String = encode_url(nonce.as_slice());
        let second: String = encode_url(sealed.as_slice());
        let text: String = concat3(first.as_str(), ".", second.as_str());
        proof {
            reveal_strlit(".");
            assert("."@ =~= seq!['.']);
            let i = first@.len() as int;
            assert(text@[i] == '.');
            assert forall|k: int| 0 <= k < i implies text@[k] != '.' by {
                assert(first@.contains(first@[k]));
            }
            crate::search::lemma_first_position(text@, '.', i);
            assert(text@.take(i) =~= first@);
            assert(text@.skip(i + 1) =~= second@);
            encode_utf8_valid_utf8(plaintext@);
            encode_utf8_decode_utf8(plaintext@);
        }
        Ok(text)
    }

    /// Seals a text. Whatever the nonce, opening the envelope gives the text
    /// back.
    pub fn seal(&self, plaintext: &str) -> (r: Result<String, VaultError>)
        requires
            encodable(crate::text::utf8_len(plaintext@) + 16),
        ensures
            match r {
                Ok(text) => opened(self.key(), text@) == Ok::<Seq<char>, VaultError>(plaintext@)
                    && exists|nonce: Seq<u8>|
                    nonce.len() == 12 && text@ == envelope(
                        nonce,
                        #[trigger] aes_gcm_encrypted(
                            self.key(),
                            nonce,
                            encode_utf8(plaintext@),
                        )->0,
                    ),
                Err(error) => error == VaultError::EncryptionFailed,
            },
            r is Ok <==> crate::text::utf8_len(plaintext@) <= 68_719_476_736,
    {
        let nonce: [u8; 12] = random_nonce();
        proof {
            assert(nonce@.len() == 12);
        }
        self.seal_with(&nonce, plaintext)
    }

    /// Makes a text of decrypted bytes.
    pub fn finish_open(decrypted: Option<Vec<u8>>) -> (r: Result<String, VaultError>)
        ensures
            result_text(r) == plaintext_of(bytes_option(decrypted)),
    {
        match decrypted {
            None => Err(VaultError::AuthenticationFailed),
            Some(bytes) => match text_of_bytes(bytes) {
                Some(text) => Ok(text),
                None => Err(VaultError::NotUtf8),
            },
        }
    }

    /// Opens an envelope. One that opens is the very one that sealing its text with
    /// its nonce gives: so no other envelope with that nonce opens to that text.
    pub fn open(&self, envelope: &str) -> (r: Result<String, VaultError>)
        ensures
            result_text(r) == opened(self.key(), envelope@),
            r is Ok && crate::text::utf8_len(r->Ok_0@) <= 68_719_476_736 ==> sealed_as(
                self.key(),
                r->Ok_0@,
                envelope@,
            ),
    {
        let parts: (String, String) = match split_once(envelope, '.') {
            Some(parts) => parts,
            None => {
                return Err(VaultError::InvalidEnvelope);
            },
        };
        proof {
            let i = parts.0@.len() as int;
            assert(envelope@[i] == '.');
            assert forall|k: int| 0 <= k < i implies envelope@[k] != '.' by {
                assert(parts.0@.contains(parts.0@[k]));
            }
            crate::search::lemma_first_position(envelope@, '.', i);
            assert(envelope@.take(i) =~= parts.0@);
            assert(envelope@.skip(i + 1) =~= parts.1@);
        }
        let nonce: Vec<u8> = match decode_url(parts.0.as_str()) {
            Some(nonce) => nonce,
            None => {
                return Err(VaultError::InvalidNonce);
            },
        };
        if nonce.len() != 12 {
            return Err(VaultError::InvalidNonceLength);
        }
        let sealed: Vec<u8> = match decode_url(parts.1.as_str()) {
            Some(sealed) => sealed,
            None => {
                return Err(VaultError::InvalidCiphertext);
            },
        };
        let nonce: [u8; 12] = array_of_12(&nonce);
        let decrypted: Option<Vec<u8>> = aes_decrypt(
            &self.encryption_key,
            &nonce,
            sealed.as_slice(),
        );
        proof {
            reveal_strlit(".");
            assert("."@ =~= seq!['.']);
            assert(envelope@ =~= crate::crypto::envelope(nonce@, sealed@));
            if decrypted is Some && valid_utf8(decrypted->0@) {
                decode_utf8_encode_utf8(decrypted->0@);
            }
        }
        Vault::finish_open(decrypted)
    }

    /// The signature of a text under the session secret.
    pub open spec fn signature(&self, value: Seq<char>) -> Seq<char> {
        base64_url(hmac_sha256(self.secret(), encode_utf8(value)))
    }

    /// Signs a text. A secret of any length can sign.
    pub fn sign(&self, value: &str) -> (r: Result<String, VaultError>)
        ensures
            r is Ok,
            r->Ok_0@ == self.signature(value@),
            url_alphabet(r->Ok_0@),
    {
        let code: Vec<u8> = hmac_code(self.session_secret.as_slice(), value.as_bytes());
        Ok(encode_url(code.as_slice()))
    }

    /// Whether a signature is that of a text.
    pub fn verify(&self, value: &str, signature: &str) -> (r: bool)
        ensures
            r == (signature@ == self.signature(value@)),
    {
        let expected: String = match self.sign(value) {
            Ok(expected) => expected,
            Err(_) => {
                return false;
            },
        };
        let r: bool = constant_time_eq(expected.as_str().as_bytes(), signature.as_bytes());
        proof {
            encode_utf8_decode_utf8(expected@);
            encode_utf8_decode_utf8(signature@);
        }
        r
    }
}

/// The digest under which a token is stored.
pub open spec fn token_digest(value: Seq<char>) -> Seq<char> {
    base64_url(sha256(encode_utf8(value)))
}

/// The digest under which a token is stored.
pub fn hash_token(value: &str) -> (r: String)
    ensures
        r@ == token_digest(value@),
{
    encode_url(sha256_digest(value.as_bytes()).as_slice())
}

/// The key is exactly 32 bytes in Base64; another length is refused, and so are a setting that
/// cannot be decoded and one that is missing.
pub proof fn keys_have_thirty_two_bytes(setting: Option<Seq<char>>, decoded: Option<Seq<u8>>)
    ensures
        setting is None ==> key_of(setting, decoded) is Err,
        setting is Some && decoded is None ==> key_of(setting, decoded) is Err,
        setting is Some && decoded is Some && decoded->0.len() != 32 ==> key_of(setting, decoded)
            is Err,
        setting is Some && decoded is Some && decoded->0.len() == 32 ==> key_of(setting, decoded)
            == Ok::<Seq<u8>, VaultError>(decoded->0),
{
}

/// What was encrypted under a key opens to the text again, and what cannot be decrypted under
/// it does not open.
pub proof fn envelopes_open_to_what_is_in_them(
    key: Seq<u8>,
    nonce: Seq<u8>,
    sealed: Seq<u8>,
    text: Seq<char>,
)
    requires
        nonce.len() == 12,
    ensures
        aes_gcm_decrypted(key, nonce, sealed) == Some(encode_utf8(text)) ==> opened_parts(
            key,
            Some(nonce),
            Some(sealed),
        ) == Ok::<Seq<char>, VaultError>(text),
        aes_gcm_decrypted(key, nonce, sealed) is None ==> opened_parts(
            key,
            Some(nonce),
            Some(sealed),
        ) is Err,
        opened_parts(key, None, Some(sealed)) is Err,
        opened_parts(key, Some(nonce), None) is Err,
{
    encode_utf8_valid_utf8(text);
    encode_utf8_decode_utf8(text);
}

}
