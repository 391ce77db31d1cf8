//! Authenticated encryption of the record bytes, and the blob format.
//!
//! A stored blob is `base64(nonce || ciphertext-and-tag)`: a fresh 96-bit
//! nonce drawn from the system RNG for every encryption, followed by the
//! AES-256-GCM ciphertext with its 16-byte tag, the whole base64-encoded as
//! one line of text. The cipher, the hash and the base64 codec come from
//! outside crates behind the trusted wrappers below; the composition of the
//! blob — nonce handling, length checks, splitting — is verified against
//! their contracts.

use vstd::prelude::*;

use crate::error::{ConfigError, ErrorKind};

use aes_gcm::aead::Aead;
use aes_gcm::KeyInit;
use base64::Engine;
use sha2::Digest;

verus! {

/// Byte length of the nonce that prefixes every blob.
pub const NONCE_LEN: usize = 12;

/// Byte length of a derived key.
pub const KEY_LEN: usize = 32;

/// Largest plaintext AES-GCM encrypts: `2^36 - 32` bytes.
pub const GCM_MAX_PLAINTEXT: u64 = 68719476704;

/// The SHA-256 digest of a byte sequence.
pub uninterp spec fn sha256_of(data: Seq<u8>) -> Seq<u8>;

/// The standard base64 encoding (with padding) of a byte sequence.
pub uninterp spec fn base64_of(data: Seq<u8>) -> Seq<char>;

/// The strict standard base64 decoding of a text: `Some` exactly on
/// canonical encodings.
pub uninterp spec fn base64_parse(text: Seq<char>) -> Option<Seq<u8>>;

/// The AES-256-GCM ciphertext (with appended tag) of a plaintext under a
/// key and nonce, with no associated data.
pub uninterp spec fn gcm_seal(key: Seq<u8>, nonce: Seq<u8>, plain: Seq<u8>) -> Seq<u8>;

/// What AES-256-GCM decryption returns for a ciphertext under a key and
/// nonce: the plaintext when the tag authenticates, `None` otherwise.
pub uninterp spec fn gcm_open(key: Seq<u8>, nonce: Seq<u8>, ct: Seq<u8>) -> Option<Seq<u8>>;

/// Relies on `sha2::Sha256` through the `Digest` trait: the digest is a
/// function of the input bytes alone and is 32 bytes long.
#[verifier::external_body]
fn sha256(data: &[u8]) -> (r: Vec<u8>)
    ensures
        r@ == sha256_of(data@),
        r@.len() == 32,
{
    let mut hasher = sha2::Sha256::new();
    hasher.update(data);
    hasher.finalize().to_vec()
}

/// Relies on `base64::engine::general_purpose::STANDARD`: encoding is a
/// function of the bytes alone, and its strict decoder reads it back.
#[verifier::external_body]
fn base64_encode(data: &[u8]) -> (r: String)
    ensures
        r@ == base64_of(data@),
        base64_parse(r@) == Some(data@),
{
    base64::engine::general_purpose::STANDARD.encode(data)
}

/// Relies on the same engine's `decode`: strict, canonical-only decoding,
/// a function of the text alone.
#[verifier::external_body]
fn base64_decode(text: &str) -> (r: Option<Vec<u8>>)
    ensures
        r matches Some(v) ==> base64_parse(text@) == Some(v@),
        r is None ==> base64_parse(text@) is None,
{
    base64::engine::general_purpose::STANDARD.decode(text).ok()
}

/// Relies on `aes_gcm::aead::Generate` over the system RNG: a fresh 96-bit
/// nonce, or `None` if the system RNG fails. Nothing is assumed about the
/// value drawn.
#[verifier::external_body]
fn fresh_nonce() -> (r: Option<Vec<u8>>)
    ensures
        r matches Some(n) ==> n@.len() == NONCE_LEN,
{
    let nonce: aes_gcm::aead::Nonce<aes_gcm::Aes256Gcm> =
        match aes_gcm::aead::Generate::try_generate() {
            Ok(n) => n,
            Err(_) => {
                return None;
            },
        };
    Some(nonce.to_vec())
}

/// Relies on `aes_gcm::Aes256Gcm` encryption (`aead::Aead::encrypt`): it is
/// deterministic in key, nonce and plaintext, appends the 16-byte tag, fails
/// exactly when the plaintext exceeds the GCM length bound, and its own
/// decryption reads the ciphertext back.
#[verifier::external_body]
fn aes_seal(key: &[u8], nonce: &[u8], plain: &[u8]) -> (r: Option<Vec<u8>>)
    requires
        key@.len() == KEY_LEN,
        nonce@.len() == NONCE_LEN,
    ensures
        plain@.len() <= GCM_MAX_PLAINTEXT ==> r is Some,
        r matches Some(ct) ==> ct@ == gcm_seal(key@, nonce@, plain@) && ct@.len() == plain@.len()
            + 16 && gcm_open(key@, nonce@, ct@) == Some(plain@),
{
    let key = aes_gcm::Key::<aes_gcm::Aes256Gcm>::try_from(key).ok()?;
    let cipher = aes_gcm::Aes256Gcm::new(&key);
    let nonce = aes_gcm::aead::Nonce::<aes_gcm::Aes256Gcm>::try_from(nonce).ok()?;
    cipher.encrypt(&nonce, plain).ok()
}

/// Relies on `aes_gcm::Aes256Gcm` decryption (`aead::Aead::decrypt`): a
/// function of key, nonce and ciphertext alone, returning the plaintext
/// exactly when the authentication tag verifies.
#[verifier::external_body]
fn aes_open(key: &[u8], nonce: &[u8], ct: &[u8]) -> (r: Option<Vec<u8>>)
    requires
        key@.len() == KEY_LEN,
        nonce@.len() == NONCE_LEN,
    ensures
        r matches Some(p) ==> gcm_open(key@, nonce@, ct@) == Some(p@),
        r is None ==> gcm_open(key@, nonce@, ct@) is None,
{
    let key = aes_gcm::Key::<aes_gcm::Aes256Gcm>::try_from(key).ok()?;
    let cipher = aes_gcm::Aes256Gcm::new(&key);
    let nonce = aes_gcm::aead::Nonce::<aes_gcm::Aes256Gcm>::try_from(nonce).ok()?;
    cipher.decrypt(&nonce, ct).ok()
}

// ---------------------------------------------------------------------------
// Verified composition.
// ---------------------------------------------------------------------------

/// The stored blob for a given key, nonce and plaintext.
pub open spec fn blob_of(key: Seq<u8>, nonce: Seq<u8>, plain: Seq<u8>) -> Seq<char> {
    base64_of(nonce + gcm_seal(key, nonce, plain))
}

/// What decrypting a stored blob yields: `None` when the text is not
/// canonical base64, is shorter than one nonce, or fails authentication.
pub open spec fn decrypt_of(key: Seq<u8>, blob: Seq<char>) -> Option<Seq<u8>> {
    match base64_parse(blob) {
        Some(raw) => if raw.len() < NONCE_LEN {
            None
        } else {
            gcm_open(key, raw.take(NONCE_LEN as int), raw.skip(NONCE_LEN as int))
        },
        None => None,
    }
}

/// Derives a key from identity material: its SHA-256 digest.
pub fn derive_key_bytes(material: &[u8]) -> (r: Vec<u8>)
    ensures
        r@ == sha256_of(material@),
        r@.len() == KEY_LEN,
{
    sha256(material)
}

/// Encrypts `plain` under `key` with a given fresh nonce: the blob embeds
/// the nonce, and decrypts back to `plain`.
pub fn encrypt_with_nonce(key: &Vec<u8>, nonce: &Vec<u8>, plain: &[u8]) -> (r: Result<
    String,
    ConfigError,
>)
    requires
        key@.len() == KEY_LEN,
        nonce@.len() == NONCE_LEN,
    ensures
        r matches Ok(b) ==> b@ == blob_of(key@, nonce@, plain@) && decrypt_of(key@, b@) == Some(
            plain@,
        ),
        r matches Err(e) ==> e.kind == ErrorKind::CryptoFailure && plain@.len()
            > GCM_MAX_PLAINTEXT,
{
    let ct = match aes_seal(key.as_slice(), nonce.as_slice(), plain) {
        Some(ct) => ct,
        None => {
            return Err(
                ConfigError::new(ErrorKind::CryptoFailure, "Encryption failed".to_owned()),
            );
        },
    };
    let mut combined: Vec<u8> = Vec::new();
    combined.extend_from_slice(nonce.as_slice());
    combined.extend_from_slice(ct.as_slice());
    let blob = base64_encode(combined.as_slice());
    proof {
        assert(combined@ =~= nonce@ + gcm_seal(key@, nonce@, plain@));
        assert(combined@.take(NONCE_LEN as int) =~= nonce@);
        assert(combined@.skip(NONCE_LEN as int) =~= gcm_seal(key@, nonce@, plain@));
    }
    Ok(blob)
}

/// Encrypts `plain` under `key` with a fresh random nonce. The blob embeds
/// the nonce it was made with, so two encryptions of one plaintext differ
/// whenever their nonces do.
pub fn encrypt_bytes(key: &Vec<u8>, plain: &[u8]) -> (r: Result<String, ConfigError>)
    requires
        key@.len() == KEY_LEN,
    ensures
        r matches Ok(b) ==> exists|n: Seq<u8>|
            n.len() == NONCE_LEN && b@ == blob_of(key@, n, plain@) && decrypt_of(key@, b@)
                == Some(plain@),
        r matches Err(e) ==> e.kind == ErrorKind::CryptoFailure,
{
    let nonce = match fresh_nonce() {
        Some(n) => n,
        None => {
            return Err(
                ConfigError::new(ErrorKind::CryptoFailure, "Nonce generation failed".to_owned()),
            );
        },
    };
    let blob = encrypt_with_nonce(key, &nonce, plain)?;
    proof {
        let n = nonce@;
        assert(n.len() == NONCE_LEN && blob@ == blob_of(key@, n, plain@) && decrypt_of(
            key@,
            blob@,
        ) == Some(plain@));
    }
    Ok(blob)
}

/// Decrypts a stored blob, exactly as [`decrypt_of`] states. Every failure —
/// bad base64, a blob shorter than one nonce, a tag that does not verify —
/// is the one `CryptoFailure` kind.
pub fn decrypt_bytes(key: &Vec<u8>, blob: &str) -> (r: Result<Vec<u8>, ConfigError>)
    requires
        key@.len() == KEY_LEN,
    ensures
        r matches Ok(p) ==> decrypt_of(key@, blob@) == Some(p@),
        r matches Err(e) ==> decrypt_of(key@, blob@) is None && e.kind == ErrorKind::CryptoFailure,
{
    let raw = match base64_decode(blob) {
        Some(v) => v,
        None => {
            return Err(
                ConfigError::new(ErrorKind::CryptoFailure, "Invalid encrypted data".to_owned()),
            );
        },
    };
    if raw.len() < NONCE_LEN {
        return Err(ConfigError::new(ErrorKind::CryptoFailure, "Invalid encrypted data".to_owned()));
    }
    let nonce = vstd::slice::slice_subrange(raw.as_slice(), 0, NONCE_LEN);
    let ct = vstd::slice::slice_subrange(raw.as_slice(), NONCE_LEN, raw.len());
    proof {
        assert(nonce@ =~= raw@.take(NONCE_LEN as int));
        assert(ct@ =~= raw@.skip(NONCE_LEN as int));
    }
    match aes_open(key.as_slice(), nonce, ct) {
        Some(p) => Ok(p),
        None => Err(ConfigError::new(ErrorKind::CryptoFailure, "Decryption failed".to_owned())),
    }
}

} // verus!
