//! End-to-end encryption of chat text: a key derived from the room password
//! with Argon2id, XChaCha20-Poly1305 sealing with a fresh random nonce, and
//! Base64 on the wire.
//!
//! Sealed data: `[24-byte nonce][ciphertext + 16-byte tag]`.
use vstd::prelude::*;
use vstd::string::{StringExecFns, StringSliceAdditionalSpecFns};
use vstd::utf8::{decode_utf8, encode_utf8, valid_utf8};
use chacha20poly1305::aead::{Aead, KeyInit};
use base64::Engine;
use rand::RngCore;
use crate::bytes::{copy_range, extend_bytes};

verus! {

broadcast use {vstd::utf8::encode_utf8_valid_utf8, vstd::utf8::encode_utf8_decode_utf8};

/// Bytes of a key.
pub const KEY_LEN: usize = 32;

/// Bytes of a nonce.
pub const NONCE_LEN: usize = 24;

/// Bytes of the authentication tag.
pub const TAG_LEN: usize = 16;

/// The key Argon2id (default parameters, version 0x13) derives from a
/// password and a salt into 32 bytes.
pub uninterp spec fn argon2id_key(password: Seq<u8>, salt: Seq<u8>) -> Seq<u8>;

/// What XChaCha20-Poly1305 makes of a plaintext under a key and nonce, with
/// no associated data: the ciphertext followed by the tag.
pub uninterp spec fn xchacha20poly1305_seal(key: Seq<u8>, nonce: Seq<u8>, plaintext: Seq<u8>) -> Seq<u8>;

/// What XChaCha20-Poly1305 recovers from a ciphertext with its tag under a key
/// and nonce, with no associated data; `None` when the tag does not check.
pub uninterp spec fn xchacha20poly1305_open(key: Seq<u8>, nonce: Seq<u8>, ciphertext: Seq<u8>) -> Option<Seq<u8>>;

/// The standard, padded Base64 text of some bytes.
pub uninterp spec fn base64_text(bytes: Seq<u8>) -> Seq<char>;

/// The bytes a text stands for in standard, padded Base64; `None` when the
/// text is not valid Base64.
pub uninterp spec fn base64_bytes(text: Seq<char>) -> Option<Seq<u8>>;

/// The text `String::from_utf8_lossy` makes of some bytes.
pub uninterp spec fn utf8_lossy_text(bytes: Seq<u8>) -> Seq<char>;

/// Whether a plaintext of this length can be sealed: fewer than 2^32 - 1
/// blocks of 64 bytes.
pub open spec fn sealable(len: nat) -> bool {
    len / 64 < 0xFFFF_FFFF
}

/// Derives a 32-byte key with Argon2id
/// (`argon2::Argon2::default().hash_password_into`). The crate checks only
/// that the password has at most 2^32 - 1 bytes, the salt 8 to 2^32 - 1 bytes
/// and the output 4 or more bytes, so the call succeeds on the inputs admitted
/// here; the result is named [`argon2id_key`].
#[verifier::external_body]
fn argon2_hash(password: &[u8], salt: &[u8; 16]) -> (r: Option<[u8; 32]>)
    ensures
        password@.len() <= 0xFFFF_FFFF ==> r is Some,
        r matches Some(k) ==> k@ == argon2id_key(password@, salt@),
{
    let mut key = [0u8; 32];
    match argon2::Argon2::default().hash_password_into(password, salt, &mut key) {
        Ok(()) => Some(key),
        Err(_) => None,
    }
}

/// 24 bytes from the thread-local random generator
/// (`rand::thread_rng().fill_bytes`); nothing is promised of their value.
#[verifier::external_body]
fn random_nonce() -> (r: [u8; 24]) {
    let mut nonce = [0u8; 24];
    rand::thread_rng().fill_bytes(&mut nonce);
    nonce
}

/// Seals a plaintext (`XChaCha20Poly1305::new(key).encrypt(nonce, plaintext)`).
/// The crate refuses plaintexts of 2^32 - 1 blocks of 64 bytes or more and
/// otherwise returns the ciphertext followed by the 16-byte tag, named
/// [`xchacha20poly1305_seal`].
#[verifier::external_body]
fn seal(key: &[u8; 32], nonce: &[u8; 24], plaintext: &[u8]) -> (r: Option<Vec<u8>>)
    ensures
        r is Some <==> sealable(plaintext@.len()),
        r matches Some(c) ==> c@ == xchacha20poly1305_seal(key@, nonce@, plaintext@) && c@.len()
            == plaintext@.len() + 16,
{
    let cipher = chacha20poly1305::XChaCha20Poly1305::new(key.into());
    cipher.encrypt(chacha20poly1305::XNonce::from_slice(nonce), plaintext).ok()
}

/// Opens a sealed text (`XChaCha20Poly1305::new(key).decrypt(nonce,
/// ciphertext)`); the result is named [`xchacha20poly1305_open`]. As for any
/// authenticated cipher, opening what was sealed under the same key and nonce
/// gives back the plaintext, and a text shorter than the tag is refused.
#[verifier::external_body]
fn open(key: &[u8; 32], nonce: &[u8; 24], ciphertext: &[u8]) -> (r: Option<Vec<u8>>)
    ensures
        match xchacha20poly1305_open(key@, nonce@, ciphertext@) {
            Some(p) => r matches Some(v) && v@ == p,
            None => r is None,
        },
        forall|p: Seq<u8>|
            ciphertext@ == #[trigger] xchacha20poly1305_seal(key@, nonce@, p) && sealable(p.len())
                ==> r is Some && r.unwrap()@ == p,
        ciphertext@.len() < 16 ==> r is None,
{
    let cipher = chacha20poly1305::XChaCha20Poly1305::new(key.into());
    cipher.decrypt(chacha20poly1305::XNonce::from_slice(nonce), ciphertext).ok()
}

/// Standard, padded Base64 encoding (`base64::engine::general_purpose::STANDARD.encode`).
#[verifier::external_body]
pub(crate) fn base64_encode(bytes: &[u8]) -> (r: String)
    requires
        bytes@.len() <= usize::MAX / 2,
    ensures
        r@ == base64_text(bytes@),
{
    base64::engine::general_purpose::STANDARD.encode(bytes)
}

/// Standard, padded Base64 decoding (`base64::engine::general_purpose::STANDARD.decode`);
/// decoding the encoding of some bytes gives those bytes back.
#[verifier::external_body]
pub(crate) fn base64_decode(text: &str) -> (r: Option<Vec<u8>>)
    ensures
        match base64_bytes(text@) {
            Some(b) => r matches Some(v) && v@ == b,
            None => r is None,
        },
        forall|b: Seq<u8>| text@ == #[trigger] base64_text(b) ==> r is Some && r.unwrap()@ == b,
{
    base64::engine::general_purpose::STANDARD.decode(text).ok()
}

/// Text from bytes, with each invalid UTF-8 sequence replaced by U+FFFD
/// (`String::from_utf8_lossy`); valid UTF-8 is decoded as it is.
#[verifier::external_body]
pub(crate) fn utf8_lossy(bytes: &[u8]) -> (r: String)
    ensures
        r@ == utf8_lossy_text(bytes@),
        valid_utf8(bytes@) ==> r@ == decode_utf8(bytes@),
{
    String::from_utf8_lossy(bytes).to_string()
}

/// The fixed salt of the key derivation; it is not secret and only makes the
/// same password give the same key everywhere.
pub open spec fn salt_bytes() -> Seq<u8> {
    seq![118u8, 111, 105, 99, 101, 99, 104, 97, 116, 95, 101, 50, 101, 95, 48, 49]
}

fn salt() -> (r: [u8; 16])
    ensures
        r@ == salt_bytes(),
{
    let r = [118u8, 111, 105, 99, 101, 99, 104, 97, 116, 95, 101, 50, 101, 95, 48, 49];
    assert(r@ =~= salt_bytes());
    r
}

/// Derives the room's 256-bit encryption key from its password with Argon2id
/// and the fixed salt.
pub fn derive_key(password: &str) -> (r: [u8; 32])
    requires
        password.spec_bytes().len() <= 0xFFFF_FFFF,
    ensures
        r@ == argon2id_key(password.spec_bytes(), salt_bytes()),
{
    let s = salt();
    match argon2_hash(password.as_bytes(), &s) {
        Some(k) => k,
        None => [0u8; 32],
    }
}

/// Why sealing or opening failed.
#[derive(Debug, Clone, Copy, PartialEq, Eq, Structural)]
pub enum CryptoError {
    /// The plaintext is too long to seal.
    EncryptionFailed,
    /// The data is shorter than a nonce and a tag.
    TooShort,
    /// The tag does not check: wrong key, or the data was altered.
    DecryptionFailed,
}

/// The text of a crypto error.
pub open spec fn crypto_error_text(e: CryptoError) -> Seq<char> {
    match e {
        CryptoError::EncryptionFailed => "encryption failed: aead::Error"@,
        CryptoError::TooShort => "encrypted data too short"@,
        CryptoError::DecryptionFailed => "decryption failed: aead::Error"@,
    }
}

impl CryptoError {
    /// The human-readable text of the error.
    pub fn message(&self) -> (r: String)
        ensures
            r@ == crypto_error_text(*self),
    {
        match self {
            CryptoError::EncryptionFailed => String::from_str("encryption failed: aead::Error"),
            CryptoError::TooShort => String::from_str("encrypted data too short"),
            CryptoError::DecryptionFailed => String::from_str("decryption failed: aead::Error"),
        }
    }
}

/// Seals `plaintext` under `key` with the given nonce: the nonce, then the
/// ciphertext and tag.
pub fn encrypt_with_nonce(key: &[u8; 32], nonce: &[u8; 24], plaintext: &[u8]) -> (r: Result<Vec<u8>, CryptoError>)
    ensures
        sealable(plaintext@.len()) ==> (r matches Ok(d) && d@ == nonce@ + xchacha20poly1305_seal(
            key@,
            nonce@,
            plaintext@,
        ) && d@.len() == plaintext@.len() + 40),
        !sealable(plaintext@.len()) ==> r == Err::<Vec<u8>, CryptoError>(CryptoError::EncryptionFailed),
{
    match seal(key, nonce, plaintext) {
        Some(ct) => {
            let mut out: Vec<u8> = Vec::new();
            extend_bytes(&mut out, nonce);
            extend_bytes(&mut out, ct.as_slice());
            assert(out@ =~= nonce@ + ct@);
            Ok(out)
        },
        None => Err(CryptoError::EncryptionFailed),
    }
}

/// Seals `plaintext` under `key` with a fresh random nonce: the nonce, then
/// the ciphertext and tag.
pub fn encrypt(key: &[u8; 32], plaintext: &[u8]) -> (r: Result<Vec<u8>, CryptoError>)
    ensures
        sealable(plaintext@.len()) ==> (r matches Ok(d) && d@.len() == plaintext@.len() + 40 && d@
            == d@.take(24) + xchacha20poly1305_seal(key@, d@.take(24), plaintext@)),
        !sealable(plaintext@.len()) ==> r == Err::<Vec<u8>, CryptoError>(CryptoError::EncryptionFailed),
{
    let nonce = random_nonce();
    let r = encrypt_with_nonce(key, &nonce, plaintext);
    proof {
        if sealable(plaintext@.len()) {
            assert(r.unwrap()@.take(24) =~= nonce@);
        }
    }
    r
}

/// Opens data sealed by [`encrypt`]: refused as too short below 40 bytes,
/// else the plaintext when the tag checks under `key`.
pub fn decrypt(key: &[u8; 32], data: &[u8]) -> (r: Result<Vec<u8>, CryptoError>)
    ensures
        data@.len() < 40 ==> r == Err::<Vec<u8>, CryptoError>(CryptoError::TooShort),
        data@.len() >= 40 ==> match xchacha20poly1305_open(key@, data@.take(24), data@.skip(24)) {
            Some(p) => r matches Ok(v) && v@ == p,
            None => r == Err::<Vec<u8>, CryptoError>(CryptoError::DecryptionFailed),
        },
        forall|nonce: Seq<u8>, p: Seq<u8>|
            nonce.len() == 24 && sealable(p.len()) && data@.len() >= 40 && data@ == nonce
                + #[trigger] xchacha20poly1305_seal(key@, nonce, p) ==> (r matches Ok(v) && v@ == p),
{
    if data.len() < NONCE_LEN + TAG_LEN {
        return Err(CryptoError::TooShort);
    }
    let n = copy_range(data, 0, NONCE_LEN);
    let nonce: [u8; 24] = [
        n[0], n[1], n[2], n[3], n[4], n[5], n[6], n[7], n[8], n[9], n[10], n[11],
        n[12], n[13], n[14], n[15], n[16], n[17], n[18], n[19], n[20], n[21], n[22], n[23],
    ];
    assert(nonce@ =~= data@.take(24));
    let ct = copy_range(data, NONCE_LEN, data.len());
    assert(ct@ =~= data@.skip(24));
    let r = open(key, &nonce, ct.as_slice());
    proof {
        assert forall|nn: Seq<u8>, p: Seq<u8>|
            nn.len() == 24 && sealable(p.len()) && data@.len() >= 40 && data@ == nn
                + #[trigger] xchacha20poly1305_seal(key@, nn, p) implies (r matches Some(v) && v@ == p) by {
            assert(data@.take(24) =~= nn);
            assert(data@.skip(24) =~= xchacha20poly1305_seal(key@, nn, p));
        }
    }
    match r {
        Some(p) => Ok(p),
        None => Err(CryptoError::DecryptionFailed),
    }
}

} // verus!
