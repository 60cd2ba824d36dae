//! The outside primitives this library builds on, each behind a small trusted item:
//! AES-256-GCM, SHA-256, Argon2, the OS random source, the OS account name and
//! zeroize-on-drop key storage. Their contracts state what those crates document.

use aes_gcm::aead::{Aead, KeyInit, OsRng};
use base64::engine::general_purpose::STANDARD;
use base64::Engine;
use aes_gcm::{Aes256Gcm, Key, Nonce};
use argon2::password_hash::SaltString;
use argon2::{Algorithm, Argon2, Params, PasswordHasher, Version};
use rand::RngCore;
use sha2::{Digest, Sha256};
use vstd::prelude::*;
use vstd::utf8::{decode_utf8, valid_utf8};
use zeroize::Zeroizing;

verus! {

/// Longest plaintext that AES-GCM accepts, in bytes.
pub const AES_GCM_MAX_PLAINTEXT: u64 = 0x10_0000_0000;

#[verifier::external_type_specification]
#[verifier::external_body]
pub struct ExAeadError(aes_gcm::Error);

#[verifier::external_type_specification]
#[verifier::external_body]
pub struct ExArgon2Error(argon2::Error);

#[verifier::external_type_specification]
#[verifier::external_body]
pub struct ExPasswordHashError(argon2::password_hash::Error);

#[verifier::external_type_specification]
#[verifier::external_body]
pub struct ExRandError(rand::Error);

#[verifier::external_type_specification]
#[verifier::external_body]
pub struct ExDecodeError(base64::DecodeError);

#[verifier::external_type_specification]
#[verifier::external_body]
pub struct ExFromUtf8Error(std::string::FromUtf8Error);

/// A 256-bit key held in zeroize's `Zeroizing`, which overwrites it with zeros when the
/// value is dropped, on every path. Verus cannot declare `Zeroizing` itself (its type
/// parameter is bound by an outside trait), so the container is held here, out of sight.
#[verifier::external_body]
pub struct SecretKey {
    inner: Zeroizing<[u8; 32]>,
}

/// The AES-256-GCM ciphertext (with its 16-byte tag appended) of a plaintext under a
/// key and a nonce, with no associated data.
pub uninterp spec fn aes256gcm_seal(key: Seq<u8>, nonce: Seq<u8>, plaintext: Seq<u8>) -> Seq<u8>;

/// The SHA-256 digest of a byte string.
pub uninterp spec fn sha256_of(data: Seq<u8>) -> Seq<u8>;

/// The 32-byte Argon2id (version 0x13) output for the given costs, password and salt,
/// or `None` where argon2 refuses those inputs.
pub uninterp spec fn argon2id_output(
    m_cost: u32,
    t_cost: u32,
    p_cost: u32,
    password: Seq<u8>,
    salt: Seq<u8>,
) -> Option<Seq<u8>>;

/// The inputs that argon2 hashes: costs in range (at least 8 KiB per lane, one pass, one
/// to 2^24 - 1 lanes), a password of at most `u32::MAX` bytes and a salt of 8 to
/// `u32::MAX` bytes.
pub open spec fn argon2id_accepts(m_cost: u32, t_cost: u32, p_cost: u32, password_len: nat, salt_len: nat) -> bool {
    &&& 8 <= m_cost
    &&& 8 * p_cost <= m_cost
    &&& 1 <= t_cost
    &&& 1 <= p_cost <= 0xFF_FFFF
    &&& password_len <= ARGON2_MAX_INPUT_LEN
    &&& ARGON2_MIN_SALT_LEN <= salt_len <= ARGON2_MAX_INPUT_LEN
}

/// The hash that argon2's password hasher, with its default parameters, computes for a
/// password and a raw salt, or `None` where it yields none.
pub uninterp spec fn argon2_default_output(password: Seq<u8>, salt: Seq<u8>) -> Option<Seq<u8>>;

/// The bytes that the standard base64 alphabet (with padding) decodes a text to, or
/// `None` where the text is not such base64.
pub uninterp spec fn base64_decoded(text: Seq<char>) -> Option<Seq<u8>>;

/// The standard base64 text (with padding) of a byte string.
pub uninterp spec fn base64_encoded(bytes: Seq<u8>) -> Seq<char>;

/// Whether a text is one JSON value, as serde_json parses it.
pub uninterp spec fn is_json_text(text: Seq<char>) -> bool;

/// The bytes of a key held by a `SecretKey`.
pub uninterp spec fn secret_bytes(key: SecretKey) -> Seq<u8>;

/// Relies on aes_gcm's `Aes256Gcm` with `Aead::encrypt`: it refuses plaintexts longer
/// than `P_MAX` and otherwise returns the ciphertext followed by the 16-byte tag.
#[verifier::external_body]
pub(crate) fn aes_gcm_encrypt(key: &[u8; 32], nonce: &[u8; 12], plaintext: &[u8]) -> (r: Result<
    Vec<u8>,
    aes_gcm::Error,
>)
    ensures
        match r {
            Ok(c) => {
                &&& plaintext@.len() <= AES_GCM_MAX_PLAINTEXT
                &&& c@ == aes256gcm_seal(key@, nonce@, plaintext@)
                &&& c@.len() == plaintext@.len() + 16
            },
            Err(_) => plaintext@.len() > AES_GCM_MAX_PLAINTEXT,
        },
{
    let cipher = Aes256Gcm::new(Key::<Aes256Gcm>::from_slice(key));
    cipher.encrypt(Nonce::from_slice(nonce), plaintext)
}

/// Relies on aes_gcm's `Aes256Gcm` with `Aead::decrypt`: it recomputes the tag of the
/// ciphertext and, where it equals the trailing 16 bytes, returns the plaintext that
/// encrypts to exactly this ciphertext; otherwise it fails. The tag is GHASH of the
/// ciphertext masked with the block cipher applied to the nonce block, so on success any
/// sealing under this nonce with the same ciphertext part has the same tag, and no
/// sealing under another 12-byte nonce has the same bytes (the block cipher is a
/// permutation, so the masks differ).
#[verifier::external_body]
pub(crate) fn aes_gcm_decrypt(key: &[u8; 32], nonce: &[u8; 12], ciphertext: &[u8]) -> (r: Result<
    Vec<u8>,
    aes_gcm::Error,
>)
    ensures
        match r {
            Ok(q) => {
                &&& q@.len() + 16 == ciphertext@.len()
                &&& q@.len() <= AES_GCM_MAX_PLAINTEXT ==> aes256gcm_seal(key@, nonce@, q@)
                    == ciphertext@
                &&& forall|p: Seq<u8>|
                    p.len() <= AES_GCM_MAX_PLAINTEXT && #[trigger] aes256gcm_seal(key@, nonce@, p)
                        == ciphertext@ ==> p == q@
                &&& forall|p: Seq<u8>|
                    p.len() <= AES_GCM_MAX_PLAINTEXT && #[trigger] aes256gcm_seal(key@, nonce@, p).len()
                        == ciphertext@.len() && aes256gcm_seal(key@, nonce@, p).subrange(
                        0,
                        ciphertext@.len() - 16,
                    ) == ciphertext@.subrange(0, ciphertext@.len() - 16) ==> aes256gcm_seal(
                        key@,
                        nonce@,
                        p,
                    ) == ciphertext@
                &&& forall|n: Seq<u8>, p: Seq<u8>|
                    n.len() == 12 && n != nonce@ && p.len() <= AES_GCM_MAX_PLAINTEXT
                        ==> #[trigger] aes256gcm_seal(key@, n, p) != ciphertext@
            },
            Err(_) => forall|p: Seq<u8>|
                p.len() <= AES_GCM_MAX_PLAINTEXT ==> #[trigger] aes256gcm_seal(key@, nonce@, p)
                    != ciphertext@,
        },
{
    let cipher = Aes256Gcm::new(Key::<Aes256Gcm>::from_slice(key));
    cipher.decrypt(Nonce::from_slice(nonce), ciphertext)
}

/// Relies on sha2's `Sha256::digest`.
#[verifier::external_body]
pub(crate) fn sha256(data: &[u8]) -> (r: [u8; 32])
    ensures
        r@ == sha256_of(data@),
{
    let mut out = [0u8; 32];
    out.copy_from_slice(&Sha256::digest(data));
    out
}

/// Relies on argon2's `Params::new` and `Argon2::hash_password_into` with Argon2id,
/// version 0x13, and a 32-byte output; both are deterministic in their inputs. They fail
/// only for costs out of range, a password over `u32::MAX` bytes, or a salt under 8 or
/// over `u32::MAX` bytes. `Params::new` computes `p_cost * 8` in `u32` before it checks
/// the lane limit, so a lane count of 2^29 or more would overflow (and panic where
/// overflow is checked); lane counts above argon2's limit of 2^24 - 1 are left out.
#[verifier::external_body]
pub(crate) fn argon2id_hash(
    m_cost: u32,
    t_cost: u32,
    p_cost: u32,
    password: &[u8],
    salt: &[u8],
) -> (r: Result<[u8; 32], argon2::Error>)
    requires
        p_cost <= 0xFF_FFFF,
    ensures
        match r {
            Ok(k) => argon2id_output(m_cost, t_cost, p_cost, password@, salt@) == Some(k@),
            Err(_) => {
                &&& argon2id_output(m_cost, t_cost, p_cost, password@, salt@) is None
                &&& !argon2id_accepts(m_cost, t_cost, p_cost, password@.len(), salt@.len())
            },
        },
{
    let mut out = [0u8; 32];
    let params = Params::new(m_cost, t_cost, p_cost, Some(out.len()))?;
    Argon2::new(Algorithm::Argon2id, Version::V0x13, params).hash_password_into(password, salt, &mut out)?;
    Ok(out)
}

/// Shortest salt that argon2 accepts, in bytes.
pub const ARGON2_MIN_SALT_LEN: usize = 8;

/// Longest raw salt whose B64 form fits a `SaltString` (64 characters), in bytes.
pub const ARGON2_MAX_B64_SALT_LEN: usize = 48;

/// Longest password or salt that argon2 accepts, in bytes.
pub const ARGON2_MAX_INPUT_LEN: usize = 0xFFFF_FFFF;

/// Relies on argon2's `SaltString::encode_b64` for the raw salt and on
/// `PasswordHasher::hash_password` of `Argon2::default()`; the result is the hash field
/// of the password hash, as bytes. A salt under 3 bytes would make `hash_password`
/// panic (its B64 form is under the 4 characters a `Salt` needs), and argon2 refuses
/// salts under 8 bytes anyway, so those are left out. With the default parameters it
/// fails only where the B64 form of the salt exceeds 64 characters (over 48 bytes) or the
/// password exceeds `u32::MAX` bytes; the default output is 32 bytes.
#[verifier::external_body]
pub(crate) fn argon2_default_hash(password: &[u8], salt: &[u8]) -> (r: Result<
    Option<Vec<u8>>,
    argon2::password_hash::Error,
>)
    requires
        salt@.len() >= ARGON2_MIN_SALT_LEN,
    ensures
        match r {
            Ok(Some(h)) => argon2_default_output(password@, salt@) == Some(h@) && h@.len() == 32,
            _ => {
                &&& argon2_default_output(password@, salt@) is None
                &&& salt@.len() > ARGON2_MAX_B64_SALT_LEN || password@.len() > ARGON2_MAX_INPUT_LEN
            },
        },
{
    let salt_string = SaltString::encode_b64(salt)?;
    let hash = Argon2::default().hash_password(password, &salt_string)?;
    Ok(hash.hash.map(|h| h.as_bytes().to_vec()))
}

/// Relies on `RngCore::try_fill_bytes` of the operating system's random source
/// (`OsRng`): it overwrites the buffer in place, keeping its length.
#[verifier::external_body]
pub(crate) fn fill_random(buf: &mut [u8]) -> (r: Result<(), rand::Error>)
    ensures
        final(buf)@.len() == old(buf)@.len(),
{
    OsRng.try_fill_bytes(buf)
}

/// Relies on whoami's `username`: the name of the current OS account.
#[verifier::external_body]
pub(crate) fn os_username() -> (r: String) {
    whoami::username()
}

/// Relies on base64's `STANDARD` engine and `Engine::decode`.
#[verifier::external_body]
pub(crate) fn base64_decode(text: &str) -> (r: Result<Vec<u8>, base64::DecodeError>)
    ensures
        match r {
            Ok(b) => base64_decoded(text@) == Some(b@),
            Err(_) => base64_decoded(text@) is None,
        },
{
    STANDARD.decode(text)
}

/// Relies on base64's `STANDARD` engine and `Engine::encode`.
#[verifier::external_body]
pub(crate) fn base64_encode(bytes: &[u8]) -> (r: String)
    ensures
        r@ == base64_encoded(bytes@),
{
    STANDARD.encode(bytes)
}

/// Relies on `serde_json::from_str` into a `serde_json::Value`: whether it parses.
#[verifier::external_body]
pub(crate) fn parses_as_json(text: &str) -> (r: bool)
    ensures
        r == is_json_text(text@),
{
    serde_json::from_str::<serde_json::Value>(text).is_ok()
}

/// Relies on `String::from_utf8`: the text that the bytes encode, or an error where they
/// are not UTF-8.
#[verifier::external_body]
pub(crate) fn utf8_string(bytes: Vec<u8>) -> (r: Result<String, std::string::FromUtf8Error>)
    ensures
        match r {
            Ok(s) => valid_utf8(bytes@) && s@ == decode_utf8(bytes@),
            Err(_) => !valid_utf8(bytes@),
        },
{
    String::from_utf8(bytes)
}

impl SecretKey {
    /// Relies on zeroize's `Zeroizing::new`: the container holds the key and wipes it
    /// when dropped.
    #[verifier::external_body]
    pub(crate) fn new(key: [u8; 32]) -> (r: SecretKey)
        ensures
            secret_bytes(r) == key@,
    {
        SecretKey { inner: Zeroizing::new(key) }
    }

    /// Relies on `Deref` of zeroize's `Zeroizing`: a reference to the held key.
    #[verifier::external_body]
    pub(crate) fn bytes(&self) -> (r: &[u8; 32])
        ensures
            r@ == secret_bytes(*self),
    {
        &self.inner
    }

    /// A copy of the key bytes. Unlike the key itself, the copy is not wiped on drop.
    pub fn to_bytes(&self) -> (r: [u8; 32])
        ensures
            r@ == secret_bytes(*self),
    {
        *self.bytes()
    }
}

} // verus!
