//! Password-based envelopes for export and import: `[salt][envelope]`, with the key
//! stretched from the password and a random per-envelope salt.

use crate::envelope::{
    append_bytes, body_start, decrypt_data, lemma_sealed_is_well_framed, seal_with_nonce,
    lemma_tampered_body, lemma_tampered_nonce_or_tag, nonce_of, open_result, opens,
    sealed_envelope,
};
use crate::error::CryptoError;
use crate::format::{FormatVersion, AUTH_TAG_LEN, MIN_PASSWORD_ENVELOPE_LEN, SALT_SIZE, TAG_LEN};
use crate::primitives::{
    argon2_default_hash, argon2_default_output, fill_random, secret_bytes, SecretKey,
    AES_GCM_MAX_PLAINTEXT, ARGON2_MAX_B64_SALT_LEN, ARGON2_MAX_INPUT_LEN, ARGON2_MIN_SALT_LEN,
};
use vstd::prelude::*;
use vstd::slice::slice_subrange;
use vstd::string::*;

verus! {

/// Fewest characters a password for new encryption may have.
pub const MIN_PASSWORD_CHARS: usize = 12;

pub open spec fn is_digit(c: char) -> bool {
    '0' <= c && c <= '9'
}

pub open spec fn is_lower(c: char) -> bool {
    'a' <= c && c <= 'z'
}

pub open spec fn is_upper(c: char) -> bool {
    'A' <= c && c <= 'Z'
}

/// Anything but an ASCII letter or digit counts as a symbol.
pub open spec fn is_symbol(c: char) -> bool {
    !is_digit(c) && !is_lower(c) && !is_upper(c)
}

/// The strength rule for passwords of new encryption: at least twelve characters, with a
/// digit, a lowercase letter, an uppercase letter and a symbol among them.
pub open spec fn strong_password(s: Seq<char>) -> bool {
    &&& s.len() >= MIN_PASSWORD_CHARS
    &&& exists|i: int| 0 <= i < s.len() && is_digit(#[trigger] s[i])
    &&& exists|i: int| 0 <= i < s.len() && is_lower(#[trigger] s[i])
    &&& exists|i: int| 0 <= i < s.len() && is_upper(#[trigger] s[i])
    &&& exists|i: int| 0 <= i < s.len() && is_symbol(#[trigger] s[i])
}

/// The 32-byte key taken from a hash: its first 32 bytes, zero-filled if it is shorter.
pub open spec fn key_from_hash(h: Seq<u8>) -> Seq<u8> {
    Seq::new(32, |i: int| if i < h.len() { h[i] } else { 0u8 })
}

/// The key derived from a password (as UTF-8 bytes) and a salt, if the hasher yields one.
pub open spec fn password_key(password: Seq<u8>, salt: Seq<u8>) -> Option<Seq<u8>> {
    match argon2_default_output(password, salt) {
        Some(h) => Some(key_from_hash(h)),
        None => None,
    }
}

/// The salt of a password envelope.
pub open spec fn salt_of(e: Seq<u8>) -> Seq<u8> {
    e.subrange(0, SALT_SIZE as int)
}

/// The envelope inside a password envelope.
pub open spec fn inner_of(e: Seq<u8>) -> Seq<u8> {
    e.subrange(SALT_SIZE as int, e.len() as int)
}

/// `e` is a password envelope that seals `plaintext` under `password`: a salt, then a
/// newest-version envelope under the key derived from the password and that salt.
pub open spec fn sealed_with_password(plaintext: Seq<u8>, password: &str, e: Seq<u8>) -> bool {
    &&& plaintext.len() <= AES_GCM_MAX_PLAINTEXT
    &&& e.len() == MIN_PASSWORD_ENVELOPE_LEN + plaintext.len()
    &&& password_key(password.spec_bytes(), salt_of(e)) matches Some(k) && inner_of(e)
        == sealed_envelope(FormatVersion::latest(), k, nonce_of(inner_of(e)), plaintext)
}

/// The outcome of opening the password envelope `e` with `password`.
pub open spec fn password_open_result(e: Seq<u8>, password: &str, r: Result<Vec<u8>, CryptoError>) -> bool {
    if e.len() < MIN_PASSWORD_ENVELOPE_LEN {
        r matches Err(CryptoError::InvalidData(_))
    } else {
        match password_key(password.spec_bytes(), salt_of(e)) {
            None => r matches Err(CryptoError::KeyDerivationFailed(_)),
            Some(k) => open_result(inner_of(e), k, r),
        }
    }
}

/// Checks the strength rule; only new encryption applies it, never decryption.
pub fn validate_password_strength(password: &str) -> (r: Result<(), CryptoError>)
    ensures
        r is Ok <==> strong_password(password@),
        r matches Err(e) ==> e is WeakPassword,
{
    let n = password.unicode_len();
    if n < MIN_PASSWORD_CHARS {
        return Err(CryptoError::WeakPassword(String::from_str("密码长度必须至少为 12 个字符")));
    }
    let mut has_digit = false;
    let mut has_lower = false;
    let mut has_upper = false;
    let mut has_symbol = false;
    let mut i: usize = 0;
    while i < n
        invariant
            n == password@.len(),
            i <= n,
            has_digit == exists|j: int| 0 <= j < i && is_digit(#[trigger] password@[j]),
            has_lower == exists|j: int| 0 <= j < i && is_lower(#[trigger] password@[j]),
            has_upper == exists|j: int| 0 <= j < i && is_upper(#[trigger] password@[j]),
            has_symbol == exists|j: int| 0 <= j < i && is_symbol(#[trigger] password@[j]),
        decreases n - i,
    {
        let c = password.get_char(i);
        if '0' <= c && c <= '9' {
            has_digit = true;
        } else if 'a' <= c && c <= 'z' {
            has_lower = true;
        } else if 'A' <= c && c <= 'Z' {
            has_upper = true;
        } else {
            has_symbol = true;
        }
        i = i + 1;
    }
    if !(has_digit && has_lower && has_upper && has_symbol) {
        return Err(
            CryptoError::WeakPassword(
                String::from_str("密码必须包含数字、大小写字母和特殊字符"),
            ),
        );
    }
    Ok(())
}

/// Derives the key for a password and a salt with argon2's default password hasher.
/// No strength rule applies here. Salts shorter than argon2 accepts are refused.
pub fn derive_key_from_password(password: &str, salt: &[u8]) -> (r: Result<SecretKey, CryptoError>)
    ensures
        match r {
            Ok(k) => {
                &&& salt@.len() >= ARGON2_MIN_SALT_LEN
                &&& password_key(password.spec_bytes(), salt@) == Some(secret_bytes(k))
            },
            Err(e) => {
                &&& e is KeyDerivationFailed
                &&& salt@.len() < ARGON2_MIN_SALT_LEN || password_key(password.spec_bytes(), salt@) is None
            },
        },
        ARGON2_MIN_SALT_LEN <= salt@.len() <= ARGON2_MAX_B64_SALT_LEN && password.spec_bytes().len()
            <= ARGON2_MAX_INPUT_LEN ==> r is Ok,
{
    if salt.len() < ARGON2_MIN_SALT_LEN {
        return Err(CryptoError::KeyDerivationFailed(String::from_str("salt 太短")));
    }
    let hash = match argon2_default_hash(password.as_bytes(), salt) {
        Ok(Some(h)) => h,
        _ => {
            return Err(CryptoError::KeyDerivationFailed(String::from_str("无法获取哈希值")));
        },
    };
    let mut key = [0u8; 32];
    let n: usize = if hash.len() < 32 { hash.len() } else { 32 };
    let mut i: usize = 0;
    while i < n
        invariant
            n <= 32,
            n <= hash@.len(),
            n == 32 || n == hash@.len(),
            i <= n,
            forall|j: int| 0 <= j < i ==> key@[j] == hash@[j],
            forall|j: int| n <= j < 32 ==> key@[j] == 0u8,
        decreases n - i,
    {
        key[i] = hash[i];
        i = i + 1;
    }
    assert(key@ =~= key_from_hash(hash@));
    Ok(SecretKey::new(key))
}

/// Seals `plaintext` under `password` with a given salt and nonce: checks the strength
/// rule, derives the key and returns the salt followed by a newest-version envelope. A
/// strong password (of at most `u32::MAX` bytes) and a plaintext within the AES-GCM
/// limit always succeed.
pub fn seal_with_salt_and_nonce(
    plaintext: &[u8],
    password: &str,
    salt: &[u8; 16],
    nonce: &[u8; 12],
) -> (r: Result<Vec<u8>, CryptoError>)
    ensures
        !strong_password(password@) ==> r matches Err(CryptoError::WeakPassword(_)),
        strong_password(password@) && password.spec_bytes().len() <= ARGON2_MAX_INPUT_LEN
            && plaintext@.len() <= AES_GCM_MAX_PLAINTEXT ==> (r matches Ok(e) && password_key(
            password.spec_bytes(),
            salt@,
        ) is Some && e@ == salt@ + sealed_envelope(
            FormatVersion::latest(),
            password_key(password.spec_bytes(), salt@)->Some_0,
            nonce@,
            plaintext@,
        )),
        r matches Ok(e) ==> sealed_with_password(plaintext@, password, e@),
        r matches Err(err) ==> {
            ||| err is WeakPassword && !strong_password(password@)
            ||| strong_password(password@) && err is KeyDerivationFailed
                && password.spec_bytes().len() > ARGON2_MAX_INPUT_LEN
            ||| strong_password(password@) && err is EncryptionFailed && plaintext@.len()
                > AES_GCM_MAX_PLAINTEXT
        },
{
    validate_password_strength(password)?;
    let key = derive_key_from_password(password, salt)?;
    let envelope = seal_with_nonce(plaintext, key.bytes(), FormatVersion::V2, nonce)?;
    let mut out: Vec<u8> = Vec::new();
    append_bytes(&mut out, salt);
    append_bytes(&mut out, envelope.as_slice());
    assert(salt_of(out@) =~= salt@);
    assert(inner_of(out@) =~= envelope@);
    assert(nonce_of(envelope@) =~= nonce@);
    Ok(out)
}

/// Seals `plaintext` for export under `password`: checks the strength rule, draws a
/// fresh salt and nonce, and seals with them.
pub fn encrypt_with_password(plaintext: &[u8], password: &str) -> (r: Result<Vec<u8>, CryptoError>)
    ensures
        match r {
            Ok(e) => sealed_with_password(plaintext@, password, e@),
            Err(err) => {
                ||| err is WeakPassword && !strong_password(password@)
                ||| strong_password(password@) && (err is KeyDerivationFailed || err is EncryptionFailed)
            },
        },
        !strong_password(password@) ==> r matches Err(CryptoError::WeakPassword(_)),
        plaintext@.len() > AES_GCM_MAX_PLAINTEXT ==> r is Err,
{
    validate_password_strength(password)?;
    let mut salt = [0u8; 16];
    let mut nonce = [0u8; 12];
    if fill_random(&mut salt).is_err() || fill_random(&mut nonce).is_err() {
        return Err(CryptoError::EncryptionFailed(String::from_str("随机数源不可用")));
    }
    seal_with_salt_and_nonce(plaintext, password, &salt, &nonce)
}

/// Opens a password envelope. The strength rule is not applied, so that data sealed
/// under an older, weaker rule stays readable.
pub fn decrypt_with_password(encrypted: &[u8], password: &str) -> (r: Result<Vec<u8>, CryptoError>)
    ensures
        password_open_result(encrypted@, password, r),
{
    if encrypted.len() < MIN_PASSWORD_ENVELOPE_LEN {
        return Err(CryptoError::InvalidData(String::from_str("数据太短")));
    }
    let salt = slice_subrange(encrypted, 0, SALT_SIZE);
    let inner = slice_subrange(encrypted, SALT_SIZE, encrypted.len());
    let key = derive_key_from_password(password, salt)?;
    decrypt_data(inner, key.bytes())
}

/// Whatever `encrypt_with_password` seals under a password, `decrypt_with_password`
/// opens with the same password to the plaintext it sealed.
pub proof fn lemma_password_round_trip(
    plaintext: Seq<u8>,
    password: &str,
    e: Seq<u8>,
    r: Result<Vec<u8>, CryptoError>,
)
    requires
        sealed_with_password(plaintext, password, e),
        password_open_result(e, password, r),
    ensures
        r matches Ok(p) && p@ == plaintext,
{
    let k = password_key(password.spec_bytes(), salt_of(e))->Some_0;
    lemma_sealed_is_well_framed(FormatVersion::latest(), k, plaintext, inner_of(e));
}

/// Flipping one bit in the ciphertext or the authentication tag of a password envelope
/// never gives the sealed plaintext back: with the right password, opening fails with
/// `DecryptionFailed` exactly when no plaintext authenticates the altered bytes, and
/// anything it returns otherwise is a different plaintext.
pub proof fn lemma_password_tampered_body(
    plaintext: Seq<u8>,
    password: &str,
    e: Seq<u8>,
    i: int,
    bit: u8,
    r: Result<Vec<u8>, CryptoError>,
)
    requires
        sealed_with_password(plaintext, password, e),
        SALT_SIZE + body_start() <= i < e.len(),
        bit < 8,
        password_open_result(e.update(i, e[i] ^ (1u8 << bit)), password, r),
    ensures
        r is Err <==> !opens(
            inner_of(e.update(i, e[i] ^ (1u8 << bit))),
            password_key(password.spec_bytes(), salt_of(e))->Some_0,
        ),
        r matches Err(err) ==> err is DecryptionFailed,
        r matches Ok(p) ==> p@ != plaintext,
{
    let t = e.update(i, e[i] ^ (1u8 << bit));
    let k = password_key(password.spec_bytes(), salt_of(e))->Some_0;
    let inner = inner_of(e);
    let j = i - SALT_SIZE;
    assert(salt_of(t) =~= salt_of(e));
    assert(inner_of(t) =~= inner.update(j, inner[j] ^ (1u8 << bit)));
    lemma_tampered_body(FormatVersion::latest(), k, plaintext, inner, j, bit, r);
}

/// Flipping one bit in the nonce or in the authentication tag of a password envelope
/// always makes opening with the right password fail with `DecryptionFailed`.
pub proof fn lemma_password_tampered_nonce_or_tag(
    plaintext: Seq<u8>,
    password: &str,
    e: Seq<u8>,
    i: int,
    bit: u8,
    r: Result<Vec<u8>, CryptoError>,
)
    requires
        sealed_with_password(plaintext, password, e),
        SALT_SIZE + TAG_LEN <= i < SALT_SIZE + body_start() || e.len() - AUTH_TAG_LEN <= i
            < e.len(),
        bit < 8,
        password_open_result(e.update(i, e[i] ^ (1u8 << bit)), password, r),
    ensures
        r matches Err(CryptoError::DecryptionFailed(_)),
{
    let t = e.update(i, e[i] ^ (1u8 << bit));
    let k = password_key(password.spec_bytes(), salt_of(e))->Some_0;
    let inner = inner_of(e);
    let j = i - SALT_SIZE;
    assert(salt_of(t) =~= salt_of(e));
    assert(inner_of(t) =~= inner.update(j, inner[j] ^ (1u8 << bit)));
    lemma_tampered_nonce_or_tag(FormatVersion::latest(), k, plaintext, inner, j, bit, r);
}

/// Input shorter than the shortest password envelope is `InvalidData`, before any key
/// is derived.
pub proof fn lemma_short_password_envelope_invalid(
    e: Seq<u8>,
    password: &str,
    r: Result<Vec<u8>, CryptoError>,
)
    requires
        e.len() < MIN_PASSWORD_ENVELOPE_LEN,
        password_open_result(e, password, r),
    ensures
        r matches Err(CryptoError::InvalidData(_)),
{
}

} // verus!
