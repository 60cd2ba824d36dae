//! Import and export of configuration files. An export is a JSON text sealed in a
//! password envelope and written as base64; an import also accepts the plain JSON of
//! old exports and the legacy format (base64 of the JSON XOR-ed with the password).

use crate::error::CryptoError;
use crate::format::{has_tag_at, is_encrypted_with_salt, FormatVersion, SALT_SIZE};
use crate::envelope::sealed_envelope;
use crate::password::{
    decrypt_with_password, password_key, password_open_result, seal_with_salt_and_nonce,
    sealed_with_password, strong_password, validate_password_strength,
};
use crate::primitives::{
    base64_decode, base64_decoded, base64_encode, base64_encoded, fill_random, is_json_text,
    parses_as_json, utf8_string, AES_GCM_MAX_PLAINTEXT, ARGON2_MAX_INPUT_LEN,
};
use vstd::prelude::*;
use vstd::slice::slice_to_vec;
use vstd::string::*;
use vstd::utf8::{decode_utf8, valid_utf8};

verus! {

/// Why a configuration file could not be imported or exported.
#[derive(Debug)]
pub enum ConfigError {
    /// The file is empty.
    EmptyFile,
    /// The password envelope did not open.
    Decryption(CryptoError),
    /// Sealing the export failed.
    Encryption(CryptoError),
    /// An unsealed file is not UTF-8 text.
    FileEncoding,
    /// A legacy file is not base64.
    Base64,
    /// A legacy file needs a non-empty password to be decoded.
    EmptyPassword,
    /// The opened or decoded bytes are not UTF-8 text.
    DecodedNotUtf8,
    /// The text is not JSON.
    NotJson,
}

/// The Unicode `White_Space` characters.
pub open spec fn is_whitespace(c: char) -> bool {
    ||| '\u{9}' <= c && c <= '\u{d}'
    ||| c == ' '
    ||| c == '\u{85}'
    ||| c == '\u{a0}'
    ||| c == '\u{1680}'
    ||| '\u{2000}' <= c && c <= '\u{200a}'
    ||| c == '\u{2028}'
    ||| c == '\u{2029}'
    ||| c == '\u{202f}'
    ||| c == '\u{205f}'
    ||| c == '\u{3000}'
}

/// `s` without its leading whitespace.
pub open spec fn trim_start_of(s: Seq<char>) -> Seq<char>
    decreases s.len(),
{
    if s.len() > 0 && is_whitespace(s[0]) {
        trim_start_of(s.drop_first())
    } else {
        s
    }
}

/// `s` without its trailing whitespace.
pub open spec fn trim_end_of(s: Seq<char>) -> Seq<char>
    decreases s.len(),
{
    if s.len() > 0 && is_whitespace(s.last()) {
        trim_end_of(s.drop_last())
    } else {
        s
    }
}

/// Whether `c` is Unicode `White_Space`.
pub fn is_whitespace_char(c: char) -> (r: bool)
    ensures
        r == is_whitespace(c),
{
    ('\u{9}' <= c && c <= '\u{d}') || c == ' ' || c == '\u{85}' || c == '\u{a0}' || c == '\u{1680}'
        || ('\u{2000}' <= c && c <= '\u{200a}') || c == '\u{2028}' || c == '\u{2029}' || c
        == '\u{202f}' || c == '\u{205f}' || c == '\u{3000}'
}

/// `s` without its leading whitespace.
pub fn trim_start(s: &str) -> (r: &str)
    ensures
        r@ == trim_start_of(s@),
{
    let n = s.unicode_len();
    let mut i: usize = 0;
    assert(s@.subrange(0, n as int) =~= s@);
    loop
        invariant
            n == s@.len(),
            i <= n,
            trim_start_of(s@.subrange(i as int, n as int)) == trim_start_of(s@),
        ensures
            i <= n,
            trim_start_of(s@.subrange(i as int, n as int)) == trim_start_of(s@),
            i == n || !is_whitespace(s@[i as int]),
        decreases n - i,
    {
        if i == n || !is_whitespace_char(s.get_char(i)) {
            break;
        }
        assert(s@.subrange(i as int, n as int).drop_first() =~= s@.subrange(i + 1, n as int));
        i = i + 1;
    }
    s.substring_char(i, n)
}

/// `s` without its trailing whitespace.
pub fn trim_end(s: &str) -> (r: &str)
    ensures
        r@ == trim_end_of(s@),
{
    let n = s.unicode_len();
    let mut j: usize = n;
    assert(s@.subrange(0, n as int) =~= s@);
    loop
        invariant
            n == s@.len(),
            j <= n,
            trim_end_of(s@.subrange(0, j as int)) == trim_end_of(s@),
        ensures
            j <= n,
            trim_end_of(s@.subrange(0, j as int)) == trim_end_of(s@),
            j == 0 || !is_whitespace(s@[j - 1]),
        decreases j,
    {
        if j == 0 || !is_whitespace_char(s.get_char(j - 1)) {
            break;
        }
        assert(s@.subrange(0, j as int).drop_last() =~= s@.subrange(0, j - 1));
        j = j - 1;
    }
    s.substring_char(0, j)
}

/// `data` XOR-ed with `key` repeated over its length.
pub open spec fn xor_cycle(data: Seq<u8>, key: Seq<u8>) -> Seq<u8> {
    Seq::new(data.len(), |i: int| data[i] ^ key[i % (key.len() as int)])
}

/// Whether a text is, after leading whitespace, a JSON object.
pub open spec fn looks_like_json_object(text: Seq<char>) -> bool {
    trim_start_of(text).len() > 0 && trim_start_of(text)[0] == '{'
}

/// `content` holds a version tag after a salt: a password envelope.
pub open spec fn is_sealed_config(content: Seq<u8>) -> bool {
    has_tag_at(content, SALT_SIZE as int, FormatVersion::V1) || has_tag_at(
        content,
        SALT_SIZE as int,
        FormatVersion::V2,
    )
}

/// The outcome of reading `bytes` as the JSON text of a configuration.
pub open spec fn json_text_result(bytes: Seq<u8>, r: Result<String, ConfigError>) -> bool {
    if !valid_utf8(bytes) {
        r matches Err(ConfigError::DecodedNotUtf8)
    } else if !is_json_text(decode_utf8(bytes)) {
        r matches Err(ConfigError::NotJson)
    } else {
        r matches Ok(s) && s@ == decode_utf8(bytes)
    }
}

/// The outcome of decoding the legacy text `text` with `password`: base64 of the
/// trimmed text, XOR-ed with the password's bytes.
pub open spec fn legacy_result(text: Seq<char>, password: Seq<u8>, r: Result<Vec<u8>, ConfigError>) -> bool {
    match base64_decoded(trim_end_of(trim_start_of(text))) {
        None => r matches Err(ConfigError::Base64),
        Some(b) => if b.len() > 0 && password.len() == 0 {
            r matches Err(ConfigError::EmptyPassword)
        } else {
            r matches Ok(p) && p@ == xor_cycle(b, password)
        },
    }
}

/// The outcome of importing the file `content` with `password`.
pub open spec fn import_result(content: Seq<u8>, password: &str, r: Result<String, ConfigError>) -> bool {
    if content.len() == 0 {
        r matches Err(ConfigError::EmptyFile)
    } else if is_sealed_config(content) {
        ||| exists|p: Vec<u8>| password_open_result(content, password, Ok(p)) && json_text_result(p@, r)
        ||| r matches Err(ConfigError::Decryption(e)) && password_open_result(content, password, Err(e))
    } else if !valid_utf8(content) {
        r matches Err(ConfigError::FileEncoding)
    } else if looks_like_json_object(decode_utf8(content)) {
        json_text_result(content, r)
    } else {
        ||| exists|p: Vec<u8>|
            legacy_result(decode_utf8(content), password.spec_bytes(), Ok(p)) && json_text_result(p@, r)
        ||| r matches Err(e) && !(e is DecodedNotUtf8 || e is NotJson) && legacy_result(
            decode_utf8(content),
            password.spec_bytes(),
            Err(e),
        )
    }
}

/// `data` XOR-ed with `key` repeated over its length.
pub fn xor_with_key(data: &[u8], key: &[u8]) -> (r: Vec<u8>)
    requires
        key@.len() > 0 || data@.len() == 0,
    ensures
        r@ == xor_cycle(data@, key@),
{
    let mut out: Vec<u8> = Vec::new();
    let mut i: usize = 0;
    while i < data.len()
        invariant
            i <= data@.len(),
            key@.len() > 0 || data@.len() == 0,
            out@ =~= xor_cycle(data@, key@).subrange(0, i as int),
        decreases data@.len() - i,
    {
        out.push(data[i] ^ key[i % key.len()]);
        i = i + 1;
    }
    out
}

/// Whether a text is, after leading whitespace, a JSON object.
pub fn is_json_object_text(text: &str) -> (r: bool)
    ensures
        r == looks_like_json_object(text@),
{
    let rest = trim_start(text);
    if rest.is_empty() {
        return false;
    }
    rest.get_char(0) == '{'
}

/// Decodes the legacy format: base64 of the trimmed text, XOR-ed with the password.
pub fn decode_legacy_config(text: &str, password: &str) -> (r: Result<Vec<u8>, ConfigError>)
    ensures
        legacy_result(text@, password.spec_bytes(), r),
{
    let encoded = trim_end(trim_start(text));
    let decoded = match base64_decode(encoded) {
        Ok(b) => b,
        Err(_) => {
            return Err(ConfigError::Base64);
        },
    };
    let key = password.as_bytes();
    if decoded.len() > 0 && key.len() == 0 {
        return Err(ConfigError::EmptyPassword);
    }
    Ok(xor_with_key(decoded.as_slice(), key))
}

/// Reads bytes as the JSON text of a configuration.
fn json_text(bytes: Vec<u8>) -> (r: Result<String, ConfigError>)
    ensures
        json_text_result(bytes@, r),
{
    let text = match utf8_string(bytes) {
        Ok(s) => s,
        Err(_) => {
            return Err(ConfigError::DecodedNotUtf8);
        },
    };
    if !parses_as_json(text.as_str()) {
        return Err(ConfigError::NotJson);
    }
    Ok(text)
}

/// Imports a configuration file: a password envelope is opened with `password`, a
/// plain JSON object is taken as it is, and anything else is read in the legacy
/// format. The result must be JSON.
pub fn import_config(content: &[u8], password: &str) -> (r: Result<String, ConfigError>)
    ensures
        import_result(content@, password, r),
{
    if content.len() == 0 {
        return Err(ConfigError::EmptyFile);
    }
    if is_encrypted_with_salt(content) {
        let opened = decrypt_with_password(content, password);
        return match opened {
            Ok(p) => json_text(p),
            Err(e) => Err(ConfigError::Decryption(e)),
        };
    }
    let text = match utf8_string(slice_to_vec(content)) {
        Ok(s) => s,
        Err(_) => {
            return Err(ConfigError::FileEncoding);
        },
    };
    if is_json_object_text(text.as_str()) {
        if !parses_as_json(text.as_str()) {
            return Err(ConfigError::NotJson);
        }
        return Ok(text);
    }
    match decode_legacy_config(text.as_str(), password) {
        Ok(p) => json_text(p),
        Err(e) => Err(e),
    }
}

/// Exports a configuration with a given salt and nonce: the JSON text is sealed under
/// `password` and written as base64. JSON text under a strong password always succeeds.
pub fn export_config_with(json: &str, password: &str, salt: &[u8; 16], nonce: &[u8; 12]) -> (r: Result<
    String,
    ConfigError,
>)
    ensures
        !is_json_text(json@) ==> r matches Err(ConfigError::NotJson),
        is_json_text(json@) && !strong_password(password@) ==> r matches Err(
            ConfigError::Encryption(CryptoError::WeakPassword(_)),
        ),
        is_json_text(json@) && strong_password(password@) && password.spec_bytes().len()
            <= ARGON2_MAX_INPUT_LEN && json.spec_bytes().len() <= AES_GCM_MAX_PLAINTEXT ==> (r matches Ok(
            s,
        ) && password_key(password.spec_bytes(), salt@) is Some && s@ == base64_encoded(
            salt@ + sealed_envelope(
                FormatVersion::latest(),
                password_key(password.spec_bytes(), salt@)->Some_0,
                nonce@,
                json.spec_bytes(),
            ),
        )),
        r matches Ok(s) ==> exists|e: Seq<u8>|
            sealed_with_password(json.spec_bytes(), password, e) && s@ == base64_encoded(e),
        is_json_text(json@) ==> match r {
            Ok(_) => true,
            Err(ConfigError::Encryption(err)) => {
                ||| err is WeakPassword && !strong_password(password@)
                ||| strong_password(password@) && (err is KeyDerivationFailed
                    || err is EncryptionFailed)
            },
            Err(_) => false,
        },
{
    if !parses_as_json(json) {
        return Err(ConfigError::NotJson);
    }
    match seal_with_salt_and_nonce(json.as_bytes(), password, salt, nonce) {
        Ok(e) => Ok(base64_encode(e.as_slice())),
        Err(err) => Err(ConfigError::Encryption(err)),
    }
}

/// Exports a configuration: the JSON text is sealed under `password`, with a fresh salt
/// and nonce, and written as base64.
pub fn export_config(json: &str, password: &str) -> (r: Result<String, ConfigError>)
    ensures
        !is_json_text(json@) ==> r matches Err(ConfigError::NotJson),
        is_json_text(json@) ==> match r {
            Ok(s) => exists|e: Seq<u8>|
                sealed_with_password(json.spec_bytes(), password, e) && s@ == base64_encoded(e),
            Err(ConfigError::Encryption(err)) => {
                ||| err is WeakPassword && !strong_password(password@)
                ||| strong_password(password@) && (err is KeyDerivationFailed
                    || err is EncryptionFailed)
            },
            Err(_) => false,
        },
        is_json_text(json@) && !strong_password(password@) ==> r matches Err(
            ConfigError::Encryption(CryptoError::WeakPassword(_)),
        ),
{
    if !parses_as_json(json) {
        return Err(ConfigError::NotJson);
    }
    if let Err(e) = validate_password_strength(password) {
        return Err(ConfigError::Encryption(e));
    }
    let mut salt = [0u8; 16];
    let mut nonce = [0u8; 12];
    if fill_random(&mut salt).is_err() || fill_random(&mut nonce).is_err() {
        return Err(ConfigError::Encryption(CryptoError::EncryptionFailed(String::from_str("随机数源不可用"))));
    }
    export_config_with(json, password, &salt, &nonce)
}

} // verus!
