//! The envelope codec: `[version tag][nonce][ciphertext + tag]` under a given key.

use crate::error::CryptoError;
use crate::format::{
    detect_version_at, tag_of, version_at, FormatVersion, AUTH_TAG_LEN, MIN_ENVELOPE_LEN, NONCE_SIZE,
    TAG_LEN,
};
use crate::primitives::{
    aes256gcm_seal, aes_gcm_decrypt, aes_gcm_encrypt, fill_random, AES_GCM_MAX_PLAINTEXT,
};
use vstd::prelude::*;
use vstd::slice::slice_subrange;

verus! {

/// Where the sealed body starts: after the tag and the nonce.
pub open spec fn body_start() -> int {
    TAG_LEN + NONCE_SIZE
}

/// The nonce of an envelope.
pub open spec fn nonce_of(e: Seq<u8>) -> Seq<u8> {
    e.subrange(TAG_LEN as int, body_start())
}

/// The sealed body of an envelope: the ciphertext followed by its authentication tag.
pub open spec fn body_of(e: Seq<u8>) -> Seq<u8> {
    e.subrange(body_start(), e.len() as int)
}

/// The envelope of version `v` that seals `plaintext` under `key` with `nonce`.
pub open spec fn sealed_envelope(
    v: FormatVersion,
    key: Seq<u8>,
    nonce: Seq<u8>,
    plaintext: Seq<u8>,
) -> Seq<u8> {
    tag_of(v) + nonce + aes256gcm_seal(key, nonce, plaintext)
}

/// Whether `e` is long enough and opens with a known tag: the framing that `open` checks
/// before any cryptography.
pub open spec fn well_framed(e: Seq<u8>) -> bool {
    &&& version_at(e, 0) is Some
    &&& e.len() >= MIN_ENVELOPE_LEN
}

/// `plaintext` is what the sealed body of `e` authenticates to under `key`.
pub open spec fn opens_to(e: Seq<u8>, key: Seq<u8>, plaintext: Seq<u8>) -> bool {
    &&& plaintext.len() <= AES_GCM_MAX_PLAINTEXT
    &&& aes256gcm_seal(key, nonce_of(e), plaintext) == body_of(e)
}

/// Some plaintext authenticates under `key`.
pub open spec fn opens(e: Seq<u8>, key: Seq<u8>) -> bool {
    exists|p: Seq<u8>| opens_to(e, key, p)
}

/// Sealing `plaintext` under the nonce of `e` gives the ciphertext part of its body but
/// a different authentication tag.
pub open spec fn tag_only_differs(e: Seq<u8>, key: Seq<u8>, plaintext: Seq<u8>) -> bool {
    let s = aes256gcm_seal(key, nonce_of(e), plaintext);
    &&& plaintext.len() <= AES_GCM_MAX_PLAINTEXT
    &&& s.len() == body_of(e).len()
    &&& s.subrange(0, s.len() - AUTH_TAG_LEN) == body_of(e).subrange(0, s.len() - AUTH_TAG_LEN)
    &&& s != body_of(e)
}

/// The body of `e` is the sealing of `plaintext` under a 12-byte nonce other than the
/// one `e` carries.
pub open spec fn seals_under_other_nonce(e: Seq<u8>, key: Seq<u8>, nonce: Seq<u8>, plaintext: Seq<u8>) -> bool {
    &&& nonce.len() == NONCE_SIZE
    &&& nonce != nonce_of(e)
    &&& plaintext.len() <= AES_GCM_MAX_PLAINTEXT
    &&& aes256gcm_seal(key, nonce, plaintext) == body_of(e)
}

/// The outcome of opening the envelope `e` with `key`, after its tag was recognised:
/// too short is `InvalidData`; otherwise the authenticated plaintext, or
/// `DecryptionFailed` exactly when none authenticates. On success at most one plaintext
/// authenticates, a body whose tag alone differs from a sealing under the same nonce does
/// not, and the body is no sealing under another nonce.
pub open spec fn body_result(e: Seq<u8>, key: Seq<u8>, r: Result<Vec<u8>, CryptoError>) -> bool {
    if e.len() < MIN_ENVELOPE_LEN {
        r matches Err(CryptoError::InvalidData(_))
    } else {
        match r {
            Ok(p) => {
                &&& opens_to(e, key, p@)
                &&& forall|q: Seq<u8>| #[trigger] opens_to(e, key, q) ==> q == p@
                &&& forall|q: Seq<u8>| #[trigger] tag_only_differs(e, key, q) ==> false
                &&& forall|n: Seq<u8>, q: Seq<u8>| #[trigger] seals_under_other_nonce(e, key, n, q) ==> false
            },
            Err(err) => err is DecryptionFailed && !opens(e, key),
        }
    }
}

/// The outcome of `decrypt_data`: unknown tag or too short is `InvalidData`; otherwise
/// as `body_result`.
pub open spec fn open_result(e: Seq<u8>, key: Seq<u8>, r: Result<Vec<u8>, CryptoError>) -> bool {
    if version_at(e, 0) is None {
        r matches Err(CryptoError::InvalidData(_))
    } else {
        body_result(e, key, r)
    }
}

/// Appends `src` to `out`.
pub fn append_bytes(out: &mut Vec<u8>, src: &[u8])
    ensures
        final(out)@ == old(out)@ + src@,
{
    let ghost start = out@;
    let mut i: usize = 0;
    while i < src.len()
        invariant
            i <= src@.len(),
            out@ == start + src@.subrange(0, i as int),
        decreases src@.len() - i,
    {
        out.push(src[i]);
        i = i + 1;
        assert(out@ =~= start + src@.subrange(0, i as int));
    }
    assert(src@.subrange(0, src@.len() as int) =~= src@);
}

/// The 12 bytes of `data` that start at `start`.
fn read_nonce(data: &[u8], start: usize) -> (r: [u8; 12])
    requires
        start + NONCE_SIZE <= data@.len(),
    ensures
        r@ == data@.subrange(start as int, start + NONCE_SIZE),
{
    let mut nonce = [0u8; 12];
    let mut i: usize = 0;
    while i < NONCE_SIZE
        invariant
            start + NONCE_SIZE <= data.len(),
            i <= NONCE_SIZE,
            forall|j: int| 0 <= j < i ==> nonce@[j] == data@[start + j],
        decreases NONCE_SIZE - i,
    {
        nonce[i] = data[start + i];
        i = i + 1;
    }
    assert(nonce@ =~= data@.subrange(start as int, start + NONCE_SIZE));
    nonce
}

/// Seals `plaintext` under `key` with `nonce` in an envelope of version `version`. It
/// succeeds exactly when the plaintext is within the AES-GCM limit.
pub fn seal_with_nonce(
    plaintext: &[u8],
    key: &[u8; 32],
    version: FormatVersion,
    nonce: &[u8; 12],
) -> (r: Result<Vec<u8>, CryptoError>)
    ensures
        plaintext@.len() <= AES_GCM_MAX_PLAINTEXT ==> (r matches Ok(e) && e@ == sealed_envelope(
            version,
            key@,
            nonce@,
            plaintext@,
        ) && e@.len() == MIN_ENVELOPE_LEN + plaintext@.len()),
        plaintext@.len() > AES_GCM_MAX_PLAINTEXT ==> r matches Err(CryptoError::EncryptionFailed(_)),
{
    let ciphertext = match aes_gcm_encrypt(key, nonce, plaintext) {
        Ok(c) => c,
        Err(_) => {
            return Err(CryptoError::EncryptionFailed(String::from_str("aead::Error")));
        },
    };
    let tag = version.tag();
    let mut out: Vec<u8> = Vec::new();
    append_bytes(&mut out, &tag);
    append_bytes(&mut out, nonce);
    append_bytes(&mut out, ciphertext.as_slice());
    assert(out@ =~= sealed_envelope(version, key@, nonce@, plaintext@));
    Ok(out)
}

/// Seals `plaintext` under `key` in an envelope of version `version`, with a fresh random
/// nonce. Only a failing random source or a plaintext over the AES-GCM limit fails.
pub fn seal_envelope(plaintext: &[u8], key: &[u8; 32], version: FormatVersion) -> (r: Result<
    Vec<u8>,
    CryptoError,
>)
    ensures
        match r {
            Ok(e) => {
                &&& e@.len() >= body_start()
                &&& e@ == sealed_envelope(version, key@, nonce_of(e@), plaintext@)
                &&& e@.len() == MIN_ENVELOPE_LEN + plaintext@.len()
                &&& plaintext@.len() <= AES_GCM_MAX_PLAINTEXT
            },
            Err(err) => err is EncryptionFailed,
        },
        plaintext@.len() > AES_GCM_MAX_PLAINTEXT ==> r is Err,
{
    let mut nonce = [0u8; 12];
    if fill_random(&mut nonce).is_err() {
        return Err(CryptoError::EncryptionFailed(String::from_str("随机数源不可用")));
    }
    let r = seal_with_nonce(plaintext, key, version, &nonce);
    assert(r matches Ok(e) ==> nonce_of(e@) =~= nonce@);
    r
}

/// Opens the body of an envelope whose tag was already recognised.
pub(crate) fn decrypt_data_internal(encrypted: &[u8], key: &[u8; 32]) -> (r: Result<Vec<u8>, CryptoError>)
    ensures
        body_result(encrypted@, key@, r),
{
    if encrypted.len() < MIN_ENVELOPE_LEN {
        return Err(CryptoError::InvalidData(String::from_str("数据太短")));
    }
    let nonce = read_nonce(encrypted, TAG_LEN);
    let body = slice_subrange(encrypted, TAG_LEN + NONCE_SIZE, encrypted.len());
    match aes_gcm_decrypt(key, &nonce, body) {
        Ok(p) => {
            if p.len() as u64 > AES_GCM_MAX_PLAINTEXT {
                // No plaintext this long is ever sealed, so nothing authenticates here.
                return Err(CryptoError::DecryptionFailed(String::from_str("aead::Error")));
            }
            Ok(p)
        },
        Err(_) => Err(CryptoError::DecryptionFailed(String::from_str("aead::Error"))),
    }
}

/// Seals `plaintext` under a caller-supplied key in a version 1 envelope, the format of
/// callers that hold a version 1 key themselves (see `derive_machine_key`). The
/// library's own machine-bound and password-based encryption never goes through it:
/// they seal with the newest version.
pub fn encrypt_data(plaintext: &[u8], key: &[u8; 32]) -> (r: Result<Vec<u8>, CryptoError>)
    ensures
        match r {
            Ok(e) => {
                &&& e@.len() >= body_start()
                &&& e@ == sealed_envelope(FormatVersion::V1, key@, nonce_of(e@), plaintext@)
                &&& e@.len() == MIN_ENVELOPE_LEN + plaintext@.len()
                &&& plaintext@.len() <= AES_GCM_MAX_PLAINTEXT
            },
            Err(err) => err is EncryptionFailed,
        },
        plaintext@.len() > AES_GCM_MAX_PLAINTEXT ==> r is Err,
{
    seal_envelope(plaintext, key, FormatVersion::V1)
}

/// Opens an envelope of any known version under a caller-supplied key.
pub fn decrypt_data(encrypted: &[u8], key: &[u8; 32]) -> (r: Result<Vec<u8>, CryptoError>)
    ensures
        open_result(encrypted@, key@, r),
{
    match detect_version_at(encrypted, 0) {
        Some(_) => decrypt_data_internal(encrypted, key),
        None => Err(CryptoError::InvalidData(String::from_str("未知的文件格式"))),
    }
}

/// A sealed envelope is well framed, names its version, and authenticates its plaintext.
pub proof fn lemma_sealed_is_well_framed(
    v: FormatVersion,
    key: Seq<u8>,
    plaintext: Seq<u8>,
    e: Seq<u8>,
)
    requires
        plaintext.len() <= AES_GCM_MAX_PLAINTEXT,
        e.len() == MIN_ENVELOPE_LEN + plaintext.len(),
        e == sealed_envelope(v, key, nonce_of(e), plaintext),
    ensures
        well_framed(e),
        version_at(e, 0) == Some(v),
        opens_to(e, key, plaintext),
{
    let n = nonce_of(e);
    let c = aes256gcm_seal(key, n, plaintext);
    assert(e.subrange(0, TAG_LEN as int) =~= tag_of(v));
    assert(body_of(e) =~= c);
    crate::format::lemma_tags_disjoint(e, 0);
}

/// Opening an envelope with the key that sealed it gives the plaintext back, whichever
/// version its tag names.
pub proof fn lemma_open_sealed(
    v: FormatVersion,
    key: Seq<u8>,
    plaintext: Seq<u8>,
    e: Seq<u8>,
    r: Result<Vec<u8>, CryptoError>,
)
    requires
        plaintext.len() <= AES_GCM_MAX_PLAINTEXT,
        e.len() == MIN_ENVELOPE_LEN + plaintext.len(),
        e == sealed_envelope(v, key, nonce_of(e), plaintext),
        open_result(e, key, r),
    ensures
        r matches Ok(p) && p@ == plaintext,
{
    lemma_sealed_is_well_framed(v, key, plaintext, e);
}

/// Flipping one bit in the ciphertext or the authentication tag of a sealed envelope
/// never gives the sealed plaintext back: opening fails with `DecryptionFailed`
/// exactly when no plaintext authenticates the altered bytes, and anything it returns
/// otherwise is a different plaintext that does authenticate them.
pub proof fn lemma_tampered_body(
    v: FormatVersion,
    key: Seq<u8>,
    plaintext: Seq<u8>,
    e: Seq<u8>,
    i: int,
    bit: u8,
    r: Result<Vec<u8>, CryptoError>,
)
    requires
        plaintext.len() <= AES_GCM_MAX_PLAINTEXT,
        e.len() == MIN_ENVELOPE_LEN + plaintext.len(),
        e == sealed_envelope(v, key, nonce_of(e), plaintext),
        body_start() <= i < e.len(),
        bit < 8,
        open_result(e.update(i, e[i] ^ (1u8 << bit)), key, r),
    ensures
        r is Err <==> !opens(e.update(i, e[i] ^ (1u8 << bit)), key),
        r matches Err(err) ==> err is DecryptionFailed,
        r matches Ok(p) ==> p@ != plaintext && opens_to(e.update(i, e[i] ^ (1u8 << bit)), key, p@),
{
    let x = e[i];
    let y = x ^ (1u8 << bit);
    assert(y != x) by (bit_vector)
        requires
            y == x ^ (1u8 << bit),
            bit < 8,
    ;
    let t = e.update(i, y);
    lemma_sealed_is_well_framed(v, key, plaintext, e);
    assert(t.subrange(0, TAG_LEN as int) =~= e.subrange(0, TAG_LEN as int));
    assert(nonce_of(t) =~= nonce_of(e));
    assert(body_of(t)[i - body_start()] != body_of(e)[i - body_start()]);
    assert(body_of(t) != body_of(e));
    crate::format::lemma_tags_disjoint(t, 0);
}

/// Flipping one bit in the nonce or in the authentication tag of a sealed envelope always
/// makes opening fail with `DecryptionFailed`.
pub proof fn lemma_tampered_nonce_or_tag(
    v: FormatVersion,
    key: Seq<u8>,
    plaintext: Seq<u8>,
    e: Seq<u8>,
    i: int,
    bit: u8,
    r: Result<Vec<u8>, CryptoError>,
)
    requires
        plaintext.len() <= AES_GCM_MAX_PLAINTEXT,
        e.len() == MIN_ENVELOPE_LEN + plaintext.len(),
        e == sealed_envelope(v, key, nonce_of(e), plaintext),
        TAG_LEN <= i < body_start() || e.len() - AUTH_TAG_LEN <= i < e.len(),
        bit < 8,
        open_result(e.update(i, e[i] ^ (1u8 << bit)), key, r),
    ensures
        r matches Err(CryptoError::DecryptionFailed(_)),
{
    let x = e[i];
    let y = x ^ (1u8 << bit);
    assert(y != x) by (bit_vector)
        requires
            y == x ^ (1u8 << bit),
            bit < 8,
    ;
    let t = e.update(i, y);
    lemma_sealed_is_well_framed(v, key, plaintext, e);
    assert(t.subrange(0, TAG_LEN as int) =~= e.subrange(0, TAG_LEN as int));
    crate::format::lemma_tags_disjoint(t, 0);
    let n = nonce_of(e);
    let s = aes256gcm_seal(key, n, plaintext);
    assert(s == body_of(e));
    if i < body_start() {
        assert(body_of(t) =~= body_of(e));
        assert(nonce_of(t)[i - TAG_LEN] != n[i - TAG_LEN]);
        assert(seals_under_other_nonce(t, key, n, plaintext));
    } else {
        assert(nonce_of(t) =~= n);
        let m = s.len() - AUTH_TAG_LEN;
        assert(s.subrange(0, m) =~= body_of(t).subrange(0, m));
        assert(body_of(t)[i - body_start()] != s[i - body_start()]);
        assert(tag_only_differs(t, key, plaintext));
    }
}

} // verus!
