//! Machine-bound envelopes: keys derived from the machine identity and the OS account,
//! with no user input. New data is sealed with the newest version; envelopes of every
//! version open, the version being read from the tag.

use crate::envelope::{
    append_bytes, body_result, body_start, decrypt_data_internal, lemma_sealed_is_well_framed,
    lemma_tampered_body, lemma_tampered_nonce_or_tag, nonce_of,
    open_result, seal_envelope, sealed_envelope,
};
use crate::error::CryptoError;
use crate::format::{
    detect_version_at, is_encrypted, version_at, FormatVersion, AUTH_TAG_LEN, MIN_ENVELOPE_LEN,
    TAG_LEN,
};
use crate::primitives::{
    argon2id_hash, argon2id_output, os_username, secret_bytes, sha256,
    sha256_of, SecretKey, AES_GCM_MAX_PLAINTEXT, ARGON2_MAX_INPUT_LEN, ARGON2_MIN_SALT_LEN,
};
use vstd::prelude::*;
use vstd::slice::slice_to_vec;
use vstd::string::*;
use vstd::utf8::encode_utf8;

verus! {

/// Argon2 memory cost of version 2 machine keys, in KiB (19 MiB).
pub const V2_MEMORY_COST: u32 = 19456;

/// Argon2 passes of version 2 machine keys.
pub const V2_TIME_COST: u32 = 2;

/// Argon2 lanes of version 2 machine keys.
pub const V2_PARALLELISM: u32 = 1;

/// The operating system family, which fixes the placeholder identity of version 1 keys.
#[derive(Clone, Copy, Debug, PartialEq, Eq, Structural)]
pub enum Platform {
    MacOs,
    Windows,
    Linux,
    Other,
}

/// What a machine key is derived from: the machine identity as the platform reports it
/// (`None` where it could not be read) and the name of the OS account.
#[derive(Debug)]
pub struct MachineIdentity {
    pub platform: Platform,
    pub machine_id: Option<String>,
    pub username: String,
}

/// The identity that version 1 stood in for an unreadable machine id, per platform.
pub open spec fn placeholder_id(p: Platform) -> Seq<char> {
    match p {
        Platform::MacOs => "default-mac-id"@,
        Platform::Windows => "default-win-id"@,
        Platform::Linux => "default-linux-id"@,
        Platform::Other => "default-unknown-id"@,
    }
}

/// The machine id that version 1 uses: the real one, else the placeholder.
pub open spec fn v1_machine_id(id: MachineIdentity) -> Seq<char> {
    match id.machine_id {
        Some(m) => m@,
        None => placeholder_id(id.platform),
    }
}

pub open spec fn colon() -> Seq<u8> {
    seq![0x3Au8]
}

/// Input of the version 1 hash: `machine_id ":" username ":" "antigravity-agent-v1"`.
pub open spec fn v1_material(id: MachineIdentity) -> Seq<u8> {
    encode_utf8(v1_machine_id(id)) + colon() + encode_utf8(id.username@) + colon()
        + encode_utf8("antigravity-agent-v1"@)
}

/// Password input of the version 2 hash: `machine_id ":" username`.
pub open spec fn v2_material(machine_id: Seq<char>, username: Seq<char>) -> Seq<u8> {
    encode_utf8(machine_id) + colon() + encode_utf8(username)
}

/// Salt of the version 2 hash: `"antigravity-agent-v2-argon2" ":" machine_id`.
pub open spec fn v2_salt(machine_id: Seq<char>) -> Seq<u8> {
    encode_utf8("antigravity-agent-v2-argon2"@) + colon() + encode_utf8(machine_id)
}

/// The machine id is readable and the version 2 hash inputs are within what argon2
/// takes (`u32::MAX` bytes each).
pub open spec fn v2_inputs_fit(id: MachineIdentity) -> bool {
    match id.machine_id {
        Some(m) => {
            &&& v2_material(m@, id.username@).len() <= ARGON2_MAX_INPUT_LEN
            &&& v2_salt(m@).len() <= ARGON2_MAX_INPUT_LEN
        },
        None => false,
    }
}

/// Every character takes at least one byte in UTF-8.
pub proof fn lemma_utf8_at_least_one_byte_per_char(s: Seq<char>)
    ensures
        encode_utf8(s).len() >= s.len(),
    decreases s.len(),
{
    if s.len() > 0 {
        lemma_utf8_at_least_one_byte_per_char(s.drop_first());
    }
}

/// The version 2 salt is long enough for argon2, whatever the machine id.
pub proof fn lemma_v2_salt_long_enough(machine_id: Seq<char>)
    ensures
        v2_salt(machine_id).len() >= ARGON2_MIN_SALT_LEN,
{
    reveal_strlit("antigravity-agent-v2-argon2");
    lemma_utf8_at_least_one_byte_per_char("antigravity-agent-v2-argon2"@);
}

/// The machine key of version `v` for `id`, or `None` where it cannot be derived.
pub open spec fn machine_key(v: FormatVersion, id: MachineIdentity) -> Option<Seq<u8>> {
    match v {
        FormatVersion::V1 => Some(sha256_of(v1_material(id))),
        FormatVersion::V2 => match id.machine_id {
            Some(m) => argon2id_output(
                V2_MEMORY_COST,
                V2_TIME_COST,
                V2_PARALLELISM,
                v2_material(m@, id.username@),
                v2_salt(m@),
            ),
            None => None,
        },
    }
}

/// The error owed where the key of version `v` cannot be derived for `id`.
pub open spec fn key_failure(v: FormatVersion, id: MachineIdentity, err: CryptoError) -> bool {
    if v == FormatVersion::V2 && id.machine_id is None {
        err is MachineIdError
    } else {
        err is KeyDerivationFailed
    }
}

/// `e` seals `plaintext` in a newest-version envelope under the machine key of `id`.
pub open spec fn sealed_for_machine(plaintext: Seq<u8>, id: MachineIdentity, e: Seq<u8>) -> bool {
    &&& plaintext.len() <= AES_GCM_MAX_PLAINTEXT
    &&& e.len() == MIN_ENVELOPE_LEN + plaintext.len()
    &&& machine_key(FormatVersion::latest(), id) matches Some(k) && e == sealed_envelope(
        FormatVersion::latest(),
        k,
        nonce_of(e),
        plaintext,
    )
}

/// The outcome of opening the machine-bound envelope `e` for `id`: framing errors first,
/// then the key of the version named by the tag, then authentication.
pub open spec fn machine_open_result(e: Seq<u8>, id: MachineIdentity, r: Result<Vec<u8>, CryptoError>) -> bool {
    match version_at(e, 0) {
        None => r matches Err(CryptoError::InvalidData(_)),
        Some(v) => if e.len() < MIN_ENVELOPE_LEN {
            r matches Err(CryptoError::InvalidData(_))
        } else {
            match machine_key(v, id) {
                None => r matches Err(err) && key_failure(v, id, err),
                Some(k) => body_result(e, k, r),
            }
        },
    }
}

impl MachineIdentity {
    /// The identity of the current OS account on this machine, given the machine id that
    /// the platform lookup returned.
    pub fn for_current_user(platform: Platform, machine_id: Option<String>) -> (r: MachineIdentity)
        ensures
            r.platform == platform,
            r.machine_id == machine_id,
    {
        MachineIdentity { platform, machine_id, username: os_username() }
    }
}

impl Platform {
    /// The placeholder identity of version 1 keys on this platform.
    pub fn placeholder_id(self) -> (r: &'static str)
        ensures
            r@ == placeholder_id(self),
    {
        match self {
            Platform::MacOs => "default-mac-id",
            Platform::Windows => "default-win-id",
            Platform::Linux => "default-linux-id",
            Platform::Other => "default-unknown-id",
        }
    }
}

/// Derives the deprecated version 1 key: SHA-256 of the identity, standing in the
/// platform's placeholder for an unreadable machine id. Only decryption of old data
/// uses it.
pub fn derive_machine_key_v1(id: &MachineIdentity) -> (r: SecretKey)
    ensures
        machine_key(FormatVersion::V1, *id) == Some(secret_bytes(r)),
{
    let machine_id: &str = match &id.machine_id {
        Some(m) => m.as_str(),
        None => id.platform.placeholder_id(),
    };
    let mut material: Vec<u8> = Vec::new();
    append_bytes(&mut material, machine_id.as_bytes());
    material.push(0x3Au8);
    append_bytes(&mut material, id.username.as_str().as_bytes());
    material.push(0x3Au8);
    append_bytes(&mut material, "antigravity-agent-v1".as_bytes());
    assert(material@ =~= v1_material(*id));
    SecretKey::new(sha256(material.as_slice()))
}

/// Derives the version 2 key: Argon2id over `machine_id ":" username`, salted with the
/// application salt and the machine id. The machine id must be readable.
pub fn derive_machine_key_v2(id: &MachineIdentity) -> (r: Result<SecretKey, CryptoError>)
    ensures
        match r {
            Ok(k) => machine_key(FormatVersion::V2, *id) == Some(secret_bytes(k)),
            Err(err) => machine_key(FormatVersion::V2, *id) is None && key_failure(
                FormatVersion::V2,
                *id,
                err,
            ),
        },
        v2_inputs_fit(*id) ==> r is Ok,
{
    let machine_id: &str = match &id.machine_id {
        Some(m) => m.as_str(),
        None => {
            return Err(CryptoError::MachineIdError(String::from_str("无法获取机器 ID")));
        },
    };
    let mut material: Vec<u8> = Vec::new();
    append_bytes(&mut material, machine_id.as_bytes());
    material.push(0x3Au8);
    append_bytes(&mut material, id.username.as_str().as_bytes());
    let mut salt: Vec<u8> = Vec::new();
    append_bytes(&mut salt, "antigravity-agent-v2-argon2".as_bytes());
    salt.push(0x3Au8);
    append_bytes(&mut salt, machine_id.as_bytes());
    assert(material@ =~= v2_material(machine_id@, id.username@));
    assert(salt@ =~= v2_salt(machine_id@));
    proof {
        lemma_v2_salt_long_enough(machine_id@);
    }
    match argon2id_hash(
        V2_MEMORY_COST,
        V2_TIME_COST,
        V2_PARALLELISM,
        material.as_slice(),
        salt.as_slice(),
    ) {
        Ok(key) => Ok(SecretKey::new(key)),
        Err(_) => Err(CryptoError::KeyDerivationFailed(String::from_str("Argon2 拒绝了输入"))),
    }
}

/// The version 1 key as a plain array, for callers that hold keys themselves. The copy
/// is not wiped when dropped.
pub fn derive_machine_key(id: &MachineIdentity) -> (r: Result<[u8; 32], CryptoError>)
    ensures
        r matches Ok(k) && machine_key(FormatVersion::V1, *id) == Some(k@),
{
    Ok(derive_machine_key_v1(id).to_bytes())
}

/// Seals `plaintext` to this machine and account with the newest version.
pub fn encrypt_machine_data(plaintext: &[u8], id: &MachineIdentity) -> (r: Result<Vec<u8>, CryptoError>)
    ensures
        match r {
            Ok(e) => sealed_for_machine(plaintext@, *id, e@),
            Err(err) => match machine_key(FormatVersion::latest(), *id) {
                None => key_failure(FormatVersion::latest(), *id, err),
                Some(_) => err is EncryptionFailed,
            },
        },
        plaintext@.len() > AES_GCM_MAX_PLAINTEXT ==> r is Err,
        v2_inputs_fit(*id) ==> machine_key(FormatVersion::latest(), *id) is Some,
{
    let key = derive_machine_key_v2(id)?;
    seal_envelope(plaintext, key.bytes(), FormatVersion::V2)
}

/// Opens a machine-bound envelope of any version, deriving the key that its tag names.
/// Nothing is re-encrypted: upgrading old data is the caller's decision.
pub fn decrypt_machine_data(encrypted: &[u8], id: &MachineIdentity) -> (r: Result<Vec<u8>, CryptoError>)
    ensures
        machine_open_result(encrypted@, *id, r),
{
    let version = match detect_version_at(encrypted, 0) {
        Some(v) => v,
        None => {
            return Err(CryptoError::InvalidData(String::from_str("未知的文件格式或版本")));
        },
    };
    if encrypted.len() < MIN_ENVELOPE_LEN {
        return Err(CryptoError::InvalidData(String::from_str("数据太短")));
    }
    let key = match version {
        FormatVersion::V2 => derive_machine_key_v2(id)?,
        FormatVersion::V1 => derive_machine_key_v1(id),
    };
    decrypt_data_internal(encrypted, key.bytes())
}

/// The content of a backup file as plain bytes: a machine-bound envelope is opened, and
/// anything else (a backup written before encryption) is returned unchanged.
pub fn backup_plaintext(content: &[u8], id: &MachineIdentity) -> (r: Result<Vec<u8>, CryptoError>)
    ensures
        if version_at(content@, 0) is Some {
            machine_open_result(content@, *id, r)
        } else {
            r matches Ok(p) && p@ == content@
        },
{
    if is_encrypted(content) {
        decrypt_machine_data(content, id)
    } else {
        Ok(slice_to_vec(content))
    }
}

/// Whatever `encrypt_machine_data` seals for an identity, `decrypt_machine_data` opens
/// for the same identity to the plaintext it sealed.
pub proof fn lemma_machine_round_trip(
    plaintext: Seq<u8>,
    id: MachineIdentity,
    e: Seq<u8>,
    r: Result<Vec<u8>, CryptoError>,
)
    requires
        sealed_for_machine(plaintext, id, e),
        machine_open_result(e, id, r),
    ensures
        r matches Ok(p) && p@ == plaintext,
{
    let k = machine_key(FormatVersion::latest(), id)->Some_0;
    lemma_sealed_is_well_framed(FormatVersion::latest(), k, plaintext, e);
}

/// An envelope in the legacy format (version 1 tag, key from the fast hash of the
/// identity) still opens with `decrypt_machine_data` for the same identity, without the
/// caller naming the version. The premises are what `encrypt_data` guarantees of what it
/// writes under `derive_machine_key`: the version 1 sealing, 36 bytes longer than the
/// plaintext.
pub proof fn lemma_legacy_envelope_opens(
    plaintext: Seq<u8>,
    id: MachineIdentity,
    e: Seq<u8>,
    r: Result<Vec<u8>, CryptoError>,
)
    requires
        plaintext.len() <= AES_GCM_MAX_PLAINTEXT,
        e.len() == MIN_ENVELOPE_LEN + plaintext.len(),
        e == sealed_envelope(FormatVersion::V1, sha256_of(v1_material(id)), nonce_of(e), plaintext),
        machine_open_result(e, id, r),
    ensures
        r matches Ok(p) && p@ == plaintext,
{
    lemma_sealed_is_well_framed(FormatVersion::V1, sha256_of(v1_material(id)), plaintext, e);
}

/// Flipping one bit in the nonce or in the authentication tag of an envelope sealed to a
/// machine always makes opening for the same identity fail with `DecryptionFailed`;
/// flipping one in the ciphertext never gives the sealed plaintext back, and fails
/// exactly when no plaintext authenticates the altered bytes.
pub proof fn lemma_machine_tampered(
    plaintext: Seq<u8>,
    id: MachineIdentity,
    e: Seq<u8>,
    i: int,
    bit: u8,
    r: Result<Vec<u8>, CryptoError>,
)
    requires
        sealed_for_machine(plaintext, id, e),
        TAG_LEN <= i < e.len(),
        bit < 8,
        machine_open_result(e.update(i, e[i] ^ (1u8 << bit)), id, r),
    ensures
        i < body_start() || e.len() - AUTH_TAG_LEN <= i ==> r matches Err(
            CryptoError::DecryptionFailed(_),
        ),
        r matches Err(err) ==> err is DecryptionFailed,
        r matches Ok(p) ==> p@ != plaintext,
{
    let k = machine_key(FormatVersion::latest(), id)->Some_0;
    let t = e.update(i, e[i] ^ (1u8 << bit));
    lemma_sealed_is_well_framed(FormatVersion::latest(), k, plaintext, e);
    assert(t.subrange(0, TAG_LEN as int) =~= e.subrange(0, TAG_LEN as int));
    crate::format::lemma_tags_disjoint(t, 0);
    assert(version_at(t, 0) == version_at(e, 0));
    assert(open_result(t, k, r));
    if i < body_start() || e.len() - AUTH_TAG_LEN <= i {
        lemma_tampered_nonce_or_tag(FormatVersion::latest(), k, plaintext, e, i, bit, r);
    } else {
        lemma_tampered_body(FormatVersion::latest(), k, plaintext, e, i, bit, r);
    }
}

/// Input shorter than the shortest envelope is `InvalidData`, with a caller's key and
/// with a machine key alike, before any key is derived.
pub proof fn lemma_short_envelope_invalid(
    e: Seq<u8>,
    key: Seq<u8>,
    id: MachineIdentity,
    r_key: Result<Vec<u8>, CryptoError>,
    r_machine: Result<Vec<u8>, CryptoError>,
)
    requires
        e.len() < MIN_ENVELOPE_LEN,
        open_result(e, key, r_key),
        machine_open_result(e, id, r_machine),
    ensures
        r_key matches Err(CryptoError::InvalidData(_)),
        r_machine matches Err(CryptoError::InvalidData(_)),
{
}

} // verus!
