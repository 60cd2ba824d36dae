//! Byte layout of envelopes, version tags and format detection.

use vstd::prelude::*;

verus! {

/// Length of a version tag.
pub const TAG_LEN: usize = 8;

/// Length of the AEAD nonce that follows the tag.
pub const NONCE_SIZE: usize = 12;

/// Length of the random salt in front of a password envelope.
pub const SALT_SIZE: usize = 16;

/// Length of the authentication tag at the end of the ciphertext.
pub const AUTH_TAG_LEN: usize = 16;

/// Shortest well-formed envelope: tag, nonce and an empty message's authentication tag.
pub const MIN_ENVELOPE_LEN: usize = TAG_LEN + NONCE_SIZE + AUTH_TAG_LEN;

/// Shortest well-formed password envelope: salt in front of the shortest envelope.
pub const MIN_PASSWORD_ENVELOPE_LEN: usize = SALT_SIZE + MIN_ENVELOPE_LEN;

/// The envelope formats, oldest first. Each version fixes its tag and its key derivation.
#[derive(Clone, Copy, Debug, PartialEq, Eq, Structural)]
pub enum FormatVersion {
    /// `AGCRYPT1`: key from a fast hash of the machine identity. Opened for old data;
    /// written only by `encrypt_data`, for callers that hold such a key themselves.
    V1,
    /// `AGCRYPT2`: key from a memory-hard hash, of the machine identity or, after a salt,
    /// of a password. All new machine-bound and password-based data is sealed with it.
    V2,
}

/// The eight ASCII bytes that open an envelope of version `v`.
pub open spec fn tag_of(v: FormatVersion) -> Seq<u8> {
    match v {
        FormatVersion::V1 => seq![0x41u8, 0x47, 0x43, 0x52, 0x59, 0x50, 0x54, 0x31],
        FormatVersion::V2 => seq![0x41u8, 0x47, 0x43, 0x52, 0x59, 0x50, 0x54, 0x32],
    }
}

/// `data` holds the tag of `v` at `offset`.
pub open spec fn has_tag_at(data: Seq<u8>, offset: int, v: FormatVersion) -> bool {
    &&& 0 <= offset
    &&& offset + TAG_LEN <= data.len()
    &&& data.subrange(offset, offset + TAG_LEN) == tag_of(v)
}

/// The version whose tag stands at `offset`, if any.
pub open spec fn version_at(data: Seq<u8>, offset: int) -> Option<FormatVersion> {
    if has_tag_at(data, offset, FormatVersion::V2) {
        Some(FormatVersion::V2)
    } else if has_tag_at(data, offset, FormatVersion::V1) {
        Some(FormatVersion::V1)
    } else {
        None
    }
}

/// The two tags differ, so at most one of them matches at a given offset.
pub proof fn lemma_tags_disjoint(data: Seq<u8>, offset: int)
    ensures
        !(has_tag_at(data, offset, FormatVersion::V1) && has_tag_at(data, offset, FormatVersion::V2)),
{
    if has_tag_at(data, offset, FormatVersion::V1) && has_tag_at(data, offset, FormatVersion::V2) {
        assert(tag_of(FormatVersion::V1)[7] != tag_of(FormatVersion::V2)[7]);
    }
}

/// A buffer whose first byte is not `A` is not taken for an envelope. Every JSON text
/// opens with whitespace, a bracket, a quote, a digit, a minus sign or a literal, so
/// plain JSON is never mistaken for encrypted data.
pub proof fn lemma_plain_json_not_encrypted(data: Seq<u8>)
    requires
        data.len() > 0,
        data[0] != 0x41u8,
    ensures
        !has_tag_at(data, 0, FormatVersion::V1),
        !has_tag_at(data, 0, FormatVersion::V2),
{
    if has_tag_at(data, 0, FormatVersion::V1) {
        assert(data.subrange(0, TAG_LEN as int)[0] == tag_of(FormatVersion::V1)[0]);
    }
    if has_tag_at(data, 0, FormatVersion::V2) {
        assert(data.subrange(0, TAG_LEN as int)[0] == tag_of(FormatVersion::V2)[0]);
    }
}

impl FormatVersion {
    /// The newest version: the only one that new machine-bound data is sealed with.
    pub open spec fn latest() -> FormatVersion {
        FormatVersion::V2
    }

    /// The tag of this version.
    pub fn tag(self) -> (r: [u8; 8])
        ensures
            r@ == tag_of(self),
    {
        match self {
            FormatVersion::V1 => [0x41u8, 0x47, 0x43, 0x52, 0x59, 0x50, 0x54, 0x31],
            FormatVersion::V2 => [0x41u8, 0x47, 0x43, 0x52, 0x59, 0x50, 0x54, 0x32],
        }
    }
}

/// Whether `data` holds the tag of `v` at `offset`.
pub fn tag_matches_at(data: &[u8], offset: usize, v: FormatVersion) -> (r: bool)
    ensures
        r == has_tag_at(data@, offset as int, v),
{
    if data.len() < TAG_LEN || offset > data.len() - TAG_LEN {
        return false;
    }
    let tag = v.tag();
    let mut i: usize = 0;
    while i < TAG_LEN
        invariant
            offset + TAG_LEN <= data.len(),
            tag@ == tag_of(v),
            i <= TAG_LEN,
            forall|j: int| 0 <= j < i ==> data@[offset + j] == tag@[j],
        decreases TAG_LEN - i,
    {
        if data[offset + i] != tag[i] {
            assert(data@.subrange(offset as int, offset + TAG_LEN)[i as int] != tag_of(v)[i as int]);
            return false;
        }
        i = i + 1;
    }
    assert(data@.subrange(offset as int, offset + TAG_LEN) =~= tag_of(v));
    true
}

/// The version whose tag opens `data`, if any.
pub fn detect_version_at(data: &[u8], offset: usize) -> (r: Option<FormatVersion>)
    ensures
        r == version_at(data@, offset as int),
{
    if tag_matches_at(data, offset, FormatVersion::V2) {
        Some(FormatVersion::V2)
    } else if tag_matches_at(data, offset, FormatVersion::V1) {
        Some(FormatVersion::V1)
    } else {
        None
    }
}

/// Whether `data` starts with a known version tag (a machine-bound envelope).
pub fn is_encrypted(data: &[u8]) -> (r: bool)
    ensures
        r == (has_tag_at(data@, 0, FormatVersion::V1) || has_tag_at(data@, 0, FormatVersion::V2)),
{
    tag_matches_at(data, 0, FormatVersion::V1) || tag_matches_at(data, 0, FormatVersion::V2)
}

/// Whether `data` holds a known version tag right after a salt (a password envelope).
pub fn is_encrypted_with_salt(data: &[u8]) -> (r: bool)
    ensures
        r == (has_tag_at(data@, SALT_SIZE as int, FormatVersion::V1) || has_tag_at(
            data@,
            SALT_SIZE as int,
            FormatVersion::V2,
        )),
{
    tag_matches_at(data, SALT_SIZE, FormatVersion::V1) || tag_matches_at(
        data,
        SALT_SIZE,
        FormatVersion::V2,
    )
}

} // verus!
