use aes_gcm::aead::{Aead, KeyInit};
use aes_gcm::{Aes256Gcm, Key, Nonce};
use agent_crypto::envelope::seal_with_nonce;
use agent_crypto::password::seal_with_salt_and_nonce;
use agent_crypto::{
    FormatVersion, backup_plaintext, decrypt_data, decrypt_machine_data, decrypt_with_password,
    derive_key_from_password, derive_machine_key, derive_machine_key_v2, encrypt_data,
    encrypt_machine_data, encrypt_with_password, is_encrypted, is_encrypted_with_salt,
    validate_password_strength, CryptoError, MachineIdentity, Platform,
};
use argon2::password_hash::SaltString;
use argon2::{Algorithm, Argon2, Params, PasswordHasher, Version};
use sha2::{Digest, Sha256};

fn identity(machine_id: Option<&str>, username: &str) -> MachineIdentity {
    MachineIdentity {
        platform: Platform::Linux,
        machine_id: machine_id.map(|m| m.to_string()),
        username: username.to_string(),
    }
}

const KEY: [u8; 32] = [7u8; 32];

#[test]
fn key_envelope_round_trip_of_empty_plaintext() {
    let e = encrypt_data(b"", &KEY).unwrap();
    assert_eq!(e.len(), 36);
    assert_eq!(decrypt_data(&e, &KEY).unwrap(), Vec::<u8>::new());
}

#[test]
fn key_envelope_layout_is_tag_nonce_ciphertext() {
    let plaintext = b"layout check";
    let e = encrypt_data(plaintext, &KEY).unwrap();
    assert_eq!(&e[..8], b"AGCRYPT1");
    assert_eq!(e.len(), 8 + 12 + plaintext.len() + 16);
    assert_ne!(&e[20..20 + plaintext.len()], &plaintext[..]);
    let cipher = Aes256Gcm::new(Key::<Aes256Gcm>::from_slice(&KEY));
    let opened = cipher.decrypt(Nonce::from_slice(&e[8..20]), &e[20..]).unwrap();
    assert_eq!(opened, plaintext.to_vec());
}

#[test]
fn two_seals_use_different_nonces() {
    let a = encrypt_data(b"same", &KEY).unwrap();
    let b = encrypt_data(b"same", &KEY).unwrap();
    assert_ne!(&a[8..20], &b[8..20]);
}

#[test]
fn flipped_ciphertext_bit_is_decryption_failure() {
    let e = encrypt_data(b"do not touch", &KEY).unwrap();
    for i in 20..e.len() {
        for bit in 0..8 {
            let mut t = e.clone();
            t[i] ^= 1u8 << bit;
            assert!(matches!(decrypt_data(&t, &KEY), Err(CryptoError::DecryptionFailed(_))));
        }
    }
}

#[test]
fn flipped_password_envelope_bit_is_decryption_failure() {
    let pw = "Correct-Password-1!";
    let e = encrypt_with_password(b"exported settings", pw).unwrap();
    let mut t = e.clone();
    t[16 + 20 + 3] ^= 0x10;
    assert!(matches!(decrypt_with_password(&t, pw), Err(CryptoError::DecryptionFailed(_))));
    let mut t = e.clone();
    let last = t.len() - 1;
    t[last] ^= 0x01;
    assert!(matches!(decrypt_with_password(&t, pw), Err(CryptoError::DecryptionFailed(_))));
}

#[test]
fn wrong_key_is_decryption_failure() {
    let e = encrypt_data(b"secret", &KEY).unwrap();
    let other = [8u8; 32];
    assert!(matches!(decrypt_data(&e, &other), Err(CryptoError::DecryptionFailed(_))));
}

#[test]
fn unknown_tag_is_invalid_data() {
    let mut e = encrypt_data(b"secret", &KEY).unwrap();
    e[7] = b'9';
    assert!(matches!(decrypt_data(&e, &KEY), Err(CryptoError::InvalidData(_))));
    let id = identity(Some("m"), "u");
    assert!(matches!(decrypt_machine_data(&e, &id), Err(CryptoError::InvalidData(_))));
}

#[test]
fn short_buffers_are_invalid_data() {
    let mut short = b"AGCRYPT2".to_vec();
    short.extend_from_slice(&[0u8; 27]);
    assert_eq!(short.len(), 35);
    assert!(matches!(decrypt_data(&short, &KEY), Err(CryptoError::InvalidData(_))));
    let no_id = identity(None, "u");
    assert!(matches!(decrypt_machine_data(&short, &no_id), Err(CryptoError::InvalidData(_))));
    assert!(matches!(decrypt_data(b"AGC", &KEY), Err(CryptoError::InvalidData(_))));
    assert!(matches!(decrypt_data(b"", &KEY), Err(CryptoError::InvalidData(_))));

    let mut short_pw = vec![0u8; 16];
    short_pw.extend_from_slice(b"AGCRYPT1");
    short_pw.extend_from_slice(&[0u8; 27]);
    assert_eq!(short_pw.len(), 51);
    assert!(matches!(
        decrypt_with_password(&short_pw, "Correct-Password-1!"),
        Err(CryptoError::InvalidData(_))
    ));
}

#[test]
fn format_detection() {
    assert!(is_encrypted(b"AGCRYPT1 and more"));
    assert!(is_encrypted(b"AGCRYPT2"));
    assert!(!is_encrypted(b"AGCRYPT"));
    assert!(!is_encrypted(b"AGCRYPT3........"));
    assert!(!is_encrypted(br#"{"accounts": [], "version": 2}"#));
    assert!(!is_encrypted(b""));

    let mut salted = vec![0u8; 16];
    salted.extend_from_slice(b"AGCRYPT2");
    assert!(is_encrypted_with_salt(&salted));
    assert!(!is_encrypted(&salted));
    assert!(!is_encrypted_with_salt(b"AGCRYPT1AGCRYPT1AGCRYPT"));
    assert!(!is_encrypted_with_salt(br#"{"accounts": [], "version": 2, "x": 1}"#));
}

#[test]
fn password_strength_rule() {
    assert!(validate_password_strength("Correct-Password-1!").is_ok());
    assert!(matches!(validate_password_strength("123456"), Err(CryptoError::WeakPassword(_))));
    assert!(validate_password_strength("Abcdefghij1!").is_ok());
    assert!(validate_password_strength("Abcdefghi1!").is_err());
    assert!(validate_password_strength("abcdefghij1!").is_err());
    assert!(validate_password_strength("ABCDEFGHIJ1!").is_err());
    assert!(validate_password_strength("Abcdefghijk!").is_err());
    assert!(validate_password_strength("Abcdefghijk1").is_err());
    assert!(validate_password_strength("Äbcdefghij1x").is_err());
    assert!(validate_password_strength("Abcdefghij1é").is_ok());
}

#[test]
fn weak_password_rejected_and_strong_accepted() {
    assert!(matches!(encrypt_with_password(b"data", "123456"), Err(CryptoError::WeakPassword(_))));
    assert!(encrypt_with_password(b"data", "Correct-Password-1!").is_ok());
}

#[test]
fn weak_password_envelope_still_opens() {
    let salt = [3u8; 16];
    let key = derive_key_from_password("weak", &salt).unwrap();
    let inner = encrypt_data(b"old export", &key.to_bytes()).unwrap();
    let mut e = salt.to_vec();
    e.extend_from_slice(&inner);
    assert_eq!(decrypt_with_password(&e, "weak").unwrap(), b"old export".to_vec());
}

#[test]
fn password_envelope_layout() {
    let e = encrypt_with_password(b"payload", "Correct-Password-1!").unwrap();
    assert_eq!(e.len(), 16 + 36 + 7);
    assert!(is_encrypted_with_salt(&e));
    assert_eq!(&e[16..24], b"AGCRYPT2");
}

#[test]
fn password_key_matches_argon2_default_hash() {
    let salt = [9u8; 16];
    let key = derive_key_from_password("Correct-Password-1!", &salt).unwrap();
    let salt_string = SaltString::encode_b64(&salt).unwrap();
    let hash = Argon2::default()
        .hash_password(b"Correct-Password-1!", &salt_string)
        .unwrap();
    let bytes = hash.hash.unwrap();
    assert_eq!(&key.to_bytes()[..], &bytes.as_bytes()[..32]);
}

#[test]
fn password_key_refuses_too_short_salt() {
    assert!(matches!(
        derive_key_from_password("Correct-Password-1!", &[1u8, 2]),
        Err(CryptoError::KeyDerivationFailed(_))
    ));
}

#[test]
fn v1_key_is_sha256_of_identity() {
    let id = identity(Some("machine-42"), "alice");
    let expected: [u8; 32] = Sha256::digest(b"machine-42:alice:antigravity-agent-v1").into();
    assert_eq!(derive_machine_key(&id).unwrap(), expected);
}

#[test]
fn v1_key_uses_placeholder_without_machine_id() {
    let id = identity(None, "alice");
    let expected: [u8; 32] = Sha256::digest(b"default-linux-id:alice:antigravity-agent-v1").into();
    assert_eq!(derive_machine_key(&id).unwrap(), expected);
    let mac = MachineIdentity { platform: Platform::MacOs, machine_id: None, username: "alice".to_string() };
    let expected_mac: [u8; 32] = Sha256::digest(b"default-mac-id:alice:antigravity-agent-v1").into();
    assert_eq!(derive_machine_key(&mac).unwrap(), expected_mac);
}

#[test]
fn v2_key_is_argon2id_of_identity() {
    let id = identity(Some("machine-42"), "alice");
    let key = derive_machine_key_v2(&id).unwrap();
    let params = Params::new(19456, 2, 1, Some(32)).unwrap();
    let mut expected = [0u8; 32];
    Argon2::new(Algorithm::Argon2id, Version::V0x13, params)
        .hash_password_into(
            b"machine-42:alice",
            b"antigravity-agent-v2-argon2:machine-42",
            &mut expected,
        )
        .unwrap();
    assert_eq!(key.to_bytes(), expected);
}

#[test]
fn v2_needs_machine_id() {
    let id = identity(None, "alice");
    assert!(matches!(derive_machine_key_v2(&id), Err(CryptoError::MachineIdError(_))));
    assert!(matches!(encrypt_machine_data(b"x", &id), Err(CryptoError::MachineIdError(_))));
}

#[test]
fn legacy_envelope_opens_through_machine_path() {
    let id = identity(None, "bob");
    let key = derive_machine_key(&id).unwrap();
    let e = encrypt_data(b"written years ago", &key).unwrap();
    assert_eq!(decrypt_machine_data(&e, &id).unwrap(), b"written years ago".to_vec());
}

#[test]
fn machine_envelope_round_trip_and_binding() {
    let id = identity(Some("machine-42"), "alice");
    let e = encrypt_machine_data(b"{\"k\":1}", &id).unwrap();
    assert_eq!(&e[..8], b"AGCRYPT2");
    assert_eq!(decrypt_machine_data(&e, &id).unwrap(), b"{\"k\":1}".to_vec());
    let other_user = identity(Some("machine-42"), "mallory");
    assert!(matches!(decrypt_machine_data(&e, &other_user), Err(CryptoError::DecryptionFailed(_))));
    let no_id = identity(None, "alice");
    assert!(matches!(decrypt_machine_data(&e, &no_id), Err(CryptoError::MachineIdError(_))));
}

#[test]
fn backup_plaintext_passes_plain_content_through() {
    let id = identity(Some("m"), "u");
    let json = br#"{"account_email": "a@b.c"}"#;
    assert_eq!(backup_plaintext(json, &id).unwrap(), json.to_vec());
    let key = derive_machine_key(&id).unwrap();
    let e = encrypt_data(json, &key).unwrap();
    assert_eq!(backup_plaintext(&e, &id).unwrap(), json.to_vec());
}

#[test]
fn error_messages() {
    let e = CryptoError::InvalidData("数据太短".to_string());
    assert_eq!(e.to_string(), "无效数据: 数据太短");
    assert_eq!(CryptoError::WeakPassword("x".to_string()).to_string(), "密码强度不足: x");
    assert_eq!(CryptoError::DecryptionFailed("x".to_string()).to_string(), "解密失败: x");
    assert_eq!(CryptoError::EncryptionFailed("x".to_string()).to_string(), "加密失败: x");
    assert_eq!(CryptoError::KeyDerivationFailed("x".to_string()).to_string(), "密钥派生失败: x");
    assert_eq!(CryptoError::IoError("x".to_string()).to_string(), "IO错误: x");
    assert_eq!(CryptoError::MachineIdError("x".to_string()).to_string(), "机器ID获取失败: x");
}

#[test]
fn seal_with_nonce_is_exact() {
    let nonce = [5u8; 12];
    let e = seal_with_nonce(b"fixed nonce", &KEY, FormatVersion::V2, &nonce).unwrap();
    assert_eq!(&e[..8], b"AGCRYPT2");
    assert_eq!(&e[8..20], &nonce);
    let cipher = Aes256Gcm::new(Key::<Aes256Gcm>::from_slice(&KEY));
    let expected = cipher.encrypt(Nonce::from_slice(&nonce), &b"fixed nonce"[..]).unwrap();
    assert_eq!(&e[20..], &expected[..]);
    let again = seal_with_nonce(b"fixed nonce", &KEY, FormatVersion::V2, &nonce).unwrap();
    assert_eq!(e, again);
}

#[test]
fn seal_with_salt_and_nonce_layout_and_opening() {
    let salt = [1u8; 16];
    let nonce = [2u8; 12];
    let pw = "Correct-Password-1!";
    let e = seal_with_salt_and_nonce(b"export", pw, &salt, &nonce).unwrap();
    assert_eq!(&e[..16], &salt);
    assert_eq!(&e[16..24], b"AGCRYPT2");
    assert_eq!(&e[24..36], &nonce);
    assert_eq!(e.len(), 16 + 36 + 6);
    assert_eq!(decrypt_with_password(&e, pw).unwrap(), b"export".to_vec());
    assert!(matches!(
        seal_with_salt_and_nonce(b"export", "weak", &salt, &nonce),
        Err(CryptoError::WeakPassword(_))
    ));
}

#[test]
fn flipped_nonce_or_tag_bit_is_decryption_failure() {
    let e = seal_with_nonce(b"bound", &KEY, FormatVersion::V2, &[9u8; 12]).unwrap();
    for i in (8..20).chain(e.len() - 16..e.len()) {
        for bit in 0..8 {
            let mut t = e.clone();
            t[i] ^= 1u8 << bit;
            assert!(matches!(decrypt_data(&t, &KEY), Err(CryptoError::DecryptionFailed(_))));
        }
    }
    let id = identity(Some("machine-42"), "alice");
    let sealed = encrypt_machine_data(b"bound", &id).unwrap();
    let mut t = sealed.clone();
    t[10] ^= 0x04;
    assert!(matches!(decrypt_machine_data(&t, &id), Err(CryptoError::DecryptionFailed(_))));
}
