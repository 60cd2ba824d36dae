use agent_crypto::config::{
    decode_legacy_config, export_config, export_config_with, import_config, trim_end, trim_start, is_json_object_text, xor_with_key,
    ConfigError,
};
use agent_crypto::CryptoError;
use base64::engine::general_purpose::STANDARD;
use base64::Engine;

fn legacy_file(json: &str, password: &str) -> Vec<u8> {
    let key = password.as_bytes();
    let xored: Vec<u8> = json
        .as_bytes()
        .iter()
        .enumerate()
        .map(|(i, b)| b ^ key[i % key.len()])
        .collect();
    STANDARD.encode(xored).into_bytes()
}

#[test]
fn xor_with_key_repeats_the_key() {
    assert_eq!(xor_with_key(&[1, 2, 3], &[0xff]), vec![0xfe, 0xfd, 0xfc]);
    assert_eq!(xor_with_key(&[0x10, 0x20, 0x30, 0x40, 0x50], &[1, 2]), vec![0x11, 0x22, 0x31, 0x42, 0x51]);
    assert_eq!(xor_with_key(&[], &[]), Vec::<u8>::new());
}

#[test]
fn json_object_detection_skips_whitespace() {
    assert!(is_json_object_text("{}"));
    assert!(is_json_object_text(" \t\r\n{\"a\": 1}"));
    assert!(is_json_object_text("\u{3000}{"));
    assert!(!is_json_object_text("[1, 2]"));
    assert!(!is_json_object_text("   "));
    assert!(!is_json_object_text(""));
}

#[test]
fn import_plain_json() {
    let text = "  {\"accounts\": []}\n";
    assert_eq!(import_config(text.as_bytes(), "anything").unwrap(), text);
}

#[test]
fn import_plain_text_that_is_not_json() {
    assert!(matches!(import_config(b"{ broken", "pw"), Err(ConfigError::NotJson)));
}

#[test]
fn import_empty_file() {
    assert!(matches!(import_config(b"", "pw"), Err(ConfigError::EmptyFile)));
}

#[test]
fn import_non_utf8_file() {
    assert!(matches!(import_config(&[0xff, 0xfe, 0x00], "pw"), Err(ConfigError::FileEncoding)));
}

#[test]
fn import_legacy_xor_file() {
    let json = "{\"theme\":\"dark\",\"n\":3}";
    let file = legacy_file(json, "s3cret");
    assert_eq!(import_config(&file, "s3cret").unwrap(), json);
    let mut padded = b"\n ".to_vec();
    padded.extend_from_slice(&file);
    padded.extend_from_slice(b"\r\n");
    assert_eq!(import_config(&padded, "s3cret").unwrap(), json);
}

#[test]
fn import_legacy_with_wrong_password_is_not_json_or_not_utf8() {
    let file = legacy_file("{\"theme\":\"dark\"}", "s3cret");
    let r = import_config(&file, "other!");
    assert!(matches!(r, Err(ConfigError::NotJson) | Err(ConfigError::DecodedNotUtf8)));
}

#[test]
fn import_legacy_not_base64() {
    assert!(matches!(import_config(b"not base64 at all!", "pw"), Err(ConfigError::Base64)));
}

#[test]
fn legacy_decoding_needs_a_password() {
    assert!(matches!(decode_legacy_config("AAEC", ""), Err(ConfigError::EmptyPassword)));
    assert_eq!(decode_legacy_config("AAEC", "\u{1}").unwrap(), vec![1, 0, 3]);
}

#[test]
fn legacy_decoding_to_invalid_utf8() {
    let file = STANDARD.encode([0xffu8 ^ b'k', 0xfe ^ b'k']);
    assert!(matches!(import_config(file.as_bytes(), "k"), Err(ConfigError::DecodedNotUtf8)));
}

#[test]
fn export_then_import_sealed_bytes() {
    let json = "{\"accounts\":[{\"email\":\"a@b.c\"}]}";
    let pw = "Correct-Password-1!";
    let exported = export_config(json, pw).unwrap();
    let sealed = STANDARD.decode(&exported).unwrap();
    assert_eq!(&sealed[16..24], b"AGCRYPT2");
    assert_eq!(import_config(&sealed, pw).unwrap(), json);
    assert!(matches!(
        import_config(&sealed, "Wrong-Password-1!"),
        Err(ConfigError::Decryption(CryptoError::DecryptionFailed(_)))
    ));
}

#[test]
fn export_refuses_non_json_and_weak_passwords() {
    assert!(matches!(export_config("not json", "Correct-Password-1!"), Err(ConfigError::NotJson)));
    assert!(matches!(
        export_config("{}", "123456"),
        Err(ConfigError::Encryption(CryptoError::WeakPassword(_)))
    ));
}

#[test]
fn export_with_given_salt_and_nonce_is_deterministic() {
    let json = "{\"a\":[1,2,3]}";
    let pw = "Correct-Password-1!";
    let salt = [4u8; 16];
    let nonce = [6u8; 12];
    let a = export_config_with(json, pw, &salt, &nonce).unwrap();
    let b = export_config_with(json, pw, &salt, &nonce).unwrap();
    assert_eq!(a, b);
    let sealed = STANDARD.decode(&a).unwrap();
    assert_eq!(&sealed[..16], &salt);
    assert_eq!(&sealed[24..36], &nonce);
    assert_eq!(import_config(&sealed, pw).unwrap(), json);
    assert!(matches!(export_config_with("nope", pw, &salt, &nonce), Err(ConfigError::NotJson)));
}

#[test]
fn trimming_removes_unicode_whitespace() {
    assert_eq!(trim_start(" \t\u{3000}a b "), "a b ");
    assert_eq!(trim_end(" a b\u{2028}\r\n"), " a b");
    assert_eq!(trim_start("   "), "");
    assert_eq!(trim_end(""), "");
    assert_eq!(trim_end(trim_start("\u{a0}x\u{85}")), "x");
}
