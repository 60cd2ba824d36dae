use agent_crypto::{
    decrypt_data, decrypt_machine_data, decrypt_with_password, derive_machine_key,
    derive_machine_key_v1, derive_machine_key_v2, encrypt_data, encrypt_machine_data,
    encrypt_with_password, validate_password_strength, CryptoError, MachineIdentity, Platform,
};

fn test_identity() -> MachineIdentity {
    MachineIdentity::for_current_user(
        Platform::Linux,
        Some("4c4c4544-0042-3510-8051-b4c04f4e4e32".to_string()),
    )
}

#[test]
fn test_machine_key_derivation_v1() {
    let id = test_identity();
    let key1 = derive_machine_key_v1(&id);
    let key2 = derive_machine_key_v1(&id);
    assert_eq!(key1.to_bytes(), key2.to_bytes(), "the same machine gives the same key (V1)");
}

#[test]
fn test_machine_key_derivation_v2() {
    let id = test_identity();
    if let Ok(key1) = derive_machine_key_v2(&id) {
        let key2 = derive_machine_key_v2(&id).unwrap();
        assert_eq!(key1.to_bytes(), key2.to_bytes(), "the same machine gives the same key (V2)");
    } else {
        println!("machine id unavailable, V2 key consistency not checked");
    }
}

#[test]
fn test_encrypt_decrypt_v1_legacy() {
    let id = test_identity();
    let key = derive_machine_key(&id).unwrap();
    let plaintext = b"Hello, World! V1 Legacy";

    let encrypted = encrypt_data(plaintext, &key).unwrap();
    assert!(encrypted.starts_with(b"AGCRYPT1"));

    let decrypted = decrypt_data(&encrypted, &key).unwrap();
    assert_eq!(plaintext.to_vec(), decrypted);
}

#[test]
fn test_encrypt_decrypt_machine_auto() {
    let id = test_identity();
    let plaintext = b"Hello, World! Machine Auto V2";

    if id.machine_id.is_none() {
        return;
    }

    let encrypted = encrypt_machine_data(plaintext, &id).unwrap();
    assert!(encrypted.starts_with(b"AGCRYPT2"));

    let decrypted = decrypt_machine_data(&encrypted, &id).unwrap();
    assert_eq!(plaintext.to_vec(), decrypted);
}

#[test]
fn test_password_encrypt_decrypt() {
    let password = "Test-Password-123!";
    let plaintext = b"Sensitive data here";

    let encrypted = encrypt_with_password(plaintext, password).unwrap();
    let decrypted = decrypt_with_password(&encrypted, password).unwrap();

    assert_eq!(plaintext.to_vec(), decrypted);
}

#[test]
fn test_weak_password() {
    let weak_pass = "123456";
    let result = validate_password_strength(weak_pass);
    assert!(result.is_err());

    let result_enc = encrypt_with_password(b"data", weak_pass);
    assert!(matches!(result_enc, Err(CryptoError::WeakPassword(_))));
}

#[test]
fn test_wrong_password() {
    let plaintext = b"Sensitive data";
    let password = "Correct-Password-1!";
    let encrypted = encrypt_with_password(plaintext, password).unwrap();

    let result = decrypt_with_password(&encrypted, "Wrong-Password-1!");
    assert!(result.is_err());
}

#[test]
fn test_v1_v2_compatibility() {
    let id = test_identity();
    let key_v1 = derive_machine_key_v1(&id);
    let plaintext = b"Data from old version";
    let encrypted_v1 = encrypt_data(plaintext, &key_v1.to_bytes()).unwrap();

    let decrypted = decrypt_machine_data(&encrypted_v1, &id).unwrap();
    assert_eq!(plaintext.to_vec(), decrypted);
}
