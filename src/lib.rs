//! Versioned encryption envelopes for local application data.
//!
//! Data is sealed either to a key bound to the machine and the OS account, or to a key
//! stretched from a password, and framed as `[version tag][nonce][ciphertext + tag]`
//! (password envelopes carry a random salt in front). Every version that was ever
//! written stays readable; new data is always written with the newest one.

pub mod config;
pub mod envelope;
pub mod error;
pub mod format;
pub mod machine;
pub mod platform_id;
pub mod password;
pub mod primitives;

pub use envelope::{decrypt_data, encrypt_data};
pub use error::CryptoError;
pub use format::{is_encrypted, is_encrypted_with_salt, FormatVersion};
pub use machine::{
    backup_plaintext, decrypt_machine_data, derive_machine_key, derive_machine_key_v1,
    derive_machine_key_v2, encrypt_machine_data, MachineIdentity, Platform,
};
pub use password::{
    decrypt_with_password, derive_key_from_password, encrypt_with_password,
    validate_password_strength,
};
pub use primitives::SecretKey;
