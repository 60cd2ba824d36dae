//! Errors of the library.

use vstd::prelude::*;

verus! {

/// Why an operation failed. Each variant carries a human-readable detail.
#[derive(Debug)]
pub enum CryptoError {
    /// The AEAD or the random source refused to seal.
    EncryptionFailed(String),
    /// Authentication failed: wrong key, altered ciphertext, tag or nonce. Which one is
    /// deliberately not told.
    DecryptionFailed(String),
    /// The key derivation function refused its inputs.
    KeyDerivationFailed(String),
    /// Writing or restricting a file or directory failed.
    IoError(String),
    /// The input is too short or carries no known version tag.
    InvalidData(String),
    /// A password for new encryption does not meet the strength rule.
    WeakPassword(String),
    /// The machine identity could not be read.
    MachineIdError(String),
}

impl CryptoError {
    /// The label that opens the message of this kind of error.
    pub open spec fn label_of(&self) -> Seq<char> {
        match self {
            CryptoError::EncryptionFailed(_) => "加密失败: "@,
            CryptoError::DecryptionFailed(_) => "解密失败: "@,
            CryptoError::KeyDerivationFailed(_) => "密钥派生失败: "@,
            CryptoError::IoError(_) => "IO错误: "@,
            CryptoError::InvalidData(_) => "无效数据: "@,
            CryptoError::WeakPassword(_) => "密码强度不足: "@,
            CryptoError::MachineIdError(_) => "机器ID获取失败: "@,
        }
    }

    /// The detail that the error carries.
    pub open spec fn detail_of(&self) -> Seq<char> {
        match self {
            CryptoError::EncryptionFailed(m) => m@,
            CryptoError::DecryptionFailed(m) => m@,
            CryptoError::KeyDerivationFailed(m) => m@,
            CryptoError::IoError(m) => m@,
            CryptoError::InvalidData(m) => m@,
            CryptoError::WeakPassword(m) => m@,
            CryptoError::MachineIdError(m) => m@,
        }
    }

    /// The message shown to a user: the kind's label followed by the detail.
    pub fn to_string(&self) -> (r: String)
        ensures
            r@ == self.label_of() + self.detail_of(),
    {
        let (label, detail) = match self {
            CryptoError::EncryptionFailed(m) => ("加密失败: ", m),
            CryptoError::DecryptionFailed(m) => ("解密失败: ", m),
            CryptoError::KeyDerivationFailed(m) => ("密钥派生失败: ", m),
            CryptoError::IoError(m) => ("IO错误: ", m),
            CryptoError::InvalidData(m) => ("无效数据: ", m),
            CryptoError::WeakPassword(m) => ("密码强度不足: ", m),
            CryptoError::MachineIdError(m) => ("机器ID获取失败: ", m),
        };
        let mut r = String::from_str(label);
        r.append(detail.as_str());
        r
    }
}

} // verus!
