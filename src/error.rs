use vstd::prelude::*;

verus! {

/// Every way an operation of this library can fail.
#[derive(Clone, Copy, Debug, PartialEq, Eq, Structural)]
pub enum CryptoError {
    /// Argon2id refused its parameters or inputs.
    Argon2,
    /// The HKDF expansion failed.
    Hkdf,
    /// The AEAD seal failed.
    Encrypt,
    /// Authentication failed: wrong key, nonce or associated data, or a
    /// tampered ciphertext, indistinguishably.
    Decrypt,
    /// Text that is not canonical padded base64.
    B64,
    /// A key or nonce of the wrong length.
    KeyLen,
}

/// The description of each error.
pub open spec fn message_of(e: CryptoError) -> Seq<char> {
    match e {
        CryptoError::Argon2 => "argon2 failure"@,
        CryptoError::Hkdf => "hkdf expand failure"@,
        CryptoError::Encrypt => "encrypt failure"@,
        CryptoError::Decrypt => "decrypt failure (bad key/nonce/AAD/ciphertext)"@,
        CryptoError::B64 => "bad base64 input"@,
        CryptoError::KeyLen => "invalid key length"@,
    }
}

impl CryptoError {
    /// A short description that never reveals which check failed inside
    /// decryption.
    pub fn message(&self) -> (r: String)
        ensures
            r@ == message_of(*self),
    {
        let s = match self {
            CryptoError::Argon2 => "argon2 failure",
            CryptoError::Hkdf => "hkdf expand failure",
            CryptoError::Encrypt => "encrypt failure",
            CryptoError::Decrypt => "decrypt failure (bad key/nonce/AAD/ciphertext)",
            CryptoError::B64 => "bad base64 input",
            CryptoError::KeyLen => "invalid key length",
        };
        s.to_owned()
    }
}

} // verus!
