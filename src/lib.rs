//! Key derivation and authenticated encryption for end-to-end encrypted
//! messaging.
//!
//! A low-entropy seed is stretched with Argon2id and bound to a conversation
//! through HKDF-SHA256 (the master key); the master key and a counter give a
//! one-time message key; message keys seal payloads with XChaCha20-Poly1305
//! under a fresh random 24-byte nonce.

pub mod aead;
pub mod boundary;
pub mod error;
pub mod kdf;
pub mod params;

pub use aead::{decrypt_aead, encrypt_aead, seal_with_nonce};
pub use boundary::{decrypt_aead_b64, derive_master_key_b64, derive_message_key_b64, encrypt_aead_b64};
pub use error::CryptoError;
pub use kdf::{derive_master_key, derive_message_key};
pub use params::{params_from_profile, DeviceClass, KdfParams};
