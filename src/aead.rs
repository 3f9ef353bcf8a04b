use crate::error::CryptoError;
use chacha20poly1305::aead::{Aead, KeyInit};
use vstd::prelude::*;

verus! {

#[verifier::external_type_specification]
#[verifier::external_body]
pub struct ExAeadError(chacha20poly1305::Error);

#[verifier::external_type_specification]
#[verifier::external_body]
pub struct ExRandError(rand::Error);

/// The XChaCha20-Poly1305 ciphertext, tag appended, of a plaintext under a
/// 32-byte key, a 24-byte nonce and associated data.
pub uninterp spec fn xchacha20poly1305_seal(
    key: Seq<u8>,
    nonce: Seq<u8>,
    plaintext: Seq<u8>,
    aad: Seq<u8>,
) -> Seq<u8>;

/// Whether a message of this length stays within the ChaCha20 block counter
/// (fewer than 2^32 - 1 blocks of 64 bytes).
pub open spec fn aead_len_ok(len: nat) -> bool {
    len < 64 * 0xFFFF_FFFF
}

/// Relies on chacha20poly1305's `XChaCha20Poly1305::new` and `Aead::encrypt`:
/// the ciphertext depends on the inputs alone, is the plaintext's length plus
/// a 16-byte tag, and is refused only past the block counter's range.
/// `Key::from_slice` and `XNonce::from_slice` panic on other lengths, which
/// `requires` leaves out.
#[verifier::external_body]
fn xchacha_encrypt(key: &[u8], nonce: &[u8], plaintext: &[u8], aad: &[u8]) -> (r: Result<
    Vec<u8>,
    chacha20poly1305::Error,
>)
    requires
        key@.len() == 32,
        nonce@.len() == 24,
    ensures
        r is Ok <==> aead_len_ok(plaintext@.len()),
        r is Ok ==> r->Ok_0@ == xchacha20poly1305_seal(key@, nonce@, plaintext@, aad@),
        r is Ok ==> r->Ok_0@.len() == plaintext@.len() + 16,
{
    let cipher = chacha20poly1305::XChaCha20Poly1305::new(chacha20poly1305::Key::from_slice(key));
    let payload = chacha20poly1305::aead::Payload { msg: plaintext, aad };
    cipher.encrypt(chacha20poly1305::XNonce::from_slice(nonce), payload)
}

/// Relies on chacha20poly1305's `XChaCha20Poly1305::new` and `Aead::decrypt`:
/// a plaintext is released only after the tag checks, and then sealing it
/// again under the same key, nonce and associated data gives back the
/// ciphertext; a ciphertext that is such a sealing always opens to its
/// plaintext. `Key::from_slice` and `XNonce::from_slice` panic on other
/// lengths, which `requires` leaves out.
#[verifier::external_body]
fn xchacha_decrypt(key: &[u8], nonce: &[u8], ciphertext: &[u8], aad: &[u8]) -> (r: Result<
    Vec<u8>,
    chacha20poly1305::Error,
>)
    requires
        key@.len() == 32,
        nonce@.len() == 24,
    ensures
        r is Ok ==> ciphertext@ == xchacha20poly1305_seal(key@, nonce@, r->Ok_0@, aad@),
        forall|m: Seq<u8>|
            aead_len_ok(m.len()) && #[trigger] xchacha20poly1305_seal(key@, nonce@, m, aad@)
                == ciphertext@ ==> (r is Ok && r->Ok_0@ == m),
{
    let cipher = chacha20poly1305::XChaCha20Poly1305::new(chacha20poly1305::Key::from_slice(key));
    let payload = chacha20poly1305::aead::Payload { msg: ciphertext, aad };
    cipher.decrypt(chacha20poly1305::XNonce::from_slice(nonce), payload)
}

/// Relies on rand's `OsRng` through `RngCore::try_fill_bytes`: 24 bytes from
/// the operating system's secure source, or its error. Nothing is known of
/// the bytes.
#[verifier::external_body]
fn random_nonce() -> (r: Result<[u8; 24], rand::Error>) {
    let mut nonce = [0u8; 24];
    rand::RngCore::try_fill_bytes(&mut rand::rngs::OsRng, &mut nonce)?;
    Ok(nonce)
}

/// A byte result seen as a sequence.
pub open spec fn bytes_view(r: Result<Vec<u8>, CryptoError>) -> Result<Seq<u8>, CryptoError> {
    match r {
        Ok(v) => Ok(v@),
        Err(e) => Err(e),
    }
}

/// A (nonce, ciphertext) result seen as sequences.
pub open spec fn sealed_view(r: Result<(Vec<u8>, Vec<u8>), CryptoError>) -> Result<
    (Seq<u8>, Seq<u8>),
    CryptoError,
> {
    match r {
        Ok(p) => Ok((p.0@, p.1@)),
        Err(e) => Err(e),
    }
}

/// What sealing under a given nonce returns: a key that is not 32 bytes or a
/// nonce that is not 24 bytes is a length error, an oversized plaintext an
/// encryption error, and anything else its XChaCha20-Poly1305 sealing.
pub open spec fn seal_result(key: Seq<u8>, nonce: Seq<u8>, plaintext: Seq<u8>, aad: Seq<u8>) -> Result<
    Seq<u8>,
    CryptoError,
> {
    if key.len() != 32 || nonce.len() != 24 {
        Err(CryptoError::KeyLen)
    } else if !aead_len_ok(plaintext.len()) {
        Err(CryptoError::Encrypt)
    } else {
        Ok(xchacha20poly1305_seal(key, nonce, plaintext, aad))
    }
}

/// What `encrypt_aead` may return, whatever nonce the random source gave: a
/// length error for a key that is not 32 bytes, else an encryption error, or
/// a 24-byte nonce with the sealing under it.
pub open spec fn encrypt_outcome(
    key: Seq<u8>,
    plaintext: Seq<u8>,
    aad: Seq<u8>,
    r: Result<(Seq<u8>, Seq<u8>), CryptoError>,
) -> bool {
    if key.len() != 32 {
        r == Err::<(Seq<u8>, Seq<u8>), CryptoError>(CryptoError::KeyLen)
    } else {
        match r {
            Ok((nonce, ciphertext)) => nonce.len() == 24 && aead_len_ok(plaintext.len())
                && ciphertext == xchacha20poly1305_seal(key, nonce, plaintext, aad),
            Err(e) => e == CryptoError::Encrypt,
        }
    }
}

/// What `decrypt_aead` may return: a length error for a key that is not 32
/// bytes or a nonce that is not 24 bytes; otherwise only a plaintext whose
/// sealing is the ciphertext, or the one undifferentiated decryption error;
/// and a genuine sealing always opens to its plaintext.
pub open spec fn decrypt_outcome(
    key: Seq<u8>,
    nonce: Seq<u8>,
    ciphertext: Seq<u8>,
    aad: Seq<u8>,
    r: Result<Seq<u8>, CryptoError>,
) -> bool {
    if key.len() != 32 || nonce.len() != 24 {
        r == Err::<Seq<u8>, CryptoError>(CryptoError::KeyLen)
    } else {
        &&& match r {
            Ok(plaintext) => ciphertext == xchacha20poly1305_seal(key, nonce, plaintext, aad),
            Err(e) => e == CryptoError::Decrypt,
        }
        &&& forall|m: Seq<u8>|
            aead_len_ok(m.len()) && #[trigger] xchacha20poly1305_seal(key, nonce, m, aad)
                == ciphertext ==> r == Ok::<Seq<u8>, CryptoError>(m)
    }
}

/// Seals a plaintext under a caller-chosen nonce. With a fresh random nonce
/// this is the work of `encrypt_aead`; a fixed nonce gives reproducible
/// output, and must never be used twice with one key.
pub fn seal_with_nonce(key: &[u8], nonce: &[u8], plaintext: &[u8], aad: &[u8]) -> (r: Result<
    Vec<u8>,
    CryptoError,
>)
    ensures
        bytes_view(r) == seal_result(key@, nonce@, plaintext@, aad@),
{
    if key.len() != 32 || nonce.len() != 24 {
        return Err(CryptoError::KeyLen);
    }
    match xchacha_encrypt(key, nonce, plaintext, aad) {
        Ok(ct) => Ok(ct),
        Err(_) => Err(CryptoError::Encrypt),
    }
}

/// Encrypts a plaintext with XChaCha20-Poly1305 under a fresh random 24-byte
/// nonce and the associated data; returns the nonce and the ciphertext with
/// its tag.
pub fn encrypt_aead(k_msg: &[u8], plaintext: &[u8], aad: &[u8]) -> (r: Result<
    (Vec<u8>, Vec<u8>),
    CryptoError,
>)
    ensures
        encrypt_outcome(k_msg@, plaintext@, aad@, sealed_view(r)),
{
    if k_msg.len() != 32 {
        return Err(CryptoError::KeyLen);
    }
    let nonce = match random_nonce() {
        Ok(n) => n,
        Err(_) => return Err(CryptoError::Encrypt),
    };
    match seal_with_nonce(k_msg, nonce.as_slice(), plaintext, aad) {
        Ok(ct) => Ok((vstd::slice::slice_to_vec(nonce.as_slice()), ct)),
        Err(e) => Err(e),
    }
}

/// Decrypts a ciphertext under a key, a nonce and the associated data. Wrong
/// lengths of key or nonce are caller errors (`KeyLen`); any failure of
/// authentication is `Decrypt`, whatever its cause.
pub fn decrypt_aead(k_msg: &[u8], nonce: &[u8], ciphertext: &[u8], aad: &[u8]) -> (r: Result<
    Vec<u8>,
    CryptoError,
>)
    ensures
        decrypt_outcome(k_msg@, nonce@, ciphertext@, aad@, bytes_view(r)),
{
    if k_msg.len() != 32 || nonce.len() != 24 {
        return Err(CryptoError::KeyLen);
    }
    match xchacha_decrypt(k_msg, nonce, ciphertext, aad) {
        Ok(pt) => Ok(pt),
        Err(_) => Err(CryptoError::Decrypt),
    }
}

/// Decrypting what encryption returned, under the same key and associated
/// data, gives back the plaintext.
pub proof fn lemma_round_trip(
    key: Seq<u8>,
    plaintext: Seq<u8>,
    aad: Seq<u8>,
    sealed: Result<(Seq<u8>, Seq<u8>), CryptoError>,
    opened: Result<Seq<u8>, CryptoError>,
)
    requires
        encrypt_outcome(key, plaintext, aad, sealed),
        sealed is Ok,
        decrypt_outcome(key, sealed->Ok_0.0, sealed->Ok_0.1, aad, opened),
    ensures
        opened == Ok::<Seq<u8>, CryptoError>(plaintext),
{
    let nonce = sealed->Ok_0.0;
    let ciphertext = sealed->Ok_0.1;
    assert(xchacha20poly1305_seal(key, nonce, plaintext, aad) == ciphertext);
}

/// Decryption releases no plaintext but a sealed one: whenever it succeeds on
/// a key, nonce, ciphertext and associated data, sealing its output under
/// that same key, nonce and associated data gives back the ciphertext.
pub proof fn lemma_only_sealed_plaintext_released(
    key: Seq<u8>,
    nonce: Seq<u8>,
    ciphertext: Seq<u8>,
    aad: Seq<u8>,
    opened: Result<Seq<u8>, CryptoError>,
)
    requires
        decrypt_outcome(key, nonce, ciphertext, aad, opened),
        opened is Ok,
    ensures
        ciphertext == xchacha20poly1305_seal(key, nonce, opened->Ok_0, aad),
        key.len() == 32 && nonce.len() == 24,
{
}

} // verus!
