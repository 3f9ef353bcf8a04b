use crate::aead::{decrypt_aead, decrypt_outcome, encrypt_aead, encrypt_outcome};
use crate::error::CryptoError;
use crate::kdf::{derive_master_key, derive_message_key, master_key_result, message_key_result};
use crate::params::{class_of_tag, params_from_profile, KdfParams};
use base64::Engine;
use vstd::prelude::*;
use vstd::string::StringSliceAdditionalSpecFns;

verus! {

#[verifier::external_type_specification]
#[verifier::external_body]
pub struct ExDecodeError(base64::DecodeError);

/// The standard padded base64 text of some bytes.
pub uninterp spec fn base64_of(bytes: Seq<u8>) -> Seq<char>;

/// The text that `String::from_utf8_lossy` makes of some bytes.
pub uninterp spec fn utf8_lossy(bytes: Seq<u8>) -> Seq<char>;

/// Relies on base64's `Engine::encode` with the `STANDARD` engine (standard
/// alphabet, padded): the text depends on the bytes alone.
#[verifier::external_body]
fn b64_encode(bytes: &[u8]) -> (r: String)
    ensures
        r@ == base64_of(bytes@),
{
    base64::engine::general_purpose::STANDARD.encode(bytes)
}

/// Relies on base64's `Engine::decode` with the `STANDARD` engine, whose
/// configuration requires canonical padding and refuses trailing bits: a text
/// decodes exactly when it is the encoding of some bytes, and then to them.
#[verifier::external_body]
fn b64_decode(text: &str) -> (r: Result<Vec<u8>, base64::DecodeError>)
    ensures
        r is Ok ==> base64_of(r->Ok_0@) == text@,
        forall|b: Seq<u8>| #[trigger] base64_of(b) == text@ ==> (r is Ok && r->Ok_0@ == b),
{
    base64::engine::general_purpose::STANDARD.decode(text.as_bytes())
}

/// Relies on std's `String::from_utf8_lossy`: valid UTF-8 is decoded as it
/// is; other bytes give replacement characters.
#[verifier::external_body]
fn lossy_text(bytes: &[u8]) -> (r: String)
    ensures
        r@ == utf8_lossy(bytes@),
        vstd::utf8::valid_utf8(bytes@) ==> r@ == vstd::utf8::decode_utf8(bytes@),
{
    String::from_utf8_lossy(bytes).into_owned()
}

/// Whether a text is the base64 encoding of some bytes.
pub open spec fn is_base64(text: Seq<char>) -> bool {
    exists|b: Seq<u8>| #[trigger] base64_of(b) == text
}

/// A byte result with its bytes written as base64.
pub open spec fn as_base64(r: Result<Seq<u8>, CryptoError>) -> Result<Seq<char>, CryptoError> {
    match r {
        Ok(b) => Ok(base64_of(b)),
        Err(e) => Err(e),
    }
}

/// A text result seen as characters.
pub open spec fn text_view(r: Result<String, CryptoError>) -> Result<Seq<char>, CryptoError> {
    match r {
        Ok(s) => Ok(s@),
        Err(e) => Err(e),
    }
}

/// Derives a master key from a base64 salt and a device-class tag, and
/// returns the key in base64. A salt that is not base64 is `B64`.
pub fn derive_master_key_b64(seed: &str, salt_b64: &str, conv_id: &str, profile: &str) -> (r: Result<
    String,
    CryptoError,
>)
    ensures
        !is_base64(salt_b64@) ==> r == Err::<String, CryptoError>(CryptoError::B64),
        forall|salt: Seq<u8>| #[trigger] base64_of(salt) == salt_b64@ ==> text_view(r) == as_base64(
            master_key_result(
                seed.spec_bytes(),
                salt,
                KdfParams::preset(class_of_tag(profile.spec_bytes())),
                conv_id.spec_bytes(),
            ),
        ),
{
    let salt = match b64_decode(salt_b64) {
        Ok(s) => s,
        Err(_) => return Err(CryptoError::B64),
    };
    match derive_master_key(seed, salt.as_slice(), params_from_profile(profile), conv_id) {
        Ok(km) => Ok(b64_encode(km.as_slice())),
        Err(e) => Err(e),
    }
}

/// Derives the key of message `counter` from a base64 master key and returns
/// it in base64. A master key that is not base64 is `B64`, one that is not
/// 32 bytes long `KeyLen`.
pub fn derive_message_key_b64(km_b64: &str, counter: u32) -> (r: Result<String, CryptoError>)
    ensures
        !is_base64(km_b64@) ==> r == Err::<String, CryptoError>(CryptoError::B64),
        forall|km: Seq<u8>| #[trigger] base64_of(km) == km_b64@ ==> text_view(r) == as_base64(
            message_key_result(km, counter as nat),
        ),
{
    let km = match b64_decode(km_b64) {
        Ok(k) => k,
        Err(_) => return Err(CryptoError::B64),
    };
    match derive_message_key(km.as_slice(), counter as u64) {
        Ok(k) => Ok(b64_encode(k.as_slice())),
        Err(e) => Err(e),
    }
}

/// Encrypts UTF-8 text under a base64 key and returns the nonce and the
/// ciphertext, both in base64. A key that is not base64 is `B64`.
pub fn encrypt_aead_b64(k_b64: &str, plaintext_utf8: &str, aad_utf8: &str) -> (r: Result<
    (String, String),
    CryptoError,
>)
    ensures
        !is_base64(k_b64@) ==> r == Err::<(String, String), CryptoError>(CryptoError::B64),
        forall|key: Seq<u8>| #[trigger] base64_of(key) == k_b64@ ==> match r {
            Ok((n, c)) => exists|nonce: Seq<u8>, ct: Seq<u8>|
                encrypt_outcome(key, plaintext_utf8.spec_bytes(), aad_utf8.spec_bytes(), Ok((nonce, ct)))
                    && n@ == base64_of(nonce) && c@ == base64_of(ct),
            Err(e) => encrypt_outcome(key, plaintext_utf8.spec_bytes(), aad_utf8.spec_bytes(), Err(e)),
        },
{
    let key = match b64_decode(k_b64) {
        Ok(k) => k,
        Err(_) => return Err(CryptoError::B64),
    };
    match encrypt_aead(key.as_slice(), plaintext_utf8.as_bytes(), aad_utf8.as_bytes()) {
        Ok((nonce, ct)) => Ok((b64_encode(nonce.as_slice()), b64_encode(ct.as_slice()))),
        Err(e) => Err(e),
    }
}

/// Decrypts a base64 ciphertext under a base64 key and nonce and returns the
/// plaintext as text, invalid UTF-8 replaced. Text that is not base64 is
/// `B64`.
pub fn decrypt_aead_b64(k_b64: &str, nonce_b64: &str, ct_b64: &str, aad_utf8: &str) -> (r: Result<
    String,
    CryptoError,
>)
    ensures
        !is_base64(k_b64@) || !is_base64(nonce_b64@) || !is_base64(ct_b64@) ==> r == Err::<
            String,
            CryptoError,
        >(CryptoError::B64),
        forall|key: Seq<u8>, nonce: Seq<u8>, ct: Seq<u8>|
            #![trigger base64_of(key), base64_of(nonce), base64_of(ct)]
            base64_of(key) == k_b64@ && base64_of(nonce) == nonce_b64@ && base64_of(ct) == ct_b64@
                ==> match r {
                Ok(text) => exists|pt: Seq<u8>|
                    decrypt_outcome(key, nonce, ct, aad_utf8.spec_bytes(), Ok(pt)) && text@
                        == utf8_lossy(pt),
                Err(e) => decrypt_outcome(key, nonce, ct, aad_utf8.spec_bytes(), Err(e)),
            },
{
    let key = match b64_decode(k_b64) {
        Ok(k) => k,
        Err(_) => return Err(CryptoError::B64),
    };
    let nonce = match b64_decode(nonce_b64) {
        Ok(n) => n,
        Err(_) => return Err(CryptoError::B64),
    };
    let ct = match b64_decode(ct_b64) {
        Ok(c) => c,
        Err(_) => return Err(CryptoError::B64),
    };
    match decrypt_aead(key.as_slice(), nonce.as_slice(), ct.as_slice(), aad_utf8.as_bytes()) {
        Ok(pt) => Ok(lossy_text(pt.as_slice())),
        Err(e) => Err(e),
    }
}

} // verus!
