use crate::error::CryptoError;
use crate::params::KdfParams;
use vstd::prelude::*;
use vstd::string::StringSliceAdditionalSpecFns;

verus! {

#[verifier::external_type_specification]
#[verifier::external_body]
pub struct ExArgon2Error(argon2::Error);

#[verifier::external_type_specification]
#[verifier::external_body]
pub struct ExInvalidLength(hkdf::InvalidLength);

/// The 32 bytes of Argon2id (version 0x13) over a password and a salt with the
/// given memory, time and lane costs.
pub uninterp spec fn argon2id_output(
    password: Seq<u8>,
    salt: Seq<u8>,
    m_cost: u32,
    t_cost: u32,
    p_cost: u32,
) -> Seq<u8>;

/// The first 32 bytes of HKDF-SHA256 (no salt) over an input key and an info
/// string.
pub uninterp spec fn hkdf_sha256_output(ikm: Seq<u8>, info: Seq<u8>) -> Seq<u8>;

/// The largest lane count that Argon2 accepts.
pub open spec fn max_lanes() -> u32 {
    0xFF_FFFF
}

/// When Argon2id accepts its costs and its inputs: at least 8 KiB and 8 KiB
/// per lane, at least one pass, between one lane and `max_lanes()`, a password
/// and a salt that fit a 32-bit length, and a salt of at least 8 bytes.
pub open spec fn argon2_accepts(kdf: KdfParams, password_len: nat, salt_len: nat) -> bool {
    &&& kdf.m_cost_kib >= 8
    &&& kdf.m_cost_kib >= 8 * kdf.p_cost
    &&& kdf.t_cost >= 1
    &&& 1 <= kdf.p_cost <= max_lanes()
    &&& password_len <= 0xFFFF_FFFF
    &&& 8 <= salt_len <= 0xFFFF_FFFF
}

/// Relies on argon2's `Params::new`, `Argon2::new` and
/// `Argon2::hash_password_into` (Argon2id, version 0x13, 32 output bytes):
/// the output depends on the inputs alone, and an error comes exactly when
/// `argon2_accepts` fails. `Params::new` multiplies the lane count by 8 in
/// `u32`, so lane counts from 2^29 up are left out.
#[verifier::external_body]
fn argon2id_hash(password: &[u8], salt: &[u8], kdf: KdfParams) -> (r: Result<[u8; 32], argon2::Error>)
    requires
        kdf.p_cost < 0x2000_0000,
    ensures
        r is Ok <==> argon2_accepts(kdf, password@.len(), salt@.len()),
        r is Ok ==> r->Ok_0@ == argon2id_output(password@, salt@, kdf.m_cost_kib, kdf.t_cost, kdf.p_cost),
{
    let params = argon2::Params::new(kdf.m_cost_kib, kdf.t_cost, kdf.p_cost, None)?;
    let argon = argon2::Argon2::new(argon2::Algorithm::Argon2id, argon2::Version::V0x13, params);
    let mut out = [0u8; 32];
    argon.hash_password_into(password, salt, &mut out)?;
    Ok(out)
}

/// Relies on hkdf's `Hkdf::<Sha256>::new` (no salt) and `Hkdf::expand` into a
/// 32-byte buffer: the output depends on the inputs alone, and `expand`
/// refuses only outputs longer than 255 hash lengths.
#[verifier::external_body]
fn hkdf_sha256_expand(ikm: &[u8], info: &[u8]) -> (r: Result<[u8; 32], hkdf::InvalidLength>)
    ensures
        r is Ok,
        r is Ok ==> r->Ok_0@ == hkdf_sha256_output(ikm@, info@),
{
    let mut okm = [0u8; 32];
    hkdf::Hkdf::<sha2::Sha256>::new(None, ikm).expand(info, &mut okm)?;
    Ok(okm)
}

/// Relies on zeroize's `Zeroize` for byte arrays: every byte is overwritten
/// with zero by writes that the compiler keeps.
#[verifier::external_body]
fn wipe(buf: &mut [u8; 32])
    ensures
        final(buf)@ == Seq::new(32, |_i: int| 0u8),
{
    zeroize::Zeroize::zeroize(buf);
}

/// The ASCII decimal digits of `n`, without leading zeros.
pub open spec fn decimal(n: nat) -> Seq<u8>
    decreases n,
{
    if n < 10 {
        seq![(48 + n) as u8]
    } else {
        decimal(n / 10).push((48 + n % 10) as u8)
    }
}

/// The bytes of "emcipher:km:".
pub open spec fn master_key_prefix() -> Seq<u8> {
    seq![101u8, 109, 99, 105, 112, 104, 101, 114, 58, 107, 109, 58]
}

/// The bytes of "emcipher:msg:".
pub open spec fn message_key_prefix() -> Seq<u8> {
    seq![101u8, 109, 99, 105, 112, 104, 101, 114, 58, 109, 115, 103, 58]
}

/// The HKDF info that binds a master key to a conversation.
pub open spec fn master_key_info(conv_id: Seq<u8>) -> Seq<u8> {
    master_key_prefix() + conv_id
}

/// The HKDF info that binds a message key to a counter value.
pub open spec fn message_key_info(counter: nat) -> Seq<u8> {
    message_key_prefix() + decimal(counter)
}

/// What `derive_master_key` returns on given seed and conversation bytes.
pub open spec fn master_key_result(seed: Seq<u8>, salt: Seq<u8>, kdf: KdfParams, conv_id: Seq<u8>) -> Result<
    Seq<u8>,
    CryptoError,
> {
    if argon2_accepts(kdf, seed.len(), salt.len()) {
        Ok(
            hkdf_sha256_output(
                argon2id_output(seed, salt, kdf.m_cost_kib, kdf.t_cost, kdf.p_cost),
                master_key_info(conv_id),
            ),
        )
    } else {
        Err(CryptoError::Argon2)
    }
}

/// What `derive_message_key` returns.
pub open spec fn message_key_result(km: Seq<u8>, counter: nat) -> Result<Seq<u8>, CryptoError> {
    if km.len() != 32 {
        Err(CryptoError::KeyLen)
    } else {
        Ok(hkdf_sha256_output(km, message_key_info(counter)))
    }
}

/// A key result seen as bytes.
pub open spec fn key_view(r: Result<[u8; 32], CryptoError>) -> Result<Seq<u8>, CryptoError> {
    match r {
        Ok(k) => Ok(k@),
        Err(e) => Err(e),
    }
}

fn append_bytes(out: &mut Vec<u8>, src: &[u8])
    ensures
        final(out)@ == old(out)@ + src@,
{
    let mut i: usize = 0;
    while i < src.len()
        invariant
            0 <= i <= src@.len(),
            out@ == old(out)@ + src@.subrange(0, i as int),
        decreases src@.len() - i,
    {
        out.push(src[i]);
        assert(src@.subrange(0, i + 1) == src@.subrange(0, i as int).push(src@[i as int]));
        i = i + 1;
    }
    assert(src@.subrange(0, src@.len() as int) == src@);
}

fn push_decimal(out: &mut Vec<u8>, n: u64)
    ensures
        final(out)@ == old(out)@ + decimal(n as nat),
    decreases n,
{
    let ghost before = out@;
    if n >= 10 {
        push_decimal(out, n / 10);
    }
    let digit: u8 = (48 + n % 10) as u8;
    out.push(digit);
    proof {
        if n >= 10 {
            assert(out@ == before + decimal(n as nat / 10).push(digit));
        } else {
            assert(out@ == before + seq![digit]);
        }
    }
}

/// The conversation-bound HKDF info as bytes.
fn build_master_key_info(conv_id: &str) -> (r: Vec<u8>)
    ensures
        r@ == master_key_info(conv_id.spec_bytes()),
{
    let prefix: [u8; 12] = [101, 109, 99, 105, 112, 104, 101, 114, 58, 107, 109, 58];
    let mut info: Vec<u8> = Vec::new();
    append_bytes(&mut info, prefix.as_slice());
    append_bytes(&mut info, conv_id.as_bytes());
    assert(prefix@ == master_key_prefix());
    info
}

/// The counter-bound HKDF info as bytes.
fn build_message_key_info(counter: u64) -> (r: Vec<u8>)
    ensures
        r@ == message_key_info(counter as nat),
{
    let prefix: [u8; 13] = [101, 109, 99, 105, 112, 104, 101, 114, 58, 109, 115, 103, 58];
    let mut info: Vec<u8> = Vec::new();
    append_bytes(&mut info, prefix.as_slice());
    push_decimal(&mut info, counter);
    assert(prefix@ == message_key_prefix());
    info
}

/// Derives the 32-byte master key of a conversation: Argon2id stretches the
/// seed under the salt and costs into a prekey, and HKDF-SHA256 expands the
/// prekey with the conversation identifier in its info. The prekey is wiped
/// before returning. Fails with `Argon2` exactly when Argon2id refuses the
/// costs or the inputs.
pub fn derive_master_key(seed: &str, salt: &[u8], kdf: KdfParams, conv_id: &str) -> (r: Result<
    [u8; 32],
    CryptoError,
>)
    ensures
        key_view(r) == master_key_result(seed.spec_bytes(), salt@, kdf, conv_id.spec_bytes()),
{
    // Argon2 refuses these lane counts anyway; refusing them here keeps its
    // parameter check clear of an overflow on the largest ones.
    if kdf.p_cost > 0xFF_FFFF {
        return Err(CryptoError::Argon2);
    }
    let mut prekey = match argon2id_hash(seed.as_bytes(), salt, kdf) {
        Ok(k) => k,
        Err(_) => return Err(CryptoError::Argon2),
    };
    let info = build_master_key_info(conv_id);
    let expanded = hkdf_sha256_expand(prekey.as_slice(), info.as_slice());
    wipe(&mut prekey);
    match expanded {
        Ok(km) => Ok(km),
        Err(_) => Err(CryptoError::Hkdf),
    }
}

/// Derives the one-time key of message `counter` from a master key: HKDF-SHA256
/// with the decimal counter in its info and no further stretching. A master
/// key that is not 32 bytes long is refused with `KeyLen`.
pub fn derive_message_key(km: &[u8], counter: u64) -> (r: Result<[u8; 32], CryptoError>)
    ensures
        key_view(r) == message_key_result(km@, counter as nat),
{
    if km.len() != 32 {
        return Err(CryptoError::KeyLen);
    }
    let info = build_message_key_info(counter);
    match hkdf_sha256_expand(km, info.as_slice()) {
        Ok(k) => Ok(k),
        Err(_) => Err(CryptoError::Hkdf),
    }
}

proof fn lemma_decimal_len(n: nat)
    ensures
        decimal(n).len() >= 1,
        n >= 10 ==> decimal(n).len() >= 2,
    decreases n,
{
    if n >= 10 {
        lemma_decimal_len(n / 10);
    }
}

/// Distinct numbers have distinct decimal renderings.
pub proof fn lemma_decimal_injective(a: nat, b: nat)
    requires
        decimal(a) == decimal(b),
    ensures
        a == b,
    decreases a,
{
    lemma_decimal_len(a);
    lemma_decimal_len(b);
    if a < 10 && b < 10 {
        assert(decimal(a)[0] == decimal(b)[0]);
        assert(decimal(a)[0] == (48 + a) as u8);
        assert(decimal(b)[0] == (48 + b) as u8);
    } else if a >= 10 && b >= 10 {
        let da = decimal(a);
        let db = decimal(b);
        assert(da.last() == db.last());
        assert(da.drop_last() == decimal(a / 10));
        assert(db.drop_last() == decimal(b / 10));
        lemma_decimal_injective(a / 10, b / 10);
        assert(a % 10 == b % 10);
        assert(a == 10 * (a / 10) + a % 10) by (nonlinear_arith);
        assert(b == 10 * (b / 10) + b % 10) by (nonlinear_arith);
    }
}

/// Deriving a master key twice from the same seed, salt, costs and
/// conversation gives the same result, key or error.
pub proof fn lemma_master_key_deterministic(
    seed: &str,
    salt: Seq<u8>,
    kdf: KdfParams,
    conv_id: &str,
    first: Result<[u8; 32], CryptoError>,
    second: Result<[u8; 32], CryptoError>,
)
    requires
        key_view(first) == master_key_result(seed.spec_bytes(), salt, kdf, conv_id.spec_bytes()),
        key_view(second) == master_key_result(seed.spec_bytes(), salt, kdf, conv_id.spec_bytes()),
    ensures
        key_view(first) == key_view(second),
{
}

/// Deriving a message key twice from the same master key and counter gives
/// the same result, key or error.
pub proof fn lemma_message_key_deterministic(
    km: Seq<u8>,
    counter: u64,
    first: Result<[u8; 32], CryptoError>,
    second: Result<[u8; 32], CryptoError>,
)
    requires
        key_view(first) == message_key_result(km, counter as nat),
        key_view(second) == message_key_result(km, counter as nat),
    ensures
        key_view(first) == key_view(second),
{
}

/// Two different conversation identifiers put different info strings into
/// the HKDF step of the master key, so the same prekey is expanded under
/// different labels.
pub proof fn lemma_conversations_get_distinct_info(conv_a: &str, conv_b: &str)
    requires
        conv_a@ != conv_b@,
    ensures
        master_key_info(conv_a.spec_bytes()) != master_key_info(conv_b.spec_bytes()),
{
    vstd::utf8::encode_utf8_decode_utf8(conv_a@);
    vstd::utf8::encode_utf8_decode_utf8(conv_b@);
    let p = master_key_prefix();
    if master_key_info(conv_a.spec_bytes()) == master_key_info(conv_b.spec_bytes()) {
        assert(master_key_info(conv_a.spec_bytes()).subrange(p.len() as int, master_key_info(conv_a.spec_bytes()).len() as int) == conv_a.spec_bytes());
        assert(master_key_info(conv_b.spec_bytes()).subrange(p.len() as int, master_key_info(conv_b.spec_bytes()).len() as int) == conv_b.spec_bytes());
    }
}

/// Two different counters put different info strings into the HKDF step of
/// the message key, so the same master key is expanded under different
/// labels.
pub proof fn lemma_counters_get_distinct_info(c1: u64, c2: u64)
    requires
        c1 != c2,
    ensures
        message_key_info(c1 as nat) != message_key_info(c2 as nat),
{
    let p = message_key_prefix();
    let i1 = message_key_info(c1 as nat);
    let i2 = message_key_info(c2 as nat);
    if i1 == i2 {
        assert(i1.subrange(p.len() as int, i1.len() as int) == decimal(c1 as nat));
        assert(i2.subrange(p.len() as int, i2.len() as int) == decimal(c2 as nat));
        lemma_decimal_injective(c1 as nat, c2 as nat);
    }
}

} // verus!
