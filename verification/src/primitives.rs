//! The calls this library makes into `sha2`, `base64`, `rand`, `uuid` and
//! `rustls`. The contract of each function here restates what that crate
//! documents of the call; its body is only the call.
use vstd::prelude::*;
use base64::Engine;
use rand::Rng;
use sha2::Digest;

verus! {

#[verifier::external_type_specification]
#[verifier::external_body]
pub struct ExDecodeError(base64::DecodeError);

#[verifier::external_type_specification]
#[verifier::external_body]
pub struct ExEchConfig(rustls::client::EchConfig);

#[verifier::external_type_specification]
#[verifier::external_body]
pub struct ExRustlsError(rustls::Error);

/// The SHA-256 digest of `data`.
pub uninterp spec fn sha256_digest(data: Seq<u8>) -> Seq<u8>;

/// What the standard-alphabet, padded base64 engine decodes `text` to, if it
/// accepts it.
pub uninterp spec fn base64_standard_decode(text: Seq<u8>) -> Option<Seq<u8>>;

/// What the standard-alphabet, padded base64 engine encodes `data` to.
pub uninterp spec fn base64_standard_encode(data: Seq<u8>) -> Seq<char>;

/// Whether `rustls` takes the ECH configuration list `list` for the HPKE
/// suite DHKEM(X25519, HKDF-SHA256) with HKDF-SHA256 and AES-128-GCM: the
/// list parses, and one of its configurations is of a supported version, has
/// no unknown mandatory or duplicate extension, and offers that suite.
pub uninterp spec fn ech_config_list_supported(list: Seq<u8>) -> bool;

/// A character of the standard base64 alphabet (RFC 4648) or the padding `=`.
pub open spec fn is_base64_standard_char(c: char) -> bool {
    let u = c as u32;
    ||| 0x41 <= u <= 0x5A
    ||| 0x61 <= u <= 0x7A
    ||| 0x30 <= u <= 0x39
    ||| u == 0x2B
    ||| u == 0x2F
    ||| u == 0x3D
}

/// A lower-case hexadecimal digit.
pub open spec fn is_lower_hex_digit(c: char) -> bool {
    let u = c as u32;
    0x30 <= u <= 0x39 || 0x61 <= u <= 0x66
}

/// The hyphenated lower-case text form of a version-4 UUID:
/// `xxxxxxxx-xxxx-4xxx-xxxx-xxxxxxxxxxxx`.
pub open spec fn is_hyphenated_v4_uuid(u: Seq<char>) -> bool {
    &&& u.len() == 36
    &&& forall|i: int|
        0 <= i < 36 ==> if i == 8 || i == 13 || i == 18 || i == 23 {
            #[trigger] u[i] == '-'
        } else {
            is_lower_hex_digit(u[i])
        }
    &&& u[14] == '4'
}

/// Calls `sha2::Sha256::digest`: the result is the SHA-256 digest of `data`,
/// which is 32 bytes long (the output type of `Sha256` is a 32-byte array).
#[verifier::external_body]
pub(crate) fn sha256(data: &[u8]) -> (d: Vec<u8>)
    ensures
        d@ == sha256_digest(data@),
        d@.len() == 32,
{
    sha2::Sha256::digest(data).to_vec()
}

/// Calls `Engine::decode` of `base64::engine::general_purpose::STANDARD`
/// (the engine that `base64::prelude::BASE64_STANDARD` names): it succeeds
/// exactly when the engine accepts `text`, and then gives what the engine
/// decodes it to.
#[verifier::external_body]
pub(crate) fn base64_decode(text: &[u8]) -> (r: Result<Vec<u8>, base64::DecodeError>)
    ensures
        r is Ok <==> base64_standard_decode(text@) is Some,
        r matches Ok(v) ==> base64_standard_decode(text@) == Some(v@),
{
    base64::engine::general_purpose::STANDARD.decode(text)
}

/// Calls `Engine::encode` of `base64::engine::general_purpose::STANDARD`.
/// As the crate documents it, the result is made of standard-alphabet
/// characters and `=` padding, is four characters for every started group of
/// three bytes, and decodes back to `data` with the same engine.
#[verifier::external_body]
pub(crate) fn base64_encode(data: &[u8]) -> (r: String)
    ensures
        r@ == base64_standard_encode(data@),
        r@.len() == 4 * ((data@.len() + 2) / 3),
        forall|i: int| 0 <= i < r@.len() ==> is_base64_standard_char(#[trigger] r@[i]),
        base64_standard_decode(vstd::utf8::encode_utf8(r@)) == Some(data@),
{
    base64::engine::general_purpose::STANDARD.encode(data)
}

/// Calls `rustls::client::EchConfig::new` on the configuration list `list`
/// with the single HPKE suite `DH_KEM_X25519_HKDF_SHA256_AES_128` of the
/// `aws_lc_rs` provider. The call parses `list` and selects a compatible
/// configuration; it succeeds exactly when that selection finds one, which
/// depends on `list` alone.
#[verifier::external_body]
pub(crate) fn ech_config_from_list(list: &[u8]) -> (r: Result<rustls::client::EchConfig, rustls::Error>)
    ensures
        r is Ok <==> ech_config_list_supported(list@),
{
    rustls::client::EchConfig::new(
        list.into(),
        &[rustls::crypto::aws_lc_rs::hpke::DH_KEM_X25519_HKDF_SHA256_AES_128],
    )
}

/// Calls `rand::Rng::fill_bytes` on the thread-local generator of
/// `rand::rng()`: sixteen random bytes, of which nothing else is stated.
#[verifier::external_body]
pub(crate) fn random_iv() -> (iv: [u8; 16]) {
    let mut iv = [0u8; 16];
    rand::rng().fill_bytes(&mut iv);
    iv
}

/// Calls `uuid::Uuid::new_v4` and formats the result with `to_string`: a
/// random version-4 UUID in its hyphenated lower-case form.
#[verifier::external_body]
pub(crate) fn new_v4_uuid_string() -> (s: String)
    ensures
        is_hyphenated_v4_uuid(s@),
{
    uuid::Uuid::new_v4().to_string()
}

} // verus!
