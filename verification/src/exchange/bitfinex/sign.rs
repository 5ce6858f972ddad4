//! Request signatures: the HMAC-SHA384 of the signed text under the
//! account's secret, in lower-case hexadecimal.

use hmac::Mac;
use vstd::prelude::*;

verus! {

/// The HMAC-SHA384 authentication code of `message` under `key`.
pub uninterp spec fn hmac_sha384_of(key: Seq<u8>, message: Seq<u8>) -> Seq<u8>;

/// The character that stands for a value below sixteen.
pub open spec fn hex_digit(nibble: int) -> char
    recommends
        0 <= nibble < 16,
{
    "0123456789abcdef"@[nibble]
}

/// Two lower-case hexadecimal digits for each byte, the high half first.
pub open spec fn hex_lower(bytes: Seq<u8>) -> Seq<char>
    decreases bytes.len(),
{
    if bytes.len() == 0 {
        Seq::empty()
    } else {
        hex_lower(bytes.drop_last()).push(hex_digit(bytes.last() as int / 16)).push(
            hex_digit(bytes.last() as int % 16),
        )
    }
}

/// Computes the authentication code with `hmac::Hmac<sha2::Sha384>`: keyed
/// by `new_from_slice`, fed by `update`, read by `finalize`. The code is a
/// function of key and message alone. The key may be of any length, so a
/// code always comes back.
#[verifier::external_body]
fn hmac_sha384(key: &[u8], message: &[u8]) -> (code: Option<Vec<u8>>)
    ensures
        code.is_some(),
        code.unwrap()@ == hmac_sha384_of(key@, message@),
{
    match hmac::Hmac::<sha2::Sha384>::new_from_slice(key) {
        Ok(mut mac) => {
            mac.update(message);
            Some(mac.finalize().into_bytes().to_vec())
        },
        Err(_) => None,
    }
}

/// Writes bytes out with `hex::encode`: two lower-case digits per byte.
#[verifier::external_body]
fn hex_encode(bytes: &Vec<u8>) -> (text: String)
    ensures
        text@ == hex_lower(bytes@),
{
    hex::encode(bytes)
}

/// The signature of `message` under `secret`.
pub open spec fn signature_of(secret: Seq<char>, message: Seq<char>) -> Seq<char> {
    hex_lower(hmac_sha384_of(vstd::utf8::encode_utf8(secret), vstd::utf8::encode_utf8(message)))
}

/// Signs `message` with `secret`.
pub fn sign(secret: &str, message: &str) -> (signature: String)
    ensures
        signature@ == signature_of(secret@, message@),
{
    match hmac_sha384(secret.as_bytes(), message.as_bytes()) {
        Some(code) => hex_encode(&code),
        None => String::new(),
    }
}

} // verus!
