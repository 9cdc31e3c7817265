//! The printable form of wire messages: standard base64 (with padding) over
//! their bytes.
use crate::errors::CredentialError;
use base64::prelude::{Engine, BASE64_STANDARD};
use vstd::prelude::*;

verus! {

/// The standard base64 text of `bytes`.
pub uninterp spec fn base64_text_of(bytes: Seq<u8>) -> Seq<char>;

/// The bytes that standard base64 decoding gives for `text`; `None` when the
/// text is not valid standard base64.
pub uninterp spec fn base64_bytes_of(text: Seq<char>) -> Option<Seq<u8>>;

/// The view of an optional byte vector.
pub open spec fn opt_vec(r: Option<Vec<u8>>) -> Option<Seq<u8>> {
    match r {
        Some(v) => Some(v@),
        None => None,
    }
}

/// Relies on base64's `Engine::encode` with the standard alphabet and
/// padding: the text depends on the bytes alone.
#[verifier::external_body]
fn base64_encode(bytes: &[u8]) -> (r: String)
    ensures
        r@ == base64_text_of(bytes@),
{
    BASE64_STANDARD.encode(bytes)
}

/// Relies on base64's `Engine::decode` with the standard alphabet and
/// padding: the bytes, or a `DecodeError`, depend on the text alone.
#[verifier::external_body]
fn base64_decode(text: &str) -> (r: Option<Vec<u8>>)
    ensures
        opt_vec(r) == base64_bytes_of(text@),
{
    match BASE64_STANDARD.decode(text) {
        Ok(v) => Some(v),
        Err(_) => None,
    }
}

/// The printable form of a wire message.
pub fn encode_text(bytes: &[u8]) -> (r: String)
    ensures
        r@ == base64_text_of(bytes@),
{
    base64_encode(bytes)
}

/// The bytes of a wire message from its printable form; `InvalidEncoding`
/// when the text is not standard base64.
pub fn decode_text(text: &str) -> (r: Result<Vec<u8>, CredentialError>)
    ensures
        match base64_bytes_of(text@) {
            Some(b) => r matches Ok(v) && v@ == b,
            None => r == Err::<Vec<u8>, CredentialError>(CredentialError::InvalidEncoding),
        },
{
    match base64_decode(text) {
        Some(v) => Ok(v),
        None => Err(CredentialError::InvalidEncoding),
    }
}

/// Reads a compressed pseudonym from its printable form. Fails with
/// `InvalidEncoding` unless the text is standard base64 of exactly 32 bytes.
pub fn decode_pseudonym(text: &str) -> (r: Result<[u8; 32], CredentialError>)
    ensures
        match base64_bytes_of(text@) {
            Some(b) => if b.len() == 32 {
                r matches Ok(nym) && nym@ == b
            } else {
                r == Err::<[u8; 32], CredentialError>(CredentialError::InvalidEncoding)
            },
            None => r == Err::<[u8; 32], CredentialError>(CredentialError::InvalidEncoding),
        },
{
    let bytes = decode_text(text)?;
    if bytes.len() != 32 {
        return Err(CredentialError::InvalidEncoding);
    }
    let mut nym = [0u8; 32];
    let mut i: usize = 0;
    while i < 32
        invariant
            i <= 32,
            bytes@.len() == 32,
            forall|j: int| 0 <= j < i ==> nym@[j] == bytes@[j],
        decreases 32 - i,
    {
        nym.set(i, bytes[i]);
        i = i + 1;
    }
    assert(nym@ =~= bytes@);
    Ok(nym)
}

} // verus!
