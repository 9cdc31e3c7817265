use ooniauth::errors::CredentialError;
use ooniauth::text::{decode_pseudonym, decode_text, encode_text};

#[test]
fn encode_text_is_standard_base64() {
    assert_eq!(encode_text(b"some bytes"), "c29tZSBieXRlcw==");
    assert_eq!(encode_text(b""), "");
}

#[test]
fn decode_text_round_trip() {
    assert_eq!(decode_text("c29tZSBieXRlcw=="), Ok(b"some bytes".to_vec()));
    let bytes: Vec<u8> = (0u8..=255).collect();
    assert_eq!(decode_text(&encode_text(&bytes)), Ok(bytes));
}

#[test]
fn decode_text_rejects_invalid() {
    assert_eq!(decode_text("not base64!"), Err(CredentialError::InvalidEncoding));
}

#[test]
fn decode_pseudonym_needs_32_bytes() {
    let nym = [9u8; 32];
    assert_eq!(decode_pseudonym(&encode_text(&nym)), Ok(nym));
    assert_eq!(
        decode_pseudonym(&encode_text(&[9u8; 31])),
        Err(CredentialError::InvalidEncoding)
    );
    assert_eq!(decode_pseudonym("***"), Err(CredentialError::InvalidEncoding));
}
