//! Attribute values as the credential engine stores them: 32-byte
//! little-endian scalar encodings, of which the library reads small integers.
use subtle::ConstantTimeEq;
use vstd::prelude::*;

verus! {

/// Bytes in the encoding of one scalar.
pub const SCALAR_LEN: usize = 32;

/// Bytes of a scalar encoding that carry a 32-bit attribute.
pub const WORD_LEN: usize = 4;

/// The value of the first four bytes of `s`, read little-endian.
pub open spec fn low_word(s: Seq<u8>) -> int {
    s[0] as int + 256 * s[1] as int + 65536 * s[2] as int + 16777216 * s[3] as int
}

/// Every byte of `s` past the first four is zero.
pub open spec fn high_bytes_zero(s: Seq<u8>) -> bool {
    forall|i: int| WORD_LEN <= i < s.len() ==> s[i] == 0u8
}

/// The 32-bit value that a scalar encoding holds, if it holds one.
pub open spec fn decoded_u32(s: Seq<u8>) -> Option<u32> {
    if s.len() == SCALAR_LEN && high_bytes_zero(s) {
        Some(low_word(s) as u32)
    } else {
        None
    }
}

/// The scalar encoding of `v`: four little-endian bytes, then zeros.
pub open spec fn encoded_u32(v: u32) -> Seq<u8> {
    seq![
        (v % 256) as u8,
        ((v / 256) % 256) as u8,
        ((v / 65536) % 256) as u8,
        (v / 16777216) as u8,
    ] + Seq::new(28, |i: int| 0u8)
}

/// Relies on subtle's `ConstantTimeEq` for byte slices: the `Choice` is 1
/// exactly when the slices have the same length and the same bytes.
#[verifier::external_body]
fn ct_eq_bytes(a: &[u8], b: &[u8]) -> (r: bool)
    ensures
        r == (a@ == b@),
{
    a.ct_eq(b).unwrap_u8() == 1
}

/// Reads a 32-bit attribute from its scalar encoding; `None` unless every
/// byte beyond the low four is zero. The high bytes are compared in constant
/// time.
pub fn scalar_u32(s: &[u8; 32]) -> (r: Option<u32>)
    ensures
        r == decoded_u32(s@),
{
    let zeros = [0u8; 28];
    let (low, high) = s.as_slice().split_at(WORD_LEN);
    if !ct_eq_bytes(high, zeros.as_slice()) {
        proof {
            assert(!high_bytes_zero(s@)) by {
                if high_bytes_zero(s@) {
                    assert(high@ =~= zeros@);
                }
            }
        }
        return None;
    }
    assert(high_bytes_zero(s@)) by {
        assert forall|i: int| WORD_LEN <= i < s@.len() implies s@[i] == 0u8 by {
            assert(high@[i - 4] == zeros@[i - 4]);
        }
    }
    let v: u32 = low[0] as u32 + 256 * (low[1] as u32) + 65536 * (low[2] as u32)
        + 16777216 * (low[3] as u32);
    Some(v)
}

/// Writes a 32-bit value as a scalar encoding, as the engine's conversion
/// from `u32` does.
pub fn scalar_from_u32(v: u32) -> (r: [u8; 32])
    ensures
        r@ == encoded_u32(v),
        decoded_u32(r@) == Some(v),
{
    let mut out = [0u8; 32];
    out.set(0, (v % 256) as u8);
    out.set(1, ((v / 256) % 256) as u8);
    out.set(2, ((v / 65536) % 256) as u8);
    out.set(3, (v / 16777216) as u8);
    assert(out@ =~= encoded_u32(v));
    proof {
        lemma_encoded_u32_decodes(v);
    }
    out
}

/// Decoding the encoding of a value gives the value back.
pub proof fn lemma_encoded_u32_decodes(v: u32)
    ensures
        decoded_u32(encoded_u32(v)) == Some(v),
{
    let s = encoded_u32(v);
    assert(high_bytes_zero(s));
    assert(low_word(s) == v as int) by (nonlinear_arith)
        requires
            s[0] == (v % 256) as u8,
            s[1] == ((v / 256) % 256) as u8,
            s[2] == ((v / 65536) % 256) as u8,
            s[3] == (v / 16777216) as u8,
            v <= 0xffff_ffff,
    {
    }
}

/// The engine's encodings of a credential's three attributes.
#[derive(Clone, Copy, Debug)]
pub struct CredentialAttributes {
    /// The client's secret identifier, as a scalar encoding.
    pub nym_id: [u8; 32],
    /// The day on which the credential was first issued.
    pub age: [u8; 32],
    /// How many submissions the credential has been used for.
    pub measurement_count: [u8; 32],
}

/// The three attribute encodings as byte sequences.
pub struct AttributeView {
    pub nym_id: Seq<u8>,
    pub age: Seq<u8>,
    pub measurement_count: Seq<u8>,
}

impl View for CredentialAttributes {
    type V = AttributeView;

    open spec fn view(&self) -> AttributeView {
        AttributeView {
            nym_id: self.nym_id@,
            age: self.age@,
            measurement_count: self.measurement_count@,
        }
    }
}

} // verus!
