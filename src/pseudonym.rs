//! Domain-scoped pseudonyms: a domain's generator is a hash of its name onto
//! the Ristretto group, and a client's pseudonym there is its secret `nym_id`
//! times that generator.
use crate::errors::CredentialError;
use curve25519_dalek::ristretto::{CompressedRistretto, RistrettoPoint};
use curve25519_dalek::scalar::Scalar;
use sha2::Sha512;
use vstd::prelude::*;
use vstd::string::StringSliceAdditionalSpecFns;

verus! {

/// The byte that separates the parts of a domain name.
pub const DOMAIN_SEPARATOR: u8 = 47;

/// The namespace under which every domain name is formed: "ooni.org".
pub open spec fn domain_namespace() -> Seq<u8> {
    seq![111u8, 111u8, 110u8, 105u8, 46u8, 111u8, 114u8, 103u8]
}

/// The name of the domain of a country code and a network identifier:
/// `namespace/country/network`.
pub open spec fn domain_message(cc: Seq<u8>, asn: Seq<u8>) -> Seq<u8> {
    domain_namespace() + seq![DOMAIN_SEPARATOR] + cc + seq![DOMAIN_SEPARATOR] + asn
}

/// `s` holds no separator byte.
pub open spec fn separator_free(s: Seq<u8>) -> bool {
    forall|i: int| 0 <= i < s.len() ==> s[i] != DOMAIN_SEPARATOR
}

/// The compressed Ristretto point that SHA-512 hash-to-group gives for `msg`.
pub uninterp spec fn hash_to_group_of(msg: Seq<u8>) -> Seq<u8>;

/// The compressed encoding of `s * P`, where `P` is the point that `p`
/// encodes; `None` when `p` encodes no point.
pub uninterp spec fn scalar_mul_of(s: Seq<u8>, p: Seq<u8>) -> Option<Seq<u8>>;

/// The view of an optional 32-byte value.
pub open spec fn opt_bytes(r: Option<[u8; 32]>) -> Option<Seq<u8>> {
    match r {
        Some(v) => Some(v@),
        None => None,
    }
}

/// The generator of the domain of `cc` and `asn`, compressed.
pub open spec fn domain_generator_of(cc: Seq<u8>, asn: Seq<u8>) -> Seq<u8> {
    hash_to_group_of(domain_message(cc, asn))
}

/// The pseudonym of `nym_id` in the domain of `cc` and `asn`, compressed;
/// `None` only if the generator did not decode.
pub open spec fn pseudonym_of(nym_id: Seq<u8>, cc: Seq<u8>, asn: Seq<u8>) -> Option<Seq<u8>> {
    scalar_mul_of(nym_id, domain_generator_of(cc, asn))
}

/// Relies on curve25519-dalek's `RistrettoPoint::hash_from_bytes` with
/// SHA-512: the point depends on the message alone. It is handed back in its
/// compressed encoding.
#[verifier::external_body]
fn hash_to_group(msg: &[u8]) -> (r: [u8; 32])
    ensures
        r@ == hash_to_group_of(msg@),
{
    RistrettoPoint::hash_from_bytes::<Sha512>(msg).compress().to_bytes()
}

/// Relies on curve25519-dalek's scalar multiplication of a Ristretto point:
/// the product depends on the scalar and the point alone. The point comes in
/// and goes out compressed; `CompressedRistretto::decompress` answers `None`
/// for bytes that encode no point.
#[verifier::external_body]
fn scalar_mul(s: &[u8; 32], p: &[u8; 32]) -> (r: Option<[u8; 32]>)
    ensures
        opt_bytes(r) == scalar_mul_of(s@, p@),
{
    let point = CompressedRistretto(*p).decompress()?;
    Some((Scalar::from_bytes_mod_order(*s) * point).compress().to_bytes())
}

/// Appends `src` to `out`.
fn append_bytes(out: &mut Vec<u8>, src: &[u8])
    ensures
        final(out)@ == old(out)@ + src@,
{
    let mut i: usize = 0;
    while i < src.len()
        invariant
            i <= src@.len(),
            out@ == old(out)@ + src@.subrange(0, i as int),
        decreases src@.len() - i,
    {
        out.push(src[i]);
        i = i + 1;
        assert(src@.subrange(0, i as int) =~= src@.subrange(0, i - 1) + seq![src@[i - 1]]);
    }
    assert(src@.subrange(0, i as int) =~= src@);
}

/// The bytes of the name of the domain of `probe_cc` and `probe_asn`.
pub fn domain_bytes(probe_cc: &str, probe_asn: &str) -> (r: Vec<u8>)
    ensures
        r@ == domain_message(probe_cc.spec_bytes(), probe_asn.spec_bytes()),
{
    let mut out: Vec<u8> = vec![111u8, 111u8, 110u8, 105u8, 46u8, 111u8, 114u8, 103u8];
    out.push(DOMAIN_SEPARATOR);
    append_bytes(&mut out, probe_cc.as_bytes());
    out.push(DOMAIN_SEPARATOR);
    append_bytes(&mut out, probe_asn.as_bytes());
    assert(out@ =~= domain_message(probe_cc.spec_bytes(), probe_asn.spec_bytes()));
    out
}

/// The generator of a domain, compressed.
pub fn domain_generator(probe_cc: &str, probe_asn: &str) -> (r: [u8; 32])
    ensures
        r@ == domain_generator_of(probe_cc.spec_bytes(), probe_asn.spec_bytes()),
{
    let msg = domain_bytes(probe_cc, probe_asn);
    hash_to_group(msg.as_slice())
}

/// A domain's generator and a client's pseudonym in it, both compressed.
#[derive(Clone, Copy, Debug)]
pub struct DomainPseudonym {
    pub domain: [u8; 32],
    pub nym: [u8; 32],
}

/// Derives the generator of the domain of `probe_cc` and `probe_asn` and the
/// pseudonym of `nym_id` in it. Fails with `InvalidEncoding` only if the
/// generator does not decode.
pub fn derive_pseudonym(nym_id: &[u8; 32], probe_cc: &str, probe_asn: &str) -> (r: Result<
    DomainPseudonym,
    CredentialError,
>)
    ensures
        match r {
            Ok(d) => d.domain@ == domain_generator_of(probe_cc.spec_bytes(), probe_asn.spec_bytes())
                && pseudonym_of(nym_id@, probe_cc.spec_bytes(), probe_asn.spec_bytes()) == Some(
                d.nym@,
            ),
            Err(e) => e == CredentialError::InvalidEncoding && pseudonym_of(
                nym_id@,
                probe_cc.spec_bytes(),
                probe_asn.spec_bytes(),
            ) is None,
        },
{
    let domain = domain_generator(probe_cc, probe_asn);
    match scalar_mul(nym_id, &domain) {
        Some(nym) => Ok(DomainPseudonym { domain, nym }),
        None => Err(CredentialError::InvalidEncoding),
    }
}

/// A pseudonym is stable: the same `nym_id` in domains of the same name gives
/// the same pseudonym, however many times it is derived.
pub proof fn lemma_pseudonym_stable(
    nym_a: Seq<u8>,
    cc_a: Seq<u8>,
    asn_a: Seq<u8>,
    nym_b: Seq<u8>,
    cc_b: Seq<u8>,
    asn_b: Seq<u8>,
)
    requires
        nym_a == nym_b,
        domain_message(cc_a, asn_a) == domain_message(cc_b, asn_b),
    ensures
        pseudonym_of(nym_a, cc_a, asn_a) == pseudonym_of(nym_b, cc_b, asn_b),
{
}

/// Domains are separated by name: two pairs of parts whose country codes hold
/// no separator name the same domain only if the parts are the same.
pub proof fn lemma_domain_message_injective(
    cc_a: Seq<u8>,
    asn_a: Seq<u8>,
    cc_b: Seq<u8>,
    asn_b: Seq<u8>,
)
    requires
        separator_free(cc_a),
        separator_free(cc_b),
        domain_message(cc_a, asn_a) == domain_message(cc_b, asn_b),
    ensures
        cc_a == cc_b,
        asn_a == asn_b,
{
    let m = domain_message(cc_a, asn_a);
    let n = domain_message(cc_b, asn_b);
    let base: int = 9;
    assert(forall|i: int| 0 <= i < cc_a.len() ==> m[base + i] == cc_a[i]);
    assert(forall|i: int| 0 <= i < cc_b.len() ==> n[base + i] == cc_b[i]);
    assert(m[base + cc_a.len()] == DOMAIN_SEPARATOR);
    assert(n[base + cc_b.len()] == DOMAIN_SEPARATOR);
    if cc_a.len() < cc_b.len() {
        assert(n[base + cc_a.len()] == cc_b[cc_a.len() as int]);
        assert(false);
    }
    if cc_b.len() < cc_a.len() {
        assert(m[base + cc_b.len()] == cc_a[cc_b.len() as int]);
        assert(false);
    }
    assert(cc_a =~= m.subrange(base, base + cc_a.len()));
    assert(cc_b =~= n.subrange(base, base + cc_b.len()));
    let tail = base + cc_a.len() + 1;
    assert(asn_a =~= m.subrange(tail, m.len() as int));
    assert(asn_b =~= n.subrange(tail, n.len() as int));
}

} // verus!
