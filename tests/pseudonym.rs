use curve25519_dalek::ristretto::RistrettoPoint;
use curve25519_dalek::scalar::Scalar;
use ooniauth::attributes::scalar_from_u32;
use ooniauth::pseudonym::{derive_pseudonym, domain_bytes, domain_generator};
use sha2::Sha512;

#[test]
fn domain_bytes_layout() {
    assert_eq!(domain_bytes("US", "AS1234"), b"ooni.org/US/AS1234".to_vec());
    assert_eq!(domain_bytes("", ""), b"ooni.org//".to_vec());
}

#[test]
fn domain_generator_is_hash_to_group() {
    let expected = RistrettoPoint::hash_from_bytes::<Sha512>(b"ooni.org/US/AS1234")
        .compress()
        .to_bytes();
    assert_eq!(domain_generator("US", "AS1234"), expected);
}

#[test]
fn pseudonym_is_nym_id_times_generator() {
    let nym_id = scalar_from_u32(42);
    let d = derive_pseudonym(&nym_id, "US", "AS1234").unwrap();
    let domain = RistrettoPoint::hash_from_bytes::<Sha512>(b"ooni.org/US/AS1234");
    let expected = (Scalar::from(42u32) * domain).compress().to_bytes();
    assert_eq!(d.nym, expected);
    assert_eq!(d.domain, domain.compress().to_bytes());
    assert_ne!(d.nym, d.domain);
}

#[test]
fn submit_test_domain_nym_computation() {
    let nym_id = scalar_from_u32(42);
    let nym = derive_pseudonym(&nym_id, "US", "AS1234").unwrap().nym;
    let different_nym = derive_pseudonym(&nym_id, "UK", "AS5678").unwrap().nym;
    assert_ne!(nym, different_nym, "Different domains should produce different NYMs");
}

#[test]
fn user_submit_test_domain_nym_computation() {
    let nym_id = scalar_from_u32(42);
    let nym = derive_pseudonym(&nym_id, "US", "AS1234").unwrap().nym;
    let different_nym = derive_pseudonym(&nym_id, "UK", "AS5678").unwrap().nym;
    assert_ne!(nym, different_nym, "Different domains should produce different NYMs");
}

#[test]
fn pseudonym_stable_across_calls() {
    let nym_id = scalar_from_u32(7);
    let a = derive_pseudonym(&nym_id, "VE", "AS1234").unwrap();
    let b = derive_pseudonym(&nym_id, "VE", "AS1234").unwrap();
    assert_eq!(a.nym, b.nym);
    assert_eq!(a.domain, b.domain);
}

#[test]
fn pseudonym_not_identity() {
    let nym_id = scalar_from_u32(42);
    let nym = derive_pseudonym(&nym_id, "US", "AS1234").unwrap().nym;
    assert_ne!(nym, [0u8; 32], "NYM should not be all zeros");
}

#[test]
fn pseudonym_differs_per_identifier() {
    let a = derive_pseudonym(&scalar_from_u32(1), "US", "AS1234").unwrap().nym;
    let b = derive_pseudonym(&scalar_from_u32(2), "US", "AS1234").unwrap().nym;
    assert_ne!(a, b);
}
