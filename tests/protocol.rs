use ooniauth::attributes::{scalar_from_u32, scalar_u32, CredentialAttributes};
use ooniauth::clock::{day_from_julian, today};
use ooniauth::errors::CredentialError;
use ooniauth::pseudonym::derive_pseudonym;
use ooniauth::protocol::{
    registration_attributes, standard_windows, submit_params, submit_request, update_request,
};

fn registered(today: u32, nym: u32) -> CredentialAttributes {
    let issued = registration_attributes(today);
    CredentialAttributes {
        nym_id: scalar_from_u32(nym),
        age: issued.age,
        measurement_count: issued.measurement_count,
    }
}

#[test]
fn registration_dates_today_with_zero_count() {
    let issued = registration_attributes(20000);
    assert_eq!(scalar_u32(&issued.age), Some(20000));
    assert_eq!(scalar_u32(&issued.measurement_count), Some(0));
}

#[test]
fn submit_cycles_example() {
    let mut cred = registered(20000, 42);
    assert_eq!(scalar_u32(&cred.age), Some(20000));
    assert_eq!(scalar_u32(&cred.measurement_count), Some(0));

    let plan = submit_request(Some(&cred), "US", "AS1234", 19970..20001, 0..100).unwrap();
    assert_eq!(scalar_u32(&plan.new.measurement_count), Some(1));
    assert_eq!(plan.new.nym_id, cred.nym_id);
    assert_eq!(plan.new.age, cred.age);
    cred = plan.new;

    let plan = submit_request(Some(&cred), "US", "AS1234", 19970..20001, 0..100).unwrap();
    assert_eq!(scalar_u32(&plan.new.measurement_count), Some(2));
    assert_eq!(scalar_u32(&plan.new.age), Some(20000));
    cred = plan.new;

    let refused = submit_request(Some(&cred), "US", "AS1234", 19970..19999, 0..100);
    assert_eq!(refused.unwrap_err(), CredentialError::RangeTooEarly(1));
}

#[test]
fn submit_expired_credential() {
    let cred = registered(19000, 42);
    let r = submit_request(Some(&cred), "US", "AS1234", 19970..20001, 0..100);
    assert_eq!(r.unwrap_err(), CredentialError::CredentialExpired);
}

#[test]
fn submit_count_out_of_window() {
    let mut cred = registered(20000, 42);
    cred.measurement_count = scalar_from_u32(100);
    let r = submit_request(Some(&cred), "US", "AS1234", 19970..20001, 0..100);
    assert_eq!(r.unwrap_err(), CredentialError::RangeViolation);
    let r = submit_request(Some(&cred), "US", "AS1234", 19970..20001, 101..200);
    assert_eq!(r.unwrap_err(), CredentialError::RangeViolation);
}

#[test]
fn submit_without_credential() {
    let r = submit_request(None, "US", "AS1234", 19970..20001, 0..100);
    assert_eq!(r.unwrap_err(), CredentialError::CredentialMissing);
}

#[test]
fn submit_overflowing_attribute() {
    let mut cred = registered(20000, 42);
    cred.age[5] = 1;
    let r = submit_request(Some(&cred), "US", "AS1234", 19970..20001, 0..100);
    assert_eq!(r.unwrap_err(), CredentialError::AttributeDecodeOverflow);
    let mut cred = registered(20000, 42);
    cred.measurement_count[31] = 1;
    let r = submit_request(Some(&cred), "US", "AS1234", 19970..20001, 0..100);
    assert_eq!(r.unwrap_err(), CredentialError::AttributeDecodeOverflow);
}

#[test]
fn submit_binds_same_statement_as_authority() {
    let cred = registered(20000, 42);
    let plan = submit_request(Some(&cred), "VE", "AS1234", 19970..20001, 0..100).unwrap();
    let expected = derive_pseudonym(&cred.nym_id, "VE", "AS1234").unwrap();
    assert_eq!(plan.params.nym, expected.nym);
    assert_eq!(plan.params.domain, expected.domain);
    let server = submit_params(&plan.params.nym, "VE", "AS1234", 19970..20001, 0..100);
    assert_eq!(server.domain, plan.params.domain);
    assert_eq!(server.nym, plan.params.nym);
    assert_eq!(server.min_age, 19970);
    assert_eq!(server.max_age, 20001);
    assert_eq!(server.min_measurement_count, 0);
    assert_eq!(server.max_measurement_count, 100);
    assert_eq!(plan.params.min_age, 19970);
    assert_eq!(plan.params.max_measurement_count, 100);
}

#[test]
fn update_keeps_attributes() {
    let cred = registered(20000, 42);
    let new = update_request(Some(&cred)).unwrap();
    assert_eq!(new.nym_id, cred.nym_id);
    assert_eq!(new.age, cred.age);
    assert_eq!(new.measurement_count, cred.measurement_count);
    assert_eq!(update_request(None).unwrap_err(), CredentialError::CredentialMissing);
}

#[test]
fn julian_day_conversion() {
    assert_eq!(day_from_julian(2_451_545), Some(2_451_545));
    assert_eq!(day_from_julian(0), Some(0));
    assert_eq!(day_from_julian(-1), None);
}

#[test]
fn today_is_recent() {
    let d = today().unwrap();
    assert!(d > 2_458_849);
}

#[test]
fn standard_windows_for_emission_date() {
    let (age_range, count_range) = standard_windows(20000);
    assert_eq!(age_range, 19970..20001);
    assert_eq!(count_range, 0..100);
    let (age_range, _) = standard_windows(30);
    assert_eq!(age_range, 0..31);
}
