//! The decisions of the three credential protocols: what the authority issues
//! at registration, what a client may submit and which credential it asks
//! for, the statement both sides bind a submission to, and what an update
//! asks for.
use crate::attributes::{
    decoded_u32, encoded_u32, lemma_encoded_u32_decodes, scalar_from_u32, scalar_u32,
    AttributeView, CredentialAttributes,
};
use crate::errors::CredentialError;
use crate::pseudonym::{derive_pseudonym, domain_generator, domain_generator_of, pseudonym_of};
use crate::validate::{age_check, check_age, check_measurement_count, count_check};
use std::ops::Range;
use vstd::prelude::*;
use vstd::string::StringSliceAdditionalSpecFns;

verus! {

/// What the authority writes into a credential it issues at registration.
#[derive(Clone, Copy, Debug)]
pub struct IssuedAttributes {
    pub age: [u8; 32],
    pub measurement_count: [u8; 32],
}

/// The authority's registration policy: the credential is dated `today` and
/// starts with no measurements.
pub fn registration_attributes(today: u32) -> (r: IssuedAttributes)
    ensures
        r.age@ == encoded_u32(today),
        r.measurement_count@ == encoded_u32(0),
        decoded_u32(r.age@) == Some(today),
        decoded_u32(r.measurement_count@) == Some(0u32),
{
    IssuedAttributes { age: scalar_from_u32(today), measurement_count: scalar_from_u32(0) }
}

/// A registered credential reads back as issued today with a count of zero.
pub proof fn lemma_registration_fresh(today: u32)
    ensures
        decoded_u32(encoded_u32(today)) == Some(today),
        decoded_u32(encoded_u32(0)) == Some(0u32),
{
    lemma_encoded_u32_decodes(today);
    lemma_encoded_u32_decodes(0);
}

/// The public values that a submission's proof is bound to.
#[derive(Clone, Copy, Debug)]
pub struct SubmitParams {
    pub min_age: u32,
    pub max_age: u32,
    pub min_measurement_count: u32,
    pub max_measurement_count: u32,
    /// The domain's generator, compressed.
    pub domain: [u8; 32],
    /// The pseudonym claimed for the domain, compressed.
    pub nym: [u8; 32],
}

/// `p` binds the windows `age_range` and `count_range`, the generator of the
/// domain of `cc` and `asn`, and the pseudonym `nym`.
pub open spec fn binds(
    p: SubmitParams,
    nym: Seq<u8>,
    cc: Seq<u8>,
    asn: Seq<u8>,
    age_range: Range<u32>,
    count_range: Range<u32>,
) -> bool {
    &&& p.min_age == age_range.start
    &&& p.max_age == age_range.end
    &&& p.min_measurement_count == count_range.start
    &&& p.max_measurement_count == count_range.end
    &&& p.domain@ == domain_generator_of(cc, asn)
    &&& p.nym@ == nym
}

/// The statement the authority checks a submission against: the windows as
/// given, the domain's generator recomputed from its parts, and the claimed
/// pseudonym.
pub fn submit_params(
    nym: &[u8; 32],
    probe_cc: &str,
    probe_asn: &str,
    age_range: Range<u32>,
    measurement_count_range: Range<u32>,
) -> (r: SubmitParams)
    ensures
        binds(
            r,
            nym@,
            probe_cc.spec_bytes(),
            probe_asn.spec_bytes(),
            age_range,
            measurement_count_range,
        ),
{
    SubmitParams {
        min_age: age_range.start,
        max_age: age_range.end,
        min_measurement_count: measurement_count_range.start,
        max_measurement_count: measurement_count_range.end,
        domain: domain_generator(probe_cc, probe_asn),
        nym: *nym,
    }
}

/// Client and authority encode a submission's statement identically: two
/// statements that bind the same pseudonym, domain parts and windows agree in
/// every field.
pub proof fn lemma_statements_agree(
    client: SubmitParams,
    authority: SubmitParams,
    nym: Seq<u8>,
    cc: Seq<u8>,
    asn: Seq<u8>,
    age_range: Range<u32>,
    count_range: Range<u32>,
)
    requires
        binds(client, nym, cc, asn, age_range, count_range),
        binds(authority, nym, cc, asn, age_range, count_range),
    ensures
        client.min_age == authority.min_age,
        client.max_age == authority.max_age,
        client.min_measurement_count == authority.min_measurement_count,
        client.max_measurement_count == authority.max_measurement_count,
        client.domain == authority.domain,
        client.nym == authority.nym,
{
    assert(client.domain =~= authority.domain);
    assert(client.nym =~= authority.nym);
}

/// The local checks of a submission, in order: the issuance day decodes and
/// lies in `age_range`, the count decodes and lies in `count_range`. On
/// success, the current count.
pub open spec fn submit_check(a: AttributeView, age_range: Range<u32>, count_range: Range<u32>) -> Result<u32, CredentialError> {
    match decoded_u32(a.age) {
        None => Err(CredentialError::AttributeDecodeOverflow),
        Some(age) => match age_check(age, age_range) {
            Err(e) => Err(e),
            Ok(_) => match decoded_u32(a.measurement_count) {
                None => Err(CredentialError::AttributeDecodeOverflow),
                Some(count) => match count_check(count, count_range) {
                    Err(e) => Err(e),
                    Ok(_) => Ok(count),
                },
            },
        },
    }
}

/// The credential a submission asks for: the same identifier and issuance
/// day, and one more measurement.
pub open spec fn submit_next(a: AttributeView, age_range: Range<u32>, count_range: Range<u32>) -> Result<AttributeView, CredentialError> {
    match submit_check(a, age_range, count_range) {
        Err(e) => Err(e),
        Ok(count) => Ok(
            AttributeView {
                nym_id: a.nym_id,
                age: a.age,
                measurement_count: encoded_u32((count + 1) as u32),
            },
        ),
    }
}

/// The credential after a run of submissions, one per pair of windows in
/// `windows`, each asking for the credential of the one before; `None` if one
/// of them is refused.
pub open spec fn submit_cycles(a: AttributeView, windows: Seq<(Range<u32>, Range<u32>)>) -> Option<AttributeView>
    decreases windows.len(),
{
    if windows.len() == 0 {
        Some(a)
    } else {
        match submit_next(a, windows[0].0, windows[0].1) {
            Err(_) => None,
            Ok(next) => submit_cycles(next, windows.drop_first()),
        }
    }
}

/// Each successful submission adds exactly one to the measurement count and
/// keeps the identifier and the issuance day: after a run of `k` of them the
/// count is `k` more than before.
pub proof fn lemma_submit_cycles_count(a: AttributeView, windows: Seq<(Range<u32>, Range<u32>)>, count: u32)
    requires
        decoded_u32(a.measurement_count) == Some(count),
        submit_cycles(a, windows) is Some,
    ensures
        count + windows.len() <= u32::MAX,
        submit_cycles(a, windows)->0.nym_id == a.nym_id,
        submit_cycles(a, windows)->0.age == a.age,
        decoded_u32(submit_cycles(a, windows)->0.measurement_count) == Some(
            (count + windows.len()) as u32,
        ),
    decreases windows.len(),
{
    if windows.len() > 0 {
        let next = submit_next(a, windows[0].0, windows[0].1)->Ok_0;
        lemma_encoded_u32_decodes((count + 1) as u32);
        lemma_submit_cycles_count(next, windows.drop_first(), (count + 1) as u32);
    }
}

/// A submission whose validity window excludes the credential's issuance day
/// is refused by the age check: `CredentialExpired` when the day is before
/// the window, `RangeTooEarly` with the shortfall when it is at or after its
/// end.
pub proof fn lemma_age_outside_window_refused(
    a: AttributeView,
    age_range: Range<u32>,
    count_range: Range<u32>,
    age: u32,
)
    requires
        decoded_u32(a.age) == Some(age),
        !(age_range.start <= age < age_range.end),
    ensures
        age < age_range.start ==> submit_next(a, age_range, count_range) == Err::<
            AttributeView,
            CredentialError,
        >(CredentialError::CredentialExpired),
        age_range.start <= age ==> submit_next(a, age_range, count_range) == Err::<
            AttributeView,
            CredentialError,
        >(CredentialError::RangeTooEarly((age - age_range.end) as u32)),
{
}

/// How many days before its emission a credential may have been issued.
pub const VALIDITY_DAYS: u32 = 30;

/// How many submissions a credential may be used for.
pub const MAX_MEASUREMENTS: u32 = 100;

/// The windows a client submits under by default for a report emitted on
/// `emission_date`: a credential issued in the last `VALIDITY_DAYS` days, up
/// to and including that day, and fewer than `MAX_MEASUREMENTS` submissions.
pub fn standard_windows(emission_date: u32) -> (r: (Range<u32>, Range<u32>))
    requires
        VALIDITY_DAYS <= emission_date < u32::MAX,
    ensures
        r.0.start == emission_date - VALIDITY_DAYS,
        r.0.end == emission_date + 1,
        r.1.start == 0,
        r.1.end == MAX_MEASUREMENTS,
{
    (
        Range { start: emission_date - VALIDITY_DAYS, end: emission_date + 1 },
        Range { start: 0, end: MAX_MEASUREMENTS },
    )
}

/// A submission the client may make: the credential it asks for and the
/// statement its proof is bound to.
#[derive(Clone, Copy, Debug)]
pub struct SubmitPlan {
    pub new: CredentialAttributes,
    pub params: SubmitParams,
}

/// Plans a submission of the held credential to the domain of `probe_cc` and
/// `probe_asn`. Without a credential it fails with `CredentialMissing`;
/// otherwise it derives the pseudonym, then runs the local checks of
/// `submit_check` and fails with the first that does not hold, before any
/// proof is built. On success the plan asks for the credential of
/// `submit_next` and binds the same statement that the authority recomputes.
pub fn submit_request(
    credential: Option<&CredentialAttributes>,
    probe_cc: &str,
    probe_asn: &str,
    age_range: Range<u32>,
    measurement_count_range: Range<u32>,
) -> (r: Result<SubmitPlan, CredentialError>)
    ensures
        credential is None ==> r == Err::<SubmitPlan, CredentialError>(
            CredentialError::CredentialMissing,
        ),
        credential matches Some(old) ==> {
            let nym = pseudonym_of(old.nym_id@, probe_cc.spec_bytes(), probe_asn.spec_bytes());
            let next = submit_next(old@, age_range, measurement_count_range);
            match r {
                Ok(plan) => {
                    &&& next == Ok::<AttributeView, CredentialError>(plan.new@)
                    &&& nym == Some(plan.params.nym@)
                    &&& binds(
                        plan.params,
                        plan.params.nym@,
                        probe_cc.spec_bytes(),
                        probe_asn.spec_bytes(),
                        age_range,
                        measurement_count_range,
                    )
                },
                Err(e) => if nym is None {
                    e == CredentialError::InvalidEncoding
                } else {
                    next == Err::<AttributeView, CredentialError>(e)
                },
            }
        },
{
    let old = match credential {
        None => {
            return Err(CredentialError::CredentialMissing);
        },
        Some(c) => c,
    };
    let derived = derive_pseudonym(&old.nym_id, probe_cc, probe_asn)?;
    let age = match scalar_u32(&old.age) {
        None => {
            return Err(CredentialError::AttributeDecodeOverflow);
        },
        Some(v) => v,
    };
    check_age(age, &age_range)?;
    let count = match scalar_u32(&old.measurement_count) {
        None => {
            return Err(CredentialError::AttributeDecodeOverflow);
        },
        Some(v) => v,
    };
    check_measurement_count(count, &measurement_count_range)?;
    let new = CredentialAttributes {
        nym_id: old.nym_id,
        age: old.age,
        measurement_count: scalar_from_u32(count + 1),
    };
    let params = SubmitParams {
        min_age: age_range.start,
        max_age: age_range.end,
        min_measurement_count: measurement_count_range.start,
        max_measurement_count: measurement_count_range.end,
        domain: derived.domain,
        nym: derived.nym,
    };
    Ok(SubmitPlan { new, params })
}

/// Plans an update of the held credential to new key material: the same
/// attribute values, to be issued again. Without a credential it fails with
/// `CredentialMissing`.
pub fn update_request(credential: Option<&CredentialAttributes>) -> (r: Result<
    CredentialAttributes,
    CredentialError,
>)
    ensures
        match credential {
            None => r == Err::<CredentialAttributes, CredentialError>(
                CredentialError::CredentialMissing,
            ),
            Some(old) => r matches Ok(new) && new@ == old@,
        },
{
    match credential {
        None => Err(CredentialError::CredentialMissing),
        Some(old) => Ok(
            CredentialAttributes {
                nym_id: old.nym_id,
                age: old.age,
                measurement_count: old.measurement_count,
            },
        ),
    }
}

} // verus!
