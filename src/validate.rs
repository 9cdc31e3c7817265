//! Half-open window checks on decoded attributes.
use crate::errors::CredentialError;
use std::ops::Range;
use vstd::prelude::*;

verus! {

/// `v` lies in `[start, end)`.
pub open spec fn in_window(v: u32, w: Range<u32>) -> bool {
    w.start <= v && v < w.end
}

/// What the age check answers for an issuance day and a validity window.
pub open spec fn age_check(age: u32, w: Range<u32>) -> Result<(), CredentialError> {
    if age < w.start {
        Err(CredentialError::CredentialExpired)
    } else if age >= w.end {
        Err(CredentialError::RangeTooEarly((age - w.end) as u32))
    } else {
        Ok(())
    }
}

/// What the count check answers for a measurement count and a rate window.
pub open spec fn count_check(count: u32, w: Range<u32>) -> Result<(), CredentialError> {
    if in_window(count, w) {
        Ok(())
    } else {
        Err(CredentialError::RangeViolation)
    }
}

/// Checks an issuance day against a validity window: too old gives
/// `CredentialExpired`, too new gives `RangeTooEarly` with the shortfall.
pub fn check_age(age: u32, window: &Range<u32>) -> (r: Result<(), CredentialError>)
    ensures
        r == age_check(age, *window),
        r is Ok <==> in_window(age, *window),
{
    if age < window.start {
        return Err(CredentialError::CredentialExpired);
    }
    if age >= window.end {
        return Err(CredentialError::RangeTooEarly(age - window.end));
    }
    Ok(())
}

/// Checks a measurement count against a rate-limit window.
pub fn check_measurement_count(count: u32, window: &Range<u32>) -> (r: Result<
    (),
    CredentialError,
>)
    ensures
        r == count_check(count, *window),
        r is Ok <==> in_window(count, *window),
{
    if count < window.start || count >= window.end {
        return Err(CredentialError::RangeViolation);
    }
    Ok(())
}

} // verus!
