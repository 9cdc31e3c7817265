//! Single-use client sessions, and how a finalized credential replaces the
//! one a client holds.
use crate::errors::CredentialError;
use vstd::prelude::*;

verus! {

/// The client state of one prepared request, waiting for the authority's
/// reply. It can be finalized once.
pub struct ProtocolSession<T> {
    pending: Option<T>,
}

/// What finalizing a session whose pending state is `s` hands over.
pub open spec fn take_outcome<T>(s: Option<T>) -> Result<T, CredentialError> {
    match s {
        Some(t) => Ok(t),
        None => Err(CredentialError::SessionAlreadyConsumed),
    }
}

impl<T> View for ProtocolSession<T> {
    type V = Option<T>;

    closed spec fn view(&self) -> Option<T> {
        self.pending
    }
}

impl<T> ProtocolSession<T> {
    /// A session with no request prepared yet.
    pub fn idle() -> (r: Self)
        ensures
            r@ is None,
    {
        ProtocolSession { pending: None }
    }

    /// A session for a request that was just prepared.
    pub fn prepared(state: T) -> (r: Self)
        ensures
            r@ == Some(state),
    {
        ProtocolSession { pending: Some(state) }
    }

    /// Whether the session was already finalized.
    pub fn is_consumed(&self) -> (r: bool)
        ensures
            r == (self@ is None),
    {
        self.pending.is_none()
    }

    /// Hands over the pending client state for finalizing, and marks the
    /// session consumed. A second call fails with `SessionAlreadyConsumed`.
    pub fn take(&mut self) -> (r: Result<T, CredentialError>)
        ensures
            r == take_outcome(old(self)@),
            final(self)@ is None,
    {
        match self.pending.take() {
            Some(t) => Ok(t),
            None => Err(CredentialError::SessionAlreadyConsumed),
        }
    }
}

/// Finalizing a session a second time never yields a client state: `take`
/// leaves every session consumed, and a consumed session answers every
/// further `take` with `SessionAlreadyConsumed`.
pub proof fn lemma_second_finalize_refused<T>(consumed: Option<T>)
    requires
        consumed is None,
    ensures
        take_outcome(consumed) == Err::<T, CredentialError>(
            CredentialError::SessionAlreadyConsumed,
        ),
{
}

/// Stores the credential that finalizing produced. Without one, the
/// issuance did not verify: the error is `IssuanceVerificationFailed` and the
/// credential held before is kept.
pub fn store_issued<C>(held: &mut Option<C>, issued: Option<C>) -> (r: Result<(), CredentialError>)
    ensures
        match issued {
            Some(c) => r is Ok && *final(held) == Some(c),
            None => r == Err::<(), CredentialError>(CredentialError::IssuanceVerificationFailed)
                && *final(held) == *old(held),
        },
{
    match issued {
        Some(c) => {
            *held = Some(c);
            Ok(())
        },
        None => Err(CredentialError::IssuanceVerificationFailed),
    }
}

} // verus!
