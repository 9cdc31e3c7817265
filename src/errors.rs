use vstd::prelude::*;

verus! {

/// Errors met by the client or the authority while running the credential
/// protocols.
#[derive(Debug, Clone, Copy, PartialEq, Eq, Structural)]
pub enum CredentialError {
    /// The client could not prepare its proof.
    ProofConstructionFailed,
    /// The authority rejected a request; which relation failed is not told.
    ProofVerificationFailed,
    /// The client could not verify the credential that the authority issued.
    IssuanceVerificationFailed,
    /// The operation needs a credential that the client does not hold.
    CredentialMissing,
    /// A stored attribute does not fit in 32 bits.
    AttributeDecodeOverflow,
    /// A stored group element or scalar is not a valid encoding.
    InvalidEncoding,
    /// The credential was issued before the start of the accepted window.
    CredentialExpired,
    /// The credential was issued at or after the end of the accepted window;
    /// the value is the issuance day minus the window's end.
    RangeTooEarly(u32),
    /// The measurement count lies outside the accepted window.
    RangeViolation,
    /// The protocol session was already finalized.
    SessionAlreadyConsumed,
}

} // verus!
