//! Protocol layer of an anonymous-credential scheme for measurement
//! submission: attribute encoding and validation, domain-scoped pseudonyms,
//! issuance policy and single-use protocol sessions.
pub mod attributes;
pub mod errors;
pub mod validate;
pub mod pseudonym;
pub mod protocol;
pub mod session;
pub mod clock;
pub mod text;
