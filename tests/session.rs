use ooniauth::errors::CredentialError;
use ooniauth::session::{store_issued, ProtocolSession};

#[test]
fn session_finalizes_once() {
    let mut s = ProtocolSession::prepared(17u64);
    assert!(!s.is_consumed());
    assert_eq!(s.take(), Ok(17));
    assert!(s.is_consumed());
    assert_eq!(s.take(), Err(CredentialError::SessionAlreadyConsumed));
    assert_eq!(s.take(), Err(CredentialError::SessionAlreadyConsumed));
}

#[test]
fn store_issued_replaces_credential() {
    let mut held: Option<u32> = Some(1);
    assert_eq!(store_issued(&mut held, Some(2)), Ok(()));
    assert_eq!(held, Some(2));
}

#[test]
fn store_issued_failure_keeps_credential() {
    let mut held: Option<u32> = Some(1);
    assert_eq!(
        store_issued(&mut held, None),
        Err(CredentialError::IssuanceVerificationFailed)
    );
    assert_eq!(held, Some(1));
    let mut none: Option<u32> = None;
    assert_eq!(
        store_issued(&mut none, None),
        Err(CredentialError::IssuanceVerificationFailed)
    );
    assert_eq!(none, None);
}
