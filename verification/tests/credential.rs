use cca_club_hub::credential::{
    hash_password, hash_password_with_salt, unguessable_credential, verify_password,
    CredentialError, MAX_PASSWORD_LEN,
};

#[test]
fn hashed_password_verifies() {
    let credential = hash_password(b"correct horse").unwrap();
    assert_eq!(verify_password(b"correct horse", &credential), Ok(true));
}

#[test]
fn other_password_does_not_verify() {
    let credential = hash_password(b"correct horse").unwrap();
    assert_eq!(verify_password(b"battery staple", &credential), Ok(false));
    assert_eq!(verify_password(b"", &credential), Ok(false));
}

#[test]
fn hashing_twice_gives_two_credentials_that_both_verify() {
    let first = hash_password(b"same").unwrap();
    let second = hash_password(b"same").unwrap();
    assert_ne!(first, second);
    assert_eq!(verify_password(b"same", &first), Ok(true));
    assert_eq!(verify_password(b"same", &second), Ok(true));
}

#[test]
fn credential_is_an_argon2id_encoding() {
    let credential = hash_password(b"pw").unwrap();
    assert!(credential.starts_with("$argon2id$v=19$"));
}

#[test]
fn hashing_under_a_given_salt_is_repeatable() {
    let first = hash_password_with_salt(b"pw", "c29tZXNhbHRzb21lc2FsdA").unwrap();
    let second = hash_password_with_salt(b"pw", "c29tZXNhbHRzb21lc2FsdA").unwrap();
    assert_eq!(first, second);
    assert!(first.contains("$c29tZXNhbHRzb21lc2FsdA$"));
    assert_eq!(verify_password(b"pw", &first), Ok(true));
    let other = hash_password_with_salt(b"pw", "b3RoZXJzYWx0b3RoZXJzYQ").unwrap();
    assert_ne!(first, other);
}

#[test]
fn hashing_under_a_bad_salt_is_refused() {
    assert_eq!(hash_password_with_salt(b"pw", "!"), Err(CredentialError::Hashing));
    assert_eq!(hash_password_with_salt(b"pw", ""), Err(CredentialError::Hashing));
}

#[test]
fn unparsable_credential_is_a_fault_not_a_mismatch() {
    assert_eq!(verify_password(b"pw", "not a credential"), Err(CredentialError::Unparsable));
    assert_eq!(verify_password(b"pw", ""), Err(CredentialError::Unparsable));
}

#[test]
fn unguessable_credential_parses() {
    let credential = unguessable_credential().unwrap();
    assert_eq!(verify_password(b"", &credential), Ok(false));
    assert_ne!(credential, unguessable_credential().unwrap());
}

#[test]
fn hashing_never_refuses_an_ordinary_password() {
    assert_eq!(MAX_PASSWORD_LEN, 0xFFFF_FFFF);
    for password in [&b""[..], &b"a"[..], &[0u8; 1024][..], "p\u{e4}ssw\u{f6}rd".as_bytes()] {
        let credential = hash_password(password).unwrap();
        assert_eq!(verify_password(password, &credential), Ok(true));
    }
    assert!(unguessable_credential().is_ok());
}
