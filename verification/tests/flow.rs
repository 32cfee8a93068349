use cca_club_hub::account::Club;
use cca_club_hub::credential::{hash_password, verify_password, CredentialError};
use cca_club_hub::flow::{
    begin_password_reset, begin_reset, begin_welcome, claim_reset, finish_password_reset,
    finish_reset, prepare_reset, prepare_welcome, settle_claim, Claimed, FlowError,
    RESET_ALLOWED_TIME, WELCOME_ALLOWED_TIME,
};
use cca_club_hub::mail::Mail;
use cca_club_hub::registry::{ResetEntry, Resets};

const HOST: &str = "https://hub.example.org";

fn chess() -> Club {
    Club {
        id: 17,
        username: "chess".to_string(),
        email: "chess@example.org".to_string(),
        password_hash: hash_password(b"old password").unwrap(),
    }
}

fn find_by_email<'a>(clubs: &'a [Club], email: &str) -> Option<&'a Club> {
    clubs.iter().find(|c| c.email == email)
}

#[test]
fn allowed_times_are_an_hour_and_a_week() {
    assert_eq!(RESET_ALLOWED_TIME, 60 * 60);
    assert_eq!(WELCOME_ALLOWED_TIME, 60 * 60 * 24 * 7);
}

#[test]
fn reset_for_unknown_email_is_not_found() {
    assert_eq!(begin_reset(None, HOST).err(), Some(FlowError::NotFound));
}

#[test]
fn reset_for_an_account_with_a_bad_address_is_refused() {
    let club = Club { email: "no address".to_string(), ..chess() };
    assert_eq!(begin_reset(Some(&club), HOST).err(), Some(FlowError::InvalidEmail));
    assert_eq!(
        prepare_reset(&club, HOST, "id".to_string()).err(),
        Some(FlowError::InvalidEmail)
    );
    assert_eq!(begin_welcome(Some(&club), HOST).err(), Some(FlowError::InvalidEmail));
}

#[test]
fn prepared_reset_names_account_link_and_hour() {
    let pending = prepare_reset(&chess(), HOST, "V1StGXR8_Z5jdHi6B-myT".to_string()).unwrap();
    assert_eq!(pending.identifier, "V1StGXR8_Z5jdHi6B-myT");
    assert_eq!(pending.account, 17);
    assert_eq!(pending.ttl, 3_600);
    assert_eq!(pending.mail.to_name, "chess");
    assert_eq!(pending.mail.to_address, "chess@example.org");
    assert_eq!(pending.mail.subject, "CCA Club Hub Password Reset");
    assert!(pending.mail.body.starts_with("Hi chess,\n\n"));
    assert!(pending.mail.body.contains("within the next 60 minutes"));
    assert!(pending
        .mail
        .body
        .contains("\n\nhttps://hub.example.org/password/V1StGXR8_Z5jdHi6B-myT\n\n"));
}

#[test]
fn prepared_welcome_is_good_for_a_week() {
    let pending = prepare_welcome(&chess(), HOST, "abc".to_string()).unwrap();
    assert_eq!(pending.identifier, "abc");
    assert_eq!(pending.account, 17);
    assert_eq!(pending.ttl, 604_800);
    assert_eq!(pending.mail.subject, "Welcome to the CCA Club Hub!");
    assert!(pending.mail.body.contains("login with the username \"chess\""));
    assert!(pending.mail.body.contains("\n\nhttps://hub.example.org/password/abc\n\n"));
}

#[test]
fn welcome_without_a_created_club_is_a_conflict() {
    assert_eq!(begin_welcome(None, HOST).err(), Some(FlowError::Conflict));
}

#[test]
fn begun_reset_draws_a_fresh_identifier_and_registers_nothing() {
    let first = begin_reset(Some(&chess()), HOST).unwrap();
    let second = begin_reset(Some(&chess()), HOST).unwrap();
    assert_eq!(first.identifier.chars().count(), 21);
    assert_ne!(first.identifier, second.identifier);
    assert!(first.mail.body.contains(&format!("{}/password/{}", HOST, first.identifier)));
}

#[test]
fn failed_delivery_registers_no_token() {
    let mut resets = Resets::new();
    let pending = begin_reset(Some(&chess()), HOST).unwrap();
    let id = pending.identifier.clone();
    assert_eq!(finish_reset(&mut resets, pending, false, 10), Err(FlowError::DeliveryFailed));
    assert_eq!(resets.len(), 0);
    assert!(!resets.contains(&id));
}

#[test]
fn delivered_reset_registers_the_token_at_delivery_time() {
    let mut resets = Resets::new();
    let pending = begin_reset(Some(&chess()), HOST).unwrap();
    let id = pending.identifier.clone();
    assert_eq!(finish_reset(&mut resets, pending, true, 10), Ok(()));
    assert_eq!(resets.get(&id), Some(ResetEntry { issued_at: 10, ttl: 3_600, account: 17 }));
}

#[test]
fn claim_takes_the_token_or_says_why_not() {
    let mut resets = Resets::new();
    resets.insert("good".to_string(), ResetEntry { issued_at: 0, ttl: 10, account: 1 });
    resets.insert("late".to_string(), ResetEntry { issued_at: 0, ttl: 10, account: 2 });
    let claimed = claim_reset(&mut resets, "good", 10).unwrap();
    assert_eq!(claimed.identifier, "good");
    assert_eq!(claimed.entry, ResetEntry { issued_at: 0, ttl: 10, account: 1 });
    assert_eq!(claim_reset(&mut resets, "late", 11).err(), Some(FlowError::ResetExpired));
    assert_eq!(claim_reset(&mut resets, "late", 11).err(), Some(FlowError::ResetNotFound));
    assert_eq!(claim_reset(&mut resets, "none", 0).err(), Some(FlowError::ResetNotFound));
    assert_eq!(resets.len(), 0);
}

#[test]
fn failed_hashing_puts_the_token_back() {
    let mut resets = Resets::new();
    let entry = ResetEntry { issued_at: 3, ttl: 4, account: 5 };
    let claimed = Claimed { identifier: "tok".to_string(), entry };
    assert_eq!(
        settle_claim(&mut resets, claimed, Err(CredentialError::Hashing)).err(),
        Some(FlowError::CredentialFault)
    );
    assert_eq!(resets.get("tok"), Some(entry));
    let claimed = Claimed { identifier: "tok2".to_string(), entry };
    let update = settle_claim(&mut resets, claimed, Ok("$hash".to_string())).unwrap();
    assert_eq!(update.account, 5);
    assert_eq!(update.password_hash, "$hash");
    assert_eq!(update.identifier, "tok2");
    assert_eq!(update.entry, entry);
    assert!(!resets.contains("tok2"));
}

#[test]
fn failed_write_puts_the_token_back_for_a_retry() {
    let mut resets = Resets::new();
    let entry = ResetEntry { issued_at: 100, ttl: 3_600, account: 17 };
    resets.insert("tok".to_string(), entry);
    let update = begin_password_reset(&mut resets, "tok", b"new password", 200).unwrap();
    assert!(!resets.contains("tok"));
    assert_eq!(finish_password_reset(&mut resets, update, false), Err(FlowError::StorageFailed));
    assert_eq!(resets.get("tok"), Some(entry));
    let retry = begin_password_reset(&mut resets, "tok", b"new password", 300).unwrap();
    assert_eq!(finish_password_reset(&mut resets, retry, true), Ok(()));
    assert!(!resets.contains("tok"));
}

#[test]
fn expired_or_unknown_token_changes_no_credential() {
    let mut resets = Resets::new();
    resets.insert("tok".to_string(), ResetEntry { issued_at: 100, ttl: 3_600, account: 17 });
    assert_eq!(
        begin_password_reset(&mut resets, "tok", b"pw", 3_701).err(),
        Some(FlowError::ResetExpired)
    );
    assert!(!resets.contains("tok"));
    assert_eq!(
        begin_password_reset(&mut resets, "tok", b"pw", 100).err(),
        Some(FlowError::ResetNotFound)
    );
}

#[test]
fn reset_end_to_end() {
    let mut clubs = vec![chess()];
    let mut resets = Resets::new();
    let mut outbox: Vec<Mail> = Vec::new();

    assert_eq!(
        begin_reset(find_by_email(&clubs, "nobody@example.org"), HOST).err(),
        Some(FlowError::NotFound)
    );
    assert_eq!(resets.len(), 0);
    assert!(outbox.is_empty());

    let pending = begin_reset(find_by_email(&clubs, "chess@example.org"), HOST).unwrap();
    let id = pending.identifier.clone();
    outbox.push(Mail {
        to_name: pending.mail.to_name.clone(),
        to_address: pending.mail.to_address.clone(),
        subject: pending.mail.subject.clone(),
        body: pending.mail.body.clone(),
    });
    assert_eq!(finish_reset(&mut resets, pending, true, 1_000), Ok(()));
    assert_eq!(resets.len(), 1);
    assert_eq!(resets.get(&id).map(|e| e.account), Some(17));
    assert_eq!(outbox.len(), 1);
    assert_eq!(outbox[0].to_address, "chess@example.org");
    assert!(outbox[0].body.contains(&id));

    let update = begin_password_reset(&mut resets, &id, b"new password", 2_000).unwrap();
    assert_eq!(update.account, 17);
    let account = update.account;
    let new_hash = update.password_hash.clone();
    clubs.iter_mut().find(|c| c.id == account).unwrap().password_hash = new_hash;
    assert_eq!(finish_password_reset(&mut resets, update, true), Ok(()));

    assert_eq!(verify_password(b"new password", &clubs[0].password_hash), Ok(true));
    assert_eq!(verify_password(b"old password", &clubs[0].password_hash), Ok(false));
    assert_eq!(
        begin_password_reset(&mut resets, &id, b"another", 2_001).err(),
        Some(FlowError::ResetNotFound)
    );
    assert_eq!(resets.len(), 0);
}

#[test]
fn token_failures_are_answered_alike() {
    assert_eq!(FlowError::ResetNotFound.status(), FlowError::ResetExpired.status());
    assert_eq!(FlowError::ResetNotFound.message(), FlowError::ResetExpired.message());
    assert_eq!(FlowError::ResetExpired.status(), 401);
    assert_eq!(FlowError::ResetExpired.message(), "invalid or expired reset url");
}

#[test]
fn flow_failures_have_their_answers() {
    assert_eq!(FlowError::NotFound.status(), 404);
    assert_eq!(FlowError::NotFound.message(), "could not find matching club");
    assert_eq!(FlowError::Conflict.status(), 409);
    assert_eq!(FlowError::Conflict.message(), "club already exists!");
    assert_eq!(FlowError::InvalidEmail.status(), 400);
    assert_eq!(FlowError::InvalidEmail.message(), "invalid email");
    assert_eq!(FlowError::DeliveryFailed.status(), 500);
    assert_eq!(FlowError::DeliveryFailed.message(), "failed to send email");
    for e in [FlowError::CredentialFault, FlowError::StorageFailed] {
        assert_eq!(e.status(), 500);
        assert_eq!(e.message(), "Internal Server Error");
    }
}
