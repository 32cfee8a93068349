use cca_club_hub::account::Club;
use cca_club_hub::token::{
    ensure_jwt_secret_is_valid, generate_jwt, issue_at, judge_payload, validate, validate_at,
    Claims, IssueError, Keys, Payload, SecretError, TokenError,
};

const SECRET: &str = "c2VjcmV0LWtleS1mb3ItdGVzdHM=";
const OTHER_SECRET: &str = "YW5vdGhlci1zZWNyZXQta2V5";

fn chess() -> Club {
    Club {
        id: 17,
        username: "chess".to_string(),
        email: "chess@example.org".to_string(),
        password_hash: String::new(),
    }
}

fn keys() -> Keys {
    Keys::from_base64_secret(SECRET).unwrap()
}

#[test]
fn secret_must_be_present() {
    assert_eq!(ensure_jwt_secret_is_valid(None).err(), Some(SecretError::Missing));
}

#[test]
fn secret_must_be_base64() {
    assert_eq!(ensure_jwt_secret_is_valid(Some("not base64!")).err(), Some(SecretError::Malformed));
    assert_eq!(Keys::from_base64_secret("a").err(), Some(SecretError::Malformed));
}

#[test]
fn base64_secret_is_accepted() {
    assert!(ensure_jwt_secret_is_valid(Some(SECRET)).is_ok());
}

#[test]
fn issued_token_carries_the_claims() {
    let token = issue_at(&keys(), &chess(), 86_400, 1_000).unwrap();
    let claims = validate_at(&keys(), &token, 1_000).unwrap();
    assert_eq!(claims.club_id, "chess");
    assert_eq!(claims.club_db_id, 17);
    assert_eq!(claims.exp, 87_400);
}

#[test]
fn token_is_a_three_part_jwt() {
    let token = issue_at(&keys(), &chess(), 10, 0).unwrap();
    assert_eq!(token.split('.').count(), 3);
    assert_ne!(token, chess().username);
}

#[test]
fn token_valid_one_second_before_expiry_and_expired_one_after() {
    let issued_at = 1_700_000_000;
    let ttl = 86_400;
    let token = issue_at(&keys(), &chess(), ttl, issued_at).unwrap();
    assert!(validate_at(&keys(), &token, issued_at + ttl - 1).is_ok());
    assert!(validate_at(&keys(), &token, issued_at + ttl).is_ok());
    assert_eq!(
        validate_at(&keys(), &token, issued_at + ttl + 1).err(),
        Some(TokenError::Expired)
    );
}

#[test]
fn token_expired_long_ago_is_still_reported_as_expired() {
    let token = issue_at(&keys(), &chess(), 1, 0).unwrap();
    assert_eq!(validate_at(&keys(), &token, u64::MAX).err(), Some(TokenError::Expired));
    assert_eq!(validate(&keys(), &token).err(), Some(TokenError::Expired));
}

#[test]
fn token_under_another_secret_is_invalid() {
    let token = issue_at(&keys(), &chess(), 100, 0).unwrap();
    let others = Keys::from_base64_secret(OTHER_SECRET).unwrap();
    assert_eq!(validate_at(&others, &token, 0).err(), Some(TokenError::InvalidSignature));
}

#[test]
fn tampered_or_malformed_token_is_invalid() {
    let token = issue_at(&keys(), &chess(), 100, 0).unwrap();
    let mut tampered = token.clone();
    let last = tampered.pop().unwrap();
    tampered.push(if last == 'A' { 'B' } else { 'A' });
    assert_eq!(validate_at(&keys(), &tampered, 0).err(), Some(TokenError::InvalidSignature));
    assert_eq!(validate_at(&keys(), "", 0).err(), Some(TokenError::InvalidSignature));
    assert_eq!(validate_at(&keys(), "a.b.c", 0).err(), Some(TokenError::InvalidSignature));
    assert_eq!(validate_at(&keys(), "chess", 0).err(), Some(TokenError::InvalidSignature));
}

#[test]
fn signature_is_checked_before_expiry() {
    let token = issue_at(&keys(), &chess(), 1, 0).unwrap();
    let others = Keys::from_base64_secret(OTHER_SECRET).unwrap();
    assert_eq!(validate_at(&others, &token, 1_000).err(), Some(TokenError::InvalidSignature));
}

#[test]
fn expiry_out_of_range_is_refused() {
    assert_eq!(
        issue_at(&keys(), &chess(), 2, u64::MAX - 1).err(),
        Some(IssueError::ExpiryOutOfRange)
    );
    let last = issue_at(&keys(), &chess(), 1, u64::MAX - 1).unwrap();
    assert_eq!(validate_at(&keys(), &last, u64::MAX).unwrap().exp, u64::MAX);
}

#[test]
fn generated_token_is_valid_now() {
    let token = generate_jwt(&keys(), &chess(), 3_600).unwrap();
    let claims = validate(&keys(), &token).unwrap();
    assert_eq!(claims.club_id, "chess");
    assert_eq!(claims.club_db_id, 17);
}

#[test]
fn negative_account_number_survives_the_round_trip() {
    let club = Club { id: i32::MIN, ..chess() };
    let token = issue_at(&keys(), &club, 5, 5).unwrap();
    assert_eq!(validate_at(&keys(), &token, 5).unwrap().club_db_id, i32::MIN);
}

#[test]
fn claims_issued_to_a_club_expire_at_now_plus_ttl() {
    let claims = Claims::issued_to(&chess(), 40, 2).unwrap();
    assert_eq!((claims.club_id.as_str(), claims.club_db_id, claims.exp), ("chess", 17, 42));
    assert!(Claims::issued_to(&chess(), u64::MAX, 1).is_none());
    assert_eq!(Claims::issued_to(&chess(), u64::MAX, 0).unwrap().exp, u64::MAX);
}

fn payload(club_id: Option<&str>, club_db_id: Option<i64>, exp: Option<u64>) -> Payload {
    Payload { club_id: club_id.map(str::to_string), club_db_id, exp }
}

#[test]
fn payload_with_three_claims_is_judged_by_expiry() {
    let claims = judge_payload(Some(payload(Some("chess"), Some(3), Some(1_000))), 1_000).unwrap();
    assert_eq!((claims.club_id.as_str(), claims.club_db_id, claims.exp), ("chess", 3, 1_000));
    assert_eq!(
        judge_payload(Some(payload(Some("chess"), Some(3), Some(1_000))), 1_001).err(),
        Some(TokenError::Expired)
    );
}

#[test]
fn payload_that_lacks_a_claim_is_invalid() {
    assert_eq!(judge_payload(None, 0).err(), Some(TokenError::InvalidSignature));
    for p in [
        payload(None, Some(3), Some(9)),
        payload(Some("chess"), None, Some(9)),
        payload(Some("chess"), Some(3), None),
        payload(Some("chess"), Some(i32::MAX as i64 + 1), Some(9)),
        payload(Some("chess"), Some(i32::MIN as i64 - 1), Some(9)),
    ] {
        assert_eq!(judge_payload(Some(p), 0).err(), Some(TokenError::InvalidSignature));
    }
    assert!(Claims::from_payload(payload(Some(""), Some(i32::MAX as i64), Some(0))).is_some());
}

#[test]
fn generated_token_expires_ttl_after_now() {
    let before = std::time::SystemTime::now()
        .duration_since(std::time::UNIX_EPOCH)
        .unwrap()
        .as_secs();
    let token = generate_jwt(&keys(), &chess(), 3_600).unwrap();
    let exp = validate(&keys(), &token).unwrap().exp;
    assert!(before + 3_600 <= exp && exp <= before + 3_600 + 5);
    assert!(validate_at(&keys(), &token, exp).is_ok());
    assert_eq!(validate_at(&keys(), &token, exp + 1).err(), Some(TokenError::Expired));
    assert_eq!(
        generate_jwt(&keys(), &chess(), u64::MAX).err(),
        Some(IssueError::ExpiryOutOfRange)
    );
}
