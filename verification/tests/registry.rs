use cca_club_hub::registry::{ResetEntry, ResetError, Resets};

fn entry(issued_at: u64, ttl: u64, account: i32) -> ResetEntry {
    ResetEntry { issued_at, ttl, account }
}

#[test]
fn new_registry_is_empty() {
    let resets = Resets::new();
    assert_eq!(resets.len(), 0);
    assert!(!resets.contains("anything"));
    assert_eq!(Resets::default().len(), 0);
}

#[test]
fn create_returns_identifier_of_21_safe_characters() {
    let mut resets = Resets::new();
    let id = resets.create(7, 3600, 100);
    assert_eq!(id.chars().count(), 21);
    assert!(id.chars().all(|c| c.is_ascii_alphanumeric() || c == '_' || c == '-'));
    assert_eq!(resets.get(&id), Some(entry(100, 3600, 7)));
    assert_eq!(resets.len(), 1);
}

#[test]
fn create_draws_a_new_identifier_each_time() {
    let mut resets = Resets::new();
    let first = resets.create(1, 60, 0);
    let second = resets.create(1, 60, 0);
    assert_ne!(first, second);
    assert_eq!(resets.len(), 2);
}

#[test]
fn redeem_unknown_identifier_is_not_found() {
    let mut resets = Resets::new();
    resets.create(7, 3600, 100);
    assert_eq!(resets.redeem("never-issued", 100), Err(ResetError::NotFound));
    assert_eq!(resets.len(), 1);
}

#[test]
fn redeem_in_time_yields_the_account() {
    let mut resets = Resets::new();
    let id = resets.create(42, 3600, 1_000);
    assert_eq!(resets.redeem(&id, 1_000 + 3600), Ok(42));
    assert!(!resets.contains(&id));
}

#[test]
fn redeem_one_second_late_is_expired_and_removes() {
    let mut resets = Resets::new();
    let id = resets.create(42, 3600, 1_000);
    assert_eq!(resets.redeem(&id, 1_000 + 3601), Err(ResetError::Expired));
    assert!(!resets.contains(&id));
    assert_eq!(resets.redeem(&id, 1_000), Err(ResetError::NotFound));
}

#[test]
fn redeem_twice_second_is_not_found() {
    let mut resets = Resets::new();
    let id = resets.create(7, 3600, 100);
    assert_eq!(resets.redeem(&id, 200), Ok(7));
    assert_eq!(resets.redeem(&id, 200), Err(ResetError::NotFound));
    assert_eq!(resets.get(&id), None);
}

#[test]
fn redeem_before_issue_time_is_valid() {
    let mut resets = Resets::new();
    resets.insert("early".to_string(), entry(500, 0, 3));
    assert_eq!(resets.redeem("early", 10), Ok(3));
}

#[test]
fn of_many_redemptions_exactly_one_wins() {
    let mut resets = Resets::new();
    let id = resets.create(9, 3600, 0);
    let outcomes: Vec<Result<i32, ResetError>> = (0..16).map(|_| resets.redeem(&id, 1)).collect();
    assert_eq!(outcomes.iter().filter(|o| **o == Ok(9)).count(), 1);
    assert_eq!(outcomes.iter().filter(|o| **o == Err(ResetError::NotFound)).count(), 15);
    assert_eq!(outcomes[0], Ok(9));
}

#[test]
fn peek_applies_the_expiry_and_changes_nothing() {
    let mut resets = Resets::new();
    resets.insert("link".to_string(), entry(100, 50, 1));
    assert!(resets.peek("link", 150));
    assert!(!resets.peek("link", 151));
    assert!(!resets.peek("other", 100));
    assert!(resets.contains("link"));
    assert_eq!(resets.len(), 1);
}

#[test]
fn insert_replaces_the_entry_under_the_same_identifier() {
    let mut resets = Resets::new();
    resets.insert("same".to_string(), entry(1, 2, 3));
    resets.insert("same".to_string(), entry(4, 5, 6));
    assert_eq!(resets.len(), 1);
    assert_eq!(resets.get("same"), Some(entry(4, 5, 6)));
}

#[test]
fn take_hands_back_the_entry_expired_or_not() {
    let mut resets = Resets::new();
    resets.insert("old".to_string(), entry(0, 1, 5));
    assert_eq!(resets.take("old"), Some(entry(0, 1, 5)));
    assert_eq!(resets.take("old"), None);
}

#[test]
fn clean_drops_exactly_the_expired() {
    let mut resets = Resets::new();
    resets.insert("a".to_string(), entry(100, 10, 1));
    resets.insert("b".to_string(), entry(100, 20, 2));
    resets.insert("c".to_string(), entry(100, 5, 3));
    resets.insert("d".to_string(), entry(100, 15, 4));
    resets.clean(115);
    assert_eq!(resets.len(), 2);
    assert!(!resets.contains("a"));
    assert!(!resets.contains("c"));
    assert_eq!(resets.get("b"), Some(entry(100, 20, 2)));
    assert_eq!(resets.get("d"), Some(entry(100, 15, 4)));
    resets.clean(u64::MAX);
    assert_eq!(resets.len(), 0);
}

#[test]
fn entry_expires_after_its_time_to_live() {
    let e = entry(u64::MAX - 1, 1, 0);
    assert!(!e.is_expired(u64::MAX));
    assert!(!e.is_expired(0));
    assert!(entry(0, u64::MAX - 1, 0).is_expired(u64::MAX));
}
