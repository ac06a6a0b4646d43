//! Tests of the identity store: lazy profile creation, trust scores,
//! nicknames, the verification report and the platform statistics.

use osint_cafe_backend::errors::CafeError;
use osint_cafe_backend::identity::IdentityStore;
use osint_cafe_backend::principal::Principal;
use osint_cafe_backend::risk::RiskLevel;

fn p(tag: u8) -> Principal {
    Principal::from_bytes(vec![1, tag])
}

const SECOND: u64 = 1_000_000_000;

#[test]
fn first_caller_gets_a_stored_default_profile() {
    let mut store = IdentityStore::new(0);
    assert_eq!(store.who_am_i(&Principal::anonymous(), SECOND).err(),
        Some(CafeError::AuthError));
    let me = store.who_am_i(&p(1), SECOND).unwrap();
    assert_eq!(me.trust_score, 50);
    assert_eq!(me.verification_level, "Basic");
    assert_eq!(me.nickname, None);
    assert_eq!(me.created_at, SECOND);
    // The profile is created and persisted on first access.
    assert_eq!(store.get_stats().total_users, 1);
    let again = store.who_am_i(&p(1), 2 * SECOND).unwrap();
    assert_eq!(again.created_at, SECOND);
    assert_eq!(store.get_stats().total_users, 1);
}

#[test]
fn trust_scores_are_bounded_and_counted() {
    let mut store = IdentityStore::new(0);
    assert_eq!(store.update_trust_score(&p(1), 101, SECOND),
        Err(CafeError::ValidationError));
    store.update_trust_score(&p(1), 85, SECOND).unwrap();
    store.update_trust_score(&p(2), 40, 2 * SECOND).unwrap();
    let stats = store.get_stats();
    assert_eq!(stats.total_users, 2);
    assert_eq!(stats.high_trust_users, 1);
    assert_eq!(store.who_am_i(&p(1), 3 * SECOND).unwrap().trust_score, 85);
}

#[test]
fn nicknames_are_bounded() {
    let mut store = IdentityStore::new(0);
    let long = "x".repeat(33);
    assert_eq!(store.set_nickname(&p(1), long, SECOND),
        Err(CafeError::ValidationError));
    store.set_nickname(&p(1), "turing".to_string(), SECOND).unwrap();
    assert_eq!(store.who_am_i(&p(1), 2 * SECOND).unwrap().nickname,
        Some("turing".to_string()));
}

#[test]
fn verification_report_reflects_age_and_trust() {
    let mut store = IdentityStore::new(0);
    let rep = store.verify_identity(&p(1), SECOND).unwrap();
    // A brand-new identity with the default score is high risk.
    assert_eq!(rep.trust_score, 50);
    assert_eq!(rep.risk_level, RiskLevel::High);
    assert_eq!(rep.identity_age, "0 minutes");
    assert!(rep.recommendations.contains(
        &"New identity - proceed with caution".to_string()));
    assert!(rep.recommendations.contains(
        &"Low trust score - continue building reputation".to_string()));
    assert!(rep.recommendations.contains(&"Trust score: 50/100".to_string()));

    // Two days later with a high score the same identity is low risk.
    store.update_trust_score(&p(1), 85, 2 * SECOND).unwrap();
    let later = 2 * 86_400 * SECOND;
    let rep2 = store.verify_identity(&p(1), later).unwrap();
    assert_eq!(rep2.risk_level, RiskLevel::Low);
    assert_eq!(rep2.identity_age, "1 days");

    // A middle-aged identity with a middling score is medium risk.
    let rep3 = store.verify_identity(&p(2), later).unwrap();
    assert_eq!(rep3.risk_level, RiskLevel::High);
    let rep4 = store.verify_identity(&p(2), later + 2 * 3_600 * SECOND).unwrap();
    assert_eq!(rep4.risk_level, RiskLevel::Medium);
    assert_eq!(rep4.identity_age, "2 hours");
}

#[test]
fn verification_touches_only_last_seen() {
    let mut store = IdentityStore::new(0);
    store.set_nickname(&p(1), "grace".to_string(), SECOND).unwrap();
    store.update_trust_score(&p(2), 90, 2 * SECOND).unwrap();
    store.verify_identity(&p(1), 3 * SECOND).unwrap();
    // The caller keeps nickname and verification level; other profiles are
    // untouched.
    let me = store.who_am_i(&p(1), 4 * SECOND).unwrap();
    assert_eq!(me.nickname, Some("grace".to_string()));
    assert_eq!(me.verification_level, "Basic");
    assert_eq!(me.last_seen, 3 * SECOND);
    let other = store.who_am_i(&p(2), 5 * SECOND).unwrap();
    assert_eq!(other.trust_score, 90);
    assert_eq!(other.last_seen, 2 * SECOND);
}
