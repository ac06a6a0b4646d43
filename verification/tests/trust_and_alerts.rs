//! Tests of the trust graph, inner circles, threat flagging and the
//! alert ledger, including spending records and their analysis.

use osint_cafe_backend::errors::CafeError;
use osint_cafe_backend::principal::Principal;
use osint_cafe_backend::risk::RiskLevel;
use osint_cafe_backend::state::Cafe;
use osint_cafe_backend::wallet::SafetyRating;

fn p(tag: u8) -> Principal {
    Principal::from_bytes(vec![1, tag])
}

fn fresh() -> Cafe {
    Cafe::new(1_000)
}

#[test]
fn trust_connections_accumulate() {
    let mut cafe = fresh();
    cafe.add_trust_connection(&p(1), &p(2), "friend".to_string(), 70, 2_000).unwrap();
    // Repeated edges to the same target append; they are not deduplicated.
    cafe.add_trust_connection(&p(1), &p(2), "family".to_string(), 90, 3_000).unwrap();
    let conns = cafe.get_trust_connections(&p(1)).unwrap();
    assert_eq!(conns.len(), 2);
    assert_eq!(conns[0].connection_type, "friend");
    assert_eq!(conns[1].trust_level, 90);
    assert_eq!(cafe.get_wallet_stats().total_trust_connections, 2);
    assert!(cafe.get_trust_connections(&p(3)).unwrap().is_empty());
}

#[test]
fn trust_connection_validation() {
    let mut cafe = fresh();
    assert_eq!(cafe.add_trust_connection(&p(1), &p(2), "friend".to_string(), 101, 2_000),
        Err(CafeError::ValidationError));
    assert_eq!(cafe.add_trust_connection(&p(1), &p(2), "enemy".to_string(), 10, 2_000),
        Err(CafeError::ValidationError));
    assert_eq!(cafe.add_trust_connection(&Principal::anonymous(), &p(2),
        "friend".to_string(), 10, 2_000), Err(CafeError::AuthError));
}

#[test]
fn inner_circle_membership_rules() {
    let mut cafe = fresh();
    assert_eq!(cafe.add_inner_circle_member(&p(1), &p(2), "rival".to_string(),
        vec!["flag_users".to_string()], 2_000), Err(CafeError::ValidationError));
    assert_eq!(cafe.add_inner_circle_member(&p(1), &p(2), "friend".to_string(),
        vec!["root_access".to_string()], 2_000), Err(CafeError::ValidationError));
    cafe.add_inner_circle_member(&p(1), &p(2), "friend".to_string(),
        vec!["flag_users".to_string(), "spending_alerts".to_string()], 2_000).unwrap();
    // The same member cannot be added twice.
    assert_eq!(cafe.add_inner_circle_member(&p(1), &p(2), "family".to_string(),
        vec![], 3_000), Err(CafeError::ConflictError));
    let circle = cafe.get_inner_circle(&p(1)).unwrap();
    assert_eq!(circle.len(), 1);
    assert_eq!(circle[0].trust_level, 85);
    assert_eq!(circle[0].relationship, "friend");
}

#[test]
fn flagging_without_permission_fails_and_raises_nothing() {
    let mut cafe = fresh();
    // The reporter sits in an inner circle, but without `flag_users`.
    cafe.add_inner_circle_member(&p(1), &p(2), "friend".to_string(),
        vec!["spending_alerts".to_string()], 2_000).unwrap();
    assert_eq!(cafe.flag_user_threat(&p(2), &p(9), "scammer".to_string(),
        "chat log".to_string(), 90, 3_000), Err(CafeError::AuthError));
    assert!(cafe.get_safety_alerts(&p(1)).unwrap().is_empty());
}

#[test]
fn flagging_fans_out_to_every_circle_holding_the_reporter() {
    let mut cafe = fresh();
    cafe.add_inner_circle_member(&p(1), &p(2), "friend".to_string(),
        vec!["flag_users".to_string()], 2_000).unwrap();
    cafe.add_inner_circle_member(&p(3), &p(2), "family".to_string(),
        vec!["flag_users".to_string()], 3_000).unwrap();
    // This circle holds the reporter without the permission: no alert.
    cafe.add_inner_circle_member(&p(4), &p(2), "friend".to_string(),
        vec!["view_matches".to_string()], 4_000).unwrap();
    cafe.flag_user_threat(&p(2), &p(9), "scammer".to_string(),
        "chat log".to_string(), 90, 5_000).unwrap();
    let a1 = cafe.get_safety_alerts(&p(1)).unwrap();
    let a3 = cafe.get_safety_alerts(&p(3)).unwrap();
    assert_eq!(a1.len(), 1);
    assert_eq!(a3.len(), 1);
    assert_eq!(a1[0].alert_type, "INNER_CIRCLE_FLAG");
    assert_eq!(a1[0].message, "Your trusted contact flagged a user for: scammer");
    assert_eq!(a1[0].threat_type, Some("scammer".to_string()));
    assert_eq!(a1[0].evidence, Some("chat log".to_string()));
    assert!(!a1[0].acknowledged);
    assert!(cafe.get_safety_alerts(&p(4)).unwrap().is_empty());
}

#[test]
fn high_confidence_chat_scam_raises_an_alert() {
    let mut cafe = fresh();
    let radar = cafe.analyze_chat_message(&p(1),
        "URGENT please send bitcoin right now I love you and need money",
        2_000).unwrap();
    assert_eq!(radar.confidence_score, 100);
    assert!(radar.suggested_response.starts_with("HIGH SCAM RISK"));
    let alerts = cafe.get_safety_alerts(&p(1)).unwrap();
    assert_eq!(alerts.len(), 1);
    assert_eq!(alerts[0].alert_type, "CHAT_SCAM");
    assert_eq!(alerts[0].message,
        "ScamRadar detected potential scam (100% confidence)");
    assert_eq!(alerts[0].scam_confidence, Some(100));
}

#[test]
fn low_confidence_chat_raises_no_alert() {
    let mut cafe = fresh();
    let radar = cafe.analyze_chat_message(&p(1), "lunch tomorrow?", 2_000).unwrap();
    assert_eq!(radar.confidence_score, 0);
    assert!(cafe.get_safety_alerts(&p(1)).unwrap().is_empty());
}

#[test]
fn alerts_come_back_most_recent_first() {
    let mut cafe = fresh();
    cafe.analyze_chat_message(&p(1), "urgent: send money, I love you", 2_000).unwrap();
    cafe.analyze_chat_message(&p(1), "wire transfer or bitcoin, urgent, I love you, money",
        3_000).unwrap();
    let alerts = cafe.get_safety_alerts(&p(1)).unwrap();
    assert_eq!(alerts.len(), 2);
    assert!(alerts[0].created_at >= alerts[1].created_at);
    assert_eq!(alerts[0].created_at, 3_000);
}

#[test]
fn acknowledging_alerts_is_idempotent() {
    let mut cafe = fresh();
    // No alerts yet: unknown ids are not found.
    assert_eq!(cafe.acknowledge_safety_alert(&p(1), 0),
        Err(CafeError::NotFoundError));
    cafe.analyze_chat_message(&p(1), "urgent: send money, I love you", 2_000).unwrap();
    assert_eq!(cafe.acknowledge_safety_alert(&p(1), 5),
        Err(CafeError::NotFoundError));
    cafe.acknowledge_safety_alert(&p(1), 0).unwrap();
    assert!(cafe.get_safety_alerts(&p(1)).unwrap()[0].acknowledged);
    // Acknowledging twice is not an error and changes nothing.
    cafe.acknowledge_safety_alert(&p(1), 0).unwrap();
    assert!(cafe.get_safety_alerts(&p(1)).unwrap()[0].acknowledged);
    assert_eq!(cafe.get_safety_alerts(&p(1)).unwrap().len(), 1);
}

#[test]
fn spending_records_are_validated_scored_and_counted() {
    let mut cafe = fresh();
    assert_eq!(cafe.record_spending(&p(1), 10, "furious".to_string(),
        "gift".to_string(), None, 2_000), Err(CafeError::ValidationError));
    let id0 = cafe.record_spending(&p(1), 100, "neutral".to_string(),
        "entertainment".to_string(), None, 2_000).unwrap();
    let id1 = cafe.record_spending(&p(1), 11_000_000_000, "excited".to_string(),
        "gift".to_string(), Some("anniversary".to_string()), 3_000).unwrap();
    assert_eq!(id0, 0);
    assert_eq!(id1, 1);
    let history = cafe.get_spending_history(&p(1), None).unwrap();
    assert_eq!(history.len(), 2);
    // Most recent first.
    assert_eq!(history[0].id, 1);
    assert_eq!(history[0].risk_assessment, RiskLevel::High);
    assert!(history[0].flagged_suspicious);
    assert_eq!(history[1].risk_assessment, RiskLevel::Low);
    assert!(!history[1].flagged_suspicious);
    let limited = cafe.get_spending_history(&p(1), Some(1)).unwrap();
    assert_eq!(limited.len(), 1);
    assert_eq!(limited[0].id, 1);
    let stats = cafe.get_wallet_stats();
    assert_eq!(stats.total_transactions, 2);
    assert_eq!(stats.scams_prevented, 1);
}

#[test]
fn large_amounts_are_flagged_even_at_low_risk() {
    let mut cafe = fresh();
    cafe.record_spending(&p(1), 5_000_000_001, "neutral".to_string(),
        "other".to_string(), None, 2_000).unwrap();
    let history = cafe.get_spending_history(&p(1), None).unwrap();
    // 20 points from the amount tier alone stays low risk, yet the size
    // of the transaction flags it.
    assert_eq!(history[0].risk_assessment, RiskLevel::Low);
    assert!(history[0].flagged_suspicious);
}

#[test]
fn spending_analysis_summarises_the_records() {
    let mut cafe = fresh();
    cafe.create_wallet(p(1), None, 2_000).unwrap();
    assert_eq!(cafe.get_spending_analysis(&p(2), 2_000).err(),
        Some(CafeError::NotFoundError));
    cafe.record_spending(&p(1), 100, "neutral".to_string(),
        "entertainment".to_string(), None, 3_000).unwrap();
    cafe.record_spending(&p(1), 11_000_000_000, "excited".to_string(),
        "gift".to_string(), None, 4_000).unwrap();
    cafe.record_spending(&p(1), 200, "happy".to_string(),
        "entertainment".to_string(), None, 5_000).unwrap();
    let a = cafe.get_spending_analysis(&p(1), 6_000).unwrap();
    assert_eq!(a.total_transactions, 3);
    assert_eq!(a.high_risk_transactions, 1);
    assert_eq!(a.risk_percentage, 33);
    assert_eq!(a.most_emotional_tag, "neutral");
    assert_eq!(a.safety_rating, SafetyRating::Safe);
    assert_eq!(a.trust_score, 50);
    assert!(a.recommendations.contains(
        &"Healthy spending patterns maintained".to_string()));
    assert!(a.recommendations.contains(
        &"Build trust through verified transactions".to_string()));
    assert!(a.recommendations.contains(
        &"Add emergency contacts for enhanced safety".to_string()));
}
