//! Tests of the pure risk engine: transaction scoring, message scam
//! detection and the advice bands.

use osint_cafe_backend::risk::{
    assess_transaction_risk, calculate_scam_confidence, detect_scam_patterns,
    generate_safe_response, count_upper, RiskLevel, ScamIndicator,
};
use osint_cafe_backend::text::{contains_bytes, str_eq, to_lower, u64_to_string};

#[test]
fn large_excited_gift_scores_high() {
    let r = assess_transaction_risk(11_000_000_000, "excited", "gift");
    assert_eq!(r, RiskLevel::High);
}

#[test]
fn small_neutral_entertainment_scores_low() {
    let r = assess_transaction_risk(100, "neutral", "entertainment");
    assert_eq!(r, RiskLevel::Low);
}

#[test]
fn mid_sad_entertainment_scores_medium() {
    // 10 (amount) + 15 (sad) + 5 (entertainment) = 30 points.
    let r = assess_transaction_risk(2_000_000_000, "sad", "entertainment");
    assert_eq!(r, RiskLevel::Medium);
}

#[test]
fn scam_risk_type_alone_scores_high() {
    let r = assess_transaction_risk(0, "neutral", "scam_risk");
    assert_eq!(r, RiskLevel::High);
}

#[test]
fn amount_tier_boundaries() {
    // Exactly at a tier boundary the lower tier applies.
    assert_eq!(assess_transaction_risk(1_000_000_000, "neutral", "other"), RiskLevel::Low);
    // 20 + 20 = 40 -> medium; 30 + 20 = 50 -> high.
    assert_eq!(assess_transaction_risk(5_000_000_001, "excited", "other"), RiskLevel::Medium);
    assert_eq!(assess_transaction_risk(10_000_000_001, "excited", "other"), RiskLevel::High);
}

#[test]
fn urgent_bitcoin_romance_message_is_high_confidence() {
    let msg = "URGENT please send bitcoin right now I love you and need money";
    let indicators = detect_scam_patterns(msg);
    assert!(indicators.contains(&ScamIndicator::FinancialRequest));
    assert!(indicators.contains(&ScamIndicator::UrgencyPressure));
    assert!(indicators.contains(&ScamIndicator::RomanceManipulation));
    let confidence = calculate_scam_confidence(&indicators, msg);
    assert!(confidence >= 90);
    // 40 + 25 + 50 caps at 100.
    assert_eq!(confidence, 100);
}

#[test]
fn benign_message_has_no_indicators() {
    let msg = "see you at the cafe at eight";
    let indicators = detect_scam_patterns(msg);
    assert!(indicators.is_empty());
    assert_eq!(calculate_scam_confidence(&indicators, msg), 0);
}

#[test]
fn sob_story_scores_exactly_thirty() {
    let msg = "my cousin is in hospital";
    let indicators = detect_scam_patterns(msg);
    assert_eq!(indicators, vec![ScamIndicator::SobStory]);
    assert_eq!(calculate_scam_confidence(&indicators, msg), 30);
}

#[test]
fn shouty_message_trips_the_grammar_heuristic() {
    let msg = "AAAA BBBB CCCC";
    assert_eq!(count_upper(msg.as_bytes()), 12);
    let indicators = detect_scam_patterns(msg);
    assert_eq!(indicators, vec![ScamIndicator::SuspiciousGrammar]);
    assert_eq!(calculate_scam_confidence(&indicators, msg), 15);
}

#[test]
fn long_message_adds_ten_points() {
    let msg = "a".repeat(501);
    let indicators = detect_scam_patterns(&msg);
    assert!(indicators.is_empty());
    assert_eq!(calculate_scam_confidence(&indicators, &msg), 10);
}

#[test]
fn case_folding_reaches_keywords() {
    let msg = "SEND MONEY immediately";
    let indicators = detect_scam_patterns(msg);
    assert!(indicators.contains(&ScamIndicator::FinancialRequest));
    assert!(indicators.contains(&ScamIndicator::UrgencyPressure));
}

#[test]
fn advice_bands_escalate() {
    assert!(generate_safe_response(95).starts_with("HIGH SCAM RISK"));
    assert!(generate_safe_response(80).starts_with("POTENTIAL SCAM"));
    assert!(generate_safe_response(60).starts_with("SUSPICIOUS ACTIVITY"));
    assert!(generate_safe_response(10).starts_with("Message appears safe"));
}

#[test]
fn text_utilities_behave() {
    assert_eq!(to_lower(b"AbC!"), b"abc!".to_vec());
    assert!(contains_bytes(b"hello world", b"lo wo"));
    assert!(!contains_bytes(b"hello", b"world"));
    assert!(contains_bytes(b"abc", b""));
    assert!(!contains_bytes(b"ab", b"abc"));
    assert!(str_eq("same", "same"));
    assert!(!str_eq("same", "other"));
    assert_eq!(u64_to_string(0), "0");
    assert_eq!(u64_to_string(90210), "90210");
    assert_eq!(u64_to_string(u64::MAX), "18446744073709551615");
}
