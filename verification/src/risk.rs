//! Pure risk engine: transaction risk scoring and message scam detection.
//!
//! Both scorers are total, deterministic, table-driven functions: the same
//! inputs always yield the same level, no state is read or written.

use vstd::prelude::*;
use vstd::string::StringSliceAdditionalSpecFns;
use crate::text::{
    contains_seq, lower_bytes, upper_count, contains_bytes, to_lower,
    lemma_upper_count_bounds, str_eq,
};

verus! {

/// Risk level of a single transaction.
#[derive(Clone, Copy, Debug, PartialEq, Eq, Structural)]
pub enum RiskLevel {
    Low,
    Medium,
    High,
}

/// Points contributed by the transaction amount, in minor units.
pub open spec fn amount_points(amount: u64) -> int {
    if amount > 10_000_000_000 {
        30
    } else if amount > 5_000_000_000 {
        20
    } else if amount > 1_000_000_000 {
        10
    } else {
        0
    }
}

/// Points contributed by the caller's emotional state.
pub open spec fn emotional_points(tag: Seq<char>) -> int {
    if tag == "excited"@ || tag == "angry"@ || tag == "stressed"@ {
        20
    } else if tag == "sad"@ {
        15
    } else if tag == "happy"@ {
        5
    } else {
        0
    }
}

/// Points contributed by the transaction type.
pub open spec fn type_points(ttype: Seq<char>) -> int {
    if ttype == "dating_app"@ || ttype == "gift"@ {
        15
    } else if ttype == "entertainment"@ {
        5
    } else if ttype == "scam_risk"@ {
        50
    } else {
        0
    }
}

/// Total of the additive point model.
pub open spec fn risk_points(amount: u64, tag: Seq<char>, ttype: Seq<char>) -> int {
    amount_points(amount) + emotional_points(tag) + type_points(ttype)
}

/// The level that a point total maps to.
pub open spec fn level_of_points(points: int) -> RiskLevel {
    if points >= 50 {
        RiskLevel::High
    } else if points >= 25 {
        RiskLevel::Medium
    } else {
        RiskLevel::Low
    }
}

/// Risk level of a transaction under the additive point model.
pub open spec fn spec_transaction_risk(amount: u64, tag: Seq<char>, ttype: Seq<char>) -> RiskLevel {
    level_of_points(risk_points(amount, tag, ttype))
}

/// Scores a transaction: amount tiers, emotional tag and transaction type
/// each contribute a fixed weight; the total selects the level.
pub fn assess_transaction_risk(amount: u64, emotional_tag: &str, transaction_type: &str) -> (r:
    RiskLevel)
    ensures
        r == spec_transaction_risk(amount, emotional_tag@, transaction_type@),
{
    let mut points: u32 = 0;
    if amount > 10_000_000_000 {
        points = points + 30;
    } else if amount > 5_000_000_000 {
        points = points + 20;
    } else if amount > 1_000_000_000 {
        points = points + 10;
    }
    if str_eq(emotional_tag, "excited") || str_eq(emotional_tag, "angry") || str_eq(
        emotional_tag,
        "stressed",
    ) {
        points = points + 20;
    } else if str_eq(emotional_tag, "sad") {
        points = points + 15;
    } else if str_eq(emotional_tag, "happy") {
        points = points + 5;
    }
    if str_eq(transaction_type, "dating_app") || str_eq(transaction_type, "gift") {
        points = points + 15;
    } else if str_eq(transaction_type, "entertainment") {
        points = points + 5;
    } else if str_eq(transaction_type, "scam_risk") {
        points = points + 50;
    }
    if points >= 50 {
        RiskLevel::High
    } else if points >= 25 {
        RiskLevel::Medium
    } else {
        RiskLevel::Low
    }
}

/// One pattern that makes a message look like a scam.
#[derive(Clone, Copy, Debug, PartialEq, Eq, Structural)]
pub enum ScamIndicator {
    FinancialRequest,
    UrgencyPressure,
    RomanceManipulation,
    SobStory,
    SuspiciousGrammar,
}

/// Financial-request keywords, matched against the folded message.
pub open spec fn has_financial_request(low: Seq<u8>) -> bool {
    contains_seq(low, "send money".spec_bytes()) || contains_seq(low, "wire transfer".spec_bytes())
        || contains_seq(low, "bitcoin".spec_bytes()) || contains_seq(
        low,
        "cryptocurrency".spec_bytes(),
    )
}

/// Urgency keywords, matched against the folded message.
pub open spec fn has_urgency_pressure(low: Seq<u8>) -> bool {
    contains_seq(low, "urgent".spec_bytes()) || contains_seq(low, "emergency".spec_bytes())
        || contains_seq(low, "right now".spec_bytes()) || contains_seq(
        low,
        "immediately".spec_bytes(),
    )
}

/// The conjunction of romance and money keywords.
pub open spec fn has_romance_manipulation(low: Seq<u8>) -> bool {
    contains_seq(low, "love you".spec_bytes()) && contains_seq(low, "money".spec_bytes())
}

/// Sob-story keywords, matched against the folded message.
pub open spec fn has_sob_story(low: Seq<u8>) -> bool {
    contains_seq(low, "family emergency".spec_bytes()) || contains_seq(
        low,
        "hospital".spec_bytes(),
    ) || contains_seq(low, "accident".spec_bytes()) || contains_seq(low, "stuck".spec_bytes())
}

/// Excessive-uppercase heuristic over the raw message bytes.
pub open spec fn has_suspicious_grammar(m: Seq<u8>) -> bool {
    upper_count(m) > m.len() / 3
}

/// The ordered battery of pattern checks on a message.
pub open spec fn spec_indicators(m: Seq<u8>) -> Seq<ScamIndicator> {
    let low = lower_bytes(m);
    (if has_financial_request(low) {
        seq![ScamIndicator::FinancialRequest]
    } else {
        Seq::empty()
    }) + (if has_urgency_pressure(low) {
        seq![ScamIndicator::UrgencyPressure]
    } else {
        Seq::empty()
    }) + (if has_romance_manipulation(low) {
        seq![ScamIndicator::RomanceManipulation]
    } else {
        Seq::empty()
    }) + (if has_sob_story(low) {
        seq![ScamIndicator::SobStory]
    } else {
        Seq::empty()
    }) + (if has_suspicious_grammar(m) {
        seq![ScamIndicator::SuspiciousGrammar]
    } else {
        Seq::empty()
    })
}

/// Evaluates the fixed battery of pattern checks against the message.
pub fn detect_scam_patterns(message: &str) -> (r: Vec<ScamIndicator>)
    ensures
        r@ == spec_indicators(message.spec_bytes()),
{
    let bytes = message.as_bytes();
    let low = to_lower(bytes);
    let lows = low.as_slice();
    let mut r: Vec<ScamIndicator> = Vec::new();
    if contains_bytes(lows, "send money".as_bytes()) || contains_bytes(
        lows,
        "wire transfer".as_bytes(),
    ) || contains_bytes(lows, "bitcoin".as_bytes()) || contains_bytes(
        lows,
        "cryptocurrency".as_bytes(),
    ) {
        r.push(ScamIndicator::FinancialRequest);
    }
    if contains_bytes(lows, "urgent".as_bytes()) || contains_bytes(lows, "emergency".as_bytes())
        || contains_bytes(lows, "right now".as_bytes()) || contains_bytes(
        lows,
        "immediately".as_bytes(),
    ) {
        r.push(ScamIndicator::UrgencyPressure);
    }
    if contains_bytes(lows, "love you".as_bytes()) && contains_bytes(lows, "money".as_bytes()) {
        r.push(ScamIndicator::RomanceManipulation);
    }
    if contains_bytes(lows, "family emergency".as_bytes()) || contains_bytes(
        lows,
        "hospital".as_bytes(),
    ) || contains_bytes(lows, "accident".as_bytes()) || contains_bytes(lows, "stuck".as_bytes()) {
        r.push(ScamIndicator::SobStory);
    }
    let upper = count_upper(bytes);
    if upper > bytes.len() / 3 {
        r.push(ScamIndicator::SuspiciousGrammar);
    }
    proof {
        assert(r@ =~= spec_indicators(message.spec_bytes()));
    }
    r
}

/// Number of ASCII capital letters in a byte slice.
pub fn count_upper(s: &[u8]) -> (r: usize)
    ensures
        r == upper_count(s@),
{
    broadcast use lemma_upper_count_bounds;

    let n = s.len();
    let mut r: usize = 0;
    let mut i: usize = 0;
    while i < n
        invariant
            n == s@.len(),
            0 <= i <= n,
            r <= i,
            r == upper_count(s@.take(i as int)),
        decreases n - i,
    {
        proof {
            assert(s@.take(i + 1).drop_last() =~= s@.take(i as int));
            assert(s@.take(i + 1).last() == s@[i as int]);
        }
        let b = s[i];
        if 65 <= b && b <= 90 {
            r = r + 1;
        }
        proof {
            assert(r == upper_count(s@.take(i + 1)));
        }
        i = i + 1;
    }
    proof {
        assert(s@.take(n as int) =~= s@);
    }
    r
}

/// The weight that one matched indicator contributes.
pub open spec fn indicator_weight(i: ScamIndicator) -> int {
    match i {
        ScamIndicator::FinancialRequest => 40,
        ScamIndicator::UrgencyPressure => 25,
        ScamIndicator::RomanceManipulation => 50,
        ScamIndicator::SobStory => 30,
        ScamIndicator::SuspiciousGrammar => 15,
    }
}

/// Sum of the weights of a list of indicators.
pub open spec fn weight_sum(s: Seq<ScamIndicator>) -> int
    decreases s.len(),
{
    if s.len() == 0 {
        0
    } else {
        weight_sum(s.drop_last()) + indicator_weight(s.last())
    }
}

/// Scam confidence of a message: the weight sum, plus a fixed bonus for
/// messages over the length threshold, capped at 100.
pub open spec fn spec_confidence(inds: Seq<ScamIndicator>, m: Seq<u8>) -> int {
    let raw = weight_sum(inds) + if m.len() > 500 {
        10int
    } else {
        0int
    };
    if raw > 100 {
        100
    } else {
        raw
    }
}

proof fn lemma_weight_sum_nonneg(s: Seq<ScamIndicator>)
    ensures
        weight_sum(s) >= 0,
    decreases s.len(),
{
    if s.len() > 0 {
        lemma_weight_sum_nonneg(s.drop_last());
    }
}

/// Sums the weights of the matched indicators, adds the long-message
/// bonus, and caps the result at 100.
pub fn calculate_scam_confidence(indicators: &Vec<ScamIndicator>, message: &str) -> (r: u32)
    ensures
        r == spec_confidence(indicators@, message.spec_bytes()),
        r <= 100,
{
    let n = indicators.len();
    let mut acc: u32 = 0;
    let mut i: usize = 0;
    while i < n
        invariant
            n == indicators@.len(),
            0 <= i <= n,
            acc <= 100,
            acc == if weight_sum(indicators@.take(i as int)) > 100 {
                100int
            } else {
                weight_sum(indicators@.take(i as int))
            },
        decreases n - i,
    {
        proof {
            assert(indicators@.take(i + 1).drop_last() =~= indicators@.take(i as int));
            assert(indicators@.take(i + 1).last() == indicators@[i as int]);
            lemma_weight_sum_nonneg(indicators@.take(i as int));
        }
        let w: u32 = match indicators[i] {
            ScamIndicator::FinancialRequest => 40,
            ScamIndicator::UrgencyPressure => 25,
            ScamIndicator::RomanceManipulation => 50,
            ScamIndicator::SobStory => 30,
            ScamIndicator::SuspiciousGrammar => 15,
        };
        acc = acc + w;
        if acc > 100 {
            acc = 100;
        }
        i = i + 1;
    }
    proof {
        assert(indicators@.take(n as int) =~= indicators@);
        lemma_weight_sum_nonneg(indicators@);
        assert(acc == if weight_sum(indicators@) > 100 {
            100int
        } else {
            weight_sum(indicators@)
        });
    }
    if message.as_bytes().len() > 500 {
        acc = acc + 10;
    }
    if acc > 100 {
        acc = 100;
    }
    acc
}

/// The escalating guidance for one confidence band.
pub open spec fn spec_safe_response(confidence: int) -> Seq<char> {
    if confidence >= 90 {
        "HIGH SCAM RISK: Do not send money or personal info. Block and report this user."@
    } else if confidence >= 75 {
        "POTENTIAL SCAM: Be very cautious. Never send money to someone you haven't met."@
    } else if confidence >= 50 {
        "SUSPICIOUS ACTIVITY: Take your time. Verify their identity before sharing personal details."@
    } else {
        "Message appears safe, but always trust your instincts."@
    }
}

/// Maps a confidence band to fixed guidance text.
pub fn generate_safe_response(confidence: u32) -> (r: String)
    ensures
        r@ == spec_safe_response(confidence as int),
{
    if confidence >= 90 {
        "HIGH SCAM RISK: Do not send money or personal info. Block and report this user.".to_owned()
    } else if confidence >= 75 {
        "POTENTIAL SCAM: Be very cautious. Never send money to someone you haven't met.".to_owned()
    } else if confidence >= 50 {
        "SUSPICIOUS ACTIVITY: Take your time. Verify their identity before sharing personal details.".to_owned()
    } else {
        "Message appears safe, but always trust your instincts.".to_owned()
    }
}

} // verus!
