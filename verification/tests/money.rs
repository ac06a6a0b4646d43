//! Tests of the wallet store and the two-phase money operations:
//! deposits, transfers, reservations and their failure paths.

use osint_cafe_backend::errors::CafeError;
use osint_cafe_backend::ledger::mask_account_identifier;
use osint_cafe_backend::payments::TxStatus;
use osint_cafe_backend::principal::Principal;
use osint_cafe_backend::state::Cafe;

fn p(tag: u8) -> Principal {
    Principal::from_bytes(vec![1, tag])
}

fn fresh() -> Cafe {
    Cafe::new(1_000)
}

#[test]
fn create_wallet_and_read_it_back() {
    let mut cafe = fresh();
    let w = cafe.create_wallet(p(1), Some("ada".to_string()), 2_000).unwrap();
    assert_eq!(w.icp_balance, 0);
    assert_eq!(w.trust_score, 50);
    assert_eq!(w.nickname, Some("ada".to_string()));
    let again = cafe.get_my_wallet(&p(1)).unwrap();
    assert_eq!(again.created_at, 2_000);
    assert_eq!(cafe.get_wallet_stats().total_wallets, 1);
}

#[test]
fn duplicate_wallet_is_a_conflict() {
    let mut cafe = fresh();
    cafe.create_wallet(p(1), None, 2_000).unwrap();
    assert_eq!(cafe.create_wallet(p(1), None, 3_000).err(),
        Some(CafeError::ConflictError));
}

#[test]
fn anonymous_caller_is_rejected_everywhere() {
    let mut cafe = fresh();
    let anon = Principal::anonymous();
    assert_eq!(cafe.create_wallet(Principal::anonymous(), None, 2_000).err(),
        Some(CafeError::AuthError));
    assert_eq!(cafe.get_my_wallet(&anon).err(), Some(CafeError::AuthError));
    assert_eq!(cafe.get_wallet_balance(&anon).err(), Some(CafeError::AuthError));
    assert_eq!(cafe.send_money_begin(&anon, &p(2), 10, None, 2_000).err(),
        Some(CafeError::AuthError));
    assert_eq!(cafe.deposit_money_begin(&anon, 10, "venmo".to_string(),
        "x1".to_string(), 2_000).err(), Some(CafeError::AuthError));
}

#[test]
fn missing_wallet_is_not_found() {
    let cafe = fresh();
    assert_eq!(cafe.get_my_wallet(&p(9)).err(), Some(CafeError::NotFoundError));
    assert_eq!(cafe.get_wallet_balance(&p(9)).err(), Some(CafeError::NotFoundError));
}

#[test]
fn deposit_credits_only_after_the_adapter_succeeds() {
    let mut cafe = fresh();
    cafe.create_wallet(p(1), None, 2_000).unwrap();
    let id = cafe.deposit_money_begin(&p(1), 500, "venmo".to_string(),
        "ext-1".to_string(), 3_000).unwrap();
    // While the adapter call is pending, nothing is credited.
    assert_eq!(cafe.get_wallet_balance(&p(1)).unwrap(), 0);
    cafe.deposit_money_finish(id, true, 4_000).unwrap();
    // 500 external units at 100 minor units each.
    assert_eq!(cafe.get_wallet_balance(&p(1)).unwrap(), 50_000);
}

#[test]
fn failed_deposit_never_credits() {
    let mut cafe = fresh();
    cafe.create_wallet(p(1), None, 2_000).unwrap();
    let id = cafe.deposit_money_begin(&p(1), 500, "venmo".to_string(),
        "ext-1".to_string(), 3_000).unwrap();
    cafe.deposit_money_finish(id, false, 4_000).unwrap();
    assert_eq!(cafe.get_wallet_balance(&p(1)).unwrap(), 0);
}

#[test]
fn deposits_are_idempotent_per_external_reference() {
    let mut cafe = fresh();
    cafe.create_wallet(p(1), None, 2_000).unwrap();
    let id = cafe.deposit_money_begin(&p(1), 500, "venmo".to_string(),
        "ext-1".to_string(), 3_000).unwrap();
    // A repeated request for the same external reference returns the same
    // deposit instead of recording a second one.
    let again = cafe.deposit_money_begin(&p(1), 500, "venmo".to_string(),
        "ext-1".to_string(), 3_500).unwrap();
    assert_eq!(id, again);
    cafe.deposit_money_finish(id, true, 4_000).unwrap();
    // Settling the same deposit twice is refused, so no duplicate credit.
    assert_eq!(cafe.deposit_money_finish(id, true, 5_000),
        Err(CafeError::ConflictError));
    assert_eq!(cafe.get_wallet_balance(&p(1)).unwrap(), 50_000);
}

#[test]
fn deposit_validation_errors() {
    let mut cafe = fresh();
    cafe.create_wallet(p(1), None, 2_000).unwrap();
    assert_eq!(cafe.deposit_money_begin(&p(1), 0, "venmo".to_string(),
        "e".to_string(), 3_000), Err(CafeError::ValidationError));
    assert_eq!(cafe.deposit_money_begin(&p(2), 5, "venmo".to_string(),
        "e".to_string(), 3_000), Err(CafeError::NotFoundError));
    assert_eq!(cafe.deposit_money_finish(77, true, 3_000),
        Err(CafeError::NotFoundError));
}

fn funded(cafe: &mut Cafe, who: u8, amount_external: u64, now: u64) {
    cafe.create_wallet(p(who), None, now).unwrap();
    let ext = format!("fund-{}-{}", who, now);
    let id = cafe.deposit_money_begin(&p(who), amount_external, "venmo".to_string(),
        ext, now + 1).unwrap();
    cafe.deposit_money_finish(id, true, now + 2).unwrap();
}

#[test]
fn transfer_moves_funds_and_creates_recipient_wallet() {
    let mut cafe = fresh();
    funded(&mut cafe, 1, 100, 2_000);  // 10_000 minor units
    let tx = cafe.send_money_begin(&p(1), &p(2), 4_000, Some("rent".to_string()),
        3_000).unwrap();
    // Reserved but not yet debited while the external call is pending.
    assert_eq!(cafe.get_wallet_balance(&p(1)).unwrap(), 10_000);
    cafe.send_money_finish(tx, true, Some(42), 4_000).unwrap();
    assert_eq!(cafe.get_wallet_balance(&p(1)).unwrap(), 6_000);
    assert_eq!(cafe.get_wallet_balance(&p(2)).unwrap(), 4_000);
    let history = cafe.get_transaction_history(&p(1)).unwrap();
    assert_eq!(history.len(), 1);
    assert_eq!(history[0].status, TxStatus::Completed);
    assert_eq!(history[0].icp_block_index, Some(42));
}

#[test]
fn transfer_round_trip_restores_both_balances() {
    let mut cafe = fresh();
    funded(&mut cafe, 1, 100, 2_000);
    funded(&mut cafe, 2, 30, 5_000);
    let t1 = cafe.send_money_begin(&p(1), &p(2), 400, None, 6_000).unwrap();
    cafe.send_money_finish(t1, true, None, 7_000).unwrap();
    let t2 = cafe.send_money_begin(&p(2), &p(1), 400, None, 8_000).unwrap();
    cafe.send_money_finish(t2, true, None, 9_000).unwrap();
    assert_eq!(cafe.get_wallet_balance(&p(1)).unwrap(), 10_000);
    assert_eq!(cafe.get_wallet_balance(&p(2)).unwrap(), 3_000);
}

#[test]
fn concurrent_transfers_cannot_spend_the_same_funds() {
    let mut cafe = fresh();
    funded(&mut cafe, 1, 10, 2_000);  // balance 1_000
    // Two transfers of 60% of the balance each: the first reserves, so at
    // most one passes the balance check.
    let t1 = cafe.send_money_begin(&p(1), &p(2), 600, None, 3_000).unwrap();
    assert_eq!(cafe.send_money_begin(&p(1), &p(3), 600, None, 3_500),
        Err(CafeError::InsufficientFundsError));
    cafe.send_money_finish(t1, true, None, 4_000).unwrap();
    // The final balance reflects exactly one debit.
    assert_eq!(cafe.get_wallet_balance(&p(1)).unwrap(), 400);
    assert_eq!(cafe.get_wallet_balance(&p(2)).unwrap(), 600);
    assert_eq!(cafe.get_wallet_balance(&p(3)), Err(CafeError::NotFoundError));
}

#[test]
fn failed_transfer_releases_the_reservation() {
    let mut cafe = fresh();
    funded(&mut cafe, 1, 10, 2_000);
    let t1 = cafe.send_money_begin(&p(1), &p(2), 600, None, 3_000).unwrap();
    cafe.send_money_finish(t1, false, None, 4_000).unwrap();
    // The reservation is rolled back in full.
    assert_eq!(cafe.get_wallet_balance(&p(1)).unwrap(), 1_000);
    let t2 = cafe.send_money_begin(&p(1), &p(2), 1_000, None, 5_000).unwrap();
    cafe.send_money_finish(t2, true, None, 6_000).unwrap();
    assert_eq!(cafe.get_wallet_balance(&p(1)).unwrap(), 0);
    let history = cafe.get_transaction_history(&p(1)).unwrap();
    assert_eq!(history.len(), 2);
    assert_eq!(history[0].status, TxStatus::Failed);
    assert_eq!(history[1].status, TxStatus::Completed);
}

#[test]
fn transfer_validation_errors() {
    let mut cafe = fresh();
    funded(&mut cafe, 1, 10, 2_000);
    assert_eq!(cafe.send_money_begin(&p(1), &p(2), 0, None, 3_000),
        Err(CafeError::ValidationError));
    assert_eq!(cafe.send_money_begin(&p(1), &Principal::anonymous(), 5, None, 3_000),
        Err(CafeError::ValidationError));
    assert_eq!(cafe.send_money_begin(&p(9), &p(2), 5, None, 3_000),
        Err(CafeError::InsufficientFundsError));
    assert_eq!(cafe.send_money_finish(7, true, None, 3_000),
        Err(CafeError::NotFoundError));
}

#[test]
fn self_transfer_keeps_the_balance() {
    let mut cafe = fresh();
    funded(&mut cafe, 1, 10, 2_000);
    let t = cafe.send_money_begin(&p(1), &p(1), 300, None, 3_000).unwrap();
    cafe.send_money_finish(t, true, None, 4_000).unwrap();
    assert_eq!(cafe.get_wallet_balance(&p(1)).unwrap(), 1_000);
}

#[test]
fn settings_update_is_atomic_and_validated() {
    let mut cafe = fresh();
    cafe.create_wallet(p(1), None, 2_000).unwrap();
    // Warning threshold above the daily limit is rejected.
    assert_eq!(cafe.update_wallet_settings(&p(1), Some(1_000), Some(2_000), None,
        None, 3_000), Err(CafeError::ValidationError));
    // Limit above the platform ceiling is rejected.
    assert_eq!(cafe.update_wallet_settings(&p(1), Some(100_000_000_001), None, None,
        None, 3_000), Err(CafeError::ValidationError));
    // Cooling-off period above the ceiling is rejected.
    assert_eq!(cafe.update_wallet_settings(&p(1), None, None, Some(86_401),
        None, 3_000), Err(CafeError::ValidationError));
    // A 33-unit nickname is rejected.
    let long = "x".repeat(33);
    assert_eq!(cafe.update_wallet_settings(&p(1), None, None, None, Some(long), 3_000),
        Err(CafeError::ValidationError));
    // A full valid update is applied.
    cafe.update_wallet_settings(&p(1), Some(2_000_000_000), Some(1_500_000_000),
        Some(7_200), Some("meg".to_string()), 4_000).unwrap();
    let w = cafe.get_my_wallet(&p(1)).unwrap();
    assert_eq!(w.spending_patterns.daily_limit, 2_000_000_000);
    assert_eq!(w.spending_patterns.warning_threshold, 1_500_000_000);
    assert_eq!(w.spending_patterns.cooling_off_period, 7_200);
    assert_eq!(w.nickname, Some("meg".to_string()));
    assert_eq!(cafe.update_wallet_settings(&p(2), None, None, None, None, 5_000),
        Err(CafeError::NotFoundError));
}

#[test]
fn linked_accounts_are_masked() {
    let mut cafe = fresh();
    let masked = cafe.link_payment_account(&p(1), "venmo".to_string(), "123456789",
        "main".to_string(), 2_000).unwrap();
    assert_eq!(masked, "****6789");
    assert_eq!(cafe.link_payment_account(&p(1), "paypal".to_string(), "123456789",
        "x".to_string(), 3_000), Err(CafeError::ValidationError));
    let accounts = cafe.get_linked_accounts(&p(1)).unwrap();
    assert_eq!(accounts.len(), 1);
    assert_eq!(accounts[0].account_identifier, "****6789");
    assert_eq!(accounts[0].account_type, "venmo");
    assert!(accounts[0].is_verified);
    assert!(cafe.get_linked_accounts(&p(2)).unwrap().is_empty());
}

#[test]
fn masking_hides_short_identifiers_entirely() {
    assert_eq!(mask_account_identifier("12"), "****");
    assert_eq!(mask_account_identifier("1234"), "****");
    assert_eq!(mask_account_identifier("12345"), "****2345");
}

#[test]
fn credit_overflow_fails_the_deposit_without_crediting() {
    let mut cafe = fresh();
    cafe.create_wallet(p(1), None, 2_000).unwrap();
    // The largest representable deposit leaves the balance 15 minor units
    // under the ceiling.
    let max_units = u64::MAX / 100;
    assert_eq!(cafe.deposit_money_begin(&p(1), max_units + 1, "venmo".to_string(),
        "big0".to_string(), 3_000), Err(CafeError::ValidationError));
    let d1 = cafe.deposit_money_begin(&p(1), max_units, "venmo".to_string(),
        "big1".to_string(), 3_000).unwrap();
    cafe.deposit_money_finish(d1, true, 4_000).unwrap();
    assert_eq!(cafe.get_wallet_balance(&p(1)).unwrap(), max_units * 100);
    // One more minimal deposit cannot be represented: it is marked failed
    // and nothing is credited.
    let d2 = cafe.deposit_money_begin(&p(1), 1, "venmo".to_string(),
        "big2".to_string(), 5_000).unwrap();
    assert_eq!(cafe.deposit_money_finish(d2, true, 6_000),
        Err(CafeError::ValidationError));
    assert_eq!(cafe.get_wallet_balance(&p(1)).unwrap(), max_units * 100);
}

#[test]
fn credit_overflow_rolls_back_a_transfer() {
    let mut cafe = fresh();
    cafe.create_wallet(p(1), None, 2_000).unwrap();
    let max_units = u64::MAX / 100;
    let d1 = cafe.deposit_money_begin(&p(1), max_units, "venmo".to_string(),
        "big1".to_string(), 3_000).unwrap();
    cafe.deposit_money_finish(d1, true, 4_000).unwrap();
    funded(&mut cafe, 2, 10, 5_000);
    // Crediting 16 more minor units would overflow the rich wallet: the
    // transfer fails, the sender keeps the money, the reservation is
    // released.
    let t = cafe.send_money_begin(&p(2), &p(1), 16, None, 6_000).unwrap();
    assert_eq!(cafe.send_money_finish(t, true, None, 7_000),
        Err(CafeError::ValidationError));
    assert_eq!(cafe.get_wallet_balance(&p(2)).unwrap(), 1_000);
    assert_eq!(cafe.get_wallet_balance(&p(1)).unwrap(), max_units * 100);
    let history = cafe.get_transaction_history(&p(2)).unwrap();
    assert_eq!(history[0].status, TxStatus::Failed);
}

#[test]
fn history_limit_zero_returns_nothing() {
    let mut cafe = fresh();
    cafe.record_spending(&p(1), 5, "happy".to_string(), "entertainment".to_string(),
        None, 2_000).unwrap();
    assert!(cafe.get_spending_history(&p(1), Some(0)).unwrap().is_empty());
    assert!(cafe.get_spending_history(&p(7), None).unwrap().is_empty());
}

#[test]
fn transfers_leave_wallet_identities_untouched() {
    let mut cafe = fresh();
    let w = cafe.create_wallet(p(1), Some("ada".to_string()), 2_000).unwrap();
    assert_eq!(w.trust_score, 50);
    funded(&mut cafe, 3, 7, 3_000);  // a bystander wallet
    let ext = "fund-1".to_string();
    let d = cafe.deposit_money_begin(&p(1), 10, "venmo".to_string(), ext, 4_000).unwrap();
    cafe.deposit_money_finish(d, true, 5_000).unwrap();
    let t = cafe.send_money_begin(&p(1), &p(2), 400, None, 6_000).unwrap();
    cafe.send_money_finish(t, true, None, 7_000).unwrap();
    // Only balances moved: the sender keeps its identity fields and the
    // bystander wallet is untouched.
    let sender = cafe.get_my_wallet(&p(1)).unwrap();
    assert_eq!(sender.nickname, Some("ada".to_string()));
    assert_eq!(sender.trust_score, 50);
    assert_eq!(sender.created_at, 2_000);
    let bystander = cafe.get_my_wallet(&p(3)).unwrap();
    assert_eq!(bystander.icp_balance, 700);
    assert_eq!(bystander.trust_score, 50);
}
