//! Tests of the prediction-market settlement engine.

use subspace_explorer::prediction_market::{
    derive_signer, ErrorCode, EscrowVault, MarketRegistry,
};

const AUTHORITY: u64 = 1;
const USER_A: u64 = 2;
const USER_B: u64 = 3;
const USER_C: u64 = 4;
const USER_D: u64 = 5;
const EXPIRY: i64 = 1_000;
const BEFORE: i64 = 500;
const AFTER: i64 = 1_000;

fn open_market(r: &mut MarketRegistry, pair: &str, target: u64) -> usize {
    r.initialize_market(AUTHORITY, pair.to_string(), target, EXPIRY)
        .expect("market should open")
}

#[test]
fn test_scenario_two_sides() {
    // target 100; A stakes 100 on yes, B stakes 300 on no; final price
    // 150 settles to yes; A claims the whole pool, B is not a winner.
    let mut r = MarketRegistry::new();
    let mid = open_market(&mut r, "BTC/USDC", 100);
    let pa = r.place_prediction(mid, USER_A, 100, true, BEFORE).unwrap();
    let pb = r.place_prediction(mid, USER_B, 300, false, BEFORE).unwrap();
    assert_eq!(r.settle_market(mid, AUTHORITY, 150, AFTER), Ok(()));
    assert!(r.markets[mid].outcome);
    assert_eq!(r.claim_winnings(pa, USER_A), Ok(400));
    assert_eq!(r.claim_winnings(pb, USER_B), Err(ErrorCode::NotWinner));
    assert_eq!(r.vaults[mid].balance, 0);
}

#[test]
fn test_scenario_dust() {
    // Three yes stakers of 1 each, one no staker of 10; outcome yes.
    // Each winner gets floor(1 * 13 / 3) = 4; 12 paid, 1 left as dust.
    let mut r = MarketRegistry::new();
    let mid = open_market(&mut r, "SOL/USDC", 100);
    let p1 = r.place_prediction(mid, USER_A, 1, true, BEFORE).unwrap();
    let p2 = r.place_prediction(mid, USER_B, 1, true, BEFORE).unwrap();
    let p3 = r.place_prediction(mid, USER_C, 1, true, BEFORE).unwrap();
    let p4 = r.place_prediction(mid, USER_D, 10, false, BEFORE).unwrap();
    assert_eq!(r.settle_market(mid, AUTHORITY, 120, AFTER), Ok(()));
    assert_eq!(r.claim_winnings(p1, USER_A), Ok(4));
    assert_eq!(r.claim_winnings(p2, USER_B), Ok(4));
    assert_eq!(r.claim_winnings(p3, USER_C), Ok(4));
    assert_eq!(r.claim_winnings(p4, USER_D), Err(ErrorCode::NotWinner));
    assert_eq!(r.vaults[mid].balance, 1);
}

#[test]
fn test_scenario_zero_amount_rejected() {
    let mut r = MarketRegistry::new();
    let mid = open_market(&mut r, "BTC/USDC", 100);
    assert_eq!(
        r.place_prediction(mid, USER_A, 0, true, BEFORE),
        Err(ErrorCode::InvalidAmount)
    );
    assert_eq!(r.positions.len(), 0);
}

#[test]
fn test_scenario_duplicate_market() {
    let mut r = MarketRegistry::new();
    let _ = open_market(&mut r, "BTC/USDC", 100);
    assert_eq!(
        r.initialize_market(USER_A, "BTC/USDC".to_string(), 200, EXPIRY),
        Err(ErrorCode::DuplicateMarket)
    );
    assert_eq!(r.markets.len(), 1);
    // A different pair is accepted.
    assert_eq!(
        r.initialize_market(USER_A, "ETH/USDC".to_string(), 200, EXPIRY),
        Ok(1)
    );
}

#[test]
fn test_place_after_expiry_fails() {
    let mut r = MarketRegistry::new();
    let mid = open_market(&mut r, "BTC/USDC", 100);
    assert_eq!(
        r.place_prediction(mid, USER_A, 10, true, EXPIRY),
        Err(ErrorCode::MarketExpired)
    );
    assert_eq!(r.positions.len(), 0);
    assert_eq!(r.markets[mid].total_yes_stake, 0);
}

#[test]
fn test_place_on_settled_market_fails() {
    let mut r = MarketRegistry::new();
    let mid = open_market(&mut r, "BTC/USDC", 100);
    assert_eq!(r.settle_market(mid, AUTHORITY, 50, AFTER), Ok(()));
    assert_eq!(
        r.place_prediction(mid, USER_A, 10, true, BEFORE),
        Err(ErrorCode::MarketSettled)
    );
}

#[test]
fn test_settle_before_expiry_fails() {
    let mut r = MarketRegistry::new();
    let mid = open_market(&mut r, "BTC/USDC", 100);
    assert_eq!(
        r.settle_market(mid, AUTHORITY, 150, BEFORE),
        Err(ErrorCode::MarketNotExpired)
    );
    assert!(!r.markets[mid].is_settled);
}

#[test]
fn test_second_settle_fails() {
    let mut r = MarketRegistry::new();
    let mid = open_market(&mut r, "BTC/USDC", 100);
    assert_eq!(r.settle_market(mid, AUTHORITY, 150, AFTER), Ok(()));
    assert_eq!(
        r.settle_market(mid, AUTHORITY, 50, AFTER),
        Err(ErrorCode::AlreadySettled)
    );
    // The first settlement stands untouched.
    assert_eq!(r.markets[mid].final_price, Some(150));
    assert!(r.markets[mid].outcome);
}

#[test]
fn test_settle_by_non_authority_fails() {
    let mut r = MarketRegistry::new();
    let mid = open_market(&mut r, "BTC/USDC", 100);
    assert_eq!(
        r.settle_market(mid, USER_A, 150, AFTER),
        Err(ErrorCode::Unauthorized)
    );
    assert!(!r.markets[mid].is_settled);
}

#[test]
fn test_settle_tie_resolves_to_yes() {
    let mut r = MarketRegistry::new();
    let mid = open_market(&mut r, "BTC/USDC", 100);
    assert_eq!(r.settle_market(mid, AUTHORITY, 100, AFTER), Ok(()));
    assert!(r.markets[mid].outcome);
}

#[test]
fn test_claim_before_settlement_fails() {
    let mut r = MarketRegistry::new();
    let mid = open_market(&mut r, "BTC/USDC", 100);
    let pid = r.place_prediction(mid, USER_A, 10, true, BEFORE).unwrap();
    assert_eq!(
        r.claim_winnings(pid, USER_A),
        Err(ErrorCode::MarketNotSettled)
    );
}

#[test]
fn test_second_claim_fails() {
    let mut r = MarketRegistry::new();
    let mid = open_market(&mut r, "BTC/USDC", 100);
    let pid = r.place_prediction(mid, USER_A, 10, true, BEFORE).unwrap();
    assert_eq!(r.settle_market(mid, AUTHORITY, 150, AFTER), Ok(()));
    assert_eq!(r.claim_winnings(pid, USER_A), Ok(10));
    let balance = r.vaults[mid].balance;
    assert_eq!(
        r.claim_winnings(pid, USER_A),
        Err(ErrorCode::AlreadyClaimed)
    );
    // The failed second claim issued no transfer.
    assert_eq!(r.vaults[mid].balance, balance);
}

#[test]
fn test_claim_by_non_owner_fails() {
    let mut r = MarketRegistry::new();
    let mid = open_market(&mut r, "BTC/USDC", 100);
    let pid = r.place_prediction(mid, USER_A, 10, true, BEFORE).unwrap();
    assert_eq!(r.settle_market(mid, AUTHORITY, 150, AFTER), Ok(()));
    assert_eq!(r.claim_winnings(pid, USER_B), Err(ErrorCode::Unauthorized));
    assert!(!r.positions[pid].claimed);
}

#[test]
fn test_stake_total_overflow_rejected() {
    let mut r = MarketRegistry::new();
    let mid = open_market(&mut r, "BTC/USDC", 100);
    assert!(r.place_prediction(mid, USER_A, u64::MAX, true, BEFORE).is_ok());
    assert_eq!(
        r.place_prediction(mid, USER_B, 1, false, BEFORE),
        Err(ErrorCode::ArithmeticOverflow)
    );
    assert_eq!(r.positions.len(), 1);
    assert_eq!(r.markets[mid].total_no_stake, 0);
}

#[test]
fn test_empty_winning_side_strands_pool() {
    // Everyone staked no, but the market settles yes: nothing is
    // claimable and the whole pool stays in the vault.
    let mut r = MarketRegistry::new();
    let mid = open_market(&mut r, "BTC/USDC", 100);
    let pid = r.place_prediction(mid, USER_A, 25, false, BEFORE).unwrap();
    assert_eq!(r.settle_market(mid, AUTHORITY, 150, AFTER), Ok(()));
    assert_eq!(r.claim_winnings(pid, USER_A), Err(ErrorCode::NotWinner));
    assert_eq!(r.vaults[mid].balance, 25);
}

#[test]
fn test_totals_track_positions() {
    let mut r = MarketRegistry::new();
    let mid = open_market(&mut r, "BTC/USDC", 100);
    r.place_prediction(mid, USER_A, 5, true, BEFORE).unwrap();
    r.place_prediction(mid, USER_B, 7, true, BEFORE).unwrap();
    r.place_prediction(mid, USER_C, 11, false, BEFORE).unwrap();
    assert_eq!(r.markets[mid].total_yes_stake, 12);
    assert_eq!(r.markets[mid].total_no_stake, 11);
    assert_eq!(r.vaults[mid].balance, 23);
    assert_eq!(r.positions.len(), 3);
}

#[test]
fn test_vault_rejects_foreign_capability() {
    let mut v = EscrowVault { market_id: 0, nonce: 0, balance: 100 };
    let wrong_market = derive_signer(1, 0);
    assert_eq!(
        v.withdraw(&wrong_market, 10),
        Err(ErrorCode::Unauthorized)
    );
    let wrong_nonce = derive_signer(0, 7);
    assert_eq!(v.withdraw(&wrong_nonce, 10), Err(ErrorCode::Unauthorized));
    assert_eq!(v.balance, 100);
}

#[test]
fn test_vault_rejects_overdraw() {
    let mut v = EscrowVault { market_id: 0, nonce: 0, balance: 100 };
    let auth = derive_signer(0, 0);
    assert_eq!(
        v.withdraw(&auth, 101),
        Err(ErrorCode::InsufficientVaultFunds)
    );
    assert_eq!(v.balance, 100);
    assert_eq!(v.withdraw(&auth, 100), Ok(()));
    assert_eq!(v.balance, 0);
}

#[test]
fn test_markets_are_independent() {
    let mut r = MarketRegistry::new();
    let m1 = open_market(&mut r, "BTC/USDC", 100);
    let m2 = open_market(&mut r, "ETH/USDC", 50);
    let p1 = r.place_prediction(m1, USER_A, 10, true, BEFORE).unwrap();
    let p2 = r.place_prediction(m2, USER_A, 20, false, BEFORE).unwrap();
    assert_eq!(r.settle_market(m2, AUTHORITY, 40, AFTER), Ok(()));
    // m1 is still open; m2 settled to no.
    assert!(!r.markets[m1].is_settled);
    assert_eq!(
        r.claim_winnings(p1, USER_A),
        Err(ErrorCode::MarketNotSettled)
    );
    assert_eq!(r.claim_winnings(p2, USER_A), Ok(20));
    assert_eq!(r.vaults[m1].balance, 10);
    assert_eq!(r.vaults[m2].balance, 0);
}

#[test]
fn test_pair_key_at_size_bound() {
    let pair: String = "A".repeat(64);
    let mut r = MarketRegistry::new();
    assert_eq!(r.initialize_market(AUTHORITY, pair, 1, EXPIRY), Ok(0));
}
