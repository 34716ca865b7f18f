use testnet4_miner::block_builder::MIN_DIFFICULTY_BITS;
use testnet4_miner::rpc::BlockTemplate;
use testnet4_miner::schedule::{
    block_subsidy, coinbase_terms, mining_plan, next_extra_nonce, plan_twenty_min_rule, MiningPlan,
    RuleOutcome, TwentyMinRule, EXTRA_NONCE_VARIATIONS, submission_wait, submit_error_action, sync_status,
    template_is_stale, twenty_min_rule_after, RulePlan, SubmissionWait, SubmitAction, SyncStatus,
};

fn template(height: u64, bits: &str) -> BlockTemplate {
    BlockTemplate {
        version: 0x2000_0000,
        previous_block_hash: "00aa".to_string(),
        transactions: vec![],
        coinbasevalue: 5_000_012_345,
        target: String::new(),
        cur_time: 1_700_000_000,
        mintime: 1_699_000_000,
        bits: bits.to_string(),
        height,
        default_witness_commitment: Some("6a24aa21a9ed".to_string()),
    }
}

#[test]
fn subsidy_schedule() {
    assert_eq!(block_subsidy(0), 5_000_000_000);
    assert_eq!(block_subsidy(209_999), 5_000_000_000);
    assert_eq!(block_subsidy(210_000), 2_500_000_000);
    assert_eq!(block_subsidy(420_000), 1_250_000_000);
    assert_eq!(block_subsidy(840_000), 312_500_000);
    assert_eq!(block_subsidy(32 * 210_000), 1);
    assert_eq!(block_subsidy(33 * 210_000), 0);
    assert_eq!(block_subsidy(64 * 210_000), 0);
    assert_eq!(block_subsidy(u64::MAX), 0);
    for h in [0u64, 100_000, 630_000, 1_000_000, 6_000_000] {
        assert_eq!(block_subsidy(h + 210_000), block_subsidy(h) / 2);
        assert!(block_subsidy(h + 1) <= block_subsidy(h));
    }
}

#[test]
fn adjustment_boundary_plans() {
    match plan_twenty_min_rule(&template(2016 * 40, "1d00ffff")) {
        RulePlan::Ready(rule) => {
            assert_eq!(rule.block_time, 1_700_000_000);
            assert_eq!(rule.block_bits, MIN_DIFFICULTY_BITS);
            assert_eq!(rule.secs_until_valid, 0);
        }
        _ => panic!("minimum difficulty at a boundary mines at once"),
    }
    assert!(matches!(plan_twenty_min_rule(&template(2016 * 40, "1a0ffff0")), RulePlan::WaitForAdjustment));
    assert!(matches!(plan_twenty_min_rule(&template(2016 * 40 + 1, "1a0ffff0")), RulePlan::NeedPreviousBlock));
    assert!(matches!(plan_twenty_min_rule(&template(0, "1a0ffff0")), RulePlan::WaitForAdjustment));
}

#[test]
fn twenty_minute_rule_timing() {
    let t = template(100, "1a0ffff0");
    let now = 1_700_000_000;
    let rule = twenty_min_rule_after(&t, now + 7000, now);
    assert_eq!(rule.block_time as u64, now + 8201);
    assert_eq!(rule.block_bits, 0x1d00ffff);
    assert_eq!(rule.secs_until_valid, 1001);
    let rule = twenty_min_rule_after(&t, now - 5000, now);
    assert_eq!(rule.block_time as u64, now - 3799);
    assert_eq!(rule.secs_until_valid, 0);
    let rule = twenty_min_rule_after(&t, 1_600_000_000, now);
    assert_eq!(rule.block_time as u64, 1_699_000_000);
    assert_eq!(rule.secs_until_valid, 0);
    let rule = twenty_min_rule_after(&t, 1000, 0);
    assert_eq!(rule.block_time, 1_699_000_000);
}

#[test]
fn coinbase_terms_by_mode() {
    let t = template(840_000, "1d00ffff");
    let empty = coinbase_terms(true, &t);
    assert_eq!(empty.value, 312_500_000);
    assert_eq!(empty.witness_commitment, None);
    let full = coinbase_terms(false, &t);
    assert_eq!(full.value, 5_000_012_345);
    assert_eq!(full.witness_commitment.as_deref(), Some("6a24aa21a9ed"));
}

#[test]
fn staleness() {
    let t = template(1, "1d00ffff");
    assert!(!template_is_stale(&t, "00aa"));
    assert!(template_is_stale(&t, "00ab"));
    assert!(template_is_stale(&t, ""));
}

#[test]
fn submission_wait_plans() {
    assert!(matches!(submission_wait(0, 50), SubmissionWait::Now));
    assert!(matches!(submission_wait(30, 30), SubmissionWait::Now));
    assert!(matches!(submission_wait(30, 28), SubmissionWait::Poll));
    assert!(matches!(submission_wait(30, 27), SubmissionWait::WaitThenPoll(2)));
    assert!(matches!(submission_wait(600, 0), SubmissionWait::WaitThenPoll(599)));
}

#[test]
fn submission_error_reactions() {
    assert!(matches!(submit_error_action("Block rejected: \"time-too-new\"", 0), SubmitAction::RetryTooNew));
    assert!(matches!(submit_error_action("Block rejected: \"time-too-new\"", 1498), SubmitAction::RetryTooNew));
    assert!(matches!(submit_error_action("Block rejected: \"time-too-new\"", 1499), SubmitAction::GiveUp));
    assert!(matches!(submit_error_action("Block rejected: \"duplicate\"", 3), SubmitAction::AlreadyKnown));
    assert!(matches!(submit_error_action("Block rejected: \"inconclusive\"", 3), SubmitAction::AlreadyKnown));
    assert!(matches!(submit_error_action("Block rejected: \"bad-diffbits\"", 3), SubmitAction::DifficultyMismatch));
    assert!(matches!(submit_error_action("Block rejected: \"high-hash\"", 3), SubmitAction::GiveUp));
    assert!(matches!(submit_error_action("", 0), SubmitAction::GiveUp));
}

#[test]
fn sync_states() {
    assert!(matches!(sync_status("testnet4", false), SyncStatus::Synced));
    assert!(matches!(sync_status("testnet4", true), SyncStatus::Syncing));
    assert!(matches!(sync_status("main", false), SyncStatus::WrongChain));
    assert!(matches!(sync_status("testnet", true), SyncStatus::WrongChain));
}

#[test]
fn stacked_timestamps_force_a_wait_after_six_blocks() {
    let t = template(100, "1a0ffff0");
    let now = 1_700_000_000;
    let mut prev = now;
    let mut waits = Vec::new();
    for _ in 0..7 {
        let rule = twenty_min_rule_after(&t, prev, now);
        waits.push(rule.secs_until_valid);
        prev = rule.block_time as u64;
    }
    assert_eq!(waits[..5], [0, 0, 0, 0, 0]);
    assert_eq!(waits[5], 6);
    assert_eq!(waits[6], 1207);
}

#[test]
fn total_issuance_stays_within_twenty_one_million_coins() {
    let mut total: u128 = 0;
    let mut h: u64 = 0;
    while h < 64 * 210_000 + 10 {
        let s = block_subsidy(h);
        assert!(s <= 5_000_000_000);
        total += s as u128;
        h += 1;
    }
    assert_eq!(total, 2_099_999_997_690_000);
    assert!(total <= 2_100_000_000_000_000);
    assert_eq!(block_subsidy(u64::MAX), 0);
}

#[test]
fn mining_plans() {
    let rule = TwentyMinRule { block_time: 1_700_001_201, block_bits: 0x1d00ffff, secs_until_valid: 42 };
    assert!(matches!(
        mining_plan(RuleOutcome::Applies(rule)),
        MiningPlan::Mine { block_time: Some(1_700_001_201), block_bits: Some(0x1d00ffff), secs_until_submittable: 42 }
    ));
    assert!(matches!(
        mining_plan(RuleOutcome::NotConsulted),
        MiningPlan::Mine { block_time: None, block_bits: None, secs_until_submittable: 0 }
    ));
    assert!(matches!(
        mining_plan(RuleOutcome::Failed),
        MiningPlan::Mine { block_time: None, block_bits: None, secs_until_submittable: 0 }
    ));
    assert!(matches!(mining_plan(RuleOutcome::DoesNotApply), MiningPlan::WaitAndRetry));
}

#[test]
fn extra_nonces_cycle_through_all_variations() {
    assert_eq!(EXTRA_NONCE_VARIATIONS, 256);
    assert_eq!(next_extra_nonce(0), Some(1));
    assert_eq!(next_extra_nonce(254), Some(255));
    assert_eq!(next_extra_nonce(255), None);
    assert_eq!(next_extra_nonce(u32::MAX), None);
    let mut tried = vec![0u32];
    let mut n = 0;
    while let Some(next) = next_extra_nonce(n) {
        tried.push(next);
        n = next;
    }
    assert_eq!(tried, (0..256).collect::<Vec<u32>>());
}
