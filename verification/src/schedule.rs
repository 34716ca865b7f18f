//! The miner's decisions between calls to the node: subsidy, the testnet4
//! twenty-minute rule, coinbase terms, and how to react to the node's answers.

use crate::block_builder::MIN_DIFFICULTY_BITS;
use crate::miner::is_min_difficulty;
use crate::rpc::BlockTemplate;
use crate::text::{contains_text, lemma_occurs_in_is_contains, occurs_in, str_contains, str_eq};
use vstd::arithmetic::div_mod::{lemma_div_denominator, lemma_div_is_ordered_by_denominator};
use vstd::arithmetic::power2::{lemma2_to64, lemma_pow2_adds, lemma_pow2_pos, lemma_pow2_strictly_increases, pow2};
use vstd::bits::lemma_u64_shr_is_div;
use vstd::prelude::*;

verus! {

/// The 20-minute rule threshold in seconds.
pub const TWENTY_MIN_SECS: u64 = 1200;

/// Max allowed future time offset (2 hours in seconds).
pub const MAX_FUTURE_BLOCK_TIME: u64 = 7200;

/// Bitcoin difficulty adjustment interval (blocks).
pub const DIFFICULTY_ADJUSTMENT_INTERVAL: u64 = 2016;

/// Blocks between subsidy halvings.
pub const HALVING_INTERVAL: u64 = 210_000;

/// The subsidy of the first blocks, in satoshis.
pub const INITIAL_SUBSIDY: u64 = 50_0000_0000;

/// The subsidy at `height`: the initial subsidy halved (rounding down) once per
/// completed halving interval, and nothing after sixty-four halvings.
pub open spec fn subsidy(height: nat) -> nat {
    let halvings = height / 210_000;
    if halvings >= 64 {
        0
    } else {
        5_000_000_000nat / pow2(halvings)
    }
}

/// Block subsidy in satoshis for a given height.
pub fn block_subsidy(height: u64) -> (r: u64)
    ensures
        r as nat == subsidy(height as nat),
{
    let halvings = height / HALVING_INTERVAL;
    if halvings >= 64 {
        return 0;
    }
    proof {
        lemma_u64_shr_is_div(INITIAL_SUBSIDY, halvings);
    }
    INITIAL_SUBSIDY >> halvings
}

/// Each halving interval pays half (rounded down) of the one before it.
pub proof fn lemma_subsidy_halves(height: nat)
    ensures
        subsidy(height + 210_000) == subsidy(height) / 2,
{
    let k = height / 210_000;
    assert((height + 210_000) / 210_000 == k + 1);
    lemma_pow2_pos(k);
    lemma2_to64();
    if k + 1 >= 64 {
        if k == 63 {
            lemma_pow2_strictly_increases(33, 63);
            assert(pow2(33) == 0x2_0000_0000) by {
                lemma_pow2_adds(32, 1);
            }
            assert(5_000_000_000nat / pow2(63) == 0) by (nonlinear_arith)
                requires
                    pow2(63) > 5_000_000_000,
            ;
        }
    } else {
        lemma_pow2_adds(k, 1);
        lemma_div_denominator(5_000_000_000, pow2(k) as int, 2);
    }
}

/// The subsidy never grows with height.
pub proof fn lemma_subsidy_non_increasing(low: nat, high: nat)
    requires
        low <= high,
    ensures
        subsidy(high) <= subsidy(low),
{
    let k1 = low / 210_000;
    let k2 = high / 210_000;
    assert(k1 <= k2) by (nonlinear_arith)
        requires
            low <= high,
            k1 == low / 210_000,
            k2 == high / 210_000,
    ;
    if k2 < 64 {
        lemma_pow2_pos(k1);
        if k1 < k2 {
            lemma_pow2_strictly_increases(k1, k2);
        }
        lemma_div_is_ordered_by_denominator(5_000_000_000, pow2(k1) as int, pow2(k2) as int);
    }
}

/// The subsidy paid by all blocks below `height` together.
pub open spec fn issued_before(height: nat) -> nat
    decreases height,
{
    if height == 0 {
        0
    } else {
        issued_before((height - 1) as nat) + subsidy((height - 1) as nat)
    }
}

proof fn lemma_issuance_budget(n: nat)
    ensures
        issued_before(n) + (420_000 - n % 210_000) * subsidy(n) <= 2_100_000_000_000_000,
    decreases n,
{
    if n == 0 {
        assert(pow2(0) == 1) by {
            lemma2_to64();
        }
        assert(subsidy(0) == 5_000_000_000);
    } else {
        let m = (n - 1) as nat;
        lemma_issuance_budget(m);
        let s = subsidy(m);
        assert(issued_before(n) == issued_before(m) + s);
        if m % 210_000 < 209_999 {
            assert(n % 210_000 == m % 210_000 + 1);
            assert(n / 210_000 == m / 210_000);
            assert(subsidy(n) == s);
            assert((420_000 - n % 210_000) * s + s == (420_000 - m % 210_000) * s) by (nonlinear_arith)
                requires
                    n % 210_000 == m % 210_000 + 1,
            ;
        } else {
            assert(n % 210_000 == 0);
            assert(n >= 210_000);
            let h = (n - 210_000) as nat;
            lemma_subsidy_halves(h);
            assert(h / 210_000 == m / 210_000);
            assert(subsidy(h) == s);
            assert(subsidy(n) == s / 2);
            assert(420_000 * (s / 2) <= 210_000 * s) by (nonlinear_arith);
            assert((420_000 - m % 210_000) * s == 210_001 * s);
        }
    }
}

/// No block pays more than the initial fifty coins, and all blocks below any
/// height together pay at most twenty-one million coins.
pub proof fn lemma_total_issuance(height: nat)
    ensures
        subsidy(height) <= 5_000_000_000,
        issued_before(height) <= 2_100_000_000_000_000,
{
    lemma_subsidy_non_increasing(0, height);
    assert(pow2(0) == 1) by {
        lemma2_to64();
    }
    lemma_issuance_budget(height);
    assert((420_000 - height % 210_000) * subsidy(height) >= 0) by (nonlinear_arith)
        requires
            height % 210_000 < 210_000,
    ;
}

/// Seconds left of `a` after taking away `b`, and zero when `b` is larger.
pub open spec fn saturating_sub(a: nat, b: nat) -> nat {
    if a > b {
        (a - b) as nat
    } else {
        0
    }
}

/// The timestamp and difficulty for mining under testnet4's 20-minute rule, and
/// how long until a block with that timestamp may be submitted.
pub struct TwentyMinRule {
    pub block_time: u32,
    pub block_bits: u32,
    /// Seconds until the block can actually be submitted (0 = now)
    pub secs_until_valid: u64,
}

/// What the 20-minute rule needs before it can be applied to a template.
pub enum RulePlan {
    /// The rule is decided without looking further.
    Ready(TwentyMinRule),
    /// The template is a difficulty adjustment boundary above minimum difficulty:
    /// the rule does not apply.
    WaitForAdjustment,
    /// The rule needs the previous block's timestamp.
    NeedPreviousBlock,
}

/// Decide how the 20-minute rule applies to a template.
pub fn plan_twenty_min_rule(template: &BlockTemplate) -> (r: RulePlan)
    ensures
        template.height % 2016 != 0 ==> r is NeedPreviousBlock,
        template.height % 2016 == 0 && template.bits@ != "1d00ffff"@ ==> r is WaitForAdjustment,
        template.height % 2016 == 0 && template.bits@ == "1d00ffff"@ ==> (r matches RulePlan::Ready(rule)
            && rule == (TwentyMinRule {
            block_time: template.cur_time as u32,
            block_bits: MIN_DIFFICULTY_BITS,
            secs_until_valid: 0,
        })),
{
    if template.height % DIFFICULTY_ADJUSTMENT_INTERVAL == 0 {
        if is_min_difficulty(template.bits.as_str()) {
            return RulePlan::Ready(
                TwentyMinRule {
                    block_time: template.cur_time as u32,
                    block_bits: MIN_DIFFICULTY_BITS,
                    secs_until_valid: 0,
                },
            );
        }
        return RulePlan::WaitForAdjustment;
    }
    RulePlan::NeedPreviousBlock
}

/// The earliest timestamp the 20-minute rule allows after a block with timestamp
/// `prev_block_time`, kept at or above the template's `mintime`.
pub open spec fn rule_block_time(prev_block_time: nat, mintime: nat) -> nat {
    let target_time = prev_block_time + 1201;
    if target_time >= mintime {
        target_time
    } else {
        mintime
    }
}

/// Compute the 20-minute rule parameters from the previous block's timestamp and
/// the current time: a block stamped more than twenty minutes after its
/// predecessor may use minimum difficulty, and the node accepts it once the
/// stamp is at most two hours ahead of its clock.
pub fn twenty_min_rule_after(template: &BlockTemplate, prev_block_time: u64, now: u64) -> (r: TwentyMinRule)
    requires
        prev_block_time + 1201 <= u64::MAX,
    ensures
        r.block_time == rule_block_time(prev_block_time as nat, template.mintime as nat) as u32,
        r.block_bits == MIN_DIFFICULTY_BITS,
        r.secs_until_valid == saturating_sub(
            saturating_sub(rule_block_time(prev_block_time as nat, template.mintime as nat), 7200),
            now as nat,
        ),
        rule_block_time(prev_block_time as nat, template.mintime as nat) > prev_block_time + 1200,
        rule_block_time(prev_block_time as nat, template.mintime as nat) >= template.mintime,
        rule_block_time(prev_block_time as nat, template.mintime as nat) <= now + r.secs_until_valid + 7200,
{
    let target_time = prev_block_time + TWENTY_MIN_SECS + 1;
    let min_time = template.mintime;
    let block_time = if target_time >= min_time { target_time } else { min_time };
    let need_sys_time = block_time.saturating_sub(MAX_FUTURE_BLOCK_TIME);
    let secs_until_valid = need_sys_time.saturating_sub(now);
    TwentyMinRule { block_time: block_time as u32, block_bits: MIN_DIFFICULTY_BITS, secs_until_valid }
}

/// How the 20-minute rule came out for a template.
pub enum RuleOutcome {
    /// The miner mines at any difficulty and did not consult the rule.
    NotConsulted,
    /// The rule applies with these terms.
    Applies(TwentyMinRule),
    /// The rule cannot be used for this template (a difficulty adjustment
    /// boundary above minimum difficulty).
    DoesNotApply,
    /// The rule could not be computed (the node did not answer as expected).
    Failed,
}

/// How to mine a template.
pub enum MiningPlan {
    /// Mine now, with these overrides of the template's timestamp and compact
    /// target, submitting no sooner than `secs_until_submittable` seconds from now.
    Mine { block_time: Option<u32>, block_bits: Option<u32>, secs_until_submittable: u64 },
    /// Do not mine this template: wait, then fetch a new one.
    WaitAndRetry,
}

/// Seconds to wait before fetching a new template when the 20-minute rule does
/// not apply.
pub const RULE_RETRY_SECS: u64 = 30;

/// Decide how to mine from the 20-minute rule's outcome: with its terms when it
/// applies, with the template's own values when it was not consulted or could
/// not be computed, and not at all when it does not apply.
pub fn mining_plan(outcome: RuleOutcome) -> (r: MiningPlan)
    ensures
        outcome matches RuleOutcome::Applies(rule) ==> r == (MiningPlan::Mine {
            block_time: Some(rule.block_time),
            block_bits: Some(rule.block_bits),
            secs_until_submittable: rule.secs_until_valid,
        }),
        (outcome is NotConsulted || outcome is Failed) ==> r == (MiningPlan::Mine {
            block_time: None,
            block_bits: None,
            secs_until_submittable: 0,
        }),
        outcome is DoesNotApply ==> r is WaitAndRetry,
{
    match outcome {
        RuleOutcome::Applies(rule) => MiningPlan::Mine {
            block_time: Some(rule.block_time),
            block_bits: Some(rule.block_bits),
            secs_until_submittable: rule.secs_until_valid,
        },
        RuleOutcome::DoesNotApply => MiningPlan::WaitAndRetry,
        _ => MiningPlan::Mine { block_time: None, block_bits: None, secs_until_submittable: 0 },
    }
}

/// How many extra nonces are tried for one template.
pub const EXTRA_NONCE_VARIATIONS: u32 = 256;

/// The extra nonce to try after `extra_nonce` gave no solution: the next one,
/// until all `EXTRA_NONCE_VARIATIONS` of them have been tried.
pub fn next_extra_nonce(extra_nonce: u32) -> (r: Option<u32>)
    ensures
        r == (if extra_nonce + 1 < EXTRA_NONCE_VARIATIONS {
            Some((extra_nonce + 1) as u32)
        } else {
            None::<u32>
        }),
{
    if extra_nonce < EXTRA_NONCE_VARIATIONS - 1 {
        Some(extra_nonce + 1)
    } else {
        None
    }
}

/// The coinbase reward and witness commitment to mine with.
pub struct CoinbaseTerms {
    pub value: u64,
    pub witness_commitment: Option<String>,
}

/// Empty blocks claim the bare subsidy and carry no witness commitment; blocks with
/// the template's transactions claim the template's full coinbase value and carry
/// its default witness commitment.
pub fn coinbase_terms(empty_blocks: bool, template: &BlockTemplate) -> (r: CoinbaseTerms)
    ensures
        empty_blocks ==> r.value as nat == subsidy(template.height as nat) && r.witness_commitment is None,
        !empty_blocks ==> r.value == template.coinbasevalue && r.witness_commitment
            == template.default_witness_commitment,
{
    if empty_blocks {
        CoinbaseTerms { value: block_subsidy(template.height), witness_commitment: None }
    } else {
        let witness_commitment = match &template.default_witness_commitment {
            Some(c) => Some(c.clone()),
            None => None,
        };
        CoinbaseTerms { value: template.coinbasevalue, witness_commitment }
    }
}

/// A new block has arrived when the node's best block is no longer the template's
/// previous block.
pub fn template_is_stale(template: &BlockTemplate, best_block_hash: &str) -> (r: bool)
    ensures
        r == (best_block_hash@ != template.previous_block_hash@),
{
    !str_eq(best_block_hash, template.previous_block_hash.as_str())
}

/// What to do before submitting a pre-mined block.
pub enum SubmissionWait {
    /// The submission window is open.
    Now,
    /// The window opens within two seconds: poll the node right away.
    Poll,
    /// Wait this many seconds (watching for a new tip), then poll.
    WaitThenPoll(u64),
}

/// Plan the wait before submission, given how long until the window opens and how
/// long mining took.
pub fn submission_wait(secs_until_submittable: u64, elapsed_secs: u64) -> (r: SubmissionWait)
    ensures
        (secs_until_submittable == 0 || elapsed_secs >= secs_until_submittable) ==> r is Now,
        0 < secs_until_submittable && elapsed_secs < secs_until_submittable
            && secs_until_submittable - elapsed_secs <= 2 ==> r is Poll,
        0 < secs_until_submittable && elapsed_secs < secs_until_submittable
            && secs_until_submittable - elapsed_secs > 2 ==> r == SubmissionWait::WaitThenPoll(
            (secs_until_submittable - elapsed_secs - 1) as u64,
        ),
{
    if secs_until_submittable > 0 && elapsed_secs < secs_until_submittable {
        let remaining = secs_until_submittable - elapsed_secs;
        if remaining > 2 {
            SubmissionWait::WaitThenPoll(remaining - 1)
        } else {
            SubmissionWait::Poll
        }
    } else {
        SubmissionWait::Now
    }
}

/// How many times a found block is offered to the node.
pub const SUBMIT_ATTEMPTS: u32 = 1500;

/// How to react to a refused submission.
pub enum SubmitAction {
    /// The timestamp is still too far ahead: wait briefly and offer it again.
    RetryTooNew,
    /// The node already has this block, or cannot tell: move on.
    AlreadyKnown,
    /// The node expects another difficulty: the template is stale.
    DifficultyMismatch,
    /// Any other refusal: stop offering this block.
    GiveUp,
}

/// The reaction to a refusal, by the words in the node's answer.
pub open spec fn submit_action_for(err: Seq<char>, attempt: u32) -> SubmitAction {
    if occurs_in(err, "time-too-new"@) && attempt < 1499 {
        SubmitAction::RetryTooNew
    } else if occurs_in(err, "inconclusive"@) || occurs_in(err, "duplicate"@) {
        SubmitAction::AlreadyKnown
    } else if occurs_in(err, "bad-diffbits"@) {
        SubmitAction::DifficultyMismatch
    } else {
        SubmitAction::GiveUp
    }
}

/// A refused block is offered again exactly when the node's answer says its
/// timestamp is too new and attempts are left; an answer naming a known or
/// undecided block moves on, one naming the wrong difficulty drops the
/// template, and an answer that names none of these ends the submission.
pub proof fn lemma_submit_reactions(err: Seq<char>, attempt: u32)
    ensures
        submit_action_for(err, attempt) is RetryTooNew <==> contains_text(err, "time-too-new"@) && attempt < 1499,
        submit_action_for(err, attempt) is AlreadyKnown <==> !(contains_text(err, "time-too-new"@) && attempt
            < 1499) && (contains_text(err, "inconclusive"@) || contains_text(err, "duplicate"@)),
        submit_action_for(err, attempt) is DifficultyMismatch <==> !(contains_text(err, "time-too-new"@) && attempt
            < 1499) && !contains_text(err, "inconclusive"@) && !contains_text(err, "duplicate"@) && contains_text(
            err,
            "bad-diffbits"@,
        ),
        !contains_text(err, "time-too-new"@) && !contains_text(err, "inconclusive"@) && !contains_text(
            err,
            "duplicate"@,
        ) && !contains_text(err, "bad-diffbits"@) ==> submit_action_for(err, attempt) is GiveUp,
{
    lemma_occurs_in_is_contains(err, "time-too-new"@);
    lemma_occurs_in_is_contains(err, "inconclusive"@);
    lemma_occurs_in_is_contains(err, "duplicate"@);
    lemma_occurs_in_is_contains(err, "bad-diffbits"@);
}

/// Decide how to react to the node refusing submission number `attempt`.
pub fn submit_error_action(err_text: &str, attempt: u32) -> (r: SubmitAction)
    ensures
        r == submit_action_for(err_text@, attempt),
        r is RetryTooNew <==> contains_text(err_text@, "time-too-new"@) && attempt < 1499,
        !contains_text(err_text@, "time-too-new"@) && !contains_text(err_text@, "inconclusive"@)
            && !contains_text(err_text@, "duplicate"@) && !contains_text(err_text@, "bad-diffbits"@)
            ==> r is GiveUp,
{
    proof {
        lemma_submit_reactions(err_text@, attempt);
    }
    if str_contains(err_text, "time-too-new") && attempt < SUBMIT_ATTEMPTS - 1 {
        SubmitAction::RetryTooNew
    } else if str_contains(err_text, "inconclusive") || str_contains(err_text, "duplicate") {
        SubmitAction::AlreadyKnown
    } else if str_contains(err_text, "bad-diffbits") {
        SubmitAction::DifficultyMismatch
    } else {
        SubmitAction::GiveUp
    }
}

/// Where the node stands before mining starts.
pub enum SyncStatus {
    /// The node follows a chain other than testnet4.
    WrongChain,
    /// The node has finished its initial block download.
    Synced,
    /// The node is still downloading blocks.
    Syncing,
}

/// Classify the node's chain and download state.
pub fn sync_status(chain: &str, initial_block_download: bool) -> (r: SyncStatus)
    ensures
        chain@ != "testnet4"@ ==> r is WrongChain,
        chain@ == "testnet4"@ && !initial_block_download ==> r is Synced,
        chain@ == "testnet4"@ && initial_block_download ==> r is Syncing,
{
    if !str_eq(chain, "testnet4") {
        SyncStatus::WrongChain
    } else if !initial_block_download {
        SyncStatus::Synced
    } else {
        SyncStatus::Syncing
    }
}

} // verus!
