//! The proof-of-work search over the nonce space.

use crate::block_builder::{BlockHeader, MIN_DIFFICULTY_BITS};
use crate::hexcode::{hex_number_value, is_hex_u32_text, number_digits, all_hex_digits};
use crate::script_num::le_value;
use crate::text::str_eq;
use rayon::iter::{IntoParallelIterator, ParallelIterator};
use std::sync::atomic::{AtomicBool, AtomicU64, Ordering};
use vstd::arithmetic::power2::{lemma_pow2_adds, lemma_pow2_pos, lemma_pow2_strictly_increases, pow2};
use vstd::prelude::*;

verus! {

/// A nonce that solves the block, and the block hash it gives (internal byte order).
pub struct MiningResult {
    pub nonce: u32,
    pub hash: [u8; 32],
}

/// How the search over one range of nonces ended.
pub enum RangeOutcome {
    /// A nonce in the range solves the block.
    Found(MiningResult),
    /// No nonce in the range solves the block.
    Exhausted,
    /// A stop was requested, or another worker found a solution, before nonce
    /// `next` was tried; every nonce of the range before it was tried in vain.
    Stopped { next: u32 },
}

/// The target a compact `bits` value stands for: a 24-bit mantissa (whose sign
/// bit makes the target zero) scaled by 256 to the power of the exponent byte
/// less three, reduced to 256 bits.
pub open spec fn compact_target(bits: u32) -> nat {
    let exponent = bits / 0x100_0000;
    let field = bits % 0x100_0000;
    let mantissa: nat = if exponent <= 3 {
        field as nat / pow2((8 * (3 - exponent)) as nat)
    } else {
        field as nat
    };
    let shift: nat = if exponent <= 3 {
        0
    } else {
        (8 * (exponent - 3)) as nat
    };
    if mantissa > 0x7F_FFFF {
        0
    } else {
        (mantissa * pow2(shift % 256)) % pow2(256)
    }
}

/// The double SHA-256 hash of the header's 80-byte encoding, in internal byte order.
pub uninterp spec fn spec_header_hash(header: BlockHeader) -> Seq<u8>;

/// The header's hash, read as a little-endian number, is at most its target.
pub open spec fn pow_met(header: BlockHeader) -> bool {
    le_value(spec_header_hash(header)) <= compact_target(header.bits)
}

/// The header with another nonce.
pub open spec fn with_nonce(header: BlockHeader, nonce: u32) -> BlockHeader {
    BlockHeader { nonce, ..header }
}

/// Calls `bitcoin::block::Header::validate_pow` with the header's own target:
/// it returns the block hash exactly when the hash, read as a little-endian
/// 256-bit number, is at most the target that `bits` stands for.
#[verifier::external_body]
fn check_pow(h: &BlockHeader) -> (r: Option<[u8; 32]>)
    ensures
        r is Some <==> pow_met(*h),
        r matches Some(hash) ==> hash@ == spec_header_hash(*h),
{
    let header = bitcoin::block::Header {
        version: bitcoin::block::Version::from_consensus(h.version),
        prev_blockhash: <bitcoin::BlockHash as bitcoin::hashes::Hash>::from_byte_array(h.prev_blockhash),
        merkle_root: <bitcoin::TxMerkleNode as bitcoin::hashes::Hash>::from_byte_array(h.merkle_root),
        time: h.time,
        bits: bitcoin::CompactTarget::from_consensus(h.bits),
        nonce: h.nonce,
    };
    let hash = header.validate_pow(bitcoin::Target::from(header.bits)).ok()?;
    Some(<bitcoin::BlockHash as bitcoin::hashes::Hash>::to_byte_array(hash))
}

/// How many nonces a worker tries between updates of the shared hash counter.
pub const HASH_COUNT_BATCH: u64 = 100_000;

/// What the search over a range does after looking at one nonce.
pub enum SearchStep {
    /// A raised flag was read: stop before trying the nonce.
    Stop,
    /// The nonce solves the block, with this hash.
    Solved([u8; 32]),
    /// The nonce fails and is the last of the range.
    Done,
    /// The nonce fails: go on with the next one.
    Next,
}

/// Decide the next step of a range search at `nonce` from the values read from
/// the `found` and stop flags and from the proof-of-work check of the nonce
/// (`None` when it fails, or when it was not made because a flag was raised).
pub fn search_step(found_read: bool, stop_read: bool, pow: Option<[u8; 32]>, nonce: u32, end: u32) -> (r: SearchStep)
    ensures
        r is Stop <==> found_read || stop_read,
        r is Solved <==> !(found_read || stop_read) && pow is Some,
        r matches SearchStep::Solved(hash) ==> pow == Some(hash),
        r is Done <==> !(found_read || stop_read) && pow is None && nonce == end,
        r is Next <==> !(found_read || stop_read) && pow is None && nonce != end,
{
    if found_read || stop_read {
        SearchStep::Stop
    } else {
        match pow {
            Some(hash) => SearchStep::Solved(hash),
            None => if nonce == end {
                SearchStep::Done
            } else {
                SearchStep::Next
            },
        }
    }
}

/// Search the nonces `start..=end` of `header` in order. Before each nonce the
/// search asks `halted`, and stops there exactly when it answers `true`; it
/// stops nowhere else short of a solution or the end of the range. A solution
/// raises `found`. Every nonce tried without success is added to `hash_count`,
/// in batches.
pub fn scan_range<F: Fn(u32) -> bool>(
    header: BlockHeader,
    start: u32,
    end: u32,
    halted: &F,
    found: &AtomicBool,
    hash_count: &AtomicU64,
) -> (r: RangeOutcome)
    requires
        forall|n: u32| halted.requires((n,)),
    ensures
        r matches RangeOutcome::Found(res) ==> {
            &&& start <= res.nonce <= end
            &&& pow_met(with_nonce(header, res.nonce))
            &&& res.hash@ == spec_header_hash(with_nonce(header, res.nonce))
            &&& forall|n: u32| start <= n < res.nonce ==> !pow_met(#[trigger] with_nonce(header, n))
            &&& forall|n: u32| start <= n <= res.nonce ==> #[trigger] halted.ensures((n,), false)
        },
        r is Exhausted ==> forall|n: u32| start <= n <= end ==> !pow_met(#[trigger] with_nonce(header, n)),
        r is Exhausted ==> forall|n: u32| start <= n <= end ==> #[trigger] halted.ensures((n,), false),
        r matches RangeOutcome::Stopped { next } ==> {
            &&& start <= next <= end
            &&& halted.ensures((next,), true)
            &&& forall|n: u32| start <= n < next ==> !pow_met(#[trigger] with_nonce(header, n))
            &&& forall|n: u32| start <= n < next ==> #[trigger] halted.ensures((n,), false)
        },
        start > end ==> r is Exhausted,
{
    if start > end {
        return RangeOutcome::Exhausted;
    }
    let mut h = header;
    let mut local_count: u64 = 0;
    let mut nonce: u32 = start;
    let outcome;
    loop
        invariant_except_break
            local_count == nonce - start,
        invariant
            start <= nonce <= end,
            forall|n: u32| halted.requires((n,)),
            h == with_nonce(header, h.nonce),
            forall|n: u32| start <= n < nonce ==> !pow_met(#[trigger] with_nonce(header, n)),
            forall|n: u32| start <= n < nonce ==> #[trigger] halted.ensures((n,), false),
        ensures
            outcome matches RangeOutcome::Found(res) ==> {
                &&& start <= res.nonce <= end
                &&& pow_met(with_nonce(header, res.nonce))
                &&& res.hash@ == spec_header_hash(with_nonce(header, res.nonce))
                &&& forall|n: u32| start <= n < res.nonce ==> !pow_met(#[trigger] with_nonce(header, n))
                &&& forall|n: u32| start <= n <= res.nonce ==> #[trigger] halted.ensures((n,), false)
            },
            outcome is Exhausted ==> forall|n: u32| start <= n <= end ==> !pow_met(#[trigger] with_nonce(header, n)),
            outcome is Exhausted ==> forall|n: u32| start <= n <= end ==> #[trigger] halted.ensures((n,), false),
            outcome matches RangeOutcome::Stopped { next } ==> {
                &&& start <= next <= end
                &&& halted.ensures((next,), true)
                &&& forall|n: u32| start <= n < next ==> !pow_met(#[trigger] with_nonce(header, n))
                &&& forall|n: u32| start <= n < next ==> #[trigger] halted.ensures((n,), false)
            },
        decreases end - nonce,
    {
        let halt = halted(nonce);
        h.nonce = nonce;
        let pow = if halt {
            None
        } else {
            check_pow(&h)
        };
        match search_step(halt, false, pow, nonce, end) {
            SearchStep::Stop => {
                outcome = RangeOutcome::Stopped { next: nonce };
                break;
            },
            SearchStep::Solved(hash) => {
                found.store(true, Ordering::Relaxed);
                outcome = RangeOutcome::Found(MiningResult { nonce, hash });
                break;
            },
            SearchStep::Done => {
                local_count = local_count + 1;
                if local_count % HASH_COUNT_BATCH == 0 {
                    hash_count.fetch_add(HASH_COUNT_BATCH, Ordering::Relaxed);
                }
                outcome = RangeOutcome::Exhausted;
                break;
            },
            SearchStep::Next => {
                local_count = local_count + 1;
                if local_count % HASH_COUNT_BATCH == 0 {
                    hash_count.fetch_add(HASH_COUNT_BATCH, Ordering::Relaxed);
                }
                nonce = nonce + 1;
            },
        }
    }
    hash_count.fetch_add(local_count % HASH_COUNT_BATCH, Ordering::Relaxed);
    outcome
}

/// Search the nonces `start..=end` of `header` in order, stopping early when
/// `found` or `stop_flag` is raised. A solution raises `found`. Every nonce tried
/// without success is added to `hash_count`, in batches.
pub fn mine_range(
    header: BlockHeader,
    start: u32,
    end: u32,
    found: &AtomicBool,
    stop_flag: &AtomicBool,
    hash_count: &AtomicU64,
) -> (r: RangeOutcome)
    ensures
        r matches RangeOutcome::Found(res) ==> {
            &&& start <= res.nonce <= end
            &&& pow_met(with_nonce(header, res.nonce))
            &&& res.hash@ == spec_header_hash(with_nonce(header, res.nonce))
            &&& forall|n: u32| start <= n < res.nonce ==> !pow_met(#[trigger] with_nonce(header, n))
        },
        r is Exhausted ==> forall|n: u32| start <= n <= end ==> !pow_met(#[trigger] with_nonce(header, n)),
        r matches RangeOutcome::Stopped { next } ==> {
            &&& start <= next <= end
            &&& forall|n: u32| start <= n < next ==> !pow_met(#[trigger] with_nonce(header, n))
        },
        start > end ==> r is Exhausted,
{
    let halted = |_nonce: u32| -> (b: bool) { found.load(Ordering::Relaxed) || stop_flag.load(Ordering::Relaxed) };
    scan_range(header, start, end, &halted, found, hash_count)
}

/// Check if the given bits represent minimum difficulty (20-minute rule).
pub fn is_min_difficulty(bits_hex: &str) -> (r: bool)
    ensures
        r == (bits_hex@ == "1d00ffff"@),
{
    str_eq(bits_hex, "1d00ffff")
}

/// The size of each worker's share of the nonce space (the last share also
/// takes the remainder).
pub open spec fn nonce_chunk(num_threads: nat) -> nat {
    0x1_0000_0000nat / num_threads
}

/// The first nonce of worker `thread_id`.
pub open spec fn range_start(thread_id: nat, num_threads: nat) -> nat {
    thread_id * nonce_chunk(num_threads)
}

/// The last nonce of worker `thread_id`.
pub open spec fn range_end(thread_id: nat, num_threads: nat) -> nat {
    if thread_id + 1 == num_threads {
        0xFFFF_FFFF
    } else {
        ((thread_id + 1) * nonce_chunk(num_threads) - 1) as nat
    }
}

proof fn lemma_chunk_bounds(n: nat)
    requires
        0 < n <= 0x1_0000_0000,
    ensures
        nonce_chunk(n) >= 1,
        nonce_chunk(n) * n <= 0x1_0000_0000,
        0x1_0000_0000 < nonce_chunk(n) * n + n,
{
    let c = nonce_chunk(n);
    let r = 0x1_0000_0000nat % n;
    vstd::arithmetic::div_mod::lemma_fundamental_div_mod(0x1_0000_0000, n as int);
    assert(0x1_0000_0000 == n * c + r);
    assert(c * n == n * c) by (nonlinear_arith);
    assert(c >= 1) by (nonlinear_arith)
        requires
            0x1_0000_0000 == n * c + r,
            0 <= r < n,
            n <= 0x1_0000_0000,
    ;
}

proof fn lemma_start_below(t: nat, n: nat)
    requires
        0 < n <= 0x1_0000_0000,
        t < n,
    ensures
        range_start(t, n) + nonce_chunk(n) <= 0x1_0000_0000,
{
    lemma_chunk_bounds(n);
    let c = nonce_chunk(n);
    assert(t * c + c <= c * n) by (nonlinear_arith)
        requires
            t < n,
            c >= 0,
    ;
}

/// The range of nonces that worker `thread_id` of `num_threads` searches.
pub fn nonce_range(thread_id: usize, num_threads: usize) -> (r: (u32, u32))
    requires
        0 < num_threads <= 0x1_0000_0000,
        thread_id < num_threads,
    ensures
        r.0 as nat == range_start(thread_id as nat, num_threads as nat),
        r.1 as nat == range_end(thread_id as nat, num_threads as nat),
{
    proof {
        lemma_chunk_bounds(num_threads as nat);
        lemma_start_below(thread_id as nat, num_threads as nat);
        if thread_id + 1 < num_threads {
            lemma_start_below((thread_id + 1) as nat, num_threads as nat);
            let c = nonce_chunk(num_threads as nat);
            let t1 = (thread_id + 1) as nat;
            assert(t1 * c >= 1) by (nonlinear_arith)
                requires
                    t1 >= 1,
                    c >= 1,
            ;
        }
    }
    let chunk_size: u64 = (u32::MAX as u64 + 1) / num_threads as u64;
    let start: u32 = (thread_id as u64 * chunk_size) as u32;
    let end: u32 = if thread_id == num_threads - 1 {
        u32::MAX
    } else {
        ((thread_id as u64 + 1) * chunk_size - 1) as u32
    };
    (start, end)
}

/// The workers' ranges tile the nonce space in order: the first starts at zero,
/// each next one starts right after the previous one ends, the last ends at
/// `u32::MAX`; every range but the last holds exactly one chunk of nonces, and
/// the last holds at least one chunk and fewer than a chunk plus one nonce per
/// worker.
pub proof fn lemma_nonce_ranges_tile(num_threads: nat)
    requires
        0 < num_threads <= 0x1_0000_0000,
    ensures
        range_start(0, num_threads) == 0,
        range_end((num_threads - 1) as nat, num_threads) == 0xFFFF_FFFF,
        forall|t: nat| #![trigger range_end(t, num_threads)] t + 1 < num_threads ==> range_end(t, num_threads) + 1 == range_start(t + 1, num_threads)
            && range_end(t, num_threads) + 1 - range_start(t, num_threads) == nonce_chunk(num_threads),
        forall|t: nat| #![trigger range_start(t, num_threads)] t < num_threads ==> range_start(t, num_threads) <= range_end(t, num_threads),
        nonce_chunk(num_threads) <= 0x1_0000_0000 - range_start((num_threads - 1) as nat, num_threads),
        0x1_0000_0000 - range_start((num_threads - 1) as nat, num_threads) < nonce_chunk(num_threads) + num_threads,
{
    let n = num_threads;
    let c = nonce_chunk(n);
    lemma_chunk_bounds(n);
    assert(0 * c == 0);
    assert forall|t: nat| #![trigger range_end(t, n)] t + 1 < n implies range_end(t, n) + 1 == range_start(t + 1, n)
        && range_end(t, n) + 1 - range_start(t, n) == c by {
        assert((t + 1) * c == t * c + c) by (nonlinear_arith);
    }
    assert forall|t: nat| #![trigger range_start(t, n)] t < n implies range_start(t, n) <= range_end(t, n) by {
        lemma_start_below(t, n);
        assert((t + 1) * c == t * c + c) by (nonlinear_arith);
    }
    assert(((n - 1) as nat) * c + c == n * c) by (nonlinear_arith)
        requires
            n > 0,
    ;
}

/// Worker `thread_id` of `num_threads` searches `nonce`.
pub open spec fn owns_nonce(thread_id: nat, num_threads: nat, nonce: nat) -> bool {
    thread_id < num_threads && range_start(thread_id, num_threads) <= nonce <= range_end(thread_id, num_threads)
}

/// Every nonce lies in the range of exactly one worker.
pub proof fn lemma_nonce_has_one_owner(num_threads: nat, nonce: nat)
    requires
        0 < num_threads <= 0x1_0000_0000,
        nonce <= 0xFFFF_FFFF,
    ensures
        exists|t: nat| owns_nonce(t, num_threads, nonce),
        forall|t1: nat, t2: nat|
            #[trigger] owns_nonce(t1, num_threads, nonce) && #[trigger] owns_nonce(t2, num_threads, nonce) ==> t1 == t2,
{
    let n = num_threads;
    let c = nonce_chunk(n);
    lemma_chunk_bounds(n);
    let q = nonce / c;
    let owner: nat = if q < n - 1 { q } else { (n - 1) as nat };
    vstd::arithmetic::div_mod::lemma_fundamental_div_mod(nonce as int, c as int);
    let r = nonce % c;
    assert(nonce == c * q + r);
    assert(q * c == c * q) by (nonlinear_arith);
    if q < n - 1 {
        assert((q + 1) * c == q * c + c) by (nonlinear_arith);
        assert(owns_nonce(owner, n, nonce));
    } else {
        let m = (n - 1) as nat;
        assert(m * c <= q * c) by (nonlinear_arith)
            requires
                m <= q,
                c >= 0,
        ;
        assert(owns_nonce(owner, n, nonce));
    }
    assert forall|t1: nat, t2: nat|
        #[trigger] owns_nonce(t1, n, nonce) && #[trigger] owns_nonce(t2, n, nonce) implies t1 == t2 by {
        if t1 < t2 {
            assert((t1 + 1) * c <= t2 * c) by (nonlinear_arith)
                requires
                    t1 < t2,
                    c >= 0,
            ;
            assert(t1 + 1 != n);
            assert((t1 + 1) * c >= 1) by (nonlinear_arith)
                requires
                    c >= 1,
            ;
            assert(range_end(t1, n) == (t1 + 1) * c - 1);
            assert(range_start(t2, n) == t2 * c);
        } else if t2 < t1 {
            assert((t2 + 1) * c <= t1 * c) by (nonlinear_arith)
                requires
                    t2 < t1,
                    c >= 0,
            ;
            assert(t2 + 1 != n);
            assert((t2 + 1) * c >= 1) by (nonlinear_arith)
                requires
                    c >= 1,
            ;
            assert(range_end(t2, n) == (t2 + 1) * c - 1);
            assert(range_start(t1, n) == t1 * c);
        }
    }
}

/// The minimum-difficulty text that `is_min_difficulty` looks for reads, as
/// compact target text, as `MIN_DIFFICULTY_BITS`, whose target is `0xffff · 2^208`.
pub proof fn lemma_min_difficulty_bits()
    ensures
        is_hex_u32_text("1d00ffff"@),
        hex_number_value(number_digits("1d00ffff"@)) == MIN_DIFFICULTY_BITS,
        compact_target(MIN_DIFFICULTY_BITS) == 0xffff * pow2(208),
{
    reveal_strlit("1d00ffff");
    let s = "1d00ffff"@;
    assert(s.len() == 8);
    assert(number_digits(s) == s);
    assert(all_hex_digits(s));
    reveal_with_fuel(hex_number_value, 9);
    assert(s.drop_last().drop_last().drop_last().drop_last().drop_last().drop_last().drop_last() == seq!['1']);
    assert(hex_number_value(s) == 0x1d00ffff);
    lemma_pow2_pos(208);
    lemma_pow2_adds(208, 48);
    lemma_pow2_strictly_increases(16, 48);
    assert(pow2(16) == 0x10000) by {
        vstd::arithmetic::power2::lemma2_to64();
    }
    assert(0xffff * pow2(208) < pow2(256)) by (nonlinear_arith)
        requires
            pow2(256) == pow2(208) * pow2(48),
            pow2(16) < pow2(48),
            pow2(16) == 0x10000,
            pow2(208) > 0,
    ;
    let exponent = MIN_DIFFICULTY_BITS / 0x100_0000;
    assert(exponent == 29);
    assert(MIN_DIFFICULTY_BITS % 0x100_0000 == 0xffff);
    assert((8 * (29 - 3)) as nat % 256 == 208);
    vstd::arithmetic::div_mod::lemma_small_mod((0xffff * pow2(208)) as nat, pow2(256));
}

/// What worker `thread_id` of `num_threads` may report: a solution from its own
/// range, the fact that its whole range holds none, or the nonce of its range at
/// which it was stopped, every one before it in the range having failed.
pub open spec fn worker_outcome(header: BlockHeader, thread_id: nat, num_threads: nat, outcome: RangeOutcome) -> bool {
    match outcome {
        RangeOutcome::Found(res) => owns_nonce(thread_id, num_threads, res.nonce as nat) && pow_met(
            with_nonce(header, res.nonce),
        ) && res.hash@ == spec_header_hash(with_nonce(header, res.nonce)),
        RangeOutcome::Exhausted => forall|n: u32|
            owns_nonce(thread_id, num_threads, n as nat) ==> !pow_met(#[trigger] with_nonce(header, n)),
        RangeOutcome::Stopped { next } => owns_nonce(thread_id, num_threads, next as nat) && forall|n: u32|
            owns_nonce(thread_id, num_threads, n as nat) && n < next ==> !pow_met(#[trigger] with_nonce(header, n)),
    }
}

/// The search of worker `thread_id` over its share of the nonce space.
fn mine_worker(
    header: BlockHeader,
    thread_id: usize,
    num_threads: usize,
    found: &AtomicBool,
    stop_flag: &AtomicBool,
    hash_count: &AtomicU64,
) -> (r: RangeOutcome)
    requires
        0 < num_threads <= 0x1_0000_0000,
        thread_id < num_threads,
    ensures
        worker_outcome(header, thread_id as nat, num_threads as nat, r),
{
    let (start, end) = nonce_range(thread_id, num_threads);
    let r = mine_range(header, start, end, found, stop_flag, hash_count);
    proof {
        if r is Exhausted {
            assert forall|n: u32| owns_nonce(thread_id as nat, num_threads as nat, n as nat) implies !pow_met(
                #[trigger] with_nonce(header, n),
            ) by {
                assert(start <= n <= end);
            }
        }
        if let RangeOutcome::Stopped { next } = r {
            assert forall|n: u32| owns_nonce(thread_id as nat, num_threads as nat, n as nat) && n < next implies !pow_met(
                #[trigger] with_nonce(header, n),
            ) by {
                assert(start <= n < next);
            }
        }
    }
    r
}

/// Calls `rayon`'s `into_par_iter().map(..).collect()` over the worker numbers
/// `0..num_threads`, running `mine_worker` for each on the thread pool; the
/// collected vector holds each worker's outcome at its number.
#[verifier::external_body]
fn run_workers(
    header: BlockHeader,
    num_threads: usize,
    found: &AtomicBool,
    stop_flag: &AtomicBool,
    hash_count: &AtomicU64,
) -> (r: Vec<RangeOutcome>)
    requires
        0 < num_threads <= 0x1_0000_0000,
    ensures
        r@.len() == num_threads,
        forall|t: int| 0 <= t < num_threads ==> worker_outcome(header, t as nat, num_threads as nat, #[trigger] r@[t]),
{
    (0..num_threads).into_par_iter().map(|t| mine_worker(header, t, num_threads, found, stop_flag, hash_count)).collect()
}

/// The first solution among the workers' outcomes, if any.
pub fn first_solution(outcomes: &Vec<RangeOutcome>) -> (r: Option<MiningResult>)
    ensures
        r is Some <==> exists|t: int| 0 <= t < outcomes@.len() && #[trigger] outcomes@[t] is Found,
        r matches Some(res) ==> exists|t: int|
            0 <= t < outcomes@.len() && (#[trigger] outcomes@[t] matches RangeOutcome::Found(f) && f.nonce
                == res.nonce && f.hash == res.hash) && forall|k: int| 0 <= k < t ==> !(outcomes@[k] is Found),
{
    let mut i: usize = 0;
    while i < outcomes.len()
        invariant
            i <= outcomes@.len(),
            forall|k: int| 0 <= k < i ==> !(#[trigger] outcomes@[k] is Found),
        decreases outcomes@.len() - i,
    {
        if let RangeOutcome::Found(res) = &outcomes[i] {
            return Some(MiningResult { nonce: res.nonce, hash: res.hash });
        }
        i = i + 1;
    }
    None
}

/// Reports that the workers of a search over `header` may give: one per worker,
/// each as `worker_outcome` allows.
pub open spec fn search_reports(header: BlockHeader, num_threads: nat, outcomes: Seq<RangeOutcome>) -> bool {
    &&& outcomes.len() == num_threads
    &&& forall|t: int| 0 <= t < num_threads ==> worker_outcome(header, t as nat, num_threads, #[trigger] outcomes[t])
}

/// Mine a block by searching for a valid nonce in parallel across threads.
///
/// Returns Some(MiningResult) if a valid nonce is found, None if the entire
/// nonce space is exhausted or mining was stopped via stop_flag.
pub fn mine_block(
    header: BlockHeader,
    num_threads: usize,
    stop_flag: &AtomicBool,
    hash_count: &AtomicU64,
) -> (r: Option<MiningResult>)
    requires
        0 < num_threads <= 0x1_0000_0000,
    ensures
        r matches Some(res) ==> pow_met(with_nonce(header, res.nonce)) && res.hash@ == spec_header_hash(
            with_nonce(header, res.nonce),
        ),
        r matches Some(res) ==> exists|outcomes: Seq<RangeOutcome>|
            #[trigger] search_reports(header, num_threads as nat, outcomes) && exists|t: int|
                0 <= t < num_threads && (#[trigger] outcomes[t] matches RangeOutcome::Found(f) && f.nonce == res.nonce
                    && f.hash == res.hash),
        r is None ==> exists|outcomes: Seq<RangeOutcome>|
            #[trigger] search_reports(header, num_threads as nat, outcomes) && forall|t: int|
                0 <= t < num_threads ==> (#[trigger] outcomes[t] is Exhausted || outcomes[t] is Stopped),
{
    let found = AtomicBool::new(false);
    let outcomes = run_workers(header, num_threads, &found, stop_flag, hash_count);
    let r = first_solution(&outcomes);
    proof {
        assert(search_reports(header, num_threads as nat, outcomes@));
        if r is Some {
            let res = r->0;
            let t = choose|t: int|
                0 <= t < outcomes@.len() && (#[trigger] outcomes@[t] matches RangeOutcome::Found(f) && f.nonce
                    == res.nonce && f.hash == res.hash) && forall|k: int| 0 <= k < t ==> !(outcomes@[k] is Found);
            assert(worker_outcome(header, t as nat, num_threads as nat, outcomes@[t]));
        }
    }
    r
}

} // verus!
