use bitcoin::hashes::Hash as _;
use std::sync::atomic::{AtomicBool, AtomicU64, Ordering};
use testnet4_miner::block_builder::BlockHeader;
use testnet4_miner::miner::{
    first_solution, is_min_difficulty, mine_block, mine_range, nonce_range, search_step, MiningResult,
    RangeOutcome, SearchStep,
};

fn header(bits: u32) -> BlockHeader {
    BlockHeader {
        version: 0x2000_0000,
        prev_blockhash: [3u8; 32],
        merkle_root: [9u8; 32],
        time: 1_700_000_000,
        bits,
        nonce: 0,
    }
}

fn to_bitcoin(h: &BlockHeader) -> bitcoin::block::Header {
    bitcoin::block::Header {
        version: bitcoin::block::Version::from_consensus(h.version),
        prev_blockhash: bitcoin::BlockHash::from_byte_array(h.prev_blockhash),
        merkle_root: bitcoin::TxMerkleNode::from_byte_array(h.merkle_root),
        time: h.time,
        bits: bitcoin::CompactTarget::from_consensus(h.bits),
        nonce: h.nonce,
    }
}

#[test]
fn nonce_ranges_split_evenly() {
    assert_eq!(nonce_range(0, 1), (0, u32::MAX));
    assert_eq!(nonce_range(0, 4), (0, 0x3fff_ffff));
    assert_eq!(nonce_range(1, 4), (0x4000_0000, 0x7fff_ffff));
    assert_eq!(nonce_range(3, 4), (0xc000_0000, u32::MAX));
    assert_eq!(nonce_range(0, 3), (0, 0x5555_5554));
    assert_eq!(nonce_range(2, 3), (0xaaaa_aaaa, u32::MAX));
}

#[test]
fn nonce_ranges_tile_the_space() {
    for n in [1usize, 2, 3, 7, 16, 1000] {
        let mut next: u64 = 0;
        for t in 0..n {
            let (start, end) = nonce_range(t, n);
            assert_eq!(start as u64, next);
            assert!(start <= end);
            next = end as u64 + 1;
        }
        assert_eq!(next, 1u64 << 32);
    }
}

#[test]
fn easy_target_is_met_and_matches_validate_pow() {
    let found = AtomicBool::new(false);
    let stop = AtomicBool::new(false);
    let count = AtomicU64::new(0);
    let h = header(0x207f_ffff);
    match mine_range(h, 0, 1000, &found, &stop, &count) {
        RangeOutcome::Found(res) => {
            assert!(found.load(Ordering::Relaxed));
            let mut solved = h;
            solved.nonce = res.nonce;
            let b = to_bitcoin(&solved);
            let hash = b.validate_pow(b.target()).unwrap();
            assert_eq!(hash.to_byte_array(), res.hash);
            for n in 0..res.nonce {
                let mut other = h;
                other.nonce = n;
                let ob = to_bitcoin(&other);
                assert!(ob.validate_pow(ob.target()).is_err());
            }
            assert_eq!(count.load(Ordering::Relaxed), res.nonce as u64);
        }
        _ => panic!("an easy target should be met within a thousand nonces"),
    }
}

#[test]
fn zero_target_exhausts_the_range() {
    let found = AtomicBool::new(false);
    let stop = AtomicBool::new(false);
    let count = AtomicU64::new(0);
    let h = header(0x1d80_0000);
    assert!(matches!(mine_range(h, 10, 2509, &found, &stop, &count), RangeOutcome::Exhausted));
    assert_eq!(count.load(Ordering::Relaxed), 2500);
    assert!(!found.load(Ordering::Relaxed));
}

#[test]
fn raised_flags_stop_the_search() {
    let found = AtomicBool::new(false);
    let stop = AtomicBool::new(true);
    let count = AtomicU64::new(0);
    assert!(matches!(mine_range(header(0x207f_ffff), 0, 100, &found, &stop, &count), RangeOutcome::Stopped { next: 0 }));
    let found = AtomicBool::new(true);
    let stop = AtomicBool::new(false);
    assert!(matches!(mine_range(header(0x207f_ffff), 0, 100, &found, &stop, &count), RangeOutcome::Stopped { next: 0 }));
    assert_eq!(count.load(Ordering::Relaxed), 0);
}

#[test]
fn a_stop_reports_where_the_search_stopped() {
    let found = AtomicBool::new(true);
    let stop = AtomicBool::new(false);
    let count = AtomicU64::new(0);
    assert!(matches!(
        mine_range(header(0x1d80_0000), 77, 500, &found, &stop, &count),
        RangeOutcome::Stopped { next: 77 }
    ));
}

#[test]
fn empty_range_is_exhausted() {
    let found = AtomicBool::new(false);
    let stop = AtomicBool::new(false);
    let count = AtomicU64::new(0);
    assert!(matches!(mine_range(header(0x207f_ffff), 5, 4, &found, &stop, &count), RangeOutcome::Exhausted));
}

#[test]
fn min_difficulty_text() {
    assert!(is_min_difficulty("1d00ffff"));
    assert!(!is_min_difficulty("1D00FFFF"));
    assert!(!is_min_difficulty("1d00fffe"));
    assert!(!is_min_difficulty(""));
}

#[test]
fn parallel_search_finds_a_valid_nonce() {
    let stop = AtomicBool::new(false);
    let count = AtomicU64::new(0);
    let h = header(0x207f_ffff);
    let res = mine_block(h, 4, &stop, &count).expect("an easy target is met");
    let mut solved = h;
    solved.nonce = res.nonce;
    let b = to_bitcoin(&solved);
    assert_eq!(b.validate_pow(b.target()).unwrap().to_byte_array(), res.hash);
}

#[test]
fn stopped_parallel_search_finds_nothing() {
    let stop = AtomicBool::new(true);
    let count = AtomicU64::new(0);
    assert!(mine_block(header(0x207f_ffff), 3, &stop, &count).is_none());
    assert_eq!(count.load(Ordering::Relaxed), 0);
}

#[test]
fn a_solution_found_early_is_found_again() {
    let h = header(0x207f_ffff);
    let first = match mine_range(h, 0, 1000, &AtomicBool::new(false), &AtomicBool::new(false), &AtomicU64::new(0)) {
        RangeOutcome::Found(res) => res,
        _ => panic!("an easy target is met"),
    };
    let again = match mine_range(h, 0, 1000, &AtomicBool::new(false), &AtomicBool::new(false), &AtomicU64::new(0)) {
        RangeOutcome::Found(res) => res,
        _ => panic!("an easy target is met"),
    };
    assert_eq!(first.nonce, again.nonce);
    assert_eq!(first.hash, again.hash);
}

#[test]
fn search_steps() {
    assert!(matches!(search_step(true, false, Some([1u8; 32]), 5, 9), SearchStep::Stop));
    assert!(matches!(search_step(false, true, None, 9, 9), SearchStep::Stop));
    assert!(matches!(search_step(false, false, Some([4u8; 32]), 5, 9), SearchStep::Solved(h) if h == [4u8; 32]));
    assert!(matches!(search_step(false, false, Some([4u8; 32]), 9, 9), SearchStep::Solved(_)));
    assert!(matches!(search_step(false, false, None, 9, 9), SearchStep::Done));
    assert!(matches!(search_step(false, false, None, 5, 9), SearchStep::Next));
}

#[test]
fn first_solution_picks_the_first_found() {
    let outcomes = vec![
        RangeOutcome::Stopped { next: 3 },
        RangeOutcome::Exhausted,
        RangeOutcome::Found(MiningResult { nonce: 70, hash: [7u8; 32] }),
        RangeOutcome::Found(MiningResult { nonce: 90, hash: [9u8; 32] }),
    ];
    let res = first_solution(&outcomes).unwrap();
    assert_eq!(res.nonce, 70);
    assert_eq!(res.hash, [7u8; 32]);
    let none = vec![RangeOutcome::Exhausted, RangeOutcome::Stopped { next: 0 }];
    assert!(first_solution(&none).is_none());
    assert!(first_solution(&Vec::new()).is_none());
}

#[test]
fn parallel_search_solution_lies_in_a_worker_range() {
    let stop = AtomicBool::new(false);
    let count = AtomicU64::new(0);
    let h = header(0x207f_ffff);
    let res = mine_block(h, 2, &stop, &count).expect("an easy target is met");
    let (s0, e0) = nonce_range(0, 2);
    let (s1, e1) = nonce_range(1, 2);
    assert!((s0..=e0).contains(&res.nonce) || (s1..=e1).contains(&res.nonce));
}
