use mining_worker::hashing::{PowHash, Scratch};
use mining_worker::search::{
    absorb_hashes, effective_cutoff, gives_up, hash_rate, partition_start, reduce,
    search_partition, walk_step, BestRecord, SearchResult, ThreadReport, Walk, WalkStep,
    CUTOFF_CEILING, DEADLINE_PERIOD, DIFFICULTY_FLOOR, PARTITION_STRIDE,
};
use std::sync::atomic::AtomicBool;
use std::time::Instant;

const CHALLENGE: [u8; 32] = [0x11; 32];

fn pow_hash(digest: u8, leading: &[u8]) -> PowHash {
    let mut h = [0xffu8; 32];
    h[..leading.len()].copy_from_slice(leading);
    PowHash { d: [digest; 16], h }
}

fn record(nonce: u64, difficulty: u32, digest: u8) -> BestRecord {
    BestRecord { nonce, difficulty, hash: [digest; 16] }
}

/// What a walk from `first` to `last` must report, worked out with the hash
/// crate alone.
fn expected_walk(first: u64, last: u64) -> ThreadReport {
    expected_walk_under(&CHALLENGE, first, last)
}

fn expected_walk_under(challenge: &[u8; 32], first: u64, last: u64) -> ThreadReport {
    let mut memory = drillx_2::equix::SolverMemory::new();
    let mut best = record(first, 0, 0);
    let mut hashes = 0u64;
    for nonce in first..=last {
        for hx in drillx_2::get_hashes_with_memory(&mut memory, challenge, &nonce.to_le_bytes()) {
            hashes += 1;
            if hx.difficulty() > best.difficulty {
                best = BestRecord { nonce, difficulty: hx.difficulty(), hash: hx.d };
            }
        }
    }
    ThreadReport { best, hashes }
}

#[test]
fn constants() {
    assert_eq!(PARTITION_STRIDE, 10_000);
    assert_eq!(CUTOFF_CEILING, 55);
    assert_eq!(DIFFICULTY_FLOOR, 8);
    assert_eq!(DEADLINE_PERIOD, 100);
}

#[test]
fn large_cutoff_is_clamped() {
    assert_eq!(effective_cutoff(3600, 0), 55);
    assert_eq!(effective_cutoff(u64::MAX, 0), 55);
    assert_eq!(effective_cutoff(u64::MAX, u32::MAX), 55);
    assert_eq!(effective_cutoff(61, 0), 55);
    assert_eq!(effective_cutoff(60, 0), 55);
    assert_eq!(effective_cutoff(56, 0), 55);
    assert_eq!(effective_cutoff(55, 0), 55);
    assert_eq!(effective_cutoff(54, 0), 54);
}

#[test]
fn buffer_is_taken_off_the_cutoff() {
    assert_eq!(effective_cutoff(10, 2), 8);
    assert_eq!(effective_cutoff(5, 0), 5);
    assert_eq!(effective_cutoff(5, 5), 0);
    assert_eq!(effective_cutoff(5, 6), 0);
    assert_eq!(effective_cutoff(0, u32::MAX), 0);
    assert_eq!(effective_cutoff(3600, 3545), 55);
    assert_eq!(effective_cutoff(3600, 3546), 54);
}

#[test]
fn partitions_start_a_stride_apart() {
    assert_eq!(partition_start(0, 0, 4), Some(0));
    assert_eq!(partition_start(0, 1, 4), Some(10_000));
    assert_eq!(partition_start(0, 3, 4), Some(30_000));
    assert_eq!(partition_start(500, 2, 4), Some(20_500));
}

#[test]
fn cores_beyond_the_thread_count_take_no_part() {
    assert_eq!(partition_start(0, 4, 4), None);
    assert_eq!(partition_start(0, 5, 4), None);
    assert_eq!(partition_start(0, 0, 0), None);
    assert_eq!(partition_start(0, usize::MAX, u32::MAX), None);
}

#[test]
fn a_partition_beyond_the_last_nonce_takes_no_part() {
    assert_eq!(partition_start(u64::MAX, 0, 4), Some(u64::MAX));
    assert_eq!(partition_start(u64::MAX, 1, 4), None);
    assert_eq!(partition_start(u64::MAX - 10_000, 1, 4), Some(u64::MAX));
    assert_eq!(partition_start(u64::MAX - 9_999, 1, 4), None);
}

#[test]
fn difficulty_counts_leading_zero_bits() {
    assert_eq!(pow_hash(0, &[]).difficulty(), 0);
    assert_eq!(pow_hash(0, &[0x80]).difficulty(), 0);
    assert_eq!(pow_hash(0, &[0x40]).difficulty(), 1);
    assert_eq!(pow_hash(0, &[0x01]).difficulty(), 7);
    assert_eq!(pow_hash(0, &[0x00]).difficulty(), 8);
    assert_eq!(pow_hash(0, &[0x00, 0x00, 0x10]).difficulty(), 19);
    assert_eq!(pow_hash(0, &[0x00, 0x01, 0x00]).difficulty(), 15);
    assert_eq!(pow_hash(0, &[0u8; 32]).difficulty(), 256);
}

#[test]
fn difficulty_is_that_of_the_hash_crate() {
    let mut memory = drillx_2::equix::SolverMemory::new();
    for nonce in 0u64..4 {
        for hx in drillx_2::get_hashes_with_memory(&mut memory, &CHALLENGE, &nonce.to_le_bytes()) {
            assert_eq!(PowHash { d: hx.d, h: hx.h }.difficulty(), hx.difficulty());
        }
    }
}

#[test]
fn hashes_are_those_of_the_hash_crate() {
    let mut memory = drillx_2::equix::SolverMemory::new();
    let mut scratch = Scratch::new();
    let mut seen = 0;
    for nonce in [0u64, 1, 2, 77, u64::MAX] {
        let expected = drillx_2::get_hashes_with_memory(&mut memory, &CHALLENGE, &nonce.to_le_bytes());
        let found = scratch.hashes(&CHALLENGE, nonce);
        assert_eq!(found.len(), expected.len());
        assert!(found.len() <= 8);
        for (ours, theirs) in found.iter().zip(expected.iter()) {
            assert_eq!(ours.d, theirs.d);
            assert_eq!(ours.h, theirs.h);
            assert!(drillx_2::is_valid_digest(&CHALLENGE, &nonce.to_le_bytes(), &ours.d));
        }
        seen += found.len();
    }
    assert!(seen > 0);
}

#[test]
fn hashes_do_not_depend_on_the_scratch_space() {
    let mut fresh = Scratch::new();
    let mut used = Scratch::new();
    let _ = used.hashes(&[0x22; 32], 5);
    let _ = used.hashes(&CHALLENGE, 9);
    assert_eq!(fresh.hashes(&CHALLENGE, 3), used.hashes(&CHALLENGE, 3));
}

#[test]
fn a_hash_replaces_the_record_only_when_strictly_better() {
    let start = BestRecord::initial(40);
    assert_eq!(start, record(40, 0, 0));
    assert_eq!(absorb_hashes(start, 40, &Vec::new()), start);
    // Difficulty zero never replaces the empty record.
    assert_eq!(absorb_hashes(start, 41, &vec![pow_hash(1, &[0x80])]), start);
    // The first of two equals stays.
    let equals = vec![pow_hash(1, &[0x10]), pow_hash(2, &[0x10])];
    assert_eq!(absorb_hashes(start, 41, &equals), record(41, 3, 1));
    // The strictly better one wins wherever it stands.
    let rising = vec![pow_hash(1, &[0x10]), pow_hash(2, &[0x00, 0x80]), pow_hash(3, &[0x01])];
    assert_eq!(absorb_hashes(start, 42, &rising), record(42, 8, 2));
    // What is held already stays against equal and lower.
    let held = record(7, 8, 9);
    assert_eq!(absorb_hashes(held, 43, &rising), held);
    assert_eq!(absorb_hashes(held, 43, &vec![pow_hash(4, &[0x00, 0x40])]), record(43, 9, 4));
}

#[test]
fn a_thread_gives_up_only_with_time_up_and_a_good_record() {
    assert!(gives_up(5, 5, 8));
    assert!(gives_up(6, 5, 9));
    assert!(gives_up(0, 0, 8));
    assert!(!gives_up(4, 5, 8));
    assert!(!gives_up(5, 5, 7));
    assert!(!gives_up(60, 55, 0));
}

#[test]
fn hash_rate_counts_a_short_run_as_one_second() {
    assert_eq!(hash_rate(1000, 0), 1000);
    assert_eq!(hash_rate(1000, 1), 1000);
    assert_eq!(hash_rate(1000, 4), 250);
    assert_eq!(hash_rate(7, 2), 3);
    assert_eq!(hash_rate(0, 10), 0);
    assert_eq!(hash_rate(u64::MAX, u64::MAX), 1);
}

#[test]
fn a_step_under_a_set_flag_abandons_the_walk() {
    let mut scratch = Scratch::new();
    let started = Instant::now();
    let walk = Walk::begin(7);
    assert_eq!(walk, Walk { nonce: 7, best: record(7, 0, 0), hashes: 0 });
    assert_eq!(walk_step(&mut scratch, &CHALLENGE, walk, 100, 3600, &started, false), WalkStep::Abandoned);
    let late = Walk { nonce: 100, best: record(9, 20, 1), hashes: 55 };
    assert_eq!(walk_step(&mut scratch, &CHALLENGE, late, 100, 0, &started, false), WalkStep::Abandoned);
}

#[test]
fn a_step_hashes_one_nonce_and_goes_on() {
    let mut scratch = Scratch::new();
    let started = Instant::now();
    let after = expected_walk(7, 7);
    let next = walk_step(&mut scratch, &CHALLENGE, Walk::begin(7), 100, 3600, &started, true);
    assert_eq!(next, WalkStep::Onward(Walk { nonce: 8, best: after.best, hashes: after.hashes }));
    assert!(after.hashes <= 8);
    // What the walk holds is kept against the new hashes, and the count adds up.
    let held = Walk { nonce: 7, best: record(3, 200, 9), hashes: 40 };
    let next = walk_step(&mut scratch, &CHALLENGE, held, 100, 3600, &started, true);
    assert_eq!(next, WalkStep::Onward(Walk { nonce: 8, best: record(3, 200, 9), hashes: 40 + after.hashes }));
}

#[test]
fn a_step_at_the_end_of_the_range_finishes_the_walk() {
    let mut scratch = Scratch::new();
    let started = Instant::now();
    let after = expected_walk(7, 7);
    for range_end in [0u64, 6, 7] {
        let next = walk_step(&mut scratch, &CHALLENGE, Walk::begin(7), range_end, 3600, &started, true);
        assert_eq!(next, WalkStep::Finished(after));
    }
    let full = Walk { nonce: 7, best: record(7, 0, 0), hashes: u64::MAX - 1 };
    match walk_step(&mut scratch, &CHALLENGE, full, 7, 3600, &started, true) {
        WalkStep::Finished(report) => assert_eq!(report.hashes, (u64::MAX - 1).saturating_add(after.hashes)),
        other => panic!("unexpected: {:?}", other),
    }
}

#[test]
fn a_step_on_a_deadline_nonce_finishes_only_with_a_good_record() {
    let mut scratch = Scratch::new();
    let started = Instant::now();
    // Nonce 200 is a deadline nonce and the time is up at once.
    let good = Walk { nonce: 200, best: record(150, 8, 4), hashes: 10 };
    match walk_step(&mut scratch, &CHALLENGE, good, 1_000, 0, &started, true) {
        WalkStep::Finished(report) => {
            assert!(report.best.difficulty >= 8);
            assert!(report.hashes >= 10 && report.hashes <= 18);
        }
        other => panic!("unexpected: {:?}", other),
    }
    // With time left the walk goes on.
    assert!(matches!(
        walk_step(&mut scratch, &CHALLENGE, good, 1_000, 3600, &started, true),
        WalkStep::Onward(Walk { nonce: 201, .. })
    ));
    // Off the deadline nonces the clock is not looked at.
    let off = Walk { nonce: 201, best: record(150, 8, 4), hashes: 10 };
    assert!(matches!(
        walk_step(&mut scratch, &CHALLENGE, off, 1_000, 0, &started, true),
        WalkStep::Onward(Walk { nonce: 202, .. })
    ));
}

#[test]
fn a_walk_covers_its_range_and_both_ends() {
    let running = AtomicBool::new(true);
    let report = search_partition(&CHALLENGE, 3, 9, 3600, &Instant::now(), &running)
        .expect("a running walk reports");
    let expected = expected_walk(3, 9);
    assert_eq!(report, expected);
    assert!(report.best.nonce >= 3 && report.best.nonce <= 9);
    assert!(report.hashes > 0);
}

#[test]
fn a_walk_that_starts_beyond_the_end_hashes_one_nonce() {
    let running = AtomicBool::new(true);
    let report = search_partition(&CHALLENGE, 10_000, 100, 3600, &Instant::now(), &running)
        .expect("a running walk reports");
    assert_eq!(report, expected_walk(10_000, 10_000));
    assert_eq!(report.best.nonce, 10_000);
    let at_the_end = search_partition(&CHALLENGE, 100, 100, 3600, &Instant::now(), &running)
        .expect("a running walk reports");
    assert_eq!(at_the_end, expected_walk(100, 100));
}

#[test]
fn the_best_of_a_walk_is_no_lower_than_any_hash_it_saw() {
    let running = AtomicBool::new(true);
    let report = search_partition(&CHALLENGE, 20, 30, 3600, &Instant::now(), &running)
        .expect("a running walk reports");
    let mut memory = drillx_2::equix::SolverMemory::new();
    let mut seen = 0u64;
    let mut matched = report.best.difficulty == 0;
    for nonce in 20u64..=30 {
        for hx in drillx_2::get_hashes_with_memory(&mut memory, &CHALLENGE, &nonce.to_le_bytes()) {
            seen += 1;
            assert!(hx.difficulty() <= report.best.difficulty);
            if nonce == report.best.nonce && hx.d == report.best.hash {
                assert_eq!(hx.difficulty(), report.best.difficulty);
                matched = true;
            }
        }
    }
    assert!(matched);
    assert_eq!(report.hashes, seen);
}

#[test]
fn with_no_time_allowed_a_walk_stops_on_the_first_good_deadline_nonce() {
    // Under this challenge nonce 100 has a hash of difficulty 9.
    let challenge = [50u8; 32];
    let running = AtomicBool::new(true);
    let report = search_partition(&challenge, 99, 400, 0, &Instant::now(), &running)
        .expect("a running walk reports");
    assert_eq!(report, expected_walk_under(&challenge, 99, 100));
    assert!(report.best.difficulty >= 8);
    // With time left it goes on.
    let patient = search_partition(&challenge, 99, 102, 3600, &Instant::now(), &running)
        .expect("a running walk reports");
    assert_eq!(patient, expected_walk_under(&challenge, 99, 102));
}

#[test]
fn a_walk_does_not_give_up_with_a_weak_record() {
    // Under this challenge nonce 0 has no hash of difficulty 8.
    let running = AtomicBool::new(true);
    let report = search_partition(&CHALLENGE, 0, 2, 0, &Instant::now(), &running)
        .expect("a running walk reports");
    assert!(expected_walk(0, 0).best.difficulty < 8);
    assert_eq!(report, expected_walk(0, 2));
}

#[test]
fn a_cancelled_walk_reports_nothing() {
    let stopped = AtomicBool::new(false);
    assert_eq!(search_partition(&CHALLENGE, 0, 100_000, 5, &Instant::now(), &stopped), None);
    assert_eq!(search_partition(&CHALLENGE, 0, 0, 0, &Instant::now(), &stopped), None);
}

#[test]
fn reduction_takes_the_highest_difficulty_and_sums_the_counts() {
    let reports = vec![
        Some(ThreadReport { best: record(5, 9, 1), hashes: 10 }),
        None,
        Some(ThreadReport { best: record(10_003, 14, 2), hashes: 20 }),
        Some(ThreadReport { best: record(20_001, 11, 3), hashes: 30 }),
    ];
    assert_eq!(reduce(&reports), SearchResult { best: record(10_003, 14, 2), processed: 60 });
}

#[test]
fn reduction_keeps_the_first_of_equals() {
    let reports = vec![
        Some(ThreadReport { best: record(1, 12, 1), hashes: 1 }),
        Some(ThreadReport { best: record(2, 12, 2), hashes: 2 }),
        Some(ThreadReport { best: record(3, 12, 3), hashes: 3 }),
    ];
    assert_eq!(reduce(&reports), SearchResult { best: record(1, 12, 1), processed: 6 });
}

#[test]
fn reduction_of_nothing_is_the_empty_record() {
    let empty = SearchResult { best: record(0, 0, 0), processed: 0 };
    assert_eq!(reduce(&Vec::new()), empty);
    assert_eq!(reduce(&vec![None, None]), empty);
    // Reports of difficulty zero add their counts and leave the record alone.
    let idle = vec![Some(ThreadReport { best: record(30_000, 0, 0), hashes: 4 })];
    assert_eq!(reduce(&idle), SearchResult { best: record(0, 0, 0), processed: 4 });
}

#[test]
fn counts_stop_at_the_largest_u64() {
    let reports = vec![
        Some(ThreadReport { best: record(1, 1, 1), hashes: u64::MAX }),
        Some(ThreadReport { best: record(2, 2, 2), hashes: 1 }),
    ];
    assert_eq!(reduce(&reports), SearchResult { best: record(2, 2, 2), processed: u64::MAX });
    let fits = vec![
        Some(ThreadReport { best: record(1, 1, 1), hashes: u64::MAX - 1 }),
        Some(ThreadReport { best: record(2, 2, 2), hashes: 1 }),
    ];
    assert_eq!(reduce(&fits).processed, u64::MAX);
}

#[test]
fn reduced_result_dominates_every_thread() {
    let running = AtomicBool::new(true);
    let started = Instant::now();
    let mut reports = Vec::new();
    for core in 0usize..3 {
        match partition_start(0, core, 2) {
            Some(first) => reports.push(search_partition(&CHALLENGE, first, 5, 3600, &started, &running)),
            None => reports.push(None),
        }
    }
    assert!(reports[0].is_some() && reports[1].is_some() && reports[2].is_none());
    let result = reduce(&reports);
    let mut sum = 0;
    for report in reports.iter().flatten() {
        assert!(report.best.difficulty <= result.best.difficulty);
        sum += report.hashes;
    }
    assert_eq!(result.processed, sum);
    assert_eq!(reports[1].unwrap(), expected_walk(10_000, 10_000));
}
