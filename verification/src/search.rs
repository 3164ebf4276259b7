//! The search engine: one walk over nonces per thread, and the reduction of
//! the threads' reports to the best record of the job.

use crate::ambient::{elapsed_seconds, still_running};
use crate::hashing::{candidate_hashes, PowHash, Scratch};
use std::sync::atomic::AtomicBool;
use std::time::Instant;
use vstd::prelude::*;

verus! {

/// Distance between the first nonces of neighbouring threads.
pub const PARTITION_STRIDE: u64 = 10_000;

/// No job is searched for longer than this many seconds before threads may
/// give up.
pub const CUTOFF_CEILING: u64 = 55;

/// A thread gives up at the deadline only with a best difficulty of at least
/// this.
pub const DIFFICULTY_FLOOR: u32 = 8;

/// The deadline is looked at on nonces that are multiples of this.
pub const DEADLINE_PERIOD: u64 = 100;

/// The best hash seen in some scope, with the nonce that gave it.
#[derive(Clone, Copy, Debug, PartialEq, Eq)]
pub struct BestRecord {
    pub nonce: u64,
    pub difficulty: u32,
    pub hash: [u8; 16],
}

/// What one thread hands back: its best record and the number of hashes it
/// evaluated, which stops counting at `u64::MAX`.
#[derive(Clone, Copy, Debug, PartialEq, Eq)]
pub struct ThreadReport {
    pub best: BestRecord,
    pub hashes: u64,
}

/// The result of a job: the best record over all threads and the number of
/// hashes they evaluated together, which stops counting at `u64::MAX`.
#[derive(Clone, Copy, Debug, PartialEq, Eq)]
pub struct SearchResult {
    pub best: BestRecord,
    pub processed: u64,
}

/// The digest of a record that holds no hash yet: sixteen zero bytes.
pub open spec fn zero_digest() -> [u8; 16] {
    vstd::array::spec_array_fill_for_copy_type::<u8, 16>(0u8)
}

impl BestRecord {
    /// The record a scope starts from: nothing found yet at `nonce`.
    pub open spec fn initial_spec(nonce: u64) -> BestRecord {
        BestRecord { nonce, difficulty: 0, hash: zero_digest() }
    }

    /// The record a scope starts from.
    #[verifier::when_used_as_spec(initial_spec)]
    pub fn initial(nonce: u64) -> (record: BestRecord)
        ensures
            record == BestRecord::initial_spec(nonce),
    {
        BestRecord { nonce, difficulty: 0, hash: [0u8; 16] }
    }
}

/// A count as a `u64` reports it: counting stops at `u64::MAX`.
pub open spec fn capped(total: nat) -> u64 {
    if total > u64::MAX {
        u64::MAX
    } else {
        total as u64
    }
}

/// The seconds a job may be searched before threads may give up: the
/// coordinator's cutoff less the buffer, never below zero and never above the
/// ceiling.
pub open spec fn effective_cutoff_spec(cutoff: u64, buffer: u32) -> u64 {
    let reduced = if cutoff >= buffer {
        cutoff - buffer
    } else {
        0
    };
    if reduced > CUTOFF_CEILING {
        CUTOFF_CEILING
    } else {
        reduced as u64
    }
}

/// Works out the seconds a job may be searched before threads may give up.
#[verifier::when_used_as_spec(effective_cutoff_spec)]
pub fn effective_cutoff(cutoff: u64, buffer: u32) -> (seconds: u64)
    ensures
        seconds == effective_cutoff_spec(cutoff, buffer),
        seconds <= CUTOFF_CEILING,
{
    let reduced = cutoff.saturating_sub(buffer as u64);
    if reduced > CUTOFF_CEILING {
        CUTOFF_CEILING
    } else {
        reduced
    }
}

/// The first nonce of the thread pinned to core `core`, if that thread takes
/// part: cores at or above `threads` do not, nor does one whose first nonce
/// no `u64` holds.
pub open spec fn partition_start_spec(range_start: u64, core: usize, threads: u32) -> Option<u64> {
    if core < threads && range_start + core * PARTITION_STRIDE <= u64::MAX {
        Some((range_start + core * PARTITION_STRIDE) as u64)
    } else {
        None
    }
}

/// Works out where the thread on core `core` starts, if it takes part.
#[verifier::when_used_as_spec(partition_start_spec)]
pub fn partition_start(range_start: u64, core: usize, threads: u32) -> (first: Option<u64>)
    ensures
        first == partition_start_spec(range_start, core, threads),
{
    if core as u64 >= threads as u64 {
        return None;
    }
    let offset: u64 = core as u64 * PARTITION_STRIDE;
    range_start.checked_add(offset)
}

/// The best record after the hashes found at `nonce` are held against `best`
/// one by one: a hash replaces the record only where its difficulty is
/// strictly greater.
pub open spec fn absorb(best: BestRecord, nonce: u64, hashes: Seq<PowHash>) -> BestRecord
    decreases hashes.len(),
{
    if hashes.len() == 0 {
        best
    } else {
        let prior = absorb(best, nonce, hashes.drop_last());
        let hash = hashes.last();
        if hash.difficulty() > prior.difficulty {
            BestRecord { nonce, difficulty: hash.difficulty(), hash: hash.d }
        } else {
            prior
        }
    }
}

/// Holds the hashes found at `nonce` against `best`.
pub fn absorb_hashes(best: BestRecord, nonce: u64, hashes: &Vec<PowHash>) -> (record: BestRecord)
    ensures
        record == absorb(best, nonce, hashes@),
{
    let mut record = best;
    let mut i: usize = 0;
    while i < hashes.len()
        invariant
            0 <= i <= hashes.len(),
            record == absorb(best, nonce, hashes@.take(i as int)),
        decreases hashes.len() - i,
    {
        let hash = hashes[i];
        let difficulty = hash.difficulty();
        assert(hashes@.take(i + 1).drop_last() =~= hashes@.take(i as int));
        if difficulty > record.difficulty {
            record = BestRecord { nonce, difficulty, hash: hash.d };
        }
        i += 1;
    }
    assert(hashes@.take(hashes.len() as int) =~= hashes@);
    record
}

/// Whether a thread that stands on a deadline nonce gives up: the time is up
/// and what it holds is good enough.
pub open spec fn gives_up_spec(elapsed: u64, cutoff: u64, difficulty: u32) -> bool {
    elapsed >= cutoff && difficulty >= DIFFICULTY_FLOOR
}

/// Decides whether a thread on a deadline nonce gives up, with the clock as
/// it was just read.
#[verifier::when_used_as_spec(gives_up_spec)]
pub fn gives_up(elapsed: u64, cutoff: u64, difficulty: u32) -> (stop: bool)
    ensures
        stop == gives_up_spec(elapsed, cutoff, difficulty),
{
    elapsed >= cutoff && difficulty >= DIFFICULTY_FLOOR
}

/// The best record of a thread that started at `first` and has hashed every
/// nonce from there up to `last`, both included.
pub open spec fn walk_best(challenge: Seq<u8>, first: u64, last: u64) -> BestRecord
    decreases last - first,
{
    if last <= first {
        absorb(BestRecord::initial_spec(first), first, candidate_hashes(challenge, first))
    } else {
        absorb(
            walk_best(challenge, first, (last - 1) as u64),
            last,
            candidate_hashes(challenge, last),
        )
    }
}

/// The number of hashes that such a thread has evaluated.
pub open spec fn walk_count(challenge: Seq<u8>, first: u64, last: u64) -> nat
    decreases last - first,
{
    if last <= first {
        candidate_hashes(challenge, first).len()
    } else {
        walk_count(challenge, first, (last - 1) as u64) + candidate_hashes(challenge, last).len()
    }
}

/// Whether a thread on a deadline nonce gives up once the time is up.
pub open spec fn ripe(challenge: Seq<u8>, first: u64, nonce: u64) -> bool {
    nonce % DEADLINE_PERIOD == 0 && walk_best(challenge, first, nonce).difficulty
        >= DIFFICULTY_FLOOR
}

/// A walk between two nonces: the nonce that it hashes next, its best record
/// and its count of hashes so far.
#[derive(Clone, Copy, Debug, PartialEq, Eq)]
pub struct Walk {
    pub nonce: u64,
    pub best: BestRecord,
    pub hashes: u64,
}

/// What one step of a walk ends in.
#[derive(Clone, Copy, Debug, PartialEq, Eq)]
pub enum WalkStep {
    /// The flag was set: the walk is given up and reports nothing.
    Abandoned,
    /// The walk has stopped, with this report.
    Finished(ThreadReport),
    /// The walk goes on from here.
    Onward(Walk),
}

impl Walk {
    /// A walk that has hashed nothing yet.
    pub open spec fn begin_spec(first_nonce: u64) -> Walk {
        Walk { nonce: first_nonce, best: BestRecord::initial_spec(first_nonce), hashes: 0 }
    }

    /// Starts a walk at `first_nonce`.
    #[verifier::when_used_as_spec(begin_spec)]
    pub fn begin(first_nonce: u64) -> (walk: Walk)
        ensures
            walk == Walk::begin_spec(first_nonce),
    {
        Walk { nonce: first_nonce, best: BestRecord::initial(first_nonce), hashes: 0 }
    }

    /// What the walk holds once its next nonce is hashed.
    pub open spec fn hashed(self, challenge: Seq<u8>) -> ThreadReport {
        ThreadReport {
            best: absorb(self.best, self.nonce, candidate_hashes(challenge, self.nonce)),
            hashes: capped(self.hashes as nat + candidate_hashes(challenge, self.nonce).len()),
        }
    }

    /// Whether the walk, once its next nonce is hashed, stands on a deadline
    /// nonce with a record that is good enough to give up on.
    pub open spec fn may_give_up(self, challenge: Seq<u8>) -> bool {
        self.nonce % DEADLINE_PERIOD == 0 && self.hashed(challenge).best.difficulty
            >= DIFFICULTY_FLOOR
    }
}

/// What one step of a walk may end in.
///
/// Under a set flag the step abandons the walk before anything is hashed.
/// Otherwise the next nonce is hashed. The walk then finishes if that nonce
/// lies at or beyond `range_end`; on a deadline nonce with a good enough
/// record it finishes if the time is up, which with a cutoff of zero it
/// always is; in every other case it goes on to the nonce that follows.
pub open spec fn steps_to(
    walk: Walk,
    challenge: Seq<u8>,
    range_end: u64,
    cutoff: u64,
    running: bool,
    next: WalkStep,
) -> bool {
    if !running {
        next == WalkStep::Abandoned
    } else {
        match next {
            WalkStep::Abandoned => false,
            WalkStep::Finished(report) => report == walk.hashed(challenge) && (walk.nonce
                >= range_end || walk.may_give_up(challenge)),
            WalkStep::Onward(onward) => walk.nonce < range_end && !(cutoff == 0
                && walk.may_give_up(challenge)) && onward == (Walk {
                nonce: (walk.nonce + 1) as u64,
                best: walk.hashed(challenge).best,
                hashes: walk.hashed(challenge).hashes,
            }),
        }
    }
}

/// Takes one step of a walk: with `running` as the flag was just read, it
/// hashes the walk's next nonce and decides whether the walk goes on.
///
/// A step under a set flag ends the walk at once, and no step evaluates more
/// than eight hashes: so many at most lie between the setting of the flag and
/// the end of the walk.
pub fn walk_step(
    scratch: &mut Scratch,
    challenge: &[u8; 32],
    walk: Walk,
    range_end: u64,
    cutoff: u64,
    started: &Instant,
    running: bool,
) -> (next: WalkStep)
    ensures
        steps_to(walk, challenge@, range_end, cutoff, running, next),
        next matches WalkStep::Finished(report) ==> report.hashes <= walk.hashes + 8,
        next matches WalkStep::Onward(onward) ==> onward.hashes <= walk.hashes + 8,
{
    if !running {
        return WalkStep::Abandoned;
    }
    let found = scratch.hashes(challenge, walk.nonce);
    let best = absorb_hashes(walk.best, walk.nonce, &found);
    let hashes = walk.hashes.saturating_add(found.len() as u64);
    if walk.nonce >= range_end {
        return WalkStep::Finished(ThreadReport { best, hashes });
    }
    if walk.nonce % DEADLINE_PERIOD == 0 {
        if gives_up(elapsed_seconds(started), cutoff, best.difficulty) {
            return WalkStep::Finished(ThreadReport { best, hashes });
        }
    }
    WalkStep::Onward(Walk { nonce: walk.nonce + 1, best, hashes })
}

/// What holds of the report of a thread that stopped after hashing `last`.
///
/// The thread hashed every nonce from `first_nonce` to `last`. It never goes on
/// from the end of the range, so `last` is at most `range_end` unless the very
/// first nonce already lay beyond it. It stopped because it had reached the
/// end, or because it stood on a deadline nonce with a good enough record.
/// With a cutoff of zero the time is always up, and `last` is then the first
/// nonce at which one of the two holds.
pub open spec fn reports_walk(
    report: ThreadReport,
    challenge: Seq<u8>,
    first_nonce: u64,
    range_end: u64,
    cutoff: u64,
    last: u64,
) -> bool {
    &&& first_nonce <= last
    &&& last == first_nonce || last <= range_end
    &&& last >= range_end || ripe(challenge, first_nonce, last)
    &&& cutoff == 0 ==> forall|m: u64|
        first_nonce <= m < last ==> !#[trigger] ripe(challenge, first_nonce, m)
    &&& report.best == walk_best(challenge, first_nonce, last)
    &&& report.hashes == capped(walk_count(challenge, first_nonce, last))
}

/// Whether `report` is what a thread that started at `first_nonce` reports
/// after some nonce at which it may stop.
pub open spec fn reports_some_walk(
    report: ThreadReport,
    challenge: Seq<u8>,
    first_nonce: u64,
    range_end: u64,
    cutoff: u64,
) -> bool {
    exists|last: u64| #[trigger] reports_walk(report, challenge, first_nonce, range_end, cutoff, last)
}

/// Whether `walk` is where a thread that started at `first_nonce` stands
/// before it hashes `walk.nonce`.
pub open spec fn on_track(
    walk: Walk,
    challenge: Seq<u8>,
    first_nonce: u64,
    range_end: u64,
    cutoff: u64,
) -> bool {
    &&& first_nonce <= walk.nonce
    &&& walk.nonce == first_nonce || walk.nonce <= range_end
    &&& walk.nonce == first_nonce ==> walk == Walk::begin_spec(first_nonce)
    &&& walk.nonce > first_nonce ==> walk.best == walk_best(
        challenge,
        first_nonce,
        (walk.nonce - 1) as u64,
    ) && walk.hashes == capped(walk_count(challenge, first_nonce, (walk.nonce - 1) as u64))
    &&& cutoff == 0 ==> forall|m: u64|
        first_nonce <= m < walk.nonce ==> !#[trigger] ripe(challenge, first_nonce, m)
}

/// Walks the nonces from `first_nonce` upwards and keeps the best hash.
///
/// On every nonce, in this order: if the flag no longer says to go on, the
/// walk is abandoned and nothing is reported; the nonce is hashed; at or
/// beyond `range_end` the walk stops; on a multiple of a hundred it stops if
/// `cutoff` seconds have passed since `started` and the best difficulty is at
/// least eight. Otherwise it goes on to the next nonce.
pub fn search_partition(
    challenge: &[u8; 32],
    first_nonce: u64,
    range_end: u64,
    cutoff: u64,
    started: &Instant,
    running: &AtomicBool,
) -> (outcome: Option<ThreadReport>)
    ensures
        outcome matches Some(report) ==> reports_some_walk(
            report,
            challenge@,
            first_nonce,
            range_end,
            cutoff,
        ),
{
    let mut scratch = Scratch::new();
    let mut walk = Walk::begin(first_nonce);
    loop
        invariant
            on_track(walk, challenge@, first_nonce, range_end, cutoff),
        decreases range_end - walk.nonce,
    {
        let flag = still_running(running);
        match walk_step(&mut scratch, challenge, walk, range_end, cutoff, started, flag) {
            WalkStep::Abandoned => {
                return None;
            },
            WalkStep::Finished(report) => {
                assert(reports_walk(
                    report,
                    challenge@,
                    first_nonce,
                    range_end,
                    cutoff,
                    walk.nonce,
                ));
                return Some(report);
            },
            WalkStep::Onward(onward) => {
                walk = onward;
            },
        }
    }
}

/// The best record over the reports, taken in their order: a report replaces
/// what is held only where its difficulty is strictly greater, so of equals
/// the first stays. Threads that reported nothing are passed over. With
/// nothing better than difficulty zero, the record is the empty one at nonce
/// zero.
pub open spec fn reduce_best(reports: Seq<Option<ThreadReport>>) -> BestRecord
    decreases reports.len(),
{
    if reports.len() == 0 {
        BestRecord::initial_spec(0)
    } else {
        let prior = reduce_best(reports.drop_last());
        match reports.last() {
            Some(report) if report.best.difficulty > prior.difficulty => report.best,
            _ => prior,
        }
    }
}

/// The sum of the hash counts of the reports.
pub open spec fn reduce_count(reports: Seq<Option<ThreadReport>>) -> nat
    decreases reports.len(),
{
    if reports.len() == 0 {
        0
    } else {
        reduce_count(reports.drop_last()) + match reports.last() {
            Some(report) => report.hashes as nat,
            None => 0,
        }
    }
}

/// Reduces the threads' reports, in the order in which the threads were
/// joined, to the result of the job.
pub fn reduce(reports: &Vec<Option<ThreadReport>>) -> (result: SearchResult)
    ensures
        result.best == reduce_best(reports@),
        result.processed == capped(reduce_count(reports@)),
{
    let mut best = BestRecord::initial(0);
    let mut processed: u64 = 0;
    let mut i: usize = 0;
    while i < reports.len()
        invariant
            0 <= i <= reports.len(),
            best == reduce_best(reports@.take(i as int)),
            processed == capped(reduce_count(reports@.take(i as int))),
        decreases reports.len() - i,
    {
        assert(reports@.take(i + 1).drop_last() =~= reports@.take(i as int));
        match reports[i] {
            Some(report) => {
                processed = processed.saturating_add(report.hashes);
                if report.best.difficulty > best.difficulty {
                    best = report.best;
                }
            },
            None => {},
        }
        i += 1;
    }
    assert(reports@.take(reports.len() as int) =~= reports@);
    SearchResult { best, processed }
}

/// Hashes per second over a run, with a run shorter than a second counted as
/// one second.
pub open spec fn hash_rate_spec(processed: u64, elapsed_seconds: u64) -> u64 {
    if elapsed_seconds <= 1 {
        processed
    } else {
        processed / elapsed_seconds
    }
}

/// Works out the hashes per second of a run.
#[verifier::when_used_as_spec(hash_rate_spec)]
pub fn hash_rate(processed: u64, elapsed_seconds: u64) -> (rate: u64)
    ensures
        rate == hash_rate_spec(processed, elapsed_seconds),
{
    if elapsed_seconds <= 1 {
        processed
    } else {
        processed / elapsed_seconds
    }
}

/// Holding hashes against a record never lowers its difficulty, leaves no
/// hash above it, and either keeps the record or puts one of the hashes in its
/// place.
pub proof fn lemma_absorb(best: BestRecord, nonce: u64, hashes: Seq<PowHash>)
    ensures
        absorb(best, nonce, hashes).difficulty >= best.difficulty,
        forall|j: int|
            0 <= j < hashes.len() ==> (#[trigger] hashes[j]).difficulty_spec() <= absorb(
                best,
                nonce,
                hashes,
            ).difficulty,
        absorb(best, nonce, hashes) == best || found_among(absorb(best, nonce, hashes), nonce, hashes),
        absorb(best, nonce, hashes).difficulty == best.difficulty ==> absorb(best, nonce, hashes)
            == best,
    decreases hashes.len(),
{
    if hashes.len() > 0 {
        let front = hashes.drop_last();
        lemma_absorb(best, nonce, front);
        let prior = absorb(best, nonce, front);
        let after = absorb(best, nonce, hashes);
        assert forall|j: int| 0 <= j < hashes.len() implies (#[trigger] hashes[j]).difficulty_spec()
            <= after.difficulty by {
            if j < front.len() {
                assert(front[j] == hashes[j]);
            }
        }
        if after != best {
            if hashes.last().difficulty_spec() > prior.difficulty {
                assert(is_hash_of(after, nonce, hashes, hashes.len() - 1));
            } else {
                let j = choose|j: int| is_hash_of(prior, nonce, front, j);
                assert(is_hash_of(after, nonce, hashes, j));
            }
        }
    }
}

/// The record holds the `j`-th of the hashes found at `nonce`.
pub open spec fn is_hash_of(record: BestRecord, nonce: u64, hashes: Seq<PowHash>, j: int) -> bool {
    &&& 0 <= j < hashes.len()
    &&& record.nonce == nonce
    &&& record.hash == hashes[j].d
    &&& record.difficulty == hashes[j].difficulty_spec()
}

/// The record holds one of the hashes found at `nonce`.
pub open spec fn found_among(record: BestRecord, nonce: u64, hashes: Seq<PowHash>) -> bool {
    exists|j: int| is_hash_of(record, nonce, hashes, j)
}

/// The record holds a hash that the hash family gives for the record's own
/// nonce under `challenge`, with that hash's difficulty.
pub open spec fn genuine(record: BestRecord, challenge: Seq<u8>) -> bool {
    found_among(record, record.nonce, candidate_hashes(challenge, record.nonce))
}

/// Within a thread the best difficulty only grows as the walk goes on.
pub proof fn lemma_walk_best_grows(challenge: Seq<u8>, first: u64, earlier: u64, later: u64)
    requires
        first <= earlier <= later,
    ensures
        walk_best(challenge, first, earlier).difficulty <= walk_best(
            challenge,
            first,
            later,
        ).difficulty,
    decreases later - earlier,
{
    if earlier < later {
        lemma_walk_best_grows(challenge, first, earlier, (later - 1) as u64);
        lemma_absorb(
            walk_best(challenge, first, (later - 1) as u64),
            later,
            candidate_hashes(challenge, later),
        );
    }
}

/// A thread's best record is at least as difficult as every hash of every
/// nonce that the thread has hashed.
pub proof fn lemma_walk_best_dominates(
    challenge: Seq<u8>,
    first: u64,
    last: u64,
    nonce: u64,
    j: int,
)
    requires
        first <= nonce <= last,
        0 <= j < candidate_hashes(challenge, nonce).len(),
    ensures
        candidate_hashes(challenge, nonce)[j].difficulty_spec() <= walk_best(
            challenge,
            first,
            last,
        ).difficulty,
{
    let seed = if nonce <= first {
        BestRecord::initial_spec(first)
    } else {
        walk_best(challenge, first, (nonce - 1) as u64)
    };
    lemma_absorb(seed, nonce, candidate_hashes(challenge, nonce));
    lemma_walk_best_grows(challenge, first, nonce, last);
}

/// A thread's best record never left the nonces that the thread has hashed.
/// With difficulty zero it is still the empty record at the first nonce;
/// otherwise it holds a hash that the hash family gives for its nonce.
pub proof fn lemma_walk_best_origin(challenge: Seq<u8>, first: u64, last: u64)
    requires
        first <= last,
    ensures
        first <= walk_best(challenge, first, last).nonce <= last,
        walk_best(challenge, first, last).difficulty == 0 ==> walk_best(challenge, first, last)
            == BestRecord::initial_spec(first),
        walk_best(challenge, first, last).difficulty > 0 ==> genuine(
            walk_best(challenge, first, last),
            challenge,
        ),
    decreases last - first,
{
    if first < last {
        lemma_walk_best_origin(challenge, first, (last - 1) as u64);
        lemma_absorb(
            walk_best(challenge, first, (last - 1) as u64),
            last,
            candidate_hashes(challenge, last),
        );
    } else {
        lemma_absorb(BestRecord::initial_spec(first), first, candidate_hashes(challenge, first));
    }
}

/// The reduced record is at least as difficult as the best record of every
/// thread that reported.
pub proof fn lemma_reduce_dominates(reports: Seq<Option<ThreadReport>>, i: int)
    requires
        0 <= i < reports.len(),
        reports[i] is Some,
    ensures
        reports[i]->0.best.difficulty <= reduce_best(reports).difficulty,
    decreases reports.len(),
{
    if i < reports.len() - 1 {
        lemma_reduce_dominates(reports.drop_last(), i);
    }
}

/// The reduced record is the empty record at nonce zero, or it is the best
/// record of the first thread that reported its difficulty, which is then
/// above zero.
pub proof fn lemma_reduce_origin(reports: Seq<Option<ThreadReport>>)
    ensures
        reduce_best(reports).difficulty == 0 ==> reduce_best(reports) == BestRecord::initial_spec(
            0,
        ),
        reduce_best(reports).difficulty > 0 ==> exists|i: int| winner(reports, i),
    decreases reports.len(),
{
    if reports.len() > 0 {
        let front = reports.drop_last();
        lemma_reduce_origin(front);
        let prior = reduce_best(front);
        let after = reduce_best(reports);
        if after.difficulty > 0 {
            if after == prior {
                let i = choose|i: int| winner(front, i);
                assert forall|k: int| 0 <= k < i implies earlier_is_lower(reports, i, k) by {
                    assert(earlier_is_lower(front, i, k));
                }
                assert(winner(reports, i));
            } else {
                let i = reports.len() - 1;
                assert forall|k: int| 0 <= k < i implies earlier_is_lower(reports, i, k) by {
                    if reports[k] is Some {
                        lemma_reduce_dominates(front, k);
                    }
                }
                assert(winner(reports, i));
            }
        }
    }
}

/// Thread `k`, joined before thread `i`, reported nothing or less than `i`.
pub open spec fn earlier_is_lower(reports: Seq<Option<ThreadReport>>, i: int, k: int) -> bool {
    reports[k] matches Some(report) ==> report.best.difficulty < reports[i]->0.best.difficulty
}

/// Thread `i` gave the reduced record: it reported it, and no thread joined
/// before it reported as much.
pub open spec fn winner(reports: Seq<Option<ThreadReport>>, i: int) -> bool {
    &&& 0 <= i < reports.len()
    &&& reports[i] matches Some(report) && report.best == reduce_best(reports)
    &&& forall|k: int| 0 <= k < i ==> #[trigger] earlier_is_lower(reports, i, k)
}

/// The result of a job is at least as difficult as every hash that any
/// reporting thread has evaluated.
pub proof fn lemma_result_dominates_every_hash(
    reports: Seq<Option<ThreadReport>>,
    i: int,
    challenge: Seq<u8>,
    first: u64,
    last: u64,
    nonce: u64,
    j: int,
)
    requires
        0 <= i < reports.len(),
        reports[i] matches Some(report) && report.best == walk_best(challenge, first, last),
        first <= nonce <= last,
        0 <= j < candidate_hashes(challenge, nonce).len(),
    ensures
        candidate_hashes(challenge, nonce)[j].difficulty_spec() <= reduce_best(reports).difficulty,
{
    lemma_walk_best_dominates(challenge, first, last, nonce, j);
    lemma_reduce_dominates(reports, i);
}

/// What is submitted for a job, once anything was found, is genuine and comes
/// from the job's range.
///
/// Thread `i` gave the result; it started at `first`, which is no lower than
/// `range_start`, and stopped after `last`. The nonce of the result lies
/// between the two, and the result holds a hash that the hash family gives
/// for that nonce. Because a walk hashes the nonce on which it then finds the
/// range at its end, only that final nonce can lie at or beyond `range_end`.
pub proof fn lemma_result_is_genuine(
    reports: Seq<Option<ThreadReport>>,
    i: int,
    challenge: Seq<u8>,
    range_start: u64,
    range_end: u64,
    cutoff: u64,
    first: u64,
    last: u64,
)
    requires
        winner(reports, i),
        range_start <= first,
        reports_walk(reports[i]->0, challenge, first, range_end, cutoff, last),
        reduce_best(reports).difficulty > 0,
    ensures
        range_start <= reduce_best(reports).nonce <= last,
        reduce_best(reports).nonce < range_end || reduce_best(reports).nonce == last,
        genuine(reduce_best(reports), challenge),
{
    lemma_walk_best_origin(challenge, first, last);
}

/// The hashes that a job reports are those of its threads together, as long
/// as a `u64` holds their sum.
pub proof fn lemma_processed_is_sum(reports: Seq<Option<ThreadReport>>)
    requires
        reduce_count(reports) <= u64::MAX,
    ensures
        capped(reduce_count(reports)) == reduce_count(reports),
{
}

} // verus!
