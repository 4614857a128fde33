//! The catch-up engine: per-round pool sizing, height assignment, and the
//! in-order merge of worker results into the store.  The fetching itself
//! is outside work; its outcomes are handed in, in assignment order.

use vstd::prelude::*;

use crate::db::{execute_table, main_table, send_message_table, spec_apply, Database,
    DataForDatabase};

verus! {

/// How close to the finalized head the catch-up engine stops.
pub const SYNC_DONE_THRESHOLD: u32 = 10;

/// Seconds slept before a failed round is retried.
pub const SYNC_SLEEP_SECS: u64 = 30;

/// Seconds between two progress lines.
pub const SYNC_DISPLAY_INTERVAL_SECS: u64 = 60;

pub open spec fn sat_add_u32(a: u32, b: u32) -> u32 {
    if a + b > u32::MAX {
        u32::MAX
    } else {
        (a + b) as u32
    }
}

pub open spec fn sat_sub_u32(a: u32, b: u32) -> u32 {
    if a >= b {
        (a - b) as u32
    } else {
        0
    }
}

/// Milliseconds passed since a clock reading; a clock running backwards
/// counts as no time passed.
pub open spec fn spec_elapsed_ms(checkpoint: u64, now: u64) -> u64 {
    if now >= checkpoint {
        (now - checkpoint) as u64
    } else {
        0
    }
}

/// Progress counters of a catch-up run.  The checkpoint holds the clock
/// reading, in milliseconds, of the last progress line.
pub struct SyncStats {
    pub total_indexed: u32,
    pub previously_indexed: u32,
    pub first_time: bool,
    pub checkpoint: u64,
}

/// One progress line of the catch-up engine; the caller renders it.
pub struct SyncReport {
    pub last_indexed_height: u32,
    pub final_height: u32,
    pub total_indexed: u32,
    pub blocks_left_to_index: u32,
    pub indexed_since_last: u32,
    pub elapsed_ms: u64,
}

impl SyncStats {
    pub fn new() -> (r: Self)
        ensures
            r.total_indexed == 0,
            r.previously_indexed == 0,
            r.first_time,
            r.checkpoint == 0,
    {
        SyncStats { total_indexed: 0, previously_indexed: 0, first_time: true, checkpoint: 0 }
    }

    /// Emits a progress line on the first call and then whenever more than
    /// the display interval has passed since the last one.
    pub fn maybe_display_stats(&mut self, last_indexed_height: u32, final_height: u32, now_ms: u64)
        -> (r: Option<SyncReport>)
        ensures
            r is Some <==> (old(self).first_time || spec_elapsed_ms(old(self).checkpoint, now_ms)
                / 1000 > SYNC_DISPLAY_INTERVAL_SECS),
            r is None ==> *final(self) == *old(self),
            r matches Some(rep) ==> {
                &&& final(self).total_indexed == old(self).total_indexed
                &&& final(self).previously_indexed == old(self).total_indexed
                &&& !final(self).first_time
                &&& final(self).checkpoint == now_ms
                &&& rep.last_indexed_height == last_indexed_height
                &&& rep.final_height == final_height
                &&& rep.total_indexed == old(self).total_indexed
                &&& rep.blocks_left_to_index == sat_sub_u32(
                    sat_add_u32(final_height, 1),
                    last_indexed_height,
                )
                &&& rep.indexed_since_last == sat_sub_u32(
                    old(self).total_indexed,
                    old(self).previously_indexed,
                )
                &&& rep.elapsed_ms == spec_elapsed_ms(old(self).checkpoint, now_ms)
            },
    {
        let elapsed_ms = if now_ms >= self.checkpoint {
            now_ms - self.checkpoint
        } else {
            0
        };
        if !(elapsed_ms / 1000 > SYNC_DISPLAY_INTERVAL_SECS || self.first_time) {
            return None;
        }
        let report = SyncReport {
            last_indexed_height,
            final_height: final_height,
            total_indexed: self.total_indexed,
            blocks_left_to_index: final_height.saturating_add(1).saturating_sub(
                last_indexed_height,
            ),
            indexed_since_last: self.total_indexed.saturating_sub(self.previously_indexed),
            elapsed_ms,
        };
        self.first_time = false;
        self.checkpoint = now_ms;
        self.previously_indexed = self.total_indexed;
        Some(report)
    }
}

/// What one fetch task is assigned: the height it must fetch.
#[derive(Clone, Copy, Debug)]
pub struct TaskParams {
    pub block_height: u32,
}

impl TaskParams {
    pub fn new() -> (r: Self)
        ensures
            r.block_height == 0,
    {
        TaskParams { block_height: 0 }
    }
}

/// What one fetch task hands back: one block's rows.
pub struct TaskResult {
    pub db_entries: Vec<main_table::TableEntry>,
    pub execute_entries: Vec<execute_table::TableEntry>,
    pub send_message_entries: Vec<send_message_table::TableEntry>,
    pub block_height: u32,
}

/// The outcome of one round: the last height persisted, and the error
/// that stopped the round, if one did.
#[derive(Debug)]
pub struct ProcessedHeight {
    pub height: Option<u32>,
    pub error: Option<String>,
}

impl ProcessedHeight {
    pub fn new(height: Option<u32>, error: Option<String>) -> (r: Self)
        ensures
            r.height == height,
            r.error == error,
    {
        ProcessedHeight { height, error }
    }
}

/// The pool size of a round: the number of blocks left, capped at the
/// task count, and never below one worker.
pub open spec fn spec_pool_size(start: u32, end: u32, task_count: u32) -> int {
    vstd::math::max(
        1,
        vstd::math::min(
            sat_sub_u32(sat_add_u32(end, 1), start) as int,
            task_count as int,
        ),
    )
}

/// Resizes the pool for a round and assigns heights in order: the pool
/// grows or shrinks to the number of blocks left, capped at the task
/// count and never below one worker, and the i-th task gets height
/// `start + i`.
pub fn update_task_params(
    start_height: u32,
    end_height: u32,
    task_count: u32,
    task_params: &mut Vec<TaskParams>,
)
    ensures
        final(task_params)@.len() == spec_pool_size(start_height, end_height, task_count),
        forall|i: int|
            0 <= i < final(task_params)@.len() ==> final(task_params)@[i].block_height
                == start_height + i,
{
    let want = end_height.saturating_add(1).saturating_sub(start_height);
    let mut expected = if want < task_count {
        want
    } else {
        task_count
    };
    if expected == 0 {
        expected = 1;
    }
    if task_params.len() > expected as usize {
        task_params.truncate(expected as usize);
    }
    while task_params.len() < expected as usize
        invariant
            task_params@.len() <= expected,
        decreases expected - task_params@.len(),
    {
        task_params.push(TaskParams { block_height: 0 });
    }
    let n = task_params.len();
    let mut i: usize = 0;
    while i < n
        invariant
            n == task_params@.len(),
            n == expected,
            expected == spec_pool_size(start_height, end_height, task_count),
            0 <= i <= n,
            forall|j: int|
                0 <= j < i ==> task_params@[j].block_height == start_height + j,
        decreases n - i,
    {
        task_params[i] = TaskParams { block_height: start_height + (i as u32) };
        i = i + 1;
    }
}

/// The number of leading successful results: what a round actually
/// persists before the first failure stops it.
pub open spec fn spec_applied_count(results: Seq<Result<TaskResult, String>>) -> nat
    decreases results.len(),
{
    if results.len() == 0 {
        0
    } else {
        match results[0] {
            Ok(_) => 1 + spec_applied_count(results.drop_first()),
            Err(_) => 0,
        }
    }
}

/// The store after the first k results are applied in order.
pub open spec fn spec_db_after(
    main0: Seq<main_table::TableEntry>,
    exec0: Seq<execute_table::TableEntry>,
    send0: Seq<send_message_table::TableEntry>,
    results: Seq<Result<TaskResult, String>>,
    k: int,
) -> (Seq<main_table::TableEntry>, Seq<execute_table::TableEntry>, Seq<
    send_message_table::TableEntry,
>)
    decreases k,
{
    if k <= 0 || results.len() == 0 {
        (main0, exec0, send0)
    } else {
        match results[0] {
            Ok(t) => spec_db_after(
                spec_apply(main0, t.db_entries@),
                spec_apply(exec0, t.execute_entries@),
                spec_apply(send0, t.send_message_entries@),
                results.drop_first(),
                k - 1,
            ),
            Err(_) => (main0, exec0, send0),
        }
    }
}

/// The height of the k-th applied result, if any were applied.
pub open spec fn spec_last_height(results: Seq<Result<TaskResult, String>>, k: int) -> Option<u32> {
    if k <= 0 || k > results.len() {
        None
    } else {
        match results[k - 1] {
            Ok(t) => Some(t.block_height),
            Err(_) => None,
        }
    }
}

/// The error of the result that stopped the round, if one did.
pub open spec fn spec_error_at(results: Seq<Result<TaskResult, String>>, k: int) -> Option<
    Seq<char>,
> {
    if 0 <= k < results.len() {
        match results[k] {
            Err(e) => Some(e@),
            Ok(_) => None,
        }
    } else {
        None
    }
}

proof fn lemma_applied_count_split(results: Seq<Result<TaskResult, String>>, k: int)
    requires
        0 <= k <= results.len(),
        forall|j: int| 0 <= j < k ==> results[j] is Ok,
    ensures
        spec_applied_count(results) == k + spec_applied_count(results.skip(k)),
    decreases k,
{
    if k == 0 {
        assert(results.skip(0) =~= results);
    } else {
        assert(results[0] is Ok);
        lemma_applied_count_split(results.drop_first(), k - 1);
        assert(results.drop_first().skip(k - 1) =~= results.skip(k));
    }
}

/// Merges a round's results into the store, in assignment order, stopping
/// at the first failure.  Because the merge walks the results in order
/// and each carries one height, persistence advances strictly by height.
#[verifier::loop_isolation(false)]
pub fn process_results(db: &mut Database, results: Vec<Result<TaskResult, String>>) -> (r:
    ProcessedHeight)
    requires
        old(db).wf(),
    ensures
        final(db).wf(),
        (final(db).main.rows@, final(db).execute.rows@, final(db).send_message.rows@)
            == spec_db_after(
            old(db).main.rows@,
            old(db).execute.rows@,
            old(db).send_message.rows@,
            results@,
            spec_applied_count(results@) as int,
        ),
        r.height == spec_last_height(
            results@,
            spec_applied_count(results@) as int,
        ),
        r.error is Some <==> spec_applied_count(results@)
            < results@.len(),
        match r.error {
            Some(e) => spec_error_at(
                results@,
                spec_applied_count(results@) as int,
            ) == Some(e@),
            None => true,
        },
{
    let ghost full = results@;
    let ghost main0 = db.main.rows@;
    let ghost exec0 = db.execute.rows@;
    let ghost send0 = db.send_message.rows@;
    let mut processed_height: Option<u32> = None;
    let mut remaining = results;
    let ghost mut k: int = 0;
    while remaining.len() > 0
        invariant
            db.wf(),
            0 <= k <= full.len(),
            remaining@ =~= full.skip(k),
            forall|j: int| 0 <= j < k ==> full[j] is Ok,
            processed_height == spec_last_height(full, k),
            spec_db_after(main0, exec0, send0, full, spec_applied_count(full) as int) == spec_db_after(
                db.main.rows@,
                db.execute.rows@,
                db.send_message.rows@,
                remaining@,
                spec_applied_count(remaining@) as int,
            ),
        decreases remaining@.len(),
    {
        let ghost rem0 = remaining@;
        let first = remaining.remove(0);
        proof {
            assert(remaining@ =~= rem0.drop_first());
            assert(rem0[0] == full[k]);
        }
        match first {
            Err(err) => {
                proof {
                    lemma_applied_count_split(full, k);
                    assert(spec_applied_count(rem0) == 0);
                    assert(spec_applied_count(full) == k);
                }
                return ProcessedHeight::new(processed_height, Some(err));
            },
            Ok(t) => {
                let ghost t0 = t;
                let ghost main_a = db.main.rows@;
                let ghost exec_a = db.execute.rows@;
                let ghost send_a = db.send_message.rows@;
                let TaskResult { db_entries, execute_entries, send_message_entries, block_height } =
                    t;
                db.insert(
                    DataForDatabase { main_entries: db_entries, execute_entries, send_message_entries },
                );
                processed_height = Some(block_height);
                proof {
                    k = k + 1;
                    assert(remaining@ =~= full.skip(k));
                    assert(rem0[0] == Ok::<TaskResult, String>(t0));
                    assert(spec_applied_count(rem0) == 1 + spec_applied_count(rem0.drop_first()));
                    reveal_with_fuel(spec_db_after, 2);
                    assert(spec_db_after(main_a, exec_a, send_a, rem0, spec_applied_count(rem0) as int)
                        == spec_db_after(
                        spec_apply(main_a, t0.db_entries@),
                        spec_apply(exec_a, t0.execute_entries@),
                        spec_apply(send_a, t0.send_message_entries@),
                        rem0.drop_first(),
                        spec_applied_count(rem0) - 1,
                    ));
                    assert(db.main.rows@ == spec_apply(main_a, t0.db_entries@));
                    assert(spec_last_height(full, k) == Some(t0.block_height));
                }
            },
        }
    }
    proof {
        lemma_applied_count_split(full, k);
        assert(spec_applied_count(remaining@) == 0);
        assert(spec_applied_count(full) == k);
    }
    ProcessedHeight::new(processed_height, None)
}

/// The catch-up engine's cursor and pool size.
pub struct Syncer {
    pub next_height_to_sync: u32,
    pub finalized_height: u32,
    pub task_count: usize,
    pub stats: SyncStats,
}

impl Syncer {
    pub fn new(next_height_to_sync: u32, finalized_height: u32, task_count: u32) -> (r: Self)
        ensures
            r.next_height_to_sync == next_height_to_sync,
            r.finalized_height == finalized_height,
            r.task_count == vstd::math::max(task_count as int, 1),
            r.stats.total_indexed == 0,
            r.stats.first_time,
    {
        Syncer {
            next_height_to_sync,
            finalized_height,
            task_count: (if task_count < 1 { 1u32 } else { task_count }) as usize,
            stats: SyncStats::new(),
        }
    }

    /// Whether the engine is close enough to the head that the finalized
    /// height should be refreshed before deciding to stop.
    pub fn needs_refresh(&self) -> (r: bool)
        ensures
            r == (sat_sub_u32(self.finalized_height, self.next_height_to_sync)
                <= SYNC_DONE_THRESHOLD),
    {
        self.finalized_height.saturating_sub(self.next_height_to_sync) <= SYNC_DONE_THRESHOLD
    }

    /// Whether catching up is done: within the threshold of the finalized
    /// head even after refreshing it.  `refreshed` is the newly fetched
    /// finalized height, absent when the fetch failed.
    pub fn is_done(&mut self, refreshed: Option<u32>) -> (r: bool)
        ensures
            sat_sub_u32(old(self).finalized_height, old(self).next_height_to_sync)
                > SYNC_DONE_THRESHOLD ==> *final(self) == *old(self) && !r,
            sat_sub_u32(old(self).finalized_height, old(self).next_height_to_sync)
                <= SYNC_DONE_THRESHOLD ==> {
                &&& final(self).finalized_height == (match refreshed {
                    Some(f) => f,
                    None => old(self).finalized_height,
                })
                &&& final(self).next_height_to_sync == old(self).next_height_to_sync
                &&& final(self).task_count == old(self).task_count
                &&& final(self).stats == old(self).stats
                &&& r == (sat_sub_u32(final(self).finalized_height, final(self).next_height_to_sync)
                    <= SYNC_DONE_THRESHOLD)
            },
    {
        if self.finalized_height.saturating_sub(self.next_height_to_sync) <= SYNC_DONE_THRESHOLD {
            self.finalized_height = match refreshed {
                Some(f) => f,
                None => self.finalized_height,
            };
            self.finalized_height.saturating_sub(self.next_height_to_sync) <= SYNC_DONE_THRESHOLD
        } else {
            false
        }
    }

    /// Advances the cursor past a round: the next height is one past the
    /// last persisted one, and the counters grow by the blocks persisted.
    pub fn advance_after_round(&mut self, processed: &ProcessedHeight)
        requires
            processed.height matches Some(h) ==> h < u32::MAX,
        ensures
            processed.height is None ==> *final(self) == *old(self),
            processed.height matches Some(h) ==> {
                &&& final(self).next_height_to_sync == h + 1
                &&& final(self).stats.total_indexed == sat_add_u32(
                    old(self).stats.total_indexed,
                    sat_sub_u32(sat_add_u32(h, 1), old(self).next_height_to_sync),
                )
                &&& final(self).stats.previously_indexed == old(self).stats.previously_indexed
                &&& final(self).stats.first_time == old(self).stats.first_time
                &&& final(self).stats.checkpoint == old(self).stats.checkpoint
                &&& final(self).finalized_height == old(self).finalized_height
                &&& final(self).task_count == old(self).task_count
            },
    {
        match processed.height {
            Some(h) => {
                self.stats.total_indexed = self.stats.total_indexed.saturating_add(
                    h.saturating_add(1).saturating_sub(self.next_height_to_sync),
                );
                self.next_height_to_sync = h + 1;
            },
            None => {},
        }
    }
}

} // verus!
