//! The steady-state indexer's decisions: where to resume, when to log,
//! and how a block's rows reach the store.

use vstd::prelude::*;

use crate::db::{execute_table, main_table, send_message_table, spec_apply, Database,
    DataForDatabase};
use crate::syncer::{sat_sub_u32, spec_elapsed_ms};

verus! {

/// The height indexing starts from: an explicitly configured height wins;
/// otherwise the highest height the store already holds is processed
/// again, which is safe under upsert and completes a partial batch;
/// otherwise the chain's finalized height.
pub fn get_block_height(explicit: Option<u32>, db_highest: Option<u32>, finalized: Option<u32>)
    -> (r: Option<u32>)
    ensures
        explicit matches Some(h) ==> r == Some(h),
        explicit is None ==> (db_highest matches Some(h) ==> r == Some(h)),
        explicit is None && db_highest is None ==> r == finalized,
{
    match explicit {
        Some(h) => Some(h),
        None => match db_highest {
            Some(h) => Some(h),
            None => finalized,
        },
    }
}

/// Counters for the steady-state heartbeat.  The checkpoint holds the
/// clock reading, in milliseconds, of the last heartbeat line.
pub struct IndexerStats {
    pub total_indexed: u32,
    pub previously_indexed: u32,
    pub checkpoint: u64,
    pub log_interval_ms: u64,
}

/// One heartbeat line; the caller renders it.
pub struct IndexerReport {
    pub last_indexed_block: u32,
    pub remaining_block_count: u32,
    pub block_indexed_count: u32,
    pub finalized_block: u32,
    pub block_indexed_since_last_log_count: u32,
    pub elapsed_ms: u64,
}

impl IndexerStats {
    pub fn new(log_interval_ms: u32, now_ms: u64) -> (r: Self)
        ensures
            r.total_indexed == 0,
            r.previously_indexed == 0,
            r.checkpoint == now_ms,
            r.log_interval_ms == log_interval_ms,
    {
        IndexerStats {
            total_indexed: 0,
            previously_indexed: 0,
            checkpoint: now_ms,
            log_interval_ms: log_interval_ms as u64,
        }
    }

    /// Emits a heartbeat line whenever more than the log interval has
    /// passed since the last one.
    pub fn maybe_display_stats(
        &mut self,
        last_indexed_block: u32,
        finalized_block: u32,
        remaining_block_count: u32,
        now_ms: u64,
    ) -> (r: Option<IndexerReport>)
        ensures
            r is Some <==> spec_elapsed_ms(old(self).checkpoint, now_ms) > old(
                self,
            ).log_interval_ms,
            r is None ==> *final(self) == *old(self),
            r matches Some(rep) ==> {
                &&& final(self).total_indexed == old(self).total_indexed
                &&& final(self).previously_indexed == old(self).total_indexed
                &&& final(self).checkpoint == now_ms
                &&& final(self).log_interval_ms == old(self).log_interval_ms
                &&& rep.last_indexed_block == last_indexed_block
                &&& rep.remaining_block_count == remaining_block_count
                &&& rep.block_indexed_count == old(self).total_indexed
                &&& rep.finalized_block == finalized_block
                &&& rep.block_indexed_since_last_log_count == sat_sub_u32(
                    old(self).total_indexed,
                    old(self).previously_indexed,
                )
                &&& rep.elapsed_ms == spec_elapsed_ms(old(self).checkpoint, now_ms)
            },
    {
        let elapsed_ms = if now_ms >= self.checkpoint {
            now_ms - self.checkpoint
        } else {
            0
        };
        if !(elapsed_ms > self.log_interval_ms) {
            return None;
        }
        let report = IndexerReport {
            last_indexed_block,
            remaining_block_count,
            block_indexed_count: self.total_indexed,
            finalized_block,
            block_indexed_since_last_log_count: self.total_indexed.saturating_sub(
                self.previously_indexed,
            ),
            elapsed_ms,
        };
        self.checkpoint = now_ms;
        self.previously_indexed = self.total_indexed;
        Some(report)
    }
}

/// Upserts one block's rows: main rows first, then the execute children,
/// then the send-message children, each group in order.
pub fn add_to_db(
    db: &mut Database,
    db_entries: Vec<main_table::TableEntry>,
    execute_entries: Vec<execute_table::TableEntry>,
    send_message_entries: Vec<send_message_table::TableEntry>,
)
    requires
        old(db).wf(),
    ensures
        final(db).wf(),
        final(db).main.rows@ == spec_apply(old(db).main.rows@, db_entries@),
        final(db).execute.rows@ == spec_apply(old(db).execute.rows@, execute_entries@),
        final(db).send_message.rows@ == spec_apply(
            old(db).send_message.rows@,
            send_message_entries@,
        ),
{
    db.insert(DataForDatabase { main_entries: db_entries, execute_entries, send_message_entries });
}

} // verus!
