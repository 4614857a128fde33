//! A bulk backfill helper: fetch tasks claim contiguous ranges of heights
//! from a shared cursor until a target is reached.

use vstd::prelude::*;

use crate::syncer::sat_add_u32;

verus! {

/// How many heights one claim hands a fetch task.
pub const SYNC_CHUNK_SIZE: u32 = 100;

/// The starting height of a bulk backfill.
pub struct SyncManager {
    pub sync_from: u32,
}

impl SyncManager {
    pub fn new(sync_from: u32) -> (r: Self)
        ensures
            r.sync_from == sync_from,
    {
        SyncManager { sync_from }
    }

    /// Claims the next chunk of heights: from the cursor up to the chunk
    /// size, cut at the target; the cursor moves past the whole chunk.
    /// Nothing is left once the cursor passes the target.
    pub fn claim_range(cursor: u32, target: u32) -> (r: Option<(u32, u32, u32)>)
        ensures
            r is None <==> cursor > target,
            r matches Some((from, to, next_cursor)) ==> {
                &&& from == cursor
                &&& next_cursor == sat_add_u32(cursor, SYNC_CHUNK_SIZE)
                &&& to == (if sat_add_u32(cursor, SYNC_CHUNK_SIZE) > target {
                    target
                } else {
                    sat_add_u32(cursor, SYNC_CHUNK_SIZE)
                })
            },
    {
        if cursor > target {
            return None;
        }
        let next_cursor = cursor.saturating_add(SYNC_CHUNK_SIZE);
        let to = if next_cursor > target {
            target
        } else {
            next_cursor
        };
        Some((cursor, to, next_cursor))
    }
}

} // verus!
