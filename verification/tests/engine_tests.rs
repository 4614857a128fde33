use avail_indexer::db::Database;
use avail_indexer::sync::SyncManager;
use avail_indexer::syncer::{process_results, update_task_params, ProcessedHeight, SyncStats,
    Syncer, TaskParams, TaskResult};
use avail_indexer::types::{make_id, Hash256};

fn ok_result(height: u32) -> Result<TaskResult, String> {
    Ok(TaskResult {
        db_entries: vec![avail_indexer::db::main_table::TableEntry {
            id: make_id(height, 0),
            block_height: height,
            block_hash: Hash256::new([0xbb; 32]),
            block_timestamp: 0,
            ext_index: 0,
            ext_hash: Hash256::new([0xee; 32]),
            signature_address: None,
            pallet_id: 39,
            variant_id: 3,
            ext_success: None,
            ext_call: String::new(),
        }],
        execute_entries: vec![],
        send_message_entries: vec![],
        block_height: height,
    })
}

#[test]
fn process_results_merges_in_order() {
    let mut db = Database::new();
    let r = process_results(&mut db, vec![ok_result(5), ok_result(6), ok_result(7)]);
    assert_eq!(r.height, Some(7));
    assert_eq!(r.error, None);
    assert_eq!(db.main.rows.len(), 3);
    assert_eq!(db.find_highest_block_height(), Some(7));
}

#[test]
fn process_results_stops_at_first_failure() {
    let mut db = Database::new();
    let r = process_results(
        &mut db,
        vec![ok_result(5), Err("boom".to_string()), ok_result(7)],
    );
    assert_eq!(r.height, Some(5));
    assert_eq!(r.error, Some("boom".to_string()));
    // The block after the failure was not persisted: the gap stays and
    // the next round re-fetches from height 6.
    assert_eq!(db.main.rows.len(), 1);
    assert_eq!(db.find_highest_block_height(), Some(5));
}

#[test]
fn process_results_with_no_results() {
    let mut db = Database::new();
    let r = process_results(&mut db, vec![]);
    assert_eq!(r.height, None);
    assert_eq!(r.error, None);
}

#[test]
fn processed_height_holds_its_fields() {
    let p = ProcessedHeight::new(Some(9), Some("late".to_string()));
    assert_eq!(p.height, Some(9));
    assert_eq!(p.error, Some("late".to_string()));
}

#[test]
fn pool_is_cut_to_remaining_blocks() {
    let mut params = vec![TaskParams::new(); 25];
    update_task_params(1000, 1002, 25, &mut params);
    assert_eq!(params.len(), 3);
    assert_eq!(params[0].block_height, 1000);
    assert_eq!(params[1].block_height, 1001);
    assert_eq!(params[2].block_height, 1002);
}

#[test]
fn pool_is_capped_by_task_count() {
    let mut params = vec![TaskParams::new(); 4];
    update_task_params(10, 10_000, 4, &mut params);
    assert_eq!(params.len(), 4);
    assert_eq!(params[3].block_height, 13);
}

#[test]
fn pool_grows_when_blocks_return() {
    // The pool shrank near the tip; when the finalized head jumps ahead
    // it grows back to the blocks remaining.
    let mut params = vec![TaskParams::new(); 1];
    update_task_params(500, 509, 25, &mut params);
    assert_eq!(params.len(), 10);
    assert_eq!(params[0].block_height, 500);
    assert_eq!(params[9].block_height, 509);
}

#[test]
fn pool_keeps_one_worker() {
    let mut params = vec![TaskParams::new(); 5];
    update_task_params(100, 50, 25, &mut params);
    assert_eq!(params.len(), 1);
    assert_eq!(params[0].block_height, 100);
}

#[test]
fn syncer_keeps_at_least_one_task() {
    let s = Syncer::new(5, 100, 0);
    assert_eq!(s.task_count, 1);
    let s = Syncer::new(5, 100, 25);
    assert_eq!(s.task_count, 25);
}

#[test]
fn syncer_is_done_near_the_head() {
    let mut s = Syncer::new(95, 100, 4);
    // Within the threshold; the refreshed head is no further away.
    assert!(s.is_done(Some(100)));

    let mut s = Syncer::new(95, 100, 4);
    // The refreshed head moved far ahead: keep syncing.
    assert!(!s.is_done(Some(1000)));
    assert_eq!(s.finalized_height, 1000);

    let mut s = Syncer::new(0, 1000, 4);
    assert!(!s.needs_refresh());
    assert!(!s.is_done(Some(2000)));
    // Far from the head, the finalized height is not even refreshed.
    assert_eq!(s.finalized_height, 1000);
}

#[test]
fn syncer_advances_past_processed_height() {
    let mut s = Syncer::new(10, 1000, 4);
    s.advance_after_round(&ProcessedHeight::new(Some(13), None));
    assert_eq!(s.next_height_to_sync, 14);
    assert_eq!(s.stats.total_indexed, 4);
    s.advance_after_round(&ProcessedHeight::new(None, Some("err".to_string())));
    assert_eq!(s.next_height_to_sync, 14);
    assert_eq!(s.stats.total_indexed, 4);
}

#[test]
fn sync_stats_report_on_first_call_then_interval() {
    let mut stats = SyncStats::new();
    let first = stats.maybe_display_stats(10, 100, 1_000).expect("first call reports");
    assert_eq!(first.last_indexed_height, 10);
    assert_eq!(first.final_height, 100);
    assert_eq!(first.blocks_left_to_index, 91);

    // Too soon: nothing.
    assert!(stats.maybe_display_stats(11, 100, 2_000).is_none());

    stats.total_indexed = 40;
    let later = stats.maybe_display_stats(50, 100, 1_000 + 61_000).expect("interval passed");
    assert_eq!(later.total_indexed, 40);
    assert_eq!(later.indexed_since_last, 40);
    assert_eq!(later.elapsed_ms, 61_000);
}

#[test]
fn sync_manager_claims_chunks_up_to_target() {
    assert_eq!(SyncManager::new(7).sync_from, 7);
    let (from, to, next) = SyncManager::claim_range(0, 250).expect("chunk");
    assert_eq!((from, to, next), (0, 100, 100));
    let (from, to, next) = SyncManager::claim_range(next, 250).expect("chunk");
    assert_eq!((from, to, next), (100, 200, 200));
    let (from, to, next) = SyncManager::claim_range(next, 250).expect("chunk");
    assert_eq!((from, to, next), (200, 250, 300));
    assert!(SyncManager::claim_range(next, 250).is_none());
}
