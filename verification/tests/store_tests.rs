use avail_indexer::db::{main_table, send_message_table, DataForDatabase, Database};
use avail_indexer::indexer::get_block_height;
use avail_indexer::types::{make_id, Hash256};

fn h256(b: u8) -> Hash256 {
    Hash256::new([b; 32])
}

fn main_entry(height: u32, index: u32, call: &str) -> main_table::TableEntry {
    main_table::TableEntry {
        id: make_id(height, index),
        block_height: height,
        block_hash: h256(0xbb),
        block_timestamp: 1_700_000_000,
        ext_index: index,
        ext_hash: h256(0xee),
        signature_address: None,
        pallet_id: 39,
        variant_id: 3,
        ext_success: Some(true),
        ext_call: call.to_string(),
    }
}

fn send_entry(height: u32, index: u32, amount: u128) -> send_message_table::TableEntry {
    send_message_table::TableEntry {
        id: make_id(height, index),
        kind: "FungibleToken".to_string(),
        amount: Some(amount),
        to: h256(2),
    }
}

fn batch(height: u32, index: u32, amount: u128) -> DataForDatabase {
    DataForDatabase {
        main_entries: vec![main_entry(height, index, "{}")],
        execute_entries: vec![],
        send_message_entries: vec![send_entry(height, index, amount)],
    }
}

fn rows_snapshot(db: &Database) -> (Vec<u64>, Vec<u64>) {
    (
        db.main.rows.iter().map(|e| e.id).collect(),
        db.send_message.rows.iter().map(|e| e.id).collect(),
    )
}

#[test]
fn insert_then_find_highest() {
    let mut db = Database::new();
    assert_eq!(db.find_highest_block_height(), None);
    db.insert(batch(5, 0, 10));
    db.insert(batch(7, 0, 10));
    db.insert(batch(6, 0, 10));
    assert_eq!(db.find_highest_block_height(), Some(7));
}

#[test]
fn upsert_replaces_by_id() {
    let mut db = Database::new();
    db.insert(batch(5, 0, 10));
    db.insert(batch(5, 0, 99));
    assert_eq!(db.main.rows.len(), 1);
    assert_eq!(db.send_message.rows.len(), 1);
    assert_eq!(db.send_message.rows[0].amount, Some(99));
}

#[test]
fn persisting_twice_is_idempotent() {
    let mut db = Database::new();
    db.insert(batch(4, 0, 3));
    db.insert(batch(5, 1, 10));
    let once = rows_snapshot(&db);
    let amounts_once: Vec<Option<u128>> =
        db.send_message.rows.iter().map(|e| e.amount).collect();
    db.insert(batch(5, 1, 10));
    let twice = rows_snapshot(&db);
    let amounts_twice: Vec<Option<u128>> =
        db.send_message.rows.iter().map(|e| e.amount).collect();
    assert_eq!(once, twice);
    assert_eq!(amounts_once, amounts_twice);
}

#[test]
fn row_exists_after_insert() {
    let mut db = Database::new();
    assert!(!db.main.row_exists(make_id(5, 0)));
    db.insert(batch(5, 0, 10));
    assert!(db.main.row_exists(make_id(5, 0)));
    assert!(!db.main.row_exists(make_id(5, 1)));
}

#[test]
fn resume_reprocesses_highest_height() {
    // The store holds main rows up to height 999, with the child row of
    // 999 missing: a crash cut the batch short.
    let mut db = Database::new();
    db.insert(batch(998, 0, 7));
    db.insert(DataForDatabase {
        main_entries: vec![main_entry(999, 0, "{}")],
        execute_entries: vec![],
        send_message_entries: vec![],
    });
    assert_eq!(db.send_message.rows.len(), 1);

    // With no explicit height, the resume point is the highest indexed
    // height itself, not one past it.
    let resume = get_block_height(None, db.find_highest_block_height(), Some(1200));
    assert_eq!(resume, Some(999));

    // Re-persisting height 999 completes the missing child under upsert.
    db.insert(batch(999, 0, 12));
    assert_eq!(db.main.rows.len(), 2);
    assert_eq!(db.send_message.rows.len(), 2);
    assert_eq!(db.find_highest_block_height(), Some(999));

    // And the next block then proceeds normally.
    db.insert(batch(1000, 0, 1));
    assert_eq!(db.find_highest_block_height(), Some(1000));
}

#[test]
fn explicit_start_height_wins() {
    assert_eq!(get_block_height(Some(17), Some(999), Some(1200)), Some(17));
}

#[test]
fn start_falls_back_to_finalized() {
    assert_eq!(get_block_height(None, None, Some(1200)), Some(1200));
    assert_eq!(get_block_height(None, None, None), None);
}
