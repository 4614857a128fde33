//! The laws the indexer keeps, stated over the specifications of the
//! transformer and the store and proved once and for all.

use vstd::prelude::*;

use crate::codec::{spec_parse_call, spec_unwrapped, DecodeError};
use crate::db::{lemma_apply_map, lemma_apply_map_value, lemma_last_write_none,
    lemma_last_write_unique, spec_apply, table_map, wf_rows};
use crate::db::main_table;
use crate::syncer::{spec_applied_count, spec_db_after, spec_last_height, TaskResult};
use crate::transform::{spec_dropped_by_events, spec_head, spec_transform, SpecBatch,
    SpecFetchedExtrinsic};
use crate::types::{lemma_id_roundtrip, spec_id_ext_index, spec_id_height, spec_make_id, SpecCall};

verus! {

/// Failed-tx filtering: a block's transformation yields no send-message
/// child row whose extrinsic index sits in the failed-send list.
pub proof fn lemma_failed_tx_filtering(
    list: Seq<SpecFetchedExtrinsic>,
    height: u32,
    hash: Seq<u8>,
    ts: u64,
    failed: Seq<u32>,
    batch: SpecBatch,
)
    requires
        spec_transform(list, height, hash, ts, failed) == Ok::<SpecBatch, DecodeError>(batch),
    ensures
        forall|j: int|
            0 <= j < batch.send_message_entries.len() ==> !failed.contains(
                spec_id_ext_index((#[trigger] batch.send_message_entries[j]).id),
            ),
    decreases list.len(),
{
    reveal(spec_head);
    if list.len() == 0 {
    } else {
        let h = spec_head(list[0], height, hash, ts, failed).unwrap();
        let rest = spec_transform(list.drop_first(), height, hash, ts, failed).unwrap();
        lemma_failed_tx_filtering(list.drop_first(), height, hash, ts, failed, rest);
        assert forall|j: int| 0 <= j < batch.send_message_entries.len() implies !failed.contains(
            spec_id_ext_index((#[trigger] batch.send_message_entries[j]).id),
        ) by {
            if j < h.send_message_entries.len() {
                assert(batch.send_message_entries[j] == h.send_message_entries[j]);
                lemma_id_roundtrip(height, list[0].ext.ext_index);
            } else {
                assert(batch.send_message_entries[j] == rest.send_message_entries[
                    j - h.send_message_entries.len()]);
            }
        }
    }
}

/// Whether an extrinsic yields a send-message row pair.
pub open spec fn spec_emits_send(
    f: SpecFetchedExtrinsic,
    failed: Seq<u32>,
) -> bool {
    match spec_parse_call(f.ext.call_data, 0, f.ext.pallet_id, f.ext.variant_id, spec_unwrapped()) {
        Ok(Some((c, w))) => !spec_dropped_by_events(f.events, w) && (c matches SpecCall::Send(_))
            && !failed.contains(f.ext.ext_index),
        _ => false,
    }
}

/// Whether an extrinsic yields an execute row pair.
pub open spec fn spec_emits_execute(f: SpecFetchedExtrinsic) -> bool {
    match spec_parse_call(f.ext.call_data, 0, f.ext.pallet_id, f.ext.variant_id, spec_unwrapped()) {
        Ok(Some((c, w))) => !spec_dropped_by_events(f.events, w) && (c matches
            SpecCall::Execute(_)),
        _ => false,
    }
}

/// Every row of a transformed block comes from an extrinsic that the
/// events and the failed-send list let through, and carries the id packed
/// from the block height and that extrinsic's index.
pub proof fn lemma_rows_from_emitting_extrinsics(
    list: Seq<SpecFetchedExtrinsic>,
    height: u32,
    hash: Seq<u8>,
    ts: u64,
    failed: Seq<u32>,
    batch: SpecBatch,
)
    requires
        spec_transform(list, height, hash, ts, failed) == Ok::<SpecBatch, DecodeError>(batch),
    ensures
        forall|j: int|
            0 <= j < batch.main_entries.len() ==> exists|k: int|
                0 <= k < list.len() && (spec_emits_send(list[k], failed) || spec_emits_execute(
                    list[k],
                )) && (#[trigger] batch.main_entries[j]).id == spec_make_id(
                    height,
                    list[k].ext.ext_index,
                ),
        forall|j: int|
            0 <= j < batch.send_message_entries.len() ==> exists|k: int|
                0 <= k < list.len() && spec_emits_send(list[k], failed) && (
                #[trigger] batch.send_message_entries[j]).id == spec_make_id(
                    height,
                    list[k].ext.ext_index,
                ),
        forall|j: int|
            0 <= j < batch.execute_entries.len() ==> exists|k: int|
                0 <= k < list.len() && spec_emits_execute(list[k]) && (
                #[trigger] batch.execute_entries[j]).id == spec_make_id(
                    height,
                    list[k].ext.ext_index,
                ),
    decreases list.len(),
{
    reveal(spec_head);
    if list.len() == 0 {
    } else {
        let h = spec_head(list[0], height, hash, ts, failed).unwrap();
        let rest = spec_transform(list.drop_first(), height, hash, ts, failed).unwrap();
        lemma_rows_from_emitting_extrinsics(list.drop_first(), height, hash, ts, failed, rest);
        assert forall|j: int| 0 <= j < batch.main_entries.len() implies exists|k: int|
            0 <= k < list.len() && (spec_emits_send(list[k], failed) || spec_emits_execute(
                list[k],
            )) && (#[trigger] batch.main_entries[j]).id == spec_make_id(
                height,
                list[k].ext.ext_index,
            ) by {
            if j < h.main_entries.len() {
                assert(batch.main_entries[j] == h.main_entries[j]);
                assert(spec_emits_send(list[0], failed) || spec_emits_execute(list[0]));
                assert(0 <= 0 < list.len() && (spec_emits_send(list[0], failed)
                    || spec_emits_execute(list[0])) && batch.main_entries[j].id == spec_make_id(
                    height,
                    list[0].ext.ext_index,
                ));
            } else {
                let j2 = j - h.main_entries.len();
                assert(batch.main_entries[j] == rest.main_entries[j2]);
                let k2 = choose|k: int|
                    0 <= k < list.drop_first().len() && (spec_emits_send(
                        list.drop_first()[k],
                        failed,
                    ) || spec_emits_execute(list.drop_first()[k]))
                        && rest.main_entries[j2].id == spec_make_id(
                        height,
                        list.drop_first()[k].ext.ext_index,
                    );
                assert(list.drop_first()[k2] == list[k2 + 1]);
                assert(0 <= k2 + 1 < list.len() && (spec_emits_send(list[k2 + 1], failed)
                    || spec_emits_execute(list[k2 + 1])) && batch.main_entries[j].id
                    == spec_make_id(height, list[k2 + 1].ext.ext_index));
            }
        }
        assert forall|j: int| 0 <= j < batch.send_message_entries.len() implies exists|k: int|
            0 <= k < list.len() && spec_emits_send(list[k], failed) && (
            #[trigger] batch.send_message_entries[j]).id == spec_make_id(
                height,
                list[k].ext.ext_index,
            ) by {
            if j < h.send_message_entries.len() {
                assert(batch.send_message_entries[j] == h.send_message_entries[j]);
                assert(0 <= 0 < list.len() && spec_emits_send(list[0], failed)
                    && batch.send_message_entries[j].id == spec_make_id(
                    height,
                    list[0].ext.ext_index,
                ));
            } else {
                let j2 = j - h.send_message_entries.len();
                assert(batch.send_message_entries[j] == rest.send_message_entries[j2]);
                let k2 = choose|k: int|
                    0 <= k < list.drop_first().len() && spec_emits_send(
                        list.drop_first()[k],
                        failed,
                    ) && rest.send_message_entries[j2].id == spec_make_id(
                        height,
                        list.drop_first()[k].ext.ext_index,
                    );
                assert(list.drop_first()[k2] == list[k2 + 1]);
                assert(0 <= k2 + 1 < list.len() && spec_emits_send(list[k2 + 1], failed)
                    && batch.send_message_entries[j].id == spec_make_id(
                    height,
                    list[k2 + 1].ext.ext_index,
                ));
            }
        }
        assert forall|j: int| 0 <= j < batch.execute_entries.len() implies exists|k: int|
            0 <= k < list.len() && spec_emits_execute(list[k]) && (
            #[trigger] batch.execute_entries[j]).id == spec_make_id(
                height,
                list[k].ext.ext_index,
            ) by {
            if j < h.execute_entries.len() {
                assert(batch.execute_entries[j] == h.execute_entries[j]);
                assert(0 <= 0 < list.len() && spec_emits_execute(list[0])
                    && batch.execute_entries[j].id == spec_make_id(
                    height,
                    list[0].ext.ext_index,
                ));
            } else {
                let j2 = j - h.execute_entries.len();
                assert(batch.execute_entries[j] == rest.execute_entries[j2]);
                let k2 = choose|k: int|
                    0 <= k < list.drop_first().len() && spec_emits_execute(list.drop_first()[k])
                        && rest.execute_entries[j2].id == spec_make_id(
                        height,
                        list.drop_first()[k].ext.ext_index,
                    );
                assert(list.drop_first()[k2] == list[k2 + 1]);
                assert(0 <= k2 + 1 < list.len() && spec_emits_execute(list[k2 + 1])
                    && batch.execute_entries[j].id == spec_make_id(
                    height,
                    list[k2 + 1].ext.ext_index,
                ));
            }
        }
    }
}

/// What a round hands the merge: each successful result carries its
/// assigned height, its main rows carry ids packed from that height, and
/// no two of its main rows share an id.
pub open spec fn spec_round_wf(results: Seq<Result<TaskResult, String>>, start: u32) -> bool {
    forall|i: int|
        0 <= i < results.len() ==> (match #[trigger] results[i] {
            Ok(t) => t.block_height == start + i && (forall|j: int|
                0 <= j < t.db_entries@.len() ==> spec_id_height(
                    (#[trigger] t.db_entries@[j]).id,
                ) == start + i) && (forall|j1: int, j2: int|
                0 <= j1 < j2 < t.db_entries@.len() ==> t.db_entries@[j1].id
                    != t.db_entries@[j2].id),
            Err(_) => true,
        })
}

proof fn lemma_applied_count_le(results: Seq<Result<TaskResult, String>>)
    ensures
        spec_applied_count(results) <= results.len(),
    decreases results.len(),
{
    if results.len() > 0 {
        lemma_applied_count_le(results.drop_first());
    }
}

proof fn lemma_db_after_preserves_main(
    main0: Seq<main_table::TableEntry>,
    exec0: Seq<crate::db::execute_table::TableEntry>,
    send0: Seq<crate::db::send_message_table::TableEntry>,
    results: Seq<Result<TaskResult, String>>,
    k: int,
    id: u64,
)
    requires
        wf_rows(main0),
        forall|i: int|
            0 <= i < results.len() ==> (match #[trigger] results[i] {
                Ok(t) => forall|j: int|
                    0 <= j < t.db_entries@.len() ==> (#[trigger] t.db_entries@[j]).id != id,
                Err(_) => true,
            }),
    ensures
        wf_rows(spec_db_after(main0, exec0, send0, results, k).0),
        table_map(spec_db_after(main0, exec0, send0, results, k).0).contains_key(id) == table_map(
            main0,
        ).contains_key(id),
        table_map(main0).contains_key(id) ==> table_map(
            spec_db_after(main0, exec0, send0, results, k).0,
        )[id] == table_map(main0)[id],
    decreases results.len(),
{
    if k <= 0 || results.len() == 0 {
    } else {
        match results[0] {
            Err(_) => {},
            Ok(t) => {
                let main1 = spec_apply(main0, t.db_entries@);
                lemma_apply_map(main0, t.db_entries@);
                lemma_last_write_none(t.db_entries@, id);
                lemma_apply_map_value(table_map(main0), t.db_entries@, id);
                lemma_db_after_preserves_main(
                    main1,
                    spec_apply(exec0, t.execute_entries@),
                    spec_apply(send0, t.send_message_entries@),
                    results.drop_first(),
                    k - 1,
                    id,
                );
            },
        }
    }
}

/// Monotone progress: merging a round's results for consecutive heights,
/// in order, leaves every main row of every persisted height in the
/// store.  Together with the merge stopping at the first failure, any
/// persisted height has every lower height of the round persisted too.
pub proof fn lemma_monotone_progress(
    main0: Seq<main_table::TableEntry>,
    exec0: Seq<crate::db::execute_table::TableEntry>,
    send0: Seq<crate::db::send_message_table::TableEntry>,
    results: Seq<Result<TaskResult, String>>,
    start: u32,
)
    requires
        wf_rows(main0),
        spec_round_wf(results, start),
    ensures
        wf_rows(
            spec_db_after(
                main0,
                exec0,
                send0,
                results,
                spec_applied_count(results) as int,
            ).0,
        ),
        forall|i: int|
            0 <= i < spec_applied_count(results) ==> (match #[trigger] results[i] {
                Ok(t) => forall|j: int|
                    0 <= j < t.db_entries@.len() ==> {
                        let after = spec_db_after(
                            main0,
                            exec0,
                            send0,
                            results,
                            spec_applied_count(results) as int,
                        ).0;
                        table_map(after).contains_key((#[trigger] t.db_entries@[j]).id)
                            && table_map(after)[t.db_entries@[j].id] == t.db_entries@[j]
                    },
                Err(_) => true,
            }),
    decreases results.len(),
{
    let n = spec_applied_count(results) as int;
    let after = spec_db_after(main0, exec0, send0, results, n).0;
    if results.len() == 0 || n == 0 {
        if n == 0 {
            assert(spec_db_after(main0, exec0, send0, results, 0).0 == main0);
        }
    } else {
        let t0 = match results[0] {
            Ok(t) => t,
            Err(_) => arbitrary(),
        };
        let main1 = spec_apply(main0, t0.db_entries@);
        let exec1 = spec_apply(exec0, t0.execute_entries@);
        let send1 = spec_apply(send0, t0.send_message_entries@);
        let rest = results.drop_first();
        lemma_apply_map(main0, t0.db_entries@);
        assert(spec_round_wf(rest, (start + 1) as u32)) by {
            assert forall|i: int| 0 <= i < rest.len() implies (match #[trigger] rest[i] {
                Ok(t) => t.block_height == (start + 1) + i && (forall|j: int|
                    0 <= j < t.db_entries@.len() ==> spec_id_height(
                        (#[trigger] t.db_entries@[j]).id,
                    ) == (start + 1) + i) && (forall|j1: int, j2: int|
                    0 <= j1 < j2 < t.db_entries@.len() ==> t.db_entries@[j1].id
                        != t.db_entries@[j2].id),
                Err(_) => true,
            }) by {
                assert(rest[i] == results[i + 1]);
            }
        }
        lemma_monotone_progress(main1, exec1, send1, rest, (start + 1) as u32);
        assert(spec_applied_count(results) == 1 + spec_applied_count(rest));
        assert(spec_db_after(main0, exec0, send0, results, n) == spec_db_after(
            main1,
            exec1,
            send1,
            rest,
            n - 1,
        ));
        // The head batch's rows survive the later batches, whose ids carry
        // greater heights.
        assert forall|j: int| 0 <= j < t0.db_entries@.len() implies table_map(after).contains_key(
            (#[trigger] t0.db_entries@[j]).id,
        ) && table_map(after)[t0.db_entries@[j].id] == t0.db_entries@[j] by {
            let e = t0.db_entries@[j];
            lemma_last_write_unique(t0.db_entries@, e.id, j);
            lemma_apply_map_value(table_map(main0), t0.db_entries@, e.id);
            assert(table_map(main1).contains_key(e.id) && table_map(main1)[e.id] == e);
            lemma_db_after_preserves_main(main1, exec1, send1, rest, n - 1, e.id);
        }
        assert forall|i: int| 0 <= i < spec_applied_count(results) implies (
        match #[trigger] results[i] {
            Ok(t) => forall|j: int|
                0 <= j < t.db_entries@.len() ==> {
                    let after2 = spec_db_after(main0, exec0, send0, results, n).0;
                    table_map(after2).contains_key((#[trigger] t.db_entries@[j]).id)
                        && table_map(after2)[t.db_entries@[j].id] == t.db_entries@[j]
                },
            Err(_) => true,
        }) by {
            lemma_applied_count_le(results);
            if i >= 1 {
                assert(results[i] == rest[i - 1]);
            }
        }
    }
}

/// Whether the events of an extrinsic show it failed.
pub open spec fn spec_ext_failed(f: SpecFetchedExtrinsic) -> bool {
    match f.events {
        Some(ev) => ev.has_extrinsic_failed,
        None => false,
    }
}

/// An extrinsic that yields nothing leaves no row carrying its id, as
/// long as the block's extrinsic indices are distinct, as on chain.
proof fn lemma_no_rows_for_non_emitting(
    list: Seq<SpecFetchedExtrinsic>,
    height: u32,
    hash: Seq<u8>,
    ts: u64,
    failed: Seq<u32>,
    batch: SpecBatch,
    k0: int,
)
    requires
        spec_transform(list, height, hash, ts, failed) == Ok::<SpecBatch, DecodeError>(batch),
        0 <= k0 < list.len(),
        !spec_emits_send(list[k0], failed),
        !spec_emits_execute(list[k0]),
        forall|i: int, j: int|
            0 <= i < j < list.len() ==> list[i].ext.ext_index != list[j].ext.ext_index,
    ensures
        forall|j: int|
            0 <= j < batch.main_entries.len() ==> (#[trigger] batch.main_entries[j]).id
                != spec_make_id(height, list[k0].ext.ext_index),
        forall|j: int|
            0 <= j < batch.send_message_entries.len() ==> (
            #[trigger] batch.send_message_entries[j]).id != spec_make_id(
                height,
                list[k0].ext.ext_index,
            ),
        forall|j: int|
            0 <= j < batch.execute_entries.len() ==> (#[trigger] batch.execute_entries[j]).id
                != spec_make_id(height, list[k0].ext.ext_index),
{
    lemma_rows_from_emitting_extrinsics(list, height, hash, ts, failed, batch);
    assert forall|j: int| 0 <= j < batch.main_entries.len() implies (
    #[trigger] batch.main_entries[j]).id != spec_make_id(height, list[k0].ext.ext_index) by {
        let k = choose|k: int|
            0 <= k < list.len() && (spec_emits_send(list[k], failed) || spec_emits_execute(
                list[k],
            )) && batch.main_entries[j].id == spec_make_id(height, list[k].ext.ext_index);
        if batch.main_entries[j].id == spec_make_id(height, list[k0].ext.ext_index) {
            lemma_id_roundtrip(height, list[k].ext.ext_index);
            lemma_id_roundtrip(height, list[k0].ext.ext_index);
            assert(list[k].ext.ext_index == list[k0].ext.ext_index);
            assert(k == k0);
        }
    }
    assert forall|j: int| 0 <= j < batch.send_message_entries.len() implies (
    #[trigger] batch.send_message_entries[j]).id != spec_make_id(
        height,
        list[k0].ext.ext_index,
    ) by {
        let k = choose|k: int|
            0 <= k < list.len() && spec_emits_send(list[k], failed)
                && batch.send_message_entries[j].id == spec_make_id(
                height,
                list[k].ext.ext_index,
            );
        if batch.send_message_entries[j].id == spec_make_id(height, list[k0].ext.ext_index) {
            lemma_id_roundtrip(height, list[k].ext.ext_index);
            lemma_id_roundtrip(height, list[k0].ext.ext_index);
            assert(k == k0);
        }
    }
    assert forall|j: int| 0 <= j < batch.execute_entries.len() implies (
    #[trigger] batch.execute_entries[j]).id != spec_make_id(height, list[k0].ext.ext_index) by {
        let k = choose|k: int|
            0 <= k < list.len() && spec_emits_execute(list[k]) && batch.execute_entries[j].id
                == spec_make_id(height, list[k].ext.ext_index);
        if batch.execute_entries[j].id == spec_make_id(height, list[k0].ext.ext_index) {
            lemma_id_roundtrip(height, list[k].ext.ext_index);
            lemma_id_roundtrip(height, list[k0].ext.ext_index);
            assert(k == k0);
        }
    }
}

/// Wrapper success gating: when the event stream shows an extrinsic
/// failed, the transformed block holds no row for it at all — no main
/// row and no child row — as long as the block's extrinsic indices are
/// distinct, as they are on chain.
pub proof fn lemma_wrapper_success_gating(
    list: Seq<SpecFetchedExtrinsic>,
    height: u32,
    hash: Seq<u8>,
    ts: u64,
    failed: Seq<u32>,
    batch: SpecBatch,
    k0: int,
)
    requires
        spec_transform(list, height, hash, ts, failed) == Ok::<SpecBatch, DecodeError>(batch),
        0 <= k0 < list.len(),
        spec_ext_failed(list[k0]),
        forall|i: int, j: int|
            0 <= i < j < list.len() ==> list[i].ext.ext_index != list[j].ext.ext_index,
    ensures
        forall|j: int|
            0 <= j < batch.main_entries.len() ==> (#[trigger] batch.main_entries[j]).id
                != spec_make_id(height, list[k0].ext.ext_index),
        forall|j: int|
            0 <= j < batch.send_message_entries.len() ==> (
            #[trigger] batch.send_message_entries[j]).id != spec_make_id(
                height,
                list[k0].ext.ext_index,
            ),
        forall|j: int|
            0 <= j < batch.execute_entries.len() ==> (#[trigger] batch.execute_entries[j]).id
                != spec_make_id(height, list[k0].ext.ext_index),
{
    assert(!spec_emits_send(list[k0], failed) && !spec_emits_execute(list[k0]));
    lemma_no_rows_for_non_emitting(list, height, hash, ts, failed, batch, k0);
}

/// Whether an extrinsic's call decodes as an outbound call, wrapped or not.
pub open spec fn spec_decodes_as_send(f: SpecFetchedExtrinsic) -> bool {
    match spec_parse_call(f.ext.call_data, 0, f.ext.pallet_id, f.ext.variant_id, spec_unwrapped()) {
        Ok(Some((c, _))) => c matches SpecCall::Send(_),
        _ => false,
    }
}

/// Failed-tx filtering, in full: an outbound call whose extrinsic index
/// sits in the failed-send list leaves no row at all — no main row and
/// no child row — as long as the block's extrinsic indices are distinct,
/// as they are on chain.
pub proof fn lemma_failed_tx_no_rows(
    list: Seq<SpecFetchedExtrinsic>,
    height: u32,
    hash: Seq<u8>,
    ts: u64,
    failed: Seq<u32>,
    batch: SpecBatch,
    k0: int,
)
    requires
        spec_transform(list, height, hash, ts, failed) == Ok::<SpecBatch, DecodeError>(batch),
        0 <= k0 < list.len(),
        spec_decodes_as_send(list[k0]),
        failed.contains(list[k0].ext.ext_index),
        forall|i: int, j: int|
            0 <= i < j < list.len() ==> list[i].ext.ext_index != list[j].ext.ext_index,
    ensures
        forall|j: int|
            0 <= j < batch.main_entries.len() ==> (#[trigger] batch.main_entries[j]).id
                != spec_make_id(height, list[k0].ext.ext_index),
        forall|j: int|
            0 <= j < batch.send_message_entries.len() ==> (
            #[trigger] batch.send_message_entries[j]).id != spec_make_id(
                height,
                list[k0].ext.ext_index,
            ),
        forall|j: int|
            0 <= j < batch.execute_entries.len() ==> (#[trigger] batch.execute_entries[j]).id
                != spec_make_id(height, list[k0].ext.ext_index),
{
    assert(!spec_emits_send(list[k0], failed));
    assert(!spec_emits_execute(list[k0]));
    lemma_no_rows_for_non_emitting(list, height, hash, ts, failed, batch, k0);
}

proof fn lemma_applied_prefix_ok(results: Seq<Result<TaskResult, String>>)
    ensures
        forall|j: int| 0 <= j < spec_applied_count(results) ==> (#[trigger] results[j]) is Ok,
    decreases results.len(),
{
    if results.len() > 0 {
        lemma_applied_prefix_ok(results.drop_first());
        lemma_applied_count_le(results);
        assert forall|j: int| 0 <= j < spec_applied_count(results) implies (
        #[trigger] results[j]) is Ok by {
            if j >= 1 {
                assert(results.drop_first()[j - 1] == results[j]);
            }
        }
    }
}

/// Under a well-formed round, the merge's returned height is the last
/// assigned height that was persisted, so the cursor set one past it
/// leaves no gap: every height from the round's start up to the returned
/// one was merged.
pub proof fn lemma_round_heights(results: Seq<Result<TaskResult, String>>, start: u32)
    requires
        spec_round_wf(results, start),
    ensures
        spec_applied_count(results) == 0 ==> spec_last_height(results, 0) is None,
        spec_applied_count(results) > 0 ==> spec_last_height(
            results,
            spec_applied_count(results) as int,
        ) == Some((start + spec_applied_count(results) - 1) as u32),
{
    let n = spec_applied_count(results) as int;
    lemma_applied_count_le(results);
    lemma_applied_prefix_ok(results);
    if n > 0 {
        assert(results[n - 1] is Ok);
    }
}

} // verus!
