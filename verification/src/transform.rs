//! The block transformer: turns one block's filtered extrinsics, with the
//! block's timestamp, failed-send list and per-extrinsic events, into the
//! rows to persist.

use vstd::prelude::*;

use crate::codec::{parse_extrinsic_call, spec_parse_call, spec_read_compact, spec_unwrapped,
    DecodeError, FAILED_SEND_MESSAGE_TXS_VARIANT_ID, TIMESTAMP_PALLET_ID,
    TIMESTAMP_SET_VARIANT_ID, VECTOR_PALLET_ID};
use crate::db::{execute_table, main_table, send_message_table, DataForDatabase};
use crate::serialize::{spec_json_execute, spec_json_send_message, spec_message_amount,
    spec_message_kind, spec_serialize_execute, spec_serialize_send_message, SerializedExecute,
    SerializedSendMessage};
use crate::types::{make_id, spec_make_id, ExtEvents, Hash256, RawExtrinsic, SendMsgOrExecute,
    SpecCall, SpecExecute, SpecRawExtrinsic, SpecSendMessage, Wrapped};

verus! {

/// One filtered extrinsic together with what the event stream answered
/// for it; the events are absent when they could not be fetched.
pub struct FetchedExtrinsic {
    pub ext: RawExtrinsic,
    pub events: Option<ExtEvents>,
}

pub struct SpecFetchedExtrinsic {
    pub ext: SpecRawExtrinsic,
    pub events: Option<ExtEvents>,
}

impl View for FetchedExtrinsic {
    type V = SpecFetchedExtrinsic;

    open spec fn view(&self) -> SpecFetchedExtrinsic {
        SpecFetchedExtrinsic { ext: self.ext@, events: self.events }
    }
}

impl DeepView for FetchedExtrinsic {
    type V = SpecFetchedExtrinsic;

    open spec fn deep_view(&self) -> SpecFetchedExtrinsic {
        self.view()
    }
}

/// The rows a block yields, as the specification sees them.
#[verifier::ext_equal]
pub struct SpecBatch {
    pub main_entries: Seq<main_table::SpecTableEntry>,
    pub execute_entries: Seq<execute_table::SpecTableEntry>,
    pub send_message_entries: Seq<send_message_table::SpecTableEntry>,
}

pub open spec fn spec_batch_empty() -> SpecBatch {
    SpecBatch {
        main_entries: Seq::empty(),
        execute_entries: Seq::empty(),
        send_message_entries: Seq::empty(),
    }
}

pub open spec fn spec_batch_concat(a: SpecBatch, b: SpecBatch) -> SpecBatch {
    SpecBatch {
        main_entries: a.main_entries + b.main_entries,
        execute_entries: a.execute_entries + b.execute_entries,
        send_message_entries: a.send_message_entries + b.send_message_entries,
    }
}

/// The success flag a row records: what the events showed, or unknown.
pub open spec fn spec_events_success(events: Option<ExtEvents>) -> Option<bool> {
    match events {
        Some(ev) => Some(ev.has_extrinsic_success),
        None => None,
    }
}

/// Whether the events forbid a row: the extrinsic failed outright, or its
/// multisig or proxy wrapper reported failure.  Unknown events forbid
/// nothing.
pub open spec fn spec_dropped_by_events(events: Option<ExtEvents>, w: Wrapped) -> bool {
    match events {
        Some(ev) => ev.has_extrinsic_failed || (w.inside_multisig && ev.multisig_executed_ok
            == Some(false)) || (w.inside_proxy && ev.proxy_executed_ok == Some(false)),
        None => false,
    }
}

/// The main row of one extrinsic.
pub open spec fn spec_main_entry(
    height: u32,
    hash: Seq<u8>,
    ts: u64,
    ext: SpecRawExtrinsic,
    events: Option<ExtEvents>,
    call_text: Seq<char>,
) -> main_table::SpecTableEntry {
    main_table::SpecTableEntry {
        id: spec_make_id(height, ext.ext_index),
        block_height: height,
        block_hash: hash,
        block_timestamp: ts,
        ext_index: ext.ext_index,
        ext_hash: ext.ext_hash,
        signature_address: ext.ss58_address,
        pallet_id: ext.pallet_id,
        variant_id: ext.variant_id,
        ext_success: spec_events_success(events),
        ext_call: call_text,
    }
}

/// The child row of an outbound call.
pub open spec fn spec_send_entry(id: u64, sm: SpecSendMessage) -> send_message_table::SpecTableEntry {
    let ser = spec_serialize_send_message(sm);
    send_message_table::SpecTableEntry {
        id,
        kind: spec_message_kind(ser.message),
        amount: spec_message_amount(ser.message),
        to: sm.to,
    }
}

/// The child row of an inbound call.
pub open spec fn spec_execute_entry(id: u64, ex: SpecExecute) -> execute_table::SpecTableEntry {
    let ser = spec_serialize_execute(ex);
    execute_table::SpecTableEntry {
        id,
        kind: spec_message_kind(ser.addr_message.message),
        amount: spec_message_amount(ser.addr_message.message),
        to: ex.addr_message.to,
        slot: ex.slot,
        message_id: ex.addr_message.id,
    }
}

/// What one extrinsic yields.  An extrinsic whose call is no bridge call
/// yields nothing; one whose events forbid it yields nothing; an outbound
/// call whose index sits in the failed-send list yields nothing; anything
/// else yields a main row and one child row.
#[verifier::opaque]
pub open spec fn spec_head(
    f: SpecFetchedExtrinsic,
    height: u32,
    hash: Seq<u8>,
    ts: u64,
    failed: Seq<u32>,
) -> Result<SpecBatch, DecodeError> {
    match spec_parse_call(f.ext.call_data, 0, f.ext.pallet_id, f.ext.variant_id, spec_unwrapped()) {
        Err(e) => Err(e),
        Ok(None) => Ok(spec_batch_empty()),
        Ok(Some((c, w))) => {
            if spec_dropped_by_events(f.events, w) {
                Ok(spec_batch_empty())
            } else {
                let id = spec_make_id(height, f.ext.ext_index);
                match c {
                    SpecCall::Send(sm) => {
                        if failed.contains(f.ext.ext_index) {
                            Ok(spec_batch_empty())
                        } else {
                            Ok(
                                SpecBatch {
                                    main_entries: seq![
                                        spec_main_entry(
                                            height,
                                            hash,
                                            ts,
                                            f.ext,
                                            f.events,
                                            spec_json_send_message(
                                                spec_serialize_send_message(sm),
                                            ),
                                        ),
                                    ],
                                    execute_entries: Seq::empty(),
                                    send_message_entries: seq![spec_send_entry(id, sm)],
                                },
                            )
                        }
                    },
                    SpecCall::Execute(ex) => Ok(
                        SpecBatch {
                            main_entries: seq![
                                spec_main_entry(
                                    height,
                                    hash,
                                    ts,
                                    f.ext,
                                    f.events,
                                    spec_json_execute(spec_serialize_execute(ex)),
                                ),
                            ],
                            execute_entries: seq![spec_execute_entry(id, ex)],
                            send_message_entries: Seq::empty(),
                        },
                    ),
                }
            }
        },
    }
}

/// What one block's extrinsics yield, first extrinsic first; the first
/// decode error wins.
pub open spec fn spec_transform(
    list: Seq<SpecFetchedExtrinsic>,
    height: u32,
    hash: Seq<u8>,
    ts: u64,
    failed: Seq<u32>,
) -> Result<SpecBatch, DecodeError>
    decreases list.len(),
{
    if list.len() == 0 {
        Ok(spec_batch_empty())
    } else {
        match spec_head(list[0], height, hash, ts, failed) {
            Err(e) => Err(e),
            Ok(h) => match spec_transform(list.drop_first(), height, hash, ts, failed) {
                Err(e) => Err(e),
                Ok(rest) => Ok(spec_batch_concat(h, rest)),
            },
        }
    }
}

fn dropped_by_events(events: &Option<ExtEvents>, w: Wrapped) -> (r: bool)
    ensures
        r == spec_dropped_by_events(*events, w),
{
    match events {
        Some(ev) => {
            if ev.has_extrinsic_failed {
                return true;
            }
            if w.inside_multisig {
                match ev.multisig_executed_ok {
                    Some(false) => {
                        return true;
                    },
                    _ => {},
                }
            }
            if w.inside_proxy {
                match ev.proxy_executed_ok {
                    Some(false) => {
                        return true;
                    },
                    _ => {},
                }
            }
            false
        },
        None => false,
    }
}

fn contains_u32(v: &Vec<u32>, x: u32) -> (r: bool)
    ensures
        r == v@.contains(x),
{
    let n = v.len();
    let mut i: usize = 0;
    while i < n
        invariant
            n == v@.len(),
            0 <= i <= n,
            forall|j: int| 0 <= j < i ==> v@[j] != x,
        decreases n - i,
    {
        if v[i] == x {
            return true;
        }
        i = i + 1;
    }
    false
}

/// That the batch after a step extends the batch before it by exactly what
/// the extrinsic yields.
pub open spec fn spec_step_extends(
    f: SpecFetchedExtrinsic,
    height: u32,
    hash: Seq<u8>,
    ts: u64,
    failed: Seq<u32>,
    before: SpecBatch,
    after: SpecBatch,
) -> bool {
    match spec_head(f, height, hash, ts, failed) {
        Ok(h) => after == spec_batch_concat(before, h),
        Err(_) => false,
    }
}

/// The three row lists of a batch, as the specification sees them.
pub open spec fn spec_data_view(data: &DataForDatabase) -> SpecBatch {
    SpecBatch {
        main_entries: data.main_entries.deep_view(),
        execute_entries: data.execute_entries.deep_view(),
        send_message_entries: data.send_message_entries.deep_view(),
    }
}

/// Handles one extrinsic: appends its rows, if any, to the batch.
fn transform_one(
    data: &mut DataForDatabase,
    f: FetchedExtrinsic,
    block_height: u32,
    block_hash: Hash256,
    block_timestamp: u64,
    failed_txs: &Vec<u32>,
) -> (r: Result<(), DecodeError>)
    ensures
        r matches Ok(_) ==> spec_step_extends(
            f@,
            block_height,
            block_hash@,
            block_timestamp,
            failed_txs@,
            spec_data_view(old(data)),
            spec_data_view(final(data)),
        ),
        r matches Err(e) ==> spec_head(f@, block_height, block_hash@, block_timestamp, failed_txs@)
            == Err::<SpecBatch, DecodeError>(e),
{
    proof {
        reveal(spec_head);
    }
    let ghost fview = f@;
    let ghost main0 = data.main_entries.deep_view();
    let ghost exec0 = data.execute_entries.deep_view();
    let ghost send0 = data.send_message_entries.deep_view();
    let FetchedExtrinsic { ext, events } = f;
    let wrapped = Wrapped { inside_multisig: false, inside_proxy: false };
    let parsed = parse_extrinsic_call(
        ext.call_data.as_slice(),
        0,
        ext.pallet_id,
        ext.variant_id,
        wrapped,
    );
    match parsed {
        Err(e) => {
            return Err(e);
        },
        Ok(None) => {
            proof {
                lemma_concat_empty(main0, exec0, send0, data);
            }
        },
        Ok(Some((call, w))) => {
            if !dropped_by_events(&events, w) {
                let id = make_id(block_height, ext.ext_index);
                match call {
                    SendMsgOrExecute::Send(sm) => {
                        if !contains_u32(failed_txs, ext.ext_index) {
                            let serialized = SerializedSendMessage::from_send_message(&sm);
                            let extra = send_message_table::TableEntry::from_call(id, &serialized);
                            let mut main = main_table::TableEntry::from_block_ext(
                                block_height,
                                block_hash,
                                block_timestamp,
                                ext,
                            );
                            main.ext_success = match events {
                                Some(ev) => Some(ev.has_extrinsic_success),
                                None => None,
                            };
                            main.ext_call = match serialized.to_json() {
                                Ok(s) => s,
                                Err(e) => {
                                    proof {
                                        assert(false);
                                    }
                                    e
                                },
                            };
                            let ghost mview = main@;
                            let ghost sview = extra@;
                            data.main_entries.push(main);
                            data.send_message_entries.push(extra);
                            proof {
                                assert(mview == spec_main_entry(
                                    block_height,
                                    block_hash@,
                                    block_timestamp,
                                    fview.ext,
                                    fview.events,
                                    spec_json_send_message(spec_serialize_send_message(sm@)),
                                ));
                                assert(sview == spec_send_entry(
                                    spec_make_id(block_height, fview.ext.ext_index),
                                    sm@,
                                ));
                                assert(data.main_entries.deep_view() =~= main0 + seq![mview]);
                                assert(data.send_message_entries.deep_view() =~= send0 + seq![
                                    sview,
                                ]);
                                assert(data.execute_entries.deep_view() =~= exec0 + Seq::<
                                    execute_table::SpecTableEntry,
                                >::empty());
                            }
                        } else {
                            proof {
                                lemma_concat_empty(main0, exec0, send0, data);
                            }
                        }
                    },
                    SendMsgOrExecute::Execute(ex) => {
                        let serialized = SerializedExecute::from_execute(&ex);
                        let extra = execute_table::TableEntry::from_call(id, &serialized);
                        let mut main = main_table::TableEntry::from_block_ext(
                            block_height,
                            block_hash,
                            block_timestamp,
                            ext,
                        );
                        main.ext_success = match events {
                            Some(ev) => Some(ev.has_extrinsic_success),
                            None => None,
                        };
                        main.ext_call = match serialized.to_json() {
                            Ok(s) => s,
                            Err(e) => {
                                proof {
                                    assert(false);
                                }
                                e
                            },
                        };
                        let ghost mview = main@;
                        let ghost eview = extra@;
                        data.main_entries.push(main);
                        data.execute_entries.push(extra);
                        proof {
                            assert(mview == spec_main_entry(
                                block_height,
                                block_hash@,
                                block_timestamp,
                                fview.ext,
                                fview.events,
                                spec_json_execute(spec_serialize_execute(ex@)),
                            ));
                            assert(eview == spec_execute_entry(
                                spec_make_id(block_height, fview.ext.ext_index),
                                ex@,
                            ));
                            assert(data.main_entries.deep_view() =~= main0 + seq![mview]);
                            assert(data.execute_entries.deep_view() =~= exec0 + seq![eview]);
                            assert(data.send_message_entries.deep_view() =~= send0 + Seq::<
                                send_message_table::SpecTableEntry,
                            >::empty());
                        }
                    },
                }
            } else {
                proof {
                    lemma_concat_empty(main0, exec0, send0, data);
                }
            }
        },
    }
    Ok(())
}

proof fn lemma_concat_empty(
    main0: Seq<main_table::SpecTableEntry>,
    exec0: Seq<execute_table::SpecTableEntry>,
    send0: Seq<send_message_table::SpecTableEntry>,
    data: &DataForDatabase,
)
    requires
        data.main_entries.deep_view() == main0,
        data.execute_entries.deep_view() == exec0,
        data.send_message_entries.deep_view() == send0,
    ensures
        data.main_entries.deep_view() == main0 + Seq::<main_table::SpecTableEntry>::empty(),
        data.execute_entries.deep_view() == exec0 + Seq::<execute_table::SpecTableEntry>::empty(),
        data.send_message_entries.deep_view() == send0 + Seq::<
            send_message_table::SpecTableEntry,
        >::empty(),
{
    assert(main0 + Seq::<main_table::SpecTableEntry>::empty() =~= main0);
    assert(exec0 + Seq::<execute_table::SpecTableEntry>::empty() =~= exec0);
    assert(send0 + Seq::<send_message_table::SpecTableEntry>::empty() =~= send0);
}

/// Turns one block's filtered extrinsics into the rows to persist.
#[verifier::loop_isolation(false)]
pub fn convert_extrinsics_to_table_entries(
    list: Vec<FetchedExtrinsic>,
    block_height: u32,
    block_hash: Hash256,
    block_timestamp: u64,
    failed_txs: &Vec<u32>,
) -> (r: Result<DataForDatabase, DecodeError>)
    ensures
        r is Ok <==> spec_transform(
            list.deep_view(),
            block_height,
            block_hash@,
            block_timestamp,
            failed_txs@,
        ) is Ok,
        r matches Ok(data) ==> spec_transform(
            list.deep_view(),
            block_height,
            block_hash@,
            block_timestamp,
            failed_txs@,
        ) == Ok::<SpecBatch, DecodeError>(
            SpecBatch {
                main_entries: data.main_entries.deep_view(),
                execute_entries: data.execute_entries.deep_view(),
                send_message_entries: data.send_message_entries.deep_view(),
            },
        ),
        r matches Err(e) ==> spec_transform(
            list.deep_view(),
            block_height,
            block_hash@,
            block_timestamp,
            failed_txs@,
        ) == Err::<SpecBatch, DecodeError>(e),
{
    let ghost full = list.deep_view();
    let mut data = DataForDatabase::default();
    let mut remaining = list;
    proof {
        assert(data.main_entries.deep_view() =~= Seq::<main_table::SpecTableEntry>::empty());
        assert(data.execute_entries.deep_view() =~= Seq::<execute_table::SpecTableEntry>::empty());
        assert(data.send_message_entries.deep_view() =~= Seq::<
            send_message_table::SpecTableEntry,
        >::empty());
        if spec_transform(full, block_height, block_hash@, block_timestamp, failed_txs@) is Ok {
            let b = spec_transform(
                full,
                block_height,
                block_hash@,
                block_timestamp,
                failed_txs@,
            ).unwrap();
            assert(spec_batch_concat(spec_batch_empty(), b) =~= b);
        }
    }
    while remaining.len() > 0
        invariant
            spec_transform(full, block_height, block_hash@, block_timestamp, failed_txs@) == (
            match spec_transform(
                remaining.deep_view(),
                block_height,
                block_hash@,
                block_timestamp,
                failed_txs@,
            ) {
                Ok(b) => Ok::<SpecBatch, DecodeError>(
                    spec_batch_concat(
                        SpecBatch {
                            main_entries: data.main_entries.deep_view(),
                            execute_entries: data.execute_entries.deep_view(),
                            send_message_entries: data.send_message_entries.deep_view(),
                        },
                        b,
                    ),
                ),
                Err(e) => Err::<SpecBatch, DecodeError>(e),
            }),
        decreases remaining@.len(),
    {
        let ghost suffix0 = remaining.deep_view();
        let ghost data0 = SpecBatch {
            main_entries: data.main_entries.deep_view(),
            execute_entries: data.execute_entries.deep_view(),
            send_message_entries: data.send_message_entries.deep_view(),
        };
        let f = remaining.remove(0);
        let ghost fview = f@;
        proof {
            assert(remaining.deep_view() =~= suffix0.drop_first());
            assert(suffix0[0] == fview);
        }
        match transform_one(&mut data, f, block_height, block_hash, block_timestamp, failed_txs) {
            Err(e) => {
                proof {
                    assert(spec_transform(
                        suffix0,
                        block_height,
                        block_hash@,
                        block_timestamp,
                        failed_txs@,
                    ) == Err::<SpecBatch, DecodeError>(e));
                    assert(spec_transform(
                        full,
                        block_height,
                        block_hash@,
                        block_timestamp,
                        failed_txs@,
                    ) == Err::<SpecBatch, DecodeError>(e));
                }
                return Err(e);
            },
            Ok(_) => {},
        }
        proof {
            let h = spec_head(fview, block_height, block_hash@, block_timestamp, failed_txs@)
                .unwrap();
            if spec_transform(
                remaining.deep_view(),
                block_height,
                block_hash@,
                block_timestamp,
                failed_txs@,
            ) is Ok {
                let b = spec_transform(
                    remaining.deep_view(),
                    block_height,
                    block_hash@,
                    block_timestamp,
                    failed_txs@,
                ).unwrap();
                assert(spec_batch_concat(data0, spec_batch_concat(h, b)) =~= spec_batch_concat(
                    SpecBatch {
                        main_entries: data.main_entries.deep_view(),
                        execute_entries: data.execute_entries.deep_view(),
                        send_message_entries: data.send_message_entries.deep_view(),
                    },
                    b,
                ));
            }
        }
    }
    proof {
        assert(remaining.deep_view() =~= Seq::<SpecFetchedExtrinsic>::empty());
        if spec_transform(full, block_height, block_hash@, block_timestamp, failed_txs@) is Ok {
            let b = spec_transform(
                full,
                block_height,
                block_hash@,
                block_timestamp,
                failed_txs@,
            ).unwrap();
            assert(b =~= SpecBatch {
                main_entries: data.main_entries.deep_view(),
                execute_entries: data.execute_entries.deep_view(),
                send_message_entries: data.send_message_entries.deep_view(),
            });
        }
    }
    Ok(data)
}

/// Why the two chain-mandated inherents of a block could not be read.
#[derive(Clone, Copy, Debug, PartialEq, Eq, Structural)]
pub enum ExtractError {
    MissingTimestamp,
    MalformedTimestamp,
    MissingFailedTxs,
    MalformedFailedTxs,
}

/// The first extrinsic carrying the given call header.
pub open spec fn spec_find_call(list: Seq<SpecRawExtrinsic>, pallet: u8, variant: u8) -> Option<
    SpecRawExtrinsic,
>
    decreases list.len(),
{
    if list.len() == 0 {
        None
    } else if list[0].pallet_id == pallet && list[0].variant_id == variant {
        Some(list[0])
    } else {
        spec_find_call(list.drop_first(), pallet, variant)
    }
}

/// Reading `count` compact-encoded values, each of which must fit 32 bits.
pub open spec fn spec_parse_u32_compacts(s: Seq<u8>, pos: int, count: nat) -> Option<(
    Seq<u32>,
    int,
)>
    decreases count,
{
    if count == 0 {
        Some((Seq::<u32>::empty(), pos))
    } else {
        match spec_read_compact(s, pos) {
            Some((v, p1)) => {
                if v > u32::MAX {
                    None
                } else {
                    match spec_parse_u32_compacts(s, p1, (count - 1) as nat) {
                        Some((rest, p2)) => Some((seq![v as u32] + rest, p2)),
                        None => None,
                    }
                }
            },
            None => None,
        }
    }
}

/// The seconds a timestamp inherent's payload carries: a compact count of
/// milliseconds, divided by one thousand.
pub open spec fn spec_timestamp_payload(s: Seq<u8>) -> Option<u64> {
    match spec_read_compact(s, 0) {
        Some((moment, _)) => Some(((moment / 1000) as u64)),
        None => None,
    }
}

/// The indices a failed-send inherent's payload carries: a compact count,
/// then that many compact indices.
pub open spec fn spec_failed_txs_payload(s: Seq<u8>) -> Option<Seq<u32>> {
    match spec_read_compact(s, 0) {
        Some((count, p)) => match spec_parse_u32_compacts(s, p, count) {
            Some((items, _)) => Some(items),
            None => None,
        },
        None => None,
    }
}

/// What the block's inherents give the transformer: the timestamp in
/// seconds and the failed-send list.  Each inherent is chain-mandated, so
/// a missing or malformed one is an error.
pub open spec fn spec_extract(list: Seq<SpecRawExtrinsic>) -> Result<(u64, Seq<u32>), ExtractError> {
    match spec_find_call(list, TIMESTAMP_PALLET_ID, TIMESTAMP_SET_VARIANT_ID) {
        None => Err(ExtractError::MissingTimestamp),
        Some(set_ext) => match spec_timestamp_payload(set_ext.call_data) {
            None => Err(ExtractError::MalformedTimestamp),
            Some(ts) => match spec_find_call(
                list,
                VECTOR_PALLET_ID,
                FAILED_SEND_MESSAGE_TXS_VARIANT_ID,
            ) {
                None => Err(ExtractError::MissingFailedTxs),
                Some(ftx) => match spec_failed_txs_payload(ftx.call_data) {
                    None => Err(ExtractError::MalformedFailedTxs),
                    Some(items) => Ok((ts, items)),
                },
            },
        },
    }
}

fn find_call(list: &Vec<RawExtrinsic>, pallet: u8, variant: u8) -> (r: Option<usize>)
    ensures
        r is Some <==> spec_find_call(list.deep_view(), pallet, variant) is Some,
        r matches Some(i) ==> 0 <= i < list@.len() && spec_find_call(
            list.deep_view(),
            pallet,
            variant,
        ) == Some(list.deep_view()[i as int]),
{
    let n = list.len();
    proof {
        assert(list.deep_view().skip(0) =~= list.deep_view());
    }
    for i in 0..n
        invariant
            n == list@.len(),
            spec_find_call(list.deep_view(), pallet, variant) == spec_find_call(
                list.deep_view().skip(i as int),
                pallet,
                variant,
            ),
    {
        proof {
            assert(list.deep_view().skip(i as int)[0] == list.deep_view()[i as int]);
            assert(list.deep_view().skip(i as int).drop_first() =~= list.deep_view().skip(i + 1));
        }
        if list[i].pallet_id == pallet && list[i].variant_id == variant {
            return Some(i);
        }
    }
    proof {
        assert(list.deep_view().skip(n as int) =~= Seq::<SpecRawExtrinsic>::empty());
    }
    None
}

fn parse_u32_compacts(data: &[u8], pos: usize, count: u64) -> (r: Option<(Vec<u32>, usize)>)
    ensures
        r is Some <==> spec_parse_u32_compacts(data@, pos as int, count as nat) is Some,
        r matches Some((items, p)) ==> spec_parse_u32_compacts(data@, pos as int, count as nat)
            matches Some((sitems, sp)) && items@ == sitems && p == sp,
{
    let mut items: Vec<u32> = Vec::new();
    let mut cur = pos;
    let mut k: u64 = 0;
    while k < count
        invariant
            k <= count,
            items@.len() == k,
            spec_parse_u32_compacts(data@, pos as int, count as nat) == (
            match spec_parse_u32_compacts(data@, cur as int, (count - k) as nat) {
                Some((rest, p)) => Some((items@ + rest, p)),
                None => None::<(Seq<u32>, int)>,
            }),
        decreases count - k,
    {
        let ghost items0 = items@;
        let ghost cur0 = cur as int;
        let ghost crem = (count - k) as nat;
        match crate::codec::read_compact(data, cur) {
            Some((v, p1)) => {
                if v > u32::MAX as u64 {
                    return None;
                }
                items.push(v as u32);
                cur = p1;
                k = k + 1;
                proof {
                    assert(items@ =~= items0.push(v as u32));
                    if spec_parse_u32_compacts(data@, cur as int, (count - k) as nat) is Some {
                        let (rest, p) = spec_parse_u32_compacts(
                            data@,
                            cur as int,
                            (count - k) as nat,
                        ).unwrap();
                        assert(spec_parse_u32_compacts(data@, cur0, crem) == Some(
                            (seq![v as u32] + rest, p),
                        ));
                        assert(items0 + (seq![v as u32] + rest) =~= items@ + rest);
                    }
                }
            },
            None => {
                return None;
            },
        }
    }
    proof {
        assert(spec_parse_u32_compacts(data@, cur as int, 0) == Some(
            (Seq::<u32>::empty(), cur as int),
        ));
        assert(items@ + Seq::<u32>::empty() =~= items@);
    }
    Some((items, cur))
}

/// Reads the block's timestamp (in seconds) and failed-send list out of
/// its two inherents, fetched alongside the filtered extrinsics.
pub fn extract_block_timestamp_and_failed_txs(list: &Vec<RawExtrinsic>) -> (r: Result<
    (u64, Vec<u32>),
    ExtractError,
>)
    ensures
        r is Ok <==> spec_extract(list.deep_view()) is Ok,
        r matches Ok((ts, failed)) ==> spec_extract(list.deep_view()) == Ok::<
            (u64, Seq<u32>),
            ExtractError,
        >((ts, failed@)),
        r matches Err(e) ==> spec_extract(list.deep_view()) == Err::<
            (u64, Seq<u32>),
            ExtractError,
        >(e),
{
    let set_idx = match find_call(list, TIMESTAMP_PALLET_ID, TIMESTAMP_SET_VARIANT_ID) {
        Some(i) => i,
        None => {
            return Err(ExtractError::MissingTimestamp);
        },
    };
    let ts = match crate::codec::read_compact(list[set_idx].call_data.as_slice(), 0) {
        Some((moment, _)) => moment / 1000,
        None => {
            return Err(ExtractError::MalformedTimestamp);
        },
    };
    let ftx_idx = match find_call(list, VECTOR_PALLET_ID, FAILED_SEND_MESSAGE_TXS_VARIANT_ID) {
        Some(i) => i,
        None => {
            return Err(ExtractError::MissingFailedTxs);
        },
    };
    let ftx_data = list[ftx_idx].call_data.as_slice();
    let count = match crate::codec::read_compact(ftx_data, 0) {
        Some((count, p)) => (count, p),
        None => {
            return Err(ExtractError::MalformedFailedTxs);
        },
    };
    let (count, p) = count;
    match parse_u32_compacts(ftx_data, p, count) {
        Some((items, _)) => Ok((ts, items)),
        None => Err(ExtractError::MalformedFailedTxs),
    }
}

} // verus!
