use avail_indexer::codec::{AS_MULTI_VARIANT_ID, EXECUTE_VARIANT_ID,
    FAILED_SEND_MESSAGE_TXS_VARIANT_ID, MULTISIG_PALLET_ID, PROXY_PALLET_ID, PROXY_VARIANT_ID,
    SEND_MESSAGE_VARIANT_ID, TIMESTAMP_PALLET_ID, TIMESTAMP_SET_VARIANT_ID, VECTOR_PALLET_ID};
use avail_indexer::transform::{convert_extrinsics_to_table_entries,
    extract_block_timestamp_and_failed_txs, ExtractError, FetchedExtrinsic};
use avail_indexer::types::{make_id, ExtEvents, Hash256, MultiAddress, RawExtrinsic};

fn h256(b: u8) -> Hash256 {
    Hash256::new([b; 32])
}

fn compact(n: u64) -> Vec<u8> {
    if n < 64 {
        vec![(n as u8) << 2]
    } else if n < 16384 {
        let v = ((n as u16) << 2) | 1;
        v.to_le_bytes().to_vec()
    } else if n < 1 << 30 {
        let v = ((n as u32) << 2) | 2;
        v.to_le_bytes().to_vec()
    } else {
        let bytes = n.to_le_bytes();
        let used = 8 - n.leading_zeros() as usize / 8;
        let mut out = vec![(((used - 4) as u8) << 2) | 3];
        out.extend_from_slice(&bytes[..used]);
        out
    }
}

fn fungible_message(asset: u8, amount: u128) -> Vec<u8> {
    let mut m = vec![1u8];
    m.extend_from_slice(&[asset; 32]);
    m.extend_from_slice(&amount.to_le_bytes());
    m
}

fn send_message_payload(message: Vec<u8>, to: u8, domain: u32) -> Vec<u8> {
    let mut p = message;
    p.extend_from_slice(&[to; 32]);
    p.extend_from_slice(&domain.to_le_bytes());
    p
}

fn execute_payload(
    slot: u64,
    message: Vec<u8>,
    from: u8,
    to: u8,
    origin: u32,
    dest: u32,
    id: u64,
) -> Vec<u8> {
    let mut p = slot.to_le_bytes().to_vec();
    p.extend_from_slice(&message);
    p.extend_from_slice(&[from; 32]);
    p.extend_from_slice(&[to; 32]);
    p.extend_from_slice(&origin.to_le_bytes());
    p.extend_from_slice(&dest.to_le_bytes());
    p.extend_from_slice(&id.to_le_bytes());
    p.extend_from_slice(&compact(0));
    p.extend_from_slice(&compact(0));
    p
}

fn fetched(
    pallet: u8,
    variant: u8,
    index: u32,
    data: Vec<u8>,
    events: Option<ExtEvents>,
) -> FetchedExtrinsic {
    FetchedExtrinsic {
        ext: RawExtrinsic {
            pallet_id: pallet,
            variant_id: variant,
            ext_index: index,
            ext_hash: h256(0xee),
            address: Some(MultiAddress::Id(h256(0x11))),
            ss58_address: Some("5GrwvaEFHqf3WzZSVJbticU5rjfMDR8dTzZVaBEzUVHBmRcrim8".to_string()),
            call_data: data,
        },
        events,
    }
}

fn success_events() -> ExtEvents {
    ExtEvents {
        has_extrinsic_success: true,
        has_extrinsic_failed: false,
        multisig_executed_ok: None,
        proxy_executed_ok: None,
    }
}

#[test]
fn plain_send_message_fungible_token() {
    // Block height 100, one extrinsic at index 2, fungible token of
    // amount 1000 to 0x02…02 on domain 2, timestamp already in seconds.
    let payload = send_message_payload(fungible_message(1, 1000), 2, 2);
    let list = vec![fetched(
        VECTOR_PALLET_ID,
        SEND_MESSAGE_VARIANT_ID,
        2,
        payload,
        Some(success_events()),
    )];
    let data = convert_extrinsics_to_table_entries(list, 100, h256(0xbb), 1_700_000_000, &vec![])
        .expect("transforms");
    assert_eq!(data.main_entries.len(), 1);
    assert_eq!(data.send_message_entries.len(), 1);
    assert_eq!(data.execute_entries.len(), 0);
    let main = &data.main_entries[0];
    assert_eq!(main.id, 429496729602u64);
    assert_eq!(main.id, make_id(100, 2));
    assert_eq!(main.block_height, 100);
    assert_eq!(main.block_timestamp, 1_700_000_000);
    assert_eq!(main.ext_index, 2);
    assert_eq!(main.ext_success, Some(true));
    assert_eq!(
        main.ext_call,
        format!(
            "{{\"message\":{{\"FungibleToken\":{{\"asset_id\":\"0x{}\",\"amount\":1000}}}},\"to\":\"0x{}\",\"domain\":2}}",
            "01".repeat(32),
            "02".repeat(32),
        ),
    );
    let child = &data.send_message_entries[0];
    assert_eq!(child.id, main.id);
    assert_eq!(child.kind, "FungibleToken");
    assert_eq!(child.amount, Some(1000));
    assert_eq!(child.to, h256(2));
}

#[test]
fn send_message_in_failed_txs_yields_nothing() {
    let payload = send_message_payload(fungible_message(1, 1000), 2, 2);
    let list = vec![fetched(
        VECTOR_PALLET_ID,
        SEND_MESSAGE_VARIANT_ID,
        2,
        payload,
        Some(success_events()),
    )];
    let data =
        convert_extrinsics_to_table_entries(list, 100, h256(0xbb), 1_700_000_000, &vec![2])
            .expect("transforms");
    assert_eq!(data.main_entries.len(), 0);
    assert_eq!(data.send_message_entries.len(), 0);
    assert_eq!(data.execute_entries.len(), 0);
}

#[test]
fn execute_unwrapped() {
    // Block 200, index 0, slot 42, addressed message id 7 to 0x03…03
    // carrying a fungible token of amount 5.
    let payload = execute_payload(42, fungible_message(1, 5), 4, 3, 1, 2, 7);
    let list = vec![fetched(
        VECTOR_PALLET_ID,
        EXECUTE_VARIANT_ID,
        0,
        payload,
        Some(success_events()),
    )];
    let data = convert_extrinsics_to_table_entries(list, 200, h256(0xbb), 1_700_000_000, &vec![])
        .expect("transforms");
    assert_eq!(data.main_entries.len(), 1);
    assert_eq!(data.execute_entries.len(), 1);
    assert_eq!(data.send_message_entries.len(), 0);
    let child = &data.execute_entries[0];
    assert_eq!(child.id, make_id(200, 0));
    assert_eq!(child.kind, "FungibleToken");
    assert_eq!(child.amount, Some(5));
    assert_eq!(child.to, h256(3));
    assert_eq!(child.slot, 42);
    assert_eq!(child.message_id, 7);
    assert_eq!(
        data.main_entries[0].ext_call,
        format!(
            "{{\"slot\":42,\"addr_message\":{{\"message\":{{\"FungibleToken\":{{\"asset_id\":\"0x{}\",\"amount\":5}}}},\"from\":\"0x{}\",\"to\":\"0x{}\",\"origin_domain\":1,\"destination_domain\":2,\"id\":7}},\"account_proof\":[],\"storage_proof\":[]}}",
            "01".repeat(32),
            "04".repeat(32),
            "03".repeat(32),
        ),
    );
}

#[test]
fn execute_proofs_render_as_hex_lists() {
    let mut payload = execute_payload(1, fungible_message(1, 5), 4, 3, 1, 2, 7);
    payload.truncate(payload.len() - 2);
    payload.extend_from_slice(&compact(2));
    payload.extend_from_slice(&compact(1));
    payload.push(0xaa);
    payload.extend_from_slice(&compact(2));
    payload.extend_from_slice(&[0xbb, 0xcc]);
    payload.extend_from_slice(&compact(0));
    let list = vec![fetched(
        VECTOR_PALLET_ID,
        EXECUTE_VARIANT_ID,
        0,
        payload,
        Some(success_events()),
    )];
    let data = convert_extrinsics_to_table_entries(list, 1, h256(0xbb), 0, &vec![])
        .expect("transforms");
    let call = &data.main_entries[0].ext_call;
    assert!(call.contains("\"account_proof\":[\"0xaa\",\"0xbbcc\"]"));
    assert!(call.contains("\"storage_proof\":[]"));
}

#[test]
fn mixed_block_keeps_both_children() {
    let send = send_message_payload(fungible_message(1, 10), 2, 2);
    let exec = execute_payload(1, fungible_message(1, 5), 4, 3, 1, 2, 7);
    let list = vec![
        fetched(VECTOR_PALLET_ID, SEND_MESSAGE_VARIANT_ID, 0, send, Some(success_events())),
        fetched(VECTOR_PALLET_ID, EXECUTE_VARIANT_ID, 1, exec, Some(success_events())),
    ];
    let data = convert_extrinsics_to_table_entries(list, 50, h256(0xbb), 0, &vec![])
        .expect("transforms");
    assert_eq!(data.main_entries.len(), 2);
    assert_eq!(data.send_message_entries.len(), 1);
    assert_eq!(data.execute_entries.len(), 1);
    assert_eq!(data.main_entries[0].id, make_id(50, 0));
    assert_eq!(data.main_entries[1].id, make_id(50, 1));
}

#[test]
fn send_message_in_failed_multisig_yields_nothing() {
    let inner = send_message_payload(fungible_message(1, 1000), 2, 2);
    let mut outer = 2u16.to_le_bytes().to_vec();
    outer.extend_from_slice(&compact(0));
    outer.push(0);
    outer.push(VECTOR_PALLET_ID);
    outer.push(SEND_MESSAGE_VARIANT_ID);
    outer.extend_from_slice(&inner);
    let events = ExtEvents {
        has_extrinsic_success: true,
        has_extrinsic_failed: false,
        multisig_executed_ok: Some(false),
        proxy_executed_ok: None,
    };
    let list = vec![fetched(MULTISIG_PALLET_ID, AS_MULTI_VARIANT_ID, 1, outer, Some(events))];
    let data = convert_extrinsics_to_table_entries(list, 100, h256(0xbb), 1_700_000_000, &vec![])
        .expect("transforms");
    assert_eq!(data.main_entries.len(), 0);
    assert_eq!(data.send_message_entries.len(), 0);
}

#[test]
fn send_message_in_successful_multisig() {
    let inner = send_message_payload(fungible_message(1, 1000), 2, 2);
    let mut outer = 2u16.to_le_bytes().to_vec();
    outer.extend_from_slice(&compact(0));
    outer.push(0);
    outer.push(VECTOR_PALLET_ID);
    outer.push(SEND_MESSAGE_VARIANT_ID);
    outer.extend_from_slice(&inner);
    let events = ExtEvents {
        has_extrinsic_success: true,
        has_extrinsic_failed: false,
        multisig_executed_ok: Some(true),
        proxy_executed_ok: None,
    };
    let list = vec![fetched(MULTISIG_PALLET_ID, AS_MULTI_VARIANT_ID, 1, outer, Some(events))];
    let data = convert_extrinsics_to_table_entries(list, 100, h256(0xbb), 1_700_000_000, &vec![])
        .expect("transforms");
    assert_eq!(data.main_entries.len(), 1);
    assert_eq!(data.send_message_entries.len(), 1);
    let child = &data.send_message_entries[0];
    assert_eq!(child.id, make_id(100, 1));
    assert_eq!(child.kind, "FungibleToken");
    assert_eq!(child.amount, Some(1000));
}

#[test]
fn send_message_in_failed_proxy_yields_nothing() {
    let inner = send_message_payload(fungible_message(1, 1000), 2, 2);
    let mut outer = vec![0u8];
    outer.extend_from_slice(&[9u8; 32]);
    outer.push(0);
    outer.push(VECTOR_PALLET_ID);
    outer.push(SEND_MESSAGE_VARIANT_ID);
    outer.extend_from_slice(&inner);
    let events = ExtEvents {
        has_extrinsic_success: false,
        has_extrinsic_failed: false,
        multisig_executed_ok: None,
        proxy_executed_ok: Some(false),
    };
    let list = vec![fetched(PROXY_PALLET_ID, PROXY_VARIANT_ID, 3, outer, Some(events))];
    let data = convert_extrinsics_to_table_entries(list, 100, h256(0xbb), 1_700_000_000, &vec![])
        .expect("transforms");
    assert_eq!(data.main_entries.len(), 0);
    assert_eq!(data.send_message_entries.len(), 0);
    assert_eq!(data.execute_entries.len(), 0);
}

#[test]
fn failed_extrinsic_yields_nothing() {
    let payload = send_message_payload(fungible_message(1, 1000), 2, 2);
    let events = ExtEvents {
        has_extrinsic_success: false,
        has_extrinsic_failed: true,
        multisig_executed_ok: None,
        proxy_executed_ok: None,
    };
    let list = vec![fetched(VECTOR_PALLET_ID, SEND_MESSAGE_VARIANT_ID, 2, payload, Some(events))];
    let data = convert_extrinsics_to_table_entries(list, 100, h256(0xbb), 1_700_000_000, &vec![])
        .expect("transforms");
    assert_eq!(data.main_entries.len(), 0);
}

#[test]
fn unknown_events_leave_success_open() {
    let payload = send_message_payload(fungible_message(1, 1000), 2, 2);
    let list = vec![fetched(VECTOR_PALLET_ID, SEND_MESSAGE_VARIANT_ID, 2, payload, None)];
    let data = convert_extrinsics_to_table_entries(list, 100, h256(0xbb), 1_700_000_000, &vec![])
        .expect("transforms");
    assert_eq!(data.main_entries.len(), 1);
    assert_eq!(data.main_entries[0].ext_success, None);
}

#[test]
fn unknown_wrapper_outcome_counts_as_success() {
    let inner = send_message_payload(fungible_message(1, 1000), 2, 2);
    let mut outer = 2u16.to_le_bytes().to_vec();
    outer.extend_from_slice(&compact(0));
    outer.push(0);
    outer.push(VECTOR_PALLET_ID);
    outer.push(SEND_MESSAGE_VARIANT_ID);
    outer.extend_from_slice(&inner);
    let list = vec![fetched(
        MULTISIG_PALLET_ID,
        AS_MULTI_VARIANT_ID,
        1,
        outer,
        Some(success_events()),
    )];
    let data = convert_extrinsics_to_table_entries(list, 100, h256(0xbb), 1_700_000_000, &vec![])
        .expect("transforms");
    assert_eq!(data.send_message_entries.len(), 1);
}

fn inherent(pallet: u8, variant: u8, data: Vec<u8>) -> RawExtrinsic {
    RawExtrinsic {
        pallet_id: pallet,
        variant_id: variant,
        ext_index: 0,
        ext_hash: h256(0),
        address: None,
        ss58_address: None,
        call_data: data,
    }
}

#[test]
fn extracts_timestamp_and_failed_txs() {
    let mut failed = compact(2);
    failed.extend_from_slice(&compact(2));
    failed.extend_from_slice(&compact(5));
    let list = vec![
        inherent(TIMESTAMP_PALLET_ID, TIMESTAMP_SET_VARIANT_ID, compact(1_700_000_000_000)),
        inherent(VECTOR_PALLET_ID, FAILED_SEND_MESSAGE_TXS_VARIANT_ID, failed),
    ];
    let (ts, failed_txs) = extract_block_timestamp_and_failed_txs(&list).expect("extracts");
    assert_eq!(ts, 1_700_000_000);
    assert_eq!(failed_txs, vec![2, 5]);
}

#[test]
fn missing_timestamp_is_an_error() {
    let list = vec![inherent(VECTOR_PALLET_ID, FAILED_SEND_MESSAGE_TXS_VARIANT_ID, compact(0))];
    assert_eq!(
        extract_block_timestamp_and_failed_txs(&list),
        Err(ExtractError::MissingTimestamp),
    );
}

#[test]
fn missing_failed_txs_is_an_error() {
    let list = vec![inherent(
        TIMESTAMP_PALLET_ID,
        TIMESTAMP_SET_VARIANT_ID,
        compact(1_700_000_000_000),
    )];
    assert_eq!(
        extract_block_timestamp_and_failed_txs(&list),
        Err(ExtractError::MissingFailedTxs),
    );
}

#[test]
fn malformed_timestamp_is_an_error() {
    let list = vec![
        inherent(TIMESTAMP_PALLET_ID, TIMESTAMP_SET_VARIANT_ID, vec![]),
        inherent(VECTOR_PALLET_ID, FAILED_SEND_MESSAGE_TXS_VARIANT_ID, compact(0)),
    ];
    assert_eq!(
        extract_block_timestamp_and_failed_txs(&list),
        Err(ExtractError::MalformedTimestamp),
    );
}

#[test]
fn arbitrary_message_rendered_as_hex() {
    let payload = send_message_payload(
        {
            let mut m = vec![0u8];
            m.extend_from_slice(&compact(2));
            m.extend_from_slice(&[0xaa, 0xbb]);
            m
        },
        2,
        1,
    );
    let list = vec![fetched(
        VECTOR_PALLET_ID,
        SEND_MESSAGE_VARIANT_ID,
        0,
        payload,
        Some(success_events()),
    )];
    let data = convert_extrinsics_to_table_entries(list, 1, h256(0xbb), 0, &vec![])
        .expect("transforms");
    assert_eq!(
        data.main_entries[0].ext_call,
        format!("{{\"message\":{{\"ArbitraryMessage\":\"0xaabb\"}},\"to\":\"0x{}\",\"domain\":1}}", "02".repeat(32)),
    );
    assert_eq!(data.send_message_entries[0].kind, "ArbitraryMessage");
    assert_eq!(data.send_message_entries[0].amount, None);
}
