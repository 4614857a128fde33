use avail_indexer::codec::{parse_execute_call, parse_extrinsic_call, parse_send_message_call,
    parse_transactions, DecodeError, AS_MULTI_VARIANT_ID, EXECUTE_VARIANT_ID,
    MULTISIG_PALLET_ID, PROXY_PALLET_ID, PROXY_VARIANT_ID, SEND_MESSAGE_VARIANT_ID,
    VECTOR_PALLET_ID};
use avail_indexer::types::{Hash256, Message, MultiAddress, RawExtrinsic, SendMsgOrExecute,
    Wrapped};

fn h256(b: u8) -> Hash256 {
    Hash256::new([b; 32])
}

fn compact(n: u64) -> Vec<u8> {
    if n < 64 {
        vec![(n as u8) << 2]
    } else if n < 16384 {
        let v = ((n as u16) << 2) | 1;
        v.to_le_bytes().to_vec()
    } else if n < 1 << 30 {
        let v = ((n as u32) << 2) | 2;
        v.to_le_bytes().to_vec()
    } else {
        let bytes = n.to_le_bytes();
        let used = 8 - n.leading_zeros() as usize / 8;
        let mut out = vec![(((used - 4) as u8) << 2) | 3];
        out.extend_from_slice(&bytes[..used]);
        out
    }
}

fn fungible_message(asset: u8, amount: u128) -> Vec<u8> {
    let mut m = vec![1u8];
    m.extend_from_slice(&[asset; 32]);
    m.extend_from_slice(&amount.to_le_bytes());
    m
}

fn arbitrary_message(payload: &[u8]) -> Vec<u8> {
    let mut m = vec![0u8];
    m.extend_from_slice(&compact(payload.len() as u64));
    m.extend_from_slice(payload);
    m
}

fn send_message_payload(message: Vec<u8>, to: u8, domain: u32) -> Vec<u8> {
    let mut p = message;
    p.extend_from_slice(&[to; 32]);
    p.extend_from_slice(&domain.to_le_bytes());
    p
}

fn execute_payload(
    slot: u64,
    message: Vec<u8>,
    from: u8,
    to: u8,
    origin: u32,
    dest: u32,
    id: u64,
) -> Vec<u8> {
    let mut p = slot.to_le_bytes().to_vec();
    p.extend_from_slice(&message);
    p.extend_from_slice(&[from; 32]);
    p.extend_from_slice(&[to; 32]);
    p.extend_from_slice(&origin.to_le_bytes());
    p.extend_from_slice(&dest.to_le_bytes());
    p.extend_from_slice(&id.to_le_bytes());
    p.extend_from_slice(&compact(0)); // account proof
    p.extend_from_slice(&compact(0)); // storage proof
    p
}

fn as_multi_wrapping(inner_pallet: u8, inner_variant: u8, inner: &[u8]) -> Vec<u8> {
    let mut p = 2u16.to_le_bytes().to_vec(); // threshold
    p.extend_from_slice(&compact(0)); // other signatories
    p.push(0); // no timepoint
    p.push(inner_pallet);
    p.push(inner_variant);
    p.extend_from_slice(inner);
    p
}

fn proxy_wrapping(inner_pallet: u8, inner_variant: u8, inner: &[u8]) -> Vec<u8> {
    let mut p = vec![0u8]; // MultiAddress::Id
    p.extend_from_slice(&[9u8; 32]);
    p.push(0); // no forced proxy type
    p.push(inner_pallet);
    p.push(inner_variant);
    p.extend_from_slice(inner);
    p
}

#[test]
fn parses_fungible_send_message() {
    let payload = send_message_payload(fungible_message(1, 1000), 2, 2);
    let (m, consumed) = parse_send_message_call(&payload, 0).expect("parses");
    assert_eq!(consumed, payload.len());
    assert_eq!(m.to, h256(2));
    assert_eq!(m.domain, 2);
    match m.message {
        Message::FungibleToken { asset_id, amount } => {
            assert_eq!(asset_id, h256(1));
            assert_eq!(amount, 1000);
        },
        _ => panic!("expected a fungible token"),
    }
}

#[test]
fn parses_arbitrary_send_message() {
    let payload = send_message_payload(arbitrary_message(&[0xaa, 0xbb]), 7, 1);
    let (m, _) = parse_send_message_call(&payload, 0).expect("parses");
    match m.message {
        Message::ArbitraryMessage(b) => assert_eq!(b, vec![0xaa, 0xbb]),
        _ => panic!("expected an arbitrary message"),
    }
}

#[test]
fn truncated_send_message_fails() {
    let mut payload = send_message_payload(fungible_message(1, 5), 2, 2);
    payload.truncate(payload.len() - 1);
    assert!(parse_send_message_call(&payload, 0).is_none());
}

#[test]
fn parses_execute() {
    let payload = execute_payload(42, fungible_message(1, 5), 4, 3, 1, 2, 7);
    let (e, consumed) = parse_execute_call(&payload, 0).expect("parses");
    assert_eq!(consumed, payload.len());
    assert_eq!(e.slot, 42);
    assert_eq!(e.addr_message.to, h256(3));
    assert_eq!(e.addr_message.id, 7);
    assert!(e.account_proof.is_empty());
    assert!(e.storage_proof.is_empty());
}

#[test]
fn execute_with_proofs() {
    let mut payload = execute_payload(1, fungible_message(1, 5), 4, 3, 1, 2, 7);
    payload.truncate(payload.len() - 2);
    payload.extend_from_slice(&compact(2));
    payload.extend_from_slice(&compact(1));
    payload.push(0xaa);
    payload.extend_from_slice(&compact(2));
    payload.extend_from_slice(&[0xbb, 0xcc]);
    payload.extend_from_slice(&compact(0));
    let (e, _) = parse_execute_call(&payload, 0).expect("parses");
    assert_eq!(e.account_proof, vec![vec![0xaa], vec![0xbb, 0xcc]]);
    assert!(e.storage_proof.is_empty());
}

fn unwrapped() -> Wrapped {
    Wrapped { inside_multisig: false, inside_proxy: false }
}

#[test]
fn unknown_header_is_no_bridge_call() {
    let r = parse_extrinsic_call(&[1, 2, 3], 0, 99, 99, unwrapped());
    assert!(matches!(r, Ok(None)));
}

#[test]
fn multisig_unwraps_send_message() {
    let inner = send_message_payload(fungible_message(1, 1000), 2, 2);
    let outer = as_multi_wrapping(VECTOR_PALLET_ID, SEND_MESSAGE_VARIANT_ID, &inner);
    let r = parse_extrinsic_call(&outer, 0, MULTISIG_PALLET_ID, AS_MULTI_VARIANT_ID, unwrapped());
    match r {
        Ok(Some((SendMsgOrExecute::Send(m), w))) => {
            assert!(w.inside_multisig);
            assert!(!w.inside_proxy);
            assert_eq!(m.domain, 2);
        },
        _ => panic!("expected an unwrapped send message"),
    }
}

#[test]
fn proxy_unwraps_execute() {
    let inner = execute_payload(42, fungible_message(1, 5), 4, 3, 1, 2, 7);
    let outer = proxy_wrapping(VECTOR_PALLET_ID, EXECUTE_VARIANT_ID, &inner);
    let r = parse_extrinsic_call(&outer, 0, PROXY_PALLET_ID, PROXY_VARIANT_ID, unwrapped());
    match r {
        Ok(Some((SendMsgOrExecute::Execute(e), w))) => {
            assert!(w.inside_proxy);
            assert!(!w.inside_multisig);
            assert_eq!(e.slot, 42);
        },
        _ => panic!("expected an unwrapped execute"),
    }
}

#[test]
fn malformed_multisig_is_benign() {
    let r = parse_extrinsic_call(&[0xff], 0, MULTISIG_PALLET_ID, AS_MULTI_VARIANT_ID, unwrapped());
    assert!(matches!(r, Ok(None)));
}

#[test]
fn malformed_proxy_is_fatal() {
    let r = parse_extrinsic_call(&[0xff], 0, PROXY_PALLET_ID, PROXY_VARIANT_ID, unwrapped());
    assert!(matches!(r, Err(DecodeError::Proxy)));
}

#[test]
fn malformed_send_message_is_fatal() {
    let r = parse_extrinsic_call(&[1, 2], 0, VECTOR_PALLET_ID, SEND_MESSAGE_VARIANT_ID, unwrapped());
    assert!(matches!(r, Err(DecodeError::SendMessage)));
}

#[test]
fn malformed_execute_is_fatal() {
    let r = parse_extrinsic_call(&[1, 2], 0, VECTOR_PALLET_ID, EXECUTE_VARIANT_ID, unwrapped());
    assert!(matches!(r, Err(DecodeError::Execute)));
}

fn raw_ext(pallet: u8, variant: u8, index: u32, signed: bool, data: Vec<u8>) -> RawExtrinsic {
    RawExtrinsic {
        pallet_id: pallet,
        variant_id: variant,
        ext_index: index,
        ext_hash: h256(0xee),
        address: if signed { Some(MultiAddress::Id(h256(0x11))) } else { None },
        ss58_address: if signed { Some("5GrwvaEF".to_string()) } else { None },
        call_data: data,
    }
}

#[test]
fn parse_transactions_collects_targets() {
    let payload = send_message_payload(fungible_message(1, 1000), 2, 2);
    let list = vec![
        raw_ext(VECTOR_PALLET_ID, SEND_MESSAGE_VARIANT_ID, 0, true, payload),
        raw_ext(99, 99, 1, true, vec![]),
    ];
    let targets = parse_transactions(&list).expect("parses");
    assert_eq!(targets.len(), 1);
    assert!(targets[0].is_send_message());
    assert!(targets[0].is_send_message_and_fungible());
    assert!(!targets[0].is_execute());
    assert_eq!(targets[0].ext_index, 0);
}

#[test]
fn parse_transactions_keeps_unsigned_extrinsics() {
    let payload = send_message_payload(fungible_message(1, 7), 2, 2);
    let list = vec![raw_ext(VECTOR_PALLET_ID, SEND_MESSAGE_VARIANT_ID, 4, false, payload)];
    let targets = parse_transactions(&list).expect("parses");
    assert_eq!(targets.len(), 1);
    assert!(targets[0].address.is_none());
    assert_eq!(targets[0].ext_index, 4);
}

#[test]
fn parse_transactions_propagates_decode_errors() {
    let list = vec![raw_ext(VECTOR_PALLET_ID, SEND_MESSAGE_VARIANT_ID, 0, true, vec![1, 2])];
    assert!(matches!(parse_transactions(&list), Err(DecodeError::SendMessage)));
}
