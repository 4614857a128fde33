//! The call decoder: reads the bridge-relevant call shapes out of raw call
//! bytes, unwrapping multisig and proxy wrappers.
//!
//! The byte format reads little-endian integers, compact-prefixed lengths
//! and fixed-width hashes; the call headers are the `(pallet, variant)`
//! pairs the chain metadata assigns.

use vstd::prelude::*;

use crate::types::{AddressedMessage, Execute, Hash256, Message, MultiAddress, RawExtrinsic,
    SendMessage, SendMsgOrExecute, SpecCall, SpecMessage, SpecMultiAddress, SpecRawExtrinsic,
    Wrapped};

verus! {

/// The call headers the chain metadata assigns to the calls this indexer
/// recognizes.
pub const VECTOR_PALLET_ID: u8 = 39;

pub const SEND_MESSAGE_VARIANT_ID: u8 = 3;

pub const EXECUTE_VARIANT_ID: u8 = 1;

pub const FAILED_SEND_MESSAGE_TXS_VARIANT_ID: u8 = 7;

pub const TIMESTAMP_PALLET_ID: u8 = 3;

pub const TIMESTAMP_SET_VARIANT_ID: u8 = 0;

pub const MULTISIG_PALLET_ID: u8 = 34;

pub const AS_MULTI_VARIANT_ID: u8 = 1;

pub const PROXY_PALLET_ID: u8 = 40;

pub const PROXY_VARIANT_ID: u8 = 0;

/// Which payload could not be decoded.  A proxy whose payload does not
/// decode is an error, because the extrinsic filter pre-committed to the
/// call header; a multisig wrapping an unrelated call is not.
#[derive(Clone, Copy, Debug, PartialEq, Eq, Structural)]
pub enum DecodeError {
    SendMessage,
    Execute,
    Proxy,
}

/// The value of a little-endian byte string.
pub open spec fn spec_le_value(s: Seq<u8>) -> nat
    decreases s.len(),
{
    if s.len() == 0 {
        0
    } else {
        (s[0] as nat) + 256 * spec_le_value(s.drop_first())
    }
}

/// 256 to the n-th power.
pub open spec fn pow256(n: nat) -> nat
    decreases n,
{
    if n == 0 {
        1
    } else {
        256 * pow256((n - 1) as nat)
    }
}

/// A little-endian byte string of length n denotes a value below 256^n.
pub proof fn lemma_le_value_bound(s: Seq<u8>)
    ensures
        spec_le_value(s) < pow256(s.len()),
    decreases s.len(),
{
    if s.len() == 0 {
    } else {
        lemma_le_value_bound(s.drop_first());
        assert(pow256(s.len()) == 256 * pow256((s.len() - 1) as nat));
    }
}

proof fn lemma_pow256_mono(a: nat, b: nat)
    requires
        a <= b,
    ensures
        pow256(a) <= pow256(b),
    decreases b,
{
    if a < b && b > 0 {
        lemma_pow256_mono(a, (b - 1) as nat);
        assert(pow256((b - 1) as nat) <= 256 * pow256((b - 1) as nat)) by (nonlinear_arith)
            requires
                pow256((b - 1) as nat) >= 0,
        ;
    }
}

proof fn lemma_pow256_16()
    ensures
        pow256(16) == 0x100000000000000000000000000000000,
{
    reveal_with_fuel(pow256, 17);
}

/// Reading n bytes at pos: the bytes and the position after them.
pub open spec fn spec_read_bytes(s: Seq<u8>, pos: int, n: int) -> Option<(Seq<u8>, int)> {
    if 0 <= pos && 0 <= n && pos + n <= s.len() {
        Some((s.subrange(pos, pos + n), pos + n))
    } else {
        None
    }
}

/// Reading an n-byte little-endian value at pos.
pub open spec fn spec_read_le(s: Seq<u8>, pos: int, n: int) -> Option<(nat, int)> {
    match spec_read_bytes(s, pos, n) {
        Some((b, p)) => Some((spec_le_value(b), p)),
        None => None,
    }
}

/// Reading a compact-encoded unsigned value at pos.  The low two bits of
/// the first byte select the width: the byte itself, two bytes, four
/// bytes, or a count of following bytes; values wider than eight bytes
/// are not read.
pub open spec fn spec_read_compact(s: Seq<u8>, pos: int) -> Option<(nat, int)> {
    if 0 <= pos < s.len() {
        let b = s[pos];
        let mode = b % 4;
        if mode == 0 {
            Some(((b / 4) as nat, pos + 1))
        } else if mode == 1 {
            match spec_read_le(s, pos, 2) {
                Some((v, p)) => Some((v / 4, p)),
                None => None,
            }
        } else if mode == 2 {
            match spec_read_le(s, pos, 4) {
                Some((v, p)) => Some((v / 4, p)),
                None => None,
            }
        } else {
            let count = b / 4 + 4;
            if count <= 8 {
                spec_read_le(s, pos + 1, count as int)
            } else {
                None
            }
        }
    } else {
        None
    }
}

/// Reads an n-byte little-endian value.
fn read_le(data: &[u8], pos: usize, n: usize) -> (r: Option<(u128, usize)>)
    requires
        n <= 16,
    ensures
        r is Some <==> spec_read_le(data@, pos as int, n as int) is Some,
        r matches Some((v, p)) ==> spec_read_le(data@, pos as int, n as int) == Some(
            (v as nat, p as int),
        ),
{
    let len = data.len();
    if pos > len || len - pos < n {
        return None;
    }
    let mut acc: u128 = 0;
    let mut k = n;
    proof {
        assert(data@.subrange(pos + n, pos + n) =~= Seq::<u8>::empty());
    }
    while k > 0
        invariant
            n <= 16,
            k <= n,
            len == data@.len(),
            pos + n <= len,
            acc == spec_le_value(data@.subrange(pos + k, pos + n)),
        decreases k,
    {
        k = k - 1;
        let ghost tail = data@.subrange(pos + k + 1, pos + n);
        let b = data[pos + k];
        proof {
            lemma_le_value_bound(tail);
            lemma_pow256_mono(tail.len() as nat, 15);
            lemma_pow256_16();
            assert(256 * spec_le_value(tail) <= 256 * (pow256(15) - 1)) by (nonlinear_arith)
                requires
                    spec_le_value(tail) <= pow256(15) - 1,
            ;
            assert(256 * pow256(15) == pow256(16));
        }
        acc = (b as u128) + 256 * acc;
        proof {
            let cur = data@.subrange(pos + k, pos + n);
            assert(cur[0] == b);
            assert(cur.drop_first() =~= tail);
        }
    }
    proof {
        assert(data@.subrange(pos as int, pos + n) == data@.subrange(pos + k, pos + n));
    }
    Some((acc, pos + n))
}

/// Reads a compact-encoded unsigned value of at most eight bytes.
pub(crate) fn read_compact(data: &[u8], pos: usize) -> (r: Option<(u64, usize)>)
    ensures
        r is Some <==> spec_read_compact(data@, pos as int) is Some,
        r matches Some((v, p)) ==> spec_read_compact(data@, pos as int) == Some(
            (v as nat, p as int),
        ),
{
    if pos >= data.len() {
        return None;
    }
    let b = data[pos];
    let mode = b % 4;
    if mode == 0 {
        Some(((b / 4) as u64, pos + 1))
    } else if mode == 1 {
        match read_le(data, pos, 2) {
            Some((v, p)) => {
                proof {
                    lemma_le_value_bound(data@.subrange(pos as int, pos + 2));
                    reveal_with_fuel(pow256, 3);
                }
                Some(((v / 4) as u64, p))
            },
            None => None,
        }
    } else if mode == 2 {
        match read_le(data, pos, 4) {
            Some((v, p)) => {
                proof {
                    lemma_le_value_bound(data@.subrange(pos as int, pos + 4));
                    reveal_with_fuel(pow256, 5);
                }
                Some(((v / 4) as u64, p))
            },
            None => None,
        }
    } else {
        let count = b / 4 + 4;
        if count <= 8 {
            match read_le(data, pos + 1, count as usize) {
                Some((v, p)) => {
                    proof {
                        let bytes = data@.subrange(pos + 1, pos + 1 + count as int);
                        lemma_le_value_bound(bytes);
                        lemma_pow256_mono(bytes.len() as nat, 8);
                        assert(pow256(8) == 0x10000000000000000) by {
                            reveal_with_fuel(pow256, 9);
                        }
                    }
                    Some((v as u64, p))
                },
                None => None,
            }
        } else {
            None
        }
    }
}

/// Reads n bytes into an owned buffer.
fn read_vec(data: &[u8], pos: usize, n: usize) -> (r: Option<(Vec<u8>, usize)>)
    ensures
        r is Some <==> spec_read_bytes(data@, pos as int, n as int) is Some,
        r matches Some((b, p)) ==> spec_read_bytes(data@, pos as int, n as int) == Some(
            (b@, p as int),
        ),
{
    let len = data.len();
    if pos > len || len - pos < n {
        return None;
    }
    let mut b: Vec<u8> = Vec::new();
    for i in 0..n
        invariant
            len == data@.len(),
            pos + n <= len,
            b@.len() == i,
            forall|j: int| 0 <= j < i ==> b@[j] == data@[pos + j],
    {
        b.push(data[pos + i]);
    }
    proof {
        assert(b@ =~= data@.subrange(pos as int, pos + n));
    }
    Some((b, pos + n))
}

/// Reads a 32-byte hash.
fn read_hash(data: &[u8], pos: usize) -> (r: Option<(Hash256, usize)>)
    ensures
        r is Some <==> spec_read_bytes(data@, pos as int, 32) is Some,
        r matches Some((h, p)) ==> spec_read_bytes(data@, pos as int, 32) == Some((h@, p as int)),
{
    let len = data.len();
    if pos > len || len - pos < 32 {
        return None;
    }
    let mut bytes: [u8; 32] = [0u8; 32];
    for i in 0..32usize
        invariant
            len == data@.len(),
            pos + 32 <= len,
            forall|j: int| 0 <= j < i ==> bytes@[j] == data@[pos + j],
    {
        bytes[i] = data[pos + i];
    }
    proof {
        assert(bytes@ =~= data@.subrange(pos as int, pos + 32));
    }
    Some((Hash256 { bytes }, pos + 32))
}

/// Reading a message at pos: a tag byte, then either a compact-prefixed
/// byte string or a 32-byte asset id with a 16-byte amount.
pub open spec fn spec_parse_message(s: Seq<u8>, pos: int) -> Option<(SpecMessage, int)> {
    if 0 <= pos < s.len() {
        let tag = s[pos];
        if tag == 0 {
            match spec_read_compact(s, pos + 1) {
                Some((len, p1)) => match spec_read_bytes(s, p1, len as int) {
                    Some((b, p2)) => Some((SpecMessage::ArbitraryMessage(b), p2)),
                    None => None,
                },
                None => None,
            }
        } else if tag == 1 {
            match spec_read_bytes(s, pos + 1, 32) {
                Some((asset, p1)) => match spec_read_le(s, p1, 16) {
                    Some((amount, p2)) => Some(
                        (SpecMessage::FungibleToken { asset_id: asset, amount: amount as u128 }, p2),
                    ),
                    None => None,
                },
                None => None,
            }
        } else {
            None
        }
    } else {
        None
    }
}

fn parse_message(data: &[u8], pos: usize) -> (r: Option<(Message, usize)>)
    ensures
        r is Some <==> spec_parse_message(data@, pos as int) is Some,
        r matches Some((m, p)) ==> spec_parse_message(data@, pos as int) matches Some((sm, sp))
            && m@ == sm && p == sp,
{
    let len = data.len();
    if pos >= len {
        return None;
    }
    let tag = data[pos];
    if tag == 0 {
        match read_compact(data, pos + 1) {
            Some((n, p1)) => {
                if n > (len - p1) as u64 {
                    proof {
                        assert(spec_read_bytes(data@, p1 as int, n as int) is None);
                    }
                    None
                } else {
                    match read_vec(data, p1, n as usize) {
                        Some((b, p2)) => Some((Message::ArbitraryMessage(b), p2)),
                        None => None,
                    }
                }
            },
            None => None,
        }
    } else if tag == 1 {
        match read_hash(data, pos + 1) {
            Some((asset, p1)) => match read_le(data, p1, 16) {
                Some((amount, p2)) => {
                    proof {
                        lemma_le_value_bound(data@.subrange(p1 as int, p1 + 16));
                        lemma_pow256_16();
                    }
                    Some((Message::FungibleToken { asset_id: asset, amount: amount }, p2))
                },
                None => None,
            },
            None => None,
        }
    } else {
        None
    }
}

/// Reading an outbound call's payload: a message, a 32-byte recipient and
/// a four-byte domain.
pub open spec fn spec_parse_send_message(s: Seq<u8>, pos: int) -> Option<(
    crate::types::SpecSendMessage,
    int,
)> {
    match spec_parse_message(s, pos) {
        Some((m, p1)) => match spec_read_bytes(s, p1, 32) {
            Some((to, p2)) => match spec_read_le(s, p2, 4) {
                Some((domain, p3)) => Some(
                    (
                        crate::types::SpecSendMessage {
                            message: m,
                            to: to,
                            domain: domain as u32,
                        },
                        p3,
                    ),
                ),
                None => None,
            },
            None => None,
        },
        None => None,
    }
}

/// Reads an outbound call's payload; bytes past the payload are left alone.
pub fn parse_send_message_call(data: &[u8], pos: usize) -> (r: Option<(SendMessage, usize)>)
    ensures
        r is Some <==> spec_parse_send_message(data@, pos as int) is Some,
        r matches Some((m, p)) ==> spec_parse_send_message(data@, pos as int) matches Some(
            (sm, sp),
        ) && m@ == sm && p == sp,
{
    match parse_message(data, pos) {
        Some((m, p1)) => match read_hash(data, p1) {
            Some((to, p2)) => match read_le(data, p2, 4) {
                Some((domain, p3)) => {
                    proof {
                        lemma_le_value_bound(data@.subrange(p2 as int, p2 + 4));
                        reveal_with_fuel(pow256, 5);
                    }
                    Some((SendMessage { message: m, to, domain: domain as u32 }, p3))
                },
                None => None,
            },
            None => None,
        },
        None => None,
    }
}

/// Reading `count` compact-prefixed byte strings in order.
pub open spec fn spec_parse_byte_vecs(s: Seq<u8>, pos: int, count: nat) -> Option<(
    Seq<Seq<u8>>,
    int,
)>
    decreases count,
{
    if count == 0 {
        Some((Seq::<Seq<u8>>::empty(), pos))
    } else {
        match spec_read_compact(s, pos) {
            Some((len, p1)) => match spec_read_bytes(s, p1, len as int) {
                Some((b, p2)) => match spec_parse_byte_vecs(s, p2, (count - 1) as nat) {
                    Some((rest, p3)) => Some((seq![b] + rest, p3)),
                    None => None,
                },
                None => None,
            },
            None => None,
        }
    }
}

fn parse_byte_vecs(data: &[u8], pos: usize, count: u64) -> (r: Option<(Vec<Vec<u8>>, usize)>)
    ensures
        r is Some <==> spec_parse_byte_vecs(data@, pos as int, count as nat) is Some,
        r matches Some((items, p)) ==> spec_parse_byte_vecs(data@, pos as int, count as nat)
            matches Some((sitems, sp)) && items.deep_view() == sitems && p == sp,
{
    let mut items: Vec<Vec<u8>> = Vec::new();
    let mut cur = pos;
    let mut k: u64 = 0;
    while k < count
        invariant
            k <= count,
            items@.len() == k,
            spec_parse_byte_vecs(data@, pos as int, count as nat) == (
            match spec_parse_byte_vecs(data@, cur as int, (count - k) as nat) {
                Some((rest, p)) => Some((items.deep_view() + rest, p)),
                None => None::<(Seq<Seq<u8>>, int)>,
            }),
        decreases count - k,
    {
        let ghost items0 = items.deep_view();
        let ghost cur0 = cur as int;
        let ghost crem = (count - k) as nat;
        let len = data.len();
        match read_compact(data, cur) {
            Some((n, p1)) => {
                if n > (len - p1) as u64 {
                    proof {
                        assert(spec_read_bytes(data@, p1 as int, n as int) is None);
                    }
                    return None;
                }
                match read_vec(data, p1, n as usize) {
                    Some((b, p2)) => {
                        let ghost bview = b@;
                        let ghost bdeep = b.deep_view();
                        items.push(b);
                        cur = p2;
                        k = k + 1;
                        proof {
                            assert(bdeep =~= bview);
                            assert(items.deep_view() =~= items0.push(bview)) by {
                                assert forall|j: int|
                                    0 <= j < items@.len() implies items.deep_view()[j]
                                    == items0.push(bview)[j] by {
                                    if j == items@.len() - 1 {
                                        assert(items@[j].deep_view() == bdeep);
                                    }
                                }
                            }
                            if spec_parse_byte_vecs(data@, cur as int, (count - k) as nat)
                                is Some {
                                let (rest, p) = spec_parse_byte_vecs(
                                    data@,
                                    cur as int,
                                    (count - k) as nat,
                                ).unwrap();
                                assert(spec_parse_byte_vecs(data@, cur0, crem) == Some(
                                    (seq![bview] + rest, p),
                                ));
                                assert(items0 + (seq![bview] + rest) =~= items.deep_view() + rest);
                            } else {
                                assert(spec_parse_byte_vecs(data@, cur0, crem) is None);
                            }
                        }
                    },
                    None => {
                        return None;
                    },
                }
            },
            None => {
                return None;
            },
        }
    }
    proof {
        assert(spec_parse_byte_vecs(data@, cur as int, 0) == Some(
            (Seq::<Seq<u8>>::empty(), cur as int),
        ));
        assert(items.deep_view() + Seq::<Seq<u8>>::empty() =~= items.deep_view());
    }
    Some((items, cur))
}

/// Reading an inbound call's payload: an eight-byte slot, an addressed
/// message, and the two proof lists.
pub open spec fn spec_parse_execute(s: Seq<u8>, pos: int) -> Option<(
    crate::types::SpecExecute,
    int,
)> {
    match spec_read_le(s, pos, 8) {
        Some((slot, p1)) => match spec_parse_message(s, p1) {
            Some((m, p2)) => match spec_read_bytes(s, p2, 32) {
                Some((from, p3)) => match spec_read_bytes(s, p3, 32) {
                    Some((to, p4)) => match spec_read_le(s, p4, 4) {
                        Some((origin, p5)) => match spec_read_le(s, p5, 4) {
                            Some((dest, p6)) => match spec_read_le(s, p6, 8) {
                                Some((mid, p7)) => match spec_read_compact(s, p7) {
                                    Some((ac, p8)) => match spec_parse_byte_vecs(s, p8, ac) {
                                        Some((account_proof, p9)) => match spec_read_compact(
                                            s,
                                            p9,
                                        ) {
                                            Some((sc, p10)) => match spec_parse_byte_vecs(
                                                s,
                                                p10,
                                                sc,
                                            ) {
                                                Some((storage_proof, p11)) => Some(
                                                    (
                                                        crate::types::SpecExecute {
                                                            slot: slot as u64,
                                                            addr_message:
                                                                crate::types::SpecAddressedMessage {
                                                                message: m,
                                                                from: from,
                                                                to: to,
                                                                origin_domain: origin as u32,
                                                                destination_domain: dest as u32,
                                                                id: mid as u64,
                                                            },
                                                            account_proof: account_proof,
                                                            storage_proof: storage_proof,
                                                        },
                                                        p11,
                                                    ),
                                                ),
                                                None => None,
                                            },
                                            None => None,
                                        },
                                        None => None,
                                    },
                                    None => None,
                                },
                                None => None,
                            },
                            None => None,
                        },
                        None => None,
                    },
                    None => None,
                },
                None => None,
            },
            None => None,
        },
        None => None,
    }
}

/// Reads an inbound call's payload; bytes past the payload are left alone.
pub fn parse_execute_call(data: &[u8], pos: usize) -> (r: Option<(Execute, usize)>)
    ensures
        r is Some <==> spec_parse_execute(data@, pos as int) is Some,
        r matches Some((e, p)) ==> spec_parse_execute(data@, pos as int) matches Some((se, sp))
            && e@ == se && p == sp,
{
    let slot = match read_le(data, pos, 8) {
        Some((v, p)) => {
            proof {
                lemma_le_value_bound(data@.subrange(pos as int, pos + 8));
                reveal_with_fuel(pow256, 9);
            }
            (v as u64, p)
        },
        None => {
            return None;
        },
    };
    let (slot, p1) = slot;
    let m = match parse_message(data, p1) {
        Some(x) => x,
        None => {
            return None;
        },
    };
    let (m, p2) = m;
    let from = match read_hash(data, p2) {
        Some(x) => x,
        None => {
            return None;
        },
    };
    let (from, p3) = from;
    let to = match read_hash(data, p3) {
        Some(x) => x,
        None => {
            return None;
        },
    };
    let (to, p4) = to;
    let origin = match read_le(data, p4, 4) {
        Some((v, p)) => {
            proof {
                lemma_le_value_bound(data@.subrange(p4 as int, p4 + 4));
                reveal_with_fuel(pow256, 5);
            }
            (v as u32, p)
        },
        None => {
            return None;
        },
    };
    let (origin, p5) = origin;
    let dest = match read_le(data, p5, 4) {
        Some((v, p)) => {
            proof {
                lemma_le_value_bound(data@.subrange(p5 as int, p5 + 4));
                reveal_with_fuel(pow256, 5);
            }
            (v as u32, p)
        },
        None => {
            return None;
        },
    };
    let (dest, p6) = dest;
    let mid = match read_le(data, p6, 8) {
        Some((v, p)) => {
            proof {
                lemma_le_value_bound(data@.subrange(p6 as int, p6 + 8));
                reveal_with_fuel(pow256, 9);
            }
            (v as u64, p)
        },
        None => {
            return None;
        },
    };
    let (mid, p7) = mid;
    let ac = match read_compact(data, p7) {
        Some(x) => x,
        None => {
            return None;
        },
    };
    let (ac, p8) = ac;
    let account_proof = match parse_byte_vecs(data, p8, ac) {
        Some(x) => x,
        None => {
            return None;
        },
    };
    let (account_proof, p9) = account_proof;
    let sc = match read_compact(data, p9) {
        Some(x) => x,
        None => {
            return None;
        },
    };
    let (sc, p10) = sc;
    let storage_proof = match parse_byte_vecs(data, p10, sc) {
        Some(x) => x,
        None => {
            return None;
        },
    };
    let (storage_proof, p11) = storage_proof;
    Some(
        (
            Execute {
                slot,
                addr_message: AddressedMessage {
                    message: m,
                    from,
                    to,
                    origin_domain: origin,
                    destination_domain: dest,
                    id: mid,
                },
                account_proof,
                storage_proof,
            },
            p11,
        ),
    )
}

/// Skipping the signer field of a proxy call: a tag byte, then an account
/// id, an index, raw bytes, or a shorter address.
pub open spec fn spec_skip_multiaddress(s: Seq<u8>, pos: int) -> Option<int> {
    if 0 <= pos < s.len() {
        let tag = s[pos];
        if tag == 0 {
            if pos + 33 <= s.len() {
                Some(pos + 33)
            } else {
                None
            }
        } else if tag == 1 {
            match spec_read_compact(s, pos + 1) {
                Some((_, p)) => Some(p),
                None => None,
            }
        } else if tag == 2 {
            match spec_read_compact(s, pos + 1) {
                Some((len, p)) => if p + len <= s.len() {
                    Some(p + len)
                } else {
                    None
                },
                None => None,
            }
        } else if tag == 3 {
            if pos + 33 <= s.len() {
                Some(pos + 33)
            } else {
                None
            }
        } else if tag == 4 {
            if pos + 21 <= s.len() {
                Some(pos + 21)
            } else {
                None
            }
        } else {
            None
        }
    } else {
        None
    }
}

fn skip_multiaddress(data: &[u8], pos: usize) -> (r: Option<usize>)
    ensures
        r is Some <==> spec_skip_multiaddress(data@, pos as int) is Some,
        r matches Some(p) ==> spec_skip_multiaddress(data@, pos as int) == Some(p as int) && pos
            < p <= data@.len(),
{
    let len = data.len();
    if pos >= len {
        return None;
    }
    let tag = data[pos];
    if tag == 0 || tag == 3 {
        if len - pos >= 33 {
            Some(pos + 33)
        } else {
            None
        }
    } else if tag == 1 {
        match read_compact(data, pos + 1) {
            Some((_, p)) => Some(p),
            None => None,
        }
    } else if tag == 2 {
        match read_compact(data, pos + 1) {
            Some((n, p)) => {
                if n <= (len - p) as u64 {
                    Some(p + n as usize)
                } else {
                    None
                }
            },
            None => None,
        }
    } else if tag == 4 {
        if len - pos >= 21 {
            Some(pos + 21)
        } else {
            None
        }
    } else {
        None
    }
}

/// Skipping the multisig fields in front of the wrapped call: a two-byte
/// threshold, the other signatories, and an optional timepoint.
pub open spec fn spec_skip_multisig_prefix(s: Seq<u8>, pos: int) -> Option<int> {
    match spec_read_bytes(s, pos, 2) {
        Some((_, p1)) => match spec_read_compact(s, p1) {
            Some((count, p2)) => if p2 + 32 * count <= s.len() {
                let p3 = p2 + 32 * count;
                if p3 < s.len() {
                    if s[p3] == 0 {
                        Some(p3 + 1)
                    } else if s[p3] == 1 {
                        if p3 + 9 <= s.len() {
                            Some(p3 + 9)
                        } else {
                            None
                        }
                    } else {
                        None
                    }
                } else {
                    None
                }
            } else {
                None
            },
            None => None,
        },
        None => None,
    }
}

fn skip_multisig_prefix(data: &[u8], pos: usize) -> (r: Option<usize>)
    ensures
        r is Some <==> spec_skip_multisig_prefix(data@, pos as int) is Some,
        r matches Some(p) ==> spec_skip_multisig_prefix(data@, pos as int) == Some(p as int)
            && pos < p <= data@.len(),
{
    let len = data.len();
    if pos > len || len - pos < 2 {
        return None;
    }
    let p1 = pos + 2;
    match read_compact(data, p1) {
        Some((count, p2)) => {
            if count > ((len - p2) / 32) as u64 {
                proof {
                    assert(32 * (count as nat) > data@.len() - p2);
                }
                return None;
            }
            let p3 = p2 + 32 * (count as usize);
            if p3 >= len {
                return None;
            }
            let tag = data[p3];
            if tag == 0 {
                Some(p3 + 1)
            } else if tag == 1 {
                if len - p3 >= 9 {
                    Some(p3 + 9)
                } else {
                    None
                }
            } else {
                None
            }
        },
        None => None,
    }
}

/// Skipping the proxy fields in front of the wrapped call: the delegator's
/// address and an optional proxy type.
pub open spec fn spec_skip_proxy_prefix(s: Seq<u8>, pos: int) -> Option<int> {
    match spec_skip_multiaddress(s, pos) {
        Some(p1) => if p1 < s.len() {
            if s[p1] == 0 {
                Some(p1 + 1)
            } else if s[p1] == 1 {
                if p1 + 2 <= s.len() {
                    Some(p1 + 2)
                } else {
                    None
                }
            } else {
                None
            }
        } else {
            None
        },
        None => None,
    }
}

fn skip_proxy_prefix(data: &[u8], pos: usize) -> (r: Option<usize>)
    ensures
        r is Some <==> spec_skip_proxy_prefix(data@, pos as int) is Some,
        r matches Some(p) ==> spec_skip_proxy_prefix(data@, pos as int) == Some(p as int) && pos
            < p <= data@.len(),
{
    let len = data.len();
    match skip_multiaddress(data, pos) {
        Some(p1) => {
            if p1 >= len {
                return None;
            }
            let tag = data[p1];
            if tag == 0 {
                Some(p1 + 1)
            } else if tag == 1 {
                if len - p1 >= 2 {
                    Some(p1 + 2)
                } else {
                    None
                }
            } else {
                None
            }
        },
        None => None,
    }
}

/// Decoding one call: the two bridge calls are read whole; a multisig or
/// proxy wrapper is skipped and the wrapped call read in its place, with
/// the wrapping noted.  A multisig whose fields do not decode wraps some
/// unrelated call and yields nothing; a proxy that does not decode is an
/// error; an unrecognized header yields nothing.
pub open spec fn spec_parse_call(
    s: Seq<u8>,
    pos: int,
    pallet_id: u8,
    variant_id: u8,
    wrapped: Wrapped,
) -> Result<Option<(SpecCall, Wrapped)>, DecodeError>
    decreases s.len() - pos,
{
    if pallet_id == VECTOR_PALLET_ID && variant_id == SEND_MESSAGE_VARIANT_ID {
        match spec_parse_send_message(s, pos) {
            Some((m, _)) => Ok(Some((SpecCall::Send(m), wrapped))),
            None => Err(DecodeError::SendMessage),
        }
    } else if pallet_id == VECTOR_PALLET_ID && variant_id == EXECUTE_VARIANT_ID {
        match spec_parse_execute(s, pos) {
            Some((e, _)) => Ok(Some((SpecCall::Execute(e), wrapped))),
            None => Err(DecodeError::Execute),
        }
    } else if pallet_id == MULTISIG_PALLET_ID && variant_id == AS_MULTI_VARIANT_ID {
        match spec_skip_multisig_prefix(s, pos) {
            Some(p) => if p + 2 <= s.len() {
                spec_parse_call(
                    s,
                    p + 2,
                    s[p],
                    s[p + 1],
                    Wrapped { inside_multisig: true, inside_proxy: wrapped.inside_proxy },
                )
            } else {
                Ok(None)
            },
            None => Ok(None),
        }
    } else if pallet_id == PROXY_PALLET_ID && variant_id == PROXY_VARIANT_ID {
        match spec_skip_proxy_prefix(s, pos) {
            Some(p) => if p + 2 <= s.len() {
                spec_parse_call(
                    s,
                    p + 2,
                    s[p],
                    s[p + 1],
                    Wrapped { inside_multisig: wrapped.inside_multisig, inside_proxy: true },
                )
            } else {
                Err(DecodeError::Proxy)
            },
            None => Err(DecodeError::Proxy),
        }
    } else {
        Ok(None)
    }
}

/// How an executable decode result corresponds to the specified one.
pub open spec fn decode_result_matches(
    r: Result<Option<(SendMsgOrExecute, Wrapped)>, DecodeError>,
    s: Result<Option<(SpecCall, Wrapped)>, DecodeError>,
) -> bool {
    match (r, s) {
        (Ok(None), Ok(None)) => true,
        (Ok(Some((c, w))), Ok(Some((sc, sw)))) => c@ == sc && w == sw,
        (Err(e), Err(se)) => e == se,
        _ => false,
    }
}

/// Decodes one call, unwrapping multisig and proxy wrappers.
pub fn parse_extrinsic_call(
    data: &[u8],
    pos: usize,
    pallet_id: u8,
    variant_id: u8,
    wrapped: Wrapped,
) -> (r: Result<Option<(SendMsgOrExecute, Wrapped)>, DecodeError>)
    ensures
        decode_result_matches(
            r,
            spec_parse_call(data@, pos as int, pallet_id, variant_id, wrapped),
        ),
    decreases data@.len() - pos,
{
    if pallet_id == VECTOR_PALLET_ID && variant_id == SEND_MESSAGE_VARIANT_ID {
        match parse_send_message_call(data, pos) {
            Some((m, _)) => Ok(Some((SendMsgOrExecute::Send(m), wrapped))),
            None => Err(DecodeError::SendMessage),
        }
    } else if pallet_id == VECTOR_PALLET_ID && variant_id == EXECUTE_VARIANT_ID {
        match parse_execute_call(data, pos) {
            Some((e, _)) => Ok(Some((SendMsgOrExecute::Execute(e), wrapped))),
            None => Err(DecodeError::Execute),
        }
    } else if pallet_id == MULTISIG_PALLET_ID && variant_id == AS_MULTI_VARIANT_ID {
        match skip_multisig_prefix(data, pos) {
            Some(p) => {
                if data.len() - p >= 2 {
                    let inner = Wrapped {
                        inside_multisig: true,
                        inside_proxy: wrapped.inside_proxy,
                    };
                    parse_extrinsic_call(data, p + 2, data[p], data[p + 1], inner)
                } else {
                    Ok(None)
                }
            },
            None => Ok(None),
        }
    } else if pallet_id == PROXY_PALLET_ID && variant_id == PROXY_VARIANT_ID {
        match skip_proxy_prefix(data, pos) {
            Some(p) => {
                if data.len() - p >= 2 {
                    let inner = Wrapped {
                        inside_multisig: wrapped.inside_multisig,
                        inside_proxy: true,
                    };
                    parse_extrinsic_call(data, p + 2, data[p], data[p + 1], inner)
                } else {
                    Err(DecodeError::Proxy)
                }
            },
            None => Err(DecodeError::Proxy),
        }
    } else {
        Ok(None)
    }
}

/// A decoded bridge call together with the extrinsic it came from.  The
/// signer is absent for inherent and unsigned extrinsics.
pub struct Target {
    pub address: Option<MultiAddress>,
    pub ext_hash: Hash256,
    pub ext_index: u32,
    pub call: SendMsgOrExecute,
    pub wrapped: Wrapped,
}

pub struct SpecTarget {
    pub address: Option<SpecMultiAddress>,
    pub ext_hash: Seq<u8>,
    pub ext_index: u32,
    pub call: SpecCall,
    pub wrapped: Wrapped,
}

impl View for Target {
    type V = SpecTarget;

    open spec fn view(&self) -> SpecTarget {
        SpecTarget {
            address: match self.address {
                Some(a) => Some(a@),
                None => None,
            },
            ext_hash: self.ext_hash@,
            ext_index: self.ext_index,
            call: self.call@,
            wrapped: self.wrapped,
        }
    }
}

impl DeepView for Target {
    type V = SpecTarget;

    open spec fn deep_view(&self) -> SpecTarget {
        self.view()
    }
}

impl Target {
    pub fn new(
        address: Option<MultiAddress>,
        ext_hash: Hash256,
        ext_index: u32,
        call: SendMsgOrExecute,
        wrapped: Wrapped,
    ) -> (r: Self)
        ensures
            r.address == address,
            r.ext_hash == ext_hash,
            r.ext_index == ext_index,
            r.call == call,
            r.wrapped == wrapped,
    {
        Target { address, ext_hash, ext_index, call, wrapped }
    }

    /// Whether the call is an outbound fungible-token transfer.
    pub fn is_send_message_and_fungible(&self) -> (r: bool)
        ensures
            r == (self@.call matches SpecCall::Send(s) && s.message matches
                SpecMessage::FungibleToken { .. }),
    {
        match &self.call {
            SendMsgOrExecute::Send(x) => match x.message {
                Message::FungibleToken { .. } => true,
                _ => false,
            },
            _ => false,
        }
    }

    /// Whether the call is outbound.
    pub fn is_send_message(&self) -> (r: bool)
        ensures
            r == (self@.call matches SpecCall::Send(_)),
    {
        match &self.call {
            SendMsgOrExecute::Send(_) => true,
            _ => false,
        }
    }

    /// Whether the call is inbound.
    pub fn is_execute(&self) -> (r: bool)
        ensures
            r == (self@.call matches SpecCall::Execute(_)),
    {
        match &self.call {
            SendMsgOrExecute::Execute(_) => true,
            _ => false,
        }
    }
}

/// The default wrapping: not inside any wrapper.
pub open spec fn spec_unwrapped() -> Wrapped {
    Wrapped { inside_multisig: false, inside_proxy: false }
}

/// Decoding a list of filtered extrinsics, in order: extrinsics whose
/// call is no bridge call are dropped, an unsigned extrinsic keeps its
/// place with the signer omitted, and the first decode failure wins.
pub open spec fn spec_parse_transactions(list: Seq<SpecRawExtrinsic>) -> Result<
    Seq<SpecTarget>,
    DecodeError,
>
    decreases list.len(),
{
    if list.len() == 0 {
        Ok(Seq::<SpecTarget>::empty())
    } else {
        let ext = list[0];
        match spec_parse_call(ext.call_data, 0, ext.pallet_id, ext.variant_id, spec_unwrapped()) {
            Err(e) => Err(e),
            Ok(None) => spec_parse_transactions(list.drop_first()),
            Ok(Some((c, w))) => match spec_parse_transactions(list.drop_first()) {
                Ok(rest) => Ok(
                    seq![
                        SpecTarget {
                            address: ext.address,
                            ext_hash: ext.ext_hash,
                            ext_index: ext.ext_index,
                            call: c,
                            wrapped: w,
                        },
                    ] + rest,
                ),
                Err(e) => Err(e),
            },
        }
    }
}

/// Decodes the bridge calls of a block's filtered extrinsics.
#[verifier::rlimit(100)]
pub fn parse_transactions(list: &Vec<RawExtrinsic>) -> (r: Result<Vec<Target>, DecodeError>)
    ensures
        r is Ok <==> spec_parse_transactions(list.deep_view()) is Ok,
        r matches Ok(ts) ==> spec_parse_transactions(list.deep_view()) == Ok::<
            Seq<SpecTarget>,
            DecodeError,
        >(ts.deep_view()),
        r matches Err(e) ==> spec_parse_transactions(list.deep_view()) == Err::<
            Seq<SpecTarget>,
            DecodeError,
        >(e),
{
    let mut targets: Vec<Target> = Vec::new();
    let n = list.len();
    proof {
        assert(list.deep_view().skip(0) =~= list.deep_view());
        if spec_parse_transactions(list.deep_view()) is Ok {
            let rest = spec_parse_transactions(list.deep_view()).unwrap();
            assert(targets.deep_view() + rest =~= rest);
        }
    }
    for i in 0..n
        invariant
            n == list@.len(),
            spec_parse_transactions(list.deep_view()) == (
            match spec_parse_transactions(list.deep_view().skip(i as int)) {
                Ok(rest) => Ok::<Seq<SpecTarget>, DecodeError>(targets.deep_view() + rest),
                Err(e) => Err::<Seq<SpecTarget>, DecodeError>(e),
            }),
    {
        let ghost targets0 = targets.deep_view();
        let ghost suffix = list.deep_view().skip(i as int);
        proof {
            assert(suffix[0] == list.deep_view()[i as int]);
            assert(suffix.drop_first() =~= list.deep_view().skip(i + 1));
        }
        let ext = &list[i];
        let wrapped = Wrapped { inside_multisig: false, inside_proxy: false };
        match parse_extrinsic_call(
            ext.call_data.as_slice(),
            0,
            ext.pallet_id,
            ext.variant_id,
            wrapped,
        ) {
            Err(e) => {
                return Err(e);
            },
            Ok(None) => {},
            Ok(Some((call, w))) => {
                let t = Target::new(ext.address, ext.ext_hash, ext.ext_index, call, w);
                let ghost tview = t@;
                targets.push(t);
                proof {
                    assert(targets.deep_view() =~= targets0.push(tview)) by {
                        assert forall|j: int|
                            0 <= j < targets@.len() implies targets.deep_view()[j]
                            == targets0.push(tview)[j] by {}
                    }
                    if spec_parse_transactions(list.deep_view().skip(i + 1)) is Ok {
                        let rest = spec_parse_transactions(
                            list.deep_view().skip(i + 1),
                        ).unwrap();
                        assert(targets0 + (seq![tview] + rest) =~= targets.deep_view() + rest);
                    }
                }
            },
        }
    }
    proof {
        assert(list.deep_view().skip(n as int) =~= Seq::<SpecRawExtrinsic>::empty());
        assert(spec_parse_transactions(Seq::<SpecRawExtrinsic>::empty()) == Ok::<
            Seq<SpecTarget>,
            DecodeError,
        >(Seq::<SpecTarget>::empty()));
        assert(targets.deep_view() + Seq::<SpecTarget>::empty() =~= targets.deep_view());
    }
    Ok(targets)
}

} // verus!
