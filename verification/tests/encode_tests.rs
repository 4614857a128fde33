use avail_indexer::encode::{encode_prefixed, u128_to_dec, u32_to_dec, u64_to_dec};
use avail_indexer::types::make_id;

#[test]
fn hex_empty_is_bare_prefix() {
    assert_eq!(encode_prefixed(&[]), "0x");
}

#[test]
fn hex_two_digits_per_byte() {
    assert_eq!(encode_prefixed(&[0x00, 0x1f, 0xab]), "0x001fab");
}

#[test]
fn hex_lowercase() {
    assert_eq!(encode_prefixed(&[0xDE, 0xAD, 0xBE, 0xEF]), "0xdeadbeef");
}

#[test]
fn dec_zero() {
    assert_eq!(u128_to_dec(0), "0");
}

#[test]
fn dec_thousand() {
    assert_eq!(u128_to_dec(1000), "1000");
}

#[test]
fn dec_u128_max() {
    assert_eq!(u128_to_dec(u128::MAX), "340282366920938463463374607431768211455");
}

#[test]
fn dec_u64_and_u32() {
    assert_eq!(u64_to_dec(42), "42");
    assert_eq!(u32_to_dec(4294967295), "4294967295");
}

#[test]
fn id_packs_height_and_index() {
    let id = make_id(100, 2);
    assert_eq!(id, 429496729602u64);
    assert_eq!((id >> 32) as u32, 100);
    assert_eq!((id & 0xffff_ffff) as u32, 2);
}

#[test]
fn id_round_trips_at_extremes() {
    for (h, e) in [(0u32, 0u32), (u32::MAX, 0), (0, u32::MAX), (u32::MAX, u32::MAX)] {
        let id = make_id(h, e);
        assert_eq!((id >> 32) as u32, h);
        assert_eq!((id & 0xffff_ffff) as u32, e);
    }
}
