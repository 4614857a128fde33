//! Verified text encoders: `0x`-prefixed lowercase hex and decimal digits.

use vstd::prelude::*;

verus! {

/// The lowercase hex character of a nibble.
pub open spec fn spec_hex_char(d: u8) -> char
    recommends
        d < 16,
{
    if d < 10 {
        (48 + d) as char
    } else {
        (87 + d) as char
    }
}

/// The high nibble of a byte.
pub open spec fn spec_hi(b: u8) -> u8 {
    b / 16
}

/// The low nibble of a byte.
pub open spec fn spec_lo(b: u8) -> u8 {
    b % 16
}

/// Two lowercase hex characters for each byte, in order.
pub open spec fn spec_hex_bytes(s: Seq<u8>) -> Seq<char>
    decreases s.len(),
{
    if s.len() == 0 {
        Seq::<char>::empty()
    } else {
        seq![spec_hex_char(spec_hi(s[0])), spec_hex_char(spec_lo(s[0]))] + spec_hex_bytes(
            s.drop_first(),
        )
    }
}

/// The `0x`-prefixed lowercase hex rendering of a byte string.
pub open spec fn spec_hex_prefixed(s: Seq<u8>) -> Seq<char> {
    seq!['0', 'x'] + spec_hex_bytes(s)
}

proof fn lemma_hex_bytes_push(s: Seq<u8>, b: u8)
    ensures
        spec_hex_bytes(s.push(b)) == spec_hex_bytes(s) + seq![
            spec_hex_char(spec_hi(b)),
            spec_hex_char(spec_lo(b)),
        ],
    decreases s.len(),
{
    let pair_b = seq![spec_hex_char(spec_hi(b)), spec_hex_char(spec_lo(b))];
    if s.len() == 0 {
        assert(s.push(b)[0] == b);
        assert(s.push(b).drop_first() =~= Seq::<u8>::empty());
        assert(spec_hex_bytes(Seq::<u8>::empty()) == Seq::<char>::empty());
        assert(spec_hex_bytes(s.push(b)) == pair_b + Seq::<char>::empty());
        assert(pair_b + Seq::<char>::empty() =~= Seq::<char>::empty() + pair_b);
    } else {
        let pair_0 = seq![spec_hex_char(spec_hi(s[0])), spec_hex_char(spec_lo(s[0]))];
        assert(s.push(b)[0] == s[0]);
        assert(s.push(b).drop_first() =~= s.drop_first().push(b));
        lemma_hex_bytes_push(s.drop_first(), b);
        assert(spec_hex_bytes(s.push(b)) == pair_0 + spec_hex_bytes(s.drop_first().push(b)));
        assert(spec_hex_bytes(s) == pair_0 + spec_hex_bytes(s.drop_first()));
        assert(pair_0 + (spec_hex_bytes(s.drop_first()) + pair_b) =~= (pair_0 + spec_hex_bytes(
            s.drop_first(),
        )) + pair_b);
    }
}

/// The one-character string of a hex digit value.
fn hex_digit_str(d: u8) -> (r: &'static str)
    requires
        d < 16,
    ensures
        r@ == seq![spec_hex_char(d)],
{
    proof {
        reveal_strlit("0");
        reveal_strlit("1");
        reveal_strlit("2");
        reveal_strlit("3");
        reveal_strlit("4");
        reveal_strlit("5");
        reveal_strlit("6");
        reveal_strlit("7");
        reveal_strlit("8");
        reveal_strlit("9");
        reveal_strlit("a");
        reveal_strlit("b");
        reveal_strlit("c");
        reveal_strlit("d");
        reveal_strlit("e");
        reveal_strlit("f");
    }
    match d {
        0 => "0",
        1 => "1",
        2 => "2",
        3 => "3",
        4 => "4",
        5 => "5",
        6 => "6",
        7 => "7",
        8 => "8",
        9 => "9",
        10 => "a",
        11 => "b",
        12 => "c",
        13 => "d",
        14 => "e",
        _ => "f",
    }
}

/// Renders bytes as `0x`-prefixed lowercase hex, two digits per byte.
pub fn encode_prefixed(bytes: &[u8]) -> (r: String)
    ensures
        r@ == spec_hex_prefixed(bytes@),
{
    let mut s = String::new();
    proof {
        reveal_strlit("0x");
    }
    s.append("0x");
    assert(s@ =~= seq!['0', 'x'] + spec_hex_bytes(bytes@.subrange(0, 0)));
    let n = bytes.len();
    for i in 0..n
        invariant
            n == bytes@.len(),
            s@ == seq!['0', 'x'] + spec_hex_bytes(bytes@.subrange(0, i as int)),
    {
        let b = bytes[i];
        s.append(hex_digit_str(b / 16));
        s.append(hex_digit_str(b % 16));
        proof {
            assert(bytes@.subrange(0, i + 1) =~= bytes@.subrange(0, i as int).push(b));
            lemma_hex_bytes_push(bytes@.subrange(0, i as int), b);
        }
    }
    proof {
        assert(bytes@.subrange(0, n as int) =~= bytes@);
    }
    s
}

/// The decimal digit character of a value below ten.
pub open spec fn spec_dec_char(d: nat) -> char
    recommends
        d < 10,
{
    (48 + d) as char
}

/// The decimal rendering of a natural number, most significant digit first,
/// with no leading zeros (and `0` itself rendered as "0").
pub open spec fn spec_dec(n: nat) -> Seq<char>
    decreases n,
{
    if n < 10 {
        seq![spec_dec_char(n)]
    } else {
        spec_dec(n / 10).push(spec_dec_char(n % 10))
    }
}

/// The value a sequence of decimal digit characters denotes.
pub open spec fn spec_digits_value(s: Seq<char>) -> nat
    decreases s.len(),
{
    if s.len() == 0 {
        0
    } else {
        spec_digits_value(s.drop_last()) * 10 + (((s.last() as int - 48) % 10) as nat)
    }
}

/// Reading the decimal rendering back yields the value: the stored string
/// determines the number exactly.
pub proof fn lemma_dec_value_roundtrip(n: nat)
    ensures
        spec_digits_value(spec_dec(n)) == n,
    decreases n,
{
    if n < 10 {
        assert(spec_dec(n).drop_last() =~= Seq::<char>::empty());
        assert(spec_digits_value(Seq::<char>::empty()) == 0);
        assert(spec_dec(n).last() == spec_dec_char(n));
        assert(spec_dec_char(n) as int == 48 + n);
        assert((spec_dec_char(n) as int - 48) % 10 == n as int);
    } else {
        lemma_dec_value_roundtrip(n / 10);
        assert(spec_dec(n).drop_last() =~= spec_dec(n / 10));
        assert(spec_dec(n).last() == spec_dec_char(n % 10));
        assert(spec_dec_char(n % 10) as int == 48 + n % 10);
        assert((spec_dec_char(n % 10) as int - 48) % 10 == (n % 10) as int);
        assert((n / 10) * 10 + n % 10 == n) by (nonlinear_arith);
    }
}

/// The decimal rendering is injective.
pub proof fn lemma_dec_injective(a: nat, b: nat)
    requires
        spec_dec(a) == spec_dec(b),
    ensures
        a == b,
{
    lemma_dec_value_roundtrip(a);
    lemma_dec_value_roundtrip(b);
}

fn dec_digit_str(d: u128) -> (r: &'static str)
    requires
        d < 10,
    ensures
        r@ == seq![spec_dec_char(d as nat)],
{
    hex_digit_str(d as u8)
}

/// Renders a `u128` as its decimal digits.
pub fn u128_to_dec(n: u128) -> (r: String)
    ensures
        r@ == spec_dec(n as nat),
    decreases n,
{
    if n < 10 {
        let mut s = String::new();
        s.append(dec_digit_str(n));
        assert(s@ =~= spec_dec(n as nat));
        s
    } else {
        let mut s = u128_to_dec(n / 10);
        s.append(dec_digit_str(n % 10));
        assert(s@ =~= spec_dec(n as nat));
        s
    }
}

/// Renders a `u64` as its decimal digits.
pub fn u64_to_dec(n: u64) -> (r: String)
    ensures
        r@ == spec_dec(n as nat),
{
    u128_to_dec(n as u128)
}

/// Renders a `u32` as its decimal digits.
pub fn u32_to_dec(n: u32) -> (r: String)
    ensures
        r@ == spec_dec(n as nat),
{
    u128_to_dec(n as u128)
}

} // verus!
