//! Byte-order model: what number a byte sequence denotes, which bytes a
//! number produces, and the laws relating the two, together with verified
//! encode and decode routines shared by the reading and writing cursors.

use vstd::prelude::*;
use vstd::arithmetic::div_mod::lemma_fundamental_div_mod;
use vstd::arithmetic::div_mod::lemma_multiply_divide_lt;
use vstd::arithmetic::mul::lemma_mul_inequality;
use vstd::slice::slice_index_get;

verus! {

/// Byte order used to encode or decode one multi-byte value.
#[derive(Clone, Copy, Debug, PartialEq, Eq, Structural)]
pub enum Endianness {
    /// Most significant byte first.
    Big,
    /// Least significant byte first.
    Little,
}

/// 256 raised to `n`: the number of distinct values `n` bytes can hold.
pub open spec fn pow256(n: nat) -> nat
    decreases n,
{
    if n == 0 {
        1
    } else {
        256 * pow256((n - 1) as nat)
    }
}

/// The number a byte sequence denotes in little-endian order: the first
/// byte is the least significant.
pub open spec fn le_value(s: Seq<u8>) -> nat
    decreases s.len(),
{
    if s.len() == 0 {
        0
    } else {
        s.first() as nat + 256 * le_value(s.drop_first())
    }
}

/// The number a byte sequence denotes in big-endian order: the last byte
/// is the least significant.
pub open spec fn be_value(s: Seq<u8>) -> nat
    decreases s.len(),
{
    if s.len() == 0 {
        0
    } else {
        256 * be_value(s.drop_last()) + s.last() as nat
    }
}

/// The number a byte sequence denotes in the given byte order.
pub open spec fn value_of(endianness: Endianness, s: Seq<u8>) -> nat {
    match endianness {
        Endianness::Big => be_value(s),
        Endianness::Little => le_value(s),
    }
}

/// The `width` little-endian bytes of `v` (the low `8 * width` bits of `v`).
pub open spec fn le_bytes(v: nat, width: nat) -> Seq<u8>
    decreases width,
{
    if width == 0 {
        Seq::<u8>::empty()
    } else {
        seq![(v % 256) as u8] + le_bytes(v / 256, (width - 1) as nat)
    }
}

/// The `width` big-endian bytes of `v`.
pub open spec fn be_bytes(v: nat, width: nat) -> Seq<u8> {
    le_bytes(v, width).reverse()
}

/// The `width` bytes of `v` in the given byte order.
pub open spec fn bytes_of(endianness: Endianness, v: nat, width: nat) -> Seq<u8> {
    match endianness {
        Endianness::Big => be_bytes(v, width),
        Endianness::Little => le_bytes(v, width),
    }
}

/// The signed (two's-complement) reading of an unsigned value of `width` bytes.
pub open spec fn to_signed(v: nat, width: nat) -> int {
    if v < pow256(width) / 2 {
        v as int
    } else {
        v as int - pow256(width) as int
    }
}

/// The unsigned `width`-byte bit pattern (two's complement) of a signed value.
pub open spec fn to_unsigned(v: int, width: nat) -> nat {
    if v >= 0 {
        v as nat
    } else {
        (v + pow256(width)) as nat
    }
}

pub proof fn lemma_pow256_pos(n: nat)
    ensures
        pow256(n) >= 1,
    decreases n,
{
    if n > 0 {
        lemma_pow256_pos((n - 1) as nat);
    }
}

pub proof fn lemma_pow256_monotone(a: nat, b: nat)
    requires
        a <= b,
    ensures
        pow256(a) <= pow256(b),
    decreases b,
{
    if a < b {
        lemma_pow256_monotone(a, (b - 1) as nat);
        lemma_pow256_pos((b - 1) as nat);
    }
}

/// The concrete values of `pow256` for every width up to sixteen bytes.
pub proof fn lemma_pow256_values()
    ensures
        pow256(0) == 1,
        pow256(1) == 0x100,
        pow256(2) == 0x1_0000,
        pow256(3) == 0x100_0000,
        pow256(4) == 0x1_0000_0000,
        pow256(5) == 0x100_0000_0000,
        pow256(6) == 0x1_0000_0000_0000,
        pow256(7) == 0x100_0000_0000_0000,
        pow256(8) == 0x1_0000_0000_0000_0000,
        pow256(9) == 0x100_0000_0000_0000_0000,
        pow256(10) == 0x1_0000_0000_0000_0000_0000,
        pow256(11) == 0x100_0000_0000_0000_0000_0000,
        pow256(12) == 0x1_0000_0000_0000_0000_0000_0000,
        pow256(13) == 0x100_0000_0000_0000_0000_0000_0000,
        pow256(14) == 0x1_0000_0000_0000_0000_0000_0000_0000,
        pow256(15) == 0x100_0000_0000_0000_0000_0000_0000_0000,
        pow256(16) == 0x1_0000_0000_0000_0000_0000_0000_0000_0000,
{
    assert(pow256(0) == 1);
    assert(pow256(1) == 0x100);
    assert(pow256(2) == 0x1_0000);
    assert(pow256(3) == 0x100_0000);
    assert(pow256(4) == 0x1_0000_0000);
    assert(pow256(5) == 0x100_0000_0000);
    assert(pow256(6) == 0x1_0000_0000_0000);
    assert(pow256(7) == 0x100_0000_0000_0000);
    assert(pow256(8) == 0x1_0000_0000_0000_0000);
    assert(pow256(9) == 0x100_0000_0000_0000_0000);
    assert(pow256(10) == 0x1_0000_0000_0000_0000_0000);
    assert(pow256(11) == 0x100_0000_0000_0000_0000_0000);
    assert(pow256(12) == 0x1_0000_0000_0000_0000_0000_0000);
    assert(pow256(13) == 0x100_0000_0000_0000_0000_0000_0000);
    assert(pow256(14) == 0x1_0000_0000_0000_0000_0000_0000_0000);
    assert(pow256(15) == 0x100_0000_0000_0000_0000_0000_0000_0000);
    assert(pow256(16) == 0x1_0000_0000_0000_0000_0000_0000_0000_0000);
}

/// A sequence of `n` bytes read little-endian denotes a value below `pow256(n)`.
pub proof fn lemma_le_value_bound(s: Seq<u8>)
    ensures
        le_value(s) < pow256(s.len()),
    decreases s.len(),
{
    if s.len() > 0 {
        lemma_le_value_bound(s.drop_first());
        lemma_mul_inequality(
            le_value(s.drop_first()) as int,
            pow256((s.len() - 1) as nat) as int - 1,
            256,
        );
    }
}

/// A sequence of `n` bytes read big-endian denotes a value below `pow256(n)`.
pub proof fn lemma_be_value_bound(s: Seq<u8>)
    ensures
        be_value(s) < pow256(s.len()),
    decreases s.len(),
{
    if s.len() > 0 {
        lemma_be_value_bound(s.drop_last());
        lemma_mul_inequality(
            be_value(s.drop_last()) as int,
            pow256((s.len() - 1) as nat) as int - 1,
            256,
        );
    }
}

/// A sequence of `n` bytes denotes a value below `pow256(n)` in either byte order.
pub proof fn lemma_value_of_bound(endianness: Endianness, s: Seq<u8>)
    ensures
        value_of(endianness, s) < pow256(s.len()),
{
    match endianness {
        Endianness::Big => lemma_be_value_bound(s),
        Endianness::Little => lemma_le_value_bound(s),
    }
}

pub proof fn lemma_le_bytes_len(v: nat, width: nat)
    ensures
        le_bytes(v, width).len() == width,
    decreases width,
{
    if width > 0 {
        lemma_le_bytes_len(v / 256, (width - 1) as nat);
    }
}

/// Law: decoding the little-endian encoding of `v` gives back exactly `v`,
/// for every `v` that fits in `width` bytes.
pub proof fn lemma_le_round_trip(v: nat, width: nat)
    requires
        v < pow256(width),
    ensures
        le_bytes(v, width).len() == width,
        le_value(le_bytes(v, width)) == v,
    decreases width,
{
    lemma_le_bytes_len(v, width);
    if width == 0 {
    } else {
        let rest = le_bytes(v / 256, (width - 1) as nat);
        lemma_pow256_pos((width - 1) as nat);
        lemma_multiply_divide_lt(v as int, 256, pow256((width - 1) as nat) as int);
        lemma_le_round_trip(v / 256, (width - 1) as nat);
        let s = le_bytes(v, width);
        assert(s.first() == (v % 256) as u8);
        assert(s.drop_first() =~= rest);
        lemma_fundamental_div_mod(v as int, 256);
    }
}

proof fn lemma_be_is_reversed_le(s: Seq<u8>)
    ensures
        be_value(s) == le_value(s.reverse()),
    decreases s.len(),
{
    if s.len() == 0 {
        assert(s.reverse() =~= Seq::<u8>::empty());
    } else {
        lemma_be_is_reversed_le(s.drop_last());
        assert(s.reverse().first() == s.last());
        assert(s.reverse().drop_first() =~= s.drop_last().reverse());
    }
}

/// Law: the big-endian and little-endian readings of a byte sequence are
/// the readings of each other's reversal.
pub proof fn lemma_endian_reverse(s: Seq<u8>)
    ensures
        be_value(s) == le_value(s.reverse()),
        le_value(s) == be_value(s.reverse()),
{
    lemma_be_is_reversed_le(s);
    lemma_be_is_reversed_le(s.reverse());
    assert(s.reverse().reverse() =~= s);
}

/// Law: decoding the big-endian encoding of `v` gives back exactly `v`,
/// for every `v` that fits in `width` bytes.
pub proof fn lemma_be_round_trip(v: nat, width: nat)
    requires
        v < pow256(width),
    ensures
        be_bytes(v, width).len() == width,
        be_value(be_bytes(v, width)) == v,
{
    lemma_le_round_trip(v, width);
    lemma_endian_reverse(le_bytes(v, width));
}

/// Law: in either byte order, decoding the encoding of `v` gives back
/// exactly `v`, for every `v` that fits in `width` bytes.
pub proof fn lemma_unsigned_round_trip(endianness: Endianness, v: nat, width: nat)
    requires
        v < pow256(width),
    ensures
        bytes_of(endianness, v, width).len() == width,
        value_of(endianness, bytes_of(endianness, v, width)) == v,
{
    match endianness {
        Endianness::Big => lemma_be_round_trip(v, width),
        Endianness::Little => lemma_le_round_trip(v, width),
    }
}

/// Law: the signed reading of the `width`-byte bit pattern of `v` is `v`
/// itself, for every `v` a `width`-byte signed integer can hold.
pub proof fn lemma_signed_round_trip(v: int, width: nat)
    requires
        width >= 1,
        -((pow256(width) / 2) as int) <= v < (pow256(width) / 2) as int,
    ensures
        to_unsigned(v, width) < pow256(width),
        to_signed(to_unsigned(v, width), width) == v,
{
    lemma_pow256_pos((width - 1) as nat);
    let p = pow256((width - 1) as nat) as int;
    assert(pow256(width) == 256 * pow256((width - 1) as nat));
    assert((pow256(width) / 2) as int == 128 * p) by {
        vstd::arithmetic::div_mod::lemma_div_multiples_vanish(128 * p, 2);
    }
}

/// Law: in either byte order, the signed reading of the decoded encoding
/// of the bit pattern of `v` is `v` itself, for every `v` a `width`-byte
/// signed integer can hold.
pub proof fn lemma_signed_bytes_round_trip(endianness: Endianness, v: int, width: nat)
    requires
        width >= 1,
        -((pow256(width) / 2) as int) <= v < (pow256(width) / 2) as int,
    ensures
        bytes_of(endianness, to_unsigned(v, width), width).len() == width,
        to_signed(value_of(endianness, bytes_of(endianness, to_unsigned(v, width), width)), width)
            == v,
{
    lemma_signed_round_trip(v, width);
    lemma_unsigned_round_trip(endianness, to_unsigned(v, width), width);
}

/// Decodes at most sixteen big-endian bytes into the number they denote.
pub fn decode_be(data: &[u8]) -> (r: u128)
    requires
        data@.len() <= 16,
    ensures
        r as nat == be_value(data@),
{
    let len: usize = data.len();
    let mut acc: u128 = 0;
    let mut i: usize = 0;
    while i < len
        invariant
            i <= len,
            len == data@.len(),
            len <= 16,
            acc as nat == be_value(data@.subrange(0, i as int)),
        decreases len - i,
    {
        proof {
            lemma_be_value_bound(data@.subrange(0, i as int));
            lemma_pow256_monotone(data@.subrange(0, i as int).len(), 15);
            lemma_pow256_values();
            lemma_mul_inequality(acc as int, pow256(15) as int - 1, 256);
        }
        let b: u8 = *slice_index_get(data, i);
        acc = acc * 256 + (b as u128);
        proof {
            assert(data@.subrange(0, i as int + 1).drop_last() =~= data@.subrange(0, i as int));
            assert(data@.subrange(0, i as int + 1).last() == data@[i as int]);
        }
        i = i + 1;
    }
    proof {
        assert(data@.subrange(0, len as int) =~= data@);
    }
    acc
}

/// Decodes at most sixteen little-endian bytes into the number they denote.
pub fn decode_le(data: &[u8]) -> (r: u128)
    requires
        data@.len() <= 16,
    ensures
        r as nat == le_value(data@),
{
    let len: usize = data.len();
    let mut acc: u128 = 0;
    let mut i: usize = len;
    while i > 0
        invariant
            i <= len,
            len == data@.len(),
            len <= 16,
            acc as nat == le_value(data@.subrange(i as int, len as int)),
        decreases i,
    {
        proof {
            lemma_le_value_bound(data@.subrange(i as int, len as int));
            lemma_pow256_monotone(data@.subrange(i as int, len as int).len(), 15);
            lemma_pow256_values();
            lemma_mul_inequality(acc as int, pow256(15) as int - 1, 256);
        }
        i = i - 1;
        let b: u8 = *slice_index_get(data, i);
        acc = acc * 256 + (b as u128);
        proof {
            assert(data@.subrange(i as int, len as int).first() == data@[i as int]);
            assert(data@.subrange(i as int, len as int).drop_first() =~= data@.subrange(
                i as int + 1,
                len as int,
            ));
        }
    }
    proof {
        assert(data@.subrange(0, len as int) =~= data@);
    }
    acc
}

/// The `width` little-endian bytes of `value`, least significant first.
pub fn encode_le(value: u128, width: usize) -> (r: Vec<u8>)
    ensures
        r@ == le_bytes(value as nat, width as nat),
        r@.len() == width,
{
    let mut out: Vec<u8> = Vec::new();
    let mut cur: u128 = value;
    let mut i: usize = 0;
    while i < width
        invariant
            i <= width,
            out@.len() == i,
            le_bytes(value as nat, width as nat) == out@ + le_bytes(
                cur as nat,
                (width - i) as nat,
            ),
        decreases width - i,
    {
        let ghost pre_out = out@;
        let ghost pre_cur = cur as nat;
        let b: u8 = (cur % 256) as u8;
        out.push(b);
        cur = cur / 256;
        proof {
            assert(le_bytes(pre_cur, (width - i) as nat) == seq![(pre_cur % 256) as u8]
                + le_bytes(pre_cur / 256, (width - i - 1) as nat));
            assert(out@ =~= pre_out + seq![b]);
            assert((pre_out + seq![b]) + le_bytes(pre_cur / 256, (width - i - 1) as nat)
                =~= pre_out + (seq![(pre_cur % 256) as u8] + le_bytes(
                pre_cur / 256,
                (width - i - 1) as nat,
            )));
        }
        i = i + 1;
    }
    proof {
        assert(out@ + le_bytes(cur as nat, 0) =~= out@);
    }
    out
}

/// The `width` big-endian bytes of `value`, most significant first.
pub fn encode_be(value: u128, width: usize) -> (r: Vec<u8>)
    ensures
        r@ == be_bytes(value as nat, width as nat),
        r@.len() == width,
{
    let le: Vec<u8> = encode_le(value, width);
    let mut out: Vec<u8> = Vec::new();
    let mut i: usize = le.len();
    while i > 0
        invariant
            i <= le@.len(),
            out@ == le@.subrange(i as int, le@.len() as int).reverse(),
        decreases i,
    {
        i = i - 1;
        let b: u8 = le[i];
        out.push(b);
        proof {
            assert(out@ =~= le@.subrange(i as int, le@.len() as int).reverse());
        }
    }
    proof {
        assert(le@.subrange(0, le@.len() as int) =~= le@);
    }
    out
}

/// The two's-complement reading of one byte.
pub fn u8_to_i8(v: u8) -> (r: i8)
    ensures
        r as int == to_signed(v as nat, 1),
{
    proof {
        lemma_pow256_values();
    }
    if v < 0x80 {
        v as i8
    } else {
        -((u8::MAX - v) as i8) - 1
    }
}

/// The bit pattern of a signed byte.
pub fn i8_to_u8(v: i8) -> (r: u8)
    ensures
        r as nat == to_unsigned(v as int, 1),
{
    proof {
        lemma_pow256_values();
    }
    if v >= 0 {
        v as u8
    } else {
        u8::MAX - ((-(v + 1)) as u8)
    }
}

/// The two's-complement reading of a two-byte value.
pub fn u16_to_i16(v: u16) -> (r: i16)
    ensures
        r as int == to_signed(v as nat, 2),
{
    proof {
        lemma_pow256_values();
    }
    if v < 0x8000 {
        v as i16
    } else {
        -((u16::MAX - v) as i16) - 1
    }
}

/// The two-byte bit pattern of a signed value.
pub fn i16_to_u16(v: i16) -> (r: u16)
    ensures
        r as nat == to_unsigned(v as int, 2),
{
    proof {
        lemma_pow256_values();
    }
    if v >= 0 {
        v as u16
    } else {
        u16::MAX - ((-(v + 1)) as u16)
    }
}

/// The two's-complement reading of a four-byte value.
pub fn u32_to_i32(v: u32) -> (r: i32)
    ensures
        r as int == to_signed(v as nat, 4),
{
    proof {
        lemma_pow256_values();
    }
    if v < 0x8000_0000 {
        v as i32
    } else {
        -((u32::MAX - v) as i32) - 1
    }
}

/// The four-byte bit pattern of a signed value.
pub fn i32_to_u32(v: i32) -> (r: u32)
    ensures
        r as nat == to_unsigned(v as int, 4),
{
    proof {
        lemma_pow256_values();
    }
    if v >= 0 {
        v as u32
    } else {
        u32::MAX - ((-(v + 1)) as u32)
    }
}

/// The two's-complement reading of an eight-byte value.
pub fn u64_to_i64(v: u64) -> (r: i64)
    ensures
        r as int == to_signed(v as nat, 8),
{
    proof {
        lemma_pow256_values();
    }
    if v < 0x8000_0000_0000_0000 {
        v as i64
    } else {
        -((u64::MAX - v) as i64) - 1
    }
}

/// The eight-byte bit pattern of a signed value.
pub fn i64_to_u64(v: i64) -> (r: u64)
    ensures
        r as nat == to_unsigned(v as int, 8),
{
    proof {
        lemma_pow256_values();
    }
    if v >= 0 {
        v as u64
    } else {
        u64::MAX - ((-(v + 1)) as u64)
    }
}

/// The two's-complement reading of a sixteen-byte value.
pub fn u128_to_i128(v: u128) -> (r: i128)
    ensures
        r as int == to_signed(v as nat, 16),
{
    proof {
        lemma_pow256_values();
    }
    if v < 0x8000_0000_0000_0000_0000_0000_0000_0000 {
        v as i128
    } else {
        -((u128::MAX - v) as i128) - 1
    }
}

/// The sixteen-byte bit pattern of a signed value.
pub fn i128_to_u128(v: i128) -> (r: u128)
    ensures
        r as nat == to_unsigned(v as int, 16),
{
    proof {
        lemma_pow256_values();
    }
    if v >= 0 {
        v as u128
    } else {
        u128::MAX - ((-(v + 1)) as u128)
    }
}

} // verus!
