use in_out::Output;
use in_out::endian::Endianness;

#[test]
fn new_writer_is_empty() {
    let out = Output::new();
    assert_eq!(out.len(), 0);
    assert_eq!(out.as_slice(), &[][..]);
}

#[test]
fn mixed_order_writes_concatenate_in_call_order() {
    let mut out = Output::new();
    out.write_u16_be(1);
    out.write_u16_le(1);
    assert_eq!(out.as_slice(), &[0x00u8, 0x01, 0x01, 0x00][..]);
}

#[test]
fn slice_and_byte_writes_append_verbatim() {
    let mut out = Output::new();
    out.write_slice(&[0xDE, 0xAD]);
    out.write_u8(0xBE);
    out.write_i8(-1);
    out.write_slice(&[]);
    assert_eq!(out.as_slice(), &[0xDEu8, 0xAD, 0xBE, 0xFF][..]);
    assert_eq!(out.into_inner(), vec![0xDEu8, 0xAD, 0xBE, 0xFF]);
}

#[test]
fn length_is_the_sum_of_widths_written() {
    let mut out = Output::new();
    assert_eq!(out.len(), 0);
    out.write_u8(1);
    assert_eq!(out.len(), 1);
    out.write_i8(-1);
    assert_eq!(out.len(), 2);
    out.write_u16_be(1);
    assert_eq!(out.len(), 4);
    out.write_i16_le(-1);
    assert_eq!(out.len(), 6);
    out.write_u32_le(7);
    assert_eq!(out.len(), 10);
    out.write_i32_be(-7);
    assert_eq!(out.len(), 14);
    out.write_u64_be(7);
    assert_eq!(out.len(), 22);
    out.write_i64_le(-7);
    assert_eq!(out.len(), 30);
    out.write_u128_le(7);
    assert_eq!(out.len(), 46);
    out.write_i128_be(-7);
    assert_eq!(out.len(), 62);
    out.write_slice(&[1, 2, 3]);
    assert_eq!(out.len(), 65);
}

#[test]
fn big_endian_writes_most_significant_byte_first() {
    let mut out = Output::new();
    out.write_u32_be(0xDEAD_BEEF);
    assert_eq!(out.as_slice(), &[0xDEu8, 0xAD, 0xBE, 0xEF][..]);
}

#[test]
fn little_endian_writes_least_significant_byte_first() {
    let mut out = Output::new();
    out.write_u32_le(0xDEAD_BEEF);
    assert_eq!(out.as_slice(), &[0xEFu8, 0xBE, 0xAD, 0xDE][..]);
}

#[test]
fn signed_writes_use_twos_complement_bit_patterns() {
    let mut out = Output::new();
    out.write_i16_be(-2);
    assert_eq!(out.as_slice(), &[0xFFu8, 0xFE][..]);

    let mut out = Output::new();
    out.write_i16_le(-2);
    assert_eq!(out.as_slice(), &[0xFEu8, 0xFF][..]);

    let mut out = Output::new();
    out.write_i32_be(i32::MIN);
    assert_eq!(out.as_slice(), &[0x80u8, 0x00, 0x00, 0x00][..]);
}

#[test]
fn generic_width_write_matches_typed_write() {
    let mut out = Output::new();
    out.write_unsigned(0x123456, 3, Endianness::Big);
    out.write_unsigned(0x123456, 3, Endianness::Little);
    assert_eq!(out.as_slice(), &[0x12u8, 0x34, 0x56, 0x56, 0x34, 0x12][..]);
}

#[test]
fn earlier_bytes_are_never_rewritten() {
    let mut out = Output::new();
    out.write_u16_be(0x0102);
    let before = out.as_slice().to_vec();
    out.write_u64_le(u64::MAX);
    out.write_i128_be(-1);
    assert_eq!(&out.as_slice()[..2], &before[..]);
    assert_eq!(out.len(), 26);
}
