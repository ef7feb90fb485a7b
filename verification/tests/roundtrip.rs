use in_out::Input;
use in_out::Output;
use in_out::endian::Endianness;

#[test]
fn unsigned_round_trips_big_endian() {
    let mut out = Output::new();
    out.write_u8(0xA5);
    out.write_u16_be(0xBEEF);
    out.write_u32_be(0xDEAD_BEEF);
    out.write_u64_be(0x0123_4567_89AB_CDEF);
    out.write_u128_be(0x0123_4567_89AB_CDEF_0123_4567_89AB_CDEF);
    let bytes = out.into_inner();
    let mut input = Input::new(&bytes);
    assert_eq!(input.read_u8(), 0xA5);
    assert_eq!(input.read_u16_be(), 0xBEEF);
    assert_eq!(input.read_u32_be(), 0xDEAD_BEEF);
    assert_eq!(input.read_u64_be(), 0x0123_4567_89AB_CDEF);
    assert_eq!(input.read_u128_be(), 0x0123_4567_89AB_CDEF_0123_4567_89AB_CDEF);
    assert_eq!(input.remaining(), 0);
}

#[test]
fn unsigned_round_trips_little_endian() {
    let mut out = Output::new();
    out.write_u16_le(0xBEEF);
    out.write_u32_le(0xDEAD_BEEF);
    out.write_u64_le(0x0123_4567_89AB_CDEF);
    out.write_u128_le(0x0123_4567_89AB_CDEF_0123_4567_89AB_CDEF);
    let bytes = out.into_inner();
    let mut input = Input::new(&bytes);
    assert_eq!(input.read_u16_le(), 0xBEEF);
    assert_eq!(input.read_u32_le(), 0xDEAD_BEEF);
    assert_eq!(input.read_u64_le(), 0x0123_4567_89AB_CDEF);
    assert_eq!(input.read_u128_le(), 0x0123_4567_89AB_CDEF_0123_4567_89AB_CDEF);
    assert_eq!(input.remaining(), 0);
}

#[test]
fn signed_round_trips_both_orders() {
    let mut out = Output::new();
    out.write_i8(-100);
    out.write_i16_be(i16::MIN);
    out.write_i16_le(i16::MAX);
    out.write_i32_be(-123_456_789);
    out.write_i32_le(i32::MIN);
    out.write_i64_be(i64::MIN);
    out.write_i64_le(-1);
    out.write_i128_be(i128::MIN);
    out.write_i128_le(i128::MAX);
    let bytes = out.into_inner();
    let mut input = Input::new(&bytes);
    assert_eq!(input.read_i8(), -100);
    assert_eq!(input.read_i16_be(), i16::MIN);
    assert_eq!(input.read_i16_le(), i16::MAX);
    assert_eq!(input.read_i32_be(), -123_456_789);
    assert_eq!(input.read_i32_le(), i32::MIN);
    assert_eq!(input.read_i64_be(), i64::MIN);
    assert_eq!(input.read_i64_le(), -1);
    assert_eq!(input.read_i128_be(), i128::MIN);
    assert_eq!(input.read_i128_le(), i128::MAX);
    assert_eq!(input.remaining(), 0);
}

#[test]
fn generic_round_trip_every_width_and_order() {
    for width in 0..=16usize {
        for endianness in [Endianness::Big, Endianness::Little] {
            let value: u128 = if width == 0 {
                0
            } else {
                0x0123_4567_89AB_CDEF_0123_4567_89AB_CDEFu128 >> (128 - 8 * width as u32)
            };
            let mut out = Output::new();
            out.write_unsigned(value, width, endianness);
            assert_eq!(out.len(), width);
            let bytes = out.into_inner();
            let mut input = Input::new(&bytes);
            assert_eq!(input.try_read_unsigned(width, endianness).unwrap(), value);
            assert_eq!(input.remaining(), 0);
        }
    }
}

#[test]
fn slice_round_trip() {
    let payload = [1u8, 2, 3, 4, 5];
    let mut out = Output::new();
    out.write_slice(&payload);
    let bytes = out.into_inner();
    let mut input = Input::new(&bytes);
    assert_eq!(input.read_slice(5), &payload[..]);
    assert_eq!(input.remaining(), 0);
}

#[test]
fn opposite_orders_give_byte_reversed_values() {
    let data = [0x00u8, 0x01];
    let mut input = Input::new(&data);
    assert_eq!(input.read_u16_be(), 1);
    let mut input = Input::new(&data);
    assert_eq!(input.read_u16_le(), 256);

    let data = [0x12u8, 0x34, 0x56, 0x78];
    let mut be = Input::new(&data);
    let reversed = [0x78u8, 0x56, 0x34, 0x12];
    let mut le = Input::new(&reversed);
    assert_eq!(be.read_u32_be(), le.read_u32_le());
}

#[test]
fn writer_output_decodes_to_the_value_written() {
    let mut out = Output::new();
    out.write_u16_be(1);
    let mut rest = Output::new();
    rest.write_u16_le(1);
    assert_eq!(out.as_slice(), &[0x00u8, 0x01][..]);
    assert_eq!(rest.as_slice(), &[0x01u8, 0x00][..]);
}
