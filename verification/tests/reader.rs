use in_out::Input;
use in_out::InputError;
use in_out::endian::Endianness;

#[test]
fn fresh_cursor_sees_whole_buffer() {
    let data = [1u8, 2, 3];
    let input = Input::new(&data);
    assert_eq!(input.remaining(), 3);
    assert_eq!(input.context().position, 0);
}

#[test]
fn slice_read_returns_prefix_and_advances() {
    let data = [10u8, 20, 30, 40, 50];
    let mut input = Input::new(&data);
    let head = input.try_read_slice(2).unwrap();
    assert_eq!(head, &[10u8, 20][..]);
    assert_eq!(input.remaining(), 3);
    assert_eq!(input.context().position, 2);
    let rest = input.try_read_slice(3).unwrap();
    assert_eq!(rest, &[30u8, 40, 50][..]);
    assert_eq!(input.remaining(), 0);
    assert_eq!(input.context().position, 5);
}

#[test]
fn short_slice_read_fails_with_exact_deficit_and_keeps_cursor() {
    let data = [1u8, 2, 3];
    let mut input = Input::new(&data);
    let err = input.try_read_slice(7).unwrap_err();
    assert_eq!(err, InputError::NeedsMoreData(4));
    assert_eq!(input.remaining(), 3);
    assert_eq!(input.context().position, 0);
    let head = input.try_read_slice(3).unwrap();
    assert_eq!(head, &[1u8, 2, 3][..]);
}

#[test]
fn zero_byte_read_always_succeeds_without_advancing() {
    let data = [9u8];
    let mut input = Input::new(&data);
    let empty = input.try_read_slice(0).unwrap();
    assert_eq!(empty, &[][..]);
    assert_eq!(input.remaining(), 1);

    let nothing: [u8; 0] = [];
    let mut drained = Input::new(&nothing);
    let empty = drained.try_read_slice(0).unwrap();
    assert_eq!(empty, &[][..]);
    assert_eq!(drained.remaining(), 0);
    assert_eq!(drained.context().position, 0);
}

#[test]
fn magic_number_scenario() {
    let data = [0xDEu8, 0xAD, 0xBE, 0xEF, 0x02, 0b0000_0001];
    let mut input = Input::new(&data);
    let magic = input.try_read_u32_be().unwrap();
    assert_eq!(magic, 0xDEAD_BEEF);
    assert_eq!(input.remaining(), 2);
    let version = input.try_read_u8().unwrap();
    assert_eq!(version, 2);
    assert_eq!(input.remaining(), 1);
    let flags = input.try_read_u8().unwrap();
    assert_eq!(flags, 1);
    assert_eq!(input.remaining(), 0);
    let err = input.try_read_u8().unwrap_err();
    assert_eq!(err, InputError::NeedsMoreData(1));
}

#[test]
fn byte_reads_are_sign_transparent() {
    let data = [0x7Fu8, 0x80, 0xFF, 0x00];
    let mut input = Input::new(&data);
    assert_eq!(input.read_i8(), 127);
    assert_eq!(input.read_i8(), -128);
    assert_eq!(input.read_i8(), -1);
    assert_eq!(input.read_i8(), 0);
}

#[test]
fn signed_reads_decode_twos_complement() {
    let data = [0xFFu8, 0xFE];
    let mut input = Input::new(&data);
    assert_eq!(input.read_i16_be(), -2);
    let mut input = Input::new(&data);
    assert_eq!(input.read_i16_le(), -257);
}

#[test]
fn each_width_fails_with_its_own_deficit() {
    let data = [1u8];
    let mut input = Input::new(&data);
    assert_eq!(input.try_read_u16_be().unwrap_err(), InputError::NeedsMoreData(1));
    assert_eq!(input.try_read_u32_le().unwrap_err(), InputError::NeedsMoreData(3));
    assert_eq!(input.try_read_u64_be().unwrap_err(), InputError::NeedsMoreData(7));
    assert_eq!(input.try_read_u128_le().unwrap_err(), InputError::NeedsMoreData(15));
    assert_eq!(input.try_read_i16_be().unwrap_err(), InputError::NeedsMoreData(1));
    assert_eq!(input.try_read_i32_le().unwrap_err(), InputError::NeedsMoreData(3));
    assert_eq!(input.try_read_i64_be().unwrap_err(), InputError::NeedsMoreData(7));
    assert_eq!(input.try_read_i128_le().unwrap_err(), InputError::NeedsMoreData(15));
    assert_eq!(input.remaining(), 1);
}

#[test]
fn multi_byte_reads_are_atomic_on_failure() {
    let data = [0xAAu8, 0xBB, 0xCC];
    let mut input = Input::new(&data);
    let err = input.try_read_u32_be().unwrap_err();
    assert_eq!(err, InputError::NeedsMoreData(1));
    assert_eq!(input.remaining(), 3);
    assert_eq!(input.try_read_u16_be().unwrap(), 0xAABB);
    assert_eq!(input.remaining(), 1);
}

#[test]
fn generic_width_read_matches_typed_read() {
    let data = [0x12u8, 0x34, 0x56];
    let mut input = Input::new(&data);
    let v = input.try_read_unsigned(3, Endianness::Big).unwrap();
    assert_eq!(v, 0x123456);
    let mut input = Input::new(&data);
    let v = input.try_read_unsigned(3, Endianness::Little).unwrap();
    assert_eq!(v, 0x563412);
}

#[test]
fn wide_reads_decode_both_orders() {
    let data = [0x01u8, 0x02, 0x03, 0x04, 0x05, 0x06, 0x07, 0x08];
    let mut input = Input::new(&data);
    assert_eq!(input.read_u64_be(), 0x0102_0304_0506_0708);
    let mut input = Input::new(&data);
    assert_eq!(input.read_u64_le(), 0x0807_0605_0403_0201);

    let wide = [0u8, 0, 0, 0, 0, 0, 0, 0, 0, 0, 0, 0, 0, 0, 0x01, 0x02];
    let mut input = Input::new(&wide);
    assert_eq!(input.read_u128_be(), 0x0102);
    let mut input = Input::new(&wide);
    assert_eq!(input.read_u128_le(), 0x0201u128 << 112);
}
