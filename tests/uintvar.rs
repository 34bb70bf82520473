use mms_parser::error::DecodeError;
use mms_parser::uintvar::{encode_uintvar, read_uintvar, take_uintvar_byte, uintvar};

#[test]
fn encode_1byte_uintvar() {
    assert_eq!(vec![123u8], encode_uintvar(123))
}

#[test]
fn encode_2byte_uintvar() {
    assert_eq!(vec![0b10000101, 0b00000001], encode_uintvar(0b1010000001u64))
}

#[test]
fn encode_multi_byte_uintvar() {
    assert_eq!(
        vec![0b10000001, 0b10000000, 0b10000000, 0b00000011],
        encode_uintvar(0b1000000000000000000011u64)
    );
}

#[test]
fn uintvar_read_1_byte_uintvar() {
    let input: [u8; 1] = [0b00000101];
    let res = read_uintvar(&input);

    let val = res.unwrap().1;
    assert_eq!(val, 0b101u64);
}

#[test]
fn uintvar_read_2_byte_uintvar() {
    let input: [u8; 2] = [0b10000101, 0b00000001];
    assert_eq!(read_uintvar(&input).unwrap().1, 0b1010000001u64);
}

#[test]
fn uintvar_read_multi_byte_uintvar() {
    let input: [u8; 4] = [0b10000001, 0b10000000, 0b10000000, 0b00000011];
    assert_eq!(read_uintvar(&input).unwrap().1, 0b1000000000000000000011u64);
}

#[test]
fn uintvar_take_uintvar_byte_without_carry() {
    let input: [u8; 1] = [0b00000101];
    let (_new_input, (carry, number)) = take_uintvar_byte(&input).unwrap();

    assert_eq!(carry, false);
    assert_eq!(number, 0b101);
}

#[test]
fn uintvar_take_uintvar_byte_with_carry() {
    let input: [u8; 1] = [0b11000101];
    let (_new_input, (carry, number)) = take_uintvar_byte(&input).unwrap();

    assert_eq!(carry, true);
    assert_eq!(number, 0b1000101);
}

#[test]
fn special_types_read_1_byte_uintvar() {
    let input: [u8; 1] = [0b00000101];
    let res = uintvar(&input);

    let val = res.unwrap().1;
    assert_eq!(val, 5);
}

#[test]
fn special_types_read_2_byte_uintvar() {
    let input: [u8; 2] = [0b10000101, 0b00000001];
    assert_eq!(uintvar(&input).unwrap().1, 0b1010000001);
}

#[test]
fn special_types_read_multi_byte_uintvar() {
    let input: [u8; 4] = [0b10000001, 0b10000000, 0b10000000, 0b00000011];
    assert_eq!(uintvar(&input).unwrap().1, 0b1000000000000000000011);
}

#[test]
fn special_types_take_uintvar_byte_without_carry() {
    let input: [u8; 1] = [0b00000101];
    let (_new_input, (carry, number)) = take_uintvar_byte(&input).unwrap();

    assert_eq!(u8::from(carry), 0);
    assert_eq!(number, 0b101);
}

#[test]
fn special_types_take_uintvar_byte_with_carry() {
    let input: [u8; 1] = [0b10000101];
    let (_new_input, (carry, number)) = take_uintvar_byte(&input).unwrap();

    assert_eq!(u8::from(carry), 1);
    assert_eq!(number, 0b101);
}

#[test]
fn uintvar_small_values_encode_canonically() {
    assert_eq!(encode_uintvar(0), vec![0x00]);
    assert_eq!(encode_uintvar(127), vec![0x7F]);
    assert_eq!(encode_uintvar(128), vec![0x81, 0x00]);
}

#[test]
fn uintvar_round_trip_consumes_exactly_its_bytes() {
    for v in [0u64, 1, 127, 128, 300, 16383, 16384, u32::MAX as u64, u64::MAX] {
        let mut bytes = encode_uintvar(v);
        let n = bytes.len();
        bytes.extend_from_slice(&[0xAA, 0x01]);
        let (rest, got) = read_uintvar(&bytes).unwrap();
        assert_eq!(got, v);
        assert_eq!(rest, &bytes[n..]);
    }
}

#[test]
fn uintvar_truncated_and_overflow() {
    assert_eq!(read_uintvar(&[0x81, 0x80]), Err(DecodeError::TruncatedInput));
    assert_eq!(read_uintvar(&[]), Err(DecodeError::TruncatedInput));
    let too_big = [0x82, 0x80, 0x80, 0x80, 0x80, 0x80, 0x80, 0x80, 0x80, 0x00];
    assert_eq!(read_uintvar(&too_big), Err(DecodeError::IntegerOverflow));
}
