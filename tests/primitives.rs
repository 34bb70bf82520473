use mms_parser::error::{DecodeError, EncodeError};
use mms_parser::primitives::{
    encode_address, encode_quoted_string, encode_short_integer, encode_string,
    encode_value_length, parse_encoded_string_value, parse_long_integer, parse_quoted_string,
    parse_short_integer, parse_text_string, parse_value_length, take_text_string, u8_to_string,
    value_length,
};

#[test]
fn take_basic_text_string() {
    let input = "asdf\x00not included".as_bytes();
    let (remainder, val) = take_text_string(input).unwrap();

    assert_eq!(val, "asdf\x00".as_bytes());
    assert_eq!(remainder, "not included".as_bytes());
}

#[test]
fn simple_text_string() {
    let input = "asdf\u{0}not included".as_bytes();
    let (remainder, val) = parse_text_string(input).unwrap();
    let remainder = u8_to_string(remainder).unwrap();

    assert_eq!(val, "asdf");
    assert_eq!(remainder, "not included");
}

#[test]
fn text_string_with_quote() {
    let (_, val) = parse_text_string("\x7fsomething\u{0}".as_bytes()).unwrap();

    assert_eq!(val, "\x7fsomething");
}

#[test]
fn text_string_quoted_value() {
    let (_, val1) = parse_text_string("\x7f\u{128}etc...\u{0}".as_bytes()).unwrap();
    let (_, val2) = parse_text_string("\x7f\u{255}etc...\u{0}".as_bytes()).unwrap();

    assert_eq!(val1, "\u{128}etc...");
    assert_eq!(val2, "\u{255}etc...");
}

#[test]
fn text_string_should_be_quoted() {
    parse_text_string("\u{128}etc...\u{0}".as_bytes()).unwrap_err();
}

#[test]
fn simple_short_integer() {
    let (_, n) = parse_short_integer(&[0b10000011u8]).unwrap();
    assert_eq!(n, 0b11u8);
}

#[test]
fn invalid_short_integer() {
    parse_short_integer(&[0b00000011]).unwrap_err();
}

#[test]
fn simple_value_length() {
    let (r, l) = parse_value_length(&[22, 42]).unwrap();

    assert_eq!(l, 22);
    assert_eq!(r, &[42]);
}

#[test]
fn uintvar_value_length() {
    let (r, l) = parse_value_length(&[31, 42, 33]).unwrap();

    assert_eq!(l, 42);
    assert_eq!(r, &[33]);
}

#[test]
fn invalid_value_length() {
    parse_value_length(&[32]).unwrap_err();
}

#[test]
fn value_length_encodings() {
    assert_eq!(encode_value_length(30), vec![30]);
    assert_eq!(encode_value_length(31), vec![31, 31]);
    assert_eq!(encode_value_length(300), vec![31, 0x82, 0x2C]);
    assert_eq!(value_length(vec![1, 2, 3]), vec![3, 1, 2, 3]);
}

#[test]
fn reserved_length_byte_is_an_error() {
    assert_eq!(parse_value_length(&[40, 1]), Err(DecodeError::ReservedLengthByte));
}

#[test]
fn text_string_errors() {
    assert_eq!(parse_text_string(b"abc"), Err(DecodeError::TruncatedInput));
    assert_eq!(parse_text_string(&[0x80, 0x00]), Err(DecodeError::InvalidLeadByte));
    assert_eq!(parse_text_string(&[0x41, 0xFF, 0x00]), Err(DecodeError::Utf8DecodeError));
    assert_eq!(u8_to_string(&[0xC3, 0x28]), Err(DecodeError::Utf8DecodeError));
}

#[test]
fn text_string_encoding_quotes_high_first_byte() {
    assert_eq!(encode_string("ab".to_string()), b"ab\x00".to_vec());
    assert_eq!(encode_string("\u{e9}".to_string()), vec![0x7F, 0xC3, 0xA9, 0x00]);
    let (_, back) = parse_text_string(&encode_string("\u{e9}t\u{e9}".to_string())).unwrap();
    assert_eq!(back, "\u{e9}t\u{e9}");
}

#[test]
fn quoted_strings() {
    let bytes = encode_quoted_string("<id>".to_string());
    assert_eq!(bytes, b"\"<id>\x00".to_vec());
    let (rest, s) = parse_quoted_string(&bytes).unwrap();
    assert_eq!(s, "<id>");
    assert!(rest.is_empty());
    assert_eq!(parse_quoted_string(b"x\x00"), Err(DecodeError::InvalidLeadByte));
}

#[test]
fn short_integer_encoding() {
    assert_eq!(encode_short_integer(0x05), Ok(vec![0x85]));
    assert_eq!(encode_short_integer(0x80), Err(EncodeError::TooLarge));
}

#[test]
fn long_integers() {
    let (rest, v) = parse_long_integer(&[0x02, 0x01, 0x00, 0x07]).unwrap();
    assert_eq!(v, 256);
    assert_eq!(rest, &[0x07]);
    assert_eq!(parse_long_integer(&[0x03, 0x01]), Err(DecodeError::TruncatedInput));
    assert_eq!(parse_long_integer(&[31]), Err(DecodeError::InvalidLeadByte));
    let mut nine = vec![9u8];
    nine.extend_from_slice(&[1; 9]);
    assert_eq!(parse_long_integer(&nine), Err(DecodeError::IntegerOverflow));
}

#[test]
fn encoded_string_values() {
    let (_, plain) = parse_encoded_string_value(b"hello\x00").unwrap();
    assert_eq!(plain, "hello");
    let with_charset = [0x04, 0xEA, b'h', b'i', 0x00, 0x55];
    let (rest, s) = parse_encoded_string_value(&with_charset).unwrap();
    assert_eq!(s, "hi");
    assert_eq!(rest, &[0x55]);
}

#[test]
fn address_encoding() {
    let bytes = encode_address("+1/TYPE=PLMN".to_string());
    let mut expected = vec![14u8, 128];
    expected.extend_from_slice(b"+1/TYPE=PLMN\x00");
    assert_eq!(bytes, expected);
}
