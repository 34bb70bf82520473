use mms_parser::content_type::{encode_content_type, parse_content_type, ContentType};
use mms_parser::error::{DecodeError, EncodeError};

#[test]
fn short_well_known() {
    let encoded = encode_content_type(&ContentType::new("text/plain")).unwrap();
    assert_eq!(encoded, vec![0x03 | 0x80]);
}

#[test]
fn simple_string() {
    let encoded = encode_content_type(&ContentType::new("unknown/type")).unwrap();
    assert_eq!(encoded, "unknown/type\x00".as_bytes());
}

#[test]
fn well_known_charset_well_known_param() {
    let ct = ContentType::new("application/vnd.wap.multipart.related")
        .with_param("start", "<text>")
        .with_param("type", "text/plain");
    let encoded = encode_content_type(&ct).unwrap();

    assert_eq!(encoded, b"\x0B\xB3\x8A<text>\0\x89\x83");
}

#[test]
fn short_int() {
    let (_r, c) = parse_content_type(&[0xB3]).unwrap();

    assert_eq!(c, ContentType::new("application/vnd.wap.multipart.related"))
}

#[test]
fn general_int() {
    let (r, c) = parse_content_type(&[0x01, 0xB3]).unwrap();

    assert!(r.is_empty());
    assert_eq!(c, ContentType::new("application/vnd.wap.multipart.related"))
}

#[test]
fn general_int_with_charset() {
    let (r, c) = parse_content_type(&[0x03, 0xB3, 0x81, 0x83]).unwrap();

    assert!(r.is_empty());
    assert_eq!(c.to_mime_string(), "application/vnd.wap.multipart.related; charset=us-ascii")
}

#[test]
fn general_form_round_trip() {
    let ct = ContentType::new("application/vnd.wap.multipart.related")
        .with_param("start", "<text>")
        .with_param("type", "text/plain");
    let bytes = encode_content_type(&ct).unwrap();
    let (rest, back) = parse_content_type(&bytes).unwrap();
    assert!(rest.is_empty());
    assert_eq!(back, ct);
    assert_eq!(
        back.to_mime_string(),
        "application/vnd.wap.multipart.related; start=\"<text>\"; type=\"text/plain\""
    );
}

#[test]
fn charset_parameters() {
    let ct = ContentType::new("text/plain").with_param("charset", "utf-8");
    assert_eq!(encode_content_type(&ct).unwrap(), vec![0x03, 0x83, 0x81, 0xEA]);
    let any = ContentType::new("text/plain").with_param("charset", "*");
    let bytes = encode_content_type(&any).unwrap();
    assert_eq!(bytes, vec![0x03, 0x83, 0x81, 0x80]);
    let (_, back) = parse_content_type(&bytes).unwrap();
    assert_eq!(back, any);
    let odd = ContentType::new("text/plain").with_param("charset", "klingon");
    assert_eq!(encode_content_type(&odd), Err(EncodeError::CharsetNotRecognized));
    assert_eq!(
        parse_content_type(&[0x03, 0x83, 0x81, 0x85]),
        Err(DecodeError::CharsetNotRecognized)
    );
}

#[test]
fn unsupported_parameters() {
    let ct = ContentType::new("text/plain").with_param("format", "flowed");
    assert_eq!(encode_content_type(&ct), Err(EncodeError::UnsupportedParameter));
    assert_eq!(parse_content_type(&[0x03, 0x83, 0x90, 0x80]), Err(DecodeError::UnknownParameter));
}

#[test]
fn unknown_code_is_a_vendor_extension() {
    let (_, c) = parse_content_type(&[0xFF]).unwrap();
    assert_eq!(c.media, "vendor-extension/127");
}

#[test]
fn name_parameter_and_text_media() {
    let ct = ContentType::new("image/x-odd").with_param("name", "a.png");
    let bytes = encode_content_type(&ct).unwrap();
    let (_, back) = parse_content_type(&bytes).unwrap();
    assert_eq!(back, ct);
    assert_eq!(back.to_mime_string(), "image/x-odd; name=a.png");
}

#[test]
fn mms_message_type_code() {
    assert_eq!(
        encode_content_type(&ContentType::new("application/vnd.wap.mms-message")).unwrap(),
        vec![0xBE]
    );
}

#[test]
fn content_string() {
    assert_eq!(parse_content_type("text/plain".as_bytes()), Err(DecodeError::TruncatedInput));
}

#[test]
fn general_int_with_any_charset() {
    let (r, c) = parse_content_type(&[0x03, 0xB3, 0x81, 0x80]).unwrap();

    assert!(r.is_empty());
    assert_eq!(c.to_mime_string(), "application/vnd.wap.multipart.related; charset=*")
}

#[test]
fn general_string() {
    let (r, c) = parse_content_type(b"\x0Funusual/type\x00\x81\x80").unwrap();

    assert!(r.is_empty());
    assert_eq!(c.to_mime_string(), "unusual/type; charset=*")
}

#[test]
fn parameter_names_and_charsets_ignore_case() {
    let ct = ContentType::new("text/plain").with_param("Charset", "UTF-8");
    assert_eq!(encode_content_type(&ct).unwrap(), vec![0x03, 0x83, 0x81, 0xEA]);
    let named = ContentType::new("image/png").with_param("NAME", "a.png");
    let mut expected = vec![0x08, 0xA0, 0x85];
    expected.extend_from_slice(b"a.png\x00");
    assert_eq!(encode_content_type(&named).unwrap(), expected);
}
