use mms_parser::error::{DecodeError, EncodeError, HeaderIdentity};
use mms_parser::message_header::{encode_wap_headers, header_item, wap_headers, MessageHeader};
use mms_parser::mms_header::{
    encode_header_field, parse_header_field, ClassIdentifier, FromField, MessageTypeField,
    MmsHeader, MmsHeaderValue, RetrieveStatusField,
};

#[test]
fn unknown_header_code_keeps_bytes() {
    let v = parse_header_field(MmsHeader::from_code(0x7A), &[1, 2, 3]).unwrap();
    assert_eq!(MmsHeader::from_code(0x7A), MmsHeader::UnknownInt(0x7A));
    assert_eq!(v, MmsHeaderValue::Bytes(vec![1, 2, 3]));
    let h = header_item(0x33, &[9, 8]).unwrap();
    assert_eq!(h, MessageHeader::UnknownHeader(0x33, vec![9, 8]));
}

#[test]
fn wap_headers_round_trip() {
    let hs = vec![
        MessageHeader::ContentId("<a>".to_string()),
        MessageHeader::ContentLocation("a.txt".to_string()),
    ];
    let bytes = encode_wap_headers(&hs).unwrap();
    assert_eq!(wap_headers(&bytes).unwrap(), hs);
    assert_eq!(
        encode_wap_headers(&vec![MessageHeader::ContentLength(3)]),
        Err(EncodeError::UnimplementedEncoder(HeaderIdentity::Wap(0x0D)))
    );
}

#[test]
fn header_values_decode() {
    assert_eq!(
        parse_header_field(MmsHeader::XMmsMessageType, &[0x84]).unwrap(),
        MmsHeaderValue::MessageTypeField(MessageTypeField::MRetrieveConf)
    );
    assert_eq!(
        parse_header_field(MmsHeader::XMmsMessageType, &[0x20]),
        Err(DecodeError::UnexpectedToken)
    );
    assert_eq!(parse_header_field(MmsHeader::XMmsDeliveryReport, &[129]).unwrap(), MmsHeaderValue::Bool(false));
    assert_eq!(parse_header_field(MmsHeader::XMmsPriority, &[130]).unwrap(), MmsHeaderValue::ShortUint(3));
    assert_eq!(
        parse_header_field(MmsHeader::XMmsRetrieveStatus, &[128]).unwrap(),
        MmsHeaderValue::RetrieveStatusField(RetrieveStatusField::Success)
    );
    assert_eq!(
        parse_header_field(MmsHeader::XMmsRetrieveStatus, &[200]).unwrap(),
        MmsHeaderValue::RetrieveStatusField(RetrieveStatusField::ErrorTransientFailureOther(200))
    );
    assert_eq!(
        parse_header_field(MmsHeader::XMmsMessageClass, &[129]).unwrap(),
        MmsHeaderValue::ClassIdentifier(ClassIdentifier::Advertisment)
    );
    assert_eq!(
        parse_header_field(MmsHeader::Date, &[0x02, 0x01, 0x02]).unwrap(),
        MmsHeaderValue::LongUint(258)
    );
    assert_eq!(
        parse_header_field(MmsHeader::From, &[0x01, 129]).unwrap(),
        MmsHeaderValue::FromField(FromField::InsertAddress)
    );
    assert_eq!(parse_header_field(MmsHeader::From, &[0x01, 130]), Err(DecodeError::UnexpectedToken));
}

#[test]
fn header_fields_encode() {
    assert_eq!(
        encode_header_field(MmsHeader::XMmsMessageType, MmsHeaderValue::MessageTypeField(MessageTypeField::MSendReq)),
        Ok(vec![0x8C, 0x80])
    );
    assert_eq!(
        encode_header_field(MmsHeader::XMmsMMSVersion, MmsHeaderValue::ShortUint(18)),
        Ok(vec![0x8D, 0x92])
    );
    assert_eq!(
        encode_header_field(MmsHeader::To, MmsHeaderValue::Bool(true)),
        Err(EncodeError::TypeMismatch(MmsHeader::To))
    );
    assert_eq!(
        encode_header_field(MmsHeader::Date, MmsHeaderValue::LongUint(1)),
        Err(EncodeError::UnimplementedEncoder(HeaderIdentity::Mms(MmsHeader::Date)))
    );
    let from = encode_header_field(MmsHeader::From, MmsHeaderValue::FromField(FromField::Address("+1".to_string()))).unwrap();
    assert_eq!(from, vec![0x89, 4, 128, b'+', b'1', 0]);
    assert_eq!(
        parse_header_field(MmsHeader::From, &from[1..]).unwrap(),
        MmsHeaderValue::FromField(FromField::Address("+1".to_string()))
    );
}

#[test]
fn raw_bytes_only_under_unregistered_codes() {
    assert_eq!(
        encode_header_field(MmsHeader::To, MmsHeaderValue::Bytes(vec![b'a', 0])),
        Err(EncodeError::TypeMismatch(MmsHeader::To))
    );
    assert_eq!(
        encode_header_field(MmsHeader::UnknownInt(0x7A), MmsHeaderValue::Bytes(vec![0x81])),
        Ok(vec![0xFA, 0x81])
    );
    assert_eq!(
        encode_header_field(MmsHeader::ImplicitBody, MmsHeaderValue::Bytes(vec![1])),
        Err(EncodeError::UnimplementedEncoder(HeaderIdentity::Mms(MmsHeader::ImplicitBody)))
    );
}
