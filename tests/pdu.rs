use mms_parser::content_type::ContentType;
use mms_parser::encoder::{encode_mms_message, MSendReq};
use mms_parser::error::{DecodeError, EncodeError};
use mms_parser::message_header::MessageHeader;
use mms_parser::mms_header::{MessageTypeField, MmsHeader, MmsHeaderValue};
use ordered_multimap::ListOrderedMultimap;
use mms_parser::multipart::{
    parse_multipart_body, EncodableBody, EncoderBuilder, MixedItem, MultiPartItem, RelatedBodyPart,
};
use mms_parser::pdu::{
    parse_header_fields, parse_header_fields_with_errors, parse_mms_pdu, split_header_fields,
    MessageClass, ParserCtx, VndWapMmsMessage,
};
use mms_parser::wap::{parse_wap_push, PduType};

fn ctx(has_body: bool) -> ParserCtx {
    ParserCtx { message_class: MessageClass { has_body } }
}

#[test]
fn content_type_ends_header_block() {
    let data = [0x8C, 0x84, 0x84, 0x83, 0x97, b'x', 0x00, 0x01];
    let (rest, split) = split_header_fields(&data, ctx(true)).unwrap();
    assert!(rest.is_empty());
    assert_eq!(split.len(), 3);
    assert_eq!(split[0], (MmsHeader::XMmsMessageType, vec![0x84]));
    assert_eq!(split[1], (MmsHeader::ContentType, vec![0x83]));
    assert_eq!(split[2], (MmsHeader::ImplicitBody, vec![0x97, b'x', 0x00, 0x01]));

    let (_, no_body) = split_header_fields(&data[..7], ctx(false)).unwrap();
    assert_eq!(no_body.len(), 3);
    assert_eq!(no_body[2], (MmsHeader::To, vec![b'x', 0x00]));
}

#[test]
fn header_without_top_bit_is_refused() {
    assert_eq!(split_header_fields(&[0x0C, 0x84], ctx(true)), Err(DecodeError::InvalidLeadByte));
}

#[test]
fn unknown_header_does_not_stop_decoding() {
    let data = [0x8C, 0x84, 0xFA, 0x81, 0x97, b'a', 0x00, 0x8C, 0x20, 0x00];
    let (_, split) = split_header_fields(&data, ctx(true)).unwrap();
    let results = parse_header_fields_with_errors(&split);
    assert_eq!(results.len(), 4);
    assert_eq!(results[1], (MmsHeader::UnknownInt(0x7A), Ok(MmsHeaderValue::Bytes(vec![0x81]))));
    assert_eq!(results[2], (MmsHeader::To, Ok(MmsHeaderValue::String("a".to_string()))));
    assert_eq!(results[3], (MmsHeader::XMmsMessageType, Err(DecodeError::UnexpectedToken)));

    let map = parse_header_fields(&split);
    let entries: Vec<(MmsHeader, MmsHeaderValue)> = map.into_iter().collect();
    assert_eq!(
        entries,
        vec![
            (MmsHeader::XMmsMessageType, MmsHeaderValue::MessageTypeField(MessageTypeField::MRetrieveConf)),
            (MmsHeader::UnknownInt(0x7A), MmsHeaderValue::Bytes(vec![0x81])),
            (MmsHeader::To, MmsHeaderValue::String("a".to_string())),
        ]
    );
}

#[test]
fn send_request_header_order() {
    let mut req = MSendReq::new();
    req.to("+15551234/TYPE=PLMN".to_string());
    let bytes = req.encode().unwrap();
    let (_, msg) = parse_mms_pdu(&bytes).unwrap();
    let entries: Vec<(MmsHeader, MmsHeaderValue)> = msg.headers.into_iter().collect();
    assert_eq!(entries[0].0, MmsHeader::XMmsMessageType);
    assert_eq!(entries[0].1, MmsHeaderValue::MessageTypeField(MessageTypeField::MSendReq));
    assert_eq!(entries[1].0, MmsHeader::XMmsTransactionId);
    match &entries[1].1 {
        MmsHeaderValue::String(id) => assert!(!id.is_empty()),
        other => panic!("unexpected transaction id {:?}", other),
    }
    assert_eq!(entries[2], (MmsHeader::XMmsMMSVersion, MmsHeaderValue::ShortUint(18)));
    assert_eq!(entries[3], (MmsHeader::To, MmsHeaderValue::String("+15551234/TYPE=PLMN".to_string())));
    assert_eq!(entries[4].0, MmsHeader::ContentType);
    assert_eq!(entries.len(), 5);
    assert!(!msg.body.is_empty());
}

#[test]
fn send_request_with_given_id() {
    let mut req = MSendReq::new();
    req.subject("hi".to_string());
    req.transaction_id("T1".to_string());
    let bytes = req.encode_with_transaction_id("unused".to_string()).unwrap();
    assert_eq!(&bytes[..9], &[0x8C, 0x80, 0x98, b'T', b'1', 0x00, 0x8D, 0x92, 0x96]);
}

#[test]
fn explicit_content_type_is_refused() {
    let mut headers = ListOrderedMultimap::new();
    headers.append(MmsHeader::ContentType, MmsHeaderValue::ContentType(ContentType::new("text/plain")));
    let r = encode_mms_message(headers, (ContentType::new("text/plain"), vec![1u8]));
    assert_eq!(r, Err(EncodeError::DuplicateContentType));
}

#[test]
fn plain_body_message() {
    let mut headers = ListOrderedMultimap::new();
    headers.append(MmsHeader::To, MmsHeaderValue::String("b".to_string()));
    headers.append(MmsHeader::XMmsMessageType, MmsHeaderValue::MessageTypeField(MessageTypeField::MSendReq));
    let bytes = encode_mms_message(headers, (ContentType::new("text/plain"), b"hey".to_vec())).unwrap();
    assert_eq!(bytes, vec![0x8C, 0x80, 0x97, b'b', 0x00, 0x84, 0x83, b'h', b'e', b'y']);
    let (_, msg) = parse_mms_pdu(&bytes).unwrap();
    assert_eq!(msg.body, b"hey".to_vec());
}

fn text_part(id: &str, body: &str) -> RelatedBodyPart {
    RelatedBodyPart::new(
        ContentType::new("text/plain"),
        body.as_bytes().to_vec(),
        format!("<{}>", id),
        format!("{}.txt", id),
    )
}

#[test]
fn related_multipart_round_trip() {
    let mut builder: EncoderBuilder<RelatedBodyPart> = EncoderBuilder::new();
    builder.part(text_part("one", "first"));
    builder.part(text_part("two", "second"));
    let enc = builder.build().unwrap();
    assert_eq!(
        enc.content_type().to_mime_string(),
        "application/vnd.wap.multipart.related; start=\"<smil>\"; type=\"application/smil\""
    );
    let bytes = enc.encode().unwrap();
    let (rest, items) = parse_multipart_body(&bytes).unwrap();
    assert!(rest.is_empty());
    assert_eq!(items.len(), 3);
    assert_eq!(items[0].content_type, ContentType::new("application/smil"));
    assert_eq!(items[0].headers[0], MessageHeader::ContentId("<smil>".to_string()));
    assert_eq!(items[1].content_type, ContentType::new("text/plain"));
    assert_eq!(
        items[1].headers,
        vec![MessageHeader::ContentId("<one>".to_string()), MessageHeader::ContentLocation("one.txt".to_string())]
    );
    assert_eq!(items[1].body, b"first".to_vec());
    assert_eq!(items[2].body, b"second".to_vec());
    assert_eq!(items[2].headers[1], MessageHeader::ContentLocation("two.txt".to_string()));
}

#[test]
fn mixed_multipart_keeps_order() {
    let mut builder: EncoderBuilder<MixedItem> = EncoderBuilder::new();
    assert!(EncoderBuilder::<MixedItem>::new().build().is_none());
    builder.parts(vec![
        MixedItem::new(MultiPartItem { content_type: ContentType::new("text/plain"), headers: vec![], body: vec![1] }),
        MixedItem::new(MultiPartItem { content_type: ContentType::new("image/png"), headers: vec![], body: vec![2, 3] }),
    ]);
    let enc = builder.build().unwrap();
    assert_eq!(enc.content_type().media, "application/vnd.wap.multipart.mixed");
    let bytes = enc.encode().unwrap();
    assert_eq!(bytes, vec![2, 1, 1, 0x83, 1, 1, 2, 0xA0, 2, 3]);
}

#[test]
fn multipart_bounds_are_checked() {
    assert_eq!(parse_multipart_body(&[1, 1, 9, 0x83]), Err(DecodeError::MultipartBoundsError));
}

#[test]
fn wap_push_with_mms_payload() {
    let mut data = vec![0x01, 0x06, 0x03, 0xBE, 0xAF, 0x84];
    data.extend_from_slice(&[0x8C, 0x82, 0x98, b'T', 0x00]);
    let (rest, wap) = parse_wap_push(&data).unwrap();
    assert!(rest.is_empty());
    assert_eq!(wap.transaction_id, 1);
    assert_eq!(wap.message_type, PduType::Push);
    assert_eq!(wap.content_type.media, "application/vnd.wap.mms-message");
    assert_eq!(wap.headers, vec![MessageHeader::XWapApplicationId(0x84)]);
    let msg: VndWapMmsMessage = wap.parse_body().unwrap();
    assert_eq!(msg.x_mms_transaction_id(), Some("T".to_string()));
}

#[test]
fn message_getters() {
    let data = [
        0x8C, 0x84, 0x8B, b'm', b'1', 0x00, 0x85, 0x01, 0x05, 0x96, b's', 0x00, 0x97, b'r', 0x00,
        0x84, 0xB3, 0x00,
    ];
    let (_, msg) = parse_mms_pdu(&data).unwrap();
    assert_eq!(msg.message_id(), Some("m1".to_string()));
    assert_eq!(msg.date(), Some(5));
    assert_eq!(msg.subject(), Some("s".to_string()));
    assert_eq!(msg.to(), Some("r".to_string()));
    assert_eq!(msg.x_mms_transaction_id(), None);
    assert_eq!(msg.content_type(), Some(ContentType::new("application/vnd.wap.multipart.related")));
    assert!(msg.has_multipart_body());
    assert_eq!(msg.body, vec![0x00]);
    let empty = VndWapMmsMessage::empty();
    assert!(empty.body.is_empty());
    assert!(!empty.has_multipart_body());
}

#[test]
fn pdu_type_codes() {
    assert_eq!(PduType::from_code(6), PduType::Push);
    assert_eq!(PduType::from_code(0x60), PduType::Post);
    assert_eq!(PduType::from_code(0x80), PduType::DataFragment);
    assert_eq!(PduType::from_code(10), PduType::Unknown(10));
}

#[test]
fn wap_push_errors() {
    assert_eq!(parse_wap_push(&[0x01]).map(|_| ()), Err(DecodeError::TruncatedInput));
    assert_eq!(parse_wap_push(&[0x01, 0x06, 0x05, 0xBE]).map(|_| ()), Err(DecodeError::TruncatedInput));
    let other = [0x01, 0x06, 0x01, 0x83, b'x'];
    let (_, wap) = parse_wap_push(&other).unwrap();
    assert_eq!(wap.data, vec![b'x']);
    assert!(wap.parse_body().is_none());
}

#[test]
fn repeated_recipients_are_kept() {
    let mut req = MSendReq::new();
    req.to("a".to_string());
    req.to("b".to_string());
    req.cc("c".to_string());
    let bytes = req.encode_with_transaction_id("T".to_string()).unwrap();
    let (_, msg) = parse_mms_pdu(&bytes).unwrap();
    let entries: Vec<(MmsHeader, MmsHeaderValue)> = msg.headers.into_iter().collect();
    assert_eq!(entries[3], (MmsHeader::To, MmsHeaderValue::String("a".to_string())));
    assert_eq!(entries[4], (MmsHeader::To, MmsHeaderValue::String("b".to_string())));
    assert_eq!(entries[5], (MmsHeader::Cc, MmsHeaderValue::String("c".to_string())));
}

#[test]
fn parts_replaces_earlier_parts() {
    let mut builder: EncoderBuilder<MixedItem> = EncoderBuilder::new();
    builder.part(MixedItem::new(MultiPartItem { content_type: ContentType::new("text/plain"), headers: vec![], body: vec![9] }));
    builder.parts(vec![MixedItem::new(MultiPartItem { content_type: ContentType::new("image/png"), headers: vec![], body: vec![2] })]);
    let bytes = builder.build().unwrap().encode().unwrap();
    assert_eq!(bytes, vec![1, 1, 1, 0xA0, 2]);
}
