//! The MMS header registry: header identities, their values, and a decoder
//! and an encoder for each.

use crate::content_type::{
    content_type_wire, encode_content_type, parse_content_type, spec_content_type, ContentType,
    ContentTypeView,
};
use crate::error::{DecodeError, EncodeError, HeaderIdentity};
use crate::primitives::{
    address_wire, encode_address, encode_short_integer, encode_string, extend_bytes,
    parse_encoded_string_value, parse_long_integer, parse_short_integer, parse_text_string,
    spec_encoded_string, spec_length_prefixed, spec_long_integer, spec_short_integer,
    spec_text_string, take_length_prefixed, text_string_wire, value_length, value_length_encoding,
};
use vstd::prelude::*;
use vstd::utf8::encode_utf8;

verus! {

/// The identity of an MMS header field.
#[derive(Debug, Clone, Copy, PartialEq, Eq, Hash, Structural)]
pub enum MmsHeader {
    Bcc,
    Cc,
    ContentType,
    Date,
    From,
    MessageID,
    Subject,
    To,
    XMmsAdaptationAllowed,
    XMmsContentLocation,
    XMmsDeliveryReport,
    XMmsExpiry,
    XMmsLimit,
    XMmsMMSVersion,
    XMmsMessageClass,
    XMmsMessageSize,
    XMmsMessageType,
    XMmsPriority,
    XMmsReadReport,
    XMmsRetrieveStatus,
    XMmsTransactionId,
    /// A well-formed header whose code is not registered.
    UnknownInt(u8),
    /// The message body, split off the header block while decoding; never on
    /// the wire.
    ImplicitBody,
}

/// The header identity that a seven-bit code names.
pub open spec fn header_for_code(d: u8) -> MmsHeader {
    match d {
        0x01 => MmsHeader::Bcc,
        0x02 => MmsHeader::Cc,
        0x04 => MmsHeader::ContentType,
        0x05 => MmsHeader::Date,
        0x09 => MmsHeader::From,
        0x0B => MmsHeader::MessageID,
        0x16 => MmsHeader::Subject,
        0x17 => MmsHeader::To,
        0x3C => MmsHeader::XMmsAdaptationAllowed,
        0x03 => MmsHeader::XMmsContentLocation,
        0x06 => MmsHeader::XMmsDeliveryReport,
        0x08 => MmsHeader::XMmsExpiry,
        0x33 => MmsHeader::XMmsLimit,
        0x0D => MmsHeader::XMmsMMSVersion,
        0x0A => MmsHeader::XMmsMessageClass,
        0x0E => MmsHeader::XMmsMessageSize,
        0x0C => MmsHeader::XMmsMessageType,
        0x0F => MmsHeader::XMmsPriority,
        0x10 => MmsHeader::XMmsReadReport,
        0x19 => MmsHeader::XMmsRetrieveStatus,
        0x18 => MmsHeader::XMmsTransactionId,
        v => MmsHeader::UnknownInt(v),
    }
}

/// The seven-bit code of a header identity; the body has none.
pub open spec fn code_of_header(h: MmsHeader) -> Option<u8> {
    match h {
        MmsHeader::Bcc => Some(0x01u8),
        MmsHeader::Cc => Some(0x02u8),
        MmsHeader::ContentType => Some(0x04u8),
        MmsHeader::Date => Some(0x05u8),
        MmsHeader::From => Some(0x09u8),
        MmsHeader::MessageID => Some(0x0Bu8),
        MmsHeader::Subject => Some(0x16u8),
        MmsHeader::To => Some(0x17u8),
        MmsHeader::XMmsAdaptationAllowed => Some(0x3Cu8),
        MmsHeader::XMmsContentLocation => Some(0x03u8),
        MmsHeader::XMmsDeliveryReport => Some(0x06u8),
        MmsHeader::XMmsExpiry => Some(0x08u8),
        MmsHeader::XMmsLimit => Some(0x33u8),
        MmsHeader::XMmsMMSVersion => Some(0x0Du8),
        MmsHeader::XMmsMessageClass => Some(0x0Au8),
        MmsHeader::XMmsMessageSize => Some(0x0Eu8),
        MmsHeader::XMmsMessageType => Some(0x0Cu8),
        MmsHeader::XMmsPriority => Some(0x0Fu8),
        MmsHeader::XMmsReadReport => Some(0x10u8),
        MmsHeader::XMmsRetrieveStatus => Some(0x19u8),
        MmsHeader::XMmsTransactionId => Some(0x18u8),
        MmsHeader::UnknownInt(i) => Some(i),
        MmsHeader::ImplicitBody => None,
    }
}

impl MmsHeader {
    /// The header identity that a seven-bit code names.
    pub fn from_code(d: u8) -> (r: MmsHeader)
        ensures
            r == header_for_code(d),
    {
        match d {
            0x01 => MmsHeader::Bcc,
            0x02 => MmsHeader::Cc,
            0x04 => MmsHeader::ContentType,
            0x05 => MmsHeader::Date,
            0x09 => MmsHeader::From,
            0x0B => MmsHeader::MessageID,
            0x16 => MmsHeader::Subject,
            0x17 => MmsHeader::To,
            0x3C => MmsHeader::XMmsAdaptationAllowed,
            0x03 => MmsHeader::XMmsContentLocation,
            0x06 => MmsHeader::XMmsDeliveryReport,
            0x08 => MmsHeader::XMmsExpiry,
            0x33 => MmsHeader::XMmsLimit,
            0x0D => MmsHeader::XMmsMMSVersion,
            0x0A => MmsHeader::XMmsMessageClass,
            0x0E => MmsHeader::XMmsMessageSize,
            0x0C => MmsHeader::XMmsMessageType,
            0x0F => MmsHeader::XMmsPriority,
            0x10 => MmsHeader::XMmsReadReport,
            0x19 => MmsHeader::XMmsRetrieveStatus,
            0x18 => MmsHeader::XMmsTransactionId,
            v => MmsHeader::UnknownInt(v),
        }
    }

    /// The seven-bit code of this header; the body has none.
    pub fn code(&self) -> (r: Option<u8>)
        ensures
            r == code_of_header(*self),
    {
        match self {
            MmsHeader::Bcc => Some(0x01),
            MmsHeader::Cc => Some(0x02),
            MmsHeader::ContentType => Some(0x04),
            MmsHeader::Date => Some(0x05),
            MmsHeader::From => Some(0x09),
            MmsHeader::MessageID => Some(0x0B),
            MmsHeader::Subject => Some(0x16),
            MmsHeader::To => Some(0x17),
            MmsHeader::XMmsAdaptationAllowed => Some(0x3C),
            MmsHeader::XMmsContentLocation => Some(0x03),
            MmsHeader::XMmsDeliveryReport => Some(0x06),
            MmsHeader::XMmsExpiry => Some(0x08),
            MmsHeader::XMmsLimit => Some(0x33),
            MmsHeader::XMmsMMSVersion => Some(0x0D),
            MmsHeader::XMmsMessageClass => Some(0x0A),
            MmsHeader::XMmsMessageSize => Some(0x0E),
            MmsHeader::XMmsMessageType => Some(0x0C),
            MmsHeader::XMmsPriority => Some(0x0F),
            MmsHeader::XMmsReadReport => Some(0x10),
            MmsHeader::XMmsRetrieveStatus => Some(0x19),
            MmsHeader::XMmsTransactionId => Some(0x18),
            MmsHeader::UnknownInt(i) => Some(*i),
            MmsHeader::ImplicitBody => None,
        }
    }
}

/// The kind of an MMS PDU.
#[derive(Debug, Clone, Copy, PartialEq, Eq, Structural)]
pub enum MessageTypeField {
    MSendReq,
    MSendConf,
    MNotificationInd,
    MNotifyrespInd,
    MRetrieveConf,
    MAcknowledgeInd,
    MDeliveryInd,
    MReadRecInd,
    MReadOrigInd,
    MForwardReq,
    MForwardConf,
    MMboxStoreReq,
    MMboxStoreConf,
    MMboxViewReq,
    MMboxViewConf,
    MMboxUploadReq,
    MMboxUploadConf,
    MMboxDeleteReq,
    MMboxDeleteConf,
    MMboxDescr,
    MDeleteReq,
    MDeleteConf,
    MCancelReq,
    MCancelConf,
}

/// The token of a message type.
pub open spec fn message_type_token(m: MessageTypeField) -> u8 {
    match m {
        MessageTypeField::MSendReq => 128u8,
        MessageTypeField::MSendConf => 129u8,
        MessageTypeField::MNotificationInd => 130u8,
        MessageTypeField::MNotifyrespInd => 131u8,
        MessageTypeField::MRetrieveConf => 132u8,
        MessageTypeField::MAcknowledgeInd => 133u8,
        MessageTypeField::MDeliveryInd => 134u8,
        MessageTypeField::MReadRecInd => 135u8,
        MessageTypeField::MReadOrigInd => 136u8,
        MessageTypeField::MForwardReq => 137u8,
        MessageTypeField::MForwardConf => 138u8,
        MessageTypeField::MMboxStoreReq => 139u8,
        MessageTypeField::MMboxStoreConf => 140u8,
        MessageTypeField::MMboxViewReq => 141u8,
        MessageTypeField::MMboxViewConf => 142u8,
        MessageTypeField::MMboxUploadReq => 143u8,
        MessageTypeField::MMboxUploadConf => 144u8,
        MessageTypeField::MMboxDeleteReq => 145u8,
        MessageTypeField::MMboxDeleteConf => 146u8,
        MessageTypeField::MMboxDescr => 147u8,
        MessageTypeField::MDeleteReq => 148u8,
        MessageTypeField::MDeleteConf => 149u8,
        MessageTypeField::MCancelReq => 150u8,
        MessageTypeField::MCancelConf => 151u8,
    }
}

/// The message type that a token names.
pub open spec fn message_type_for_token(t: u8) -> Option<MessageTypeField> {
    match t {
        128 => Some(MessageTypeField::MSendReq),
        129 => Some(MessageTypeField::MSendConf),
        130 => Some(MessageTypeField::MNotificationInd),
        131 => Some(MessageTypeField::MNotifyrespInd),
        132 => Some(MessageTypeField::MRetrieveConf),
        133 => Some(MessageTypeField::MAcknowledgeInd),
        134 => Some(MessageTypeField::MDeliveryInd),
        135 => Some(MessageTypeField::MReadRecInd),
        136 => Some(MessageTypeField::MReadOrigInd),
        137 => Some(MessageTypeField::MForwardReq),
        138 => Some(MessageTypeField::MForwardConf),
        139 => Some(MessageTypeField::MMboxStoreReq),
        140 => Some(MessageTypeField::MMboxStoreConf),
        141 => Some(MessageTypeField::MMboxViewReq),
        142 => Some(MessageTypeField::MMboxViewConf),
        143 => Some(MessageTypeField::MMboxUploadReq),
        144 => Some(MessageTypeField::MMboxUploadConf),
        145 => Some(MessageTypeField::MMboxDeleteReq),
        146 => Some(MessageTypeField::MMboxDeleteConf),
        147 => Some(MessageTypeField::MMboxDescr),
        148 => Some(MessageTypeField::MDeleteReq),
        149 => Some(MessageTypeField::MDeleteConf),
        150 => Some(MessageTypeField::MCancelReq),
        151 => Some(MessageTypeField::MCancelConf),
        _ => None,
    }
}

impl MessageTypeField {
    /// The message type that a token names.
    pub fn from_token(t: u8) -> (r: Option<MessageTypeField>)
        ensures
            r == message_type_for_token(t),
    {
        match t {
            128 => Some(MessageTypeField::MSendReq),
            129 => Some(MessageTypeField::MSendConf),
            130 => Some(MessageTypeField::MNotificationInd),
            131 => Some(MessageTypeField::MNotifyrespInd),
            132 => Some(MessageTypeField::MRetrieveConf),
            133 => Some(MessageTypeField::MAcknowledgeInd),
            134 => Some(MessageTypeField::MDeliveryInd),
            135 => Some(MessageTypeField::MReadRecInd),
            136 => Some(MessageTypeField::MReadOrigInd),
            137 => Some(MessageTypeField::MForwardReq),
            138 => Some(MessageTypeField::MForwardConf),
            139 => Some(MessageTypeField::MMboxStoreReq),
            140 => Some(MessageTypeField::MMboxStoreConf),
            141 => Some(MessageTypeField::MMboxViewReq),
            142 => Some(MessageTypeField::MMboxViewConf),
            143 => Some(MessageTypeField::MMboxUploadReq),
            144 => Some(MessageTypeField::MMboxUploadConf),
            145 => Some(MessageTypeField::MMboxDeleteReq),
            146 => Some(MessageTypeField::MMboxDeleteConf),
            147 => Some(MessageTypeField::MMboxDescr),
            148 => Some(MessageTypeField::MDeleteReq),
            149 => Some(MessageTypeField::MDeleteConf),
            150 => Some(MessageTypeField::MCancelReq),
            151 => Some(MessageTypeField::MCancelConf),
            _ => None,
        }
    }

    /// The token of this message type.
    pub fn token(&self) -> (r: u8)
        ensures
            r == message_type_token(*self),
    {
        match self {
            MessageTypeField::MSendReq => 128,
            MessageTypeField::MSendConf => 129,
            MessageTypeField::MNotificationInd => 130,
            MessageTypeField::MNotifyrespInd => 131,
            MessageTypeField::MRetrieveConf => 132,
            MessageTypeField::MAcknowledgeInd => 133,
            MessageTypeField::MDeliveryInd => 134,
            MessageTypeField::MReadRecInd => 135,
            MessageTypeField::MReadOrigInd => 136,
            MessageTypeField::MForwardReq => 137,
            MessageTypeField::MForwardConf => 138,
            MessageTypeField::MMboxStoreReq => 139,
            MessageTypeField::MMboxStoreConf => 140,
            MessageTypeField::MMboxViewReq => 141,
            MessageTypeField::MMboxViewConf => 142,
            MessageTypeField::MMboxUploadReq => 143,
            MessageTypeField::MMboxUploadConf => 144,
            MessageTypeField::MMboxDeleteReq => 145,
            MessageTypeField::MMboxDeleteConf => 146,
            MessageTypeField::MMboxDescr => 147,
            MessageTypeField::MDeleteReq => 148,
            MessageTypeField::MDeleteConf => 149,
            MessageTypeField::MCancelReq => 150,
            MessageTypeField::MCancelConf => 151,
        }
    }
}

/// The class of a message.
#[derive(Debug, Clone, PartialEq, Eq)]
pub enum ClassIdentifier {
    Personal,
    Advertisment,
    Informational,
    Auto,
    Other(String),
}

/// What a message class holds.
pub enum ClassIdentifierView {
    Personal,
    Advertisment,
    Informational,
    Auto,
    Other(Seq<char>),
}

impl View for ClassIdentifier {
    type V = ClassIdentifierView;

    open spec fn view(&self) -> ClassIdentifierView {
        match self {
            ClassIdentifier::Personal => ClassIdentifierView::Personal,
            ClassIdentifier::Advertisment => ClassIdentifierView::Advertisment,
            ClassIdentifier::Informational => ClassIdentifierView::Informational,
            ClassIdentifier::Auto => ClassIdentifierView::Auto,
            ClassIdentifier::Other(s) => ClassIdentifierView::Other(s@),
        }
    }
}

/// When a message expires: a time, or a span from now, in seconds.
#[derive(Debug, Clone, Copy, PartialEq, Eq, Structural)]
pub enum ExpiryField {
    Absolute(u64),
    Relative(u64),
}

/// The outcome of a retrieval.
#[derive(Debug, Clone, Copy, PartialEq, Eq, Structural)]
pub enum RetrieveStatusField {
    Success,
    ErrorTransientFailure,
    ErrorTransientFailureOther(u8),
    ErrorTransientMessageNotFound,
    ErrorTransientNetworkProblem,
    ErrorPermanentFailure,
    ErrorPermanentFailureOther(u8),
    ErrorPermanentServceDenied,
    ErrorPermanentMessageNotFound,
    ErrorPermanentContentUnsupported,
}

/// The sender: an address, or a request that the gateway insert one.
#[derive(Debug, Clone, PartialEq, Eq)]
pub enum FromField {
    Address(String),
    InsertAddress,
}

/// What a sender field holds.
pub enum FromFieldView {
    Address(Seq<char>),
    InsertAddress,
}

impl View for FromField {
    type V = FromFieldView;

    open spec fn view(&self) -> FromFieldView {
        match self {
            FromField::Address(s) => FromFieldView::Address(s@),
            FromField::InsertAddress => FromFieldView::InsertAddress,
        }
    }
}

/// The value of an MMS header.
#[derive(Debug, Clone, PartialEq, Eq)]
pub enum MmsHeaderValue {
    Bool(bool),
    LongUint(u64),
    ShortUint(u8),
    String(String),
    Bytes(Vec<u8>),
    ContentType(ContentType),
    ExpiryField(ExpiryField),
    ClassIdentifier(ClassIdentifier),
    MessageTypeField(MessageTypeField),
    RetrieveStatusField(RetrieveStatusField),
    FromField(FromField),
}

/// What a header value holds.
pub enum MmsHeaderValueView {
    Bool(bool),
    LongUint(u64),
    ShortUint(u8),
    String(Seq<char>),
    Bytes(Seq<u8>),
    ContentType(ContentTypeView),
    ExpiryField(ExpiryField),
    ClassIdentifier(ClassIdentifierView),
    MessageTypeField(MessageTypeField),
    RetrieveStatusField(RetrieveStatusField),
    FromField(FromFieldView),
}

impl View for MmsHeaderValue {
    type V = MmsHeaderValueView;

    open spec fn view(&self) -> MmsHeaderValueView {
        match self {
            MmsHeaderValue::Bool(v) => MmsHeaderValueView::Bool(*v),
            MmsHeaderValue::LongUint(v) => MmsHeaderValueView::LongUint(*v),
            MmsHeaderValue::ShortUint(v) => MmsHeaderValueView::ShortUint(*v),
            MmsHeaderValue::String(v) => MmsHeaderValueView::String(v@),
            MmsHeaderValue::Bytes(v) => MmsHeaderValueView::Bytes(v@),
            MmsHeaderValue::ContentType(v) => MmsHeaderValueView::ContentType(v@),
            MmsHeaderValue::ExpiryField(v) => MmsHeaderValueView::ExpiryField(*v),
            MmsHeaderValue::ClassIdentifier(v) => MmsHeaderValueView::ClassIdentifier(v@),
            MmsHeaderValue::MessageTypeField(v) => MmsHeaderValueView::MessageTypeField(*v),
            MmsHeaderValue::RetrieveStatusField(v) => MmsHeaderValueView::RetrieveStatusField(*v),
            MmsHeaderValue::FromField(v) => MmsHeaderValueView::FromField(v@),
        }
    }
}

/// A yes/no token: 128 is yes, 129 is no.
pub open spec fn spec_bool_token(d: Seq<u8>) -> Result<bool, DecodeError> {
    if d.len() == 0 {
        Err(DecodeError::TruncatedInput)
    } else if d[0] == 128 {
        Ok(true)
    } else if d[0] == 129 {
        Ok(false)
    } else {
        Err(DecodeError::UnexpectedToken)
    }
}

/// A message class: a class token, or a text string naming another class.
pub open spec fn spec_class(d: Seq<u8>) -> Result<ClassIdentifierView, DecodeError> {
    if d.len() > 0 && d[0] == 128 {
        Ok(ClassIdentifierView::Personal)
    } else if d.len() > 0 && d[0] == 129 {
        Ok(ClassIdentifierView::Advertisment)
    } else if d.len() > 0 && d[0] == 130 {
        Ok(ClassIdentifierView::Informational)
    } else if d.len() > 0 && d[0] == 131 {
        Ok(ClassIdentifierView::Auto)
    } else {
        match spec_text_string(d) {
            Err(e) => Err(e),
            Ok((s, _)) => Ok(ClassIdentifierView::Other(s)),
        }
    }
}

/// A retrieval status token.
pub open spec fn retrieve_status_for(b: u8) -> RetrieveStatusField {
    if b == 192 {
        RetrieveStatusField::ErrorTransientFailure
    } else if b == 193 {
        RetrieveStatusField::ErrorTransientMessageNotFound
    } else if b == 194 {
        RetrieveStatusField::ErrorTransientNetworkProblem
    } else if 195 <= b <= 223 {
        RetrieveStatusField::ErrorTransientFailureOther(b)
    } else if b == 224 {
        RetrieveStatusField::ErrorPermanentFailure
    } else if b == 225 {
        RetrieveStatusField::ErrorPermanentServceDenied
    } else if b == 226 {
        RetrieveStatusField::ErrorPermanentMessageNotFound
    } else if b == 227 {
        RetrieveStatusField::ErrorPermanentContentUnsupported
    } else if b == 128 {
        RetrieveStatusField::Success
    } else {
        RetrieveStatusField::ErrorPermanentFailureOther(b)
    }
}

/// An address field: a value length over the token 128 and an
/// encoded-string value, or over the token 129 alone.
pub open spec fn spec_from(d: Seq<u8>) -> Result<FromFieldView, DecodeError> {
    match spec_length_prefixed(d) {
        Err(e) => Err(e),
        Ok((v, _)) => if v.len() == 0 {
            Err(DecodeError::TruncatedInput)
        } else if v[0] == 128 {
            match spec_encoded_string(v.skip(1)) {
                Err(e) => Err(e),
                Ok((s, _)) => Ok(FromFieldView::Address(s)),
            }
        } else if v[0] == 129 {
            Ok(FromFieldView::InsertAddress)
        } else {
            Err(DecodeError::UnexpectedToken)
        }
    }
}

/// The value of header `field`, read from its field bytes `d`. A header
/// without a decoder keeps its bytes.
pub open spec fn spec_header_value(field: MmsHeader, d: Seq<u8>) -> Result<MmsHeaderValueView, DecodeError> {
    match field {
        MmsHeader::ContentType => match spec_content_type(d) {
            Err(e) => Err(e),
            Ok((c, _)) => Ok(MmsHeaderValueView::ContentType(c)),
        },
        MmsHeader::Date | MmsHeader::XMmsMessageSize => match spec_long_integer(d) {
            Err(e) => Err(e),
            Ok((v, _)) => Ok(MmsHeaderValueView::LongUint(v)),
        },
        MmsHeader::From => match spec_from(d) {
            Err(e) => Err(e),
            Ok(f) => Ok(MmsHeaderValueView::FromField(f)),
        },
        MmsHeader::MessageID | MmsHeader::XMmsContentLocation | MmsHeader::XMmsTransactionId => match spec_text_string(d) {
            Err(e) => Err(e),
            Ok((s, _)) => Ok(MmsHeaderValueView::String(s)),
        },
        MmsHeader::Subject | MmsHeader::To | MmsHeader::Cc | MmsHeader::Bcc => match spec_encoded_string(d) {
            Err(e) => Err(e),
            Ok((s, _)) => Ok(MmsHeaderValueView::String(s)),
        },
        MmsHeader::XMmsDeliveryReport | MmsHeader::XMmsReadReport => match spec_bool_token(d) {
            Err(e) => Err(e),
            Ok(b) => Ok(MmsHeaderValueView::Bool(b)),
        },
        MmsHeader::XMmsMMSVersion => match spec_short_integer(d) {
            Err(e) => Err(e),
            Ok((v, _)) => Ok(MmsHeaderValueView::ShortUint(v)),
        },
        MmsHeader::XMmsMessageClass => match spec_class(d) {
            Err(e) => Err(e),
            Ok(c) => Ok(MmsHeaderValueView::ClassIdentifier(c)),
        },
        MmsHeader::XMmsMessageType => if d.len() == 0 {
            Err(DecodeError::TruncatedInput)
        } else {
            match message_type_for_token(d[0]) {
                None => Err(DecodeError::UnexpectedToken),
                Some(m) => Ok(MmsHeaderValueView::MessageTypeField(m)),
            }
        },
        MmsHeader::XMmsPriority => if d.len() == 0 {
            Err(DecodeError::TruncatedInput)
        } else if 128 <= d[0] <= 130 {
            Ok(MmsHeaderValueView::ShortUint((d[0] - 127) as u8))
        } else {
            Err(DecodeError::UnexpectedToken)
        },
        MmsHeader::XMmsRetrieveStatus => if d.len() == 0 {
            Err(DecodeError::TruncatedInput)
        } else {
            Ok(MmsHeaderValueView::RetrieveStatusField(retrieve_status_for(d[0])))
        },
        _ => Ok(MmsHeaderValueView::Bytes(d)),
    }
}

/// A header byte whose code is not registered decodes to `UnknownInt` with
/// that code, and its value keeps the field bytes exactly.
pub proof fn lemma_unknown_header_keeps_bytes(code: u8, d: Seq<u8>)
    requires
        header_for_code(code) is UnknownInt,
    ensures
        header_for_code(code) == MmsHeader::UnknownInt(code),
        spec_header_value(header_for_code(code), d) == Ok::<MmsHeaderValueView, DecodeError>(MmsHeaderValueView::Bytes(d)),
{
}

fn parse_bool_token(d: &[u8]) -> (r: Result<bool, DecodeError>)
    ensures
        r == spec_bool_token(d@),
{
    if d.len() == 0 {
        Err(DecodeError::TruncatedInput)
    } else if d[0] == 128 {
        Ok(true)
    } else if d[0] == 129 {
        Ok(false)
    } else {
        Err(DecodeError::UnexpectedToken)
    }
}

/// Reads a class token: 128 personal, 129 advertisement, 130
/// informational, 131 auto.
pub fn parse_enum_class(d: &[u8]) -> (r: Result<(&[u8], ClassIdentifier), DecodeError>)
    ensures
        d@.len() == 0 ==> r == Err::<(&[u8], ClassIdentifier), DecodeError>(DecodeError::TruncatedInput),
        d@.len() > 0 && !(128 <= d@[0] <= 131) ==> r == Err::<(&[u8], ClassIdentifier), DecodeError>(DecodeError::UnexpectedToken),
        d@.len() > 0 && 128 <= d@[0] <= 131 ==> (r matches Ok((rest, c)) && rest@ == d@.skip(1)
            && c@ == spec_class(d@)->Ok_0),
{
    if d.len() == 0 {
        return Err(DecodeError::TruncatedInput);
    }
    let class = if d[0] == 128 {
        ClassIdentifier::Personal
    } else if d[0] == 129 {
        ClassIdentifier::Advertisment
    } else if d[0] == 130 {
        ClassIdentifier::Informational
    } else if d[0] == 131 {
        ClassIdentifier::Auto
    } else {
        return Err(DecodeError::UnexpectedToken);
    };
    let (_, rest) = d.split_at(1);
    Ok((rest, class))
}

/// Reads a class named by a text string.
pub fn parse_string_class(d: &[u8]) -> (r: Result<(&[u8], ClassIdentifier), DecodeError>)
    ensures
        match spec_text_string(d@) {
            Err(e) => r matches Err(f) && f == e,
            Ok((s, n)) => (r matches Ok((rest, c)) && rest@ == d@.skip(n as int)
                && c@ == ClassIdentifierView::Other(s)),
        },
{
    let (rest, s) = parse_text_string(d)?;
    Ok((rest, ClassIdentifier::Other(s)))
}

/// Reads a message class: a class token, or else a text string.
pub fn parse_class(d: &[u8]) -> (r: Result<ClassIdentifier, DecodeError>)
    ensures
        match spec_class(d@) {
            Err(e) => r == Err::<ClassIdentifier, DecodeError>(e),
            Ok(c) => (r matches Ok(x) && x@ == c),
        },
{
    match parse_enum_class(d) {
        Ok((_, c)) => Ok(c),
        Err(_) => {
            let (_, c) = parse_string_class(d)?;
            Ok(c)
        },
    }
}

fn parse_retrieve_status(b: u8) -> (r: RetrieveStatusField)
    ensures
        r == retrieve_status_for(b),
{
    if b == 192 {
        RetrieveStatusField::ErrorTransientFailure
    } else if b == 193 {
        RetrieveStatusField::ErrorTransientMessageNotFound
    } else if b == 194 {
        RetrieveStatusField::ErrorTransientNetworkProblem
    } else if 195 <= b && b <= 223 {
        RetrieveStatusField::ErrorTransientFailureOther(b)
    } else if b == 224 {
        RetrieveStatusField::ErrorPermanentFailure
    } else if b == 225 {
        RetrieveStatusField::ErrorPermanentServceDenied
    } else if b == 226 {
        RetrieveStatusField::ErrorPermanentMessageNotFound
    } else if b == 227 {
        RetrieveStatusField::ErrorPermanentContentUnsupported
    } else if b == 128 {
        RetrieveStatusField::Success
    } else {
        RetrieveStatusField::ErrorPermanentFailureOther(b)
    }
}

/// Reads an address field.
pub fn parse_from(d: &[u8]) -> (r: Result<FromField, DecodeError>)
    ensures
        match spec_from(d@) {
            Err(e) => r == Err::<FromField, DecodeError>(e),
            Ok(f) => (r matches Ok(x) && x@ == f),
        },
{
    let (_, value) = take_length_prefixed(d)?;
    if value.len() == 0 {
        return Err(DecodeError::TruncatedInput);
    }
    let token = value[0];
    if token == 128 {
        let (_, data) = value.split_at(1);
        let (_, s) = parse_encoded_string_value(data)?;
        Ok(FromField::Address(s))
    } else if token == 129 {
        Ok(FromField::InsertAddress)
    } else {
        Err(DecodeError::UnexpectedToken)
    }
}

/// Decodes the value of header `field` from its field bytes; a header
/// without a decoder, an unregistered code among them, keeps its bytes.
pub fn parse_header_field(field: MmsHeader, d: &[u8]) -> (r: Result<MmsHeaderValue, DecodeError>)
    ensures
        match spec_header_value(field, d@) {
            Err(e) => r == Err::<MmsHeaderValue, DecodeError>(e),
            Ok(v) => (r matches Ok(x) && x@ == v),
        },
{
    match field {
        MmsHeader::ContentType => {
            let (_, c) = parse_content_type(d)?;
            Ok(MmsHeaderValue::ContentType(c))
        },
        MmsHeader::Date | MmsHeader::XMmsMessageSize => {
            let (_, v) = parse_long_integer(d)?;
            Ok(MmsHeaderValue::LongUint(v))
        },
        MmsHeader::From => {
            let f = parse_from(d)?;
            Ok(MmsHeaderValue::FromField(f))
        },
        MmsHeader::MessageID | MmsHeader::XMmsContentLocation | MmsHeader::XMmsTransactionId => {
            let (_, s) = parse_text_string(d)?;
            Ok(MmsHeaderValue::String(s))
        },
        MmsHeader::Subject | MmsHeader::To | MmsHeader::Cc | MmsHeader::Bcc => {
            let (_, s) = parse_encoded_string_value(d)?;
            Ok(MmsHeaderValue::String(s))
        },
        MmsHeader::XMmsDeliveryReport | MmsHeader::XMmsReadReport => {
            let b = parse_bool_token(d)?;
            Ok(MmsHeaderValue::Bool(b))
        },
        MmsHeader::XMmsMMSVersion => {
            let (_, v) = parse_short_integer(d)?;
            Ok(MmsHeaderValue::ShortUint(v))
        },
        MmsHeader::XMmsMessageClass => {
            let c = parse_class(d)?;
            Ok(MmsHeaderValue::ClassIdentifier(c))
        },
        MmsHeader::XMmsMessageType => {
            if d.len() == 0 {
                return Err(DecodeError::TruncatedInput);
            }
            match MessageTypeField::from_token(d[0]) {
                None => Err(DecodeError::UnexpectedToken),
                Some(m) => Ok(MmsHeaderValue::MessageTypeField(m)),
            }
        },
        MmsHeader::XMmsPriority => {
            if d.len() == 0 {
                return Err(DecodeError::TruncatedInput);
            }
            let p = d[0];
            if 128 <= p && p <= 130 {
                Ok(MmsHeaderValue::ShortUint(p - 127))
            } else {
                Err(DecodeError::UnexpectedToken)
            }
        },
        MmsHeader::XMmsRetrieveStatus => {
            if d.len() == 0 {
                return Err(DecodeError::TruncatedInput);
            }
            Ok(MmsHeaderValue::RetrieveStatusField(parse_retrieve_status(d[0])))
        },
        _ => {
            let mut raw: Vec<u8> = Vec::new();
            extend_bytes(&mut raw, d);
            Ok(MmsHeaderValue::Bytes(raw))
        },
    }
}

/// Whether a header has an encoder.
pub open spec fn has_encoder(h: MmsHeader) -> bool {
    match h {
        MmsHeader::XMmsMessageType | MmsHeader::XMmsTransactionId | MmsHeader::XMmsMMSVersion
        | MmsHeader::XMmsDeliveryReport | MmsHeader::XMmsReadReport | MmsHeader::XMmsMessageClass
        | MmsHeader::From | MmsHeader::To | MmsHeader::Cc | MmsHeader::Bcc | MmsHeader::Subject
        | MmsHeader::ContentType => true,
        MmsHeader::UnknownInt(i) => i < 128,
        _ => false,
    }
}

/// The wire form of a message class.
pub open spec fn class_wire(c: ClassIdentifierView) -> Seq<u8> {
    match c {
        ClassIdentifierView::Personal => seq![128u8],
        ClassIdentifierView::Advertisment => seq![129u8],
        ClassIdentifierView::Informational => seq![130u8],
        ClassIdentifierView::Auto => seq![131u8],
        ClassIdentifierView::Other(s) => text_string_wire(encode_utf8(s)),
    }
}

/// The wire form of a sender field.
pub open spec fn from_wire(f: FromFieldView) -> Seq<u8> {
    match f {
        FromFieldView::Address(s) => address_wire(encode_utf8(s)),
        FromFieldView::InsertAddress => value_length_encoding(1) + seq![129u8],
    }
}

/// The wire form of a header's value, where its kind fits the header. Raw
/// bytes fit only a header whose code is not registered.
#[verifier::opaque]
pub open spec fn header_value_wire(field: MmsHeader, v: MmsHeaderValueView) -> Result<Seq<u8>, EncodeError> {
    match (field, v) {
        (MmsHeader::UnknownInt(_), MmsHeaderValueView::Bytes(b)) => Ok(b),
        (MmsHeader::XMmsMessageType, MmsHeaderValueView::MessageTypeField(m)) => Ok(seq![message_type_token(m)]),
        (MmsHeader::XMmsTransactionId, MmsHeaderValueView::String(s)) => Ok(text_string_wire(encode_utf8(s))),
        (MmsHeader::To, MmsHeaderValueView::String(s)) => Ok(text_string_wire(encode_utf8(s))),
        (MmsHeader::Cc, MmsHeaderValueView::String(s)) => Ok(text_string_wire(encode_utf8(s))),
        (MmsHeader::Bcc, MmsHeaderValueView::String(s)) => Ok(text_string_wire(encode_utf8(s))),
        (MmsHeader::Subject, MmsHeaderValueView::String(s)) => Ok(text_string_wire(encode_utf8(s))),
        (MmsHeader::XMmsMMSVersion, MmsHeaderValueView::ShortUint(n)) => if n <= 0x7F {
            Ok(seq![(n + 128) as u8])
        } else {
            Err(EncodeError::TooLarge)
        },
        (MmsHeader::XMmsDeliveryReport, MmsHeaderValueView::Bool(b)) => Ok(seq![if b { 128u8 } else { 129u8 }]),
        (MmsHeader::XMmsReadReport, MmsHeaderValueView::Bool(b)) => Ok(seq![if b { 128u8 } else { 129u8 }]),
        (MmsHeader::XMmsMessageClass, MmsHeaderValueView::ClassIdentifier(c)) => Ok(class_wire(c)),
        (MmsHeader::From, MmsHeaderValueView::FromField(f)) => Ok(from_wire(f)),
        (MmsHeader::ContentType, MmsHeaderValueView::ContentType(c)) => content_type_wire(c),
        _ => Err(EncodeError::TypeMismatch(field)),
    }
}

/// The wire form of a header field: its header byte (the code with the top
/// bit set), then its value.
pub open spec fn header_field_wire(field: MmsHeader, v: MmsHeaderValueView) -> Result<Seq<u8>, EncodeError> {
    if !has_encoder(field) {
        Err(EncodeError::UnimplementedEncoder(HeaderIdentity::Mms(field)))
    } else {
        match header_value_wire(field, v) {
            Err(e) => Err(e),
            Ok(b) => Ok(seq![(code_of_header(field)->Some_0 + 128) as u8] + b),
        }
    }
}

fn encode_class(v: ClassIdentifier) -> (r: Vec<u8>)
    ensures
        r@ == class_wire(v@),
{
    match v {
        ClassIdentifier::Personal => vec![128u8],
        ClassIdentifier::Advertisment => vec![129u8],
        ClassIdentifier::Informational => vec![130u8],
        ClassIdentifier::Auto => vec![131u8],
        ClassIdentifier::Other(s) => encode_string(s),
    }
}

fn encode_from(v: FromField) -> (r: Vec<u8>)
    ensures
        r@ == from_wire(v@),
{
    match v {
        FromField::Address(addr) => encode_address(addr),
        FromField::InsertAddress => value_length(vec![129u8]),
    }
}

fn encode_header_value(field: MmsHeader, value: MmsHeaderValue) -> (r: Result<Vec<u8>, EncodeError>)
    ensures
        match header_value_wire(field, value@) {
            Err(e) => r == Err::<Vec<u8>, EncodeError>(e),
            Ok(b) => (r matches Ok(x) && x@ == b),
        },
{
    reveal(header_value_wire);
    match (field, value) {
        (MmsHeader::UnknownInt(_), MmsHeaderValue::Bytes(b)) => Ok(b),
        (MmsHeader::XMmsMessageType, MmsHeaderValue::MessageTypeField(m)) => Ok(vec![m.token()]),
        (MmsHeader::XMmsTransactionId, MmsHeaderValue::String(s)) => Ok(encode_string(s)),
        (MmsHeader::To, MmsHeaderValue::String(s)) => Ok(encode_string(s)),
        (MmsHeader::Cc, MmsHeaderValue::String(s)) => Ok(encode_string(s)),
        (MmsHeader::Bcc, MmsHeaderValue::String(s)) => Ok(encode_string(s)),
        (MmsHeader::Subject, MmsHeaderValue::String(s)) => Ok(encode_string(s)),
        (MmsHeader::XMmsMMSVersion, MmsHeaderValue::ShortUint(n)) => encode_short_integer(n),
        (MmsHeader::XMmsDeliveryReport, MmsHeaderValue::Bool(b)) => Ok(vec![if b { 128u8 } else { 129u8 }]),
        (MmsHeader::XMmsReadReport, MmsHeaderValue::Bool(b)) => Ok(vec![if b { 128u8 } else { 129u8 }]),
        (MmsHeader::XMmsMessageClass, MmsHeaderValue::ClassIdentifier(c)) => Ok(encode_class(c)),
        (MmsHeader::From, MmsHeaderValue::FromField(f)) => Ok(encode_from(f)),
        (MmsHeader::ContentType, MmsHeaderValue::ContentType(c)) => encode_content_type(&c),
        _ => Err(EncodeError::TypeMismatch(field)),
    }
}

/// Encodes one header field: its header byte, then its value.
pub fn encode_header_field(field: MmsHeader, value: MmsHeaderValue) -> (r: Result<Vec<u8>, EncodeError>)
    ensures
        match header_field_wire(field, value@) {
            Err(e) => r == Err::<Vec<u8>, EncodeError>(e),
            Ok(b) => (r matches Ok(x) && x@ == b),
        },
{
    let registered = match field {
        MmsHeader::XMmsMessageType | MmsHeader::XMmsTransactionId | MmsHeader::XMmsMMSVersion
        | MmsHeader::XMmsDeliveryReport | MmsHeader::XMmsReadReport | MmsHeader::XMmsMessageClass
        | MmsHeader::From | MmsHeader::To | MmsHeader::Cc | MmsHeader::Bcc | MmsHeader::Subject
        | MmsHeader::ContentType => true,
        MmsHeader::UnknownInt(i) => i < 128,
        _ => false,
    };
    if !registered {
        return Err(EncodeError::UnimplementedEncoder(HeaderIdentity::Mms(field)));
    }
    let code = match field.code() {
        Some(c) => c,
        None => return Err(EncodeError::UnimplementedEncoder(HeaderIdentity::Mms(field))),
    };
    let mut value_bytes = encode_header_value(field, value)?;
    let mut buf = vec![code + 128];
    buf.append(&mut value_bytes);
    Ok(buf)
}

} // verus!
