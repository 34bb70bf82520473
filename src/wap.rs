//! The WAP push envelope around an MMS PDU.

use crate::content_type::{parse_content_type, spec_content_type, ContentType, ContentTypeView};
use crate::error::DecodeError;
use crate::message_header::{
    headers_view, spec_field, spec_wap_headers, take_field, wap_headers, MessageHeader,
    MessageHeaderView,
};
use crate::mms_header::MmsHeader;
use crate::multimap::{entries_view, header_entries, without_key};
use crate::pdu::{implicit_body, ok_fields, parse_mms_pdu, spec_split, VndWapMmsMessage};
use crate::text::str_eq;
use crate::uintvar::{read_uintvar, uintvar_decode};
use vstd::prelude::*;

verus! {

/// The type of a WSP PDU.
#[derive(Debug, Clone, Copy, PartialEq, Eq, Structural)]
pub enum PduType {
    Connect,
    ConnectReply,
    Redirect,
    Reply,
    Disconnect,
    Push,
    ConfirmedPush,
    Suspend,
    Resume,
    Get,
    Options,
    Head,
    Delete,
    Trace,
    Post,
    Put,
    DataFragment,
    Unknown(u8),
}

/// The PDU type that a code names.
pub open spec fn pdu_type_for(t: u8) -> PduType {
    match t {
        1 => PduType::Connect,
        2 => PduType::ConnectReply,
        3 => PduType::Redirect,
        4 => PduType::Reply,
        5 => PduType::Disconnect,
        6 => PduType::Push,
        7 => PduType::ConfirmedPush,
        8 => PduType::Suspend,
        9 => PduType::Resume,
        64 => PduType::Get,
        65 => PduType::Options,
        66 => PduType::Head,
        67 => PduType::Delete,
        68 => PduType::Trace,
        96 => PduType::Post,
        97 => PduType::Put,
        128 => PduType::DataFragment,
        _ => PduType::Unknown(t),
    }
}

impl PduType {
    /// The PDU type that a code names; other codes are kept as `Unknown`.
    pub fn from_code(t: u8) -> (r: PduType)
        ensures
            r == pdu_type_for(t),
    {
        match t {
            1 => PduType::Connect,
            2 => PduType::ConnectReply,
            3 => PduType::Redirect,
            4 => PduType::Reply,
            5 => PduType::Disconnect,
            6 => PduType::Push,
            7 => PduType::ConfirmedPush,
            8 => PduType::Suspend,
            9 => PduType::Resume,
            64 => PduType::Get,
            65 => PduType::Options,
            66 => PduType::Head,
            67 => PduType::Delete,
            68 => PduType::Trace,
            96 => PduType::Post,
            97 => PduType::Put,
            128 => PduType::DataFragment,
            _ => PduType::Unknown(t),
        }
    }
}

/// A response to a fetch, with its content type as text.
#[derive(Debug)]
pub struct FetchResponse {
    pub transaction_id: u8,
    pub message_type: PduType,
    pub content_type: String,
    pub headers: Vec<MessageHeader>,
    pub data: Vec<u8>,
}

/// A decoded WAP push.
#[derive(Debug)]
pub struct Wap {
    pub transaction_id: u8,
    pub message_type: PduType,
    pub content_type: ContentType,
    pub headers: Vec<MessageHeader>,
    pub data: Vec<u8>,
}

/// What a WAP push holds.
pub struct WapView {
    pub transaction_id: u8,
    pub message_type: PduType,
    pub content_type: ContentTypeView,
    pub headers: Seq<MessageHeaderView>,
    pub data: Seq<u8>,
}

impl View for Wap {
    type V = WapView;

    open spec fn view(&self) -> WapView {
        WapView {
            transaction_id: self.transaction_id,
            message_type: self.message_type,
            content_type: self.content_type@,
            headers: headers_view(self.headers@),
            data: self.data@,
        }
    }
}

/// The header block of a push: a content-type field, then WAP headers to the
/// end of the block.
pub open spec fn spec_message_headers(block: Seq<u8>) -> Result<(ContentTypeView, Seq<MessageHeaderView>), DecodeError> {
    match spec_field(block) {
        Err(e) => Err(e),
        Ok((f, k)) => match spec_content_type(f) {
            Err(e) => Err(e),
            Ok((ct, _)) => match spec_wap_headers(block.skip(k as int)) {
                Err(e) => Err(e),
                Ok(hs) => Ok((ct, hs)),
            },
        },
    }
}

/// A WAP push: a transaction id byte, a PDU type byte, a uintvar length and
/// a header block of that length, then the payload.
pub open spec fn spec_wap_push(d: Seq<u8>) -> Result<WapView, DecodeError> {
    if d.len() < 2 {
        Err(DecodeError::TruncatedInput)
    } else {
        match uintvar_decode(d.skip(2)) {
            None => Err(DecodeError::TruncatedInput),
            Some((len, n)) => if len > u64::MAX {
                Err(DecodeError::IntegerOverflow)
            } else if 2 + n + len > d.len() {
                Err(DecodeError::TruncatedInput)
            } else {
                match spec_message_headers(d.subrange(2 + n as int, 2 + n as int + len)) {
                    Err(e) => Err(e),
                    Ok((ct, hs)) => Ok(WapView {
                        transaction_id: d[0],
                        message_type: pdu_type_for(d[1]),
                        content_type: ct,
                        headers: hs,
                        data: d.skip(2 + n as int + len),
                    }),
                }
            },
        }
    }
}

/// Reads the header block of a push.
pub fn message_headers(block: &[u8]) -> (r: Result<(ContentType, Vec<MessageHeader>), DecodeError>)
    ensures
        match spec_message_headers(block@) {
            Err(e) => r == Err::<(ContentType, Vec<MessageHeader>), DecodeError>(e),
            Ok((ct, hs)) => (r matches Ok((c, h)) && c@ == ct && headers_view(h@) == hs),
        },
{
    let (rest, field) = take_field(block)?;
    let (_, content_type) = parse_content_type(field)?;
    let headers = wap_headers(rest)?;
    Ok((content_type, headers))
}

/// Reads a WAP push; the whole input is used.
pub fn parse_wap_push(d: &[u8]) -> (r: Result<(&[u8], Wap), DecodeError>)
    ensures
        match spec_wap_push(d@) {
            Err(e) => r matches Err(f) && f == e,
            Ok(w) => (r matches Ok((rest, x)) && rest@.len() == 0 && x@ == w),
        },
{
    if d.len() < 2 {
        return Err(DecodeError::TruncatedInput);
    }
    let transaction_id = d[0];
    let message_type = PduType::from_code(d[1]);
    let (_, after) = d.split_at(2);
    proof {
        crate::uintvar::lemma_uintvar_decode_bound(after@);
    }
    let (pu, len) = read_uintvar(after)?;
    if len > pu.len() as u64 {
        return Err(DecodeError::TruncatedInput);
    }
    let (block, data_bytes) = pu.split_at(len as usize);
    proof {
        let (l, n) = uintvar_decode(d@.skip(2))->Some_0;
        assert(pu@ == d@.skip(2 + n as int));
        assert(block@ == d@.subrange(2 + n as int, 2 + n as int + len));
        assert(data_bytes@ == d@.skip(2 + n as int + len));
    }
    let (content_type, headers) = message_headers(block)?;
    let mut data: Vec<u8> = Vec::new();
    crate::primitives::extend_bytes(&mut data, data_bytes);
    let (_, end) = data_bytes.split_at(data_bytes.len());
    Ok((end, Wap { transaction_id, message_type, content_type, headers, data }))
}

impl Wap {
    /// Decodes the payload as an MMS PDU, where the push says it holds one.
    pub fn parse_body(&self) -> (r: Option<VndWapMmsMessage>)
        ensures
            self@.content_type.media != "application/vnd.wap.mms-message"@ ==> r is None,
            self@.content_type.media == "application/vnd.wap.mms-message"@ ==> match spec_split(self.data@, true) {
                Err(_) => r is None,
                Ok(fs) => (r matches Some(m)
                    && entries_view(header_entries(m.headers)) == without_key(ok_fields(fs), MmsHeader::ImplicitBody)
                    && m.body@ == implicit_body(ok_fields(fs))),
            },
    {
        if !str_eq(self.content_type.essence_str(), "application/vnd.wap.mms-message") {
            return None;
        }
        match parse_mms_pdu(self.data.as_slice()) {
            Ok((_, m)) => Some(m),
            Err(_) => None,
        }
    }
}

} // verus!
