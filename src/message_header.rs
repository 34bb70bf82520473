//! The WAP headers that follow a content type in a push envelope or a
//! multipart entry, and the field framing they share with MMS headers.

use crate::error::{DecodeError, EncodeError, HeaderIdentity};
use crate::primitives::{
    decodes_to, encode_quoted_string, encode_string, extend_bytes, parse_quoted_string,
    parse_text_string, quoted_string_wire, spec_quoted_string, spec_text_string, text_string_wire,
};
use crate::uintvar::{read_uintvar, uintvar_decode};
use vstd::prelude::*;
use vstd::utf8::encode_utf8;

verus! {

/// A WAP header.
#[derive(Debug, Clone, PartialEq, Eq)]
pub enum MessageHeader {
    XWapApplicationId(usize),
    ContentLength(usize),
    AcceptCharset(u8),
    ContentId(String),
    ContentLocation(String),
    /// A header whose code has no decoder, with the code and its raw field.
    UnknownHeader(u8, Vec<u8>),
}

/// What a WAP header holds.
pub enum MessageHeaderView {
    XWapApplicationId(nat),
    ContentLength(nat),
    AcceptCharset(u8),
    ContentId(Seq<char>),
    ContentLocation(Seq<char>),
    UnknownHeader(u8, Seq<u8>),
}

impl View for MessageHeader {
    type V = MessageHeaderView;

    open spec fn view(&self) -> MessageHeaderView {
        match self {
            MessageHeader::XWapApplicationId(v) => MessageHeaderView::XWapApplicationId(*v as nat),
            MessageHeader::ContentLength(v) => MessageHeaderView::ContentLength(*v as nat),
            MessageHeader::AcceptCharset(v) => MessageHeaderView::AcceptCharset(*v),
            MessageHeader::ContentId(s) => MessageHeaderView::ContentId(s@),
            MessageHeader::ContentLocation(s) => MessageHeaderView::ContentLocation(s@),
            MessageHeader::UnknownHeader(c, b) => MessageHeaderView::UnknownHeader(*c, b@),
        }
    }
}

/// What each header of a list holds.
pub open spec fn headers_view(h: Seq<MessageHeader>) -> Seq<MessageHeaderView> {
    h.map_values(|x: MessageHeader| x@)
}

/// The extent of one field value: a value length and what it counts, a text
/// string with its terminator, or one byte with the top bit set.
pub open spec fn spec_field(d: Seq<u8>) -> Result<(Seq<u8>, nat), DecodeError> {
    if d.len() == 0 {
        Err(DecodeError::TruncatedInput)
    } else if d[0] <= 30 {
        if d.len() < d[0] + 1 {
            Err(DecodeError::TruncatedInput)
        } else {
            Ok((d.take(d[0] + 1), (d[0] + 1) as nat))
        }
    } else if d[0] == 31 {
        match uintvar_decode(d.skip(1)) {
            None => Err(DecodeError::TruncatedInput),
            Some((len, n)) => if 1 + n + len > d.len() {
                Err(DecodeError::TruncatedInput)
            } else {
                Ok((d.take(1 + n as int + len), (1 + n + len) as nat))
            },
        }
    } else if d[0] <= 127 {
        match crate::primitives::first_zero(d, 0) {
            None => Err(DecodeError::TruncatedInput),
            Some(z) => Ok((d.take(z + 1), (z + 1) as nat)),
        }
    } else {
        Ok((d.take(1), 1))
    }
}

/// Splits off the bytes of one field value, framing included.
pub fn take_field(d: &[u8]) -> (r: Result<(&[u8], &[u8]), DecodeError>)
    ensures
        decodes_to(d@, r, spec_field(d@)),
{
    if d.len() == 0 {
        return Err(DecodeError::TruncatedInput);
    }
    let first = d[0];
    if first <= 30 {
        let n = first as usize + 1;
        if d.len() < n {
            return Err(DecodeError::TruncatedInput);
        }
        let (v, rest) = d.split_at(n);
        Ok((rest, v))
    } else if first == 31 {
        let (_, after) = d.split_at(1);
        proof {
            crate::uintvar::lemma_uintvar_decode_bound(after@);
        }
        let (pu, len) = match read_uintvar(after) {
            Ok(x) => x,
            Err(_) => return Err(DecodeError::TruncatedInput),
        };
        let used = d.len() - pu.len();
        if len > pu.len() as u64 {
            return Err(DecodeError::TruncatedInput);
        }
        let n = used + len as usize;
        let (v, rest) = d.split_at(n);
        proof {
            let (l, k) = uintvar_decode(d@.skip(1))->Some_0;
            assert(l == len);
            assert(pu@ == d@.skip(1).skip(k as int));
            assert(used == 1 + k);
        }
        Ok((rest, v))
    } else if first <= 127 {
        proof {
            crate::primitives::lemma_first_zero_bound(d@, 0);
        }
        let (rest, v) = crate::primitives::take_text_string(d)?;
        Ok((rest, v))
    } else {
        let (v, rest) = d.split_at(1);
        Ok((rest, v))
    }
}

/// A one-byte value at the front of `d`.
pub open spec fn spec_byte(d: Seq<u8>) -> Result<(u8, nat), DecodeError> {
    if d.len() == 0 {
        Err(DecodeError::TruncatedInput)
    } else {
        Ok((d[0], 1))
    }
}

/// The value of a WAP header with code `code`, read from its field bytes.
pub open spec fn spec_header_item(code: u8, d: Seq<u8>) -> Result<MessageHeaderView, DecodeError> {
    if code == 0x01 {
        match spec_byte(d) {
            Err(e) => Err(e),
            Ok((b, _)) => Ok(MessageHeaderView::AcceptCharset(b)),
        }
    } else if code == 0x0D {
        match spec_byte(d) {
            Err(e) => Err(e),
            Ok((b, _)) => Ok(MessageHeaderView::ContentLength(b as nat)),
        }
    } else if code == 0x0E {
        match spec_text_string(d) {
            Err(e) => Err(e),
            Ok((s, _)) => Ok(MessageHeaderView::ContentLocation(s)),
        }
    } else if code == 0x40 {
        match spec_quoted_string(d) {
            Err(e) => Err(e),
            Ok((s, _)) => Ok(MessageHeaderView::ContentId(s)),
        }
    } else if code == 0x2F {
        match spec_byte(d) {
            Err(e) => Err(e),
            Ok((b, _)) => Ok(MessageHeaderView::XWapApplicationId(b as nat)),
        }
    } else {
        Ok(MessageHeaderView::UnknownHeader(code, d))
    }
}

/// Decodes the value of the WAP header with code `header_byte` from its
/// field bytes; a code without a decoder keeps the bytes as they are.
pub fn header_item(header_byte: u8, d: &[u8]) -> (r: Result<MessageHeader, DecodeError>)
    ensures
        match spec_header_item(header_byte, d@) {
            Err(e) => r == Err::<MessageHeader, DecodeError>(e),
            Ok(v) => (r matches Ok(h) && h@ == v),
        },
{
    if header_byte == 0x01 || header_byte == 0x0D || header_byte == 0x2F {
        if d.len() == 0 {
            return Err(DecodeError::TruncatedInput);
        }
        let b = d[0];
        if header_byte == 0x01 {
            Ok(MessageHeader::AcceptCharset(b))
        } else if header_byte == 0x0D {
            Ok(MessageHeader::ContentLength(b as usize))
        } else {
            Ok(MessageHeader::XWapApplicationId(b as usize))
        }
    } else if header_byte == 0x0E {
        let (_, v) = parse_text_string(d)?;
        Ok(MessageHeader::ContentLocation(v))
    } else if header_byte == 0x40 {
        let (_, v) = parse_quoted_string(d)?;
        Ok(MessageHeader::ContentId(v))
    } else {
        let mut raw: Vec<u8> = Vec::new();
        extend_bytes(&mut raw, d);
        Ok(MessageHeader::UnknownHeader(header_byte, raw))
    }
}

/// One WAP header: a header byte, whose low seven bits are the code, and a
/// field.
pub open spec fn spec_wap_header(d: Seq<u8>) -> Result<(MessageHeaderView, nat), DecodeError> {
    if d.len() == 0 {
        Err(DecodeError::TruncatedInput)
    } else {
        match spec_field(d.skip(1)) {
            Err(e) => Err(e),
            Ok((f, n)) => match spec_header_item((d[0] % 128) as u8, f) {
                Err(e) => Err(e),
                Ok(h) => Ok((h, n + 1)),
            },
        }
    }
}

/// Reads one WAP header.
pub fn wap_header_item(d: &[u8]) -> (r: Result<(&[u8], MessageHeader), DecodeError>)
    ensures
        decodes_to(d@, r, spec_wap_header(d@)),
{
    if d.len() == 0 {
        return Err(DecodeError::TruncatedInput);
    }
    let b = d[0];
    let code = b & 0x7F;
    proof {
        assert(b & 0x7f == b % 128) by (bit_vector);
    }
    let (_, after) = d.split_at(1);
    let (rest, field) = take_field(after)?;
    proof {
        let n = (spec_field(after@)->Ok_0).1;
        assert(after@.skip(n as int) == d@.skip(n as int + 1));
    }
    let h = header_item(code, field)?;
    Ok((rest, h))
}

/// WAP headers one after another to the end of `d`.
pub open spec fn spec_wap_headers(d: Seq<u8>) -> Result<Seq<MessageHeaderView>, DecodeError>
    decreases d.len(),
{
    if d.len() == 0 {
        Ok(Seq::empty())
    } else {
        match spec_wap_header(d) {
            Err(e) => Err(e),
            Ok((h, n)) => if n == 0 || n > d.len() {
                Err(DecodeError::TruncatedInput)
            } else {
                match spec_wap_headers(d.skip(n as int)) {
                    Err(e) => Err(e),
                    Ok(hs) => Ok(seq![h] + hs),
                }
            },
        }
    }
}

/// Reads WAP headers until `d` is used up.
pub fn wap_headers(d: &[u8]) -> (r: Result<Vec<MessageHeader>, DecodeError>)
    ensures
        match spec_wap_headers(d@) {
            Err(e) => r == Err::<Vec<MessageHeader>, DecodeError>(e),
            Ok(hs) => (r matches Ok(v) && headers_view(v@) == hs),
        },
    decreases d@.len(),
{
    if d.len() == 0 {
        let v: Vec<MessageHeader> = Vec::new();
        proof {
            assert(headers_view(v@) =~= Seq::<MessageHeaderView>::empty());
        }
        return Ok(v);
    }
    let (rest, h) = wap_header_item(d)?;
    if rest.len() >= d.len() {
        return Err(DecodeError::TruncatedInput);
    }
    let mut tail = wap_headers(rest)?;
    let ghost tv = tail@;
    let mut v: Vec<MessageHeader> = Vec::new();
    v.push(h);
    v.append(&mut tail);
    proof {
        assert(headers_view(v@) =~= seq![h@] + headers_view(tv));
    }
    Ok(v)
}

/// The seven-bit code of a WAP header.
pub open spec fn wap_header_code(h: MessageHeaderView) -> u8 {
    match h {
        MessageHeaderView::XWapApplicationId(_) => 0x2F,
        MessageHeaderView::ContentLength(_) => 0x0D,
        MessageHeaderView::AcceptCharset(_) => 0x01,
        MessageHeaderView::ContentId(_) => 0x40,
        MessageHeaderView::ContentLocation(_) => 0x0E,
        MessageHeaderView::UnknownHeader(c, _) => c,
    }
}

impl MessageHeader {
    /// The seven-bit code of this header.
    pub fn code(&self) -> (r: u8)
        ensures
            r == wap_header_code(self@),
    {
        match self {
            MessageHeader::XWapApplicationId(_) => 0x2F,
            MessageHeader::ContentLength(_) => 0x0D,
            MessageHeader::AcceptCharset(_) => 0x01,
            MessageHeader::ContentId(_) => 0x40,
            MessageHeader::ContentLocation(_) => 0x0E,
            MessageHeader::UnknownHeader(c, _) => *c,
        }
    }
}

/// The wire form of one WAP header; only Content-Location and Content-Id
/// have an encoder.
pub open spec fn wap_header_wire(h: MessageHeaderView) -> Result<Seq<u8>, EncodeError> {
    match h {
        MessageHeaderView::ContentLocation(s) => Ok(seq![0x8Eu8] + text_string_wire(encode_utf8(s))),
        MessageHeaderView::ContentId(s) => Ok(seq![0xC0u8] + quoted_string_wire(encode_utf8(s))),
        _ => Err(EncodeError::UnimplementedEncoder(HeaderIdentity::Wap(wap_header_code(h)))),
    }
}

/// The wire form of WAP headers, in order.
pub open spec fn wap_headers_wire(hs: Seq<MessageHeaderView>) -> Result<Seq<u8>, EncodeError>
    decreases hs.len(),
{
    if hs.len() == 0 {
        Ok(Seq::empty())
    } else {
        match wap_headers_wire(hs.drop_last()) {
            Err(e) => Err(e),
            Ok(front) => match wap_header_wire(hs.last()) {
                Err(e) => Err(e),
                Ok(b) => Ok(front + b),
            },
        }
    }
}

proof fn lemma_wap_headers_wire_err(hs: Seq<MessageHeaderView>, j: int)
    requires
        0 <= j <= hs.len(),
        wap_headers_wire(hs.take(j)) is Err,
    ensures
        wap_headers_wire(hs) == wap_headers_wire(hs.take(j)),
    decreases hs.len() - j,
{
    if j < hs.len() {
        assert(hs.take(j + 1).drop_last() == hs.take(j));
        lemma_wap_headers_wire_err(hs, j + 1);
    } else {
        assert(hs.take(j) == hs);
    }
}

/// Encodes WAP headers; only Content-Location and Content-Id have an
/// encoder.
pub fn encode_wap_headers(headers: &Vec<MessageHeader>) -> (r: Result<Vec<u8>, EncodeError>)
    ensures
        match wap_headers_wire(headers_view(headers@)) {
            Err(e) => r == Err::<Vec<u8>, EncodeError>(e),
            Ok(b) => (r matches Ok(v) && v@ == b),
        },
{
    let mut buf: Vec<u8> = Vec::new();
    let mut i: usize = 0;
    while i < headers.len()
        invariant
            i <= headers@.len(),
            wap_headers_wire(headers_view(headers@.take(i as int))) == Ok::<Seq<u8>, EncodeError>(buf@),
        decreases headers@.len() - i,
    {
        proof {
            assert(headers_view(headers@.take(i + 1)).drop_last() == headers_view(headers@.take(i as int)));
            assert(headers_view(headers@.take(i + 1)) == headers_view(headers@).take(i + 1));
            assert(headers_view(headers@.take(i + 1)).last() == headers@[i as int]@);
        }
        let ghost before = buf@;
        match &headers[i] {
            MessageHeader::ContentLocation(v) => {
                buf.push(0x8E);
                let mut s = encode_string(v.clone());
                buf.append(&mut s);
                assert(buf@ == before + (seq![0x8Eu8] + text_string_wire(encode_utf8(v@))));
            },
            MessageHeader::ContentId(v) => {
                buf.push(0xC0);
                let mut s = encode_quoted_string(v.clone());
                buf.append(&mut s);
                assert(buf@ == before + (seq![0xC0u8] + quoted_string_wire(encode_utf8(v@))));
            },
            other => {
                let code = other.code();
                proof {
                    lemma_wap_headers_wire_err(headers_view(headers@), i + 1);
                }
                return Err(EncodeError::UnimplementedEncoder(HeaderIdentity::Wap(code)));
            },
        }
        i = i + 1;
    }
    proof {
        assert(headers@.take(i as int) == headers@);
    }
    Ok(buf)
}

} // verus!
