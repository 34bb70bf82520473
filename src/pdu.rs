//! MMS PDUs: splitting a header block into fields, decoding each field, and
//! assembling the message.

use crate::content_type::{content_type_code, content_type_code_spec, ContentType};
use crate::error::DecodeError;
use crate::message_header::{spec_field, take_field};
use crate::mms_header::{
    header_for_code, parse_header_field, spec_header_value, MmsHeader, MmsHeaderValue,
    MmsHeaderValueView,
};
use crate::multimap::{
    entries_view, first_value, header_entries, header_map_append, header_map_get, header_map_new,
    header_map_remove, without_key, HeaderMap,
};
use crate::primitives::{extend_bytes, first_zero};
use crate::uintvar::{uintvar_decode, uintvar_terminator};
use vstd::prelude::*;

verus! {

/// What the enclosing message is known to carry.
#[derive(Debug, Clone, Copy, PartialEq, Eq, Structural)]
pub struct MessageClass {
    /// Whether a body follows the headers, after the Content-Type header.
    pub has_body: bool,
}

/// What the splitter is told about the message it splits.
#[derive(Debug, Clone, Copy, PartialEq, Eq, Structural)]
pub struct ParserCtx {
    pub message_class: MessageClass,
}

/// Header identities and the raw bytes of their fields.
pub open spec fn fields_view(v: Seq<(MmsHeader, Vec<u8>)>) -> Seq<(MmsHeader, Seq<u8>)> {
    v.map_values(|x: (MmsHeader, Vec<u8>)| (x.0, x.1@))
}

/// One header field: a header byte with the top bit set, then its field.
pub open spec fn spec_header_field(d: Seq<u8>) -> Result<((MmsHeader, Seq<u8>), nat), DecodeError> {
    if d.len() == 0 {
        Err(DecodeError::TruncatedInput)
    } else if d[0] < 128 {
        Err(DecodeError::InvalidLeadByte)
    } else {
        match spec_field(d.skip(1)) {
            Err(e) => Err(e),
            Ok((f, n)) => Ok(((header_for_code((d[0] - 128) as u8), f), n + 1)),
        }
    }
}

/// A header block split into fields. Where the message has a body, the
/// Content-Type field ends the headers and the bytes after it are the body,
/// under the identity `ImplicitBody`.
pub open spec fn spec_split(d: Seq<u8>, has_body: bool) -> Result<Seq<(MmsHeader, Seq<u8>)>, DecodeError>
    decreases d.len(),
{
    if d.len() == 0 {
        Ok(Seq::empty())
    } else {
        match spec_header_field(d) {
            Err(e) => Err(e),
            Ok((hf, n)) => if n == 0 || n > d.len() {
                Err(DecodeError::TruncatedInput)
            } else if has_body && hf.0 == MmsHeader::ContentType {
                Ok(seq![hf, (MmsHeader::ImplicitBody, d.skip(n as int))])
            } else {
                match spec_split(d.skip(n as int), has_body) {
                    Err(e) => Err(e),
                    Ok(rest) => Ok(seq![hf] + rest),
                }
            },
        }
    }
}

/// Where the message has a body, a Content-Type field ends the split: the
/// bytes after it, exactly, are the body, and no header is read from them.
pub proof fn lemma_content_type_ends_headers(d: Seq<u8>)
    requires
        d.len() > 0,
        d[0] == 0x84,
        spec_field(d.skip(1)) is Ok,
    ensures
        ({
            let (f, n) = spec_field(d.skip(1))->Ok_0;
            spec_split(d, true) == Ok::<Seq<(MmsHeader, Seq<u8>)>, DecodeError>(
                seq![(MmsHeader::ContentType, f), (MmsHeader::ImplicitBody, d.skip(n as int + 1))],
            )
        }),
{
    let (f, n) = spec_field(d.skip(1))->Ok_0;
    assert(header_for_code((d[0] - 128) as u8) == MmsHeader::ContentType);
    assert(n <= d.skip(1).len()) by {
        lemma_field_bound(d.skip(1));
    }
}

proof fn lemma_first_zero_extend(d: Seq<u8>, x: Seq<u8>, i: int)
    requires
        0 <= i,
        first_zero(d, i) is Some,
    ensures
        first_zero(d + x, i) == first_zero(d, i),
    decreases d.len() - i,
{
    crate::primitives::lemma_first_zero_bound(d, i);
    if d[i] != 0 {
        lemma_first_zero_extend(d, x, i + 1);
    }
    assert((d + x)[i] == d[i]);
}

proof fn lemma_terminator_extend(d: Seq<u8>, x: Seq<u8>, i: int)
    requires
        0 <= i,
        uintvar_terminator(d, i) is Some,
    ensures
        uintvar_terminator(d + x, i) == uintvar_terminator(d, i),
    decreases d.len() - i,
{
    if i < d.len() {
        assert((d + x)[i] == d[i]);
        if d[i] >= 128 {
            lemma_terminator_extend(d, x, i + 1);
        }
    }
}

proof fn lemma_uintvar_extend(d: Seq<u8>, x: Seq<u8>)
    requires
        uintvar_decode(d) is Some,
    ensures
        uintvar_decode(d + x) == uintvar_decode(d),
{
    lemma_terminator_extend(d, x, 0);
    crate::uintvar::lemma_uintvar_decode_bound(d);
    let t = uintvar_terminator(d, 0)->Some_0;
    crate::uintvar::lemma_terminator_bound(d, 0);
    assert(0 <= t && t + 1 <= d.len());
    assert forall|j: int| 0 <= j < t + 1 implies #[trigger] (d + x).take(t + 1)[j] == d.take(t + 1)[j] by {
        assert((d + x)[j] == d[j]);
    }
    assert((d + x).take(t + 1) =~= d.take(t + 1));
}

/// A field reads the same however many bytes follow it.
pub proof fn lemma_field_extend(d: Seq<u8>, x: Seq<u8>)
    requires
        spec_field(d) is Ok,
    ensures
        spec_field(d + x) == spec_field(d),
{
    lemma_field_bound(d);
    let e = d + x;
    assert(e[0] == d[0]);
    if d[0] <= 30 {
        assert(e.take(d[0] + 1) == d.take(d[0] + 1));
    } else if d[0] == 31 {
        assert(e.skip(1) == d.skip(1) + x);
        lemma_uintvar_extend(d.skip(1), x);
        let (len, n) = uintvar_decode(d.skip(1))->Some_0;
        assert(e.take(1 + n as int + len) == d.take(1 + n as int + len));
    } else if d[0] <= 127 {
        lemma_first_zero_extend(d, x, 0);
        crate::primitives::lemma_first_zero_bound(d, 0);
        let z = first_zero(d, 0)->Some_0;
        assert(e.take(z + 1) == d.take(z + 1));
    } else {
        assert(e.take(1) == d.take(1));
    }
}

/// Header fields that split on their own, with no Content-Type among them,
/// split the same with any bytes after them, which are split in turn.
pub proof fn lemma_split_prefix(h: Seq<u8>, x: Seq<u8>)
    requires
        spec_split(h, true) is Ok,
        forall|i: int| 0 <= i < (spec_split(h, true)->Ok_0).len()
            ==> (#[trigger] (spec_split(h, true)->Ok_0)[i]).0 != MmsHeader::ContentType,
    ensures
        spec_split(h + x, true) == (match spec_split(x, true) {
            Ok(r) => Ok::<Seq<(MmsHeader, Seq<u8>)>, DecodeError>((spec_split(h, true)->Ok_0) + r),
            Err(e) => Err(e),
        }),
    decreases h.len(),
{
    if h.len() == 0 {
        assert(h + x == x);
        assert((spec_split(h, true)->Ok_0) =~= Seq::<(MmsHeader, Seq<u8>)>::empty());
        match spec_split(x, true) {
            Ok(r) => {
                assert(Seq::<(MmsHeader, Seq<u8>)>::empty() + r == r);
            },
            Err(_) => {},
        }
    } else {
        let ((k, f), n) = spec_header_field(h)->Ok_0;
        let e = h + x;
        assert(e[0] == h[0]);
        assert(e.skip(1) == h.skip(1) + x);
        lemma_field_extend(h.skip(1), x);
        assert(spec_header_field(e) == spec_header_field(h));
        assert((spec_split(h, true)->Ok_0)[0] == (k, f));
        let rest = spec_split(h.skip(n as int), true)->Ok_0;
        assert(spec_split(h, true)->Ok_0 == seq![(k, f)] + rest);
        assert forall|i: int| 0 <= i < rest.len() implies (#[trigger] rest[i]).0 != MmsHeader::ContentType by {
            assert(rest[i] == (spec_split(h, true)->Ok_0)[i + 1]);
        }
        lemma_split_prefix(h.skip(n as int), x);
        assert(e.skip(n as int) == h.skip(n as int) + x);
        match spec_split(x, true) {
            Ok(r) => {
                assert(seq![(k, f)] + (rest + r) == (seq![(k, f)] + rest) + r);
            },
            Err(_) => {},
        }
    }
}

/// Where the message has a body, header fields without a Content-Type,
/// then a Content-Type field, then any bytes, split into those fields, the
/// Content-Type field, and those bytes exactly as the body; no header is read
/// from the body.
pub proof fn lemma_split_with_body(h: Seq<u8>, ct: Seq<u8>, trailing: Seq<u8>)
    requires
        spec_split(h, true) is Ok,
        forall|i: int| 0 <= i < (spec_split(h, true)->Ok_0).len()
            ==> (#[trigger] (spec_split(h, true)->Ok_0)[i]).0 != MmsHeader::ContentType,
        spec_field(ct) == Ok::<(Seq<u8>, nat), DecodeError>((ct, ct.len())),
    ensures
        spec_split(h + seq![0x84u8] + ct + trailing, true) == Ok::<Seq<(MmsHeader, Seq<u8>)>, DecodeError>(
            (spec_split(h, true)->Ok_0) + seq![(MmsHeader::ContentType, ct), (MmsHeader::ImplicitBody, trailing)]),
{
    let x = seq![0x84u8] + ct + trailing;
    assert(h + seq![0x84u8] + ct + trailing == h + x);
    assert(x.skip(1) == ct + trailing);
    lemma_field_extend(ct, trailing);
    lemma_content_type_ends_headers(x);
    assert(x.skip(ct.len() as int + 1) == trailing);
    lemma_split_prefix(h, x);
}

/// A field takes at least one byte and no more than there are.
pub proof fn lemma_field_bound(d: Seq<u8>)
    ensures
        spec_field(d) matches Ok((f, n)) ==> 1 <= n <= d.len() && f == d.take(n as int),
{
    crate::primitives::lemma_first_zero_bound(d, 0);
}

/// Reads one header field: its identity and its raw bytes.
pub fn take_header_field(d: &[u8]) -> (r: Result<(&[u8], (MmsHeader, Vec<u8>)), DecodeError>)
    ensures
        match spec_header_field(d@) {
            Err(e) => r == Err::<(&[u8], (MmsHeader, Vec<u8>)), DecodeError>(e),
            Ok(((h, f), n)) => (r matches Ok((rest, (h2, v))) && h2 == h && v@ == f
                && rest@ == d@.skip(n as int)),
        },
{
    if d.len() == 0 {
        return Err(DecodeError::TruncatedInput);
    }
    let b = d[0];
    if b < 128 {
        return Err(DecodeError::InvalidLeadByte);
    }
    let (_, after) = d.split_at(1);
    let (rest, field) = take_field(after)?;
    proof {
        lemma_field_bound(after@);
        let n = (spec_field(after@)->Ok_0).1;
        assert(after@.skip(n as int) == d@.skip(n as int + 1));
    }
    let mut raw: Vec<u8> = Vec::new();
    extend_bytes(&mut raw, field);
    Ok((rest, (MmsHeader::from_code(b - 128), raw)))
}

/// Splits a header block into fields; see `spec_split`.
pub fn split_header_fields(d: &[u8], ctx: ParserCtx) -> (r: Result<(&[u8], Vec<(MmsHeader, Vec<u8>)>), DecodeError>)
    ensures
        match spec_split(d@, ctx.message_class.has_body) {
            Err(e) => r == Err::<(&[u8], Vec<(MmsHeader, Vec<u8>)>), DecodeError>(e),
            Ok(fs) => (r matches Ok((rest, v)) && rest@.len() == 0 && fields_view(v@) == fs),
        },
    decreases d@.len(),
{
    if d.len() == 0 {
        let v: Vec<(MmsHeader, Vec<u8>)> = Vec::new();
        proof {
            assert(fields_view(v@) =~= Seq::<(MmsHeader, Seq<u8>)>::empty());
        }
        return Ok((d, v));
    }
    proof {
        if d@.len() > 0 {
            lemma_field_bound(d@.skip(1));
        }
    }
    let (rest, hf) = take_header_field(d)?;
    if rest.len() >= d.len() {
        return Err(DecodeError::TruncatedInput);
    }
    let ghost hv = (hf.0, hf.1@);
    if ctx.message_class.has_body && hf.0 == MmsHeader::ContentType {
        let mut body: Vec<u8> = Vec::new();
        extend_bytes(&mut body, rest);
        let mut v: Vec<(MmsHeader, Vec<u8>)> = Vec::new();
        v.push(hf);
        v.push((MmsHeader::ImplicitBody, body));
        proof {
            assert(fields_view(v@) =~= seq![hv, (MmsHeader::ImplicitBody, rest@)]);
        }
        let (_, end) = rest.split_at(rest.len());
        return Ok((end, v));
    }
    let (end, mut tail) = split_header_fields(rest, ctx)?;
    let ghost tv = tail@;
    let mut v: Vec<(MmsHeader, Vec<u8>)> = Vec::new();
    v.push(hf);
    v.append(&mut tail);
    proof {
        assert(fields_view(v@) =~= seq![hv] + fields_view(tv));
    }
    Ok((end, v))
}

/// The decoded value of each field, or why it could not be decoded.
pub open spec fn decoded_fields(fs: Seq<(MmsHeader, Seq<u8>)>) -> Seq<(MmsHeader, Result<MmsHeaderValueView, DecodeError>)> {
    fs.map_values(|f: (MmsHeader, Seq<u8>)| (f.0, spec_header_value(f.0, f.1)))
}

/// The fields that decoded, with their values, in order.
pub open spec fn ok_fields(fs: Seq<(MmsHeader, Seq<u8>)>) -> Seq<(MmsHeader, MmsHeaderValueView)>
    decreases fs.len(),
{
    if fs.len() == 0 {
        Seq::empty()
    } else {
        match spec_header_value(fs.last().0, fs.last().1) {
            Ok(v) => ok_fields(fs.drop_last()).push((fs.last().0, v)),
            Err(_) => ok_fields(fs.drop_last()),
        }
    }
}

/// What a decoded value holds, or why it could not be decoded.
pub open spec fn result_view(r: Result<MmsHeaderValue, DecodeError>) -> Result<MmsHeaderValueView, DecodeError> {
    match r {
        Ok(v) => Ok(v@),
        Err(e) => Err(e),
    }
}

/// What each decoded field holds.
pub open spec fn results_view(v: Seq<(MmsHeader, Result<MmsHeaderValue, DecodeError>)>) -> Seq<(MmsHeader, Result<MmsHeaderValueView, DecodeError>)> {
    v.map_values(|x: (MmsHeader, Result<MmsHeaderValue, DecodeError>)| (x.0, result_view(x.1)))
}

/// Each field is decoded on its own: the outcome for a field depends on that
/// field alone, so one that fails leaves the others as they would be.
pub proof fn lemma_fields_decode_independently(fs: Seq<(MmsHeader, Seq<u8>)>, i: int)
    requires
        0 <= i < fs.len(),
    ensures
        decoded_fields(fs)[i] == (fs[i].0, spec_header_value(fs[i].0, fs[i].1)),
        decoded_fields(fs).len() == fs.len(),
{
}

/// Decodes every field, keeping each outcome; one field that cannot be
/// decoded does not stop the others.
pub fn parse_header_fields_with_errors(fields: &Vec<(MmsHeader, Vec<u8>)>) -> (r: Vec<(MmsHeader, Result<MmsHeaderValue, DecodeError>)>)
    ensures
        results_view(r@) == decoded_fields(fields_view(fields@)),
{
    let mut out: Vec<(MmsHeader, Result<MmsHeaderValue, DecodeError>)> = Vec::new();
    let mut i: usize = 0;
    while i < fields.len()
        invariant
            i <= fields@.len(),
            results_view(out@) == decoded_fields(fields_view(fields@.take(i as int))),
        decreases fields@.len() - i,
    {
        let (h, raw) = &fields[i];
        let res = parse_header_field(*h, raw.as_slice());
        proof {
            assert(result_view(res) == spec_header_value(*h, raw@));
        }
        let ghost old_out = out@;
        let ghost rv = result_view(res);
        out.push((*h, res));
        proof {
            let fv = fields_view(fields@.take(i + 1));
            assert(fv =~= fields_view(fields@.take(i as int)).push((*h, raw@)));
            assert(decoded_fields(fv) =~= decoded_fields(fields_view(fields@.take(i as int))).push(
                (*h, spec_header_value(*h, raw@)),
            ));
            assert(results_view(out@) =~= results_view(old_out).push((*h, rv)));
        }
        i = i + 1;
    }
    proof {
        assert(fields@.take(i as int) == fields@);
    }
    out
}

/// Decodes every field and keeps those that decode, in order, duplicates
/// included.
pub fn parse_header_fields(fields: &Vec<(MmsHeader, Vec<u8>)>) -> (r: HeaderMap)
    ensures
        entries_view(header_entries(r)) == ok_fields(fields_view(fields@)),
{
    let mut m = header_map_new();
    let mut i: usize = 0;
    proof {
        assert(entries_view(header_entries(m)) =~= Seq::<(MmsHeader, MmsHeaderValueView)>::empty());
    }
    while i < fields.len()
        invariant
            i <= fields@.len(),
            entries_view(header_entries(m)) == ok_fields(fields_view(fields@.take(i as int))),
        decreases fields@.len() - i,
    {
        let (h, raw) = &fields[i];
        let res = parse_header_field(*h, raw.as_slice());
        proof {
            assert(fields_view(fields@.take(i + 1)).drop_last() == fields_view(fields@.take(i as int)));
            assert(fields_view(fields@.take(i + 1)).last() == (*h, raw@));
        }
        match res {
            Ok(v) => {
                let ghost before = header_entries(m);
                header_map_append(&mut m, *h, v);
                proof {
                    assert(entries_view(header_entries(m)) =~= entries_view(before).push((*h, v@)));
                }
            },
            Err(_) => {},
        }
        i = i + 1;
    }
    proof {
        assert(fields@.take(i as int) == fields@);
    }
    m
}

/// A decoded MMS message: its headers and its body.
#[derive(Debug)]
pub struct VndWapMmsMessage {
    pub headers: HeaderMap,
    pub body: Vec<u8>,
}

impl VndWapMmsMessage {
    /// A message with these headers and no body.
    pub fn new(headers: HeaderMap) -> (r: Self)
        ensures
            header_entries(r.headers) == header_entries(headers),
            r.body@.len() == 0,
    {
        VndWapMmsMessage { headers, body: Vec::new() }
    }

    fn string_header(&self, h: &MmsHeader) -> (r: Option<String>)
        ensures
            match first_value(header_entries(self.headers), *h) {
                Some(MmsHeaderValue::String(s)) => (r matches Some(x) && x@ == s@),
                _ => r is None,
            },
    {
        match header_map_get(&self.headers, h) {
            Some(MmsHeaderValue::String(s)) => Some(s.clone()),
            _ => None,
        }
    }

    /// The first MessageID header, where it holds text.
    pub fn message_id(&self) -> (r: Option<String>)
        ensures
            match first_value(header_entries(self.headers), MmsHeader::MessageID) {
                Some(MmsHeaderValue::String(s)) => (r matches Some(x) && x@ == s@),
                _ => r is None,
            },
    {
        self.string_header(&MmsHeader::MessageID)
    }

    /// The first XMmsTransactionId header, where it holds text.
    pub fn x_mms_transaction_id(&self) -> (r: Option<String>)
        ensures
            match first_value(header_entries(self.headers), MmsHeader::XMmsTransactionId) {
                Some(MmsHeaderValue::String(s)) => (r matches Some(x) && x@ == s@),
                _ => r is None,
            },
    {
        self.string_header(&MmsHeader::XMmsTransactionId)
    }

    /// The first XMmsContentLocation header, where it holds text.
    pub fn x_mms_content_location(&self) -> (r: Option<String>)
        ensures
            match first_value(header_entries(self.headers), MmsHeader::XMmsContentLocation) {
                Some(MmsHeaderValue::String(s)) => (r matches Some(x) && x@ == s@),
                _ => r is None,
            },
    {
        self.string_header(&MmsHeader::XMmsContentLocation)
    }

    /// The first To header, where it holds text.
    pub fn to(&self) -> (r: Option<String>)
        ensures
            match first_value(header_entries(self.headers), MmsHeader::To) {
                Some(MmsHeaderValue::String(s)) => (r matches Some(x) && x@ == s@),
                _ => r is None,
            },
    {
        self.string_header(&MmsHeader::To)
    }

    /// The first Subject header, where it holds text.
    pub fn subject(&self) -> (r: Option<String>)
        ensures
            match first_value(header_entries(self.headers), MmsHeader::Subject) {
                Some(MmsHeaderValue::String(s)) => (r matches Some(x) && x@ == s@),
                _ => r is None,
            },
    {
        self.string_header(&MmsHeader::Subject)
    }

    /// The first Content-Type header, where it holds a content type.
    pub fn content_type(&self) -> (r: Option<ContentType>)
        ensures
            match first_value(header_entries(self.headers), MmsHeader::ContentType) {
                Some(MmsHeaderValue::ContentType(c)) => (r matches Some(x) && x@ == c@),
                _ => r is None,
            },
    {
        match header_map_get(&self.headers, &MmsHeader::ContentType) {
            Some(MmsHeaderValue::ContentType(c)) => Some(c.duplicate()),
            _ => None,
        }
    }

    /// The first Date header, where it holds a number.
    pub fn date(&self) -> (r: Option<u64>)
        ensures
            match first_value(header_entries(self.headers), MmsHeader::Date) {
                Some(MmsHeaderValue::LongUint(v)) => r == Some(v),
                _ => r is None,
            },
    {
        match header_map_get(&self.headers, &MmsHeader::Date) {
            Some(MmsHeaderValue::LongUint(v)) => Some(*v),
            _ => None,
        }
    }

    /// Whether the body is a multipart body: the content type is one of the
    /// well-known multipart types.
    pub fn has_multipart_body(&self) -> (r: bool)
        ensures
            r == (match first_value(header_entries(self.headers), MmsHeader::ContentType) {
                Some(MmsHeaderValue::ContentType(c)) => is_multipart_code(content_type_code_spec(c.media@)),
                _ => false,
            }),
    {
        match header_map_get(&self.headers, &MmsHeader::ContentType) {
            Some(MmsHeaderValue::ContentType(c)) => match content_type_code(c.essence_str()) {
                Some(code) => code == 0x0B || code == 0x0C || code == 0x0D || code == 0x0E || code == 0x0F
                    || (0x22 <= code && code <= 0x26) || code == 0x33,
                None => false,
            },
            _ => false,
        }
    }

    /// A message with no headers and no body.
    pub fn empty() -> (r: Self)
        ensures
            header_entries(r.headers).len() == 0,
            r.body@.len() == 0,
    {
        VndWapMmsMessage { headers: header_map_new(), body: Vec::new() }
    }
}

/// Whether a well-known content-type code names a multipart type.
pub open spec fn is_multipart_code(c: Option<u8>) -> bool {
    match c {
        Some(code) => code == 0x0B || code == 0x0C || code == 0x0D || code == 0x0E || code == 0x0F
            || (0x22 <= code && code <= 0x26) || code == 0x33,
        None => false,
    }
}

/// The body held under `ImplicitBody` among decoded fields, or nothing.
pub open spec fn implicit_body(fs: Seq<(MmsHeader, MmsHeaderValueView)>) -> Seq<u8> {
    match first_value(fs, MmsHeader::ImplicitBody) {
        Some(MmsHeaderValueView::Bytes(b)) => b,
        _ => Seq::empty(),
    }
}

proof fn lemma_first_value_view(s: Seq<(MmsHeader, MmsHeaderValue)>, k: MmsHeader)
    ensures
        first_value(entries_view(s), k) == (match first_value(s, k) {
            Some(v) => Some(v@),
            None => None::<MmsHeaderValueView>,
        }),
    decreases s.len(),
{
    if s.len() > 0 {
        assert(entries_view(s).skip(1) == entries_view(s.skip(1)));
        lemma_first_value_view(s.skip(1), k);
    }
}

proof fn lemma_without_key_view(s: Seq<(MmsHeader, MmsHeaderValue)>, k: MmsHeader)
    ensures
        without_key(entries_view(s), k) == entries_view(without_key(s, k)),
    decreases s.len(),
{
    if s.len() > 0 {
        assert(entries_view(s).drop_last() == entries_view(s.drop_last()));
        lemma_without_key_view(s.drop_last(), k);
        assert(entries_view(without_key(s.drop_last(), k).push(s.last()))
            == entries_view(without_key(s.drop_last(), k)).push((s.last().0, s.last().1@)));
    }
}

/// Decodes an MMS PDU whose Content-Type, if any, is followed by the body:
/// the fields that decode become the headers, in order, and the bytes after
/// the Content-Type field become the body.
pub fn parse_mms_pdu(d: &[u8]) -> (r: Result<(&[u8], VndWapMmsMessage), DecodeError>)
    ensures
        match spec_split(d@, true) {
            Err(e) => r matches Err(f) && f == e,
            Ok(fs) => (r matches Ok((rest, m)) && rest@.len() == 0
                && entries_view(header_entries(m.headers)) == without_key(ok_fields(fs), MmsHeader::ImplicitBody)
                && m.body@ == implicit_body(ok_fields(fs))),
        },
{
    let ctx = ParserCtx { message_class: MessageClass { has_body: true } };
    let (rest, split) = split_header_fields(d, ctx)?;
    let mut headers = parse_header_fields(&split);
    let ghost before = header_entries(headers);
    let removed = header_map_remove(&mut headers, &MmsHeader::ImplicitBody);
    proof {
        lemma_first_value_view(before, MmsHeader::ImplicitBody);
        lemma_without_key_view(before, MmsHeader::ImplicitBody);
    }
    let body = match removed {
        Some(MmsHeaderValue::Bytes(b)) => b,
        _ => Vec::new(),
    };
    Ok((rest, VndWapMmsMessage { headers, body }))
}

} // verus!
