//! Encoding MMS PDUs: the header ordering rule, and the send request
//! builder.

use crate::content_type::ContentTypeView;
use crate::error::EncodeError;
use crate::mms_header::{
    encode_header_field, header_field_wire, MessageTypeField, MmsHeader, MmsHeaderValue,
    MmsHeaderValueView,
};
use crate::multimap::{
    first_value, header_entries, header_map_append, header_map_get, header_map_insert,
    header_map_into_entries, header_map_new, header_map_remove, without_key, HeaderMap,
};
use crate::multipart::{needs_default_layout, EncodableBody, EncoderBuilder, RelatedBodyPart};
use crate::pdu::{ok_fields, spec_split};
use crate::MMS_VERSION;
use vstd::prelude::*;
use vstd::utf8::encode_utf8;

verus! {

/// The pairs of `s` whose header is `k`, in order.
pub open spec fn only_key(s: Seq<(MmsHeader, MmsHeaderValue)>, k: MmsHeader) -> Seq<(MmsHeader, MmsHeaderValue)>
    decreases s.len(),
{
    if s.len() == 0 {
        s
    } else if s.last().0 == k {
        only_key(s.drop_last(), k).push(s.last())
    } else {
        only_key(s.drop_last(), k)
    }
}

/// Whether a header is one of the three that open every PDU.
pub open spec fn is_leading(k: MmsHeader) -> bool {
    k == MmsHeader::XMmsMessageType || k == MmsHeader::XMmsTransactionId || k == MmsHeader::XMmsMMSVersion
}

/// The pairs of `s` whose header is not one of the leading three.
pub open spec fn not_leading(s: Seq<(MmsHeader, MmsHeaderValue)>) -> Seq<(MmsHeader, MmsHeaderValue)>
    decreases s.len(),
{
    if s.len() == 0 {
        s
    } else if is_leading(s.last().0) {
        not_leading(s.drop_last())
    } else {
        not_leading(s.drop_last()).push(s.last())
    }
}

/// The headers in the order they are written: Message-Type, then
/// Transaction-Id, then MMS-Version, then the rest in insertion order.
pub open spec fn ordered_entries(s: Seq<(MmsHeader, MmsHeaderValue)>) -> Seq<(MmsHeader, MmsHeaderValue)> {
    only_key(s, MmsHeader::XMmsMessageType) + only_key(s, MmsHeader::XMmsTransactionId)
        + only_key(s, MmsHeader::XMmsMMSVersion) + not_leading(s)
}

/// The wire form of header fields, in order.
pub open spec fn fields_wire(s: Seq<(MmsHeader, MmsHeaderValue)>) -> Result<Seq<u8>, EncodeError>
    decreases s.len(),
{
    if s.len() == 0 {
        Ok(Seq::empty())
    } else {
        match fields_wire(s.drop_last()) {
            Err(e) => Err(e),
            Ok(front) => match header_field_wire(s.last().0, s.last().1@) {
                Err(e) => Err(e),
                Ok(b) => Ok(front + b),
            },
        }
    }
}

/// The wire form of an MMS PDU: the headers in their order, a Content-Type
/// header computed from the body, then the body. An explicit Content-Type
/// header is refused.
pub open spec fn mms_message_wire(
    es: Seq<(MmsHeader, MmsHeaderValue)>,
    ct: ContentTypeView,
    body: Result<Seq<u8>, EncodeError>,
) -> Result<Seq<u8>, EncodeError> {
    if first_value(es, MmsHeader::ContentType) is Some {
        Err(EncodeError::DuplicateContentType)
    } else {
        match fields_wire(ordered_entries(es)) {
            Err(e) => Err(e),
            Ok(h) => match header_field_wire(MmsHeader::ContentType, MmsHeaderValueView::ContentType(ct)) {
                Err(e) => Err(e),
                Ok(c) => match body {
                    Err(e) => Err(e),
                    Ok(b) => Ok(h + c + b),
                },
            },
        }
    }
}

proof fn lemma_fields_wire_err(s: Seq<(MmsHeader, MmsHeaderValue)>, j: int)
    requires
        0 <= j <= s.len(),
        fields_wire(s.take(j)) is Err,
    ensures
        fields_wire(s) == fields_wire(s.take(j)),
    decreases s.len() - j,
{
    if j < s.len() {
        assert(s.take(j + 1).drop_last() == s.take(j));
        lemma_fields_wire_err(s, j + 1);
    } else {
        assert(s.take(j) == s);
    }
}

fn encode_fields(s: Vec<(MmsHeader, MmsHeaderValue)>) -> (r: Result<Vec<u8>, EncodeError>)
    ensures
        match fields_wire(s@) {
            Err(e) => r == Err::<Vec<u8>, EncodeError>(e),
            Ok(b) => (r matches Ok(v) && v@ == b),
        },
{
    let ghost all = s@;
    let mut s = s;
    let mut buf: Vec<u8> = Vec::new();
    let ghost mut i: int = 0;
    #[verifier::loop_isolation(false)]
    while s.len() > 0
        invariant
            0 <= i <= all.len(),
            s@ == all.skip(i),
            fields_wire(all.take(i)) == Ok::<Seq<u8>, EncodeError>(buf@),
        decreases s@.len(),
    {
        let (k, v) = s.remove(0);
        proof {
            assert(all.skip(i)[0] == (k, v));
            assert(all.take(i + 1).drop_last() == all.take(i));
            assert(all.take(i + 1).last() == (k, v));
            assert(s@ =~= all.skip(i + 1));
        }
        let mut b = match encode_header_field(k, v) {
            Ok(b) => b,
            Err(e) => {
                proof {
                    assert(fields_wire(all.take(i + 1)) == Err::<Seq<u8>, EncodeError>(e));
                    lemma_fields_wire_err(all, i + 1);
                }
                return Err(e);
            },
        };
        buf.append(&mut b);
        proof {
            i = i + 1;
        }
    }
    proof {
        assert(all.take(i) == all);
    }
    Ok(buf)
}

fn order_entries(entries: Vec<(MmsHeader, MmsHeaderValue)>) -> (r: Vec<(MmsHeader, MmsHeaderValue)>)
    ensures
        r@ == ordered_entries(entries@),
{
    let ghost all = entries@;
    let mut entries = entries;
    let _n = entries.len();
    let mut mt: Vec<(MmsHeader, MmsHeaderValue)> = Vec::new();
    let mut tid: Vec<(MmsHeader, MmsHeaderValue)> = Vec::new();
    let mut ver: Vec<(MmsHeader, MmsHeaderValue)> = Vec::new();
    let mut rest: Vec<(MmsHeader, MmsHeaderValue)> = Vec::new();
    let mut i: usize = 0;
    while entries.len() > 0
        invariant
            i + entries@.len() == all.len(),
            all.len() <= usize::MAX,
            entries@ == all.skip(i as int),
            mt@ == only_key(all.take(i as int), MmsHeader::XMmsMessageType),
            tid@ == only_key(all.take(i as int), MmsHeader::XMmsTransactionId),
            ver@ == only_key(all.take(i as int), MmsHeader::XMmsMMSVersion),
            rest@ == not_leading(all.take(i as int)),
        decreases entries@.len(),
    {
        let e = entries.remove(0);
        proof {
            assert(all.skip(i as int)[0] == e);
            assert(all.take(i + 1).drop_last() == all.take(i as int));
            assert(all.take(i + 1).last() == e);
            assert(entries@ =~= all.skip(i + 1));
        }
        if e.0 == MmsHeader::XMmsMessageType {
            mt.push(e);
        } else if e.0 == MmsHeader::XMmsTransactionId {
            tid.push(e);
        } else if e.0 == MmsHeader::XMmsMMSVersion {
            ver.push(e);
        } else {
            rest.push(e);
        }
        i = i + 1;
    }
    proof {
        assert(all.take(i as int) == all);
    }
    mt.append(&mut tid);
    mt.append(&mut ver);
    mt.append(&mut rest);
    mt
}

/// Encodes an MMS PDU: the headers in their order (Message-Type,
/// Transaction-Id, MMS-Version, then the rest in insertion order), a
/// Content-Type header computed from the body, then the body.
pub fn encode_mms_message<B: EncodableBody>(headers: HeaderMap, body: B) -> (r: Result<Vec<u8>, EncodeError>)
    ensures
        match mms_message_wire(header_entries(headers), body.spec_content_type(), body.spec_encoding()) {
            Err(e) => r == Err::<Vec<u8>, EncodeError>(e),
            Ok(b) => (r matches Ok(v) && v@ == b),
        },
{
    if header_map_get(&headers, &MmsHeader::ContentType).is_some() {
        return Err(EncodeError::DuplicateContentType);
    }
    let entries = order_entries(header_map_into_entries(headers));
    let mut buf = encode_fields(entries)?;
    let ct = body.content_type().duplicate();
    let mut ct_bytes = encode_header_field(MmsHeader::ContentType, MmsHeaderValue::ContentType(ct))?;
    let mut body_bytes = body.encode()?;
    buf.append(&mut ct_bytes);
    buf.append(&mut body_bytes);
    Ok(buf)
}

/// The entries a related body builder yields, layout included.
pub open spec fn built_items(parts: Seq<RelatedBodyPart>) -> Seq<crate::multipart::MultiPartItemView> {
    if needs_default_layout(parts) {
        seq![<RelatedBodyPart as crate::multipart::LayoutItem>::spec_layout_item()] + crate::multipart::items_of(parts)
    } else {
        crate::multipart::items_of(parts)
    }
}

/// The envelope content type a related body builder yields.
pub open spec fn built_type(parts: Seq<RelatedBodyPart>) -> ContentTypeView {
    if needs_default_layout(parts) {
        <RelatedBodyPart as crate::multipart::LayoutItem>::spec_layout_type()
    } else {
        <RelatedBodyPart as crate::multipart::Item>::spec_multipart_type(&parts[0])
    }
}

/// The headers of a send request as written: Message-Type `m-send-req`, the
/// transaction id given (or `id` where none was), MMS-Version, then the
/// other headers in insertion order.
pub open spec fn finalized_entries(es: Seq<(MmsHeader, MmsHeaderValue)>, id: MmsHeaderValue) -> Seq<(MmsHeader, MmsHeaderValue)> {
    seq![
        (MmsHeader::XMmsMessageType, MmsHeaderValue::MessageTypeField(MessageTypeField::MSendReq)),
        (MmsHeader::XMmsTransactionId, match first_value(es, MmsHeader::XMmsTransactionId) {
            Some(v) => v,
            None => id,
        }),
        (MmsHeader::XMmsMMSVersion, MmsHeaderValue::ShortUint(MMS_VERSION)),
    ] + not_leading(es)
}

/// What encoding a send request owes, given the transaction id to use where
/// the request has none.
pub open spec fn send_req_wire(req: MSendReq, id: MmsHeaderValue) -> Result<Seq<u8>, EncodeError> {
    mms_message_wire(
        finalized_entries(header_entries(req.headers), id),
        built_type(req.body.parts@),
        crate::multipart::multipart_wire(built_items(req.body.parts@)),
    )
}

/// Whether a character may stand in the hyphenated form of a UUID: a lower
/// case hex digit or a hyphen.
pub open spec fn is_uuid_char(c: char) -> bool {
    ('0' <= c <= '9') || ('a' <= c <= 'f') || c == '-'
}

/// Relies on `uuid::Uuid::new_v4` and the `Display` of `Uuid`: a fresh random
/// id, written in the hyphenated lower case form of 36 characters.
#[verifier::external_body]
fn new_transaction_id() -> (r: String)
    ensures
        r@.len() == 36,
        forall|i: int| 0 <= i < r@.len() ==> is_uuid_char(#[trigger] r@[i]),
{
    uuid::Uuid::new_v4().to_string()
}

/// Whether a request has one header, a recipient whose text can stand as a
/// header value, and no body entries.
pub open spec fn only_recipient(req: MSendReq) -> bool {
    &&& header_entries(req.headers).len() == 1
    &&& header_entries(req.headers)[0].0 == MmsHeader::To
    &&& header_entries(req.headers)[0].1 matches MmsHeaderValue::String(t)
    &&& crate::round_trip::header_text_ok(encode_utf8(t@))
    &&& req.body.parts@.len() == 0
}

/// A send request under construction: its headers and its related body.
pub struct MSendReq {
    pub headers: HeaderMap,
    pub body: EncoderBuilder<RelatedBodyPart>,
}

proof fn lemma_not_leading_without(s: Seq<(MmsHeader, MmsHeaderValue)>, k: MmsHeader)
    requires
        is_leading(k),
    ensures
        not_leading(without_key(s, k)) == not_leading(s),
    decreases s.len(),
{
    if s.len() > 0 {
        lemma_not_leading_without(s.drop_last(), k);
        if s.last().0 != k {
            let w = without_key(s.drop_last(), k).push(s.last());
            assert(w.drop_last() == without_key(s.drop_last(), k));
        }
    }
}

proof fn lemma_not_leading_of_clean(s: Seq<(MmsHeader, MmsHeaderValue)>)
    requires
        forall|i: int| 0 <= i < s.len() ==> !is_leading(#[trigger] s[i].0),
    ensures
        not_leading(s) == s,
    decreases s.len(),
{
    if s.len() > 0 {
        lemma_not_leading_of_clean(s.drop_last());
        assert(s.drop_last().push(s.last()) == s);
    }
}

proof fn lemma_without_key_lacks(s: Seq<(MmsHeader, MmsHeaderValue)>, k: MmsHeader)
    ensures
        forall|i: int| 0 <= i < without_key(s, k).len() ==> (#[trigger] without_key(s, k)[i]).0 != k,
        forall|i: int| 0 <= i < without_key(s, k).len() ==> exists|j: int| 0 <= j < s.len() && s[j] == #[trigger] without_key(s, k)[i],
    decreases s.len(),
{
    if s.len() > 0 {
        lemma_without_key_lacks(s.drop_last(), k);
        let w = without_key(s, k);
        assert forall|i: int| 0 <= i < w.len() implies exists|j: int| 0 <= j < s.len() && s[j] == #[trigger] w[i] by {
            if i < without_key(s.drop_last(), k).len() {
                let j = choose|j: int| 0 <= j < s.drop_last().len() && s.drop_last()[j] == without_key(s.drop_last(), k)[i];
                assert(s[j] == w[i]);
            } else {
                assert(s[s.len() - 1] == w[i]);
            }
        }
    }
}

proof fn lemma_first_value_without(s: Seq<(MmsHeader, MmsHeaderValue)>, k: MmsHeader, other: MmsHeader)
    requires
        k != other,
    ensures
        first_value(without_key(s, k), other) == first_value(s, other),
    decreases s.len(),
{
    if s.len() > 0 {
        let rest = s.skip(1);
        lemma_first_value_without(rest, k, other);
        lemma_without_key_front(s, k);
        if s[0].0 != k {
            let w = without_key(rest, k);
            assert((seq![s[0]] + w).skip(1) == w);
            assert((seq![s[0]] + w)[0] == s[0]);
        }
    }
}

proof fn lemma_without_key_front(s: Seq<(MmsHeader, MmsHeaderValue)>, k: MmsHeader)
    requires
        s.len() > 0,
    ensures
        without_key(s, k) == (if s[0].0 == k {
            without_key(s.skip(1), k)
        } else {
            seq![s[0]] + without_key(s.skip(1), k)
        }),
    decreases s.len(),
{
    if s.len() == 1 {
        assert(s.skip(1) == Seq::<(MmsHeader, MmsHeaderValue)>::empty());
        assert(s.drop_last() == Seq::<(MmsHeader, MmsHeaderValue)>::empty());
        if s[0].0 != k {
            assert(seq![s[0]] + Seq::<(MmsHeader, MmsHeaderValue)>::empty() == Seq::<(MmsHeader, MmsHeaderValue)>::empty().push(s[0]));
        }
    } else {
        lemma_without_key_front(s.drop_last(), k);
        assert(s.drop_last().skip(1) == s.skip(1).drop_last());
        assert(s.skip(1).last() == s.last());
        assert(s.drop_last()[0] == s[0]);
        if s[0].0 != k && s.last().0 != k {
            assert((seq![s[0]] + without_key(s.skip(1).drop_last(), k)).push(s.last())
                == seq![s[0]] + without_key(s.skip(1).drop_last(), k).push(s.last()));
        }
    }
}

proof fn lemma_clean_after_removals(s: Seq<(MmsHeader, MmsHeaderValue)>)
    ensures
        ({
            let w = without_key(without_key(without_key(s, MmsHeader::XMmsMessageType), MmsHeader::XMmsTransactionId), MmsHeader::XMmsMMSVersion);
            forall|i: int| 0 <= i < w.len() ==> !is_leading(#[trigger] w[i].0)
        }),
{
    let w1 = without_key(s, MmsHeader::XMmsMessageType);
    let w2 = without_key(w1, MmsHeader::XMmsTransactionId);
    let w3 = without_key(w2, MmsHeader::XMmsMMSVersion);
    lemma_without_key_lacks(s, MmsHeader::XMmsMessageType);
    lemma_without_key_lacks(w1, MmsHeader::XMmsTransactionId);
    lemma_without_key_lacks(w2, MmsHeader::XMmsMMSVersion);
    assert forall|i: int| 0 <= i < w3.len() implies !is_leading(#[trigger] w3[i].0) by {
        let j2 = choose|j: int| 0 <= j < w2.len() && w2[j] == w3[i];
        let j1 = choose|j: int| 0 <= j < w1.len() && w1[j] == w2[j2];
        assert(w1[j1].0 != MmsHeader::XMmsMessageType);
    }
}

/// A send request that has only a recipient is written with Message-Type,
/// Transaction-Id and MMS-Version first, in that order, then the recipient.
pub proof fn lemma_send_request_order(to: MmsHeaderValue, id: MmsHeaderValue)
    ensures
        ordered_entries(finalized_entries(seq![(MmsHeader::To, to)], id)) == seq![
            (MmsHeader::XMmsMessageType, MmsHeaderValue::MessageTypeField(MessageTypeField::MSendReq)),
            (MmsHeader::XMmsTransactionId, id),
            (MmsHeader::XMmsMMSVersion, MmsHeaderValue::ShortUint(MMS_VERSION)),
            (MmsHeader::To, to),
        ],
{
    let es = seq![(MmsHeader::To, to)];
    assert(es.drop_last() =~= Seq::<(MmsHeader, MmsHeaderValue)>::empty());
    assert(es.last() == (MmsHeader::To, to));
    let empty = Seq::<(MmsHeader, MmsHeaderValue)>::empty();
    assert(not_leading(empty) == empty);
    assert(es.skip(1) =~= empty);
    assert(first_value(empty, MmsHeader::XMmsTransactionId) is None);
    assert(first_value(es, MmsHeader::XMmsTransactionId) is None);
    assert(not_leading(es) =~= seq![(MmsHeader::To, to)]);
    let f = finalized_entries(es, id);
    let a = (MmsHeader::XMmsMessageType, MmsHeaderValue::MessageTypeField(MessageTypeField::MSendReq));
    let b = (MmsHeader::XMmsTransactionId, id);
    let c = (MmsHeader::XMmsMMSVersion, MmsHeaderValue::ShortUint(MMS_VERSION));
    let d = (MmsHeader::To, to);
    assert(f =~= seq![a, b, c, d]);
    assert(f.drop_last() =~= seq![a, b, c]);
    assert(f.drop_last().drop_last() =~= seq![a, b]);
    assert(f.drop_last().drop_last().drop_last() =~= seq![a]);
    assert(seq![a].drop_last() =~= Seq::<(MmsHeader, MmsHeaderValue)>::empty());
    reveal_with_fuel(only_key, 5);
    reveal_with_fuel(not_leading, 5);
    assert(only_key(f, MmsHeader::XMmsMessageType) =~= seq![a]);
    assert(only_key(f, MmsHeader::XMmsTransactionId) =~= seq![b]);
    assert(only_key(f, MmsHeader::XMmsMMSVersion) =~= seq![c]);
    assert(not_leading(f) =~= seq![d]);
    assert(seq![a] + seq![b] + seq![c] + seq![d] =~= seq![a, b, c, d]);
}

impl MSendReq {
    /// A request with no headers and no body entries.
    pub fn new() -> (r: Self)
        ensures
            header_entries(r.headers).len() == 0,
            r.body.parts@.len() == 0,
    {
        MSendReq { headers: header_map_new(), body: EncoderBuilder::new() }
    }

    /// Sets the transaction id, replacing any earlier one.
    pub fn transaction_id(&mut self, id: String)
        ensures
            header_entries(final(self).headers) == without_key(header_entries(old(self).headers), MmsHeader::XMmsTransactionId).push(
                (MmsHeader::XMmsTransactionId, MmsHeaderValue::String(id))),
            final(self).body == old(self).body,
    {
        header_map_insert(&mut self.headers, MmsHeader::XMmsTransactionId, MmsHeaderValue::String(id));
    }

    /// Sets the sender, replacing any earlier one.
    pub fn from(&mut self, addr: crate::mms_header::FromField)
        ensures
            header_entries(final(self).headers) == without_key(header_entries(old(self).headers), MmsHeader::From).push(
                (MmsHeader::From, MmsHeaderValue::FromField(addr))),
            final(self).body == old(self).body,
    {
        header_map_insert(&mut self.headers, MmsHeader::From, MmsHeaderValue::FromField(addr));
    }

    /// Adds a recipient after those already given; every one is kept.
    pub fn to(&mut self, addr: String)
        ensures
            header_entries(final(self).headers) == header_entries(old(self).headers).push(
                (MmsHeader::To, MmsHeaderValue::String(addr))),
            final(self).body == old(self).body,
    {
        header_map_append(&mut self.headers, MmsHeader::To, MmsHeaderValue::String(addr));
    }

    /// Adds a copy recipient after those already given; every one is kept.
    pub fn cc(&mut self, addr: String)
        ensures
            header_entries(final(self).headers) == header_entries(old(self).headers).push(
                (MmsHeader::Cc, MmsHeaderValue::String(addr))),
            final(self).body == old(self).body,
    {
        header_map_append(&mut self.headers, MmsHeader::Cc, MmsHeaderValue::String(addr));
    }

    /// Adds a blind copy recipient after those already given; every one is kept.
    pub fn bcc(&mut self, addr: String)
        ensures
            header_entries(final(self).headers) == header_entries(old(self).headers).push(
                (MmsHeader::Bcc, MmsHeaderValue::String(addr))),
            final(self).body == old(self).body,
    {
        header_map_append(&mut self.headers, MmsHeader::Bcc, MmsHeaderValue::String(addr));
    }

    /// Sets the subject, replacing any earlier one.
    pub fn subject(&mut self, subject: String)
        ensures
            header_entries(final(self).headers) == without_key(header_entries(old(self).headers), MmsHeader::Subject).push(
                (MmsHeader::Subject, MmsHeaderValue::String(subject))),
            final(self).body == old(self).body,
    {
        header_map_insert(&mut self.headers, MmsHeader::Subject, MmsHeaderValue::String(subject));
    }

    /// Sets the message class, replacing any earlier one.
    pub fn class(&mut self, class: crate::mms_header::ClassIdentifier)
        ensures
            header_entries(final(self).headers) == without_key(header_entries(old(self).headers), MmsHeader::XMmsMessageClass).push(
                (MmsHeader::XMmsMessageClass, MmsHeaderValue::ClassIdentifier(class))),
            final(self).body == old(self).body,
    {
        header_map_insert(&mut self.headers, MmsHeader::XMmsMessageClass, MmsHeaderValue::ClassIdentifier(class));
    }

    /// Asks for a delivery report, or not, replacing any earlier choice.
    pub fn delivery_report(&mut self, report: bool)
        ensures
            header_entries(final(self).headers) == without_key(header_entries(old(self).headers), MmsHeader::XMmsDeliveryReport).push(
                (MmsHeader::XMmsDeliveryReport, MmsHeaderValue::Bool(report))),
            final(self).body == old(self).body,
    {
        header_map_insert(&mut self.headers, MmsHeader::XMmsDeliveryReport, MmsHeaderValue::Bool(report));
    }

    /// Asks for a read report, or not, replacing any earlier choice.
    pub fn read_report(&mut self, report: bool)
        ensures
            header_entries(final(self).headers) == without_key(header_entries(old(self).headers), MmsHeader::XMmsReadReport).push(
                (MmsHeader::XMmsReadReport, MmsHeaderValue::Bool(report))),
            final(self).body == old(self).body,
    {
        header_map_insert(&mut self.headers, MmsHeader::XMmsReadReport, MmsHeaderValue::Bool(report));
    }

    /// Adds a body entry after those already present.
    pub fn body_part(&mut self, part: RelatedBodyPart)
        ensures
            final(self).body.parts@ == old(self).body.parts@.push(part),
            final(self).headers == old(self).headers,
    {
        self.body.part(part)
    }

    fn finalize_headers(headers: HeaderMap, default_id: String) -> (r: HeaderMap)
        ensures
            header_entries(r) == finalized_entries(header_entries(headers), MmsHeaderValue::String(default_id)),
    {
        let ghost es = header_entries(headers);
        let mut headers = headers;
        let _ = header_map_remove(&mut headers, &MmsHeader::XMmsMessageType);
        let tid = match header_map_remove(&mut headers, &MmsHeader::XMmsTransactionId) {
            Some(v) => v,
            None => MmsHeaderValue::String(default_id),
        };
        let _ = header_map_remove(&mut headers, &MmsHeader::XMmsMMSVersion);
        proof {
            let w1 = without_key(es, MmsHeader::XMmsMessageType);
            let w2 = without_key(w1, MmsHeader::XMmsTransactionId);
            lemma_first_value_without(es, MmsHeader::XMmsMessageType, MmsHeader::XMmsTransactionId);
            lemma_not_leading_without(es, MmsHeader::XMmsMessageType);
            lemma_not_leading_without(w1, MmsHeader::XMmsTransactionId);
            lemma_not_leading_without(w2, MmsHeader::XMmsMMSVersion);
            lemma_clean_after_removals(es);
        }
        let mut out = header_map_new();
        header_map_append(&mut out, MmsHeader::XMmsMessageType, MmsHeaderValue::MessageTypeField(MessageTypeField::MSendReq));
        header_map_append(&mut out, MmsHeader::XMmsTransactionId, tid);
        header_map_append(&mut out, MmsHeader::XMmsMMSVersion, MmsHeaderValue::ShortUint(MMS_VERSION));
        let mut rest = header_map_into_entries(headers);
        let ghost all = rest@;
        let ghost front = header_entries(out);
        let ghost mut i: int = 0;
        proof {
            assert(front =~= seq![
                (MmsHeader::XMmsMessageType, MmsHeaderValue::MessageTypeField(MessageTypeField::MSendReq)),
                (MmsHeader::XMmsTransactionId, tid),
                (MmsHeader::XMmsMMSVersion, MmsHeaderValue::ShortUint(MMS_VERSION)),
            ]);
        }
        while rest.len() > 0
            invariant
                0 <= i <= all.len(),
                rest@ == all.skip(i),
                header_entries(out) == front + all.take(i),
            decreases rest@.len(),
        {
            let (k, v) = rest.remove(0);
            proof {
                assert(all.skip(i)[0] == (k, v));
                assert(rest@ =~= all.skip(i + 1));
                assert(all.take(i + 1) == all.take(i).push((k, v)));
            }
            header_map_append(&mut out, k, v);
            proof {
                i = i + 1;
            }
        }
        proof {
            assert(all.take(i) == all);
            let w1 = without_key(es, MmsHeader::XMmsMessageType);
            let w2 = without_key(w1, MmsHeader::XMmsTransactionId);
            let w3 = without_key(w2, MmsHeader::XMmsMMSVersion);
            lemma_not_leading_of_clean(w3);
        }
        out
    }

    /// Encodes the request, using `default_id` as the transaction id where
    /// none was set.
    pub fn encode_with_transaction_id(self, default_id: String) -> (r: Result<Vec<u8>, EncodeError>)
        ensures
            match send_req_wire(self, MmsHeaderValue::String(default_id)) {
                Err(e) => r == Err::<Vec<u8>, EncodeError>(e),
                Ok(b) => (r matches Ok(v) && v@ == b),
            },
    {
        let headers = Self::finalize_headers(self.headers, default_id);
        match self.body.build() {
            Some(body) => encode_mms_message(headers, body),
            None => {
                // A related body always holds at least its layout entry.
                proof {
                    assert(false);
                }
                Err(EncodeError::EmptyMultipart)
            },
        }
    }

    /// Encodes the request, with a fresh random transaction id where none
    /// was set.
    ///
    /// A request with only a recipient and no body entries decodes with
    /// Message-Type, Transaction-Id and MMS-Version first, in that order, then
    /// the recipient, then a Content-Type header directly before the body.
    pub fn encode(self) -> (r: Result<Vec<u8>, EncodeError>)
        ensures
            exists|id: String| match #[trigger] send_req_wire(self, MmsHeaderValue::String(id)) {
                Err(e) => r == Err::<Vec<u8>, EncodeError>(e),
                Ok(b) => (r matches Ok(v) && v@ == b),
            },
            only_recipient(self) ==> (r is Ok && spec_split(r->Ok_0@, true) is Ok && ({
                let fs = ok_fields(spec_split(r->Ok_0@, true)->Ok_0);
                &&& fs.len() == 6
                &&& fs[0] == (MmsHeader::XMmsMessageType, MmsHeaderValueView::MessageTypeField(MessageTypeField::MSendReq))
                &&& fs[1].0 == MmsHeader::XMmsTransactionId
                &&& fs[2] == (MmsHeader::XMmsMMSVersion, MmsHeaderValueView::ShortUint(MMS_VERSION))
                &&& fs[3] == (MmsHeader::To, header_entries(self.headers)[0].1@)
                &&& fs[4].0 == MmsHeader::ContentType
                &&& fs[5].0 == MmsHeader::ImplicitBody
            })),
    {
        let id = new_transaction_id();
        let ghost req = self;
        let ghost gid = id;
        let r = self.encode_with_transaction_id(id);
        proof {
            assert(match send_req_wire(req, MmsHeaderValue::String(gid)) {
                Err(e) => r == Err::<Vec<u8>, EncodeError>(e),
                Ok(b) => (r matches Ok(v) && v@ == b),
            });
            if only_recipient(req) {
                let v = header_entries(req.headers)[0].1;
                let to = v->String_0;
                assert(header_entries(req.headers) =~= seq![(MmsHeader::To, MmsHeaderValue::String(to))]);
                crate::round_trip::lemma_uuid_text_ok(gid@);
                crate::round_trip::lemma_send_request_decodes_in_order(req, to, gid);
            }
        }
        r
    }
}

} // verus!
