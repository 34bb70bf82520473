//! Multipart bodies: a count of entries, then for each its header length,
//! its body length, its content type and headers, and its body.

use crate::content_type::{
    content_type_wire, encode_content_type, parse_content_type, spec_content_type, ContentType,
    ContentTypeView,
};
use crate::error::{DecodeError, EncodeError};
use crate::message_header::{
    encode_wap_headers, headers_view, spec_field, spec_wap_headers, take_field, wap_headers,
    wap_headers_wire, MessageHeader, MessageHeaderView,
};
use crate::primitives::{decodes_to, extend_bytes};
use crate::text::str_eq;
use crate::uintvar::{encode_uintvar, read_uintvar, uintvar_decode, uintvar_encoding};
use vstd::prelude::*;
use vstd::string::StringExecFns;
use vstd::utf8::encode_utf8;

verus! {

/// One entry of a multipart body.
#[derive(Debug, Clone, PartialEq, Eq)]
pub struct MultiPartItem {
    pub content_type: ContentType,
    pub headers: Vec<MessageHeader>,
    pub body: Vec<u8>,
}

/// What a multipart entry holds.
pub struct MultiPartItemView {
    pub content_type: ContentTypeView,
    pub headers: Seq<MessageHeaderView>,
    pub body: Seq<u8>,
}

impl View for MultiPartItem {
    type V = MultiPartItemView;

    open spec fn view(&self) -> MultiPartItemView {
        MultiPartItemView {
            content_type: self.content_type@,
            headers: headers_view(self.headers@),
            body: self.body@,
        }
    }
}

/// What each entry of a list holds.
pub open spec fn items_view(s: Seq<MultiPartItem>) -> Seq<MultiPartItemView> {
    s.map_values(|x: MultiPartItem| x@)
}

/// A uintvar that fits in 64 bits, with the bytes it takes.
pub open spec fn spec_u64_uintvar(d: Seq<u8>) -> Result<(nat, nat), DecodeError> {
    match uintvar_decode(d) {
        None => Err(DecodeError::TruncatedInput),
        Some((v, n)) => if v > u64::MAX {
            Err(DecodeError::IntegerOverflow)
        } else {
            Ok((v, n))
        },
    }
}

/// One entry: the two lengths, then a content type and WAP headers within
/// the header length, then the body.
#[verifier::opaque]
pub open spec fn spec_body_item(d: Seq<u8>) -> Result<(MultiPartItemView, nat), DecodeError> {
    match spec_u64_uintvar(d) {
        Err(e) => Err(e),
        Ok((hl, n1)) => match spec_u64_uintvar(d.skip(n1 as int)) {
            Err(e) => Err(e),
            Ok((dl, n2)) => {
                let p: int = n1 as int + n2 as int;
                if p + hl + dl > d.len() {
                    Err(DecodeError::MultipartBoundsError)
                } else {
                    let hdr = d.subrange(p, p + hl);
                    match spec_field(hdr) {
                        Err(e) => Err(e),
                        Ok((f, k)) => match spec_content_type(f) {
                            Err(e) => Err(e),
                            Ok((ct, m)) => if m != f.len() {
                                Err(DecodeError::TrailingBytes)
                            } else {
                                match spec_wap_headers(hdr.skip(k as int)) {
                                    Err(e) => Err(e),
                                    Ok(hs) => Ok((
                                        MultiPartItemView {
                                            content_type: ct,
                                            headers: hs,
                                            body: d.subrange(p + hl, p + hl + dl),
                                        },
                                        (p + hl + dl) as nat,
                                    )),
                                }
                            },
                        },
                    }
                }
            },
        },
    }
}

/// `count` entries one after another.
pub open spec fn spec_items(d: Seq<u8>, count: nat) -> Result<(Seq<MultiPartItemView>, nat), DecodeError>
    decreases count,
{
    if count == 0 {
        Ok((Seq::empty(), 0))
    } else {
        match spec_body_item(d) {
            Err(e) => Err(e),
            Ok((it, k)) => if k > d.len() {
                Err(DecodeError::MultipartBoundsError)
            } else {
                match spec_items(d.skip(k as int), (count - 1) as nat) {
                    Err(e) => Err(e),
                    Ok((rest, k2)) => Ok((seq![it] + rest, k + k2)),
                }
            },
        }
    }
}

/// A multipart body: a uintvar count, then that many entries.
pub open spec fn spec_multipart(d: Seq<u8>) -> Result<(Seq<MultiPartItemView>, nat), DecodeError> {
    match spec_u64_uintvar(d) {
        Err(e) => Err(e),
        Ok((c, n)) => match spec_items(d.skip(n as int), c) {
            Err(e) => Err(e),
            Ok((items, k)) => Ok((items, n + k)),
        },
    }
}

fn body_item(d: &[u8]) -> (r: Result<(&[u8], MultiPartItem), DecodeError>)
    ensures
        decodes_to(d@, r, spec_body_item(d@)),
{
    reveal(spec_body_item);
    proof {
        crate::uintvar::lemma_uintvar_decode_bound(d@);
    }
    let (d1, headers_len) = read_uintvar(d)?;
    proof {
        crate::uintvar::lemma_uintvar_decode_bound(d1@);
    }
    let (d2, data_len) = read_uintvar(d1)?;
    proof {
        let n1 = (spec_u64_uintvar(d@)->Ok_0).1;
        let n2 = (spec_u64_uintvar(d@.skip(n1 as int))->Ok_0).1;
        assert(d2@ == d@.skip(n1 as int + n2));
    }
    if headers_len > d2.len() as u64 || data_len > d2.len() as u64 - headers_len {
        return Err(DecodeError::MultipartBoundsError);
    }
    let (hdr, after) = d2.split_at(headers_len as usize);
    let (body, rest) = after.split_at(data_len as usize);
    proof {
        let n1 = (spec_u64_uintvar(d@)->Ok_0).1;
        let n2 = (spec_u64_uintvar(d@.skip(n1 as int))->Ok_0).1;
        let p: int = n1 as int + n2 as int;
        assert(hdr@ == d@.subrange(p, p + headers_len));
    }
    let (hrest, ct_bytes) = take_field(hdr)?;
    let (ct_left, content_type) = parse_content_type(ct_bytes)?;
    if ct_left.len() != 0 {
        return Err(DecodeError::TrailingBytes);
    }
    let headers = wap_headers(hrest)?;
    let mut b: Vec<u8> = Vec::new();
    extend_bytes(&mut b, body);
    proof {
        let n1 = (spec_u64_uintvar(d@)->Ok_0).1;
        let n2 = (spec_u64_uintvar(d@.skip(n1 as int))->Ok_0).1;
        let p: int = n1 as int + n2 as int;
        assert(hdr@ == d@.subrange(p, p + headers_len));
        assert(body@ == d@.subrange(p + headers_len, p + headers_len + data_len));
        assert(rest@ == d@.skip(p + headers_len + data_len));
    }
    Ok((rest, MultiPartItem { content_type, headers, body: b }))
}

fn parse_items(d: &[u8], count: u64) -> (r: Result<(&[u8], Vec<MultiPartItem>), DecodeError>)
    ensures
        match spec_items(d@, count as nat) {
            Err(e) => r matches Err(f) && f == e,
            Ok((items, k)) => (r matches Ok((rest, v)) && items_view(v@) == items && rest@ == d@.skip(k as int)
                && k <= d@.len()),
        },
    decreases count,
{
    if count == 0 {
        let v: Vec<MultiPartItem> = Vec::new();
        proof {
            assert(items_view(v@) =~= Seq::<MultiPartItemView>::empty());
        }
        return Ok((d, v));
    }
    let (rest, it) = body_item(d)?;
    let (end, mut tail) = parse_items(rest, count - 1)?;
    let ghost tv = tail@;
    let mut v: Vec<MultiPartItem> = Vec::new();
    v.push(it);
    v.append(&mut tail);
    proof {
        let k = (spec_body_item(d@)->Ok_0).1;
        let k2 = (spec_items(d@.skip(k as int), (count - 1) as nat)->Ok_0).1;
        assert(d@.skip(k as int).skip(k2 as int) == d@.skip(k as int + k2));
        assert(items_view(v@) =~= seq![it@] + items_view(tv));
    }
    Ok((end, v))
}

/// Reads a multipart body: the count, then exactly that many entries; the
/// bytes after the last entry are returned.
pub fn parse_multipart_body(data: &[u8]) -> (r: Result<(&[u8], Vec<MultiPartItem>), DecodeError>)
    ensures
        match spec_multipart(data@) {
            Err(e) => r matches Err(f) && f == e,
            Ok((items, k)) => (r matches Ok((rest, v)) && items_view(v@) == items && rest@ == data@.skip(k as int)),
        },
{
    proof {
        crate::uintvar::lemma_uintvar_decode_bound(data@);
    }
    let (d, count) = read_uintvar(data)?;
    let (rest, items) = parse_items(d, count)?;
    proof {
        let n = (spec_u64_uintvar(data@)->Ok_0).1;
        let k = (spec_items(data@.skip(n as int), count as nat)->Ok_0).1;
        assert(data@.skip(n as int).skip(k as int) == data@.skip(n as int + k));
    }
    Ok((rest, items))
}

/// The wire form of one entry.
#[verifier::opaque]
pub open spec fn item_wire(it: MultiPartItemView) -> Result<Seq<u8>, EncodeError> {
    match wap_headers_wire(it.headers) {
        Err(e) => Err(e),
        Ok(h) => match content_type_wire(it.content_type) {
            Err(e) => Err(e),
            Ok(c) => if c.len() + h.len() > u64::MAX || it.body.len() > u64::MAX {
                Err(EncodeError::TooLarge)
            } else {
                Ok(uintvar_encoding((c.len() + h.len()) as nat) + uintvar_encoding(it.body.len())
                + c + h + it.body)
            },
        },
    }
}

/// The wire form of entries, in order.
pub open spec fn items_wire(items: Seq<MultiPartItemView>) -> Result<Seq<u8>, EncodeError>
    decreases items.len(),
{
    if items.len() == 0 {
        Ok(Seq::empty())
    } else {
        match items_wire(items.drop_last()) {
            Err(e) => Err(e),
            Ok(front) => match item_wire(items.last()) {
                Err(e) => Err(e),
                Ok(b) => Ok(front + b),
            },
        }
    }
}

/// The wire form of a multipart body: the count, then the entries.
pub open spec fn multipart_wire(items: Seq<MultiPartItemView>) -> Result<Seq<u8>, EncodeError> {
    match items_wire(items) {
        Err(e) => Err(e),
        Ok(b) => Ok(uintvar_encoding(items.len()) + b),
    }
}

proof fn lemma_items_wire_err(items: Seq<MultiPartItemView>, j: int)
    requires
        0 <= j <= items.len(),
        items_wire(items.take(j)) is Err,
    ensures
        items_wire(items) == items_wire(items.take(j)),
    decreases items.len() - j,
{
    if j < items.len() {
        assert(items.take(j + 1).drop_last() == items.take(j));
        lemma_items_wire_err(items, j + 1);
    } else {
        assert(items.take(j) == items);
    }
}

fn encode_item(part: &MultiPartItem) -> (r: Result<Vec<u8>, EncodeError>)
    ensures
        match item_wire(part@) {
            Err(e) => r == Err::<Vec<u8>, EncodeError>(e),
            Ok(b) => (r matches Ok(v) && v@ == b),
        },
{
    reveal(item_wire);
    let mut headers = encode_wap_headers(&part.headers)?;
    let mut content_type = encode_content_type(&part.content_type)?;
    if headers.len() as u128 + content_type.len() as u128 > u64::MAX as u128
        || part.body.len() as u128 > u64::MAX as u128 {
        return Err(EncodeError::TooLarge);
    }
    let mut buf = encode_uintvar((headers.len() as u128 + content_type.len() as u128) as u64);
    let mut blen = encode_uintvar(part.body.len() as u64);
    buf.append(&mut blen);
    buf.append(&mut content_type);
    buf.append(&mut headers);
    extend_bytes(&mut buf, part.body.as_slice());
    Ok(buf)
}

/// A multipart body ready to be encoded, with its envelope content type.
pub struct MultiPartEncoder {
    pub parts: Vec<MultiPartItem>,
    pub content_type: ContentType,
}

/// A message body: its content type, and its encoding.
pub trait EncodableBody: Sized {
    /// The content type that the message declares for the body.
    spec fn spec_content_type(&self) -> ContentTypeView;

    /// The bytes of the body, or why it cannot be encoded.
    spec fn spec_encoding(&self) -> Result<Seq<u8>, EncodeError>;

    fn content_type(&self) -> (r: &ContentType)
        ensures
            r@ == self.spec_content_type(),
    ;

    fn encode(self) -> (r: Result<Vec<u8>, EncodeError>)
        ensures
            match self.spec_encoding() {
                Err(e) => r == Err::<Vec<u8>, EncodeError>(e),
                Ok(b) => (r matches Ok(v) && v@ == b),
            },
    ;
}

/// A body that is already bytes, with its content type.
impl EncodableBody for (ContentType, Vec<u8>) {
    open spec fn spec_content_type(&self) -> ContentTypeView {
        self.0@
    }

    open spec fn spec_encoding(&self) -> Result<Seq<u8>, EncodeError> {
        Ok(self.1@)
    }

    fn content_type(&self) -> (r: &ContentType) {
        &self.0
    }

    fn encode(self) -> (r: Result<Vec<u8>, EncodeError>) {
        Ok(self.1)
    }
}

impl EncodableBody for MultiPartEncoder {
    open spec fn spec_content_type(&self) -> ContentTypeView {
        self.content_type@
    }

    open spec fn spec_encoding(&self) -> Result<Seq<u8>, EncodeError> {
        multipart_wire(items_view(self.parts@))
    }

    fn content_type(&self) -> (r: &ContentType) {
        &self.content_type
    }

    /// Encodes the entries in order.
    fn encode(self) -> (r: Result<Vec<u8>, EncodeError>) {
        let parts = &self.parts;
        let mut body: Vec<u8> = Vec::new();
        let mut i: usize = 0;
        proof {
            assert(items_view(parts@.take(0)) =~= Seq::<MultiPartItemView>::empty());
        }
        while i < parts.len()
            invariant
                i <= parts@.len(),
                parts@ == self.parts@,
                items_wire(items_view(parts@.take(i as int))) == Ok::<Seq<u8>, EncodeError>(body@),
            decreases parts@.len() - i,
        {
            proof {
                assert(items_view(parts@.take(i + 1)).drop_last() == items_view(parts@.take(i as int)));
                assert(items_view(parts@.take(i + 1)) == items_view(parts@).take(i + 1));
                assert(items_view(parts@.take(i + 1)).last() == parts@[i as int]@);
            }
            let mut b = match encode_item(&parts[i]) {
                Ok(b) => b,
                Err(e) => {
                    proof {
                        let t = items_view(parts@).take(i + 1);
                        assert(t.drop_last() == items_view(parts@.take(i as int)));
                        assert(t.last() == parts@[i as int]@);
                        assert(items_wire(t) == Err::<Seq<u8>, EncodeError>(e));
                        lemma_items_wire_err(items_view(parts@), i + 1);
                    }
                    return Err(e);
                },
            };
            body.append(&mut b);
            i = i + 1;
        }
        proof {
            assert(parts@.take(i as int) == parts@);
        }
        let mut buf = encode_uintvar(parts.len() as u64);
        buf.append(&mut body);
        Ok(buf)
    }
}

/// An entry kind that a multipart builder can hold.
pub trait Item: Sized {
    /// The entry this becomes.
    spec fn spec_item(&self) -> MultiPartItemView;

    /// The envelope content type when this entry comes first.
    spec fn spec_multipart_type(&self) -> ContentTypeView;

    /// Whether this entry is a presentation layout.
    spec fn spec_is_layout(&self) -> bool;

    fn multipart_type(&self) -> (r: ContentType)
        ensures
            r@ == self.spec_multipart_type(),
    ;

    fn into_item(self) -> (r: MultiPartItem)
        ensures
            r@ == self.spec_item(),
    ;

    fn is_layout(&self) -> (r: bool)
        ensures
            r == self.spec_is_layout(),
    ;
}

/// An entry kind that may need a layout entry in front of the others.
pub trait LayoutItem: Item {
    /// Whether a body of this kind needs a layout entry.
    spec fn spec_layout_needed() -> bool;

    /// The entry that the default layout becomes.
    spec fn spec_layout_item() -> MultiPartItemView;

    /// The envelope content type when the default layout comes first.
    spec fn spec_layout_type() -> ContentTypeView;

    /// The default layout, where this kind needs one.
    fn generate_layout() -> (r: Option<Self>)
        ensures
            Self::spec_layout_needed() ==> (r matches Some(l) && l.spec_item() == Self::spec_layout_item()
                && l.spec_multipart_type() == Self::spec_layout_type() && l.spec_is_layout()),
            !Self::spec_layout_needed() ==> r is None,
    ;
}

/// The entries that entries of some kind become, in order.
pub open spec fn items_of<I: Item>(parts: Seq<I>) -> Seq<MultiPartItemView> {
    parts.map_values(|p: I| p.spec_item())
}

/// Whether the builder will put the default layout in front.
pub open spec fn needs_default_layout<I: LayoutItem>(parts: Seq<I>) -> bool {
    I::spec_layout_needed() && forall|i: int| 0 <= i < parts.len() ==> !(#[trigger] parts[i]).spec_is_layout()
}

/// Collects entries of one kind into a multipart body.
pub struct EncoderBuilder<I: LayoutItem> {
    pub parts: Vec<I>,
}

impl<I: LayoutItem> EncoderBuilder<I> {
    /// A builder with no entries.
    pub fn new() -> (r: Self)
        ensures
            r.parts@.len() == 0,
    {
        EncoderBuilder { parts: Vec::new() }
    }

    /// Replaces the entries present, if any, with these.
    pub fn parts(&mut self, parts: Vec<I>)
        ensures
            final(self).parts@ == parts@,
    {
        self.parts = parts;
    }

    /// Adds one entry after those already present.
    pub fn part(&mut self, part: I)
        ensures
            final(self).parts@ == old(self).parts@.push(part),
    {
        self.parts.push(part);
    }

    /// The body: the entries in the order they were added, behind the
    /// default layout where the kind needs one and none was given. The first
    /// entry decides the envelope content type; with no entry there is no
    /// body.
    pub fn build(self) -> (r: Option<MultiPartEncoder>)
        ensures
            needs_default_layout(self.parts@) ==> (r matches Some(e)
                && items_view(e.parts@) == seq![I::spec_layout_item()] + items_of(self.parts@)
                && e.content_type@ == I::spec_layout_type()),
            !needs_default_layout(self.parts@) ==> (self.parts@.len() == 0 <==> r is None),
            !needs_default_layout(self.parts@) && self.parts@.len() > 0 ==> (r matches Some(e)
                && items_view(e.parts@) == items_of(self.parts@)
                && e.content_type@ == self.parts@[0].spec_multipart_type()),
    {
        let mut parts = self.parts;
        let ghost given = parts@;
        let mut has_layout = false;
        let mut i: usize = 0;
        while i < parts.len()
            invariant
                i <= parts@.len(),
                parts@ == given,
                has_layout <==> exists|j: int| 0 <= j < i && (#[trigger] parts@[j]).spec_is_layout(),
            decreases parts@.len() - i,
        {
            if parts[i].is_layout() {
                has_layout = true;
            }
            i = i + 1;
        }
        let mut out: Vec<MultiPartItem> = Vec::new();
        let content_type;
        let layout = I::generate_layout();
        match layout {
            Some(l) => {
                if !has_layout {
                    content_type = l.multipart_type();
                    out.push(l.into_item());
                } else {
                    if parts.len() == 0 {
                        return None;
                    }
                    content_type = parts[0].multipart_type();
                }
            },
            None => {
                if parts.len() == 0 {
                    return None;
                }
                content_type = parts[0].multipart_type();
            },
        }
        let ghost front = items_view(out@);
        while parts.len() > 0
            invariant
                given.len() == out@.len() - front.len() + parts@.len(),
                front.len() <= out@.len(),
                items_view(out@) == front + items_of(given.take(out@.len() - front.len())),
                parts@ == given.skip(out@.len() - front.len()),
            decreases parts@.len(),
        {
            let ghost k = out@.len() - front.len();
            let p = parts.remove(0);
            let it = p.into_item();
            let ghost old_out = out@;
            out.push(it);
            proof {
                assert(items_view(out@) =~= items_view(old_out).push(it@));
            }
            proof {
                assert(given.skip(k) [0] == p);
                assert(parts@ =~= given.skip(k + 1));
                assert(given.take(k + 1) =~= given.take(k).push(p));
                assert(items_of(given.take(k + 1)) =~= items_of(given.take(k)).push(p.spec_item()));
                assert(items_view(out@) =~= front + items_of(given.take(k + 1)));
            }
        }
        proof {
            assert(given.take(given.len() as int) == given);
        }
        Some(MultiPartEncoder { parts: out, content_type })
    }
}

/// An entry of a `multipart/mixed` body.
pub struct MixedItem {
    pub item: MultiPartItem,
}

impl MixedItem {
    /// Wraps an entry.
    pub fn new(item: MultiPartItem) -> (r: Self)
        ensures
            r.item@ == item@,
    {
        MixedItem { item }
    }
}

impl Item for MixedItem {
    open spec fn spec_item(&self) -> MultiPartItemView {
        self.item@
    }

    open spec fn spec_multipart_type(&self) -> ContentTypeView {
        ContentTypeView { media: "application/vnd.wap.multipart.mixed"@, params: Seq::empty() }
    }

    open spec fn spec_is_layout(&self) -> bool {
        false
    }

    fn multipart_type(&self) -> (r: ContentType) {
        ContentType::new("application/vnd.wap.multipart.mixed")
    }

    fn into_item(self) -> (r: MultiPartItem) {
        self.item
    }

    fn is_layout(&self) -> (r: bool) {
        false
    }
}

impl LayoutItem for MixedItem {
    open spec fn spec_layout_needed() -> bool {
        false
    }

    open spec fn spec_layout_item() -> MultiPartItemView {
        MultiPartItemView { content_type: ContentTypeView { media: Seq::empty(), params: Seq::empty() }, headers: Seq::empty(), body: Seq::empty() }
    }

    open spec fn spec_layout_type() -> ContentTypeView {
        ContentTypeView { media: Seq::empty(), params: Seq::empty() }
    }

    fn generate_layout() -> (r: Option<Self>) {
        None
    }
}

/// An entry of a `multipart/related` body, with the id that the envelope's
/// `start` parameter can name.
pub struct RelatedBodyPart {
    pub item: MultiPartItem,
    pub id: String,
}

/// The media type of the presentation layout.
pub open spec fn layout_media() -> Seq<char> {
    "application/smil"@
}

/// The envelope content type of a related body that starts with an entry of
/// id `id` and media type `media`.
pub open spec fn related_type(id: Seq<char>, media: Seq<char>) -> ContentTypeView {
    ContentTypeView {
        media: "application/vnd.wap.multipart.related"@,
        params: seq![("start"@, id), ("type"@, media)],
    }
}

/// The text of the default layout.
pub open spec fn default_layout_text() -> Seq<char> {
    "<smil><head><layout><root-layout width=\"818px\" height=\"480px\"/></layout></head><body><par dur=\"5000ms\"/></body></smil>"@
}

/// The entry of a related body part built from these values.
pub open spec fn related_item(ct: ContentTypeView, body: Seq<u8>, id: Seq<char>, location: Seq<char>) -> MultiPartItemView {
    MultiPartItemView {
        content_type: ct,
        headers: seq![MessageHeaderView::ContentId(id), MessageHeaderView::ContentLocation(location)],
        body,
    }
}

impl RelatedBodyPart {
    /// An entry with a Content-Id and a Content-Location header.
    pub fn new(content_type: ContentType, body: Vec<u8>, id: String, location: String) -> (r: Self)
        ensures
            r.item@ == related_item(content_type@, body@, id@, location@),
            r.id@ == id@,
    {
        let mut headers: Vec<MessageHeader> = Vec::new();
        headers.push(MessageHeader::ContentId(id.clone()));
        headers.push(MessageHeader::ContentLocation(location));
        let item = MultiPartItem { content_type, headers, body };
        proof {
            assert(headers_view(item.headers@) =~= seq![MessageHeaderView::ContentId(id@), MessageHeaderView::ContentLocation(location@)]);
        }
        RelatedBodyPart { item, id }
    }
}

impl Item for RelatedBodyPart {
    open spec fn spec_item(&self) -> MultiPartItemView {
        self.item@
    }

    open spec fn spec_multipart_type(&self) -> ContentTypeView {
        related_type(self.id@, self.item.content_type.media@)
    }

    open spec fn spec_is_layout(&self) -> bool {
        self.item.content_type.media@ == layout_media()
    }

    fn multipart_type(&self) -> (r: ContentType) {
        let r = ContentType::new("application/vnd.wap.multipart.related")
            .with_param("start", self.id.as_str())
            .with_param("type", self.item.content_type.essence_str());
        proof {
            assert(r@.params =~= related_type(self.id@, self.item.content_type.media@).params);
        }
        r
    }

    fn into_item(self) -> (r: MultiPartItem) {
        self.item
    }

    fn is_layout(&self) -> (r: bool) {
        str_eq(self.item.content_type.essence_str(), "application/smil")
    }
}

impl LayoutItem for RelatedBodyPart {
    open spec fn spec_layout_needed() -> bool {
        true
    }

    open spec fn spec_layout_item() -> MultiPartItemView {
        related_item(
            ContentTypeView { media: layout_media(), params: Seq::empty() },
            encode_utf8(default_layout_text()),
            "<smil>"@,
            "smil.xml"@,
        )
    }

    open spec fn spec_layout_type() -> ContentTypeView {
        related_type("<smil>"@, layout_media())
    }

    fn generate_layout() -> (r: Option<Self>) {
        let text = "<smil><head><layout><root-layout width=\"818px\" height=\"480px\"/></layout></head><body><par dur=\"5000ms\"/></body></smil>";
        let mut body: Vec<u8> = Vec::new();
        extend_bytes(&mut body, text.as_bytes());
        Some(RelatedBodyPart::new(
            ContentType::new("application/smil"),
            body,
            String::from_str("<smil>"),
            String::from_str("smil.xml"),
        ))
    }
}

} // verus!
