//! Decoding what the encoders write gives back what was encoded.

use crate::content_type::{
    charset_code_spec, charset_name_spec, constrained_wire, content_type_code_spec,
    content_type_name_spec, content_type_wire, find_content_type_code, param_wire, params_wire,
    spec_constrained, spec_content_type, spec_param, spec_params, ContentTypeView,
};
use crate::encoder::{
    built_items, built_type, fields_wire, finalized_entries, lemma_send_request_order,
    ordered_entries, send_req_wire, MSendReq,
};
use crate::multimap::{entries_view, first_value, header_entries};
use crate::multipart::{needs_default_layout, related_type};
use crate::mms_header::{
    header_field_wire, header_for_code, message_type_for_token, message_type_token,
    spec_header_value, MessageTypeField, MmsHeader, MmsHeaderValue, MmsHeaderValueView,
};
use crate::pdu::{ok_fields, spec_header_field, spec_split};
use crate::primitives::{spec_encoded_string, spec_short_integer};
use crate::error::{DecodeError, EncodeError};
use crate::message_header::{
    spec_field, spec_wap_header, spec_wap_headers, wap_header_wire, wap_headers_wire,
    MessageHeaderView,
};
use crate::multipart::{
    default_layout_text, item_wire, items_of, items_wire, layout_media, multipart_wire,
    spec_body_item, spec_items, spec_multipart, Item, LayoutItem, RelatedBodyPart,
    spec_u64_uintvar, MultiPartItemView,
};
use crate::primitives::{
    first_zero, quoted_string_wire, spec_quoted_string, spec_text_string, spec_value_length,
    text_string_wire, unescape_text, value_length_encoding,
};
use crate::text::{ascii_lower, lower_bytes, same_ignoring_case};
use crate::uintvar::{lemma_uintvar_round_trip, uintvar_encoding};
use vstd::prelude::*;
use vstd::utf8::encode_utf8;

verus! {

/// Whether text content survives the text-string form: no zero byte, and no
/// quote byte 0x7F in front of a byte with the top bit set.
pub open spec fn text_ok(c: Seq<u8>) -> bool {
    (forall|i: int| 0 <= i < c.len() ==> #[trigger] c[i] != 0)
        && !(c.len() >= 2 && c[0] == 0x7F && c[1] >= 128)
}

proof fn lemma_first_zero_at(d: Seq<u8>, i: int, k: int)
    requires
        0 <= i <= k < d.len(),
        d[k] == 0,
        forall|j: int| i <= j < k ==> #[trigger] d[j] != 0,
    ensures
        first_zero(d, i) == Some(k),
    decreases k - i,
{
    if i < k {
        lemma_first_zero_at(d, i + 1, k);
    }
}

/// A text string reads back as written, and takes exactly its bytes.
pub proof fn lemma_text_round_trip(s: Seq<char>, rest: Seq<u8>)
    requires
        text_ok(encode_utf8(s)),
    ensures
        spec_text_string(text_string_wire(encode_utf8(s)) + rest)
            == Ok::<(Seq<char>, nat), DecodeError>((s, text_string_wire(encode_utf8(s)).len())),
        first_zero(text_string_wire(encode_utf8(s)) + rest, 0) == Some(text_string_wire(encode_utf8(s)).len() - 1),
{
    broadcast use vstd::utf8::encode_utf8_decode_utf8, vstd::utf8::encode_utf8_valid_utf8;
    let c = encode_utf8(s);
    let w = text_string_wire(c);
    let d = w + rest;
    let k = w.len() - 1;
    assert forall|j: int| 0 <= j < k implies #[trigger] d[j] != 0 by {
        if c.len() > 0 && c[0] >= 128 {
            if j > 0 {
                assert(d[j] == c[j - 1]);
            }
        } else {
            assert(d[j] == c[j]);
        }
    }
    lemma_first_zero_at(d, 0, k);
    let raw = d.take(k);
    if c.len() > 0 && c[0] >= 128 {
        assert(raw == seq![0x7Fu8] + c);
        assert(unescape_text(raw) == c);
    } else {
        assert(raw == c);
    }
}

/// A quoted string reads back as written, and takes exactly its bytes.
pub proof fn lemma_quoted_round_trip(s: Seq<char>, rest: Seq<u8>)
    requires
        forall|i: int| 0 <= i < encode_utf8(s).len() ==> #[trigger] encode_utf8(s)[i] != 0,
    ensures
        spec_quoted_string(quoted_string_wire(encode_utf8(s)) + rest)
            == Ok::<(Seq<char>, nat), DecodeError>((s, quoted_string_wire(encode_utf8(s)).len())),
        first_zero(quoted_string_wire(encode_utf8(s)) + rest, 0) == Some(quoted_string_wire(encode_utf8(s)).len() - 1),
{
    broadcast use vstd::utf8::encode_utf8_decode_utf8, vstd::utf8::encode_utf8_valid_utf8;
    let c = encode_utf8(s);
    let w = quoted_string_wire(c);
    let d = w + rest;
    let k = w.len() - 1;
    assert forall|j: int| 1 <= j < k implies #[trigger] d[j] != 0 by {
        assert(d[j] == c[j - 1]);
    }
    lemma_first_zero_at(d, 1, k);
    assert(d[0] == 0x22);
    lemma_first_zero_at(d, 0, k);
    assert(d.subrange(1, k) == c);
}

/// A value length reads back as written.
pub proof fn lemma_value_length_round_trip(len: nat, rest: Seq<u8>)
    requires
        len <= u64::MAX,
    ensures
        spec_value_length(value_length_encoding(len) + rest)
            == Ok::<(u64, nat), DecodeError>((len as u64, value_length_encoding(len).len())),
{
    let d = value_length_encoding(len) + rest;
    if len > 30 {
        lemma_uintvar_round_trip(len, rest);
        assert(d.skip(1) == uintvar_encoding(len) + rest);
    }
}

proof fn lemma_code_names(name: Seq<char>, k: nat)
    requires
        find_content_type_code(name, k) is Some,
    ensures
        content_type_name_spec(find_content_type_code(name, k)->Some_0) == Some(name),
        find_content_type_code(name, k)->Some_0 < 128,
    decreases 128 - k,
{
    if k < 128 && content_type_name_spec(k as u8) != Some(name) {
        lemma_code_names(name, k + 1);
    }
}

/// Whether a media type survives the constrained form: it has a code, or its
/// text survives the text-string form.
pub open spec fn media_ok(m: Seq<char>) -> bool {
    content_type_code_spec(m) is Some || text_ok(encode_utf8(m))
}

/// Whether a media type also survives standing first in a content type:
/// the text form must not start below 32, where the general form starts.
pub open spec fn lead_media_ok(m: Seq<char>) -> bool {
    content_type_code_spec(m) is Some || (text_ok(encode_utf8(m)) && encode_utf8(m).len() > 0
        && encode_utf8(m)[0] >= 32)
}

/// The constrained form reads back as written.
pub proof fn lemma_constrained_round_trip(m: Seq<char>, rest: Seq<u8>)
    requires
        media_ok(m),
    ensures
        spec_constrained(constrained_wire(m) + rest)
            == Ok::<(Seq<char>, nat), DecodeError>((m, constrained_wire(m).len())),
{
    match content_type_code_spec(m) {
        Some(c) => {
            lemma_code_names(m, 0);
            let d = constrained_wire(m) + rest;
            assert(d[0] == (c + 128) as u8);
            assert(((c + 128) as u8 - 128) as u8 == c);
        },
        None => {
            lemma_text_round_trip(m, rest);
            let w = text_string_wire(encode_utf8(m));
            let d = w + rest;
            if encode_utf8(m).len() > 0 && encode_utf8(m)[0] >= 128 {
                assert(d[0] == 0x7F);
            } else if encode_utf8(m).len() > 0 {
                assert(d[0] == encode_utf8(m)[0]);
            } else {
                assert(d[0] == 0);
            }
        },
    }
}

proof fn lemma_ascii_literal(s: Seq<char>)
    requires
        forall|i: int| 0 <= i < s.len() ==> ' ' <= #[trigger] s[i] <= '~',
    ensures
        lower_bytes(encode_utf8(s)).len() == s.len(),
        forall|i: int| 0 <= i < s.len() ==> #[trigger] lower_bytes(encode_utf8(s))[i] == ascii_lower(s[i] as u8),
{
    assert(vstd::utf8::is_ascii_chars(s));
    vstd::utf8::is_ascii_chars_encode_utf8(s);
}

/// The parameter names with a binary form differ from one another, even
/// ignoring case.
proof fn lemma_param_names()
    ensures
        !same_ignoring_case("name"@, "charset"@),
        !same_ignoring_case("start"@, "charset"@),
        !same_ignoring_case("type"@, "charset"@),
        !same_ignoring_case("start"@, "name"@),
        !same_ignoring_case("type"@, "name"@),
        !same_ignoring_case("type"@, "start"@),
{
    reveal_strlit("charset");
    reveal_strlit("name");
    reveal_strlit("start");
    reveal_strlit("type");
    lemma_ascii_literal("charset"@);
    lemma_ascii_literal("name"@);
    lemma_ascii_literal("start"@);
    lemma_ascii_literal("type"@);
    assert(lower_bytes(encode_utf8("name"@))[0] != lower_bytes(encode_utf8("type"@))[0]);
}

/// Whether a parameter survives its binary form.
pub open spec fn param_ok(p: (Seq<char>, Seq<char>)) -> bool {
    (p.0 == "charset"@ && (p.1 == "*"@ || (charset_code_spec(p.1) is Some
        && charset_name_spec(charset_code_spec(p.1)->Some_0 as u64) == Some(p.1))))
        || ((p.0 == "name"@ || p.0 == "start"@) && text_ok(encode_utf8(p.1)))
        || (p.0 == "type"@ && media_ok(p.1))
}

/// One parameter reads back as written.
pub proof fn lemma_param_round_trip(p: (Seq<char>, Seq<char>), rest: Seq<u8>)
    requires
        param_ok(p),
    ensures
        param_wire(p.0, p.1) is Ok,
        spec_param((param_wire(p.0, p.1)->Ok_0) + rest)
            == Ok::<((Seq<char>, Seq<char>), nat), DecodeError>((p, (param_wire(p.0, p.1)->Ok_0).len())),
{
    reveal_strlit("charset");
    reveal_strlit("name");
    reveal_strlit("start");
    reveal_strlit("type");
    assert("charset"@.len() == 7);
    assert("name"@.len() == 4);
    assert("start"@.len() == 5);
    assert("type"@.len() == 4);
    assert("name"@[0] != "type"@[0]);
    lemma_param_names();
    let (n, v) = p;
    if n == "charset"@ {
        let w = param_wire(n, v)->Ok_0;
        let d = w + rest;
        assert(d[0] == 0x81u8);
        assert(d.skip(1)[0] == d[1]);
        if v != "*"@ {
            let c = charset_code_spec(v)->Some_0;
            assert(charset_name_spec(c as u64) == Some(v));
            assert(d[1] == (c + 128) as u8);
            assert(d.skip(1)[0] != 128);
        }
    } else if n == "name"@ || n == "start"@ {
        let t = text_string_wire(encode_utf8(v));
        let w = param_wire(n, v)->Ok_0;
        let d = w + rest;
        assert(d.skip(1) == t + rest);
        lemma_text_round_trip(v, rest);
    } else {
        let w = param_wire(n, v)->Ok_0;
        let d = w + rest;
        assert(d.skip(1) == constrained_wire(v) + rest);
        lemma_constrained_round_trip(v, rest);
    }
}

proof fn lemma_params_wire_front(ps: Seq<(Seq<char>, Seq<char>)>)
    requires
        ps.len() > 0,
        forall|i: int| 0 <= i < ps.len() ==> param_ok(#[trigger] ps[i]),
    ensures
        params_wire(ps) is Ok,
        params_wire(ps.skip(1)) is Ok,
        params_wire(ps)->Ok_0 == (param_wire(ps[0].0, ps[0].1)->Ok_0) + (params_wire(ps.skip(1))->Ok_0),
    decreases ps.len(),
{
    lemma_param_round_trip(ps[0], Seq::empty());
    lemma_param_round_trip(ps.last(), Seq::empty());
    if ps.len() == 1 {
        assert(ps.drop_last() =~= Seq::<(Seq<char>, Seq<char>)>::empty());
        assert(ps.skip(1) =~= Seq::<(Seq<char>, Seq<char>)>::empty());
        assert(params_wire(ps)->Ok_0 =~= (param_wire(ps[0].0, ps[0].1)->Ok_0));
    } else {
        lemma_params_wire_front(ps.drop_last());
        assert(ps.drop_last().skip(1) == ps.skip(1).drop_last());
        assert(ps.skip(1).last() == ps.last());
        assert(ps.drop_last()[0] == ps[0]);
        let a = param_wire(ps[0].0, ps[0].1)->Ok_0;
        let b = params_wire(ps.skip(1).drop_last())->Ok_0;
        let c = param_wire(ps.last().0, ps.last().1)->Ok_0;
        assert(a + b + c =~= a + (b + c));
    }
}

/// Parameters read back as written.
pub proof fn lemma_params_round_trip(ps: Seq<(Seq<char>, Seq<char>)>)
    requires
        forall|i: int| 0 <= i < ps.len() ==> param_ok(#[trigger] ps[i]),
    ensures
        params_wire(ps) is Ok,
        spec_params(params_wire(ps)->Ok_0) == Ok::<Seq<(Seq<char>, Seq<char>)>, DecodeError>(ps),
    decreases ps.len(),
{
    if ps.len() == 0 {
        assert(params_wire(ps)->Ok_0 =~= Seq::<u8>::empty());
        assert(ps =~= Seq::<(Seq<char>, Seq<char>)>::empty());
    } else {
        lemma_params_wire_front(ps);
        let a = param_wire(ps[0].0, ps[0].1)->Ok_0;
        let b = params_wire(ps.skip(1))->Ok_0;
        lemma_param_round_trip(ps[0], b);
        lemma_params_round_trip(ps.skip(1));
        let d = a + b;
        assert(d.skip(a.len() as int) == b);
        assert(a.len() > 0) by {
            reveal_strlit("charset");
            reveal_strlit("name");
            reveal_strlit("start");
            reveal_strlit("type");
            lemma_param_names();
        }
        assert(seq![ps[0]] + ps.skip(1) == ps);
        assert(params_wire(ps)->Ok_0 == d);
        assert(spec_param(d) == Ok::<((Seq<char>, Seq<char>), nat), DecodeError>((ps[0], a.len())));
        assert(spec_params(b) == Ok::<Seq<(Seq<char>, Seq<char>)>, DecodeError>(ps.skip(1)));
        assert(spec_params(d) == Ok::<Seq<(Seq<char>, Seq<char>)>, DecodeError>(seq![ps[0]] + ps.skip(1)));
    }
}

/// Whether a content type survives its binary form.
pub open spec fn content_type_ok(ct: ContentTypeView) -> bool {
    &&& lead_media_ok(ct.media)
    &&& forall|i: int| 0 <= i < ct.params.len() ==> param_ok(#[trigger] ct.params[i])
    &&& constrained_wire(ct.media).len() + (params_wire(ct.params)->Ok_0).len() <= u64::MAX
}

proof fn lemma_params_wire_nonempty(ps: Seq<(Seq<char>, Seq<char>)>)
    requires
        forall|i: int| 0 <= i < ps.len() ==> param_ok(#[trigger] ps[i]),
    ensures
        params_wire(ps) is Ok,
        (params_wire(ps)->Ok_0).len() == 0 ==> ps =~= Seq::<(Seq<char>, Seq<char>)>::empty(),
{
    lemma_params_round_trip(ps);
    if ps.len() > 0 {
        lemma_params_wire_front(ps);
        reveal_strlit("charset");
        reveal_strlit("name");
        reveal_strlit("start");
        reveal_strlit("type");
        lemma_param_names();
        assert(param_ok(ps[0]));
        lemma_param_round_trip(ps[0], Seq::empty());
        assert((param_wire(ps[0].0, ps[0].1)->Ok_0).len() > 0);
    }
}

/// A content type reads back as written, as a field of exactly its bytes.
#[verifier::rlimit(40)]
pub proof fn lemma_content_type_round_trip(ct: ContentTypeView, rest: Seq<u8>)
    requires
        content_type_ok(ct),
    ensures
        content_type_wire(ct) is Ok,
        spec_content_type((content_type_wire(ct)->Ok_0) + rest)
            == Ok::<(ContentTypeView, nat), DecodeError>((ct, (content_type_wire(ct)->Ok_0).len())),
        crate::message_header::spec_field((content_type_wire(ct)->Ok_0) + rest)
            == Ok::<(Seq<u8>, nat), DecodeError>((content_type_wire(ct)->Ok_0, (content_type_wire(ct)->Ok_0).len())),
{
    lemma_params_round_trip(ct.params);
    lemma_params_wire_nonempty(ct.params);
    let c = constrained_wire(ct.media);
    let p = params_wire(ct.params)->Ok_0;
    let w = content_type_wire(ct)->Ok_0;
    let d = w + rest;
    if p.len() == 0 {
        assert(w == c);
        lemma_constrained_round_trip(ct.media, rest);
        match content_type_code_spec(ct.media) {
            Some(code) => {
                lemma_code_names(ct.media, 0);
                assert(d[0] == (code + 128) as u8);
                assert(d.take(1) == w);
            },
            None => {
                lemma_text_round_trip(ct.media, rest);
                let t = encode_utf8(ct.media);
                if t[0] >= 128 {
                    assert(d[0] == 0x7F);
                } else {
                    assert(d[0] == t[0]);
                }
                assert(d.take(w.len() as int) == w);
            },
        }
        assert(ct == ContentTypeView { media: ct.media, params: Seq::empty() });
    } else {
        let len = (c.len() + p.len()) as nat;
        let v = value_length_encoding(len);
        assert(w == v + (c + p));
        assert(d == v + ((c + p) + rest));
        lemma_value_length_round_trip(len, (c + p) + rest);
        let n = v.len();
        assert(d.subrange(n as int, n as int + len) == c + p);
        lemma_constrained_round_trip(ct.media, p);
        assert((c + p).skip(c.len() as int) == p);
        if len <= 30 {
            assert(d[0] == len as u8);
            assert(d.take(len as int + 1) == w);
        } else {
            assert(d[0] == 31);
            lemma_uintvar_round_trip(len, (c + p) + rest);
            assert(d.skip(1) == uintvar_encoding(len) + ((c + p) + rest));
            let k = uintvar_encoding(len).len();
            assert(d.take(1 + k as int + len) == w);
        }
        assert(ct == ContentTypeView { media: ct.media, params: ct.params });
    }
}

/// Whether a WAP header survives its wire form: a Content-Id without zero
/// bytes, or a Content-Location whose text survives and does not start
/// below 32.
pub open spec fn wap_header_ok(h: MessageHeaderView) -> bool {
    match h {
        MessageHeaderView::ContentId(s) => forall|i: int|
            0 <= i < encode_utf8(s).len() ==> #[trigger] encode_utf8(s)[i] != 0,
        MessageHeaderView::ContentLocation(s) => text_ok(encode_utf8(s)) && encode_utf8(s).len() > 0
            && encode_utf8(s)[0] >= 32,
        _ => false,
    }
}

/// One WAP header reads back as written.
pub proof fn lemma_wap_header_round_trip(h: MessageHeaderView, rest: Seq<u8>)
    requires
        wap_header_ok(h),
    ensures
        wap_header_wire(h) is Ok,
        (wap_header_wire(h)->Ok_0).len() > 0,
        spec_wap_header((wap_header_wire(h)->Ok_0) + rest)
            == Ok::<(MessageHeaderView, nat), DecodeError>((h, (wap_header_wire(h)->Ok_0).len())),
{
    let w = wap_header_wire(h)->Ok_0;
    let d = w + rest;
    match h {
        MessageHeaderView::ContentId(s) => {
            let q = quoted_string_wire(encode_utf8(s));
            lemma_quoted_round_trip(s, rest);
            lemma_quoted_round_trip(s, Seq::empty());
            assert(q + Seq::<u8>::empty() == q);
            assert(d.skip(1) == q + rest);
            assert(d[0] % 128 == 0x40);
            assert(q[0] == 0x22);
            assert((q + rest).take(q.len() as int) == q);
        },
        MessageHeaderView::ContentLocation(s) => {
            let t = text_string_wire(encode_utf8(s));
            lemma_text_round_trip(s, rest);
            lemma_text_round_trip(s, Seq::empty());
            assert(t + Seq::<u8>::empty() == t);
            assert(d.skip(1) == t + rest);
            assert(d[0] % 128 == 0x0E);
            if encode_utf8(s)[0] >= 128 {
                assert(t[0] == 0x7F);
            } else {
                assert(t[0] == encode_utf8(s)[0]);
            }
            assert((t + rest).take(t.len() as int) == t);
        },
        _ => {},
    }
}

proof fn lemma_wap_headers_wire_front(hs: Seq<MessageHeaderView>)
    requires
        hs.len() > 0,
        forall|i: int| 0 <= i < hs.len() ==> wap_header_ok(#[trigger] hs[i]),
    ensures
        wap_headers_wire(hs) is Ok,
        wap_headers_wire(hs.skip(1)) is Ok,
        wap_headers_wire(hs)->Ok_0 == (wap_header_wire(hs[0])->Ok_0) + (wap_headers_wire(hs.skip(1))->Ok_0),
    decreases hs.len(),
{
    lemma_wap_header_round_trip(hs[0], Seq::empty());
    lemma_wap_header_round_trip(hs.last(), Seq::empty());
    if hs.len() == 1 {
        assert(hs.drop_last() =~= Seq::<MessageHeaderView>::empty());
        assert(hs.skip(1) =~= Seq::<MessageHeaderView>::empty());
        assert(wap_headers_wire(hs)->Ok_0 =~= (wap_header_wire(hs[0])->Ok_0));
    } else {
        lemma_wap_headers_wire_front(hs.drop_last());
        assert(hs.drop_last().skip(1) == hs.skip(1).drop_last());
        assert(hs.skip(1).last() == hs.last());
        assert(hs.drop_last()[0] == hs[0]);
        let a = wap_header_wire(hs[0])->Ok_0;
        let b = wap_headers_wire(hs.skip(1).drop_last())->Ok_0;
        let c = wap_header_wire(hs.last())->Ok_0;
        assert(a + b + c =~= a + (b + c));
    }
}

/// WAP headers read back as written.
pub proof fn lemma_wap_headers_round_trip(hs: Seq<MessageHeaderView>)
    requires
        forall|i: int| 0 <= i < hs.len() ==> wap_header_ok(#[trigger] hs[i]),
    ensures
        wap_headers_wire(hs) is Ok,
        spec_wap_headers(wap_headers_wire(hs)->Ok_0) == Ok::<Seq<MessageHeaderView>, DecodeError>(hs),
    decreases hs.len(),
{
    if hs.len() == 0 {
        assert(wap_headers_wire(hs)->Ok_0 =~= Seq::<u8>::empty());
        assert(hs =~= Seq::<MessageHeaderView>::empty());
    } else {
        lemma_wap_headers_wire_front(hs);
        let a = wap_header_wire(hs[0])->Ok_0;
        let b = wap_headers_wire(hs.skip(1))->Ok_0;
        lemma_wap_header_round_trip(hs[0], b);
        lemma_wap_headers_round_trip(hs.skip(1));
        let d = a + b;
        assert(d.skip(a.len() as int) == b);
        assert(seq![hs[0]] + hs.skip(1) == hs);
        assert(spec_wap_headers(d) == Ok::<Seq<MessageHeaderView>, DecodeError>(seq![hs[0]] + hs.skip(1)));
    }
}

/// Whether a multipart entry survives its wire form.
pub open spec fn item_ok(it: MultiPartItemView) -> bool {
    &&& content_type_ok(it.content_type)
    &&& forall|i: int| 0 <= i < it.headers.len() ==> wap_header_ok(#[trigger] it.headers[i])
    &&& (content_type_wire(it.content_type)->Ok_0).len() + (wap_headers_wire(it.headers)->Ok_0).len() <= u64::MAX
    &&& it.body.len() <= u64::MAX
}

/// The header bytes `c + h` of an entry read back as content type `ct` and
/// WAP headers `hs`, the content type taking exactly `c`.
#[verifier::opaque]
pub open spec fn header_block_reads(c: Seq<u8>, h: Seq<u8>, ct: ContentTypeView, hs: Seq<MessageHeaderView>) -> bool {
    &&& spec_field(c + h) == Ok::<(Seq<u8>, nat), DecodeError>((c, c.len()))
    &&& spec_content_type(c) == Ok::<(ContentTypeView, nat), DecodeError>((ct, c.len()))
    &&& spec_wap_headers((c + h).skip(c.len() as int)) == Ok::<Seq<MessageHeaderView>, DecodeError>(hs)
}

proof fn lemma_item_header_part(it: MultiPartItemView)
    requires
        item_ok(it),
    ensures
        content_type_wire(it.content_type) is Ok,
        wap_headers_wire(it.headers) is Ok,
        header_block_reads(content_type_wire(it.content_type)->Ok_0, wap_headers_wire(it.headers)->Ok_0, it.content_type, it.headers),
{
    reveal(header_block_reads);
    lemma_wap_headers_round_trip(it.headers);
    let h = wap_headers_wire(it.headers)->Ok_0;
    lemma_content_type_round_trip(it.content_type, h);
    lemma_content_type_round_trip(it.content_type, Seq::empty());
    let c = content_type_wire(it.content_type)->Ok_0;
    assert(c + Seq::<u8>::empty() == c);
    assert((c + h).skip(c.len() as int) == h);
}

proof fn lemma_body_item_unfold(d: Seq<u8>, hl: nat, n1: nat, bl: nat, n2: nat, it: MultiPartItemView, c: Seq<u8>, h: Seq<u8>)
    requires
        spec_u64_uintvar(d) == Ok::<(nat, nat), DecodeError>((hl, n1)),
        spec_u64_uintvar(d.skip(n1 as int)) == Ok::<(nat, nat), DecodeError>((bl, n2)),
        n1 + n2 + hl + bl <= d.len(),
        d.subrange(n1 as int + n2, n1 as int + n2 + hl) == c + h,
        header_block_reads(c, h, it.content_type, it.headers),
        d.subrange(n1 as int + n2 + hl, n1 as int + n2 + hl + bl) == it.body,
    ensures
        spec_body_item(d) == Ok::<(MultiPartItemView, nat), DecodeError>((it, n1 + n2 + hl + bl)),
{
    reveal(spec_body_item);
    reveal(header_block_reads);
    assert(it == MultiPartItemView { content_type: it.content_type, headers: it.headers, body: it.body });
}

proof fn lemma_item_wire_shape(it: MultiPartItemView)
    requires
        content_type_wire(it.content_type) is Ok,
        wap_headers_wire(it.headers) is Ok,
        (content_type_wire(it.content_type)->Ok_0).len() + (wap_headers_wire(it.headers)->Ok_0).len() <= u64::MAX,
        it.body.len() <= u64::MAX,
    ensures
        item_wire(it) == Ok::<Seq<u8>, EncodeError>(
            uintvar_encoding(((content_type_wire(it.content_type)->Ok_0).len() + (wap_headers_wire(it.headers)->Ok_0).len()) as nat)
                + uintvar_encoding(it.body.len()) + (content_type_wire(it.content_type)->Ok_0)
                + (wap_headers_wire(it.headers)->Ok_0) + it.body),
{
    reveal(item_wire);
}

/// One multipart entry reads back as written.
pub proof fn lemma_item_round_trip(it: MultiPartItemView, rest: Seq<u8>)
    requires
        item_ok(it),
    ensures
        item_wire(it) is Ok,
        (item_wire(it)->Ok_0).len() > 0,
        spec_body_item((item_wire(it)->Ok_0) + rest)
            == Ok::<(MultiPartItemView, nat), DecodeError>((it, (item_wire(it)->Ok_0).len())),
{
    lemma_item_header_part(it);
    lemma_item_wire_shape(it);
    let h = wap_headers_wire(it.headers)->Ok_0;
    let c = content_type_wire(it.content_type)->Ok_0;
    let hl = (c.len() + h.len()) as nat;
    let bl = it.body.len();
    let u1 = uintvar_encoding(hl);
    let u2 = uintvar_encoding(bl);
    let w = item_wire(it)->Ok_0;
    let d = w + rest;
    let tail2 = c + h + it.body + rest;
    assert(d =~= u1 + (u2 + tail2));
    lemma_uintvar_round_trip(hl, u2 + tail2);
    assert(d.skip(u1.len() as int) =~= u2 + tail2);
    lemma_uintvar_round_trip(bl, tail2);
    let p: int = u1.len() as int + u2.len() as int;
    assert(d.subrange(p, p + hl) =~= c + h);
    assert(d.subrange(p + hl, p + hl + bl) =~= it.body);
    lemma_body_item_unfold(d, hl, u1.len(), bl, u2.len(), it, c, h);
}

proof fn lemma_items_wire_front(items: Seq<MultiPartItemView>)
    requires
        items.len() > 0,
        forall|i: int| 0 <= i < items.len() ==> item_ok(#[trigger] items[i]),
    ensures
        items_wire(items) is Ok,
        items_wire(items.skip(1)) is Ok,
        items_wire(items)->Ok_0 == (item_wire(items[0])->Ok_0) + (items_wire(items.skip(1))->Ok_0),
    decreases items.len(),
{
    lemma_item_round_trip(items[0], Seq::empty());
    lemma_item_round_trip(items.last(), Seq::empty());
    if items.len() == 1 {
        assert(items.drop_last() =~= Seq::<MultiPartItemView>::empty());
        assert(items.skip(1) =~= Seq::<MultiPartItemView>::empty());
        assert(items_wire(items)->Ok_0 =~= (item_wire(items[0])->Ok_0));
    } else {
        lemma_items_wire_front(items.drop_last());
        assert(items.drop_last().skip(1) == items.skip(1).drop_last());
        assert(items.skip(1).last() == items.last());
        assert(items.drop_last()[0] == items[0]);
        let a = item_wire(items[0])->Ok_0;
        let b = items_wire(items.skip(1).drop_last())->Ok_0;
        let c = item_wire(items.last())->Ok_0;
        assert(a + b + c =~= a + (b + c));
    }
}

/// Entries read back as written, as many as there are, and take exactly
/// their bytes.
pub proof fn lemma_items_round_trip(items: Seq<MultiPartItemView>, rest: Seq<u8>)
    requires
        forall|i: int| 0 <= i < items.len() ==> item_ok(#[trigger] items[i]),
    ensures
        items_wire(items) is Ok,
        spec_items((items_wire(items)->Ok_0) + rest, items.len())
            == Ok::<(Seq<MultiPartItemView>, nat), DecodeError>((items, (items_wire(items)->Ok_0).len())),
    decreases items.len(),
{
    if items.len() == 0 {
        assert(items_wire(items)->Ok_0 =~= Seq::<u8>::empty());
        assert(items =~= Seq::<MultiPartItemView>::empty());
    } else {
        lemma_items_wire_front(items);
        let a = item_wire(items[0])->Ok_0;
        let b = items_wire(items.skip(1))->Ok_0;
        lemma_item_round_trip(items[0], b + rest);
        lemma_items_round_trip(items.skip(1), rest);
        let d = a + b + rest;
        assert(d == a + (b + rest));
        assert(d.skip(a.len() as int) == b + rest);
        assert(seq![items[0]] + items.skip(1) == items);
    }
}

/// A multipart body reads back as written: the same entries in the same
/// order, using exactly the bytes written.
pub proof fn lemma_multipart_round_trip(items: Seq<MultiPartItemView>, rest: Seq<u8>)
    requires
        items.len() <= u64::MAX,
        forall|i: int| 0 <= i < items.len() ==> item_ok(#[trigger] items[i]),
    ensures
        multipart_wire(items) is Ok,
        spec_multipart((multipart_wire(items)->Ok_0) + rest)
            == Ok::<(Seq<MultiPartItemView>, nat), DecodeError>((items, (multipart_wire(items)->Ok_0).len())),
{
    lemma_items_round_trip(items, rest);
    let u = uintvar_encoding(items.len());
    let b = items_wire(items)->Ok_0;
    let d = u + b + rest;
    assert(d == u + (b + rest));
    lemma_uintvar_round_trip(items.len(), b + rest);
    assert(d.skip(u.len() as int) == b + rest);
}

proof fn lemma_utf8_len_bound(s: Seq<char>)
    ensures
        encode_utf8(s).len() <= 4 * s.len(),
    decreases s.len(),
{
    if s.len() > 0 {
        lemma_utf8_len_bound(s.drop_first());
    }
}

proof fn lemma_printable_ok(s: Seq<char>)
    requires
        forall|i: int| 0 <= i < s.len() ==> ' ' <= #[trigger] s[i] <= '~',
    ensures
        text_ok(encode_utf8(s)),
        encode_utf8(s).len() == s.len(),
        forall|i: int| 0 <= i < encode_utf8(s).len() ==> #[trigger] encode_utf8(s)[i] != 0,
        s.len() > 0 ==> encode_utf8(s)[0] >= 32,
{
    assert(vstd::utf8::is_ascii_chars(s));
    vstd::utf8::is_ascii_chars_encode_utf8(s);
    assert forall|i: int| 0 <= i < encode_utf8(s).len() implies #[trigger] encode_utf8(s)[i] != 0 && encode_utf8(s)[i] < 127 by {
        assert(s[i] as u8 == encode_utf8(s)[i]);
    }
}

proof fn lemma_layout_texts()
    ensures
        forall|i: int| 0 <= i < "application/smil"@.len() ==> ' ' <= #[trigger] "application/smil"@[i] <= '~',
        "application/smil"@.len() == 16,
        forall|i: int| 0 <= i < "<smil>"@.len() ==> ' ' <= #[trigger] "<smil>"@[i] <= '~',
        "<smil>"@.len() == 6,
        forall|i: int| 0 <= i < "smil.xml"@.len() ==> ' ' <= #[trigger] "smil.xml"@[i] <= '~',
        "smil.xml"@.len() == 8,
        forall|i: int| 0 <= i < "application/vnd.wap.multipart.related"@.len()
            ==> ' ' <= #[trigger] "application/vnd.wap.multipart.related"@[i] <= '~',
        "application/vnd.wap.multipart.related"@.len() == 37,
{
    reveal_strlit("application/vnd.wap.multipart.related");
    reveal_strlit("application/smil");
    reveal_strlit("<smil>");
    reveal_strlit("smil.xml");
}

proof fn lemma_layout_item_ok()
    ensures
        item_ok(<RelatedBodyPart as LayoutItem>::spec_layout_item()),
{
    lemma_layout_texts();
    let it = <RelatedBodyPart as LayoutItem>::spec_layout_item();
    let m = layout_media();
    lemma_printable_ok(m);
    lemma_printable_ok("<smil>"@);
    lemma_printable_ok("smil.xml"@);
    let ct = it.content_type;
    let empty = Seq::<(Seq<char>, Seq<char>)>::empty();
    assert(ct.params == empty);
    assert(params_wire(empty) == Ok::<Seq<u8>, EncodeError>(Seq::empty()));
    assert(constrained_wire(m).len() <= 18);
    assert(content_type_wire(ct) == Ok::<Seq<u8>, EncodeError>(constrained_wire(m)));
    let h0 = MessageHeaderView::ContentId("<smil>"@);
    let h1 = MessageHeaderView::ContentLocation("smil.xml"@);
    assert(it.headers == seq![h0, h1]);
    assert(wap_header_ok(h0));
    assert(wap_header_ok(h1));
    assert forall|i: int| 0 <= i < it.headers.len() implies wap_header_ok(#[trigger] it.headers[i]) by {
        if i == 0 {
            assert(it.headers[i] == h0);
        } else {
            assert(it.headers[i] == h1);
        }
    }
    lemma_wap_headers_round_trip(it.headers);
    lemma_wap_headers_wire_front(it.headers);
    assert(it.headers.skip(1) =~= seq![h1]);
    lemma_wap_headers_wire_front(it.headers.skip(1));
    assert(it.headers.skip(1).skip(1) =~= Seq::<MessageHeaderView>::empty());
    assert((wap_headers_wire(it.headers)->Ok_0).len() <= 100);
    reveal_strlit("<smil><head><layout><root-layout width=\"818px\" height=\"480px\"/></layout></head><body><par dur=\"5000ms\"/></body></smil>");
    lemma_utf8_len_bound(default_layout_text());
    assert(it.body.len() <= 1000);
}

/// Building a related body from two entries that are not layouts, encoding
/// it and decoding it gives the default layout entry first, then the two
/// entries in the order they were added, each with its content type,
/// headers and body; the decoder uses exactly the bytes written.
pub proof fn lemma_related_body_round_trip(a: RelatedBodyPart, b: RelatedBodyPart, rest: Seq<u8>)
    requires
        item_ok(a.spec_item()),
        item_ok(b.spec_item()),
        !a.spec_is_layout(),
        !b.spec_is_layout(),
    ensures
        built_items(seq![a, b]) == seq![<RelatedBodyPart as LayoutItem>::spec_layout_item(), a.spec_item(), b.spec_item()],
        multipart_wire(built_items(seq![a, b])) is Ok,
        spec_multipart((multipart_wire(built_items(seq![a, b]))->Ok_0) + rest)
            == Ok::<(Seq<MultiPartItemView>, nat), DecodeError>(
                (built_items(seq![a, b]), (multipart_wire(built_items(seq![a, b]))->Ok_0).len())),
{
    let parts = seq![a, b];
    assert(crate::multipart::needs_default_layout(parts)) by {
        assert forall|i: int| 0 <= i < parts.len() implies !(#[trigger] parts[i]).spec_is_layout() by {
            if i == 0 {
                assert(parts[i] == a);
            } else {
                assert(parts[i] == b);
            }
        }
    }
    assert(items_of(parts) =~= seq![a.spec_item(), b.spec_item()]);
    let items = built_items(parts);
    let l = <RelatedBodyPart as LayoutItem>::spec_layout_item();
    assert(items =~= seq![l, a.spec_item(), b.spec_item()]);
    lemma_layout_item_ok();
    assert forall|i: int| 0 <= i < items.len() implies item_ok(#[trigger] items[i]) by {
        if i == 0 {
            assert(items[i] == l);
        } else if i == 1 {
            assert(items[i] == a.spec_item());
        } else {
            assert(items[i] == b.spec_item());
        }
    }
    lemma_multipart_round_trip(items, rest);
}

/// Whether text survives as a header value in the text-string form: it
/// survives the form, and does not start below 32, where a value length
/// would start.
pub open spec fn header_text_ok(c: Seq<u8>) -> bool {
    text_ok(c) && c.len() > 0 && c[0] >= 32
}

/// Whether a header field survives being written and read back.
pub open spec fn field_ok(f: (MmsHeader, MmsHeaderValue)) -> bool {
    match f.1 {
        MmsHeaderValue::MessageTypeField(_) => f.0 == MmsHeader::XMmsMessageType,
        MmsHeaderValue::ShortUint(n) => f.0 == MmsHeader::XMmsMMSVersion && n <= 0x7F,
        MmsHeaderValue::String(s) => (f.0 == MmsHeader::XMmsTransactionId || f.0 == MmsHeader::To)
            && header_text_ok(encode_utf8(s@)),
        MmsHeaderValue::ContentType(c) => f.0 == MmsHeader::ContentType && content_type_ok(c@),
        _ => false,
    }
}

proof fn lemma_message_type_token(m: MessageTypeField)
    ensures
        message_type_for_token(message_type_token(m)) == Some(m),
        message_type_token(m) >= 128,
{
}

proof fn lemma_text_field(s: Seq<char>, rest: Seq<u8>)
    requires
        header_text_ok(encode_utf8(s)),
    ensures
        spec_field(text_string_wire(encode_utf8(s)) + rest)
            == Ok::<(Seq<u8>, nat), DecodeError>((text_string_wire(encode_utf8(s)), text_string_wire(encode_utf8(s)).len())),
        spec_text_string(text_string_wire(encode_utf8(s)))
            == Ok::<(Seq<char>, nat), DecodeError>((s, text_string_wire(encode_utf8(s)).len())),
{
    let t = text_string_wire(encode_utf8(s));
    lemma_text_round_trip(s, rest);
    lemma_text_round_trip(s, Seq::empty());
    assert(t + Seq::<u8>::empty() == t);
    let d = t + rest;
    if encode_utf8(s)[0] >= 128 {
        assert(d[0] == 0x7F);
    } else {
        assert(d[0] == encode_utf8(s)[0]);
    }
    assert(d.take(t.len() as int) == t);
}

/// What a header field owes when read back: its identity, the bytes of its
/// value, and the value those bytes hold.
pub open spec fn field_reads_back(f: (MmsHeader, MmsHeaderValue), rest: Seq<u8>) -> bool {
    &&& header_field_wire(f.0, f.1@) is Ok
    &&& (header_field_wire(f.0, f.1@)->Ok_0).len() >= 1
    &&& spec_header_field((header_field_wire(f.0, f.1@)->Ok_0) + rest)
        == Ok::<((MmsHeader, Seq<u8>), nat), DecodeError>((
            (f.0, (header_field_wire(f.0, f.1@)->Ok_0).skip(1)),
            (header_field_wire(f.0, f.1@)->Ok_0).len(),
        ))
    &&& spec_header_value(f.0, (header_field_wire(f.0, f.1@)->Ok_0).skip(1)) == Ok::<MmsHeaderValueView, DecodeError>(f.1@)
}

#[verifier::rlimit(40)]
proof fn lemma_message_type_field(m: MessageTypeField, rest: Seq<u8>)
    ensures
        field_reads_back((MmsHeader::XMmsMessageType, MmsHeaderValue::MessageTypeField(m)), rest),
{
    reveal(crate::mms_header::header_value_wire);
    let w = seq![0x8Cu8, message_type_token(m)];
    lemma_message_type_token(m);
    let hw = header_field_wire(MmsHeader::XMmsMessageType, MmsHeaderValueView::MessageTypeField(m));
    assert(hw is Ok);
    assert(hw->Ok_0 =~= w);
    let d = w + rest;
    assert(header_for_code(0x0C) == MmsHeader::XMmsMessageType);
    assert(w.skip(1) == seq![message_type_token(m)]);
    assert(d.skip(1).take(1) == w.skip(1));
}

#[verifier::rlimit(40)]
proof fn lemma_version_field(n: u8, rest: Seq<u8>)
    requires
        n <= 0x7F,
    ensures
        field_reads_back((MmsHeader::XMmsMMSVersion, MmsHeaderValue::ShortUint(n)), rest),
{
    reveal(crate::mms_header::header_value_wire);
    let w = seq![0x8Du8, (n + 128) as u8];
    let hw = header_field_wire(MmsHeader::XMmsMMSVersion, MmsHeaderValueView::ShortUint(n));
    assert(hw is Ok);
    assert(hw->Ok_0 =~= w);
    let d = w + rest;
    assert(header_for_code(0x0D) == MmsHeader::XMmsMMSVersion);
    assert(w.skip(1) == seq![(n + 128) as u8]);
    assert(d.skip(1).take(1) == w.skip(1));
}

#[verifier::rlimit(40)]
proof fn lemma_text_header_field(k: MmsHeader, s: String, rest: Seq<u8>)
    requires
        k == MmsHeader::XMmsTransactionId || k == MmsHeader::To,
        header_text_ok(encode_utf8(s@)),
    ensures
        field_reads_back((k, MmsHeaderValue::String(s)), rest),
{
    reveal(crate::mms_header::header_value_wire);
    let t = text_string_wire(encode_utf8(s@));
    let code: u8 = if k == MmsHeader::To { 0x97 } else { 0x98 };
    let w = seq![code] + t;
    assert(header_field_wire(k, MmsHeaderValueView::String(s@)) == Ok::<Seq<u8>, EncodeError>(w));
    let d = w + rest;
    assert(header_for_code(0x18) == MmsHeader::XMmsTransactionId);
    assert(header_for_code(0x17) == MmsHeader::To);
    assert(w.skip(1) == t);
    assert(d.skip(1) == t + rest);
    lemma_text_field(s@, rest);
}

#[verifier::rlimit(100)]
proof fn lemma_content_type_field(c: ContentTypeView, rest: Seq<u8>)
    requires
        content_type_ok(c),
    ensures
        header_field_wire(MmsHeader::ContentType, MmsHeaderValueView::ContentType(c)) is Ok,
        ({
            let w = header_field_wire(MmsHeader::ContentType, MmsHeaderValueView::ContentType(c))->Ok_0;
            &&& w.len() >= 1
            &&& spec_header_field(w + rest) == Ok::<((MmsHeader, Seq<u8>), nat), DecodeError>(((MmsHeader::ContentType, w.skip(1)), w.len()))
            &&& spec_header_value(MmsHeader::ContentType, w.skip(1)) == Ok::<MmsHeaderValueView, DecodeError>(MmsHeaderValueView::ContentType(c))
        }),
{
    reveal(crate::mms_header::header_value_wire);
    let cw = content_type_wire(c)->Ok_0;
    lemma_content_type_round_trip(c, rest);
    lemma_content_type_round_trip(c, Seq::empty());
    assert(cw + Seq::<u8>::empty() == cw);
    let w = seq![0x84u8] + cw;
    assert(header_field_wire(MmsHeader::ContentType, MmsHeaderValueView::ContentType(c)) == Ok::<Seq<u8>, EncodeError>(w));
    let d = w + rest;
    assert(header_for_code(0x04) == MmsHeader::ContentType);
    assert(w.skip(1) == cw);
    assert(d.skip(1) == cw + rest);
}

/// One header field reads back as written.
pub proof fn lemma_header_field_round_trip(f: (MmsHeader, MmsHeaderValue), rest: Seq<u8>)
    requires
        field_ok(f),
    ensures
        field_reads_back(f, rest),
{
    match f.1 {
        MmsHeaderValue::MessageTypeField(m) => lemma_message_type_field(m, rest),
        MmsHeaderValue::ShortUint(n) => lemma_version_field(n, rest),
        MmsHeaderValue::String(s) => lemma_text_header_field(f.0, s, rest),
        MmsHeaderValue::ContentType(c) => {
            lemma_content_type_field(c@, rest);
        },
        _ => {},
    }
}

/// The identity of each field and the bytes of its value.
pub open spec fn raw_fields(fs: Seq<(MmsHeader, MmsHeaderValue)>) -> Seq<(MmsHeader, Seq<u8>)> {
    fs.map_values(|f: (MmsHeader, MmsHeaderValue)| (f.0, (header_field_wire(f.0, f.1@)->Ok_0).skip(1)))
}

#[verifier::rlimit(100)]
proof fn lemma_fields_wire_front(fs: Seq<(MmsHeader, MmsHeaderValue)>)
    requires
        fs.len() > 0,
        forall|i: int| 0 <= i < fs.len() ==> field_ok(#[trigger] fs[i]),
    ensures
        fields_wire(fs) is Ok,
        fields_wire(fs.skip(1)) is Ok,
        fields_wire(fs)->Ok_0 == (header_field_wire(fs[0].0, fs[0].1@)->Ok_0) + (fields_wire(fs.skip(1))->Ok_0),
    decreases fs.len(),
{
    lemma_header_field_round_trip(fs[0], Seq::empty());
    lemma_header_field_round_trip(fs.last(), Seq::empty());
    if fs.len() == 1 {
        assert(fs.drop_last() =~= Seq::<(MmsHeader, MmsHeaderValue)>::empty());
        assert(fs.skip(1) =~= Seq::<(MmsHeader, MmsHeaderValue)>::empty());
        assert(fields_wire(fs)->Ok_0 =~= (header_field_wire(fs[0].0, fs[0].1@)->Ok_0));
    } else {
        lemma_fields_wire_front(fs.drop_last());
        assert(fs.drop_last().skip(1) == fs.skip(1).drop_last());
        assert(fs.skip(1).last() == fs.last());
        assert(fs.drop_last()[0] == fs[0]);
        let a = header_field_wire(fs[0].0, fs[0].1@)->Ok_0;
        let b = fields_wire(fs.skip(1).drop_last())->Ok_0;
        let c = header_field_wire(fs.last().0, fs.last().1@)->Ok_0;
        assert(a + b + c =~= a + (b + c));
    }
}

/// Header fields, then a Content-Type field, then a body, split back into
/// the fields as written, the Content-Type field, and the body.
#[verifier::rlimit(100)]
pub proof fn lemma_split_fields(fs: Seq<(MmsHeader, MmsHeaderValue)>, c: ContentTypeView, body: Seq<u8>)
    requires
        forall|i: int| 0 <= i < fs.len() ==> field_ok(#[trigger] fs[i]) && fs[i].0 != MmsHeader::ContentType,
        content_type_ok(c),
    ensures
        fields_wire(fs) is Ok,
        header_field_wire(MmsHeader::ContentType, MmsHeaderValueView::ContentType(c)) is Ok,
        ({
            let cw = header_field_wire(MmsHeader::ContentType, MmsHeaderValueView::ContentType(c))->Ok_0;
            spec_split((fields_wire(fs)->Ok_0) + cw + body, true) == Ok::<Seq<(MmsHeader, Seq<u8>)>, DecodeError>(
                raw_fields(fs) + seq![(MmsHeader::ContentType, cw.skip(1)), (MmsHeader::ImplicitBody, body)])
        }),
    decreases fs.len(),
{
    lemma_content_type_field(c, body);
    let cw = header_field_wire(MmsHeader::ContentType, MmsHeaderValueView::ContentType(c))->Ok_0;
    let tail = seq![(MmsHeader::ContentType, cw.skip(1)), (MmsHeader::ImplicitBody, body)];
    if fs.len() == 0 {
        assert(fields_wire(fs)->Ok_0 =~= Seq::<u8>::empty());
        let d = (fields_wire(fs)->Ok_0) + cw + body;
        assert(d =~= cw + body);
        assert(d.skip(cw.len() as int) =~= body);
        assert(raw_fields(fs) + tail =~= tail);
    } else {
        lemma_fields_wire_front(fs);
        let a = header_field_wire(fs[0].0, fs[0].1@)->Ok_0;
        let b = fields_wire(fs.skip(1))->Ok_0;
        let rest = b + cw + body;
        lemma_header_field_round_trip(fs[0], rest);
        assert forall|i: int| 0 <= i < fs.skip(1).len() implies field_ok(#[trigger] fs.skip(1)[i])
            && fs.skip(1)[i].0 != MmsHeader::ContentType by {
            assert(fs.skip(1)[i] == fs[i + 1]);
        }
        lemma_split_fields(fs.skip(1), c, body);
        let d = (fields_wire(fs)->Ok_0) + cw + body;
        assert(d =~= a + rest);
        assert(d.skip(a.len() as int) =~= rest);
        assert(raw_fields(fs) =~= seq![(fs[0].0, a.skip(1))] + raw_fields(fs.skip(1)));
        assert(raw_fields(fs) + tail =~= seq![(fs[0].0, a.skip(1))] + (raw_fields(fs.skip(1)) + tail));
    }
}

proof fn lemma_ok_raw_fields(fs: Seq<(MmsHeader, MmsHeaderValue)>)
    requires
        forall|i: int| 0 <= i < fs.len() ==> field_ok(#[trigger] fs[i]),
    ensures
        ok_fields(raw_fields(fs)) == entries_view(fs),
    decreases fs.len(),
{
    if fs.len() == 0 {
        assert(raw_fields(fs) =~= Seq::<(MmsHeader, Seq<u8>)>::empty());
        assert(entries_view(fs) =~= Seq::<(MmsHeader, MmsHeaderValueView)>::empty());
    } else {
        lemma_header_field_round_trip(fs.last(), Seq::empty());
        lemma_ok_raw_fields(fs.drop_last());
        assert(raw_fields(fs).drop_last() =~= raw_fields(fs.drop_last()));
        assert(entries_view(fs) =~= entries_view(fs.drop_last()).push((fs.last().0, fs.last().1@)));
    }
}

proof fn lemma_constrained_len(m: Seq<char>)
    ensures
        constrained_wire(m).len() <= encode_utf8(m).len() + 2,
{
}

proof fn lemma_layout_type_ok()
    ensures
        content_type_ok(<RelatedBodyPart as LayoutItem>::spec_layout_type()),
{
    lemma_layout_texts();
    let ct = <RelatedBodyPart as LayoutItem>::spec_layout_type();
    let media = "application/vnd.wap.multipart.related"@;
    lemma_printable_ok(media);
    lemma_printable_ok("<smil>"@);
    lemma_printable_ok("application/smil"@);
    reveal_strlit("charset");
    reveal_strlit("name");
    reveal_strlit("start");
    reveal_strlit("type");
    assert("charset"@.len() == 7);
    assert("name"@.len() == 4);
    assert("start"@.len() == 5);
    assert("type"@.len() == 4);
    assert("name"@[0] != "type"@[0]);
    lemma_param_names();
    let p0 = ("start"@, "<smil>"@);
    let p1 = ("type"@, "application/smil"@);
    assert(ct.params == seq![p0, p1]);
    assert(param_ok(p0));
    assert(param_ok(p1));
    assert forall|i: int| 0 <= i < ct.params.len() implies param_ok(#[trigger] ct.params[i]) by {
        if i == 0 {
            assert(ct.params[i] == p0);
        } else {
            assert(ct.params[i] == p1);
        }
    }
    lemma_params_wire_front(ct.params);
    assert(ct.params.skip(1) =~= seq![p1]);
    lemma_params_wire_front(ct.params.skip(1));
    assert(ct.params.skip(1).skip(1) =~= Seq::<(Seq<char>, Seq<char>)>::empty());
    lemma_constrained_len(media);
    lemma_constrained_len("application/smil"@);
    assert((param_wire(p0.0, p0.1)->Ok_0).len() <= 10);
    assert((param_wire(p1.0, p1.1)->Ok_0).len() <= 20);
    assert((params_wire(ct.params)->Ok_0).len() <= 100);
}

#[verifier::rlimit(100)]
proof fn lemma_fields_then_body(fs: Seq<(MmsHeader, MmsHeaderValue)>, lt: ContentTypeView, body: Seq<u8>)
    requires
        forall|i: int| 0 <= i < fs.len() ==> field_ok(#[trigger] fs[i]) && fs[i].0 != MmsHeader::ContentType,
        content_type_ok(lt),
    ensures
        fields_wire(fs) is Ok,
        header_field_wire(MmsHeader::ContentType, MmsHeaderValueView::ContentType(lt)) is Ok,
        ({
            let d = (fields_wire(fs)->Ok_0)
                + (header_field_wire(MmsHeader::ContentType, MmsHeaderValueView::ContentType(lt))->Ok_0) + body;
            &&& spec_split(d, true) is Ok
            &&& ok_fields(spec_split(d, true)->Ok_0) == entries_view(fs).push(
                (MmsHeader::ContentType, MmsHeaderValueView::ContentType(lt))).push(
                (MmsHeader::ImplicitBody, MmsHeaderValueView::Bytes(body)))
        }),
{
    lemma_split_fields(fs, lt, body);
    lemma_ok_raw_fields(fs);
    let cw = header_field_wire(MmsHeader::ContentType, MmsHeaderValueView::ContentType(lt))->Ok_0;
    lemma_content_type_field(lt, body);
    let split = raw_fields(fs) + seq![(MmsHeader::ContentType, cw.skip(1)), (MmsHeader::ImplicitBody, body)];
    assert(split.drop_last() =~= raw_fields(fs) + seq![(MmsHeader::ContentType, cw.skip(1))]);
    assert(split.drop_last().drop_last() =~= raw_fields(fs));
    assert(split.last() == (MmsHeader::ImplicitBody, body));
    assert(split.drop_last().last() == (MmsHeader::ContentType, cw.skip(1)));
    assert(spec_header_value(MmsHeader::ImplicitBody, body) == Ok::<MmsHeaderValueView, DecodeError>(MmsHeaderValueView::Bytes(body)));
    assert(ok_fields(split.drop_last()) == ok_fields(raw_fields(fs)).push((MmsHeader::ContentType, MmsHeaderValueView::ContentType(lt))));
}

proof fn lemma_empty_related_body(parts: Seq<RelatedBodyPart>)
    requires
        parts.len() == 0,
    ensures
        multipart_wire(built_items(parts)) is Ok,
        content_type_ok(built_type(parts)),
{
    assert(needs_default_layout(parts));
    assert(items_of(parts) =~= Seq::<MultiPartItemView>::empty());
    let l = <RelatedBodyPart as LayoutItem>::spec_layout_item();
    let items = built_items(parts);
    assert(items =~= seq![l]);
    lemma_layout_item_ok();
    assert forall|i: int| 0 <= i < items.len() implies item_ok(#[trigger] items[i]) by {
        assert(items[i] == l);
    }
    lemma_multipart_round_trip(items, Seq::empty());
    lemma_layout_type_ok();
}

proof fn lemma_only_recipient_entries(es: Seq<(MmsHeader, MmsHeaderValue)>, to_v: MmsHeaderValue, id_v: MmsHeaderValue)
    requires
        es == seq![(MmsHeader::To, to_v)],
        field_ok((MmsHeader::To, to_v)),
        field_ok((MmsHeader::XMmsTransactionId, id_v)),
    ensures
        first_value(finalized_entries(es, id_v), MmsHeader::ContentType) is None,
        ordered_entries(finalized_entries(es, id_v)) == seq![
            (MmsHeader::XMmsMessageType, MmsHeaderValue::MessageTypeField(MessageTypeField::MSendReq)),
            (MmsHeader::XMmsTransactionId, id_v),
            (MmsHeader::XMmsMMSVersion, MmsHeaderValue::ShortUint(crate::MMS_VERSION)),
            (MmsHeader::To, to_v),
        ],
        forall|i: int| 0 <= i < ordered_entries(finalized_entries(es, id_v)).len() ==>
            field_ok(#[trigger] ordered_entries(finalized_entries(es, id_v))[i])
            && ordered_entries(finalized_entries(es, id_v))[i].0 != MmsHeader::ContentType,
{
    lemma_send_request_order(to_v, id_v);
    let fin = finalized_entries(es, id_v);
    let fs = ordered_entries(fin);
    let mt = (MmsHeader::XMmsMessageType, MmsHeaderValue::MessageTypeField(MessageTypeField::MSendReq));
    let tid = (MmsHeader::XMmsTransactionId, id_v);
    let ver = (MmsHeader::XMmsMMSVersion, MmsHeaderValue::ShortUint(crate::MMS_VERSION));
    let tf = (MmsHeader::To, to_v);
    assert forall|i: int| 0 <= i < fs.len() implies field_ok(#[trigger] fs[i]) && fs[i].0 != MmsHeader::ContentType by {
        if i == 0 {
            assert(fs[i] == mt);
        } else if i == 1 {
            assert(fs[i] == tid);
        } else if i == 2 {
            assert(fs[i] == ver);
        } else {
            assert(fs[i] == tf);
        }
    }
    reveal_with_fuel(first_value, 6);
    assert(es.skip(1) =~= Seq::<(MmsHeader, MmsHeaderValue)>::empty());
    assert(first_value(es, MmsHeader::XMmsTransactionId) is None);
    let empty = Seq::<(MmsHeader, MmsHeaderValue)>::empty();
    assert(es.drop_last() =~= empty);
    assert(crate::encoder::not_leading(empty) == empty);
    assert(crate::encoder::not_leading(es) =~= seq![tf]);
    assert(fin =~= seq![mt, tid, ver, tf]);
    assert(fin.skip(1) =~= seq![tid, ver, tf]);
    assert(fin.skip(1).skip(1) =~= seq![ver, tf]);
    assert(fin.skip(1).skip(1).skip(1) =~= seq![tf]);
    assert(fin.skip(1).skip(1).skip(1).skip(1) =~= Seq::<(MmsHeader, MmsHeaderValue)>::empty());
}

/// A send request with only a recipient, and no body entries, is written so
/// that its decoded headers are Message-Type, Transaction-Id and
/// MMS-Version, in that order, then the recipient, then a Content-Type
/// header directly before the body.
#[verifier::rlimit(100)]
pub proof fn lemma_send_request_decodes_in_order(req: MSendReq, to: String, id: String)
    requires
        header_entries(req.headers) == seq![(MmsHeader::To, MmsHeaderValue::String(to))],
        req.body.parts@.len() == 0,
        header_text_ok(encode_utf8(to@)),
        header_text_ok(encode_utf8(id@)),
    ensures
        send_req_wire(req, MmsHeaderValue::String(id)) is Ok,
        spec_split(send_req_wire(req, MmsHeaderValue::String(id))->Ok_0, true) is Ok,
        ok_fields(spec_split(send_req_wire(req, MmsHeaderValue::String(id))->Ok_0, true)->Ok_0) == seq![
            (MmsHeader::XMmsMessageType, MmsHeaderValueView::MessageTypeField(MessageTypeField::MSendReq)),
            (MmsHeader::XMmsTransactionId, MmsHeaderValueView::String(id@)),
            (MmsHeader::XMmsMMSVersion, MmsHeaderValueView::ShortUint(crate::MMS_VERSION)),
            (MmsHeader::To, MmsHeaderValueView::String(to@)),
            (MmsHeader::ContentType, MmsHeaderValueView::ContentType(built_type(req.body.parts@))),
            (MmsHeader::ImplicitBody, MmsHeaderValueView::Bytes(multipart_wire(built_items(req.body.parts@))->Ok_0)),
        ],
{
    let parts = req.body.parts@;
    lemma_empty_related_body(parts);
    let body = multipart_wire(built_items(parts))->Ok_0;
    let lt = built_type(parts);
    let to_v = MmsHeaderValue::String(to);
    let id_v = MmsHeaderValue::String(id);
    let es = header_entries(req.headers);
    lemma_only_recipient_entries(es, to_v, id_v);
    let fs = ordered_entries(finalized_entries(es, id_v));
    lemma_fields_then_body(fs, lt, body);
    assert(entries_view(fs) =~= seq![
        (MmsHeader::XMmsMessageType, MmsHeaderValueView::MessageTypeField(MessageTypeField::MSendReq)),
        (MmsHeader::XMmsTransactionId, MmsHeaderValueView::String(id@)),
        (MmsHeader::XMmsMMSVersion, MmsHeaderValueView::ShortUint(crate::MMS_VERSION)),
        (MmsHeader::To, MmsHeaderValueView::String(to@)),
    ]);
}

/// The hyphenated form of a UUID can stand as a header value.
pub proof fn lemma_uuid_text_ok(s: Seq<char>)
    requires
        s.len() == 36,
        forall|i: int| 0 <= i < s.len() ==> crate::encoder::is_uuid_char(#[trigger] s[i]),
    ensures
        header_text_ok(encode_utf8(s)),
{
    lemma_printable_ok(s);
}

} // verus!
