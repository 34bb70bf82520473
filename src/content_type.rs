//! Content types: the constrained form (a well-known code or a text string)
//! and the general form (a value length over a media type and parameters).

use crate::error::{DecodeError, EncodeError};
use crate::primitives::{
    decodes_to, encode_short_integer, encode_string, parse_integer_value,
    parse_text_string, spec_integer_value, spec_length_prefixed, spec_text_string,
    take_length_prefixed, text_string_wire, value_length, value_length_encoding,
};
use crate::text::{decimal_string, decimal_text, eq_ignore_case, join_str, same_ignoring_case, str_eq};
use vstd::prelude::*;
use vstd::string::StringExecFns;
use vstd::utf8::encode_utf8;

verus! {

/// A media type with its parameters, in the order they were given.
#[derive(Debug, Clone, PartialEq, Eq)]
pub struct ContentType {
    /// The media type proper, such as `text/plain`.
    pub media: String,
    /// Parameter names and values.
    pub params: Vec<(String, String)>,
}

/// What a content type holds.
pub struct ContentTypeView {
    pub media: Seq<char>,
    pub params: Seq<(Seq<char>, Seq<char>)>,
}

/// The characters of each parameter name and value.
pub open spec fn params_view(p: Seq<(String, String)>) -> Seq<(Seq<char>, Seq<char>)> {
    p.map_values(|x: (String, String)| (x.0@, x.1@))
}

impl View for ContentType {
    type V = ContentTypeView;

    open spec fn view(&self) -> ContentTypeView {
        ContentTypeView { media: self.media@, params: params_view(self.params@) }
    }
}

impl ContentType {
    /// A media type without parameters.
    pub fn new(media: &str) -> (r: ContentType)
        ensures
            r@.media == media@,
            r@.params == Seq::<(Seq<char>, Seq<char>)>::empty(),
    {
        let r = ContentType { media: String::from_str(media), params: Vec::new() };
        proof {
            assert(params_view(r.params@) =~= Seq::<(Seq<char>, Seq<char>)>::empty());
        }
        r
    }

    /// This content type with one more parameter at the end.
    pub fn with_param(self, name: &str, value: &str) -> (r: ContentType)
        ensures
            r@.media == self@.media,
            r@.params == self@.params.push((name@, value@)),
    {
        let mut r = self;
        r.params.push((String::from_str(name), String::from_str(value)));
        proof {
            assert(params_view(r.params@) =~= self@.params.push((name@, value@)));
        }
        r
    }

    /// A copy of this content type.
    pub fn duplicate(&self) -> (r: ContentType)
        ensures
            r@ == self@,
    {
        let mut params: Vec<(String, String)> = Vec::new();
        let mut i: usize = 0;
        while i < self.params.len()
            invariant
                i <= self.params@.len(),
                params_view(params@) == params_view(self.params@.take(i as int)),
            decreases self.params@.len() - i,
        {
            let (n, v) = &self.params[i];
            let ghost before = params@;
            params.push((n.clone(), v.clone()));
            proof {
                assert(params_view(params@) =~= params_view(before).push((n@, v@)));
                assert(params_view(self.params@.take(i + 1)) =~= params_view(self.params@.take(i as int)).push((n@, v@)));
            }
            i = i + 1;
        }
        proof {
            assert(self.params@.take(i as int) == self.params@);
        }
        ContentType { media: self.media.clone(), params }
    }

    /// The media type without parameters.
    pub fn essence_str(&self) -> (r: &str)
        ensures
            r@ == self@.media,
    {
        self.media.as_str()
    }

    /// The usual text form: `media; name=value`, with a value quoted where
    /// it is not a token.
    pub fn to_mime_string(&self) -> (r: String)
        ensures
            r@ == mime_text(self@),
    {
        let mut s = self.media.clone();
        let mut i: usize = 0;
        while i < self.params.len()
            invariant
                i <= self.params@.len(),
                s@ == mime_text(ContentTypeView {
                    media: self@.media,
                    params: self@.params.take(i as int),
                }),
            decreases self.params@.len() - i,
        {
            let (name, value) = &self.params[i];
            s.append("; ");
            s.append(name.as_str());
            s.append("=");
            if is_token(value.as_str()) {
                s.append(value.as_str());
            } else {
                s.append("\"");
                s.append(value.as_str());
                s.append("\"");
            }
            i = i + 1;
            proof {
                assert(self@.params.take(i as int).drop_last() == self@.params.take(i - 1));
            }
        }
        proof {
            assert(self@.params.take(i as int) == self@.params);
        }
        s
    }
}

/// Whether a byte may stand in a MIME token.
pub open spec fn is_token_byte(b: u8) -> bool {
    33 <= b <= 126 && b != 0x22 && b != 0x28 && b != 0x29 && b != 0x2C && b != 0x2F
        && b != 0x3A && b != 0x3B && b != 0x3C && b != 0x3D && b != 0x3E && b != 0x3F
        && b != 0x40 && b != 0x5B && b != 0x5C && b != 0x5D
}

/// Whether the text is a non-empty MIME token.
pub open spec fn is_token_text(s: Seq<char>) -> bool {
    encode_utf8(s).len() > 0 && forall|i: int|
        0 <= i < encode_utf8(s).len() ==> is_token_byte(#[trigger] encode_utf8(s)[i])
}

/// A parameter value as it stands in the text form.
pub open spec fn param_value_text(v: Seq<char>) -> Seq<char> {
    if is_token_text(v) {
        v
    } else {
        "\""@ + v + "\""@
    }
}

/// The text form of a content type.
pub open spec fn mime_text(ct: ContentTypeView) -> Seq<char>
    decreases ct.params.len(),
{
    if ct.params.len() == 0 {
        ct.media
    } else {
        let last = ct.params.last();
        mime_text(ContentTypeView { media: ct.media, params: ct.params.drop_last() }) + "; "@
            + last.0 + "="@ + param_value_text(last.1)
    }
}

fn is_token(s: &str) -> (r: bool)
    ensures
        r == is_token_text(s@),
{
    let b = s.as_bytes();
    if b.len() == 0 {
        return false;
    }
    let mut i: usize = 0;
    while i < b.len()
        invariant
            i <= b@.len(),
            b@ == encode_utf8(s@),
            forall|j: int| 0 <= j < i ==> is_token_byte(#[trigger] b@[j]),
        decreases b@.len() - i,
    {
        let c = b[i];
        if !(33 <= c && c <= 126 && c != 0x22 && c != 0x28 && c != 0x29 && c != 0x2C && c != 0x2F
            && c != 0x3A && c != 0x3B && c != 0x3C && c != 0x3D && c != 0x3E && c != 0x3F
            && c != 0x40 && c != 0x5B && c != 0x5C && c != 0x5D) {
            return false;
        }
        i = i + 1;
    }
    true
}

/// The well-known content types, by code.
#[verifier::opaque]
pub open spec fn content_type_name_spec(code: u8) -> Option<Seq<char>> {
    match code {
        0x00 => Some("*/*"@),
        0x01 => Some("text/*"@),
        0x02 => Some("text/html"@),
        0x03 => Some("text/plain"@),
        0x04 => Some("text/x-hdml"@),
        0x05 => Some("text/x-ttml"@),
        0x06 => Some("text/x-vCalendar"@),
        0x07 => Some("text/x-vCard"@),
        0x08 => Some("text/vnd.wap.wml"@),
        0x09 => Some("text/vnd.wap.wmlscript"@),
        0x0A => Some("text/vnd.wap.wta-event"@),
        0x0B => Some("multipart/*"@),
        0x0C => Some("multipart/mixed"@),
        0x0D => Some("multipart/form-data"@),
        0x0E => Some("multipart/byterantes"@),
        0x0F => Some("multipart/alternative"@),
        0x10 => Some("application/*"@),
        0x11 => Some("application/java-vm"@),
        0x12 => Some("application/x-www-form-urlencoded"@),
        0x13 => Some("application/x-hdmlc"@),
        0x14 => Some("application/vnd.wap.wmlc"@),
        0x15 => Some("application/vnd.wap.wmlscriptc"@),
        0x16 => Some("application/vnd.wap.wta-eventc"@),
        0x17 => Some("application/vnd.wap.uaprof"@),
        0x18 => Some("application/vnd.wap.wtls-ca-certificate"@),
        0x19 => Some("application/vnd.wap.wtls-user-certificate"@),
        0x1A => Some("application/x-x509-ca-cert"@),
        0x1B => Some("application/x-x509-user-cert"@),
        0x1C => Some("image/*"@),
        0x1D => Some("image/gif"@),
        0x1E => Some("image/jpeg"@),
        0x1F => Some("image/tiff"@),
        0x20 => Some("image/png"@),
        0x21 => Some("image/vnd.wap.wbmp"@),
        0x22 => Some("application/vnd.wap.multipart.*"@),
        0x23 => Some("application/vnd.wap.multipart.mixed"@),
        0x24 => Some("application/vnd.wap.multipart.form-data"@),
        0x25 => Some("application/vnd.wap.multipart.byteranges"@),
        0x26 => Some("application/vnd.wap.multipart.alternative"@),
        0x27 => Some("application/xml"@),
        0x28 => Some("text/xml"@),
        0x29 => Some("application/vnd.wap.wbxml"@),
        0x2A => Some("application/x-x968-cross-cert"@),
        0x2B => Some("application/x-x968-ca-cert"@),
        0x2C => Some("application/x-x968-user-cert"@),
        0x2D => Some("text/vnd.wap.si"@),
        0x2E => Some("application/vnd.wap.sic"@),
        0x2F => Some("text/vnd.wap.sl"@),
        0x30 => Some("application/vnd.wap.slc"@),
        0x31 => Some("text/vnd.wap.co"@),
        0x32 => Some("application/vnd.wap.coc"@),
        0x33 => Some("application/vnd.wap.multipart.related"@),
        0x34 => Some("application/vnd.wap.sia"@),
        0x35 => Some("text/vnd.wap.connectivity-xml"@),
        0x36 => Some("application/vnd.wap.connectivity-wbxml"@),
        0x37 => Some("application/pkcs7-mime"@),
        0x38 => Some("application/vnd.wap.hashed-certificate"@),
        0x39 => Some("application/vnd.wap.signed-certificate"@),
        0x3A => Some("application/vnd.wap.cert-response"@),
        0x3B => Some("application/xhtml+xml"@),
        0x3C => Some("application/wml+xml"@),
        0x3D => Some("text/css"@),
        0x3E => Some("application/vnd.wap.mms-message"@),
        _ => None,
    }
}

/// Looks up a well-known content-type code.
pub fn content_type_name(code: u8) -> (r: Option<&'static str>)
    ensures
        content_type_name_spec(code) == (match r {
            Some(s) => Some(s@),
            None => None::<Seq<char>>,
        }),
{
    reveal(content_type_name_spec);
    match code {
        0x00 => Some("*/*"),
        0x01 => Some("text/*"),
        0x02 => Some("text/html"),
        0x03 => Some("text/plain"),
        0x04 => Some("text/x-hdml"),
        0x05 => Some("text/x-ttml"),
        0x06 => Some("text/x-vCalendar"),
        0x07 => Some("text/x-vCard"),
        0x08 => Some("text/vnd.wap.wml"),
        0x09 => Some("text/vnd.wap.wmlscript"),
        0x0A => Some("text/vnd.wap.wta-event"),
        0x0B => Some("multipart/*"),
        0x0C => Some("multipart/mixed"),
        0x0D => Some("multipart/form-data"),
        0x0E => Some("multipart/byterantes"),
        0x0F => Some("multipart/alternative"),
        0x10 => Some("application/*"),
        0x11 => Some("application/java-vm"),
        0x12 => Some("application/x-www-form-urlencoded"),
        0x13 => Some("application/x-hdmlc"),
        0x14 => Some("application/vnd.wap.wmlc"),
        0x15 => Some("application/vnd.wap.wmlscriptc"),
        0x16 => Some("application/vnd.wap.wta-eventc"),
        0x17 => Some("application/vnd.wap.uaprof"),
        0x18 => Some("application/vnd.wap.wtls-ca-certificate"),
        0x19 => Some("application/vnd.wap.wtls-user-certificate"),
        0x1A => Some("application/x-x509-ca-cert"),
        0x1B => Some("application/x-x509-user-cert"),
        0x1C => Some("image/*"),
        0x1D => Some("image/gif"),
        0x1E => Some("image/jpeg"),
        0x1F => Some("image/tiff"),
        0x20 => Some("image/png"),
        0x21 => Some("image/vnd.wap.wbmp"),
        0x22 => Some("application/vnd.wap.multipart.*"),
        0x23 => Some("application/vnd.wap.multipart.mixed"),
        0x24 => Some("application/vnd.wap.multipart.form-data"),
        0x25 => Some("application/vnd.wap.multipart.byteranges"),
        0x26 => Some("application/vnd.wap.multipart.alternative"),
        0x27 => Some("application/xml"),
        0x28 => Some("text/xml"),
        0x29 => Some("application/vnd.wap.wbxml"),
        0x2A => Some("application/x-x968-cross-cert"),
        0x2B => Some("application/x-x968-ca-cert"),
        0x2C => Some("application/x-x968-user-cert"),
        0x2D => Some("text/vnd.wap.si"),
        0x2E => Some("application/vnd.wap.sic"),
        0x2F => Some("text/vnd.wap.sl"),
        0x30 => Some("application/vnd.wap.slc"),
        0x31 => Some("text/vnd.wap.co"),
        0x32 => Some("application/vnd.wap.coc"),
        0x33 => Some("application/vnd.wap.multipart.related"),
        0x34 => Some("application/vnd.wap.sia"),
        0x35 => Some("text/vnd.wap.connectivity-xml"),
        0x36 => Some("application/vnd.wap.connectivity-wbxml"),
        0x37 => Some("application/pkcs7-mime"),
        0x38 => Some("application/vnd.wap.hashed-certificate"),
        0x39 => Some("application/vnd.wap.signed-certificate"),
        0x3A => Some("application/vnd.wap.cert-response"),
        0x3B => Some("application/xhtml+xml"),
        0x3C => Some("application/wml+xml"),
        0x3D => Some("text/css"),
        0x3E => Some("application/vnd.wap.mms-message"),
        _ => None,
    }
}

/// The least well-known code at or above `c` whose name is `name`.
pub open spec fn find_content_type_code(name: Seq<char>, c: nat) -> Option<u8>
    decreases 128 - c,
{
    if c >= 128 {
        None
    } else if content_type_name_spec(c as u8) == Some(name) {
        Some(c as u8)
    } else {
        find_content_type_code(name, c + 1)
    }
}

/// The well-known code of a media type, if it has one.
pub open spec fn content_type_code_spec(name: Seq<char>) -> Option<u8> {
    find_content_type_code(name, 0)
}

/// Finds the well-known code of a media type.
pub fn content_type_code(name: &str) -> (r: Option<u8>)
    ensures
        r == content_type_code_spec(name@),
        r matches Some(c) ==> c < 128,
{
    let mut c: u8 = 0;
    while c < 128
        invariant
            c <= 128,
            content_type_code_spec(name@) == find_content_type_code(name@, c as nat),
        decreases 128 - c,
    {
        match content_type_name(c) {
            Some(n) => {
                if str_eq(n, name) {
                    return Some(c);
                }
            },
            None => {},
        }
        c = c + 1;
    }
    None
}

/// The well-known character sets, by IANA number.
pub open spec fn charset_name_spec(code: u64) -> Option<Seq<char>> {
    if code == 3 {
        Some("us-ascii"@)
    } else if code == 4 {
        Some("iso-8859-1"@)
    } else if code == 106 {
        Some("utf-8"@)
    } else {
        None
    }
}

/// The IANA number of a well-known character set name, the name compared
/// without regard to ASCII case.
pub open spec fn charset_code_spec(name: Seq<char>) -> Option<u8> {
    if same_ignoring_case(name, "us-ascii"@) {
        Some(3u8)
    } else if same_ignoring_case(name, "iso-8859-1"@) {
        Some(4u8)
    } else if same_ignoring_case(name, "utf-8"@) {
        Some(106u8)
    } else {
        None
    }
}

fn charset_name(code: u64) -> (r: Option<&'static str>)
    ensures
        charset_name_spec(code) == (match r {
            Some(s) => Some(s@),
            None => None::<Seq<char>>,
        }),
{
    if code == 3 {
        Some("us-ascii")
    } else if code == 4 {
        Some("iso-8859-1")
    } else if code == 106 {
        Some("utf-8")
    } else {
        None
    }
}

fn well_known_charset(name: &str) -> (r: Option<u8>)
    ensures
        r == charset_code_spec(name@),
{
    if eq_ignore_case(name, "us-ascii") {
        Some(3)
    } else if eq_ignore_case(name, "iso-8859-1") {
        Some(4)
    } else if eq_ignore_case(name, "utf-8") {
        Some(106)
    } else {
        None
    }
}

/// The media type that a short-integer code names; a code outside the
/// table names a vendor extension.
pub open spec fn media_for_code(code: u8) -> Seq<char> {
    match content_type_name_spec(code) {
        Some(n) => n,
        None => "vendor-extension/"@ + decimal_text(code as nat),
    }
}

/// A constrained encoding: a short-integer code, or a text string.
pub open spec fn spec_constrained(d: Seq<u8>) -> Result<(Seq<char>, nat), DecodeError> {
    if d.len() > 0 && d[0] >= 128 {
        Ok((media_for_code((d[0] - 128) as u8), 1))
    } else {
        spec_text_string(d)
    }
}

/// One parameter of the general form: an integer id, then a value whose form
/// the id fixes.
pub open spec fn spec_param(d: Seq<u8>) -> Result<((Seq<char>, Seq<char>), nat), DecodeError> {
    match spec_integer_value(d) {
        Err(e) => Err(e),
        Ok((id, n)) => {
            let r = d.skip(n as int);
            if id == 0x01 {
                if r.len() > 0 && r[0] == 128 {
                    Ok((("charset"@, "*"@), n + 1))
                } else {
                    match spec_integer_value(r) {
                        Err(e) => Err(e),
                        Ok((c, m)) => match charset_name_spec(c) {
                            None => Err(DecodeError::CharsetNotRecognized),
                            Some(name) => Ok((("charset"@, name), n + m)),
                        },
                    }
                }
            } else if id == 0x05 {
                match spec_text_string(r) {
                    Err(e) => Err(e),
                    Ok((v, m)) => Ok((("name"@, v), n + m)),
                }
            } else if id == 0x09 {
                match spec_constrained(r) {
                    Err(e) => Err(e),
                    Ok((v, m)) => Ok((("type"@, v), n + m)),
                }
            } else if id == 0x0A {
                match spec_text_string(r) {
                    Err(e) => Err(e),
                    Ok((v, m)) => Ok((("start"@, v), n + m)),
                }
            } else {
                Err(DecodeError::UnknownParameter)
            }
        },
    }
}

/// Parameters one after another to the end of `d`.
pub open spec fn spec_params(d: Seq<u8>) -> Result<Seq<(Seq<char>, Seq<char>)>, DecodeError>
    decreases d.len(),
{
    if d.len() == 0 {
        Ok(Seq::empty())
    } else {
        match spec_param(d) {
            Err(e) => Err(e),
            Ok((p, n)) => if n == 0 || n > d.len() {
                Err(DecodeError::TruncatedInput)
            } else {
                match spec_params(d.skip(n as int)) {
                    Err(e) => Err(e),
                    Ok(ps) => Ok(seq![p] + ps),
                }
            },
        }
    }
}

/// A content type in either form.
pub open spec fn spec_content_type(d: Seq<u8>) -> Result<(ContentTypeView, nat), DecodeError> {
    if d.len() == 0 {
        Err(DecodeError::TruncatedInput)
    } else if d[0] <= 31 {
        match spec_length_prefixed(d) {
            Err(e) => Err(e),
            Ok((block, n)) => match spec_constrained(block) {
                Err(e) => Err(e),
                Ok((media, m)) => match spec_params(block.skip(m as int)) {
                    Err(e) => Err(e),
                    Ok(ps) => Ok((ContentTypeView { media, params: ps }, n)),
                },
            },
        }
    } else {
        match spec_constrained(d) {
            Err(e) => Err(e),
            Ok((media, m)) => Ok((ContentTypeView { media, params: Seq::empty() }, m)),
        }
    }
}

fn parse_well_known_content_type(code: u8) -> (r: String)
    requires
        code < 128,
    ensures
        r@ == media_for_code(code),
{
    match content_type_name(code) {
        Some(n) => String::from_str(n),
        None => join_str(String::from_str("vendor-extension/"), decimal_string(code as u64).as_str()),
    }
}

/// Reads a constrained encoding of a media type.
pub fn parse_constrained_encoding(d: &[u8]) -> (r: Result<(&[u8], String), DecodeError>)
    ensures
        decodes_to(d@, r, spec_constrained(d@)),
{
    if d.len() > 0 && d[0] >= 128 {
        let m = parse_well_known_content_type(d[0] - 128);
        let (_, rest) = d.split_at(1);
        Ok((rest, m))
    } else {
        parse_text_string(d)
    }
}

fn parse_well_known_parameter(d: &[u8]) -> (r: Result<(&[u8], (String, String)), DecodeError>)
    ensures
        decodes_to(d@, r, spec_param(d@)),
{
    let (r, id) = parse_integer_value(d)?;
    let ghost n = (spec_integer_value(d@)->Ok_0).1;
    proof {
        assert(r@ == d@.skip(n as int));
    }
    if id == 0x01 {
        if r.len() > 0 && r[0] == 128 {
            let (_, rest) = r.split_at(1);
            proof {
                assert(rest@ == d@.skip(n as int + 1));
            }
            Ok((rest, (String::from_str("charset"), String::from_str("*"))))
        } else {
            let (rest, c) = parse_integer_value(r)?;
            proof {
                let m = (spec_integer_value(r@)->Ok_0).1;
                assert(rest@ == d@.skip(n as int + m));
            }
            match charset_name(c) {
                None => Err(DecodeError::CharsetNotRecognized),
                Some(name) => Ok((rest, (String::from_str("charset"), String::from_str(name)))),
            }
        }
    } else if id == 0x05 {
        let (rest, v) = parse_text_string(r)?;
        proof {
            let m = (spec_text_string(r@)->Ok_0).1;
            assert(rest@ == d@.skip(n as int + m));
        }
        Ok((rest, (String::from_str("name"), v)))
    } else if id == 0x09 {
        let (rest, v) = parse_constrained_encoding(r)?;
        proof {
            let m = (spec_constrained(r@)->Ok_0).1;
            assert(rest@ == d@.skip(n as int + m));
        }
        Ok((rest, (String::from_str("type"), v)))
    } else if id == 0x0A {
        let (rest, v) = parse_text_string(r)?;
        proof {
            let m = (spec_text_string(r@)->Ok_0).1;
            assert(rest@ == d@.skip(n as int + m));
        }
        Ok((rest, (String::from_str("start"), v)))
    } else {
        Err(DecodeError::UnknownParameter)
    }
}

fn parse_params(d: &[u8]) -> (r: Result<Vec<(String, String)>, DecodeError>)
    ensures
        match spec_params(d@) {
            Err(e) => r == Err::<Vec<(String, String)>, DecodeError>(e),
            Ok(ps) => (r matches Ok(v) && params_view(v@) == ps),
        },
    decreases d@.len(),
{
    if d.len() == 0 {
        let v: Vec<(String, String)> = Vec::new();
        proof {
            assert(params_view(v@) =~= Seq::<(Seq<char>, Seq<char>)>::empty());
        }
        return Ok(v);
    }
    let (rest, p) = parse_well_known_parameter(d)?;
    if rest.len() >= d.len() {
        return Err(DecodeError::TruncatedInput);
    }
    let mut tail = parse_params(rest)?;
    let ghost tv = tail@;
    let ghost pv = (p.0@, p.1@);
    let mut v: Vec<(String, String)> = Vec::new();
    v.push(p);
    v.append(&mut tail);
    proof {
        assert(params_view(v@) =~= seq![pv] + params_view(tv));
    }
    Ok(v)
}

/// Reads a content type in either form.
pub fn parse_content_type(d: &[u8]) -> (r: Result<(&[u8], ContentType), DecodeError>)
    ensures
        decodes_to(d@, r, spec_content_type(d@)),
{
    if d.len() == 0 {
        return Err(DecodeError::TruncatedInput);
    }
    if d[0] <= 31 {
        let (rest, block) = take_length_prefixed(d)?;
        let (params_data, media) = parse_constrained_encoding(block)?;
        let params = parse_params(params_data)?;
        Ok((rest, ContentType { media, params }))
    } else {
        let (rest, media) = parse_constrained_encoding(d)?;
        let ct = ContentType { media, params: Vec::new() };
        proof {
            assert(params_view(ct.params@) =~= Seq::<(Seq<char>, Seq<char>)>::empty());
        }
        Ok((rest, ct))
    }
}

/// The constrained encoding of a media type.
pub open spec fn constrained_wire(media: Seq<char>) -> Seq<u8> {
    match content_type_code_spec(media) {
        Some(c) => seq![(c + 128) as u8],
        None => text_string_wire(encode_utf8(media)),
    }
}

/// The binary form of one parameter.
pub open spec fn param_wire(name: Seq<char>, value: Seq<char>) -> Result<Seq<u8>, EncodeError> {
    if same_ignoring_case(name, "charset"@) {
        if value == "*"@ {
            Ok(seq![0x81u8, 0x80u8])
        } else {
            match charset_code_spec(value) {
                Some(c) => Ok(seq![0x81u8, (c + 128) as u8]),
                None => Err(EncodeError::CharsetNotRecognized),
            }
        }
    } else if same_ignoring_case(name, "name"@) {
        Ok(seq![0x85u8] + text_string_wire(encode_utf8(value)))
    } else if same_ignoring_case(name, "type"@) {
        Ok(seq![0x89u8] + constrained_wire(value))
    } else if same_ignoring_case(name, "start"@) {
        Ok(seq![0x8Au8] + text_string_wire(encode_utf8(value)))
    } else {
        Err(EncodeError::UnsupportedParameter)
    }
}

/// The binary form of the parameters, in order.
pub open spec fn params_wire(ps: Seq<(Seq<char>, Seq<char>)>) -> Result<Seq<u8>, EncodeError>
    decreases ps.len(),
{
    if ps.len() == 0 {
        Ok(Seq::empty())
    } else {
        match params_wire(ps.drop_last()) {
            Err(e) => Err(e),
            Ok(front) => match param_wire(ps.last().0, ps.last().1) {
                Err(e) => Err(e),
                Ok(b) => Ok(front + b),
            },
        }
    }
}

/// The binary form of a content type: constrained where it has no
/// parameters, else the general form.
pub open spec fn content_type_wire(ct: ContentTypeView) -> Result<Seq<u8>, EncodeError> {
    match params_wire(ct.params) {
        Err(e) => Err(e),
        Ok(p) => if p.len() > 0 {
            Ok(value_length_encoding((constrained_wire(ct.media).len() + p.len()) as nat)
                + (constrained_wire(ct.media) + p))
        } else {
            Ok(constrained_wire(ct.media))
        },
    }
}

/// Encodes a media type in the constrained form.
pub fn constrained_encoding(essence: &str) -> (r: Vec<u8>)
    ensures
        r@ == constrained_wire(essence@),
{
    match content_type_code(essence) {
        Some(c) => vec![c + 128],
        None => encode_string(String::from_str(essence)),
    }
}

fn param(name: &str, value: &str) -> (r: Result<Vec<u8>, EncodeError>)
    ensures
        match param_wire(name@, value@) {
            Err(e) => r == Err::<Vec<u8>, EncodeError>(e),
            Ok(b) => (r matches Ok(v) && v@ == b),
        },
{
    if eq_ignore_case(name, "charset") {
        if str_eq(value, "*") {
            Ok(vec![0x81u8, 0x80u8])
        } else {
            match well_known_charset(value) {
                Some(c) => Ok(vec![0x81u8, c + 128]),
                None => Err(EncodeError::CharsetNotRecognized),
            }
        }
    } else if eq_ignore_case(name, "name") {
        let mut buf = encode_short_integer(0x05)?;
        let mut s = encode_string(String::from_str(value));
        buf.append(&mut s);
        Ok(buf)
    } else if eq_ignore_case(name, "type") {
        let mut buf = encode_short_integer(0x09)?;
        let mut s = constrained_encoding(value);
        buf.append(&mut s);
        Ok(buf)
    } else if eq_ignore_case(name, "start") {
        let mut buf = encode_short_integer(0x0A)?;
        let mut s = encode_string(String::from_str(value));
        buf.append(&mut s);
        Ok(buf)
    } else {
        Err(EncodeError::UnsupportedParameter)
    }
}

proof fn lemma_params_wire_err(ps: Seq<(Seq<char>, Seq<char>)>, j: int)
    requires
        0 <= j <= ps.len(),
        params_wire(ps.take(j)) is Err,
    ensures
        params_wire(ps) == params_wire(ps.take(j)),
    decreases ps.len() - j,
{
    if j < ps.len() {
        assert(ps.take(j + 1).drop_last() == ps.take(j));
        lemma_params_wire_err(ps, j + 1);
    } else {
        assert(ps.take(j) == ps);
    }
}

fn params(ps: &Vec<(String, String)>) -> (r: Result<Vec<u8>, EncodeError>)
    ensures
        match params_wire(params_view(ps@)) {
            Err(e) => r == Err::<Vec<u8>, EncodeError>(e),
            Ok(b) => (r matches Ok(v) && v@ == b),
        },
{
    let mut buf: Vec<u8> = Vec::new();
    let mut i: usize = 0;
    while i < ps.len()
        invariant
            i <= ps@.len(),
            params_wire(params_view(ps@.take(i as int))) == Ok::<Seq<u8>, EncodeError>(buf@),
        decreases ps@.len() - i,
    {
        let (name, value) = &ps[i];
        let res = param(name.as_str(), value.as_str());
        proof {
            assert(params_view(ps@.take(i + 1)).drop_last() == params_view(ps@.take(i as int)));
            assert(params_view(ps@.take(i + 1)) == params_view(ps@).take(i + 1));
        }
        let mut b = match res {
            Ok(b) => b,
            Err(e) => {
                proof {
                    lemma_params_wire_err(params_view(ps@), i + 1);
                }
                return Err(e);
            },
        };
        buf.append(&mut b);
        i = i + 1;
    }
    proof {
        assert(ps@.take(i as int) == ps@);
    }
    Ok(buf)
}

/// Encodes a content type.
pub fn encode_content_type(content_type: &ContentType) -> (r: Result<Vec<u8>, EncodeError>)
    ensures
        match content_type_wire(content_type@) {
            Err(e) => r == Err::<Vec<u8>, EncodeError>(e),
            Ok(b) => (r matches Ok(v) && v@ == b),
        },
{
    let p = params(&content_type.params)?;
    let mut ct = constrained_encoding(content_type.media.as_str());
    if p.len() > 0 {
        let mut p = p;
        ct.append(&mut p);
        Ok(value_length(ct))
    } else {
        Ok(ct)
    }
}

} // verus!
