//! Media types for local files: the type to declare for a file extension,
//! and the extension to give a saved body.

use crate::content_type::ContentType;
use crate::text::str_eq;
use vstd::prelude::*;
use vstd::string::StringExecFns;

verus! {

/// The media type that the media-type database registers for an extension.
pub uninterp spec fn media_type_of_extension(ext: Seq<char>) -> Option<Seq<char>>;

/// The first extension that the media-type database registers for a media
/// type.
pub uninterp spec fn extension_of_media_type(media: Seq<char>) -> Option<Seq<char>>;

/// Relies on `mime_db::lookup`: the media type registered for an extension,
/// none for an empty one.
#[verifier::external_body]
fn lookup_extension(ext: &str) -> (r: Option<String>)
    ensures
        match media_type_of_extension(ext@) {
            Some(m) => (r matches Some(s) && s@ == m),
            None => r is None,
        },
        ext@.len() == 0 ==> r is None,
{
    match mime_db::lookup(ext) {
        Some(m) => Some(m.to_string()),
        None => None,
    }
}

/// Relies on `mime_db::extension`: the first extension registered for a
/// media type, none for an empty one.
#[verifier::external_body]
fn lookup_media_type(media: &str) -> (r: Option<String>)
    ensures
        match extension_of_media_type(media@) {
            Some(e) => (r matches Some(s) && s@ == e),
            None => r is None,
        },
        media@.len() == 0 ==> r is None,
{
    match mime_db::extension(media) {
        Some(e) => Some(e.to_string()),
        None => None,
    }
}

/// The media type to declare for a file with this extension. A layout
/// document (`smil`) is `application/smil`; other extensions go by the
/// media-type database.
pub fn media_type_for_extension(extension: &str) -> (r: Option<String>)
    ensures
        extension@ == "smil"@ ==> (r matches Some(s) && s@ == "application/smil"@),
        extension@ != "smil"@ ==> match media_type_of_extension(extension@) {
            Some(m) => (r matches Some(s) && s@ == m),
            None => r is None,
        },
{
    if str_eq(extension, "smil") {
        Some(String::from_str("application/smil"))
    } else {
        lookup_extension(extension)
    }
}

/// The extension to give a saved body of this content type.
pub fn extension_for_content_type(content_type: &ContentType) -> (r: Option<String>)
    ensures
        match extension_of_media_type(content_type@.media) {
            Some(e) => (r matches Some(s) && s@ == e),
            None => r is None,
        },
{
    lookup_media_type(content_type.essence_str())
}

} // verus!
