use mms_parser::content_type::ContentType;
use mms_parser::media::{extension_for_content_type, media_type_for_extension};

#[test]
fn smil_files_are_layouts() {
    assert_eq!(media_type_for_extension("smil"), Some("application/smil".to_string()));
}

#[test]
fn extensions_map_to_media_types() {
    assert_eq!(media_type_for_extension("png"), Some("image/png".to_string()));
    assert_eq!(media_type_for_extension(""), None);
    assert_eq!(
        extension_for_content_type(&ContentType::new("image/png")),
        Some("png".to_string())
    );
}
