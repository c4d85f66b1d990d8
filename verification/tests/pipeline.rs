//! End-to-end tests of the extraction pipeline on synthetic containers.

use std::io::{Cursor, Write};

use bookbind::errors::ExtractError;
use bookbind::extract::{complete_extract, plan_extract, resolve_uploads};
use bookbind::sniff::{detect_format, ContentFormat};

fn make_zip(entries: &[(&str, &[u8])]) -> Vec<u8> {
    let mut writer = zip::ZipWriter::new(Cursor::new(Vec::new()));
    let options = zip::write::SimpleFileOptions::default()
        .compression_method(zip::CompressionMethod::Stored);
    for (name, data) in entries {
        writer.start_file(*name, options).unwrap();
        writer.write_all(data).unwrap();
    }
    writer.finish().unwrap().into_inner()
}

#[test]
fn detect_rejects_short_blobs() {
    assert_eq!(detect_format(&[]), ContentFormat::Unknown);
    assert_eq!(detect_format(b"PK"), ContentFormat::Unknown);
    assert_eq!(detect_format(b"PK\x03"), ContentFormat::Unknown);
}

#[test]
fn detect_rejects_wrong_signature() {
    assert_eq!(detect_format(b"this is not an archive"), ContentFormat::Unknown);
    assert_eq!(detect_format(&[0x50, 0x4b, 0x05, 0x06, 0, 0, 0, 0]), ContentFormat::Unknown);
}

#[test]
fn detect_rejects_truncated_zip() {
    let bytes = make_zip(&[("mimetype", b"application/epub+zip")]);
    // Signature intact, central directory gone.
    assert_eq!(detect_format(&bytes[..8]), ContentFormat::Unknown);
}

#[test]
fn detect_finds_epub_by_mimetype() {
    let bytes = make_zip(&[("mimetype", b"application/epub+zip"), ("a.xhtml", b"<html/>")]);
    assert_eq!(detect_format(&bytes), ContentFormat::Epub);
}

#[test]
fn detect_finds_epub_by_container() {
    let bytes = make_zip(&[("META-INF/container.xml", b"<container/>")]);
    assert_eq!(detect_format(&bytes), ContentFormat::Epub);
}

#[test]
fn detect_finds_docx_by_document() {
    let bytes = make_zip(&[("word/document.xml", b"<w:document/>")]);
    assert_eq!(detect_format(&bytes), ContentFormat::Docx);
}

#[test]
fn detect_finds_docx_by_content_types() {
    let bytes = make_zip(&[("[Content_Types].xml", b"<Types/>")]);
    assert_eq!(detect_format(&bytes), ContentFormat::Docx);
}

#[test]
fn detect_empty_archive_is_unknown() {
    let bytes = make_zip(&[("something.txt", b"hello")]);
    assert_eq!(detect_format(&bytes), ContentFormat::Unknown);
}

#[test]
fn epub_extraction_relocates_one_image() {
    let bytes = make_zip(&[
        ("mimetype", b"application/epub+zip"),
        ("chapter1.xhtml", b"<html><body><img src=\"images/a.png\"/></body></html>"),
        ("images/a.png", b"\x89PNG fake image bytes"),
    ]);
    assert_eq!(detect_format(&bytes), ContentFormat::Epub);

    let plan = plan_extract(&bytes, "book1", 1234).unwrap();
    assert_eq!(plan.format, ContentFormat::Epub);
    assert_eq!(plan.images.len(), 1);
    assert_eq!(plan.images[0].archive_path, "images/a.png");
    assert_eq!(plan.images[0].content_type, "image/png");
    assert_eq!(plan.images[0].size, 21);
    assert_eq!(plan.images[0].storage_key, "content-images/book1/1234_a.png");

    let outcomes = vec![Some("https://cdn.example/book1/1234_a.png".to_string())];
    let urls = resolve_uploads(&outcomes).unwrap();
    let content = complete_extract(&bytes, &plan, &urls).unwrap();

    assert_eq!(content.images.len(), 1);
    assert_eq!(content.images[0].original_path, "images/a.png");
    assert_eq!(content.images[0].cdn_url, "https://cdn.example/book1/1234_a.png");
    assert_eq!(content.images[0].content_type, "image/png");
    assert_eq!(content.images[0].size, 21);
    assert!(content.html_content.contains("src=\"https://cdn.example/book1/1234_a.png\""));
    assert!(!content.html_content.contains("images/a.png"));
}

#[test]
fn epub_joins_chapters_with_break() {
    let bytes = make_zip(&[
        ("mimetype", b"application/epub+zip"),
        ("c1.html", b"<p>one</p>"),
        ("c2.html", b"<p>two</p>"),
    ]);
    let plan = plan_extract(&bytes, "b", 1).unwrap();
    let urls = resolve_uploads(&Vec::new()).unwrap();
    let content = complete_extract(&bytes, &plan, &urls).unwrap();
    assert_eq!(content.html_content, "<p>one</p>\n\n<!-- Chapter Break -->\n\n<p>two</p>");
}

#[test]
fn epub_skips_navigation_documents() {
    let bytes = make_zip(&[
        ("mimetype", b"application/epub+zip"),
        ("toc.xhtml", b"<p>contents</p>"),
        ("nav.html", b"<p>nav</p>"),
        ("c1.html", b"<p>body</p>"),
    ]);
    let plan = plan_extract(&bytes, "b", 1).unwrap();
    let urls = resolve_uploads(&Vec::new()).unwrap();
    let content = complete_extract(&bytes, &plan, &urls).unwrap();
    assert_eq!(content.html_content, "<p>body</p>");
}

#[test]
fn docx_extraction_emits_bold_paragraph() {
    let doc = "<w:document><w:body><w:p><w:pPr><w:b/></w:pPr><w:r><w:t>Hello</w:t></w:r></w:p></w:body></w:document>";
    let bytes = make_zip(&[("word/document.xml", doc.as_bytes())]);
    assert_eq!(detect_format(&bytes), ContentFormat::Docx);
    let plan = plan_extract(&bytes, "b", 7).unwrap();
    assert_eq!(plan.images.len(), 0);
    let urls = resolve_uploads(&Vec::new()).unwrap();
    let content = complete_extract(&bytes, &plan, &urls).unwrap();
    assert!(content.html_content.contains("<p><strong>Hello</strong></p>"));
}

#[test]
fn docx_collects_only_media_images() {
    let doc = b"<w:document><w:body><w:p><w:r><w:t>x</w:t></w:r></w:p></w:body></w:document>";
    let bytes = make_zip(&[
        ("word/document.xml", doc),
        ("word/media/rId5.png", b"png bytes"),
        ("other/decoy.png", b"decoy"),
    ]);
    let plan = plan_extract(&bytes, "b", 7).unwrap();
    assert_eq!(plan.images.len(), 1);
    assert_eq!(plan.images[0].archive_path, "word/media/rId5.png");
}

#[test]
fn docx_resolves_blip_against_matching_path() {
    let doc = "<w:document><w:body><w:p><w:r><w:drawing><a:blip r:embed=\"rId5\"/></w:drawing></w:r></w:p></w:body></w:document>";
    let bytes = make_zip(&[
        ("word/document.xml", doc.as_bytes()),
        ("word/media/rId5.png", b"png bytes"),
    ]);
    let plan = plan_extract(&bytes, "b", 7).unwrap();
    let outcomes = vec![Some("https://cdn.example/rid5.png".to_string())];
    let urls = resolve_uploads(&outcomes).unwrap();
    let content = complete_extract(&bytes, &plan, &urls).unwrap();
    assert!(content.html_content.contains(
        "<img src=\"https://cdn.example/rid5.png\" alt=\"image\" />"
    ));
}

#[test]
fn unknown_format_is_rejected() {
    let r = plan_extract(b"just some text, not a zip", "b", 1);
    assert!(matches!(r, Err(ExtractError::UnsupportedFormat)));
}

#[test]
fn corrupt_member_fails_with_read_failure() {
    let payload = b"unique-image-payload-unique-image-payload";
    let mut bytes = make_zip(&[
        ("mimetype", b"application/epub+zip"),
        ("images/a.png", payload),
    ]);
    // Flip one byte inside the stored image payload; the central directory
    // at the end of the archive stays intact, so the archive still opens.
    let pos = bytes
        .windows(payload.len())
        .position(|w| w == payload)
        .unwrap();
    bytes[pos] ^= 0xff;
    let r = plan_extract(&bytes, "b", 1);
    assert!(matches!(r, Err(ExtractError::ReadFailure)));
}

#[test]
fn non_utf8_markup_fails_with_decode_error() {
    let bytes = make_zip(&[
        ("mimetype", b"application/epub+zip"),
        ("c1.html", &[0xff, 0xfe, 0x00, 0x41][..]),
    ]);
    let plan = plan_extract(&bytes, "b", 1).unwrap();
    let urls = resolve_uploads(&Vec::new()).unwrap();
    let r = complete_extract(&bytes, &plan, &urls);
    assert!(matches!(r, Err(ExtractError::DecodeError)));
}

#[test]
fn mismatched_bytes_fail_with_invalid_archive() {
    let bytes = make_zip(&[("mimetype", b"application/epub+zip")]);
    let plan = plan_extract(&bytes, "b", 1).unwrap();
    let urls = resolve_uploads(&Vec::new()).unwrap();
    let r = complete_extract(b"not an archive at all", &plan, &urls);
    assert!(matches!(r, Err(ExtractError::InvalidArchive)));
}

#[test]
fn failed_upload_aborts_whole_extraction() {
    let bytes = make_zip(&[
        ("mimetype", b"application/epub+zip"),
        ("images/a.png", b"a"),
        ("images/b.png", b"b"),
    ]);
    let plan = plan_extract(&bytes, "b", 1).unwrap();
    assert_eq!(plan.images.len(), 2);
    let outcomes = vec![Some("https://cdn.example/a.png".to_string()), None];
    let r = resolve_uploads(&outcomes);
    assert!(matches!(r, Err(ExtractError::StorageFailure)));
}

#[test]
fn successful_uploads_pass_through_in_order() {
    let outcomes = vec![
        Some("https://cdn.example/1".to_string()),
        Some("https://cdn.example/2".to_string()),
    ];
    let urls = resolve_uploads(&outcomes).unwrap();
    assert_eq!(urls, vec!["https://cdn.example/1", "https://cdn.example/2"]);
}

#[test]
fn basename_collision_keeps_exact_paths() {
    let markup = "<img src=\"img1/a.png\"/><img src=\"img2/a.png\"/><img src=\"a.png\"/>";
    let bytes = make_zip(&[
        ("mimetype", b"application/epub+zip"),
        ("c1.html", markup.as_bytes()),
        ("img1/a.png", b"first"),
        ("img2/a.png", b"second"),
    ]);
    let plan = plan_extract(&bytes, "b", 1).unwrap();
    assert_eq!(plan.images.len(), 2);
    let outcomes = vec![
        Some("https://cdn.example/u1.png".to_string()),
        Some("https://cdn.example/u2.png".to_string()),
    ];
    let urls = resolve_uploads(&outcomes).unwrap();
    let content = complete_extract(&bytes, &plan, &urls).unwrap();
    // Both images uploaded, each exact path resolves to its own URL, and
    // the bare basename resolves to the image processed last.
    assert_eq!(content.images.len(), 2);
    let expected = "<img src=\"https://cdn.example/u1.png\"/><img src=\"https://cdn.example/u2.png\"/><img src=\"https://cdn.example/u2.png\"/>";
    assert_eq!(content.html_content, expected);
}
