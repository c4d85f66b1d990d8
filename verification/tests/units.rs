//! Unit tests of the rewriter, the converter, and the smaller helpers.

use bookbind::docx::docx_xml_to_html;
use bookbind::errors::ExtractError;
use bookbind::extract::{sanitize_filename, upload_key, is_image_file, is_content_file};
use bookbind::models::auth_model::{Auth, AuthResponse};
use bookbind::models::paging::{
    default_limit, default_page, PaginatedResponse, PaginationMeta, PaginationParams,
};
use bookbind::models::user_model::{Role, SafeUser, User, UserDto};
use bookbind::pathmap::PathUrlMap;
use bookbind::rewrite::rewrite;

fn chars(s: &str) -> Vec<char> {
    s.chars().collect()
}

fn map_of(entries: &[(&str, &str)]) -> PathUrlMap {
    let mut m = PathUrlMap::new();
    for (k, v) in entries {
        m.insert(chars(k), chars(v));
    }
    m
}

#[test]
fn rewrite_replaces_resolvable_src() {
    let m = map_of(&[("images/a.png", "https://cdn.example/a.png")]);
    let out = rewrite("<img src=\"images/a.png\"/>", &m);
    assert_eq!(out, "<img src=\"https://cdn.example/a.png\"/>");
}

#[test]
fn rewrite_falls_back_to_basename() {
    let m = map_of(&[("a.png", "https://cdn.example/a.png")]);
    let out = rewrite("<img src='deep/path/a.png'>", &m);
    assert_eq!(out, "<img src=\"https://cdn.example/a.png\">");
}

#[test]
fn rewrite_handles_xlink_href() {
    let m = map_of(&[("pic.svg", "https://cdn.example/pic.svg")]);
    let out = rewrite("<use xlink:href=\"pic.svg\"/>", &m);
    assert_eq!(out, "<use xlink:href=\"https://cdn.example/pic.svg\"/>");
}

#[test]
fn rewrite_leaves_unresolved_references_unchanged() {
    let m = map_of(&[("known.png", "https://cdn.example/k.png")]);
    let s = "<img src=\"missing.png\"/><img src='also/missing.jpg'>";
    assert_eq!(rewrite(s, &m), s);
}

#[test]
fn rewrite_unresolved_only_is_identity() {
    let m = PathUrlMap::new();
    let s = "<p>text</p><img src=\"a.png\"/><svg><use xlink:href='b.svg'/></svg>";
    assert_eq!(rewrite(s, &m), s);
}

#[test]
fn rewrite_twice_equals_once() {
    let m = map_of(&[("images/a.png", "https://cdn.example/x.png")]);
    let s = "<img src=\"images/a.png\"/><img src='b.png'>";
    let once = rewrite(s, &m);
    let twice = rewrite(&once, &m);
    assert!(once.contains("https://cdn.example/x.png"));
    assert_eq!(once, twice);
}

#[test]
fn rewrite_ignores_unterminated_reference() {
    let m = map_of(&[("a.png", "https://cdn.example/a.png")]);
    let s = "<img src=\"a.png";
    assert_eq!(rewrite(s, &m), s);
}

#[test]
fn rewrite_ignores_empty_value() {
    let m = map_of(&[("", "https://cdn.example/empty")]);
    let s = "<img src=\"\"/>";
    assert_eq!(rewrite(s, &m), s);
}

#[test]
fn rewrite_normalises_quote_style_on_hit() {
    let m = map_of(&[("a.png", "https://cdn.example/a.png")]);
    let out = rewrite("<img src='a.png'/>", &m);
    assert_eq!(out, "<img src=\"https://cdn.example/a.png\"/>");
}

#[test]
fn docx_plain_paragraph() {
    let m = PathUrlMap::new();
    let html = docx_xml_to_html("<w:p><w:r><w:t>plain</w:t></w:r></w:p>", &m);
    assert_eq!(html, "<p>plain</p>\n");
}

#[test]
fn docx_bold_italic_paragraph() {
    let m = PathUrlMap::new();
    let html = docx_xml_to_html(
        "<w:p><w:pPr><w:b/><w:i/></w:pPr><w:r><w:t>both</w:t></w:r></w:p>",
        &m,
    );
    assert_eq!(html, "<p><strong><em>both</em></strong></p>\n");
}

#[test]
fn docx_italic_paragraph() {
    let m = PathUrlMap::new();
    let html = docx_xml_to_html("<w:p><w:pPr><w:i/></w:pPr><w:r><w:t>em</w:t></w:r></w:p>", &m);
    assert_eq!(html, "<p><em>em</em></p>\n");
}

#[test]
fn docx_empty_paragraph_is_kept() {
    let m = PathUrlMap::new();
    let html = docx_xml_to_html("<w:p><w:pPr/></w:p><w:p><w:r><w:t>x</w:t></w:r></w:p>", &m);
    assert_eq!(html, "<p></p>\n<p>x</p>\n");
}

#[test]
fn docx_concatenates_runs_in_order() {
    let m = PathUrlMap::new();
    let html = docx_xml_to_html(
        "<w:p><w:r><w:t>one </w:t></w:r><w:r><w:t>two</w:t></w:r></w:p>",
        &m,
    );
    assert_eq!(html, "<p>one two</p>\n");
}

#[test]
fn docx_without_paragraphs_strips_tags() {
    let m = PathUrlMap::new();
    let html = docx_xml_to_html("<w:document>just <b>text</b> here</w:document>", &m);
    assert_eq!(html, "just text here");
}

#[test]
fn docx_blip_unresolved_emits_nothing() {
    let m = PathUrlMap::new();
    let html = docx_xml_to_html("<w:p><a:blip r:embed=\"rId9\"/></w:p>", &m);
    assert_eq!(html, "<p></p>\n");
}

#[test]
fn docx_blip_resolved_emits_img() {
    let m = map_of(&[("word/media/rId3.png", "https://cdn.example/i.png")]);
    let html = docx_xml_to_html("<w:p><a:blip r:embed=\"rId3\"/></w:p>", &m);
    assert_eq!(html, "<p><img src=\"https://cdn.example/i.png\" alt=\"image\" /></p>\n");
}

#[test]
fn image_names_are_case_insensitive() {
    assert!(is_image_file("COVER.JPG"));
    assert!(is_image_file("a/b/pic.WebP"));
    assert!(is_image_file("vector.svg"));
    assert!(!is_image_file("notes.txt"));
    assert!(!is_image_file("archive.png.zip"));
}

#[test]
fn content_names_exclude_navigation() {
    assert!(is_content_file("chapter1.xhtml"));
    assert!(is_content_file("Body.HTML"));
    assert!(!is_content_file("toc.xhtml"));
    assert!(!is_content_file("nav.html"));
    assert!(!is_content_file("style.css"));
}

#[test]
fn sanitize_prefixes_timestamp_and_replaces_spaces() {
    assert_eq!(sanitize_filename("images/my pic.png", 99), "99_my_pic.png");
    assert_eq!(sanitize_filename("cover.jpg", 1234567890), "1234567890_cover.jpg");
    assert_eq!(sanitize_filename("a/b/c d e.gif", 0), "0_c_d_e.gif");
}

#[test]
fn upload_key_layout() {
    assert_eq!(upload_key("book42", "99_a.png"), "content-images/book42/99_a.png");
}

#[test]
fn path_map_prefers_latest_binding() {
    let m = map_of(&[("a.png", "https://cdn.example/old"), ("a.png", "https://cdn.example/new")]);
    let out = rewrite("<img src=\"a.png\"/>", &m);
    assert_eq!(out, "<img src=\"https://cdn.example/new\"/>");
}

#[test]
fn error_messages_name_their_cause() {
    assert_eq!(
        ExtractError::UnsupportedFormat.message(),
        "unsupported file format: only EPUB and DOCX are supported"
    );
    assert_eq!(
        ExtractError::StorageFailure.message(),
        "an image upload to the object store failed"
    );
    assert_eq!(
        ExtractError::InvalidArchive.message(),
        "the file could not be opened as a ZIP archive"
    );
}

#[test]
fn pagination_skip_and_take() {
    let p = PaginationParams { page: 3, limit: 10 };
    assert_eq!(p.skip(), 20);
    assert_eq!(p.take(), 10);
}

#[test]
fn pagination_validate_bounds() {
    assert!(PaginationParams { page: 1, limit: 1 }.validate().is_ok());
    assert!(PaginationParams { page: 1, limit: 100 }.validate().is_ok());
    assert_eq!(
        PaginationParams { page: 0, limit: 10 }.validate(),
        Err("Page must be greater than 0".to_string())
    );
    assert_eq!(
        PaginationParams { page: 1, limit: 0 }.validate(),
        Err("Limit must be between 1 and 100".to_string())
    );
    assert_eq!(
        PaginationParams { page: 1, limit: 101 }.validate(),
        Err("Limit must be between 1 and 100".to_string())
    );
}

#[test]
fn pagination_meta_rounds_up() {
    let m = PaginationMeta::new(2, 10, 35);
    assert_eq!(m.total_pages, 4);
    assert!(m.has_previous);
    assert!(m.has_next);
    let last = PaginationMeta::new(4, 10, 35);
    assert!(!last.has_next);
    let exact = PaginationMeta::new(1, 10, 30);
    assert_eq!(exact.total_pages, 3);
    let empty = PaginationMeta::new(1, 10, 0);
    assert_eq!(empty.total_pages, 0);
    let zero_size = PaginationMeta::new(1, 0, 35);
    assert_eq!(zero_size.total_pages, 0);
}

#[test]
fn pagination_defaults() {
    assert_eq!(default_page(), 1);
    assert_eq!(default_limit(), 10);
}

#[test]
fn paginated_response_keeps_data() {
    let meta = PaginationMeta::new(1, 10, 2);
    let r = PaginatedResponse::new(vec!["a", "b"], meta);
    assert_eq!(r.data, vec!["a", "b"]);
    assert_eq!(r.pagination.total_items, 2);
}

#[test]
fn auth_response_wraps_success() {
    let user = SafeUser {
        id: "u1".to_string(),
        username: "reader".to_string(),
        profile_pic: None,
        bio: None,
        role: Role::User,
        email: "r@example.com".to_string(),
    };
    let auth = Auth::new(user, "acc".to_string(), "ref".to_string());
    assert_eq!(auth.access_token, "acc");
    assert_eq!(auth.refresh_token, "ref");
    let resp = AuthResponse::success(auth);
    assert_eq!(resp.status, "success");
    assert_eq!(resp.data.user.username, "reader");
}

#[test]
fn safe_user_drops_password() {
    let user = User {
        id: "u1".to_string(),
        profile_pic: Some("p.png".to_string()),
        bio: None,
        username: "reader".to_string(),
        role: Role::Admin,
        email: "r@example.com".to_string(),
        password: "hash".to_string(),
    };
    let safe = SafeUser::from(user.clone());
    assert_eq!(safe.id, "u1");
    assert_eq!(safe.username, "reader");
    assert_eq!(safe.email, "r@example.com");
    let dto = UserDto::from(user);
    assert_eq!(dto.id, "u1");
    assert!(matches!(dto.role, Role::Admin));
}
