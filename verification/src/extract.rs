//! The content-extraction pipeline.
//!
//! Extraction runs in three steps, so that no archive handle is ever held
//! across the object-store uploads:
//!
//! 1. [`plan_extract`] sniffs the format and collects every embedded image
//!    synchronously — bytes, content type, size, and the storage key each
//!    image is to be uploaded under.
//! 2. The caller uploads each planned image to the object store, in any
//!    order that preserves the planned sequence of results, and hands the
//!    outcomes to [`resolve_uploads`]: one failed upload fails the whole
//!    extraction, with nothing returned.
//! 3. [`complete_extract`] builds the path-to-URL map from the uploaded
//!    URLs, re-reads the archive's markup, rewrites image references, and
//!    assembles the final [`ExtractedContent`].

use vstd::prelude::*;
use vstd::utf8::{valid_utf8, decode_utf8};
use crate::archive::{
    zip_parses,
    zip_entry_count,
    zip_entry_name,
    zip_entry_data,
    zip_open_len,
    zip_name_at,
    zip_data_at,
    bytes_to_utf8,
    mime_of,
    mime_for_path,
};
use crate::errors::ExtractError;
use crate::pathmap::{PathUrlMap, entries_get};
use crate::rewrite::{spec_rewrite, rewrite};
use crate::docx::{spec_docx_html, docx_xml_to_html};
use crate::sniff::{ContentFormat, spec_detect, detect_format};
use crate::strutil::{
    ascii_lower,
    after_last_slash,
    ends_with,
    starts_with,
    contains_sub,
    spec_digits,
    push_digits,
    str_to_chars,
    chars_to_string,
    basename_of,
    to_lower,
    ends_with_pat,
    starts_with_pat,
    contains_pat,
    eq_chars,
    append_chars,
};

verus! {

// ---------------------------------------------------------------------------
// Data model
// ---------------------------------------------------------------------------

/// An image pulled out of the archive and relocated to object storage.
#[derive(Debug, Clone)]
pub struct ExtractedImage {
    /// The archive-relative path the image was stored under.
    pub original_path: String,
    /// The public URL after relocation.
    pub cdn_url: String,
    /// The content type sniffed from the path's extension.
    pub content_type: String,
    /// The byte length of the original payload.
    pub size: u64,
}

/// The sanitized, storage-backed representation of one manuscript.
#[derive(Debug, Clone)]
pub struct ExtractedContent {
    /// The assembled HTML, image references rewritten to relocated URLs.
    pub html_content: String,
    /// The relocated images, in archive enumeration order.
    pub images: Vec<ExtractedImage>,
}

/// An image collected in the synchronous phase, awaiting upload.
#[derive(Debug, Clone)]
pub struct PendingImage {
    /// The archive-relative path it came from.
    pub archive_path: String,
    /// Its raw decompressed bytes — what is to be uploaded.
    pub data: Vec<u8>,
    /// The content type sniffed from the path's extension.
    pub content_type: String,
    /// The byte length of `data`.
    pub size: u64,
    /// The object-store key the upload is to use.
    pub storage_key: String,
}

/// Everything the synchronous phase collected: the sniffed format and the
/// images awaiting upload, in archive enumeration order.
#[derive(Debug, Clone)]
pub struct ExtractionPlan {
    /// The sniffed container format.
    pub format: ContentFormat,
    /// The images to upload, in archive enumeration order.
    pub images: Vec<PendingImage>,
}

// ---------------------------------------------------------------------------
// Name classification and storage keys
// ---------------------------------------------------------------------------

/// A member name whose lowercased form carries a raster or vector image
/// extension.
pub open spec fn spec_is_image_name(s: Seq<char>) -> bool {
    let l = ascii_lower(s);
    ||| ends_with(l, ".jpg"@)
    ||| ends_with(l, ".jpeg"@)
    ||| ends_with(l, ".png"@)
    ||| ends_with(l, ".gif"@)
    ||| ends_with(l, ".webp"@)
    ||| ends_with(l, ".svg"@)
}

/// A member name holding renderable chapter markup: an HTML-family
/// extension, excluding navigation and table-of-contents documents.
pub open spec fn spec_is_content_name(s: Seq<char>) -> bool {
    let l = ascii_lower(s);
    &&& (ends_with(l, ".html"@) || ends_with(l, ".xhtml"@) || ends_with(l, ".htm"@))
    &&& !contains_sub(l, "toc"@)
    &&& !contains_sub(l, "nav"@)
}

/// Whether a member name names an image, ignoring ASCII case.
pub fn is_image_file(name: &str) -> (r: bool)
    ensures
        r == spec_is_image_name(name@),
{
    let chars = str_to_chars(name);
    let l = to_lower(&chars);
    ends_with_pat(&l, &str_to_chars(".jpg")) || ends_with_pat(&l, &str_to_chars(".jpeg"))
        || ends_with_pat(&l, &str_to_chars(".png")) || ends_with_pat(&l, &str_to_chars(".gif"))
        || ends_with_pat(&l, &str_to_chars(".webp")) || ends_with_pat(&l, &str_to_chars(".svg"))
}

/// Whether a member name names a renderable chapter document.
pub fn is_content_file(name: &str) -> (r: bool)
    ensures
        r == spec_is_content_name(name@),
{
    let chars = str_to_chars(name);
    let l = to_lower(&chars);
    (ends_with_pat(&l, &str_to_chars(".html")) || ends_with_pat(&l, &str_to_chars(".xhtml"))
        || ends_with_pat(&l, &str_to_chars(".htm"))) && !contains_pat(&l, &str_to_chars("toc"))
        && !contains_pat(&l, &str_to_chars("nav"))
}

/// Spaces replaced by underscores.
pub open spec fn underscore_spaces(s: Seq<char>) -> Seq<char> {
    Seq::new(s.len(), |i: int| if s[i] == ' ' { '_' } else { s[i] })
}

/// The collision-resistant filename an image is stored under: the
/// extraction timestamp, an underscore, and the member's basename with
/// spaces replaced by underscores.
pub open spec fn spec_sanitize(path: Seq<char>, ts: u64) -> Seq<char> {
    spec_digits(ts as nat) + seq!['_'] + underscore_spaces(after_last_slash(path))
}

/// Derives the storage filename for one archive member.
pub fn sanitize_filename(path: &str, timestamp: u64) -> (r: String)
    ensures
        r@ == spec_sanitize(path@, timestamp),
{
    let chars = str_to_chars(path);
    let base = basename_of(&chars);
    let mut out: Vec<char> = Vec::new();
    push_digits(timestamp, &mut out);
    out.push('_');
    let ghost head = spec_digits(timestamp as nat) + seq!['_'];
    proof {
        assert(out@ =~= head);
        assert(head + underscore_spaces(after_last_slash(path@)).subrange(0, 0) =~= head);
    }
    let mut k: usize = 0;
    while k < base.len()
        invariant
            k <= base@.len(),
            base@ == after_last_slash(path@),
            out@ == head + underscore_spaces(base@).subrange(0, k as int),
        decreases base@.len() - k,
    {
        let c = base[k];
        if c == ' ' {
            out.push('_');
        } else {
            out.push(c);
        }
        proof {
            assert(out@ =~= head + underscore_spaces(base@).subrange(0, k + 1));
        }
        k += 1;
    }
    proof {
        assert(underscore_spaces(base@).subrange(0, base@.len() as int) =~= underscore_spaces(
            base@,
        ));
    }
    chars_to_string(&out)
}

/// The folder relocated chapter images live under.
pub open spec fn asset_folder() -> Seq<char> {
    "content-images"@
}

/// The object-store key for one stored filename: the asset folder, the
/// caller's namespace, and the filename, slash-separated.
pub open spec fn spec_upload_key(ns: Seq<char>, filename: Seq<char>) -> Seq<char> {
    asset_folder() + seq!['/'] + ns + seq!['/'] + filename
}

/// Composes the object-store key for one stored filename.
pub fn upload_key(namespace: &str, filename: &str) -> (r: String)
    ensures
        r@ == spec_upload_key(namespace@, filename@),
{
    let mut out = str_to_chars("content-images");
    out.push('/');
    let ns = str_to_chars(namespace);
    append_chars(&mut out, &ns);
    out.push('/');
    let f = str_to_chars(filename);
    append_chars(&mut out, &f);
    proof {
        assert(out@ =~= spec_upload_key(namespace@, filename@));
    }
    chars_to_string(&out)
}

// ---------------------------------------------------------------------------
// Phase 1: synchronous collection
// ---------------------------------------------------------------------------

/// Which members each format collects images from: any member for EPUB,
/// only the media folder for DOCX.
pub open spec fn wants_member(fmt: ContentFormat, name: Seq<char>) -> bool {
    match fmt {
        ContentFormat::Epub => spec_is_image_name(name),
        ContentFormat::Docx => starts_with(name, "word/media/"@) && spec_is_image_name(name),
        ContentFormat::Unknown => false,
    }
}

/// The images the archive yields from member `i` on: each collected
/// member's name and raw bytes, in enumeration order, or the first read
/// failure.
pub open spec fn spec_collect(b: Seq<u8>, fmt: ContentFormat, i: int) -> Result<
    Seq<(Seq<char>, Seq<u8>)>,
    ExtractError,
>
    decreases zip_entry_count(b) - i + 1,
{
    if i < 0 || i >= zip_entry_count(b) {
        Ok(Seq::empty())
    } else {
        match zip_entry_name(b, i) {
            None => Err(ExtractError::ReadFailure),
            Some(name) => {
                if wants_member(fmt, name) {
                    match zip_entry_data(b, i) {
                        None => Err(ExtractError::ReadFailure),
                        Some(d) => match spec_collect(b, fmt, i + 1) {
                            Err(e) => Err(e),
                            Ok(rest) => Ok(seq![(name, d)] + rest),
                        },
                    }
                } else {
                    spec_collect(b, fmt, i + 1)
                }
            },
        }
    }
}

/// The name/bytes model of a run of pending images.
pub open spec fn models_of(images: Seq<PendingImage>) -> Seq<(Seq<char>, Seq<u8>)> {
    Seq::new(images.len(), |j: int| (images[j].archive_path@, images[j].data@))
}

/// The derived fields of one pending image agree with its path and bytes.
pub open spec fn pending_self_wf(p: PendingImage, ns: Seq<char>, ts: u64) -> bool {
    &&& p.content_type@ == mime_of(p.archive_path@)
    &&& p.size == p.data@.len()
    &&& p.storage_key@ == spec_upload_key(ns, spec_sanitize(p.archive_path@, ts))
}

/// The plan is exactly what phase 1 collects from these bytes.
pub open spec fn plan_matches(plan: ExtractionPlan, b: Seq<u8>, ns: Seq<char>, ts: u64) -> bool {
    &&& plan.format == spec_detect(b)
    &&& spec_collect(b, plan.format, 0) == Ok::<_, ExtractError>(models_of(plan.images@))
    &&& forall|j: int|
        0 <= j < plan.images@.len() ==> pending_self_wf(#[trigger] plan.images@[j], ns, ts)
}

/// The error planning reports for these bytes.
pub open spec fn spec_plan_err(b: Seq<u8>) -> ExtractError {
    if spec_detect(b) == ContentFormat::Unknown {
        ExtractError::UnsupportedFormat
    } else {
        match spec_collect(b, spec_detect(b), 0) {
            Err(e) => e,
            Ok(_) => ExtractError::UnsupportedFormat,
        }
    }
}

/// Phase 1: sniffs the format and collects every embedded image while the
/// archive is open, deriving each image's content type, size and storage
/// key.  Fails with `UnsupportedFormat` exactly when the format is
/// unknown, and with `ReadFailure` exactly when a member cannot be read.
pub fn plan_extract(bytes: &[u8], book_id: &str, timestamp: u64) -> (r: Result<
    ExtractionPlan,
    ExtractError,
>)
    ensures
        r is Err <==> (spec_detect(bytes@) == ContentFormat::Unknown || spec_collect(
            bytes@,
            spec_detect(bytes@),
            0,
        ) is Err),
        r matches Err(e) ==> e == spec_plan_err(bytes@),
        r matches Ok(p) ==> plan_matches(p, bytes@, book_id@, timestamp),
{
    let format = detect_format(bytes);
    if matches!(format, ContentFormat::Unknown) {
        return Err(ExtractError::UnsupportedFormat);
    }
    let count = match zip_open_len(bytes) {
        None => {
            return Err(ExtractError::InvalidArchive);
        },
        Some(n) => n,
    };
    let media_pat = str_to_chars("word/media/");
    let mut items: Vec<PendingImage> = Vec::new();
    let mut i: usize = 0;
    proof {
        assert(models_of(items@) =~= Seq::<(Seq<char>, Seq<u8>)>::empty());
    }
    while i < count
        invariant
            i <= count,
            count == zip_entry_count(bytes@),
            zip_parses(bytes@),
            format == spec_detect(bytes@),
            format != ContentFormat::Unknown,
            media_pat@ == "word/media/"@,
            match spec_collect(bytes@, format, i as int) {
                Ok(rest) => spec_collect(bytes@, format, 0) == Ok::<_, ExtractError>(
                    models_of(items@) + rest,
                ),
                Err(e) => spec_collect(bytes@, format, 0) == Err::<Seq<(Seq<char>, Seq<u8>)>, _>(
                    e,
                ),
            },
            forall|j: int|
                0 <= j < items@.len() ==> pending_self_wf(#[trigger] items@[j], book_id@,
                timestamp),
        decreases count - i,
    {
        match zip_name_at(bytes, i) {
            None => {
                return Err(ExtractError::ReadFailure);
            },
            Some(name) => {
                let wanted: bool = match format {
                    ContentFormat::Epub => is_image_file(name.as_str()),
                    ContentFormat::Docx => {
                        let chars = str_to_chars(name.as_str());
                        starts_with_pat(&chars, &media_pat) && is_image_file(name.as_str())
                    },
                    ContentFormat::Unknown => false,
                };
                if wanted {
                    match zip_data_at(bytes, i) {
                        None => {
                            return Err(ExtractError::ReadFailure);
                        },
                        Some(data) => {
                            let ghost old_items = items@;
                            let ct = mime_for_path(name.as_str());
                            let filename = sanitize_filename(name.as_str(), timestamp);
                            let key = upload_key(book_id, filename.as_str());
                            let size = data.len() as u64;
                            items.push(
                                PendingImage {
                                    archive_path: name,
                                    data,
                                    content_type: ct,
                                    size,
                                    storage_key: key,
                                },
                            );
                            proof {
                                let m = (items@.last().archive_path@, items@.last().data@);
                                assert(models_of(items@) =~= models_of(old_items) + seq![m]);
                                assert(forall|rest: Seq<(Seq<char>, Seq<u8>)>|
                                    models_of(old_items) + (seq![m] + rest) =~= (models_of(
                                        old_items,
                                    ) + seq![m]) + rest);
                            }
                        },
                    }
                }
            },
        }
        i += 1;
    }
    proof {
        assert(models_of(items@) + Seq::<(Seq<char>, Seq<u8>)>::empty() =~= models_of(items@));
    }
    Ok(ExtractionPlan { format, images: items })
}

// ---------------------------------------------------------------------------
// Phase 2: upload outcomes
// ---------------------------------------------------------------------------

/// Turns the upload outcomes into the relocated URLs.  If any upload
/// failed — any outcome is `None` — the whole extraction fails with
/// `StorageFailure`, and nothing is returned; otherwise every URL is
/// passed through in order.
pub fn resolve_uploads(outcomes: &Vec<Option<String>>) -> (r: Result<Vec<String>, ExtractError>)
    ensures
        r is Err <==> (exists|j: int| 0 <= j < outcomes@.len() && outcomes@[j] is None),
        r matches Err(e) ==> e == ExtractError::StorageFailure,
        r matches Ok(u) ==> u@.len() == outcomes@.len() && forall|j: int|
            0 <= j < u@.len() ==> (#[trigger] outcomes@[j]) is Some && u@[j]@ == outcomes@[j]->0@,
{
    let mut urls: Vec<String> = Vec::new();
    let mut i: usize = 0;
    while i < outcomes.len()
        invariant
            i <= outcomes@.len(),
            urls@.len() == i,
            forall|j: int|
                0 <= j < i ==> (#[trigger] outcomes@[j]) is Some && urls@[j]@ == outcomes@[j]->0@,
        decreases outcomes@.len() - i,
    {
        let o = &outcomes[i];
        match o.as_ref() {
            None => {
                return Err(ExtractError::StorageFailure);
            },
            Some(u) => {
                let ghost old_urls = urls@;
                proof {
                    assert(outcomes@[i as int] is Some);
                }
                urls.push(u.clone());
                proof {
                    assert(urls@[i as int]@ == outcomes@[i as int]->0@);
                    assert(forall|j: int| 0 <= j < i ==> urls@[j] == old_urls[j]);
                }
            },
        }
        i += 1;
    }
    Ok(urls)
}

// ---------------------------------------------------------------------------
// Phase 3: map building and markup assembly
// ---------------------------------------------------------------------------

/// Recording one upload binds the image's full path and its basename to
/// the relocated URL.
pub open spec fn record_upload(
    es: Seq<(Seq<char>, Seq<char>)>,
    path: Seq<char>,
    url: Seq<char>,
) -> Seq<(Seq<char>, Seq<char>)> {
    es.push((path, url)).push((after_last_slash(path), url))
}

/// The map entries after recording the first `n` uploads in order.
pub open spec fn built_entries(paths: Seq<Seq<char>>, urls: Seq<Seq<char>>, n: int) -> Seq<
    (Seq<char>, Seq<char>),
>
    decreases n,
{
    if n <= 0 {
        Seq::empty()
    } else {
        record_upload(built_entries(paths, urls, n - 1), paths[n - 1], urls[n - 1])
    }
}

/// The archive paths of a run of pending images.
pub open spec fn plan_paths(images: Seq<PendingImage>) -> Seq<Seq<char>> {
    Seq::new(images.len(), |j: int| images[j].archive_path@)
}

/// The views of a run of strings.
pub open spec fn string_views(xs: Seq<String>) -> Seq<Seq<char>> {
    Seq::new(xs.len(), |j: int| xs[j]@)
}

/// Law: two images at different archive paths sharing a basename both keep
/// their bindings — each full path resolves to its own URL, and the shared
/// basename resolves to the later upload.  (The earlier path may not
/// itself be the bare basename: an image at the archive root named exactly
/// like the later image's basename is overwritten by it.)
pub proof fn lemma_basename_collision(p1: Seq<char>, u1: Seq<char>, p2: Seq<char>, u2: Seq<char>)
    requires
        p1 != p2,
        after_last_slash(p1) == after_last_slash(p2),
        p1 != after_last_slash(p1),
    ensures
        ({
            let es = record_upload(record_upload(Seq::empty(), p1, u1), p2, u2);
            &&& entries_get(es, p1) == Some(u1)
            &&& entries_get(es, p2) == Some(u2)
            &&& entries_get(es, after_last_slash(p2)) == Some(u2)
            &&& crate::pathmap::spec_lookup(es, p1) == Some(u1)
            &&& crate::pathmap::spec_lookup(es, p2) == Some(u2)
        }),
{
    let bn = after_last_slash(p2);
    let e0 = Seq::<(Seq<char>, Seq<char>)>::empty();
    let e1 = e0.push((p1, u1));
    let e2 = e1.push((bn, u1));
    let e3 = e2.push((p2, u2));
    let es = e3.push((bn, u2));
    crate::pathmap::lemma_get_push_same(e3, bn, u2);
    if p2 != bn {
        crate::pathmap::lemma_get_push_other(e3, bn, u2, p2);
        crate::pathmap::lemma_get_push_same(e2, p2, u2);
    }
    crate::pathmap::lemma_get_push_other(e3, bn, u2, p1);
    crate::pathmap::lemma_get_push_other(e2, p2, u2, p1);
    crate::pathmap::lemma_get_push_other(e1, bn, u1, p1);
    crate::pathmap::lemma_get_push_same(e0, p1, u1);
}

/// The final images agree index-by-index with the plan and the URLs.
pub open spec fn images_match(
    imgs: Seq<ExtractedImage>,
    pend: Seq<PendingImage>,
    urls: Seq<String>,
) -> bool {
    &&& imgs.len() == pend.len()
    &&& forall|j: int|
        0 <= j < pend.len() ==> {
            &&& (#[trigger] imgs[j]).original_path@ == pend[j].archive_path@
            &&& imgs[j].cdn_url@ == urls[j]@
            &&& imgs[j].content_type@ == pend[j].content_type@
            &&& imgs[j].size == pend[j].size
        }
}

/// The rewritten markup of every content member from `i` on, in order, or
/// the first failure: `ReadFailure` for an unreadable member,
/// `DecodeError` for one that is not UTF-8.
pub open spec fn spec_epub_parts(b: Seq<u8>, es: Seq<(Seq<char>, Seq<char>)>, i: int) -> Result<
    Seq<Seq<char>>,
    ExtractError,
>
    decreases zip_entry_count(b) - i + 1,
{
    if i < 0 || i >= zip_entry_count(b) {
        Ok(Seq::empty())
    } else {
        match zip_entry_name(b, i) {
            None => Err(ExtractError::ReadFailure),
            Some(name) => {
                if spec_is_content_name(name) {
                    match zip_entry_data(b, i) {
                        None => Err(ExtractError::ReadFailure),
                        Some(d) => if !valid_utf8(d) {
                            Err(ExtractError::DecodeError)
                        } else {
                            match spec_epub_parts(b, es, i + 1) {
                                Err(e) => Err(e),
                                Ok(rest) => Ok(seq![spec_rewrite(decode_utf8(d), es)] + rest),
                            }
                        },
                    }
                } else {
                    spec_epub_parts(b, es, i + 1)
                }
            },
        }
    }
}

/// The separator placed between two chapter documents.
pub open spec fn chapter_sep() -> Seq<char> {
    "\n\n<!-- Chapter Break -->\n\n"@
}

/// The parts joined with a separator between each two.
pub open spec fn spec_join(parts: Seq<Seq<char>>, sep: Seq<char>) -> Seq<char>
    decreases parts.len(),
{
    if parts.len() == 0 {
        Seq::empty()
    } else if parts.len() == 1 {
        parts[0]
    } else {
        parts[0] + sep + spec_join(parts.drop_first(), sep)
    }
}

/// Appending one part extends the join by a separator and the part.
pub proof fn lemma_join_push(ps: Seq<Seq<char>>, p: Seq<char>, sep: Seq<char>)
    ensures
        spec_join(ps.push(p), sep) == if ps.len() == 0 {
            p
        } else {
            spec_join(ps, sep) + sep + p
        },
    decreases ps.len(),
{
    if ps.len() == 0 {
        assert(ps.push(p)[0] == p);
    } else if ps.len() == 1 {
        assert(ps.push(p).drop_first() =~= seq![p]);
        assert(ps.push(p)[0] == ps[0]);
        assert(spec_join(seq![p], sep) == p);
    } else {
        lemma_join_push(ps.drop_first(), p, sep);
        assert(ps.push(p).drop_first() =~= ps.drop_first().push(p));
        assert(ps.push(p)[0] == ps[0]);
        assert(ps[0] + sep + (spec_join(ps.drop_first(), sep) + sep + p) =~= (ps[0] + sep
            + spec_join(ps.drop_first(), sep)) + sep + p);
    }
}

/// The first member named exactly `name`, scanning from `i`.
pub open spec fn member_index(b: Seq<u8>, name: Seq<char>, i: int) -> Option<int>
    decreases zip_entry_count(b) - i + 1,
{
    if i < 0 || i >= zip_entry_count(b) {
        None
    } else if zip_entry_name(b, i) == Some(name) {
        Some(i)
    } else {
        member_index(b, name, i + 1)
    }
}

/// What `member_index` reports holds of its result.
pub proof fn lemma_member_index(b: Seq<u8>, name: Seq<char>, i: int)
    requires
        0 <= i,
    ensures
        member_index(b, name, i) matches Some(j) ==> i <= j < zip_entry_count(b)
            && zip_entry_name(b, j) == Some(name),
    decreases zip_entry_count(b) - i + 1,
{
    if i < zip_entry_count(b) && zip_entry_name(b, i) != Some(name) {
        lemma_member_index(b, name, i + 1);
    }
}

/// The DOCX main document source: the decoded `word/document.xml` member,
/// or nothing where it is missing, unreadable, or not UTF-8.
pub open spec fn spec_docx_source(b: Seq<u8>) -> Seq<char> {
    match member_index(b, "word/document.xml"@, 0) {
        None => Seq::empty(),
        Some(i) => match zip_entry_data(b, i) {
            None => Seq::empty(),
            Some(d) => if valid_utf8(d) {
                decode_utf8(d)
            } else {
                Seq::empty()
            },
        },
    }
}

/// Finds the first member with exactly this name.
fn find_member(bytes: &[u8], target: &Vec<char>) -> (r: Option<usize>)
    requires
        zip_parses(bytes@),
    ensures
        r matches Some(j) ==> member_index(bytes@, target@, 0) == Some(j as int),
        r is None ==> member_index(bytes@, target@, 0) is None,
{
    let count = match zip_open_len(bytes) {
        None => {
            return None;
        },
        Some(n) => n,
    };
    let mut i: usize = 0;
    while i < count
        invariant
            i <= count,
            count == zip_entry_count(bytes@),
            zip_parses(bytes@),
            member_index(bytes@, target@, 0) == member_index(bytes@, target@, i as int),
        decreases count - i,
    {
        match zip_name_at(bytes, i) {
            None => {},
            Some(name) => {
                let chars = str_to_chars(name.as_str());
                if eq_chars(&chars, target) {
                    return Some(i);
                }
            },
        }
        i += 1;
    }
    None
}

/// Phase 3: builds the path-to-URL map from the plan and the uploaded
/// URLs, re-reads the archive's markup, rewrites every image reference,
/// and assembles the result.  For EPUB the content members are rewritten
/// and joined in archive order with an explicit chapter-break separator;
/// for DOCX the main document is converted to simplified HTML.
pub fn complete_extract(bytes: &[u8], plan: &ExtractionPlan, urls: &Vec<String>) -> (r: Result<
    ExtractedContent,
    ExtractError,
>)
    requires
        urls@.len() == plan.images@.len(),
    ensures
        ({
            let es = built_entries(
                plan_paths(plan.images@),
                string_views(urls@),
                plan.images@.len() as int,
            );
            &&& plan.format == ContentFormat::Unknown ==> (r matches Err(e) && e
                == ExtractError::UnsupportedFormat)
            &&& plan.format != ContentFormat::Unknown && !zip_parses(bytes@) ==> (r matches Err(e)
                && e == ExtractError::InvalidArchive)
            &&& plan.format == ContentFormat::Epub && zip_parses(bytes@) ==> (match spec_epub_parts(
                bytes@,
                es,
                0,
            ) {
                Err(e0) => (r matches Err(e) && e == e0),
                Ok(parts) => (r matches Ok(c) && c.html_content@ == spec_join(parts, chapter_sep())
                    && images_match(c.images@, plan.images@, urls@)),
            })
            &&& plan.format == ContentFormat::Docx && zip_parses(bytes@) ==> (r matches Ok(c)
                && c.html_content@ == spec_docx_html(spec_docx_source(bytes@), es)
                && images_match(c.images@, plan.images@, urls@))
        }),
{
    if matches!(plan.format, ContentFormat::Unknown) {
        return Err(ExtractError::UnsupportedFormat);
    }
    let ghost all_paths = plan_paths(plan.images@);
    let ghost all_urls = string_views(urls@);
    let mut map = PathUrlMap::new();
    let mut images: Vec<ExtractedImage> = Vec::new();
    let n = plan.images.len();
    let mut j: usize = 0;
    while j < n
        invariant
            j <= n,
            n == plan.images@.len(),
            urls@.len() == plan.images@.len(),
            all_paths == plan_paths(plan.images@),
            all_urls == string_views(urls@),
            map@ == built_entries(all_paths, all_urls, j as int),
            images@.len() == j,
            forall|t: int|
                0 <= t < j ==> {
                    &&& (#[trigger] images@[t]).original_path@ == plan.images@[t].archive_path@
                    &&& images@[t].cdn_url@ == urls@[t]@
                    &&& images@[t].content_type@ == plan.images@[t].content_type@
                    &&& images@[t].size == plan.images@[t].size
                },
        decreases n - j,
    {
        let p = &plan.images[j];
        let path_chars = str_to_chars(p.archive_path.as_str());
        let url_chars = str_to_chars(urls[j].as_str());
        let url_chars_again = str_to_chars(urls[j].as_str());
        let base = basename_of(&path_chars);
        map.insert(path_chars, url_chars);
        map.insert(base, url_chars_again);
        images.push(
            ExtractedImage {
                original_path: p.archive_path.clone(),
                cdn_url: urls[j].clone(),
                content_type: p.content_type.clone(),
                size: p.size,
            },
        );
        j += 1;
    }
    let count = match zip_open_len(bytes) {
        None => {
            return Err(ExtractError::InvalidArchive);
        },
        Some(c) => c,
    };
    match plan.format {
        ContentFormat::Epub => {
            let mut parts: Vec<String> = Vec::new();
            let mut i: usize = 0;
            while i < count
                invariant
                    i <= count,
                    count == zip_entry_count(bytes@),
                    zip_parses(bytes@),
                    plan.format == ContentFormat::Epub,
                    map@ == built_entries(
                        plan_paths(plan.images@),
                        string_views(urls@),
                        plan.images@.len() as int,
                    ),
                    match spec_epub_parts(bytes@, map@, i as int) {
                        Ok(rest) => spec_epub_parts(bytes@, map@, 0) == Ok::<_, ExtractError>(
                            string_views(parts@) + rest,
                        ),
                        Err(e) => spec_epub_parts(bytes@, map@, 0) == Err::<Seq<Seq<char>>, _>(e),
                    },
                decreases count - i,
            {
                match zip_name_at(bytes, i) {
                    None => {
                        proof {
                            assert(spec_epub_parts(bytes@, map@, i as int) == Err::<
                                Seq<Seq<char>>,
                                ExtractError,
                            >(ExtractError::ReadFailure));
                        }
                        return Err(ExtractError::ReadFailure);
                    },
                    Some(name) => {
                        if is_content_file(name.as_str()) {
                            match zip_data_at(bytes, i) {
                                None => {
                                    proof {
                                        assert(spec_epub_parts(bytes@, map@, i as int) == Err::<
                                            Seq<Seq<char>>,
                                            ExtractError,
                                        >(ExtractError::ReadFailure));
                                    }
                                    return Err(ExtractError::ReadFailure);
                                },
                                Some(d) => {
                                    match bytes_to_utf8(d) {
                                        None => {
                                            proof {
                                                assert(spec_epub_parts(bytes@, map@, i as int)
                                                    == Err::<Seq<Seq<char>>, ExtractError>(
                                                    ExtractError::DecodeError,
                                                ));
                                            }
                                            return Err(ExtractError::DecodeError);
                                        },
                                        Some(text) => {
                                            let ghost old_parts = parts@;
                                            let rewritten = rewrite(text.as_str(), &map);
                                            parts.push(rewritten);
                                            proof {
                                                let pv = parts@.last()@;
                                                assert(string_views(parts@) =~= string_views(
                                                    old_parts,
                                                ) + seq![pv]);
                                                assert(forall|rest: Seq<Seq<char>>|
                                                    string_views(old_parts) + (seq![pv] + rest)
                                                        =~= (string_views(old_parts) + seq![pv])
                                                        + rest);
                                            }
                                        },
                                    }
                                },
                            }
                        }
                    },
                }
                i += 1;
            }
            proof {
                assert(string_views(parts@) + Seq::<Seq<char>>::empty() =~= string_views(parts@));
            }
            let sep = str_to_chars("\n\n<!-- Chapter Break -->\n\n");
            let mut html: Vec<char> = Vec::new();
            let mut k: usize = 0;
            proof {
                assert(string_views(parts@).subrange(0, 0) =~= Seq::<Seq<char>>::empty());
            }
            while k < parts.len()
                invariant
                    k <= parts@.len(),
                    sep@ == chapter_sep(),
                    html@ == spec_join(string_views(parts@).subrange(0, k as int), chapter_sep()),
                decreases parts@.len() - k,
            {
                let ghost prefix = string_views(parts@).subrange(0, k as int);
                if k > 0 {
                    append_chars(&mut html, &sep);
                }
                let part_chars = str_to_chars(parts[k].as_str());
                append_chars(&mut html, &part_chars);
                proof {
                    lemma_join_push(prefix, parts@[k as int]@, chapter_sep());
                    assert(string_views(parts@).subrange(0, k + 1) =~= prefix.push(
                        parts@[k as int]@,
                    ));
                    if k > 0 {
                        assert(html@ =~= spec_join(prefix, chapter_sep()) + chapter_sep()
                            + parts@[k as int]@);
                    } else {
                        assert(html@ =~= parts@[k as int]@);
                    }
                }
                k += 1;
            }
            proof {
                assert(string_views(parts@).subrange(0, parts@.len() as int) =~= string_views(
                    parts@,
                ));
            }
            Ok(ExtractedContent { html_content: chars_to_string(&html), images })
        },
        ContentFormat::Docx => {
            let docname = str_to_chars("word/document.xml");
            let xml: String = match find_member(bytes, &docname) {
                None => String::new(),
                Some(m) => {
                    proof {
                        lemma_member_index(bytes@, "word/document.xml"@, 0);
                    }
                    match zip_data_at(bytes, m) {
                        None => String::new(),
                        Some(d) => match bytes_to_utf8(d) {
                            None => String::new(),
                            Some(s) => s,
                        },
                    }
                },
            };
            proof {
                assert(xml@ == spec_docx_source(bytes@));
            }
            let html = docx_xml_to_html(xml.as_str(), &map);
            Ok(ExtractedContent { html_content: html, images })
        },
        ContentFormat::Unknown => Err(ExtractError::UnsupportedFormat),
    }
}

} // verus!
