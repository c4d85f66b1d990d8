//! Format sniffing: which container a byte blob really is.
//!
//! The verdict is derived purely from the bytes — never from a filename or
//! a client-declared type.  Both formats are ZIP archives, so after the
//! local-file-header signature check the member names decide: an EPUB
//! carries a `mimetype` member or an OCF container descriptor, a DOCX
//! carries the OOXML content-types part or the main document part.

use vstd::prelude::*;
use crate::archive::{zip_parses, zip_entry_count, zip_entry_name, zip_open_len, zip_name_at};
use crate::strutil::{ascii_lower, contains_sub, to_lower, str_to_chars, eq_chars, contains_pat};

verus! {

/// The containers the extractor understands.
#[derive(Debug, Clone, Copy, PartialEq, Eq, Structural)]
pub enum ContentFormat {
    Epub,
    Docx,
    Unknown,
}

/// The verdict a single member name casts, if any: EPUB markers win over
/// DOCX markers, and the comparison ignores ASCII case.
pub open spec fn name_verdict(name: Seq<char>) -> Option<ContentFormat> {
    let l = ascii_lower(name);
    if l == "mimetype"@ || contains_sub(l, "meta-inf/container.xml"@) {
        Some(ContentFormat::Epub)
    } else if contains_sub(l, "[content_types].xml"@) || contains_sub(l, "word/document.xml"@) {
        Some(ContentFormat::Docx)
    } else {
        None
    }
}

/// The first verdict cast by the members from index `i` on; members that
/// cannot be opened are passed over.
pub open spec fn scan_verdict(b: Seq<u8>, i: int) -> ContentFormat
    decreases zip_entry_count(b) - i,
{
    if i < 0 || i >= zip_entry_count(b) {
        ContentFormat::Unknown
    } else {
        match zip_entry_name(b, i) {
            Some(name) => match name_verdict(name) {
                Some(f) => f,
                None => scan_verdict(b, i + 1),
            },
            None => scan_verdict(b, i + 1),
        }
    }
}

/// The ZIP local-file-header signature opens the blob.
pub open spec fn has_zip_signature(b: Seq<u8>) -> bool {
    b.len() >= 4 && b[0] == 0x50u8 && b[1] == 0x4bu8 && b[2] == 0x03u8 && b[3] == 0x04u8
}

/// The format of a byte blob: `Unknown` unless the blob carries the ZIP
/// signature, parses as an archive, and a member name casts a verdict.
pub open spec fn spec_detect(b: Seq<u8>) -> ContentFormat {
    if !has_zip_signature(b) {
        ContentFormat::Unknown
    } else if !zip_parses(b) {
        ContentFormat::Unknown
    } else {
        scan_verdict(b, 0)
    }
}

/// Detects the container format from the bytes alone.  Blobs shorter than
/// four bytes, blobs without the ZIP signature, and blobs that do not open
/// as an archive are all `Unknown`; the call never fails.
pub fn detect_format(bytes: &[u8]) -> (r: ContentFormat)
    ensures
        r == spec_detect(bytes@),
{
    if bytes.len() < 4 {
        return ContentFormat::Unknown;
    }
    if !(bytes[0] == 0x50 && bytes[1] == 0x4b && bytes[2] == 0x03 && bytes[3] == 0x04) {
        return ContentFormat::Unknown;
    }
    let count = match zip_open_len(bytes) {
        None => {
            return ContentFormat::Unknown;
        },
        Some(n) => n,
    };
    let mimetype_pat = str_to_chars("mimetype");
    let container_pat = str_to_chars("meta-inf/container.xml");
    let types_pat = str_to_chars("[content_types].xml");
    let document_pat = str_to_chars("word/document.xml");
    let mut i: usize = 0;
    while i < count
        invariant
            i <= count,
            count == zip_entry_count(bytes@),
            zip_parses(bytes@),
            has_zip_signature(bytes@),
            mimetype_pat@ == "mimetype"@,
            container_pat@ == "meta-inf/container.xml"@,
            types_pat@ == "[content_types].xml"@,
            document_pat@ == "word/document.xml"@,
            scan_verdict(bytes@, 0) == scan_verdict(bytes@, i as int),
        decreases count - i,
    {
        match zip_name_at(bytes, i) {
            None => {},
            Some(name) => {
                let chars = str_to_chars(name.as_str());
                let l = to_lower(&chars);
                if eq_chars(&l, &mimetype_pat) || contains_pat(&l, &container_pat) {
                    proof {
                        assert(name_verdict(name@) == Some(ContentFormat::Epub));
                        assert(scan_verdict(bytes@, i as int) == ContentFormat::Epub);
                    }
                    return ContentFormat::Epub;
                }
                if contains_pat(&l, &types_pat) || contains_pat(&l, &document_pat) {
                    proof {
                        assert(name_verdict(name@) == Some(ContentFormat::Docx));
                        assert(scan_verdict(bytes@, i as int) == ContentFormat::Docx);
                    }
                    return ContentFormat::Docx;
                }
            },
        }
        i += 1;
    }
    ContentFormat::Unknown
}

} // verus!
