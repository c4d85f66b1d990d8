//! Archive access: the trusted boundary around the `zip` decoder.
//!
//! Both manuscript formats are ZIP containers.  Everything the decoder
//! computes from a byte blob — whether it parses, how many members it has,
//! each member's name and decompressed contents — is a pure function of the
//! bytes, so those results are given names below and every wrapper's
//! contract is stated over the names.  A reader is freshly constructed from
//! the shared immutable bytes on every access, so no decoder handle ever
//! outlives one call.

use vstd::prelude::*;
use vstd::utf8::{valid_utf8, decode_utf8};

verus! {

/// Whether the bytes open as a ZIP archive (central-directory parse).
pub uninterp spec fn zip_parses(b: Seq<u8>) -> bool;

/// How many members the archive holds, in central-directory order.
pub uninterp spec fn zip_entry_count(b: Seq<u8>) -> nat;

/// The name of member `i`, or `None` where the member cannot be opened
/// (for instance an encrypted entry).
pub uninterp spec fn zip_entry_name(b: Seq<u8>, i: int) -> Option<Seq<char>>;

/// The decompressed contents of member `i`, or `None` where opening or
/// decompressing it fails.
pub uninterp spec fn zip_entry_data(b: Seq<u8>, i: int) -> Option<Seq<u8>>;

/// Relies on `zip::ZipArchive::new` and `ZipArchive::len`: parsing the
/// central directory of fixed bytes either fails or yields a fixed number
/// of members; both outcomes depend on the bytes alone.
#[verifier::external_body]
pub(crate) fn zip_open_len(bytes: &[u8]) -> (r: Option<usize>)
    ensures
        r is Some <==> zip_parses(bytes@),
        r matches Some(n) ==> n as nat == zip_entry_count(bytes@),
{
    match zip::ZipArchive::new(std::io::Cursor::new(bytes)) {
        Ok(a) => Some(a.len()),
        Err(_) => None,
    }
}

/// Relies on `zip::ZipArchive::by_index` and `ZipFile::name`: member `i` of
/// a parsed archive either cannot be opened or carries a fixed name; both
/// outcomes depend on the bytes alone.
#[verifier::external_body]
pub(crate) fn zip_name_at(bytes: &[u8], i: usize) -> (r: Option<String>)
    requires
        zip_parses(bytes@),
        i < zip_entry_count(bytes@),
    ensures
        r matches Some(s) ==> zip_entry_name(bytes@, i as int) == Some(s@),
        r is None ==> zip_entry_name(bytes@, i as int) is None,
{
    let mut a = zip::ZipArchive::new(std::io::Cursor::new(bytes)).ok()?;
    let f = a.by_index(i).ok()?;
    Some(f.name().to_string())
}

/// Relies on `zip::ZipArchive::by_index` and `std::io::Read::read_to_end`:
/// decompressing member `i` of a parsed archive either fails or yields
/// fixed contents; both outcomes depend on the bytes alone.
#[verifier::external_body]
pub(crate) fn zip_data_at(bytes: &[u8], i: usize) -> (r: Option<Vec<u8>>)
    requires
        zip_parses(bytes@),
        i < zip_entry_count(bytes@),
    ensures
        r matches Some(v) ==> zip_entry_data(bytes@, i as int) == Some(v@),
        r is None ==> zip_entry_data(bytes@, i as int) is None,
{
    let mut a = zip::ZipArchive::new(std::io::Cursor::new(bytes)).ok()?;
    let mut f = a.by_index(i).ok()?;
    let mut buf: Vec<u8> = Vec::new();
    std::io::Read::read_to_end(&mut f, &mut buf).ok()?;
    Some(buf)
}

/// Relies on `String::from_utf8`: it succeeds exactly on valid UTF-8 input
/// and decodes it to the corresponding characters.
#[verifier::external_body]
pub(crate) fn bytes_to_utf8(v: Vec<u8>) -> (r: Option<String>)
    ensures
        r is Some <==> valid_utf8(v@),
        r matches Some(s) ==> s@ == decode_utf8(v@),
{
    String::from_utf8(v).ok()
}

/// What `mime_guess` derives from a file path; a pure lookup on the path's
/// extension.
pub uninterp spec fn mime_of(name: Seq<char>) -> Seq<char>;

/// Relies on `mime_guess::from_path` and `first_or_octet_stream`: the
/// guessed content type depends on the path alone.
#[verifier::external_body]
pub(crate) fn mime_for_path(name: &str) -> (r: String)
    ensures
        r@ == mime_of(name@),
{
    mime_guess::from_path(name).first_or_octet_stream().to_string()
}

} // verus!
