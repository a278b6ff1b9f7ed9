//! The calls this library makes into other crates (regular expressions,
//! message digests, UUID and RFC 3339 parsing, zip archives), each behind a
//! small wrapper
//! whose contract names what the call returns. The library's own logic
//! around these calls is verified against those names.
use vstd::prelude::*;

use crate::ids::{hyphenated_form, simple_form};
use md5::Md5;
use sha1::Digest;
use sha1::Sha1;

verus! {

/// Whether `regex::Regex::new` accepts `pattern`.
pub uninterp spec fn regex_is_valid(pattern: Seq<char>) -> bool;

/// What `regex::Regex::is_match` answers for a (valid) `pattern` on `text`.
pub uninterp spec fn regex_finds(pattern: Seq<char>, text: Seq<char>) -> bool;

/// The capture groups (group 0 first; `None` for a group that did not take
/// part) of the leftmost match that `regex::Regex::captures` reports for a
/// (valid) `pattern` in `text`, or `None` when there is no match.
pub uninterp spec fn regex_captures_of(pattern: Seq<char>, text: Seq<char>) -> Option<
    Seq<Option<Seq<char>>>,
>;

/// The 16-byte MD5 digest of `data` (RFC 1321), as `md5::Md5` computes it.
pub uninterp spec fn md5_of(data: Seq<u8>) -> Seq<u8>;

/// The 20-byte SHA-1 digest of `data` (FIPS 180-4), as `sha1::Sha1`
/// computes it.
pub uninterp spec fn sha1_of(data: Seq<u8>) -> Seq<u8>;

/// The 16 bytes of the UUID that `uuid::Uuid::parse_str` reads from `text`,
/// or `None` when it rejects `text`.
pub uninterp spec fn uuid_parse_of(text: Seq<char>) -> Option<Seq<u8>>;

/// The instant (whole seconds since the Unix epoch, and the sub-second
/// nanoseconds) that `chrono::DateTime::parse_from_rfc3339` reads from
/// `text`, or `None` when it rejects `text`.
pub uninterp spec fn rfc3339_instant_of(text: Seq<char>) -> Option<(i64, u32)>;

/// The characters of each capture group, `None` kept for a group that did
/// not take part.
pub open spec fn capture_views(v: Seq<Option<String>>) -> Seq<Option<Seq<char>>> {
    v.map_values(
        |g: Option<String>|
            match g {
                Some(s) => Some(s@),
                None => None,
            },
    )
}

/// Calls `regex::Regex::new(pattern)` and, when it compiles, `is_match` on
/// `text`. Trusted: `None` exactly when the pattern does not compile,
/// otherwise the named match answer.
#[verifier::external_body]
pub(crate) fn regex_is_match(pattern: &str, text: &str) -> (r: Option<bool>)
    ensures
        r is Some <==> regex_is_valid(pattern@),
        r matches Some(b) ==> b == regex_finds(pattern@, text@),
{
    match regex::Regex::new(pattern) {
        Ok(re) => Some(re.is_match(text)),
        Err(_) => None,
    }
}

/// Calls `regex::Regex::new(pattern)` and reports whether it compiled.
/// Trusted: the answer is the named validity of `pattern`.
#[verifier::external_body]
pub(crate) fn regex_compiles(pattern: &str) -> (r: bool)
    ensures
        r == regex_is_valid(pattern@),
{
    regex::Regex::new(pattern).is_ok()
}

/// Calls `regex::Regex::new(pattern)` and, when it compiles, `captures` on
/// `text`, handing back every group's text. Trusted: `Some` exactly when the
/// pattern compiles and matches, holding the named groups.
#[verifier::external_body]
pub(crate) fn regex_first_captures(pattern: &str, text: &str) -> (r: Option<Vec<Option<String>>>)
    ensures
        r is Some <==> (regex_is_valid(pattern@) && regex_captures_of(pattern@, text@) is Some),
        r matches Some(v) ==> capture_views(v@) == regex_captures_of(pattern@, text@)->0,
{
    match regex::Regex::new(pattern) {
        Err(_) => None,
        Ok(re) => match re.captures(text) {
            None => None,
            Some(caps) => Some(caps.iter().map(|g| g.map(|m| m.as_str().to_string())).collect()),
        },
    }
}

/// Calls `md5::Md5::digest` on `data`. Trusted: the result is the named
/// digest of `data`.
#[verifier::external_body]
pub(crate) fn md5_digest(data: &[u8]) -> (r: [u8; 16])
    ensures
        r@ == md5_of(data@),
{
    Md5::digest(data).into()
}

/// Calls `sha1::Sha1::digest` on `data`. Trusted: the result is the named
/// digest of `data`.
#[verifier::external_body]
pub(crate) fn sha1_digest(data: &[u8]) -> (r: [u8; 20])
    ensures
        r@ == sha1_of(data@),
{
    Sha1::digest(data).into()
}

/// The bytes whose lower-case hyphenated or simple form `text` is, if any.
pub open spec fn generated_form_bytes(text: Seq<char>) -> Option<Seq<u8>> {
    if exists|b: Seq<u8>| b.len() == 16 && (text == hyphenated_form(b) || text == simple_form(b)) {
        Some(
            choose|b: Seq<u8>| b.len() == 16 && (text == hyphenated_form(b) || text == simple_form(b)),
        )
    } else {
        None
    }
}

/// Calls `uuid::Uuid::parse_str` on `text`. Trusted: `None` exactly when
/// the crate rejects `text`, otherwise the named 16 bytes; and, as the
/// crate documents that every form it generates parses back, the lower-case
/// hyphenated and simple forms of some bytes read back as those bytes.
#[verifier::external_body]
pub(crate) fn uuid_parse(text: &str) -> (r: Option<[u8; 16]>)
    ensures
        r is Some <==> uuid_parse_of(text@) is Some,
        r matches Some(b) ==> b@ == uuid_parse_of(text@)->0,
        generated_form_bytes(text@) is Some ==> r is Some && r->0@ == generated_form_bytes(text@)->0,
{
    match uuid::Uuid::parse_str(text) {
        Ok(u) => Some(*u.as_bytes()),
        Err(_) => None,
    }
}

/// Calls `chrono::DateTime::parse_from_rfc3339` on `text` and reads back
/// the instant as Unix seconds and sub-second nanoseconds. Trusted: `None`
/// exactly when chrono rejects `text`, otherwise the named instant.
#[verifier::external_body]
pub(crate) fn parse_rfc3339(text: &str) -> (r: Option<(i64, u32)>)
    ensures
        r == rfc3339_instant_of(text@),
{
    match chrono::DateTime::parse_from_rfc3339(text) {
        Ok(t) => Some((t.timestamp(), t.timestamp_subsec_nanos())),
        Err(_) => None,
    }
}

/// How many entries `zip::ZipArchive::new` finds in the archive `bytes`,
/// or the crate's message when it refuses the archive.
pub uninterp spec fn zip_entry_count_of(bytes: Seq<u8>) -> Result<usize, Seq<char>>;

/// The name and directory flag of entry `index` of the archive `bytes`, as
/// `ZipArchive::by_index` opens it, or the crate's message when the archive
/// or the entry cannot be opened.
pub uninterp spec fn zip_entry_header_of(bytes: Seq<u8>, index: usize) -> Result<(Seq<char>, bool), Seq<char>>;

/// The decompressed contents of entry `index` of the archive `bytes`, or
/// the message of the failure to open or read it.
pub uninterp spec fn zip_entry_data_of(bytes: Seq<u8>, index: usize) -> Result<Seq<u8>, Seq<char>>;

/// Opens `bytes` with `zip::ZipArchive::new` and reports its `len`.
/// Trusted: the result is the named count, or the named message.
#[verifier::external_body]
pub(crate) fn zip_entry_count(bytes: &[u8]) -> (r: Result<usize, String>)
    ensures
        match zip_entry_count_of(bytes@) {
            Ok(n) => r == Ok::<usize, String>(n),
            Err(m) => r matches Err(x) && x@ == m,
        },
{
    match zip::ZipArchive::new(std::io::Cursor::new(bytes)) {
        Ok(archive) => Ok(archive.len()),
        Err(e) => Err(e.to_string()),
    }
}

/// Opens `bytes` with `zip::ZipArchive::new` and entry `index` with
/// `by_index`, and reports its `name` and `is_dir`. Trusted: the result is
/// the named header, or the named message.
#[verifier::external_body]
pub(crate) fn zip_entry_header(bytes: &[u8], index: usize) -> (r: Result<(String, bool), String>)
    ensures
        match zip_entry_header_of(bytes@, index) {
            Ok((name, is_dir)) => r matches Ok((n, d)) && n@ == name && d == is_dir,
            Err(m) => r matches Err(x) && x@ == m,
        },
{
    let mut archive = zip::ZipArchive::new(std::io::Cursor::new(bytes)).map_err(|e| e.to_string())?;
    let entry = archive.by_index(index).map_err(|e| e.to_string())?;
    Ok((entry.name().to_string(), entry.is_dir()))
}

/// Opens `bytes` with `zip::ZipArchive::new`, entry `index` with
/// `by_index`, and reads it to the end. Trusted: the result is the named
/// contents, or the named message.
#[verifier::external_body]
pub(crate) fn zip_entry_data(bytes: &[u8], index: usize) -> (r: Result<Vec<u8>, String>)
    ensures
        match zip_entry_data_of(bytes@, index) {
            Ok(d) => r matches Ok(v) && v@ == d,
            Err(m) => r matches Err(x) && x@ == m,
        },
{
    let mut archive = zip::ZipArchive::new(std::io::Cursor::new(bytes)).map_err(|e| e.to_string())?;
    let mut entry = archive.by_index(index).map_err(|e| e.to_string())?;
    let mut data = Vec::new();
    std::io::Read::read_to_end(&mut entry, &mut data).map_err(|e| e.to_string())?;
    Ok(data)
}

} // verus!
