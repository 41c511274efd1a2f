//! Reading what a chapter archive says of itself.

use vstd::prelude::*;
use vstd::string::*;
use std::io::Read;
use crate::error::MdownError;

verus! {

/// What reading one entry of an archive gave.
#[derive(Debug)]
pub enum ArchiveEntry {
    /// The entry's text.
    Text(String),
    /// The archive has no entry of that name.
    Missing,
    /// The bytes are not a readable archive.
    Broken(zip::result::ZipError),
    /// The entry could not be read as text.
    Unreadable(std::io::Error),
}

/// The text that reading the entry `name` of the zip archive held in the bytes `archive`
/// gives: `Some` exactly when the bytes open as a zip archive, it has an entry of that name,
/// and the entry decompresses to valid UTF-8.
pub uninterp spec fn archive_text(archive: Seq<u8>, name: Seq<char>) -> Option<Seq<char>>;

/// `zip::ZipArchive::new` over the bytes, `by_name` and `read_to_string`: the read succeeds
/// exactly when [`archive_text`] is `Some`, and the text it gives is that text; which of the
/// three failures comes otherwise is not stated.
#[verifier::external_body]
fn read_archive_entry(archive: &[u8], name: &str) -> (r: ArchiveEntry)
    ensures
        (r is Text) == (archive_text(archive@, name@) is Some),
        r matches ArchiveEntry::Text(t) ==> archive_text(archive@, name@) == Some(t@),
{
    let mut zip = match zip::ZipArchive::new(std::io::Cursor::new(archive)) {
        Ok(z) => z,
        Err(e) => return ArchiveEntry::Broken(e),
    };
    let mut file = match zip.by_name(name) {
        Ok(f) => f,
        Err(_) => return ArchiveEntry::Missing,
    };
    let mut text = String::new();
    match file.read_to_string(&mut text) {
        Ok(_) => ArchiveEntry::Text(text),
        Err(e) => ArchiveEntry::Unreadable(e),
    }
}

/// The text of the `_metadata` entry of a chapter archive: it is returned whenever the
/// archive holds that entry as text; otherwise an unreadable archive is a `ZipError`
/// (10710), a missing entry a `NotFoundError` (10714), an entry that does not read as text
/// an `IoError` (10712).
pub fn check_for_metadata(archive: &[u8]) -> (r: Result<String, MdownError>)
    ensures
        (r is Ok) == (archive_text(archive@, "_metadata"@) is Some),
        archive_text(archive@, "_metadata"@) matches Some(t) ==> (r matches Ok(s) && s@ == t),
        r matches Ok(t) ==> archive_text(archive@, "_metadata"@) == Some(t@),
        r matches Err(e) ==> (e matches MdownError::ZipError(_, c) && c == 10710) || (e matches MdownError::NotFoundError(
            m,
            c,
        ) && m@ == "File '_metadata' not found in the zip archive"@ && c == 10714) || (e matches MdownError::IoError(
            _,
            p,
            c,
        ) && p@ == "_metadata"@ && c == 10712),
{
    match read_archive_entry(archive, "_metadata") {
        ArchiveEntry::Text(t) => Ok(t),
        ArchiveEntry::Missing => Err(
            MdownError::NotFoundError(String::from_str("File '_metadata' not found in the zip archive"), 10714),
        ),
        ArchiveEntry::Broken(e) => Err(MdownError::ZipError(e, 10710)),
        ArchiveEntry::Unreadable(e) => Err(MdownError::IoError(e, String::from_str("_metadata"), 10712)),
    }
}

} // verus!
