//! Where an archive gives up its text. The unpacking is done by `zip`; what
//! this module says of it is taken on trust, not proved.

use vstd::prelude::*;
use zip::result::InvalidPassword;
use zip::result::ZipError;

verus! {

/// `zip::result::ZipError`, the error of unpacking. It is carried through as
/// it is.
#[verifier::external_type_specification]
#[verifier::external_body]
pub struct ExArchiveError(ZipError);

/// `zip::result::InvalidPassword`, what `zip` answers where an entry is
/// locked and the password does not open it. It is carried through as it is.
#[verifier::external_type_specification]
#[verifier::external_body]
pub struct ExInvalidPassword(InvalidPassword);

/// What unpacking one entry of an archive comes to.
pub enum EntryView {
    /// The entry was unpacked, and this is its text.
    Text(Seq<char>),
    /// The entry is locked, and the password does not open it.
    Locked,
    /// The archive or the entry could not be read, or the entry is no UTF-8
    /// text.
    Unreadable,
}

/// What `zip` makes of entry number `index` (counted from zero) of the zip
/// archive that the bytes `archive` make up, opened with the password
/// `password`: the entry's text, where it can read the archive, finds the
/// entry, can open it, unpacks it whole and the result is UTF-8 text; and
/// else which of the two ways it failed in. The password counts only for an
/// entry that is marked as encrypted.
pub uninterp spec fn archive_entry(archive: Seq<u8>, index: usize, password: Seq<u8>) -> EntryView;

/// Opens the archive held in memory with `ZipArchive::new`, takes the entry
/// with `ZipArchive::by_index_decrypt` and reads it to its end as text,
/// through the entry's `Read::read_to_string`.
///
/// The outer error is the first error of the three, one of reading as
/// `ZipError::Io`. The inner error is that of `by_index_decrypt`: the entry is
/// locked, and `password` does not open it. Like every allocation, the
/// unpacking can run out of memory; the contract does not speak of that.
#[verifier::external_body]
pub(crate) fn read_entry_text(archive: &[u8], index: usize, password: &[u8]) -> (res: Result<
    Result<String, InvalidPassword>,
    ZipError,
>)
    ensures
        match res {
            Ok(Ok(text)) => archive_entry(archive@, index, password@) == EntryView::Text(text@),
            Ok(Err(_)) => archive_entry(archive@, index, password@) == EntryView::Locked,
            Err(_) => archive_entry(archive@, index, password@) == EntryView::Unreadable,
        },
{
    let mut entries = zip::ZipArchive::new(std::io::Cursor::new(archive))?;
    let mut entry = match entries.by_index_decrypt(index, password)? {
        Ok(entry) => entry,
        Err(locked) => return Ok(Err(locked)),
    };
    let mut text = String::new();
    std::io::Read::read_to_string(&mut entry, &mut text)?;
    Ok(Ok(text))
}

} // verus!
