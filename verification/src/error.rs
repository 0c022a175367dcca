//! What can go wrong on the way from a file's bytes to its tables.

use core::str::Utf8Error;
use vstd::prelude::*;
use zip::result::InvalidPassword;
use zip::result::ZipError;

verus! {

/// The ways in which reading a roster fails.
#[derive(Clone, Copy, Debug, PartialEq, Eq)]
pub enum ErrorKind {
    /// The file's extension names no kind of roster.
    UnknownExtension,
    /// The archive could not be unpacked.
    Archive,
    /// The entry of the archive is locked.
    Locked,
    /// The file is no UTF-8 text.
    InvalidText,
    /// The markup is malformed.
    Markup,
    /// The input ended inside a table.
    UnterminatedTable,
}

/// A failure to read a roster, with the error of whoever found it.
#[derive(Debug)]
pub enum RosterError {
    /// The file's extension names no kind of roster.
    UnknownExtension,
    /// The archive could not be unpacked.
    Archive(ZipError),
    /// The entry of the archive is locked, and is not opened without its
    /// password.
    Locked(InvalidPassword),
    /// The file is no UTF-8 text.
    InvalidText(Utf8Error),
    /// The markup is malformed.
    Markup(quick_xml::Error),
    /// The input ended inside a table: one opened and did not close.
    UnterminatedTable,
}

impl RosterError {
    /// The way in which the reading failed.
    pub open spec fn spec_kind(&self) -> ErrorKind {
        match self {
            RosterError::UnknownExtension => ErrorKind::UnknownExtension,
            RosterError::Archive(_) => ErrorKind::Archive,
            RosterError::Locked(_) => ErrorKind::Locked,
            RosterError::InvalidText(_) => ErrorKind::InvalidText,
            RosterError::Markup(_) => ErrorKind::Markup,
            RosterError::UnterminatedTable => ErrorKind::UnterminatedTable,
        }
    }

    /// The way in which the reading failed.
    #[verifier::when_used_as_spec(spec_kind)]
    pub fn kind(&self) -> (kind: ErrorKind)
        ensures
            kind == self.spec_kind(),
    {
        match self {
            RosterError::UnknownExtension => ErrorKind::UnknownExtension,
            RosterError::Archive(_) => ErrorKind::Archive,
            RosterError::Locked(_) => ErrorKind::Locked,
            RosterError::InvalidText(_) => ErrorKind::InvalidText,
            RosterError::Markup(_) => ErrorKind::Markup,
            RosterError::UnterminatedTable => ErrorKind::UnterminatedTable,
        }
    }
}

} // verus!
