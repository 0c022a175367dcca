//! A roster, and the ways to read one.

use crate::archive::archive_entry;
use crate::archive::EntryView;
use crate::archive::read_entry_text;
use crate::error::ErrorKind;
use crate::error::RosterError;
use crate::markup::event_views;
use crate::markup::tokens_of;
use crate::markup::EventView;
use crate::markup::MarkupEvent;
use crate::markup::token_of;
use crate::scanner::lemma_run_keeps_wf;
use crate::scanner::lemma_run_push;
use crate::scanner::scan;
use crate::scanner::ScanView;
use crate::scanner::TableScanner;
use crate::source::markup_scan;
use crate::source::next_event;
use crate::source::open_reader;
use crate::source::pending;
use crate::source::MarkupScan;
use crate::table::table_views;
use crate::table::TableRecord;
use crate::table::TableView;
use crate::text::same_text;
use crate::text::text_of;
use vstd::prelude::*;
use vstd::utf8::*;

verus! {

/// What was read of a roster: the tables of its document, in document order.
#[derive(Clone, Debug, PartialEq, Eq)]
pub struct Roster {
    pub tables: Vec<TableRecord>,
}

impl View for Roster {
    type V = Seq<TableView>;

    open spec fn view(&self) -> Seq<TableView> {
        table_views(self.tables@)
    }
}

/// Whether these are the tables of one document: numbered from one in their
/// order, and each of them well formed.
pub open spec fn well_formed(tables: Seq<TableView>) -> bool {
    forall|i: int| 0 <= i < tables.len() ==> (#[trigger] tables[i]).wf() && tables[i].index == i + 1
}

/// What an attempt to read a roster came to, as the contracts see it: the
/// tables, or the way in which it failed.
pub open spec fn outcome_of(res: Result<Roster, RosterError>) -> Result<Seq<TableView>, ErrorKind> {
    match res {
        Ok(roster) => Ok(roster@),
        Err(error) => Err(error.kind()),
    }
}

/// The extension of a file that holds a roster as plain text.
pub const PLAIN_EXTENSION: &'static str = "ros";

/// The extension of a file that holds a roster inside an archive.
pub const ZIPPED_EXTENSION: &'static str = "rosz";

/// The entry of an archive that holds the roster's text: the first one.
pub const ROSTER_ENTRY: usize = 0;

/// The password that an archive is opened with: none, the empty one.
pub open spec fn no_password() -> Seq<u8> {
    Seq::empty()
}

/// How a file holds its roster.
#[derive(Clone, Copy, Debug, PartialEq, Eq)]
pub enum RosterFormat {
    /// The file is the roster's text.
    Plain,
    /// The file is a zip archive, and its first entry is the roster's text.
    Zipped,
}

/// The characters of an extension, where a file has one.
pub open spec fn extension_view(extension: Option<&str>) -> Option<Seq<char>> {
    match extension {
        Some(extension) => Some(extension@),
        None => None,
    }
}

impl RosterFormat {
    /// The format that an extension stands for. Letters count as they are
    /// written: no other spelling of the two extensions stands for a format.
    pub open spec fn of(extension: Option<Seq<char>>) -> Option<RosterFormat> {
        match extension {
            Some(extension) => {
                if extension == ZIPPED_EXTENSION@ {
                    Some(RosterFormat::Zipped)
                } else if extension == PLAIN_EXTENSION@ {
                    Some(RosterFormat::Plain)
                } else {
                    None
                }
            },
            None => None,
        }
    }

    /// Tells from the extension of a file's name how the file holds its
    /// roster, before anything of the file is read.
    pub fn from_extension(extension: Option<&str>) -> (format: Option<RosterFormat>)
        ensures
            format == RosterFormat::of(extension_view(extension)),
    {
        match extension {
            Some(extension) => {
                if same_text(extension, ZIPPED_EXTENSION) {
                    Some(RosterFormat::Zipped)
                } else if same_text(extension, PLAIN_EXTENSION) {
                    Some(RosterFormat::Plain)
                } else {
                    None
                }
            },
            None => None,
        }
    }
}

/// What the events of a document come to: its tables, or the error of a table
/// that is open when the events end.
pub open spec fn events_outcome(events: Seq<EventView>) -> Result<Seq<TableView>, ErrorKind> {
    scan(tokens_of(events)).tables()
}

/// What a reading of markup comes to. Malformed markup is an error, whatever
/// was read before it; a reading that came to the end of the input gives what
/// its events come to.
pub open spec fn reading_outcome(reading: MarkupScan) -> Result<Seq<TableView>, ErrorKind> {
    if reading.failed {
        Err(ErrorKind::Markup)
    } else {
        events_outcome(reading.events)
    }
}

/// What the text of a roster comes to, read as markup with the text between
/// the elements trimmed.
pub open spec fn text_outcome(text: Seq<char>) -> Result<Seq<TableView>, ErrorKind> {
    reading_outcome(markup_scan(text, true))
}

/// What a file comes to, given the extension of its name and the bytes it
/// holds.
pub open spec fn file_outcome(extension: Option<Seq<char>>, data: Seq<u8>) -> Result<
    Seq<TableView>,
    ErrorKind,
> {
    match RosterFormat::of(extension) {
        None => Err(ErrorKind::UnknownExtension),
        Some(RosterFormat::Plain) => {
            if valid_utf8(data) {
                text_outcome(decode_utf8(data))
            } else {
                Err(ErrorKind::InvalidText)
            }
        },
        Some(RosterFormat::Zipped) => {
            match archive_entry(data, ROSTER_ENTRY, no_password()) {
                EntryView::Text(text) => text_outcome(text),
                EntryView::Locked => Err(ErrorKind::Locked),
                EntryView::Unreadable => Err(ErrorKind::Archive),
            }
        },
    }
}

/// The tables that the events of a document come to are well formed.
pub proof fn lemma_events_outcome_is_well_formed(events: Seq<EventView>)
    ensures
        events_outcome(events) matches Ok(tables) ==> well_formed(tables),
{
    lemma_run_keeps_wf(ScanView::start(), tokens_of(events));
}

impl Roster {
    /// Whether the roster holds the tables of one document: numbered from one
    /// in their order, and with no marker but the cell marker.
    pub open spec fn wf(&self) -> bool {
        well_formed(self@)
    }

    /// Finds the tables in a list of markup events.
    ///
    /// A table that is still open where the events end is an error.
    pub fn from_events(events: &[MarkupEvent]) -> (res: Result<Roster, RosterError>)
        ensures
            outcome_of(res) == events_outcome(event_views(events@)),
            res matches Ok(roster) ==> roster.wf(),
    {
        proof {
            lemma_events_outcome_is_well_formed(event_views(events@));
        }
        let mut scanner = TableScanner::new();
        let mut i: usize = 0;
        while i < events.len()
            invariant
                i <= events.len(),
                scanner@ == scan(tokens_of(event_views(events@.take(i as int)))),
            decreases events.len() - i,
        {
            scanner.step(events[i].token());
            proof {
                let seen = events@.take(i as int);
                assert(events@.take(i + 1) =~= seen.push(events@[i as int]));
                assert(tokens_of(event_views(seen.push(events@[i as int]))) =~= tokens_of(
                    event_views(seen),
                ).push(token_of(events@[i as int]@)));
                lemma_run_push(
                    ScanView::start(),
                    tokens_of(event_views(seen)),
                    token_of(events@[i as int]@),
                );
            }
            i += 1;
        }
        assert(events@.take(i as int) =~= events@);
        scanner.finish()
    }

    /// Reads the text of a roster as markup and finds its tables.
    ///
    /// Malformed markup is an error, and so is a table that is still open
    /// where the text ends. A cell that opens in a table before any row is no
    /// error: it is set aside in the table's stray cells.
    pub fn from_str(contents: &str) -> (res: Result<Roster, RosterError>)
        ensures
            outcome_of(res) == text_outcome(contents@),
            res matches Ok(roster) ==> roster.wf(),
    {
        let mut reader = open_reader(contents, true);
        let mut scratch: Vec<u8> = Vec::new();
        let mut scanner = TableScanner::new();
        let ghost whole = markup_scan(contents@, true);
        let ghost mut read: Seq<EventView> = Seq::empty();
        assert(read + whole.events =~= whole.events);
        loop
            invariant
                whole == markup_scan(contents@, true),
                read + pending(reader).events == whole.events,
                pending(reader).failed == whole.failed,
                scanner@ == scan(tokens_of(read)),
            decreases pending(reader).events.len(),
        {
            let ghost before = pending(reader).events;
            scratch.clear();
            match next_event(&mut reader, &mut scratch) {
                Err(error) => {
                    return Err(RosterError::Markup(error));
                },
                Ok(None) => {
                    proof {
                        assert(read =~= whole.events);
                        lemma_events_outcome_is_well_formed(read);
                    }
                    return scanner.finish();
                },
                Ok(Some(event)) => {
                    scanner.step(event.token());
                    proof {
                        assert(read.push(event@) + before.drop_first() =~= read + before);
                        assert(tokens_of(read.push(event@)) =~= tokens_of(read).push(
                            token_of(event@),
                        ));
                        lemma_run_push(
                            ScanView::start(),
                            tokens_of(read),
                            token_of(event@),
                        );
                        read = read.push(event@);
                    }
                },
            }
        }
    }

    /// Reads a roster out of what a file holds. `extension` is the extension
    /// of the file's name, where it has one, and `data` the bytes of the file.
    ///
    /// The extension tells how the file holds the roster: as its text, or as
    /// the first entry of an archive. With any other extension, or none, the
    /// file is refused and `data` is not looked at. An archive is opened
    /// without a password; an entry that needs one is refused.
    pub fn from_file(extension: Option<&str>, data: &[u8]) -> (res: Result<Roster, RosterError>)
        ensures
            outcome_of(res) == file_outcome(extension_view(extension), data@),
            res matches Ok(roster) ==> roster.wf(),
    {
        match RosterFormat::from_extension(extension) {
            None => Err(RosterError::UnknownExtension),
            Some(RosterFormat::Plain) => {
                match text_of(data) {
                    Ok(text) => {
                        proof {
                            encode_utf8_decode_utf8(text@);
                        }
                        Roster::from_str(text)
                    },
                    Err(error) => Err(RosterError::InvalidText(error)),
                }
            },
            Some(RosterFormat::Zipped) => {
                let password: Vec<u8> = Vec::new();
                match read_entry_text(data, ROSTER_ENTRY, password.as_slice()) {
                    Ok(Ok(text)) => Roster::from_str(text.as_str()),
                    Ok(Err(locked)) => Err(RosterError::Locked(locked)),
                    Err(error) => Err(RosterError::Archive(error)),
                }
            },
        }
    }
}

} // verus!
