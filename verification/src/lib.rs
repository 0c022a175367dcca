//! Reads tabletop-game rosters: documents of word-processor markup, held as
//! plain text or inside a one-file archive, and finds the tables in them.
//!
//! The tables of a document are found by [`TableScanner`], a small state
//! machine over the document's markup events. [`Roster::from_str`] feeds it the
//! events of a text, [`Roster::from_events`] those of a list, and
//! [`Roster::from_file`] unpacks a file's bytes first.
//!
//! Two things in a document are out of order and still have their place. A
//! cell that opens in a table before any row belongs to no row: its marker is
//! set aside in [`TableRecord::stray_cells`], and the rows are as if the cell
//! were not there. A table that opens and does not close before the input
//! ends makes the reading an error, [`RosterError::UnterminatedTable`]: no
//! part of the document is handed out in its place. A table inside a table is
//! not told apart from the table around it.
//!
//! Everything here is verified but for three things that other crates do:
//! reading markup (`quick-xml`, in [`source`]), unpacking an archive (`zip`,
//! in [`archive`]) and checking that bytes are UTF-8 text (`core`, in
//! [`text`]). What is assumed of them is written down where they are called.
//! The module [`laws`] holds what is proved of every scan.

pub mod archive;
pub mod error;
pub mod laws;
pub mod markup;
pub mod roster;
pub mod scanner;
pub mod source;
pub mod table;
pub mod text;

pub use error::ErrorKind;
pub use error::RosterError;
pub use markup::MarkupEvent;
pub use markup::Token;
pub use roster::Roster;
pub use roster::RosterFormat;
pub use scanner::TableScanner;
pub use table::TableRecord;
