//! Outcomes: what holds of a reading as a whole, and of reading twice.

use crate::error::ErrorKind;
use crate::error::RosterError;
use crate::laws::documents::lemma_no_table_no_record;
use crate::markup::tokens_of;
use crate::markup::EventView;
use crate::markup::Token;
use crate::roster::events_outcome;
use crate::roster::file_outcome;
use crate::roster::outcome_of;
use crate::roster::reading_outcome;
use crate::roster::text_outcome;
use crate::roster::Roster;
use crate::scanner::scan;
use crate::source::MarkupScan;
use crate::table::TableView;
use vstd::prelude::*;

verus! {

/// Malformed markup is an error, whatever was read before it: no list of
/// tables, empty or not, is handed out in its place.
pub proof fn lemma_malformed_markup_is_an_error(reading: MarkupScan)
    requires
        reading.failed,
    ensures
        reading_outcome(reading) == Err::<Seq<TableView>, ErrorKind>(ErrorKind::Markup),
{
}

/// Events that end inside a table are an error: the open table is not
/// dropped in silence.
pub proof fn lemma_open_table_is_an_error(events: Seq<EventView>)
    requires
        scan(tokens_of(events)).opened is Some,
    ensures
        events_outcome(events) == Err::<Seq<TableView>, ErrorKind>(ErrorKind::UnterminatedTable),
{
}

/// Markup that is read to its end, and in which no table opens, has an empty
/// list of tables. The markup with no event at all is of this kind.
pub proof fn lemma_markup_without_tables(reading: MarkupScan)
    requires
        !reading.failed,
        !tokens_of(reading.events).contains(Token::TableStart),
    ensures
        reading_outcome(reading) == Ok::<Seq<TableView>, ErrorKind>(Seq::empty()),
{
    lemma_no_table_no_record(tokens_of(reading.events));
}

/// Finding the tables of the same events a second time gives what the first
/// time gave: the same tables, or an error of the same kind.
pub proof fn lemma_same_events_same_outcome(
    events: Seq<EventView>,
    first: Result<Roster, RosterError>,
    second: Result<Roster, RosterError>,
)
    requires
        outcome_of(first) == events_outcome(events),
        outcome_of(second) == events_outcome(events),
    ensures
        outcome_of(first) == outcome_of(second),
        first matches Ok(roster) ==> second is Ok && second->Ok_0@ == roster@,
        first matches Err(error) ==> second is Err && second->Err_0.kind() == error.kind(),
{
}

/// Reading the same text a second time gives what the first time gave: the
/// same tables, or an error of the same kind.
pub proof fn lemma_same_text_same_outcome(
    text: Seq<char>,
    first: Result<Roster, RosterError>,
    second: Result<Roster, RosterError>,
)
    requires
        outcome_of(first) == text_outcome(text),
        outcome_of(second) == text_outcome(text),
    ensures
        outcome_of(first) == outcome_of(second),
        first matches Ok(roster) ==> second is Ok && second->Ok_0@ == roster@,
        first matches Err(error) ==> second is Err && second->Err_0.kind() == error.kind(),
{
}

/// Reading the same file a second time gives what the first time gave: the
/// same tables, or an error of the same kind.
pub proof fn lemma_same_file_same_outcome(
    extension: Option<Seq<char>>,
    data: Seq<u8>,
    first: Result<Roster, RosterError>,
    second: Result<Roster, RosterError>,
)
    requires
        outcome_of(first) == file_outcome(extension, data),
        outcome_of(second) == file_outcome(extension, data),
    ensures
        outcome_of(first) == outcome_of(second),
        first matches Ok(roster) ==> second is Ok && second->Ok_0@ == roster@,
        first matches Err(error) ==> second is Err && second->Err_0.kind() == error.kind(),
{
}

/// Two rosters with the same view have the same structure: as many tables,
/// and table by table the same index, as many rows, and row by row as many
/// cells.
pub proof fn lemma_same_view_same_structure(first: Roster, second: Roster)
    requires
        first@ == second@,
    ensures
        first.tables@.len() == second.tables@.len(),
        forall|i: int|
            #![trigger first.tables@[i]]
            0 <= i < first.tables@.len() ==> {
                &&& first.tables@[i].index == second.tables@[i].index
                &&& first.tables@[i].rows@.len() == second.tables@[i].rows@.len()
                &&& first.tables@[i].stray_cells@.len() == second.tables@[i].stray_cells@.len()
                &&& forall|j: int|
                    #![trigger first.tables@[i].rows@[j]]
                    0 <= j < first.tables@[i].rows@.len() ==> first.tables@[i].rows@[j]@.len()
                        == second.tables@[i].rows@[j]@.len()
            },
{
    assert(first.tables@.len() == first@.len() && second.tables@.len() == second@.len());
    assert forall|i: int| #![trigger first.tables@[i]] 0 <= i < first.tables@.len() implies {
        &&& first.tables@[i].index == second.tables@[i].index
        &&& first.tables@[i].rows@.len() == second.tables@[i].rows@.len()
        &&& first.tables@[i].stray_cells@.len() == second.tables@[i].stray_cells@.len()
        &&& forall|j: int|
            #![trigger first.tables@[i].rows@[j]]
            0 <= j < first.tables@[i].rows@.len() ==> first.tables@[i].rows@[j]@.len()
                == second.tables@[i].rows@[j]@.len()
    } by {
        let a = first.tables@[i];
        let b = second.tables@[i];
        assert(a@ == first@[i] && b@ == second@[i]);
        assert(a@ == b@);
        assert(a.rows.deep_view().len() == b.rows.deep_view().len());
        assert(a.stray_cells.deep_view().len() == b.stray_cells.deep_view().len());
        assert forall|j: int| 0 <= j < a.rows@.len() implies a.rows@[j]@.len() == b.rows@[j]@.len() by {
            assert(a.rows.deep_view()[j] == b.rows.deep_view()[j]);
            assert(a.rows@[j].deep_view().len() == b.rows@[j].deep_view().len());
        }
    }
}

} // verus!
