//! The scan for tables. It goes through the tokens of a document once and is
//! in one of two states: outside every table, or inside the one that is open.

use crate::error::ErrorKind;
use crate::error::RosterError;
use crate::markup::Token;
use crate::markup::CELL_TAG;
use crate::roster::outcome_of;
use crate::roster::Roster;
use crate::table::table_views;
use crate::table::TableRecord;
use crate::table::TableView;
use vstd::prelude::*;

verus! {

/// The state of a scan as the contracts see it.
pub struct ScanView {
    /// The tables that have closed, in document order.
    pub finished: Seq<TableView>,
    /// The table that has opened and not closed yet, if there is one.
    pub opened: Option<TableView>,
}

impl ScanView {
    /// Whether the state is one that a scan can be in: its tables are numbered
    /// from one in their order, the open table after the finished ones, and
    /// each of them is well formed.
    pub open spec fn wf(self) -> bool {
        &&& forall|i: int|
            0 <= i < self.finished.len() ==> (#[trigger] self.finished[i]).wf()
                && self.finished[i].index == i + 1
        &&& self.opened matches Some(table) ==> table.wf() && table.index == self.finished.len() + 1
    }

    /// The state before the first token: no table found, none open.
    pub open spec fn start() -> ScanView {
        ScanView { finished: Seq::empty(), opened: None }
    }

    /// The state after one more token.
    ///
    /// Outside a table only the start of a table counts: it opens the table
    /// that follows the finished ones. Inside a table a row or a cell that
    /// opens is added to it, and the end of a table closes it, which makes it
    /// the last of the finished ones. Everything else is passed over, the
    /// start of a table inside a table too.
    pub open spec fn step(self, token: Token) -> ScanView {
        match self.opened {
            None => {
                if token == Token::TableStart {
                    ScanView { opened: Some(TableView::empty(self.finished.len() + 1)), ..self }
                } else {
                    self
                }
            },
            Some(table) => {
                match token {
                    Token::RowStart => ScanView { opened: Some(table.with_row()), ..self },
                    Token::CellStart => ScanView { opened: Some(table.with_cell()), ..self },
                    Token::TableEnd => ScanView { finished: self.finished.push(table), opened: None },
                    _ => self,
                }
            },
        }
    }

    /// The state after the tokens `tokens`, taken in order.
    pub open spec fn run(self, tokens: Seq<Token>) -> ScanView
        decreases tokens.len(),
    {
        if tokens.len() == 0 {
            self
        } else {
            self.run(tokens.drop_last()).step(tokens.last())
        }
    }

    /// What the scan has found when the input ends in this state: the finished
    /// tables, unless a table is still open.
    pub open spec fn tables(self) -> Result<Seq<TableView>, ErrorKind> {
        if self.opened is Some {
            Err(ErrorKind::UnterminatedTable)
        } else {
            Ok(self.finished)
        }
    }
}

/// The state of a scan that has gone through `tokens` from the start.
pub open spec fn scan(tokens: Seq<Token>) -> ScanView {
    ScanView::start().run(tokens)
}

/// A scan that starts in a well-formed state stays in one.
pub proof fn lemma_run_keeps_wf(state: ScanView, tokens: Seq<Token>)
    requires
        state.wf(),
    ensures
        state.run(tokens).wf(),
    decreases tokens.len(),
{
    if tokens.len() > 0 {
        lemma_run_keeps_wf(state, tokens.drop_last());
    }
}

/// One more token at the end of the input is one more step of the scan.
pub proof fn lemma_run_push(state: ScanView, tokens: Seq<Token>, token: Token)
    ensures
        state.run(tokens.push(token)) == state.run(tokens).step(token),
{
    assert(tokens.push(token).drop_last() =~= tokens);
}

/// The table that has opened and not closed yet. It holds what a record
/// holds, but for the index, which the table gets when it closes.
struct OpenTable {
    rows: Vec<Vec<String>>,
    stray_cells: Vec<String>,
}

impl OpenTable {
    /// The table as the contracts see it, once it has the index `index`.
    spec fn view_at(&self, index: nat) -> TableView {
        TableView {
            index,
            rows: self.rows.deep_view(),
            stray_cells: self.stray_cells.deep_view(),
        }
    }

    /// A table in which nothing has opened yet.
    fn new() -> (table: OpenTable)
        ensures
            forall|index: nat| table.view_at(index) == TableView::empty(index),
    {
        let table = OpenTable { rows: Vec::new(), stray_cells: Vec::new() };
        assert(table.rows.deep_view() =~= Seq::empty());
        assert(table.stray_cells.deep_view() =~= Seq::empty());
        table
    }

    /// Opens a row: one more row, empty so far.
    fn add_row(&mut self)
        ensures
            forall|index: nat| final(self).view_at(index) == old(self).view_at(index).with_row(),
    {
        self.rows.push(Vec::new());
        assert(self.rows.deep_view() =~~= old(self).rows.deep_view().push(Seq::empty()));
    }

    /// Puts the marker of a cell into the last row. A cell that opens before
    /// any row has no row to go to: its marker is set aside.
    fn add_cell(&mut self)
        ensures
            forall|index: nat| final(self).view_at(index) == old(self).view_at(index).with_cell(),
    {
        let marker = CELL_TAG.to_owned();
        match self.rows.last_mut() {
            Some(row) => {
                row.push(marker);
            },
            None => {
                self.stray_cells.push(marker);
            },
        }
        proof {
            let last: int = old(self).rows@.len() - 1;
            if last >= 0 {
                assert(self.rows@.len() == old(self).rows@.len());
                assert(self.rows@[last]@ == old(self).rows@[last]@.push(marker));
                assert(self.rows@[last].deep_view() =~= old(self).rows@[last].deep_view().push(
                    CELL_TAG@,
                ));
                assert(self.rows.deep_view() =~= old(self).rows.deep_view().update(
                    last,
                    old(self).rows.deep_view().last().push(CELL_TAG@),
                ));
            } else {
                assert(self.rows@ =~= old(self).rows@);
                assert(self.stray_cells.deep_view() =~= old(self).stray_cells.deep_view().push(
                    CELL_TAG@,
                ));
            }
        }
    }
}

/// Finds the tables of a document, one token at a time.
pub struct TableScanner {
    finished: Vec<TableRecord>,
    opened: Option<OpenTable>,
}

impl View for TableScanner {
    type V = ScanView;

    closed spec fn view(&self) -> ScanView {
        ScanView {
            finished: table_views(self.finished@),
            opened: match self.opened {
                Some(table) => Some(table.view_at(self.finished@.len() + 1)),
                None => None,
            },
        }
    }
}

impl TableScanner {
    /// A scanner that has seen nothing yet.
    pub fn new() -> (scanner: TableScanner)
        ensures
            scanner@ == ScanView::start(),
    {
        let scanner = TableScanner { finished: Vec::new(), opened: None };
        assert(table_views(scanner.finished@) =~= Seq::empty());
        scanner
    }

    /// Takes the next token of the document.
    pub fn step(&mut self, token: Token)
        ensures
            final(self)@ == old(self)@.step(token),
    {
        match token {
            Token::TableStart => {
                if self.opened.is_none() {
                    self.opened = Some(OpenTable::new());
                }
            },
            Token::RowStart => {
                if let Some(table) = &mut self.opened {
                    table.add_row();
                }
            },
            Token::CellStart => {
                if let Some(table) = &mut self.opened {
                    table.add_cell();
                }
            },
            Token::TableEnd => {
                if let Some(table) = self.opened.take() {
                    self.close(table);
                }
            },
            Token::Other => {},
        }
    }

    /// Makes `table` the last of the finished tables.
    fn close(&mut self, table: OpenTable)
        requires
            old(self).opened is None,
        ensures
            final(self).opened is None,
            table_views(final(self).finished@) == table_views(old(self).finished@).push(
                table.view_at(old(self).finished@.len() + 1),
            ),
    {
        let record = TableRecord { index: 0, rows: table.rows, stray_cells: table.stray_cells };
        self.finished.push(record);
        // A table's index is its place in the list, counted from one: the
        // length of the list that now holds it.
        let index: usize = self.finished.len();
        self.finished[index - 1].index = index;
        assert(table_views(self.finished@) =~= table_views(old(self).finished@).push(
            table.view_at(old(self).finished@.len() + 1),
        ));
    }

    /// Ends the scan at the end of the input, and hands over what it found: the
    /// tables that closed, or an error where a table is still open.
    pub fn finish(self) -> (res: Result<Roster, RosterError>)
        ensures
            outcome_of(res) == self@.tables(),
    {
        if self.opened.is_some() {
            Err(RosterError::UnterminatedTable)
        } else {
            Ok(Roster { tables: self.finished })
        }
    }
}

} // verus!
