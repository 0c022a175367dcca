//! The record of one table: its rows, and in each row a marker for every cell.

use crate::markup::CELL_TAG;
use vstd::prelude::*;

verus! {

/// The marker that a cell leaves in its row: the cell's tag name, as text.
pub open spec fn cell_marker() -> Seq<char> {
    CELL_TAG@
}

/// A row holding `cells` cell markers.
pub open spec fn row_of(cells: nat) -> Seq<Seq<char>> {
    Seq::new(cells, |i: int| cell_marker())
}

/// A table as the contracts see it.
pub struct TableView {
    /// The table's place among the tables of its document, counted from one.
    pub index: nat,
    /// The rows in document order; each holds one marker for each of its cells.
    pub rows: Seq<Seq<Seq<char>>>,
    /// The markers of the cells that opened before the table had any row.
    pub stray_cells: Seq<Seq<char>>,
}

impl TableView {
    /// Whether the table is one that a scan can find: it has a place among the
    /// tables, and each of its markers is the cell marker.
    pub open spec fn wf(self) -> bool {
        &&& self.index >= 1
        &&& forall|i: int, j: int|
            0 <= i < self.rows.len() && 0 <= j < self.rows[i].len() ==> #[trigger] self.rows[i][j]
                == cell_marker()
        &&& forall|j: int|
            0 <= j < self.stray_cells.len() ==> #[trigger] self.stray_cells[j] == cell_marker()
    }

    /// The table with this index in which nothing has opened yet.
    pub open spec fn empty(index: nat) -> TableView {
        TableView { index, rows: Seq::empty(), stray_cells: Seq::empty() }
    }

    /// The table after a row has opened: one more row, empty so far.
    pub open spec fn with_row(self) -> TableView {
        TableView { rows: self.rows.push(Seq::empty()), ..self }
    }

    /// The table after a cell has opened. The marker goes to the last row that
    /// opened; without a row it is set aside as stray, and no row changes.
    pub open spec fn with_cell(self) -> TableView {
        if self.rows.len() == 0 {
            TableView { stray_cells: self.stray_cells.push(cell_marker()), ..self }
        } else {
            TableView {
                rows: self.rows.update(self.rows.len() - 1, self.rows.last().push(cell_marker())),
                ..self
            }
        }
    }
}

/// One table found in a document.
#[derive(Clone, Debug, PartialEq, Eq)]
pub struct TableRecord {
    /// The table's place among the tables of its document, counted from one.
    pub index: usize,
    /// The rows in document order; each holds one marker for each of its cells.
    pub rows: Vec<Vec<String>>,
    /// The markers of the cells that opened before the table had any row. They
    /// belong to no row; a document that is put together well has none.
    pub stray_cells: Vec<String>,
}

impl View for TableRecord {
    type V = TableView;

    open spec fn view(&self) -> TableView {
        TableView {
            index: self.index as nat,
            rows: self.rows.deep_view(),
            stray_cells: self.stray_cells.deep_view(),
        }
    }
}

/// The views of a list of tables, in the same order.
pub open spec fn table_views(tables: Seq<TableRecord>) -> Seq<TableView> {
    tables.map_values(|table: TableRecord| table@)
}

} // verus!
