//! Rows: what a table holds, told by the rows that open in its element.
//!
//! The body of a table element is taken apart as what stands before the first
//! row, and for each row what follows its start.

use crate::laws::lemma_absent_with_another;
use crate::laws::lemma_absent_without_last;
use crate::markup::token_of;
use crate::markup::EventView;
use crate::markup::Token;
use crate::table::cell_marker;
use crate::table::row_of;
use crate::table::TableView;
use vstd::prelude::*;
use vstd::utf8::*;

verus! {

/// How often `token` occurs in `tokens`.
pub open spec fn count(tokens: Seq<Token>, token: Token) -> nat
    decreases tokens.len(),
{
    if tokens.len() == 0 {
        0
    } else {
        count(tokens.drop_last(), token) + if tokens.last() == token {
            1nat
        } else {
            0nat
        }
    }
}

/// The table `table` after the rows and cells that open in `body`.
pub open spec fn table_after(table: TableView, body: Seq<Token>) -> TableView
    decreases body.len(),
{
    if body.len() == 0 {
        table
    } else {
        let before = table_after(table, body.drop_last());
        match body.last() {
            Token::RowStart => before.with_row(),
            Token::CellStart => before.with_cell(),
            _ => before,
        }
    }
}

/// The table with this index whose element holds `body` between its start and
/// its end.
pub open spec fn table_of(index: nat, body: Seq<Token>) -> TableView {
    table_after(TableView::empty(index), body)
}

/// The tokens of some rows one after the other: each row opens, and its
/// segment of the table's body goes by.
pub open spec fn rows_tokens(segments: Seq<Seq<Token>>) -> Seq<Token>
    decreases segments.len(),
{
    if segments.len() == 0 {
        Seq::empty()
    } else {
        rows_tokens(segments.drop_last()) + seq![Token::RowStart] + segments.last()
    }
}

/// Adding to a table what two stretches of its body hold, one after the
/// other, is adding what both hold as one.
pub proof fn lemma_table_after_concat(table: TableView, first: Seq<Token>, second: Seq<Token>)
    ensures
        table_after(table, first + second) == table_after(table_after(table, first), second),
    decreases second.len(),
{
    if second.len() == 0 {
        assert(first + second =~= first);
    } else {
        lemma_table_after_concat(table, first, second.drop_last());
        assert((first + second).drop_last() =~= first + second.drop_last());
    }
}

/// As long as a table has no row, the cells that open in it are set aside,
/// one marker for each, and the table gets no row from them.
pub proof fn lemma_cells_before_a_row_are_set_aside(table: TableView, lead: Seq<Token>)
    requires
        table.rows.len() == 0,
        !lead.contains(Token::RowStart),
    ensures
        table_after(table, lead) == (TableView {
            stray_cells: table.stray_cells + row_of(count(lead, Token::CellStart)),
            ..table
        }),
    decreases lead.len(),
{
    if lead.len() == 0 {
        assert(table.stray_cells + row_of(0) =~= table.stray_cells);
    } else {
        lemma_absent_without_last(lead, Token::RowStart);
        lemma_cells_before_a_row_are_set_aside(table, lead.drop_last());
        let cells: nat = count(lead.drop_last(), Token::CellStart);
        assert((table.stray_cells + row_of(cells)).push(cell_marker()) =~= table.stray_cells
            + row_of(cells + 1));
    }
}

/// Once a table has a row, the cells that open before the next row go to the
/// last row, one marker for each and in their order, and to no other.
pub proof fn lemma_cells_go_to_the_last_row(table: TableView, segment: Seq<Token>)
    requires
        table.rows.len() > 0,
        !segment.contains(Token::RowStart),
    ensures
        table_after(table, segment) == (TableView {
            rows: table.rows.update(
                table.rows.len() - 1,
                table.rows.last() + row_of(count(segment, Token::CellStart)),
            ),
            ..table
        }),
    decreases segment.len(),
{
    let last: int = table.rows.len() - 1;
    if segment.len() == 0 {
        assert(table.rows.last() + row_of(0) =~= table.rows.last());
        assert(table.rows.update(last, table.rows.last()) =~= table.rows);
    } else {
        lemma_absent_without_last(segment, Token::RowStart);
        lemma_cells_go_to_the_last_row(table, segment.drop_last());
        let cells: nat = count(segment.drop_last(), Token::CellStart);
        let before = table.rows.update(last, table.rows.last() + row_of(cells));
        assert((table.rows.last() + row_of(cells)).push(cell_marker()) =~= table.rows.last()
            + row_of(cells + 1));
        assert(before.update(last, before.last().push(cell_marker())) =~= table.rows.update(
            last,
            table.rows.last() + row_of(cells + 1),
        ));
    }
}

/// A table has one row for each row that opens in it, in the order in which
/// they open, and each row holds one marker for each cell that opens between
/// its own start and the start of the next row. The cells that open before
/// the first row are set aside.
pub proof fn lemma_each_row_holds_its_cells(
    index: nat,
    lead: Seq<Token>,
    segments: Seq<Seq<Token>>,
)
    requires
        !lead.contains(Token::RowStart),
        forall|i: int| 0 <= i < segments.len() ==> !(#[trigger] segments[i]).contains(Token::RowStart),
    ensures
        table_of(index, lead + rows_tokens(segments)) == (TableView {
            index,
            rows: Seq::new(segments.len(), |i: int| row_of(count(segments[i], Token::CellStart))),
            stray_cells: row_of(count(lead, Token::CellStart)),
        }),
    decreases segments.len(),
{
    let empty = TableView::empty(index);
    if segments.len() == 0 {
        assert(lead + rows_tokens(segments) =~= lead);
        lemma_cells_before_a_row_are_set_aside(empty, lead);
        assert(empty.stray_cells + row_of(count(lead, Token::CellStart)) =~= row_of(
            count(lead, Token::CellStart),
        ));
        assert(empty.rows =~= Seq::new(0, |i: int| row_of(count(segments[i], Token::CellStart))));
    } else {
        let earlier = lead + rows_tokens(segments.drop_last());
        let opening = seq![Token::RowStart];
        lemma_each_row_holds_its_cells(index, lead, segments.drop_last());
        assert(lead + rows_tokens(segments) =~= (earlier + opening) + segments.last());
        lemma_table_after_concat(empty, earlier + opening, segments.last());
        lemma_table_after_concat(empty, earlier, opening);
        let before = table_after(empty, earlier);
        assert(table_after(before, opening) == before.with_row()) by {
            assert(opening.drop_last() =~= Seq::<Token>::empty());
            assert(table_after(before, Seq::empty()) == before);
        }
        lemma_cells_go_to_the_last_row(before.with_row(), segments.last());
        let cells: nat = count(segments.last(), Token::CellStart);
        assert(Seq::<Seq<char>>::empty() + row_of(cells) =~= row_of(cells));
        assert(before.with_row().rows.update(before.rows.len() as int, row_of(cells)) =~= Seq::new(
            segments.len(),
            |i: int| row_of(count(segments[i], Token::CellStart)),
        ));
    }
}

/// Every body of a table is made of rows: what stands before the first row,
/// and then for each row its start and what follows up to the next. The
/// function hands back the lead and the segments of the rows.
pub proof fn lemma_every_body_has_its_rows(body: Seq<Token>) -> (parts: (
    Seq<Token>,
    Seq<Seq<Token>>,
))
    ensures
        !parts.0.contains(Token::RowStart),
        forall|i: int| 0 <= i < parts.1.len() ==> !(#[trigger] parts.1[i]).contains(Token::RowStart),
        body == parts.0 + rows_tokens(parts.1),
    decreases body.len(),
{
    if body.len() == 0 {
        let lead = Seq::<Token>::empty();
        let segments = Seq::<Seq<Token>>::empty();
        assert(body =~= lead + rows_tokens(segments));
        (lead, segments)
    } else {
        let (lead, segments) = lemma_every_body_has_its_rows(body.drop_last());
        let token = body.last();
        assert(body =~= body.drop_last().push(token));
        if token == Token::RowStart {
            // A row opens: its segment is one more, empty so far.
            let more = segments.push(Seq::empty());
            assert(more.drop_last() =~= segments);
            assert(body =~= lead + rows_tokens(more));
            (lead, more)
        } else if segments.len() == 0 {
            // No row has opened: the token makes the lead longer.
            let longer = lead.push(token);
            lemma_absent_with_another(lead, Token::RowStart, token);
            assert(body =~= longer + rows_tokens(segments));
            (longer, segments)
        } else {
            // The token makes the segment of the last row longer.
            let last: int = segments.len() - 1;
            let longer = segments.update(last, segments[last].push(token));
            lemma_absent_with_another(segments[last], Token::RowStart, token);
            assert(longer.drop_last() =~= segments.drop_last());
            assert(rows_tokens(longer) =~= rows_tokens(segments).push(token));
            assert(body =~= lead + rows_tokens(longer));
            (lead, longer)
        }
    }
}

/// A table has exactly as many rows as rows open in it.
pub proof fn lemma_one_row_for_each_row_start(index: nat, body: Seq<Token>)
    ensures
        table_of(index, body).rows.len() == count(body, Token::RowStart),
        table_of(index, body).index == index,
    decreases body.len(),
{
    if body.len() > 0 {
        lemma_one_row_for_each_row_start(index, body.drop_last());
    }
}

/// A table in which no row opens has an empty sequence of rows.
pub proof fn lemma_table_without_rows(index: nat, body: Seq<Token>)
    requires
        !body.contains(Token::RowStart),
    ensures
        table_of(index, body).rows == Seq::<Seq<Seq<char>>>::empty(),
        table_of(index, body).stray_cells == row_of(count(body, Token::CellStart)),
{
    lemma_cells_before_a_row_are_set_aside(TableView::empty(index), body);
    assert(Seq::<Seq<char>>::empty() + row_of(count(body, Token::CellStart)) =~= row_of(
        count(body, Token::CellStart),
    ));
}

/// The marker that a cell leaves is the name of the element that opened it,
/// as text: the bytes of the name are the marker's encoding.
pub proof fn lemma_marker_is_the_name_of_its_cell(event: EventView)
    requires
        token_of(event) == Token::CellStart,
    ensures
        event == EventView::Start(encode_utf8(cell_marker())),
        cell_marker() == seq!['w', ':', 't', 'c'],
{
    reveal_strlit("w:tc");
    assert(cell_marker() =~= seq!['w', ':', 't', 'c']);
}

} // verus!
