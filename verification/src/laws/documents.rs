//! Documents: what the scan finds, told by the table elements of the input.
//!
//! An input is taken apart as its table elements and the gaps between them.
//! The scan itself knows nothing of such parts; the laws show that it finds
//! them, and that every input has them.

use crate::error::ErrorKind;
use crate::laws::lemma_absent_with_another;
use crate::laws::lemma_absent_without_last;
use crate::laws::rows::table_after;
use crate::laws::rows::table_of;
use crate::markup::Token;
use crate::scanner::lemma_run_keeps_wf;
use crate::scanner::lemma_run_push;
use crate::scanner::scan;
use crate::scanner::ScanView;
use crate::table::TableView;
use vstd::prelude::*;

verus! {

/// The tokens of a table element: the table opens, `body` goes by, the table
/// closes.
pub open spec fn table_element(body: Seq<Token>) -> Seq<Token> {
    seq![Token::TableStart] + body + seq![Token::TableEnd]
}

/// The tokens of a document that holds the table elements with the bodies
/// `bodies`, in this order. `gaps[i]` is what stands before the element
/// number `i`, and the last gap what stands behind the last element.
pub open spec fn document(gaps: Seq<Seq<Token>>, bodies: Seq<Seq<Token>>) -> Seq<Token>
    recommends
        gaps.len() == bodies.len() + 1,
    decreases bodies.len(),
{
    if bodies.len() == 0 {
        gaps.first()
    } else {
        document(gaps.drop_last(), bodies.drop_last()) + table_element(bodies.last()) + gaps.last()
    }
}

/// Whether `gaps` and `bodies` are the parts of a document: one gap before
/// each table element and one behind the last, no table opening in a gap and
/// none closing in a body.
pub open spec fn parts_of_a_document(gaps: Seq<Seq<Token>>, bodies: Seq<Seq<Token>>) -> bool {
    &&& gaps.len() == bodies.len() + 1
    &&& forall|i: int| 0 <= i < gaps.len() ==> !(#[trigger] gaps[i]).contains(Token::TableStart)
    &&& forall|i: int| 0 <= i < bodies.len() ==> !(#[trigger] bodies[i]).contains(Token::TableEnd)
}

/// Going through two stretches of tokens one after the other is going through
/// both as one.
pub proof fn lemma_run_concat(state: ScanView, first: Seq<Token>, second: Seq<Token>)
    ensures
        state.run(first + second) == state.run(first).run(second),
    decreases second.len(),
{
    if second.len() == 0 {
        assert(first + second =~= first);
    } else {
        lemma_run_concat(state, first, second.drop_last());
        assert((first + second).drop_last() =~= first + second.drop_last());
    }
}

/// Going through one token is one step.
pub proof fn lemma_run_one(state: ScanView, token: Token)
    ensures
        state.run(seq![token]) == state.step(token),
{
    lemma_run_push(state, Seq::empty(), token);
    assert(Seq::<Token>::empty().push(token) =~= seq![token]);
}

/// Outside a table, tokens among which no table opens change nothing.
pub proof fn lemma_gap_changes_nothing(state: ScanView, gap: Seq<Token>)
    requires
        state.opened is None,
        !gap.contains(Token::TableStart),
    ensures
        state.run(gap) == state,
    decreases gap.len(),
{
    if gap.len() > 0 {
        lemma_absent_without_last(gap, Token::TableStart);
        lemma_gap_changes_nothing(state, gap.drop_last());
    }
}

/// Inside a table, tokens among which no table closes reach the open table
/// only: its rows and cells are added to it, and it stays open.
pub proof fn lemma_body_fills_open_table(state: ScanView, body: Seq<Token>)
    requires
        state.opened is Some,
        !body.contains(Token::TableEnd),
    ensures
        state.run(body) == (ScanView { opened: Some(table_after(state.opened->0, body)), ..state }),
    decreases body.len(),
{
    if body.len() > 0 {
        lemma_absent_without_last(body, Token::TableEnd);
        lemma_body_fills_open_table(state, body.drop_last());
    }
}

/// A table element that stands outside every table adds one record, the next
/// in the numbering, and the record is made from the element's body alone.
pub proof fn lemma_table_element_adds_its_record(state: ScanView, body: Seq<Token>)
    requires
        state.opened is None,
        !body.contains(Token::TableEnd),
    ensures
        state.run(table_element(body)) == (ScanView {
            finished: state.finished.push(table_of(state.finished.len() + 1, body)),
            opened: None,
        }),
{
    let start = seq![Token::TableStart];
    let end = seq![Token::TableEnd];
    let opened = ScanView { opened: Some(TableView::empty(state.finished.len() + 1)), ..state };
    lemma_run_one(state, Token::TableStart);
    assert(state.run(start) == opened);
    lemma_run_concat(state, start, body);
    lemma_body_fills_open_table(opened, body);
    lemma_run_concat(state, start + body, end);
    lemma_run_one(opened.run(body), Token::TableEnd);
}

/// A document with N table elements gives N records. The records come in the
/// order of the elements and are numbered from one, and each is made from the
/// body of its own element: what stands in the gaps, or in another table,
/// does not reach it.
pub proof fn lemma_one_record_for_each_table(gaps: Seq<Seq<Token>>, bodies: Seq<Seq<Token>>)
    requires
        parts_of_a_document(gaps, bodies),
    ensures
        scan(document(gaps, bodies)).opened is None,
        scan(document(gaps, bodies)).finished == Seq::new(
            bodies.len(),
            |i: int| table_of((i + 1) as nat, bodies[i]),
        ),
        scan(document(gaps, bodies)).tables() == Ok::<Seq<TableView>, ErrorKind>(
            Seq::new(bodies.len(), |i: int| table_of((i + 1) as nat, bodies[i])),
        ),
    decreases bodies.len(),
{
    let start = ScanView::start();
    if bodies.len() == 0 {
        lemma_gap_changes_nothing(start, gaps.first());
        assert(start.finished =~= Seq::new(0, |i: int| table_of((i + 1) as nat, bodies[i])));
    } else {
        let earlier = document(gaps.drop_last(), bodies.drop_last());
        lemma_one_record_for_each_table(gaps.drop_last(), bodies.drop_last());
        let state = scan(earlier);
        lemma_run_concat(start, earlier, table_element(bodies.last()));
        lemma_table_element_adds_its_record(state, bodies.last());
        let closed = state.run(table_element(bodies.last()));
        lemma_run_concat(start, earlier + table_element(bodies.last()), gaps.last());
        lemma_gap_changes_nothing(closed, gaps.last());
        assert(closed.finished =~= Seq::new(
            bodies.len(),
            |i: int| table_of((i + 1) as nat, bodies[i]),
        ));
    }
}

/// A table that opens behind the last closed one and does not close makes
/// the whole document an error, whatever tables closed before it.
pub proof fn lemma_unclosed_table_is_an_error(
    gaps: Seq<Seq<Token>>,
    bodies: Seq<Seq<Token>>,
    body: Seq<Token>,
)
    requires
        parts_of_a_document(gaps, bodies),
        !body.contains(Token::TableEnd),
    ensures
        scan(document(gaps, bodies) + seq![Token::TableStart] + body).tables() == Err::<
            Seq<TableView>,
            ErrorKind,
        >(ErrorKind::UnterminatedTable),
{
    let closed = scan(document(gaps, bodies));
    let start = seq![Token::TableStart];
    lemma_one_record_for_each_table(gaps, bodies);
    lemma_run_concat(ScanView::start(), document(gaps, bodies), start);
    lemma_run_one(closed, Token::TableStart);
    lemma_run_concat(ScanView::start(), document(gaps, bodies) + start, body);
    lemma_body_fills_open_table(closed.run(start), body);
}

/// Every input has such parts: it is a document of gaps and table elements,
/// or such a document followed by a table that opens and does not close. The
/// function hands back the gaps, the bodies, and the body of the unclosed
/// table where there is one.
pub proof fn lemma_every_input_has_its_parts(tokens: Seq<Token>) -> (parts: (
    Seq<Seq<Token>>,
    Seq<Seq<Token>>,
    Option<Seq<Token>>,
))
    ensures
        parts_of_a_document(parts.0, parts.1),
        match parts.2 {
            None => tokens == document(parts.0, parts.1),
            Some(body) => {
                &&& !body.contains(Token::TableEnd)
                &&& tokens == document(parts.0, parts.1) + seq![Token::TableStart] + body
            },
        },
    decreases tokens.len(),
{
    if tokens.len() == 0 {
        let gaps = seq![Seq::<Token>::empty()];
        let bodies = Seq::<Seq<Token>>::empty();
        assert(tokens =~= document(gaps, bodies));
        (gaps, bodies, None)
    } else {
        let (gaps, bodies, unclosed) = lemma_every_input_has_its_parts(tokens.drop_last());
        let token = tokens.last();
        assert(tokens =~= tokens.drop_last().push(token));
        match unclosed {
            None => {
                if token == Token::TableStart {
                    let body = Seq::<Token>::empty();
                    assert(tokens =~= document(gaps, bodies) + seq![Token::TableStart] + body);
                    (gaps, bodies, Some(body))
                } else {
                    // The token makes the last gap longer.
                    let last: int = gaps.len() - 1;
                    let longer = gaps.update(last, gaps[last].push(token));
                    lemma_absent_with_another(gaps[last], Token::TableStart, token);
                    assert(longer.drop_last() =~= gaps.drop_last());
                    assert(document(longer, bodies) =~= document(gaps, bodies).push(token));
                    (longer, bodies, None)
                }
            },
            Some(body) => {
                if token == Token::TableEnd {
                    // The table closes: its body is one more, and a new gap opens.
                    let more_gaps = gaps.push(Seq::empty());
                    let more_bodies = bodies.push(body);
                    assert(more_gaps.drop_last() =~= gaps);
                    assert(more_bodies.drop_last() =~= bodies);
                    assert(tokens =~= document(more_gaps, more_bodies));
                    (more_gaps, more_bodies, None)
                } else {
                    // The token makes the body of the open table longer.
                    let longer = body.push(token);
                    lemma_absent_with_another(body, Token::TableEnd, token);
                    assert(tokens =~= document(gaps, bodies) + seq![Token::TableStart] + longer);
                    (gaps, bodies, Some(longer))
                }
            },
        }
    }
}

/// A document in which no table opens has no tables, and that is no error.
pub proof fn lemma_no_table_no_record(tokens: Seq<Token>)
    requires
        !tokens.contains(Token::TableStart),
    ensures
        scan(tokens) == ScanView::start(),
        scan(tokens).tables() == Ok::<Seq<TableView>, ErrorKind>(Seq::empty()),
{
    lemma_gap_changes_nothing(ScanView::start(), tokens);
}

/// The tables that a scan finds are numbered from one, in document order,
/// with no number left out and none used twice.
pub proof fn lemma_tables_are_numbered(tokens: Seq<Token>)
    ensures
        scan(tokens).wf(),
        scan(tokens).tables() matches Ok(tables) ==> forall|i: int|
            0 <= i < tables.len() ==> (#[trigger] tables[i]).index == i + 1,
{
    lemma_run_keeps_wf(ScanView::start(), tokens);
}

} // verus!
