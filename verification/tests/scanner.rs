use roster::ErrorKind;
use roster::TableRecord;
use roster::TableScanner;
use roster::Token;

fn cells(count: usize) -> Vec<String> {
    vec!["w:tc".to_string(); count]
}

fn scan(tokens: &[Token]) -> TableScanner {
    let mut scanner = TableScanner::new();
    for token in tokens {
        scanner.step(*token);
    }
    scanner
}

#[test]
fn a_new_scanner_has_found_nothing() {
    let roster = TableScanner::new().finish().unwrap();
    assert!(roster.tables.is_empty());
}

#[test]
fn a_table_is_recorded_when_it_closes() {
    let roster = scan(&[Token::TableStart, Token::TableEnd]).finish().unwrap();
    assert_eq!(roster.tables, vec![TableRecord { index: 1, rows: vec![], stray_cells: vec![] }]);
}

#[test]
fn an_open_table_is_an_error_at_the_end() {
    let error = scan(&[Token::TableStart]).finish().unwrap_err();
    assert_eq!(error.kind(), ErrorKind::UnterminatedTable);
    let error = scan(&[Token::TableStart, Token::TableEnd, Token::Other, Token::TableStart, Token::RowStart])
        .finish()
        .unwrap_err();
    assert_eq!(error.kind(), ErrorKind::UnterminatedTable);
}

#[test]
fn rows_and_cells_outside_a_table_are_passed_over() {
    let roster = scan(&[Token::RowStart, Token::CellStart, Token::Other, Token::CellStart])
        .finish()
        .unwrap();
    assert!(roster.tables.is_empty());
}

#[test]
fn a_table_end_outside_a_table_is_passed_over() {
    let roster = scan(&[Token::TableEnd, Token::TableStart, Token::TableEnd, Token::TableEnd])
        .finish()
        .unwrap();
    assert_eq!(roster.tables.len(), 1);
    assert_eq!(roster.tables[0].index, 1);
}

#[test]
fn each_cell_goes_to_the_row_that_opened_last() {
    let roster = scan(&[
        Token::TableStart,
        Token::RowStart,
        Token::CellStart,
        Token::CellStart,
        Token::CellStart,
        Token::RowStart,
        Token::RowStart,
        Token::CellStart,
        Token::TableEnd,
    ])
    .finish()
    .unwrap();
    assert_eq!(roster.tables.len(), 1);
    assert_eq!(roster.tables[0].rows, vec![cells(3), cells(0), cells(1)]);
    assert!(roster.tables[0].stray_cells.is_empty());
}

#[test]
fn tokens_of_no_account_change_nothing_inside_a_table() {
    let roster = scan(&[
        Token::TableStart,
        Token::Other,
        Token::RowStart,
        Token::Other,
        Token::CellStart,
        Token::Other,
        Token::Other,
        Token::TableEnd,
    ])
    .finish()
    .unwrap();
    assert_eq!(roster.tables, vec![TableRecord { index: 1, rows: vec![cells(1)], stray_cells: vec![] }]);
}

#[test]
fn a_table_that_opens_inside_a_table_is_not_told_apart() {
    // The inner table's start is passed over, its end closes the outer table,
    // and what follows stands outside every table.
    let roster = scan(&[
        Token::TableStart,
        Token::RowStart,
        Token::CellStart,
        Token::TableStart,
        Token::RowStart,
        Token::CellStart,
        Token::TableEnd,
        Token::CellStart,
        Token::RowStart,
        Token::TableEnd,
    ])
    .finish()
    .unwrap();
    assert_eq!(roster.tables, vec![TableRecord { index: 1, rows: vec![cells(1), cells(1)], stray_cells: vec![] }]);
}

#[test]
fn the_scanner_can_be_fed_one_token_at_a_time() {
    let mut scanner = TableScanner::new();
    scanner.step(Token::TableStart);
    scanner.step(Token::CellStart);
    scanner.step(Token::RowStart);
    scanner.step(Token::CellStart);
    scanner.step(Token::TableEnd);
    scanner.step(Token::TableStart);
    scanner.step(Token::TableEnd);
    let roster = scanner.finish().unwrap();
    assert_eq!(
        roster.tables,
        vec![
            TableRecord { index: 1, rows: vec![cells(1)], stray_cells: cells(1) },
            TableRecord { index: 2, rows: vec![], stray_cells: vec![] },
        ]
    );
}
