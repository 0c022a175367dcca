use roster::markup::CELL_TAG;
use roster::markup::ROW_TAG;
use roster::markup::TABLE_TAG;
use roster::text::same_bytes;
use roster::text::same_text;
use roster::MarkupEvent;
use roster::Token;

fn start(name: &str) -> MarkupEvent {
    MarkupEvent::Start(name.as_bytes().to_vec())
}

fn end(name: &str) -> MarkupEvent {
    MarkupEvent::End(name.as_bytes().to_vec())
}

#[test]
fn tag_names_are_those_of_the_word_processor() {
    assert_eq!(TABLE_TAG, "w:tbl");
    assert_eq!(ROW_TAG, "w:tr");
    assert_eq!(CELL_TAG, "w:tc");
}

#[test]
fn table_start_is_told_by_its_name() {
    assert_eq!(start("w:tbl").token(), Token::TableStart);
}

#[test]
fn row_start_is_told_by_its_name() {
    assert_eq!(start("w:tr").token(), Token::RowStart);
}

#[test]
fn cell_start_is_told_by_its_name() {
    assert_eq!(start("w:tc").token(), Token::CellStart);
}

#[test]
fn table_end_is_told_by_its_name() {
    assert_eq!(end("w:tbl").token(), Token::TableEnd);
}

#[test]
fn row_and_cell_ends_are_passed_over() {
    assert_eq!(end("w:tr").token(), Token::Other);
    assert_eq!(end("w:tc").token(), Token::Other);
}

#[test]
fn other_names_are_passed_over() {
    assert_eq!(start("w:p").token(), Token::Other);
    assert_eq!(start("tbl").token(), Token::Other);
    assert_eq!(start("w:tbl2").token(), Token::Other);
    assert_eq!(start("w:tb").token(), Token::Other);
    assert_eq!(start("").token(), Token::Other);
    assert_eq!(end("w:tblPr").token(), Token::Other);
    assert_eq!(end("").token(), Token::Other);
}

#[test]
fn names_count_as_they_are_written() {
    assert_eq!(start("W:TBL").token(), Token::Other);
    assert_eq!(start("w:Tr").token(), Token::Other);
    assert_eq!(start(" w:tc").token(), Token::Other);
    assert_eq!(end("w:TBL").token(), Token::Other);
}

#[test]
fn names_that_are_no_text_are_passed_over() {
    assert_eq!(MarkupEvent::Start(vec![0xff, 0xfe]).token(), Token::Other);
    assert_eq!(MarkupEvent::End(vec![0x77, 0x3a, 0x74, 0x62, 0xff]).token(), Token::Other);
}

#[test]
fn names_are_compared_byte_by_byte() {
    assert_eq!(MarkupEvent::Start(vec![0x77, 0x3a, 0x74, 0x62, 0x6c]).token(), Token::TableStart);
    assert_eq!(MarkupEvent::Start(vec![0x77, 0x3a, 0x74, 0x72]).token(), Token::RowStart);
    assert_eq!(MarkupEvent::Start(vec![0x77, 0x3a, 0x74, 0x63]).token(), Token::CellStart);
    assert_eq!(MarkupEvent::End(vec![0x77, 0x3a, 0x74, 0x62, 0x6c]).token(), Token::TableEnd);
}

#[test]
fn an_event_without_a_name_is_passed_over() {
    assert_eq!(MarkupEvent::Other.token(), Token::Other);
}

#[test]
fn same_bytes_tells_equal_from_different() {
    assert!(same_bytes(b"", b""));
    assert!(same_bytes(b"abc", b"abc"));
    assert!(!same_bytes(b"abc", b"abd"));
    assert!(!same_bytes(b"abc", b"xbc"));
    assert!(!same_bytes(b"abc", b"ab"));
    assert!(!same_bytes(b"ab", b"abc"));
    assert!(!same_bytes(b"", b"a"));
}

#[test]
fn same_text_tells_equal_from_different() {
    assert!(same_text("", ""));
    assert!(same_text("rosz", "rosz"));
    assert!(!same_text("ros", "rosz"));
    assert!(!same_text("rosz", "ros"));
    assert!(!same_text("Ros", "ros"));
    assert!(same_text("héros", "héros"));
    assert!(!same_text("héros", "heros"));
}
