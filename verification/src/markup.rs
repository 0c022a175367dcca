//! Markup events, and the few element names that matter to a table.

use crate::text::same_bytes;
use vstd::prelude::*;
use vstd::utf8::*;

verus! {

/// Name of the element that holds a table.
pub const TABLE_TAG: &'static str = "w:tbl";

/// Name of the element that holds one row of a table.
pub const ROW_TAG: &'static str = "w:tr";

/// Name of the element that holds one cell of a row.
pub const CELL_TAG: &'static str = "w:tc";

/// One event of a markup document, as far as the scan looks at it: an element
/// opens, an element closes, or something else goes by (text, a comment, an
/// element that opens and closes in one tag). Names are the raw bytes of the
/// tag name, prefix included.
#[derive(Clone, Debug, PartialEq, Eq)]
pub enum MarkupEvent {
    /// An element opens; the name of the element.
    Start(Vec<u8>),
    /// An element closes; the name of the element.
    End(Vec<u8>),
    /// Any other event.
    Other,
}

/// What a [`MarkupEvent`] is, with its name as a sequence of bytes.
pub enum EventView {
    /// An element opens; the name of the element.
    Start(Seq<u8>),
    /// An element closes; the name of the element.
    End(Seq<u8>),
    /// Any other event.
    Other,
}

impl View for MarkupEvent {
    type V = EventView;

    open spec fn view(&self) -> EventView {
        match self {
            MarkupEvent::Start(name) => EventView::Start(name@),
            MarkupEvent::End(name) => EventView::End(name@),
            MarkupEvent::Other => EventView::Other,
        }
    }
}

/// What an event means to the scan for tables.
#[derive(Clone, Copy, Debug, PartialEq, Eq)]
pub enum Token {
    /// A table opens.
    TableStart,
    /// A row opens.
    RowStart,
    /// A cell opens.
    CellStart,
    /// A table closes.
    TableEnd,
    /// Anything else; the scan passes over it.
    Other,
}

/// The bytes that a tag name is written with.
pub open spec fn tag_bytes(tag: &str) -> Seq<u8> {
    encode_utf8(tag@)
}

/// The token that an event stands for. Only three names count when an element
/// opens, and only the table's when one closes.
pub open spec fn token_of(event: EventView) -> Token {
    match event {
        EventView::Start(name) => {
            if name == tag_bytes(TABLE_TAG) {
                Token::TableStart
            } else if name == tag_bytes(ROW_TAG) {
                Token::RowStart
            } else if name == tag_bytes(CELL_TAG) {
                Token::CellStart
            } else {
                Token::Other
            }
        },
        EventView::End(name) => {
            if name == tag_bytes(TABLE_TAG) {
                Token::TableEnd
            } else {
                Token::Other
            }
        },
        EventView::Other => Token::Other,
    }
}

/// The tokens of a sequence of events, in the same order.
pub open spec fn tokens_of(events: Seq<EventView>) -> Seq<Token> {
    events.map_values(|event: EventView| token_of(event))
}

/// The views of a list of events, in the same order.
pub open spec fn event_views(events: Seq<MarkupEvent>) -> Seq<EventView> {
    events.map_values(|event: MarkupEvent| event@)
}

/// Tells whether `name` is the tag `tag`.
fn is_tag(name: &Vec<u8>, tag: &str) -> (same: bool)
    ensures
        same == (name@ == tag_bytes(tag)),
{
    same_bytes(name.as_slice(), tag.as_bytes())
}

impl MarkupEvent {
    /// The token that this event stands for.
    pub fn token(&self) -> (token: Token)
        ensures
            token == token_of(self@),
    {
        match self {
            MarkupEvent::Start(name) => {
                if is_tag(name, TABLE_TAG) {
                    Token::TableStart
                } else if is_tag(name, ROW_TAG) {
                    Token::RowStart
                } else if is_tag(name, CELL_TAG) {
                    Token::CellStart
                } else {
                    Token::Other
                }
            },
            MarkupEvent::End(name) => {
                if is_tag(name, TABLE_TAG) {
                    Token::TableEnd
                } else {
                    Token::Other
                }
            },
            MarkupEvent::Other => Token::Other,
        }
    }
}

/// The three tag names, byte by byte.
pub proof fn lemma_tag_bytes()
    ensures
        tag_bytes(TABLE_TAG) == seq![0x77u8, 0x3au8, 0x74u8, 0x62u8, 0x6cu8],
        tag_bytes(ROW_TAG) == seq![0x77u8, 0x3au8, 0x74u8, 0x72u8],
        tag_bytes(CELL_TAG) == seq![0x77u8, 0x3au8, 0x74u8, 0x63u8],
{
    reveal_strlit("w:tbl");
    reveal_strlit("w:tr");
    reveal_strlit("w:tc");
    is_ascii_chars_encode_utf8(TABLE_TAG@);
    is_ascii_chars_encode_utf8(ROW_TAG@);
    is_ascii_chars_encode_utf8(CELL_TAG@);
    assert(tag_bytes(TABLE_TAG) =~= seq![0x77u8, 0x3au8, 0x74u8, 0x62u8, 0x6cu8]);
    assert(tag_bytes(ROW_TAG) =~= seq![0x77u8, 0x3au8, 0x74u8, 0x72u8]);
    assert(tag_bytes(CELL_TAG) =~= seq![0x77u8, 0x3au8, 0x74u8, 0x63u8]);
}

/// What the three names mean to the scan: the table's name opens and closes
/// a table, the row's opens a row, the cell's opens a cell.
pub proof fn lemma_tokens_of_the_tags()
    ensures
        token_of(EventView::Start(tag_bytes(TABLE_TAG))) == Token::TableStart,
        token_of(EventView::Start(tag_bytes(ROW_TAG))) == Token::RowStart,
        token_of(EventView::Start(tag_bytes(CELL_TAG))) == Token::CellStart,
        token_of(EventView::End(tag_bytes(TABLE_TAG))) == Token::TableEnd,
        token_of(EventView::End(tag_bytes(ROW_TAG))) == Token::Other,
        token_of(EventView::End(tag_bytes(CELL_TAG))) == Token::Other,
{
    lemma_tag_bytes();
    assert(tag_bytes(ROW_TAG).len() != tag_bytes(TABLE_TAG).len());
    assert(tag_bytes(CELL_TAG).len() != tag_bytes(TABLE_TAG).len());
    assert(tag_bytes(CELL_TAG)[3] != tag_bytes(ROW_TAG)[3]);
}

} // verus!
