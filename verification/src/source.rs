//! Where a text becomes markup events. The reading is done by `quick-xml`;
//! what this module says of it is taken on trust, not proved.

use crate::markup::EventView;
use crate::markup::MarkupEvent;
use quick_xml::events::Event;
use quick_xml::reader::Reader;
use vstd::prelude::*;

verus! {

/// `quick_xml::reader::Reader`, the reader of markup. Nothing inside it is
/// known here; [`pending`] stands for what it will yield.
#[verifier::external_type_specification]
#[verifier::external_body]
#[verifier::reject_recursive_types(R)]
pub struct ExReader<R>(Reader<R>);

/// `quick_xml::Error`, the reader's error. It is carried through as it is.
#[verifier::external_type_specification]
#[verifier::external_body]
pub struct ExMarkupError(quick_xml::Error);

/// The outcome of reading markup to its end.
pub struct MarkupScan {
    /// The events read before the reading stopped, in document order.
    pub events: Seq<EventView>,
    /// Whether the reading stopped at malformed markup, and not at the end of
    /// the input.
    pub failed: bool,
}

/// What `quick-xml` reads out of `text`: the events that its reader yields one
/// after the other until it reports the end of the input or an error, and
/// which of the two it was. The report itself is no event. An element that
/// opens or closes is an event with the element's name; an event of any other
/// kind, that of an element that opens and closes in one tag too, is
/// `EventView::Other`. With `trim_text` the reader drops the white space
/// around character data, and character data that is nothing else.
pub uninterp spec fn markup_scan(text: Seq<char>, trim_text: bool) -> MarkupScan;

/// What `reader` has still to yield: the events of its coming reads, up to the
/// read that reports the end of the input or an error.
pub uninterp spec fn pending(reader: Reader<&[u8]>) -> MarkupScan;

/// Makes a reader over `contents` with `Reader::from_str`, and sets its
/// trimming of text with `Reader::trim_text`. Nothing has been read yet: the
/// new reader has the whole scan of `contents` before it.
#[verifier::external_body]
pub(crate) fn open_reader<'a>(contents: &'a str, trim_text: bool) -> (reader: Reader<&'a [u8]>)
    ensures
        pending(reader) == markup_scan(contents@, trim_text),
{
    let mut reader = Reader::from_str(contents);
    reader.trim_text(trim_text);
    reader
}

/// Reads one event with `Reader::read_event_into`, which takes `scratch` as
/// its buffer. An element that opens or closes is handed on with a copy of its
/// name (`BytesStart::name`, `BytesEnd::name`), every other event as
/// `MarkupEvent::Other`.
///
/// The contract claims that the reader goes through its pending scan in
/// order: `Some` event is the first pending one, and the rest stays pending;
/// `None`, the end of the input, and an error come only when no event is
/// pending, each as the pending scan says. Of the reader after the end or an
/// error, and of `scratch`, it claims nothing.
#[verifier::external_body]
pub(crate) fn next_event(reader: &mut Reader<&[u8]>, scratch: &mut Vec<u8>) -> (res: Result<
    Option<MarkupEvent>,
    quick_xml::Error,
>)
    ensures
        match res {
            Ok(Some(event)) => {
                &&& pending(*old(reader)).events.len() > 0
                &&& event@ == pending(*old(reader)).events.first()
                &&& pending(*final(reader)).events == pending(*old(reader)).events.drop_first()
                &&& pending(*final(reader)).failed == pending(*old(reader)).failed
            },
            Ok(None) => pending(*old(reader)).events.len() == 0 && !pending(*old(reader)).failed,
            Err(_) => pending(*old(reader)).events.len() == 0 && pending(*old(reader)).failed,
        },
{
    match reader.read_event_into(scratch) {
        Ok(Event::Start(element)) => Ok(Some(MarkupEvent::Start(element.name().as_ref().to_vec()))),
        Ok(Event::End(element)) => Ok(Some(MarkupEvent::End(element.name().as_ref().to_vec()))),
        Ok(Event::Eof) => Ok(None),
        Ok(_) => Ok(Some(MarkupEvent::Other)),
        Err(error) => Err(error),
    }
}

} // verus!
