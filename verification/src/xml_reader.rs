//! Reading a document as a sequence of XML events, and unescaping text content.

use quick_xml::events::Event;
use quick_xml::Reader;
use vstd::prelude::*;
use vstd::utf8::{decode_utf8, valid_utf8};

verus! {

/// One step of reading a document.
#[derive(Debug)]
pub enum XmlEvent {
    /// An opening tag, with its name as written.
    Start(Vec<u8>),
    /// A closing tag, with its name as written.
    End(Vec<u8>),
    /// Text between tags, as written: still escaped, still encoded.
    Text(Vec<u8>),
    /// Anything else that a document may hold: a comment, a declaration, an
    /// empty-element tag, a CDATA section.
    Other,
    /// The end of the document.
    Eof,
    /// The document is malformed here; holds the reader's description.
    Failed(String),
}

/// `quick_xml::Reader`, of which nothing is seen but what the items below say.
#[verifier::external_type_specification]
#[verifier::external_body]
#[verifier::reject_recursive_types(R)]
pub struct ExReader<R>(Reader<R>);

/// The events that a `quick_xml::Reader` made from the text `content` reports, read by
/// read: up to and including the first end of document or failure.
pub uninterp spec fn document_events(content: Seq<char>) -> Seq<XmlEvent>;

/// The events that a `quick_xml::Reader` has yet to report, up to and including the
/// first end of document or failure.
pub uninterp spec fn pending_events(reader: Reader<&[u8]>) -> Seq<XmlEvent>;

/// What `quick_xml::escape::unescape` makes of a text: the text with each predefined
/// entity and each character reference replaced, or the description of the first
/// entity that it does not accept.
pub uninterp spec fn unescaped(text: Seq<char>) -> Result<Seq<char>, Seq<char>>;

/// An event after which nothing is read.
pub open spec fn is_terminal(event: XmlEvent) -> bool {
    event is Eof || event is Failed
}

/// A sequence of events as a reader reports it: it ends with the end of the document
/// or a failure, and holds neither before its last place.
pub open spec fn is_event_stream(events: Seq<XmlEvent>) -> bool {
    &&& events.len() > 0
    &&& is_terminal(events.last())
    &&& forall|i: int| 0 <= i < events.len() - 1 ==> !is_terminal(#[trigger] events[i])
}

/// `quick_xml::Reader::from_str`: a reader at the start of `content`, which has the
/// whole document yet to report.
#[verifier::external_body]
pub(crate) fn open_reader<'a>(content: &'a str) -> (reader: Reader<&'a [u8]>)
    ensures
        pending_events(reader) == document_events(content@),
        is_event_stream(pending_events(reader)),
{
    Reader::from_str(content)
}

/// `quick_xml::Reader::read_event_into`, on a reader that has neither ended nor failed:
/// reports the first event that is pending, tag names and text copied as they are, a
/// failure by its description. After an event that is neither the end of the document
/// nor a failure, the events that followed it are pending.
#[verifier::external_body]
pub(crate) fn next_event(reader: &mut Reader<&[u8]>) -> (event: XmlEvent)
    requires
        is_event_stream(pending_events(*old(reader))),
    ensures
        event == pending_events(*old(reader))[0],
        !is_terminal(event) ==> pending_events(*final(reader)) == pending_events(
            *old(reader),
        ).skip(1),
{
    let mut buffer = Vec::new();
    match reader.read_event_into(&mut buffer) {
        Ok(Event::Start(tag)) => XmlEvent::Start(tag.name().as_ref().to_vec()),
        Ok(Event::End(tag)) => XmlEvent::End(tag.name().as_ref().to_vec()),
        Ok(Event::Text(text)) => XmlEvent::Text(text.to_vec()),
        Ok(Event::Eof) => XmlEvent::Eof,
        Ok(_) => XmlEvent::Other,
        Err(error) => XmlEvent::Failed(error.to_string()),
    }
}

/// `std::str::from_utf8`: the characters that the bytes encode, for bytes that are
/// valid UTF-8, and nothing for others.
#[verifier::external_body]
pub(crate) fn decode_text(raw: &Vec<u8>) -> (decoded: Option<String>)
    ensures
        decoded is Some <==> valid_utf8(raw@),
        decoded matches Some(text) ==> text@ == decode_utf8(raw@),
{
    match std::str::from_utf8(raw) {
        Ok(text) => Some(text.to_owned()),
        Err(_) => None,
    }
}

/// `quick_xml::escape::unescape`: gives what `unescaped` names for the text, its
/// replacement or the description of what it refused. A text without `&` comes back
/// as it is.
#[verifier::external_body]
pub(crate) fn unescape_text(text: &str) -> (plain: Result<String, String>)
    ensures
        match plain {
            Ok(replaced) => unescaped(text@) == Ok::<Seq<char>, Seq<char>>(replaced@),
            Err(reason) => unescaped(text@) == Err::<Seq<char>, Seq<char>>(reason@),
        },
        !text@.contains('&') ==> plain is Ok && plain->Ok_0@ == text@,
{
    match quick_xml::escape::unescape(text) {
        Ok(replaced) => Ok(replaced.into_owned()),
        Err(error) => Err(error.to_string()),
    }
}

} // verus!
