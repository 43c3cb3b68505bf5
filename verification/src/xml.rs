//! Reading an XML document as a list of events.

use quick_xml::events::Event;
use quick_xml::Reader;
use vstd::prelude::*;

verus! {

/// What a reader meets in an XML document.
#[derive(Debug)]
pub enum XmlEvent {
    /// An opening tag, with its name.
    Start(Vec<u8>),
    /// A closing tag, with its name.
    End(Vec<u8>),
    /// Text between tags, as it is written: its escapes are not resolved.
    Text(Vec<u8>),
    /// The document is malformed from here on; the text says why.
    Malformed(String),
    /// Anything else: a tag that closes itself, a comment, a declaration.
    Other,
}

pub enum XmlEventView {
    Start(Seq<u8>),
    End(Seq<u8>),
    Text(Seq<u8>),
    Malformed(Seq<char>),
    Other,
}

impl View for XmlEvent {
    type V = XmlEventView;

    open spec fn view(&self) -> XmlEventView {
        match self {
            XmlEvent::Start(name) => XmlEventView::Start(name@),
            XmlEvent::End(name) => XmlEventView::End(name@),
            XmlEvent::Text(text) => XmlEventView::Text(text@),
            XmlEvent::Malformed(why) => XmlEventView::Malformed(why@),
            XmlEvent::Other => XmlEventView::Other,
        }
    }
}

impl DeepView for XmlEvent {
    type V = XmlEventView;

    open spec fn deep_view(&self) -> XmlEventView {
        self@
    }
}

/// The events of the document `xml`, up to its end or to the first place
/// where it is malformed; with `trim` set, text is given without the white
/// space around it and text of white space alone is left out.
pub uninterp spec fn xml_events(xml: Seq<char>, trim: bool) -> Seq<XmlEventView>;

/// The text that the bytes `raw` stand for, with its escapes resolved, or
/// why there is no such text.
pub uninterp spec fn unescaped(raw: Seq<u8>) -> Result<Seq<char>, Seq<char>>;

/// Calls `quick_xml::Reader::from_str`, `trim_text`, and then
/// `read_event_into` until it reports the end of the document; of each event
/// the name or the text is kept. The contract names the list: the same
/// document gives the same events.
#[verifier::external_body]
pub(crate) fn read_events(xml: &str, trim: bool) -> (events: Vec<XmlEvent>)
    ensures
        events.deep_view() == xml_events(xml@, trim),
{
    let mut reader = Reader::from_str(xml);
    reader.trim_text(trim);
    let (mut events, mut buf) = (Vec::new(), Vec::new());
    loop {
        events.push(match reader.read_event_into(&mut buf) {
            Ok(Event::Start(e)) => XmlEvent::Start(e.name().0.to_vec()),
            Ok(Event::End(e)) => XmlEvent::End(e.name().0.to_vec()),
            Ok(Event::Text(e)) => XmlEvent::Text(e.to_vec()),
            Ok(Event::Eof) => return events,
            Ok(_) => XmlEvent::Other,
            Err(e) => XmlEvent::Malformed(e.to_string()),
        });
        buf.clear();
    }
}

/// Reads the bytes as UTF-8 with `std::str::from_utf8` and calls
/// `quick_xml::escape::unescape`, which replaces the escapes of XML by the
/// characters they stand for. The contract names the result.
#[verifier::external_body]
pub(crate) fn unescape(raw: &[u8]) -> (r: Result<String, String>)
    ensures
        match r {
            Ok(text) => unescaped(raw@) == Ok::<Seq<char>, Seq<char>>(text@),
            Err(why) => unescaped(raw@) == Err::<Seq<char>, Seq<char>>(why@),
        },
{
    match std::str::from_utf8(raw) {
        Ok(text) => quick_xml::escape::unescape(text).map(|t| t.into_owned()).map_err(|e| e.to_string()),
        Err(e) => Err(e.to_string()),
    }
}

} // verus!
