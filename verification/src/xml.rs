//! XML as a list of events, read by the `quick-xml` crate.

use quick_xml::events::Event;
use quick_xml::Reader;
use vstd::prelude::*;

use crate::text;

verus! {

/// One event of an XML document.
pub enum XmlEvent {
    /// A start tag, with the element's name.
    Start(String),
    /// An empty-element tag: the element's name, and the value of the attribute that
    /// was asked for: `None` when the tag's attributes cannot be read, else `Some` of
    /// the value, which is itself `None` when the attribute is missing or cannot be
    /// unescaped.
    Empty(String, Option<Option<String>>),
    /// Character data, unescaped, when it can be.
    Text(Option<String>),
    /// An end tag, with the element's name.
    End(String),
    /// Anything else: comments, declarations, processing instructions, CDATA.
    Other,
}

/// An XML event with its texts as sequences of characters.
pub enum XmlEventView {
    Start(Seq<char>),
    Empty(Seq<char>, Option<Option<Seq<char>>>),
    Text(Option<Seq<char>>),
    End(Seq<char>),
    Other,
}

impl View for XmlEvent {
    type V = XmlEventView;

    open spec fn view(&self) -> XmlEventView {
        match *self {
            XmlEvent::Start(name) => XmlEventView::Start(name@),
            XmlEvent::Empty(name, value) => XmlEventView::Empty(
                name@,
                match value {
                    Some(found) => Some(text::option_view(found)),
                    None => None,
                },
            ),
            XmlEvent::Text(data) => XmlEventView::Text(text::option_view(data)),
            XmlEvent::End(name) => XmlEventView::End(name@),
            XmlEvent::Other => XmlEventView::Other,
        }
    }
}

/// The XML reader.
#[verifier::external_type_specification]
#[verifier::external_body]
#[verifier::reject_recursive_types(R)]
pub struct ExReader<R>(quick_xml::Reader<R>);

/// What a reader still has to give: the results of reading on until the document ends,
/// with the named attribute of each empty-element tag, and the message of each error.
pub uninterp spec fn unread(reader: Reader<&[u8]>, attribute: Seq<char>) -> Seq<
    Result<XmlEventView, Seq<char>>,
>;

/// What `quick_xml::Reader`, trimming text, gives of a document from beginning to end.
pub uninterp spec fn xml_results(xml: Seq<char>, attribute: Seq<char>) -> Seq<
    Result<XmlEventView, Seq<char>>,
>;

/// `quick_xml::Reader::from_str`, set to trim text: a reader at the beginning of the
/// document. What it will give is a function of the document alone, by name.
#[verifier::external_body]
fn open_xml(xml: &str) -> (r: Reader<&[u8]>)
    ensures
        forall|attribute: Seq<char>| #[trigger]
            unread(r, attribute) == xml_results(xml@, attribute),
{
    let mut reader = Reader::from_str(xml);
    reader.config_mut().trim_text(true);
    reader
}

/// `quick_xml::Reader::read_event`: the next of the results that are unread, `None` at the
/// document's end. Names are read as lossy UTF-8; text and the attribute's value are
/// unescaped where that succeeds.
#[verifier::external_body]
fn read_event(reader: &mut Reader<&[u8]>, attribute: &str) -> (r: Result<Option<XmlEvent>, String>)
    ensures
        ({
            let before = unread(*old(reader), attribute@);
            let after = unread(*final(reader), attribute@);
            match r {
                Ok(Some(event)) => before.len() > 0 && before[0] == Ok::<XmlEventView, Seq<char>>(
                    event@,
                ) && after == before.drop_first(),
                Ok(None) => before.len() == 0,
                Err(message) => before.len() > 0 && before[0] == Err::<XmlEventView, Seq<char>>(
                    message@,
                ),
            }
        }),
{
    Ok(Some(match reader.read_event().map_err(|e| e.to_string())? {
        Event::Start(e) => XmlEvent::Start(String::from_utf8_lossy(e.name().0).into()),
        Event::Empty(e) => XmlEvent::Empty(String::from_utf8_lossy(e.name().0).into(),
            e.try_get_attribute(attribute).ok().map(|a| Some(a?.unescape_value().ok()?.into()))),
        Event::Text(t) => XmlEvent::Text(t.unescape().ok().map(|t| t.into())),
        Event::End(e) => XmlEvent::End(String::from_utf8_lossy(e.name().0).into()),
        Event::Eof => return Ok(None),
        _ => XmlEvent::Other,
    }))
}

/// The events among results, in order, or the message of the first error.
pub open spec fn collected(results: Seq<Result<XmlEventView, Seq<char>>>) -> Result<
    Seq<XmlEventView>,
    Seq<char>,
>
    decreases results.len(),
{
    if results.len() == 0 {
        Ok(Seq::empty())
    } else {
        match results[0] {
            Ok(event) => match collected(results.drop_first()) {
                Ok(rest) => Ok(seq![event] + rest),
                Err(message) => Err(message),
            },
            Err(message) => Err(message),
        }
    }
}

/// A document as its events, or the message of its first error.
pub open spec fn xml_events(xml: Seq<char>, attribute: Seq<char>) -> Result<
    Seq<XmlEventView>,
    Seq<char>,
> {
    collected(xml_results(xml, attribute))
}

/// The events behind those that are there already.
spec fn behind(there: Seq<XmlEventView>, rest: Result<Seq<XmlEventView>, Seq<char>>) -> Result<
    Seq<XmlEventView>,
    Seq<char>,
> {
    match rest {
        Ok(events) => Ok(there + events),
        Err(message) => Err(message),
    }
}

/// The document's events, with the named attribute of each empty-element tag, or the
/// message of the first error.
pub fn read_xml(xml: &str, attribute: &str) -> (r: Result<Vec<XmlEvent>, String>)
    ensures
        match r {
            Ok(events) => xml_events(xml@, attribute@) == Ok::<Seq<XmlEventView>, Seq<char>>(
                text::views(events@),
            ),
            Err(message) => xml_events(xml@, attribute@) == Err::<Seq<XmlEventView>, Seq<char>>(
                message@,
            ),
        },
{
    let mut reader = open_xml(xml);
    let mut events: Vec<XmlEvent> = Vec::new();
    assert(behind(text::views(events@), xml_events(xml@, attribute@)) == xml_events(
        xml@,
        attribute@,
    )) by {
        assert(text::views(events@) =~= Seq::empty());
        if let Ok(all) = xml_events(xml@, attribute@) {
            assert(Seq::<XmlEventView>::empty() + all =~= all);
        }
    }
    loop
        invariant
            behind(text::views(events@), collected(unread(reader, attribute@))) == xml_events(
                xml@,
                attribute@,
            ),
        decreases unread(reader, attribute@).len(),
    {
        let ghost left = unread(reader, attribute@);
        match read_event(&mut reader, attribute) {
            Ok(Some(event)) => {
                let ghost before = text::views(events@);
                events.push(event);
                proof {
                    assert(text::views(events@) =~= before.push(event@));
                    if let Ok(rest) = collected(left.drop_first()) {
                        assert(before + (seq![event@] + rest) =~= before.push(event@) + rest);
                    }
                }
            },
            Ok(None) => {
                assert(text::views(events@) + Seq::<XmlEventView>::empty() =~= text::views(events@));
                return Ok(events);
            },
            Err(message) => {
                return Err(message);
            },
        }
    }
}

/// Where every event was read, the document has all of them, in their order; where one could
/// not be, it has none, and the first that could not says why.
pub proof fn every_event_is_collected(events: Seq<XmlEventView>, message: Seq<char>)
    ensures
        collected(
            events.map_values(|event: XmlEventView| Ok::<XmlEventView, Seq<char>>(event)),
        ) == Ok::<Seq<XmlEventView>, Seq<char>>(events),
        collected(
            events.map_values(|event: XmlEventView| Ok::<XmlEventView, Seq<char>>(event)).push(
                Err(message),
            ),
        ) == Err::<Seq<XmlEventView>, Seq<char>>(message),
    decreases events.len(),
{
    let good = events.map_values(|event: XmlEventView| Ok::<XmlEventView, Seq<char>>(event));
    let bad = good.push(Err(message));
    if events.len() == 0 {
        assert(events =~= Seq::<XmlEventView>::empty());
        assert(bad[0] == Err::<XmlEventView, Seq<char>>(message));
    } else {
        let rest = events.drop_first();
        let good_rest = rest.map_values(|event: XmlEventView| Ok::<XmlEventView, Seq<char>>(event));
        every_event_is_collected(rest, message);
        assert(good.drop_first() =~= good_rest);
        assert(bad.drop_first() =~= good_rest.push(Err(message)));
        assert(seq![events[0]] + rest =~= events);
    }
}

} // verus!
