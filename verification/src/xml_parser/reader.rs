//! The trusted boundary to the markup tokenizer.
//!
//! The whole of the crate's trust in `quick_xml` is gathered here: an opaque
//! reader whose stream of events is named [`reader_events`], one event read
//! per call, and the projection of a start tag to its name and raw attribute
//! pairs.  Everything downstream works on plain byte values.

use vstd::prelude::*;

use quick_xml::events::BytesStart;
use quick_xml::events::Event;
use quick_xml::reader::Reader;
use std::io::Cursor;

verus! {

#[verifier::external_type_specification]
#[verifier::external_body]
#[verifier::reject_recursive_types(R)]
pub struct ExReader<R>(Reader<R>);

#[verifier::external_type_specification]
#[verifier::external_body]
#[verifier::reject_recursive_types(T)]
pub struct ExCursor<T>(Cursor<T>);

#[verifier::external_type_specification]
#[verifier::external_body]
pub struct ExBytesStart<'a>(BytesStart<'a>);

/// The abstract value of one markup event: a start, self-closing or end tag
/// with its raw name and attribute pairs, anything else the tokenizer can
/// yield, or the tokenizer's own failure with its byte position.
pub enum TagEvent {
    Start { name: Seq<u8>, attrs: Seq<(Seq<u8>, Seq<u8>)> },
    Empty { name: Seq<u8>, attrs: Seq<(Seq<u8>, Seq<u8>)> },
    End { name: Seq<u8> },
    Other,
    Failed { position: u64, message: Seq<char> },
}

/// The events that tokenizing a text yields, in order, without the final
/// end-of-input mark.
pub uninterp spec fn xml_events(text: Seq<char>) -> Seq<TagEvent>;

/// The events a reader has still to yield.
pub uninterp spec fn reader_events(r: Reader<Cursor<Vec<u8>>>) -> Seq<TagEvent>;

/// The name of an opaque start tag.
pub uninterp spec fn tag_name(b: BytesStart<'static>) -> Seq<u8>;

/// The raw attribute pairs of an opaque start tag, in document order, with
/// the malformed ones left out.
pub uninterp spec fn tag_attrs(b: BytesStart<'static>) -> Seq<(Seq<u8>, Seq<u8>)>;

/// One event as the tokenizer hands it out; start tags stay opaque until
/// their fields are asked for.
pub enum RawEvent {
    Start(BytesStart<'static>),
    Empty(BytesStart<'static>),
    End(Vec<u8>),
    Other,
    Eof,
    Failed { position: u64, message: String },
}

/// Whether a raw event denotes the given abstract event.
pub open spec fn raw_denotes(e: RawEvent, t: TagEvent) -> bool {
    match e {
        RawEvent::Start(b) => t == (TagEvent::Start { name: tag_name(b), attrs: tag_attrs(b) }),
        RawEvent::Empty(b) => t == (TagEvent::Empty { name: tag_name(b), attrs: tag_attrs(b) }),
        RawEvent::End(n) => t == (TagEvent::End { name: n@ }),
        RawEvent::Other => t is Other,
        RawEvent::Eof => false,
        RawEvent::Failed { position, message } => t == (TagEvent::Failed {
            position,
            message: message@,
        }),
    }
}

/// Relies on `quick_xml::reader::Reader::from_reader`: a fresh reader yields
/// exactly the events of the text it was built over.
#[verifier::external_body]
pub fn xml_reader(text: &str) -> (r: Reader<Cursor<Vec<u8>>>)
    ensures
        reader_events(r) == xml_events(text@),
{
    Reader::from_reader(Cursor::new(text.as_bytes().to_vec()))
}

/// Relies on `quick_xml::reader::Reader::read_event_into`: each call yields
/// the next event of the stream, or the end-of-input mark once the stream is
/// exhausted (the reader then stays exhausted); a tokenizer error carries the
/// byte position `Reader::buffer_position` reports.
#[verifier::external_body]
pub fn next_raw_event(r: &mut Reader<Cursor<Vec<u8>>>) -> (e: RawEvent)
    ensures
        reader_events(*old(r)).len() == 0 ==> e is Eof && reader_events(*final(r))
            == reader_events(*old(r)),
        reader_events(*old(r)).len() > 0 ==> !(e is Eof) && raw_denotes(
            e,
            reader_events(*old(r)).first(),
        ) && reader_events(*final(r)) == reader_events(*old(r)).drop_first(),
{
    let mut buf: Vec<u8> = Vec::new();
    match r.read_event_into(&mut buf) {
        Err(err) => RawEvent::Failed {
            position: r.buffer_position(),
            message: format!("{:?}", err),
        },
        Ok(Event::Start(b)) => RawEvent::Start(b.into_owned()),
        Ok(Event::Empty(b)) => RawEvent::Empty(b.into_owned()),
        Ok(Event::End(b)) => RawEvent::End(b.name().as_ref().as_bytes().to_vec()),
        Ok(Event::Eof) => RawEvent::Eof,
        Ok(_) => RawEvent::Other,
    }
}

/// Relies on `quick_xml::events::BytesStart::name`: the tag's raw name.
#[verifier::external_body]
pub fn start_tag_name(b: &BytesStart<'static>) -> (r: Vec<u8>)
    ensures
        r@ == tag_name(*b),
{
    b.name().as_ref().as_bytes().to_vec()
}

/// The abstract value of a list of raw attribute pairs.
pub open spec fn attr_pairs_view(s: Seq<(Vec<u8>, Vec<u8>)>) -> Seq<(Seq<u8>, Seq<u8>)> {
    s.map_values(|p: (Vec<u8>, Vec<u8>)| (p.0@, p.1@))
}

/// Relies on `quick_xml::events::BytesStart::attributes`: the tag's raw
/// key/value pairs in document order, skipping malformed ones as
/// `Attributes::next` reports them.
#[verifier::external_body]
pub fn start_tag_attrs(b: &BytesStart<'static>) -> (r: Vec<(Vec<u8>, Vec<u8>)>)
    ensures
        attr_pairs_view(r@) == tag_attrs(*b),
{
    b.attributes().filter_map(|a| a.ok()).map(
        |a: quick_xml::events::attributes::Attribute<'_>|
            (a.key.as_ref().as_bytes().to_vec(), a.value.as_bytes().to_vec()),
    ).collect()
}

} // verus!
