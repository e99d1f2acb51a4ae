//! The XML reader that the extraction runs on.
//!
//! Tokenising is the work of `quick_xml`. Nothing in this file is proved: it
//! states what the rest of the library relies on. What the reader hands out
//! is turned into plain values at once, so that the logic above it never
//! looks into a value of the reader's own types.

use quick_xml::events::attributes::{Attribute, Attributes};
use quick_xml::events::Event;
use quick_xml::Reader;
use std::borrow::Cow;
use vstd::prelude::*;

verus! {

/// A start tag as plain values: the bytes between `<` and `>` (between `<`
/// and `/>` for a self-closing tag), and how many of them are the name.
#[derive(Debug)]
pub struct Tag {
    pub content: Vec<u8>,
    pub name_len: usize,
}

/// The value of a [`Tag`].
pub struct TagView {
    pub content: Seq<u8>,
    pub name_len: nat,
}

impl View for Tag {
    type V = TagView;

    open spec fn view(&self) -> TagView {
        TagView { content: self.content@, name_len: self.name_len as nat }
    }
}

/// One read of the document, as far as the extraction tells events apart.
#[derive(Debug)]
pub enum XmlEvent {
    /// `<name ...>`
    Start(Tag),
    /// `<name .../>`
    Empty(Tag),
    /// `</name>`
    End,
    /// Text, a comment, a declaration and the like.
    Other,
    /// The document has ended.
    Eof,
}

/// What one read of a document comes to: an event, or a failure of the
/// reader with its diagnostic.
pub enum Step {
    Start(TagView),
    Empty(TagView),
    End,
    Other,
    Eof,
    Malformed(Seq<char>),
}

/// One item of a tag's attribute list: a key with its raw value, or the
/// reader's diagnostic where the list is malformed at this place.
pub type AttributeView = Result<(Seq<u8>, Seq<u8>), Seq<char>>;

/// The step that a result of [`next_event`] stands for.
pub open spec fn step_of(r: Result<XmlEvent, String>) -> Step {
    match r {
        Ok(XmlEvent::Start(tag)) => Step::Start(tag@),
        Ok(XmlEvent::Empty(tag)) => Step::Empty(tag@),
        Ok(XmlEvent::End) => Step::End,
        Ok(XmlEvent::Other) => Step::Other,
        Ok(XmlEvent::Eof) => Step::Eof,
        Err(diagnostic) => Step::Malformed(diagnostic@),
    }
}

/// The attribute item that a result of [`next_attribute`] stands for.
pub open spec fn attribute_of(r: Result<(Vec<u8>, Vec<u8>), String>) -> AttributeView {
    match r {
        Ok((key, value)) => Ok((key@, value@)),
        Err(diagnostic) => Err(diagnostic@),
    }
}

/// A `quick_xml::Reader` over a byte slice.
#[verifier::external_body]
pub struct EventReader<'a> {
    inner: Reader<&'a [u8]>,
}

/// A `quick_xml::events::attributes::Attributes`, the cursor over the
/// attribute list of one tag.
#[verifier::external_body]
pub struct AttributeCursor<'a> {
    inner: Attributes<'a>,
}

/// The reads that `reader` has yet to hand out, through the first that ends
/// the document or fails. It is empty once that one was handed out.
pub uninterp spec fn reader_pending(reader: EventReader) -> Seq<Step>;

/// What the reads of the document `doc` come to, first to last, through the
/// first that ends the document or fails: for a reader that trims text or
/// does not, each read made with an empty buffer. The diagnostic of a failure
/// is the `Display` rendering of the reader's error.
pub uninterp spec fn xml_events(doc: Seq<u8>, trim: bool) -> Seq<Step>;

/// The position that `reader` reports once it has handed out all its reads.
pub uninterp spec fn reader_end(reader: EventReader) -> nat;

/// The position that a reader of the document `doc` reports once it has
/// handed out all its reads.
pub uninterp spec fn xml_end(doc: Seq<u8>, trim: bool) -> nat;

/// The items that `attrs` has yet to hand out.
pub uninterp spec fn attributes_left(attrs: AttributeCursor) -> Seq<AttributeView>;

/// The attribute list of the tag content `content`, scanned from `pos`.
pub uninterp spec fn tag_attributes(content: Seq<u8>, pos: nat) -> Seq<AttributeView>;

/// The text that the raw attribute value `raw` stands for, once decoded as
/// UTF-8 and with its character references resolved; where either fails, the
/// `Display` rendering of the reader's error.
pub uninterp spec fn decoded_value(raw: Seq<u8>) -> Result<Seq<char>, Seq<char>>;

/// `Reader::from_reader` on a byte slice, then `Reader::trim_text` on the
/// new reader: a reader at the start of `data`, which has all the reads of
/// `data` to hand out. Every read but the last takes at least one byte of
/// the input, so there is at most one read more than `data` has bytes.
#[verifier::external_body]
pub(crate) fn open_reader<'a>(data: &'a [u8], trim: bool) -> (reader: EventReader<'a>)
    ensures
        reader_pending(reader) == xml_events(data@, trim),
        reader_end(reader) == xml_end(data@, trim),
        reader_pending(reader).len() <= data@.len() + 1,
{
    let mut inner = Reader::from_reader(data);
    inner.trim_text(trim);
    EventReader { inner }
}

/// `Reader::read_event`, with the event turned into plain values.
///
/// The result is the first read that is left, and the reader has moved past
/// it. Once the document has ended or a read has failed nothing is left, and
/// the reader answers `Eof`; until then something is left. The reads depend
/// on the document and the trimming alone when each starts on an empty
/// buffer. A failure comes out as the `Display` rendering of the reader's
/// error. A tag's name is a prefix of its content.
#[verifier::external_body]
pub(crate) fn next_event(reader: &mut EventReader<'_>, buf: &mut Vec<u8>) -> (r: Result<
    XmlEvent,
    String,
>)
    requires
        old(buf)@.len() == 0,
    ensures
        reader_pending(*old(reader)).len() == 0 ==> step_of(r) is Eof && reader_pending(
            *final(reader),
        ) == reader_pending(*old(reader)),
        reader_pending(*old(reader)).len() > 0 ==> step_of(r) == reader_pending(*old(reader))[0]
            && reader_pending(*final(reader)) == reader_pending(*old(reader)).drop_first(),
        reader_pending(*old(reader)).len() > 0 ==> (reader_pending(*final(reader)).len() == 0
            <==> step_of(r) is Eof || step_of(r) is Malformed),
        reader_end(*final(reader)) == reader_end(*old(reader)),
        step_of(r) matches Step::Start(tag) ==> tag.name_len <= tag.content.len(),
        step_of(r) matches Step::Empty(tag) ==> tag.name_len <= tag.content.len(),
{
    match reader.inner.read_event(buf) {
        Ok(Event::Start(e)) => Ok(
            XmlEvent::Start(Tag { content: e.to_vec(), name_len: e.name().len() }),
        ),
        Ok(Event::Empty(e)) => Ok(
            XmlEvent::Empty(Tag { content: e.to_vec(), name_len: e.name().len() }),
        ),
        Ok(Event::End(_)) => Ok(XmlEvent::End),
        Ok(Event::Eof) => Ok(XmlEvent::Eof),
        Ok(_) => Ok(XmlEvent::Other),
        Err(e) => Err(e.to_string()),
    }
}

/// `Reader::buffer_position`, for a reader that has handed out all its reads:
/// how many bytes of the input it has taken note of. The bytes of a start tag
/// that the end of the input cuts off are read and not counted.
#[verifier::external_body]
pub(crate) fn position(reader: &EventReader<'_>) -> (at: usize)
    requires
        reader_pending(*reader).len() == 0,
    ensures
        at == reader_end(*reader),
{
    reader.inner.buffer_position()
}

/// `Attributes::new`, which is what `BytesStart::attributes` calls with the
/// tag's content and the length of its name: a cursor at the start of the
/// attribute list.
#[verifier::external_body]
pub(crate) fn attributes_of<'a>(content: &'a [u8], pos: usize) -> (attrs: AttributeCursor<'a>)
    ensures
        attributes_left(attrs) == tag_attributes(content@, pos as nat),
{
    AttributeCursor { inner: Attributes::new(content, pos) }
}

/// `Iterator::next` of `Attributes`, with the attribute turned into a pair of
/// byte vectors and a failure into the `Display` rendering of the reader's
/// error: the first item that is left, if there is one, and the cursor moved
/// past it.
#[verifier::external_body]
pub(crate) fn next_attribute(attrs: &mut AttributeCursor<'_>) -> (r: Option<
    Result<(Vec<u8>, Vec<u8>), String>,
>)
    ensures
        attributes_left(*old(attrs)).len() == 0 ==> r is None && attributes_left(*final(attrs))
            == attributes_left(*old(attrs)),
        attributes_left(*old(attrs)).len() > 0 ==> r is Some && attribute_of(r->Some_0)
            == attributes_left(*old(attrs))[0] && attributes_left(*final(attrs))
            == attributes_left(*old(attrs)).drop_first(),
{
    match attrs.inner.next() {
        Some(Ok(a)) => Some(Ok((a.key.to_vec(), a.value.into_owned()))),
        Some(Err(e)) => Some(Err(e.to_string())),
        None => None,
    }
}

/// `Attribute::unescape_and_decode_value` on an attribute whose value is
/// `raw`, a failure turned into the `Display` rendering of the reader's
/// error. Without the reader's `encoding` feature the decoding is plain
/// UTF-8, so the result depends on `raw` alone.
#[verifier::external_body]
pub(crate) fn decode_value(reader: &EventReader<'_>, raw: &[u8]) -> (r: Result<String, String>)
    ensures
        match r {
            Ok(text) => decoded_value(raw@) == Ok::<Seq<char>, Seq<char>>(text@),
            Err(diagnostic) => decoded_value(raw@) == Err::<Seq<char>, Seq<char>>(diagnostic@),
        },
{
    let attribute = Attribute { key: &[], value: Cow::Borrowed(raw) };
    attribute.unescape_and_decode_value(&reader.inner).map_err(|e| e.to_string())
}

} // verus!
