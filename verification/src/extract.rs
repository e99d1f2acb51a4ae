//! Extraction of a track from a GPX document.
//!
//! The document is read as one forward stream of XML events. Every start tag
//! named `trkpt`, self-closing or not, gives one point: its `lat` and `lon`
//! attributes are decoded and checked, in the order in which they stand, and
//! a coordinate whose attribute is missing is `0.0`. Everything else in the
//! document is passed over. The first failure, of the reader or of a number,
//! ends the extraction, and no track comes out of it. Nor does one come out
//! of a document that ends inside a tag or with an element open.

use crate::error::{Error, Failure};
use crate::literal::float_text;
use crate::point::{zero_text, Coordinate, Position, TrackPoint};
use crate::track::Track;
use crate::xml::{
    attributes_left, attributes_of, decode_value, decoded_value, next_attribute, next_event,
    open_reader, position, reader_end, reader_pending, step_of, tag_attributes, xml_end,
    xml_events, AttributeView, EventReader, Step, Tag, TagView, XmlEvent,
};
use vstd::prelude::*;

verus! {

/// The bytes of `trkpt`, the name of the element that holds one point.
pub open spec fn track_point_name() -> Seq<u8> {
    seq![0x74u8, 0x72u8, 0x6bu8, 0x70u8, 0x74u8]
}

/// The bytes of `lat`, the attribute that holds the latitude.
pub open spec fn latitude_key() -> Seq<u8> {
    seq![0x6cu8, 0x61u8, 0x74u8]
}

/// The bytes of `lon`, the attribute that holds the longitude.
pub open spec fn longitude_key() -> Seq<u8> {
    seq![0x6cu8, 0x6fu8, 0x6eu8]
}

/// The point that a tag's attributes are applied to: both coordinates `0.0`.
pub open spec fn origin() -> Position {
    Position { latitude: zero_text(), longitude: zero_text() }
}

/// The name of a tag: the first `name_len` bytes of its content.
pub open spec fn tag_name(tag: TagView) -> Seq<u8> {
    tag.content.take(tag.name_len as int)
}

/// The point `p` after the text `text` was found under the attribute `key`:
/// a latitude or a longitude replaces the one that `p` had, if it is a
/// floating-point literal, and fails the point if it is none; any other
/// attribute leaves `p` as it is.
pub open spec fn assigned(p: Position, key: Seq<u8>, text: Seq<char>) -> Result<
    Position,
    Failure,
> {
    if key == latitude_key() {
        if float_text(text) {
            Ok(Position { latitude: text, longitude: p.longitude })
        } else {
            Err(Failure::Parse(text))
        }
    } else if key == longitude_key() {
        if float_text(text) {
            Ok(Position { latitude: p.latitude, longitude: text })
        } else {
            Err(Failure::Parse(text))
        }
    } else {
        Ok(p)
    }
}

/// The point `p` after the attribute `key` with the raw value `raw`. Only the
/// value of a latitude or a longitude is decoded, so only there can decoding
/// fail.
pub open spec fn with_attribute(p: Position, key: Seq<u8>, raw: Seq<u8>) -> Result<
    Position,
    Failure,
> {
    if key == latitude_key() || key == longitude_key() {
        match decoded_value(raw) {
            Ok(text) => assigned(p, key, text),
            Err(diagnostic) => Err(Failure::Xml(diagnostic)),
        }
    } else {
        Ok(p)
    }
}

/// The point `p` after the attributes `attrs`, applied first to last. The
/// first failure is the result.
pub open spec fn with_attributes(p: Position, attrs: Seq<AttributeView>) -> Result<
    Position,
    Failure,
>
    decreases attrs.len(),
{
    if attrs.len() == 0 {
        Ok(p)
    } else {
        match attrs[0] {
            Err(diagnostic) => Err(Failure::Xml(diagnostic)),
            Ok((key, raw)) => match with_attribute(p, key, raw) {
                Ok(q) => with_attributes(q, attrs.drop_first()),
                Err(f) => Err(f),
            },
        }
    }
}

/// The point that the attributes of `tag` describe.
pub open spec fn tag_point(tag: TagView) -> Result<Position, Failure> {
    with_attributes(origin(), tag_attributes(tag.content, tag.name_len))
}

/// Whether `step` is a start tag named `trkpt`, self-closing or not.
pub open spec fn is_track_point(step: Step) -> bool {
    match step {
        Step::Start(tag) => tag_name(tag) == track_point_name(),
        Step::Empty(tag) => tag_name(tag) == track_point_name(),
        _ => false,
    }
}

/// The tag of a step that is a start tag.
pub open spec fn step_tag(step: Step) -> TagView {
    match step {
        Step::Start(tag) => tag,
        Step::Empty(tag) => tag,
        _ => TagView { content: Seq::empty(), name_len: 0 },
    }
}

/// Where an extraction stands between two reads: the points found, and how
/// many elements are open.
pub struct Progress {
    pub track: Track,
    pub depth: usize,
}

/// The value of a [`Progress`].
pub struct ProgressView {
    pub points: Seq<Position>,
    pub depth: nat,
}

impl View for Progress {
    type V = ProgressView;

    open spec fn view(&self) -> ProgressView {
        ProgressView { points: self.track@, depth: self.depth as nat }
    }
}

/// The state before the first read: no point, no open element.
pub open spec fn start() -> ProgressView {
    ProgressView { points: Seq::empty(), depth: 0 }
}

/// The state after the event `step`, which gave the point `point` if it is a
/// track point: the point is appended, a start tag opens an element and an
/// end tag closes one. A self-closing tag opens none.
pub open spec fn after(state: ProgressView, step: Step, point: Option<Position>) -> ProgressView {
    ProgressView {
        points: match point {
            Some(p) => state.points.push(p),
            None => state.points,
        },
        depth: match step {
            Step::Start(_) => state.depth + 1,
            Step::End => if state.depth > 0 {
                (state.depth - 1) as nat
            } else {
                0
            },
            _ => state.depth,
        },
    }
}

/// The state that `state` grows into over `events`, first to last, up to the
/// end of the document (or of the events): every track point is read and
/// appended, and the first failure, of a read or of a point, is the result.
pub open spec fn scan_from(events: Seq<Step>, state: ProgressView) -> Result<
    ProgressView,
    Failure,
>
    decreases events.len(),
{
    if events.len() == 0 {
        Ok(state)
    } else {
        match events[0] {
            Step::Eof => Ok(state),
            Step::Malformed(diagnostic) => Err(Failure::Xml(diagnostic)),
            step => if is_track_point(step) {
                match tag_point(step_tag(step)) {
                    Ok(p) => scan_from(events.drop_first(), after(state, step, Some(p))),
                    Err(f) => Err(f),
                }
            } else {
                scan_from(events.drop_first(), after(state, step, None))
            },
        }
    }
}

/// The state at the end of a stream of events.
pub open spec fn scan_of(events: Seq<Step>) -> Result<ProgressView, Failure> {
    scan_from(events, start())
}

/// The document ends inside a tag: its last angle bracket is a `<`.
pub open spec fn ends_in_tag(doc: Seq<u8>) -> bool
    decreases doc.len(),
{
    if doc.len() == 0 {
        false
    } else if doc.last() == 0x3e {
        false
    } else if doc.last() == 0x3c {
        true
    } else {
        ends_in_tag(doc.drop_last())
    }
}

/// The diagnostic for a document that ends inside a tag.
pub open spec fn cut_off_diagnostic() -> Seq<char> {
    "unexpected end of input inside a tag"@
}

/// The diagnostic for a document that ends with an element open.
pub open spec fn unclosed_diagnostic() -> Seq<char> {
    "unexpected end of input: an element is not closed"@
}

/// What the end of the document `doc` makes of the state `state`, for a
/// reader that reports the position `end`. The input must not end inside a
/// tag: its last angle bracket must close one, and the reader must have taken
/// note of every byte, which it has not where the end of the input cuts a
/// start tag off. Every element must be closed. Then the points are the
/// track.
pub open spec fn completed(doc: Seq<u8>, end: nat, state: ProgressView) -> Result<
    Seq<Position>,
    Failure,
> {
    if ends_in_tag(doc) || end != doc.len() {
        Err(Failure::Xml(cut_off_diagnostic()))
    } else if state.depth > 0 {
        Err(Failure::Xml(unclosed_diagnostic()))
    } else {
        Ok(state.points)
    }
}

/// What extraction from the document `doc` comes to: the first failure among
/// its events, read with text trimmed, and else what its end makes of the
/// points found.
pub open spec fn extraction(doc: Seq<u8>) -> Result<Seq<Position>, Failure> {
    match scan_of(xml_events(doc, true)) {
        Ok(state) => completed(doc, xml_end(doc, true), state),
        Err(f) => Err(f),
    }
}

/// The value of a result of extraction.
pub open spec fn outcome(r: Result<Track, Error>) -> Result<Seq<Position>, Failure> {
    match r {
        Ok(track) => Ok(track@),
        Err(e) => Err(e@),
    }
}

/// Tells whether `a` and `b` hold the same bytes.
pub fn same_bytes(a: &[u8], b: &[u8]) -> (r: bool)
    ensures
        r == (a@ == b@),
{
    if a.len() != b.len() {
        return false;
    }
    let mut i: usize = 0;
    while i < a.len()
        invariant
            a@.len() == b@.len(),
            0 <= i <= a@.len(),
            forall|j: int| 0 <= j < i ==> a@[j] == b@[j],
        decreases a@.len() - i,
    {
        if a[i] != b[i] {
            return false;
        }
        i = i + 1;
    }
    assert(a@ =~= b@);
    true
}

/// Tells whether `key` is `lat`.
pub fn is_latitude_key(key: &[u8]) -> (r: bool)
    ensures
        r == (key@ == latitude_key()),
{
    let lat: [u8; 3] = [0x6c, 0x61, 0x74];
    assert(lat@ =~= latitude_key());
    same_bytes(key, lat.as_slice())
}

/// Tells whether `key` is `lon`.
pub fn is_longitude_key(key: &[u8]) -> (r: bool)
    ensures
        r == (key@ == longitude_key()),
{
    let lon: [u8; 3] = [0x6c, 0x6f, 0x6e];
    assert(lon@ =~= longitude_key());
    same_bytes(key, lon.as_slice())
}

impl Tag {
    /// The name is a prefix of the content.
    pub open spec fn well_formed(&self) -> bool {
        self.name_len <= self.content@.len()
    }

    /// The name of the tag.
    pub fn name(&self) -> (name: &[u8])
        requires
            self.well_formed(),
        ensures
            name@ == tag_name(self@),
    {
        vstd::slice::slice_subrange(self.content.as_slice(), 0, self.name_len)
    }

    /// Tells whether the tag is named `trkpt`. Names are compared byte for
    /// byte: case matters, and a namespace prefix is part of the name.
    pub fn is_track_point(&self) -> (r: bool)
        requires
            self.well_formed(),
        ensures
            r == (tag_name(self@) == track_point_name()),
    {
        let trkpt: [u8; 5] = [0x74, 0x72, 0x6b, 0x70, 0x74];
        assert(trkpt@ =~= track_point_name());
        same_bytes(self.name(), trkpt.as_slice())
    }
}

impl TrackPoint {
    /// The point whose coordinates are both `0.0`.
    pub fn origin() -> (p: TrackPoint)
        ensures
            p@ == origin(),
    {
        TrackPoint::new(Coordinate::zero(), Coordinate::zero())
    }

    /// Takes the decoded text `text` of the attribute `key` into the point:
    /// under `lat` or `lon` it becomes the latitude or the longitude, unless
    /// it is no floating-point literal, which is an error that names it and
    /// leaves the point as it was. Under any other key nothing happens.
    pub fn assign(&mut self, key: &[u8], text: String) -> (r: Result<(), Error>)
        ensures
            match assigned(old(self)@, key@, text@) {
                Ok(p) => r is Ok && final(self)@ == p,
                Err(f) => r is Err && r->Err_0@ == f && final(self)@ == old(self)@,
            },
    {
        if is_latitude_key(key) {
            match Coordinate::parse(text) {
                Ok(c) => {
                    self.latitude = c;
                    Ok(())
                },
                Err(e) => Err(e),
            }
        } else if is_longitude_key(key) {
            match Coordinate::parse(text) {
                Ok(c) => {
                    self.longitude = c;
                    Ok(())
                },
                Err(e) => Err(e),
            }
        } else {
            Ok(())
        }
    }
}

/// Reads the point that the attributes of `tag` describe.
fn read_point(reader: &EventReader<'_>, tag: &Tag) -> (r: Result<TrackPoint, Error>)
    ensures
        match tag_point(tag@) {
            Ok(p) => r is Ok && r->Ok_0@ == p,
            Err(f) => r is Err && r->Err_0@ == f,
        },
{
    let mut point = TrackPoint::origin();
    let mut attrs = attributes_of(tag.content.as_slice(), tag.name_len);
    loop
        invariant
            tag_point(tag@) == with_attributes(point@, attributes_left(attrs)),
        decreases attributes_left(attrs).len(),
    {
        match next_attribute(&mut attrs) {
            None => {
                return Ok(point);
            },
            Some(Err(diagnostic)) => {
                return Err(Error::XmlError(diagnostic));
            },
            Some(Ok((key, raw))) => {
                if is_latitude_key(key.as_slice()) || is_longitude_key(key.as_slice()) {
                    match decode_value(reader, raw.as_slice()) {
                        Err(diagnostic) => {
                            return Err(Error::XmlError(diagnostic));
                        },
                        Ok(text) => {
                            match point.assign(key.as_slice(), text) {
                                Err(e) => {
                                    return Err(e);
                                },
                                Ok(()) => {},
                            }
                        },
                    }
                }
            },
        }
    }
}

/// Tells whether `data` ends inside a tag.
pub fn is_cut_off(data: &[u8]) -> (r: bool)
    ensures
        r == ends_in_tag(data@),
{
    let mut i: usize = data.len();
    assert(data@.take(i as int) =~= data@);
    while i > 0
        invariant
            i <= data@.len(),
            ends_in_tag(data@) == ends_in_tag(data@.take(i as int)),
        decreases i,
    {
        i = i - 1;
        assert(data@.take(i + 1).last() == data@[i as int]);
        assert(data@.take(i + 1).drop_last() =~= data@.take(i as int));
        if data[i] == 0x3e {
            return false;
        }
        if data[i] == 0x3c {
            return true;
        }
    }
    false
}

impl Progress {
    /// The state before the first read.
    pub fn new() -> (p: Progress)
        ensures
            p@ == start(),
    {
        Progress { track: Track::new(), depth: 0 }
    }

    /// Takes one event that is neither the end of the document nor a
    /// failure, with the point that was read from it if it is a track point.
    pub fn take(&mut self, event: &XmlEvent, point: Option<TrackPoint>)
        requires
            *event is Start ==> old(self).depth < usize::MAX,
        ensures
            final(self)@ == after(
                old(self)@,
                step_of(Ok(*event)),
                match point {
                    Some(p) => Some(p@),
                    None => None,
                },
            ),
    {
        match point {
            Some(p) => {
                self.track.add(p);
            },
            None => {},
        }
        match event {
            XmlEvent::Start(_) => {
                self.depth = self.depth + 1;
            },
            XmlEvent::End => {
                if self.depth > 0 {
                    self.depth = self.depth - 1;
                }
            },
            _ => {},
        }
    }

    /// Ends the extraction at the end of the document `data`, where the
    /// reader reports the position `position`: the track, unless the input
    /// ends inside a tag or with an element open.
    pub fn finish(self, data: &[u8], position: usize) -> (r: Result<Track, Error>)
        ensures
            outcome(r) == completed(data@, position as nat, self@),
    {
        if is_cut_off(data) || position != data.len() {
            Err(Error::XmlError(String::from_str("unexpected end of input inside a tag")))
        } else if self.depth > 0 {
            Err(
                Error::XmlError(
                    String::from_str("unexpected end of input: an element is not closed"),
                ),
            )
        } else {
            Ok(self.track)
        }
    }
}

impl Track {
    /// Extracts the track from the GPX document `data`.
    ///
    /// The result is the track of the document's events: `Ok` with every
    /// track point in the order of the document, or the first failure. A
    /// document that ends inside a tag or with an element open is a failure.
    pub fn from_gpx_bytes(data: &[u8]) -> (r: Result<Track, Error>)
        ensures
            outcome(r) == extraction(data@),
    {
        let mut reader = open_reader(data, true);
        let mut progress = Progress::new();
        let mut buf: Vec<u8> = Vec::new();
        loop
            invariant
                buf@.len() == 0,
                reader_end(reader) == xml_end(data@, true),
                progress.depth + reader_pending(reader).len() <= data@.len() + 1,
                scan_of(xml_events(data@, true)) == scan_from(reader_pending(reader), progress@),
            decreases reader_pending(reader).len(),
        {
            let ghost before = reader_pending(reader);
            match next_event(&mut reader, &mut buf) {
                Err(diagnostic) => {
                    return Err(Error::XmlError(diagnostic));
                },
                Ok(XmlEvent::Eof) => {
                    let at = position(&reader);
                    return progress.finish(data, at);
                },
                Ok(event) => {
                    let point = match &event {
                        XmlEvent::Start(tag) | XmlEvent::Empty(tag) => {
                            if tag.is_track_point() {
                                match read_point(&reader, tag) {
                                    Ok(p) => Some(p),
                                    Err(e) => {
                                        return Err(e);
                                    },
                                }
                            } else {
                                None
                            }
                        },
                        _ => None,
                    };
                    assert(before.len() >= 2 && progress.depth < data.len());
                    progress.take(&event, point);
                },
            }
            buf.clear();
        }
    }
}

} // verus!
