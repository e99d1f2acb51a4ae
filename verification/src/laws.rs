//! What holds of every extraction.

use crate::error::{Error, Failure};
use crate::extract::{
    after, assigned, completed, cut_off_diagnostic, ends_in_tag, extraction, is_track_point,
    latitude_key, longitude_key, origin, outcome, scan_from, scan_of, start, step_tag,
    tag_point, with_attribute, with_attributes, ProgressView,
};
use crate::literal::float_text;
use crate::point::Position;
use crate::track::{segment_count, Track};
use crate::xml::{decoded_value, tag_attributes, xml_end, xml_events, AttributeView, Step, TagView};
use vstd::prelude::*;

verus! {

/// No step of `events` is a track point.
pub open spec fn no_track_point(events: Seq<Step>) -> bool {
    forall|i: int| 0 <= i < events.len() ==> !is_track_point(#[trigger] events[i])
}

/// At most one step of `events` is a track point.
pub open spec fn at_most_one_track_point(events: Seq<Step>) -> bool {
    forall|i: int, j: int|
        0 <= i < events.len() && 0 <= j < events.len() && is_track_point(#[trigger] events[i])
            && is_track_point(#[trigger] events[j]) ==> i == j
}

/// No step of `events` is a failure of the reader.
pub open spec fn well_formed(events: Seq<Step>) -> bool {
    forall|i: int| 0 <= i < events.len() ==> !(#[trigger] events[i] is Malformed)
}

/// What fails at `step`, if anything does: the read itself, or the point of
/// a track point.
pub open spec fn step_failure(step: Step) -> Option<Failure> {
    match step {
        Step::Malformed(diagnostic) => Some(Failure::Xml(diagnostic)),
        other => if is_track_point(other) {
            match tag_point(step_tag(other)) {
                Ok(_) => None,
                Err(f) => Some(f),
            }
        } else {
            None
        },
    }
}

/// The steps of `events` before index `at` neither fail nor end the document.
pub open spec fn passes_before(events: Seq<Step>, at: int) -> bool {
    forall|i: int|
        0 <= i < at ==> step_failure(#[trigger] events[i]) is None && !(events[i] is Eof)
}

proof fn lemma_nothing_added(events: Seq<Step>, state: ProgressView)
    requires
        no_track_point(events),
    ensures
        scan_from(events, state) matches Ok(last) ==> last.points == state.points,
        well_formed(events) ==> scan_from(events, state) is Ok,
    decreases events.len(),
{
    if events.len() > 0 && !(events[0] is Eof) && !(events[0] is Malformed) {
        let rest = events.drop_first();
        assert forall|i: int| 0 <= i < rest.len() implies !is_track_point(#[trigger] rest[i])
            && (well_formed(events) ==> !(rest[i] is Malformed)) by {
            assert(rest[i] == events[i + 1]);
        }
        lemma_nothing_added(rest, after(state, events[0], None));
    }
}

proof fn lemma_one_added_at_most(events: Seq<Step>, state: ProgressView)
    requires
        at_most_one_track_point(events),
    ensures
        scan_from(events, state) matches Ok(last) ==> last.points.len() <= state.points.len()
            + 1,
    decreases events.len(),
{
    if events.len() > 0 && !(events[0] is Eof) && !(events[0] is Malformed) {
        let rest = events.drop_first();
        if is_track_point(events[0]) {
            assert forall|i: int| 0 <= i < rest.len() implies !is_track_point(
                #[trigger] rest[i],
            ) by {
                assert(rest[i] == events[i + 1]);
                if is_track_point(events[i + 1]) {
                    assert(is_track_point(events[0]));
                }
            }
            match tag_point(step_tag(events[0])) {
                Ok(p) => {
                    lemma_nothing_added(rest, after(state, events[0], Some(p)));
                },
                Err(_) => {},
            }
        } else {
            assert forall|i: int, j: int|
                0 <= i < rest.len() && 0 <= j < rest.len() && is_track_point(#[trigger] rest[i])
                    && is_track_point(#[trigger] rest[j]) implies i == j by {
                assert(rest[i] == events[i + 1]);
                assert(rest[j] == events[j + 1]);
            }
            lemma_one_added_at_most(rest, after(state, events[0], None));
        }
    }
}

proof fn lemma_first_failure(events: Seq<Step>, at: int, failure: Failure, state: ProgressView)
    requires
        0 <= at < events.len(),
        step_failure(events[at]) == Some(failure),
        passes_before(events, at),
    ensures
        scan_from(events, state) == Err::<ProgressView, Failure>(failure),
    decreases at,
{
    if at > 0 {
        let rest = events.drop_first();
        assert(step_failure(events[0]) is None && !(events[0] is Eof));
        assert(rest[at - 1] == events[at]);
        assert forall|i: int| 0 <= i < at - 1 implies step_failure(#[trigger] rest[i]) is None
            && !(rest[i] is Eof) by {
            assert(rest[i] == events[i + 1]);
        }
        if is_track_point(events[0]) {
            lemma_first_failure(
                rest,
                at - 1,
                failure,
                after(state, events[0], Some(tag_point(step_tag(events[0]))->Ok_0)),
            );
        } else {
            lemma_first_failure(rest, at - 1, failure, after(state, events[0], None));
        }
    }
}

proof fn lemma_first_bad_attribute(
    p: Position,
    attrs: Seq<AttributeView>,
    at: int,
    failure: Failure,
)
    requires
        0 <= at < attrs.len(),
        with_attributes(p, attrs.take(at)) is Ok,
        match attrs[at] {
            Ok((key, raw)) => forall|q: Position| with_attribute(q, key, raw) == Err::<
                Position,
                Failure,
            >(failure),
            Err(diagnostic) => failure == Failure::Xml(diagnostic),
        },
    ensures
        with_attributes(p, attrs) == Err::<Position, Failure>(failure),
    decreases at,
{
    if at > 0 {
        let head = attrs.take(at);
        assert(head[0] == attrs[0]);
        assert(head.drop_first() =~= attrs.drop_first().take(at - 1));
        assert(attrs.drop_first()[at - 1] == attrs[at]);
        match attrs[0] {
            Ok((key, raw)) => {
                lemma_first_bad_attribute(
                    with_attribute(p, key, raw)->Ok_0,
                    attrs.drop_first(),
                    at - 1,
                    failure,
                );
            },
            Err(_) => {},
        }
    }
}

proof fn lemma_open_and_close(
    before: Seq<Step>,
    tag: TagView,
    rest: Seq<Step>,
    state: ProgressView,
)
    ensures
        scan_from(before.push(Step::Empty(tag)) + rest, state) == scan_from(
            before.push(Step::Start(tag)).push(Step::End) + rest,
            state,
        ),
    decreases before.len(),
{
    let single = before.push(Step::Empty(tag)) + rest;
    let pair = before.push(Step::Start(tag)).push(Step::End) + rest;
    if before.len() == 0 {
        reveal_with_fuel(scan_from, 3);
        let closing = seq![Step::End] + rest;
        assert(single[0] == Step::Empty(tag) && pair[0] == Step::Start(tag));
        assert(single.drop_first() =~= rest);
        assert(pair.drop_first() =~= closing);
        assert(closing[0] == Step::End);
        assert(closing.drop_first() =~= rest);
        if is_track_point(single[0]) {
            match tag_point(tag) {
                Ok(p) => {
                    assert(after(after(state, pair[0], Some(p)), Step::End, None) == after(
                        state,
                        single[0],
                        Some(p),
                    ));
                },
                Err(_) => {},
            }
        } else {
            assert(after(after(state, pair[0], None), Step::End, None) == after(
                state,
                single[0],
                None,
            ));
        }
    } else {
        let shorter = before.drop_first();
        assert(single[0] == before[0] && pair[0] == before[0]);
        assert(single.drop_first() =~= shorter.push(Step::Empty(tag)) + rest);
        assert(pair.drop_first() =~= shorter.push(Step::Start(tag)).push(Step::End) + rest);
        if !(before[0] is Eof) && !(before[0] is Malformed) {
            if is_track_point(before[0]) {
                match tag_point(step_tag(before[0])) {
                    Ok(p) => {
                        lemma_open_and_close(shorter, tag, rest, after(state, before[0], Some(p)));
                    },
                    Err(_) => {},
                }
            } else {
                lemma_open_and_close(shorter, tag, rest, after(state, before[0], None));
            }
        }
    }
}

/// A document without a track point, all of whose reads succeed, gives no
/// point: if its end is in order, the track without points, which has no
/// stretch to measure.
pub proof fn no_track_point_gives_empty_track(doc: Seq<u8>)
    requires
        well_formed(xml_events(doc, true)),
        no_track_point(xml_events(doc, true)),
    ensures
        scan_of(xml_events(doc, true)) matches Ok(state) && state.points == Seq::<
            Position,
        >::empty() && extraction(doc) == completed(doc, xml_end(doc, true), state),
        extraction(doc) matches Ok(track) ==> track == Seq::<Position>::empty() && segment_count(
            track.len(),
        ) == 0,
{
    lemma_nothing_added(xml_events(doc, true), start());
}

/// A document with one track point at most gives, if it gives a track, one
/// without a stretch to measure, whatever the point's coordinates are.
pub proof fn single_track_point_gives_no_segment(doc: Seq<u8>)
    requires
        at_most_one_track_point(xml_events(doc, true)),
    ensures
        extraction(doc) matches Ok(track) ==> track.len() <= 1 && segment_count(track.len())
            == 0,
{
    lemma_one_added_at_most(xml_events(doc, true), start());
}

/// A self-closing tag is read like a start tag with the same name and
/// attributes that is followed at once by its end tag: between the same
/// events the two give the same points and leave the same elements open.
pub proof fn self_closing_tag_reads_like_open_and_close(
    before: Seq<Step>,
    tag: TagView,
    rest: Seq<Step>,
)
    ensures
        scan_of(before.push(Step::Empty(tag)) + rest) == scan_of(
            before.push(Step::Start(tag)).push(Step::End) + rest,
        ),
{
    lemma_open_and_close(before, tag, rest, start());
}

/// A read that fails before the document has ended fails the extraction with
/// its diagnostic, whatever points came before it.
pub proof fn failed_read_fails_extraction(doc: Seq<u8>, at: int, diagnostic: Seq<char>)
    requires
        0 <= at < xml_events(doc, true).len(),
        xml_events(doc, true)[at] == Step::Malformed(diagnostic),
        passes_before(xml_events(doc, true), at),
    ensures
        extraction(doc) == Err::<Seq<Position>, Failure>(Failure::Xml(diagnostic)),
{
    lemma_first_failure(xml_events(doc, true), at, Failure::Xml(diagnostic), start());
}

/// A track point whose latitude or longitude is no floating-point literal
/// fails the extraction with that text, if nothing failed before it: no
/// earlier read, no earlier point, no earlier attribute of the same tag.
pub proof fn bad_number_fails_extraction(doc: Seq<u8>, at: int, attribute: int, text: Seq<char>)
    requires
        0 <= at < xml_events(doc, true).len(),
        is_track_point(xml_events(doc, true)[at]),
        passes_before(xml_events(doc, true), at),
        ({
            let tag = step_tag(xml_events(doc, true)[at]);
            let attrs = tag_attributes(tag.content, tag.name_len);
            &&& 0 <= attribute < attrs.len()
            &&& with_attributes(origin(), attrs.take(attribute)) is Ok
            &&& attrs[attribute] matches Ok((key, raw)) && (key == latitude_key() || key
                == longitude_key()) && decoded_value(raw) == Ok::<Seq<char>, Seq<char>>(text)
        }),
        !float_text(text),
    ensures
        extraction(doc) == Err::<Seq<Position>, Failure>(Failure::Parse(text)),
{
    let events = xml_events(doc, true);
    let tag = step_tag(events[at]);
    let attrs = tag_attributes(tag.content, tag.name_len);
    lemma_first_bad_attribute(origin(), attrs, attribute, Failure::Parse(text));
    lemma_first_failure(events, at, Failure::Parse(text), start());
}

/// A document that ends inside a tag gives no track: where no read and no
/// point fails before, the failure is that of the cut-off input.
pub proof fn input_cut_off_in_a_tag_fails(doc: Seq<u8>)
    requires
        ends_in_tag(doc) || xml_end(doc, true) != doc.len(),
    ensures
        extraction(doc) is Err,
        scan_of(xml_events(doc, true)) is Ok ==> extraction(doc) == Err::<
            Seq<Position>,
            Failure,
        >(Failure::Xml(cut_off_diagnostic())),
{
}

/// A document that ends with an element open gives no track.
pub proof fn open_element_at_the_end_fails(doc: Seq<u8>)
    requires
        scan_of(xml_events(doc, true)) matches Ok(state) && state.depth > 0,
    ensures
        extraction(doc) matches Err(f) && f is Xml,
{
}

/// Extraction is a function of the document: two runs on the same bytes end
/// alike, in the same points or in the same failure.
pub proof fn extraction_is_repeatable(
    doc: Seq<u8>,
    first: Result<Track, Error>,
    second: Result<Track, Error>,
)
    requires
        outcome(first) == extraction(doc),
        outcome(second) == extraction(doc),
    ensures
        outcome(first) == outcome(second),
        first is Ok <==> second is Ok,
        first matches Ok(a) ==> second matches Ok(b) && a@ == b@ && segment_count(a@.len())
            == segment_count(b@.len()),
        first matches Err(e) ==> second matches Err(f) && e@ == f@,
{
}

/// The order in which a latitude and a longitude stand in a tag does not
/// matter.
pub proof fn attribute_order_is_irrelevant(p: Position, lat: Seq<char>, lon: Seq<char>)
    requires
        float_text(lat),
        float_text(lon),
    ensures
        assigned(assigned(p, latitude_key(), lat)->Ok_0, longitude_key(), lon) == assigned(
            assigned(p, longitude_key(), lon)->Ok_0,
            latitude_key(),
            lat,
        ),
        assigned(assigned(p, latitude_key(), lat)->Ok_0, longitude_key(), lon) == Ok::<
            Position,
            Failure,
        >(Position { latitude: lat, longitude: lon }),
{
    assert(latitude_key()[1] != longitude_key()[1]);
}

/// Of two values for one coordinate the later one stays.
pub proof fn last_assignment_wins(p: Position, key: Seq<u8>, earlier: Seq<char>, later: Seq<char>)
    requires
        float_text(earlier),
        float_text(later),
    ensures
        assigned(assigned(p, key, earlier)->Ok_0, key, later) == assigned(p, key, later),
{
}

} // verus!
