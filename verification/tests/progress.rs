use gpx_reader::extract::{is_cut_off, Progress};
use gpx_reader::xml::{Tag, XmlEvent};
use gpx_reader::{Coordinate, Error, TrackPoint};

fn tag(content: &str, name_len: usize) -> Tag {
    Tag { content: content.as_bytes().to_vec(), name_len }
}

fn point(latitude: &str, longitude: &str) -> TrackPoint {
    TrackPoint::new(
        Coordinate::parse(latitude.to_string()).ok().unwrap(),
        Coordinate::parse(longitude.to_string()).ok().unwrap(),
    )
}

#[test]
fn progress_starts_without_points_and_open_elements() {
    let progress = Progress::new();
    assert_eq!(progress.track.points.len(), 0);
    assert_eq!(progress.depth, 0);
}

#[test]
fn start_tag_opens_an_element_and_end_tag_closes_it() {
    let mut progress = Progress::new();
    progress.take(&XmlEvent::Start(tag("gpx", 3)), None);
    assert_eq!(progress.depth, 1);
    progress.take(&XmlEvent::Start(tag("trk", 3)), None);
    assert_eq!(progress.depth, 2);
    progress.take(&XmlEvent::Other, None);
    assert_eq!(progress.depth, 2);
    progress.take(&XmlEvent::End, None);
    assert_eq!(progress.depth, 1);
    progress.take(&XmlEvent::End, None);
    assert_eq!(progress.depth, 0);
    progress.take(&XmlEvent::End, None);
    assert_eq!(progress.depth, 0);
    assert_eq!(progress.track.points.len(), 0);
}

#[test]
fn self_closing_tag_opens_no_element() {
    let mut progress = Progress::new();
    progress.take(&XmlEvent::Empty(tag("trkpt lat=\"1\"", 5)), Some(point("1", "0.0")));
    assert_eq!(progress.depth, 0);
    assert_eq!(progress.track.points.len(), 1);
    assert_eq!(progress.track.points[0].latitude.as_str(), "1");
}

#[test]
fn points_are_appended_in_the_order_taken() {
    let mut progress = Progress::new();
    progress.take(&XmlEvent::Start(tag("trkpt", 5)), Some(point("1", "2")));
    progress.take(&XmlEvent::End, None);
    progress.take(&XmlEvent::Empty(tag("trkpt", 5)), Some(point("3", "4")));
    assert_eq!(progress.depth, 0);
    let track = progress.finish(b"<trkpt></trkpt><trkpt/>", 23).unwrap();
    assert_eq!(track.points.len(), 2);
    assert_eq!(track.points[0].latitude.as_str(), "1");
    assert_eq!(track.points[1].longitude.as_str(), "4");
}

#[test]
fn finish_gives_the_track_of_a_complete_document() {
    let mut progress = Progress::new();
    progress.take(&XmlEvent::Empty(tag("trkpt", 5)), Some(point("1", "2")));
    let track = progress.finish(b"<trkpt/>", 8).unwrap();
    assert_eq!(track.points.len(), 1);
    assert_eq!(Progress::new().finish(b"", 0).unwrap().points.len(), 0);
}

#[test]
fn finish_rejects_a_position_short_of_the_end() {
    let mut progress = Progress::new();
    progress.take(&XmlEvent::Empty(tag("a b=\">\"", 1)), None);
    match progress.finish(b"<a b=\">\"/", 0) {
        Err(Error::XmlError(diagnostic)) => {
            assert_eq!(diagnostic, "unexpected end of input inside a tag")
        }
        _ => panic!("the cut-off input was accepted"),
    }
}

#[test]
fn finish_rejects_a_last_bracket_that_opens() {
    match Progress::new().finish(b"<a/><", 5) {
        Err(Error::XmlError(diagnostic)) => {
            assert_eq!(diagnostic, "unexpected end of input inside a tag")
        }
        _ => panic!("the cut-off input was accepted"),
    }
}

#[test]
fn finish_rejects_an_open_element() {
    let mut progress = Progress::new();
    progress.take(&XmlEvent::Start(tag("gpx", 3)), Some(point("1", "2")));
    match progress.finish(b"<gpx>", 5) {
        Err(Error::XmlError(diagnostic)) => {
            assert_eq!(diagnostic, "unexpected end of input: an element is not closed")
        }
        _ => panic!("the open element was accepted"),
    }
}

#[test]
fn cut_off_is_told_by_the_last_angle_bracket() {
    assert!(!is_cut_off(b""));
    assert!(!is_cut_off(b"text"));
    assert!(!is_cut_off(b"<a>"));
    assert!(!is_cut_off(b"<a>text"));
    assert!(!is_cut_off(b"<a><b/>\n"));
    assert!(!is_cut_off(b">"));
    assert!(is_cut_off(b"<"));
    assert!(is_cut_off(b"<a"));
    assert!(is_cut_off(b"<a></a"));
    assert!(is_cut_off(b"<a><b c=\"d\""));
    assert!(is_cut_off(b"<a>text<"));
}
