use gpx_reader::extract::{is_latitude_key, is_longitude_key, same_bytes};
use gpx_reader::xml::Tag;
use gpx_reader::{Coordinate, Error, Track, TrackPoint};

fn point(latitude: &str, longitude: &str) -> TrackPoint {
    TrackPoint::new(
        Coordinate::parse(latitude.to_string()).ok().unwrap(),
        Coordinate::parse(longitude.to_string()).ok().unwrap(),
    )
}

#[test]
fn new_track_is_empty() {
    let track = Track::new();
    assert_eq!(track.points.len(), 0);
    assert_eq!(track.segments().len(), 0);
}

#[test]
fn add_appends_in_order() {
    let mut track = Track::new();
    track.add(point("1", "10"));
    track.add(point("2", "20"));
    track.add(point("1", "10"));
    assert_eq!(track.points.len(), 3);
    assert_eq!(track.points[0].latitude.as_str(), "1");
    assert_eq!(track.points[1].latitude.as_str(), "2");
    assert_eq!(track.points[1].longitude.as_str(), "20");
    assert_eq!(track.points[2].latitude.as_str(), "1");
}

#[test]
fn segments_pair_each_point_with_the_next() {
    let mut track = Track::new();
    track.add(point("1", "10"));
    assert_eq!(track.segments().len(), 0);
    track.add(point("2", "20"));
    track.add(point("3", "30"));
    track.add(point("4", "40"));
    let segments = track.segments();
    assert_eq!(segments.len(), 3);
    for (i, (from, to)) in segments.iter().enumerate() {
        assert_eq!(from.latitude.as_str(), track.points[i].latitude.as_str());
        assert_eq!(to.latitude.as_str(), track.points[i + 1].latitude.as_str());
        assert_eq!(to.longitude.as_str(), track.points[i + 1].longitude.as_str());
    }
}

#[test]
fn new_point_keeps_its_coordinates() {
    let p = point("12.5", "-7.3");
    assert_eq!(p.latitude.as_str(), "12.5");
    assert_eq!(p.longitude.as_str(), "-7.3");
}

#[test]
fn origin_is_zero() {
    let p = TrackPoint::origin();
    assert_eq!(p.latitude.as_str(), "0.0");
    assert_eq!(p.longitude.as_str(), "0.0");
    assert_eq!(Coordinate::zero().as_str(), "0.0");
    assert_eq!(Coordinate::zero().as_str().parse::<f64>(), Ok(0.0));
}

#[test]
fn coordinate_parse_accepts_a_literal() {
    let c = Coordinate::parse("-7.3".to_string()).ok().unwrap();
    assert_eq!(c.as_str(), "-7.3");
    assert_eq!(c.clone().as_str(), "-7.3");
    assert_eq!(c.as_str().parse::<f64>(), Ok(-7.3));
}

#[test]
fn coordinate_parse_reports_the_text() {
    match Coordinate::parse("7,3".to_string()) {
        Err(Error::ParseError(found)) => assert_eq!(found, "7,3"),
        _ => panic!("7,3 was not reported"),
    }
}

#[test]
fn assign_sets_latitude_and_longitude() {
    let mut p = TrackPoint::origin();
    assert!(p.assign(b"lat", "1.5".to_string()).is_ok());
    assert_eq!(p.latitude.as_str(), "1.5");
    assert_eq!(p.longitude.as_str(), "0.0");
    assert!(p.assign(b"lon", "2.5".to_string()).is_ok());
    assert_eq!(p.latitude.as_str(), "1.5");
    assert_eq!(p.longitude.as_str(), "2.5");
}

#[test]
fn assign_lets_the_last_value_win() {
    let mut p = TrackPoint::origin();
    assert!(p.assign(b"lat", "1".to_string()).is_ok());
    assert!(p.assign(b"lat", "2".to_string()).is_ok());
    assert_eq!(p.latitude.as_str(), "2");
}

#[test]
fn assign_ignores_other_keys() {
    let mut p = point("1", "2");
    assert!(p.assign(b"ele", "high".to_string()).is_ok());
    assert!(p.assign(b"", "x".to_string()).is_ok());
    assert_eq!(p.latitude.as_str(), "1");
    assert_eq!(p.longitude.as_str(), "2");
}

#[test]
fn assign_rejects_what_is_no_number_and_keeps_the_point() {
    let mut p = point("1", "2");
    match p.assign(b"lon", "west".to_string()) {
        Err(Error::ParseError(found)) => assert_eq!(found, "west"),
        _ => panic!("west was not reported"),
    }
    assert_eq!(p.latitude.as_str(), "1");
    assert_eq!(p.longitude.as_str(), "2");
}

#[test]
fn error_messages() {
    assert_eq!(
        Error::ParseError("abc".to_string()).message(),
        "invalid float literal: abc"
    );
    assert_eq!(
        Error::XmlError("Unexpected token".to_string()).message(),
        "Unexpected token"
    );
}

#[test]
fn keys_and_names_are_compared_byte_for_byte() {
    assert!(is_latitude_key(b"lat"));
    assert!(!is_latitude_key(b"lon"));
    assert!(!is_latitude_key(b"Lat"));
    assert!(!is_latitude_key(b"lat "));
    assert!(is_longitude_key(b"lon"));
    assert!(!is_longitude_key(b"lat"));
    assert!(!is_longitude_key(b"lo"));
    assert!(same_bytes(b"", b""));
    assert!(same_bytes(b"abc", b"abc"));
    assert!(!same_bytes(b"abc", b"abd"));
    assert!(!same_bytes(b"abc", b"ab"));
}

#[test]
fn tag_name_is_the_prefix_of_the_content() {
    let tag = Tag { content: b"trkpt lat=\"1\"".to_vec(), name_len: 5 };
    assert_eq!(tag.name(), b"trkpt");
    assert!(tag.is_track_point());
    let other = Tag { content: b"trkpt lat=\"1\"".to_vec(), name_len: 4 };
    assert_eq!(other.name(), b"trkp");
    assert!(!other.is_track_point());
    let bare = Tag { content: b"trkpt".to_vec(), name_len: 5 };
    assert!(bare.is_track_point());
    let empty = Tag { content: Vec::new(), name_len: 0 };
    assert!(!empty.is_track_point());
}
