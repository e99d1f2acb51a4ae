//! Coordinates and track points.
//!
//! A coordinate is kept as the literal that the document gives for it, which
//! this library checks and never rounds. Turning the literal into a machine
//! number is left to the caller.

use crate::error::Error;
use crate::literal::{float_text, is_float_text};
use vstd::prelude::*;

verus! {

/// A latitude or a longitude in degrees, as a floating-point literal.
#[derive(Debug)]
pub struct Coordinate {
    text: String,
}

impl View for Coordinate {
    type V = Seq<char>;

    closed spec fn view(&self) -> Seq<char> {
        self.text@
    }
}

impl Clone for Coordinate {
    fn clone(&self) -> (c: Coordinate)
        ensures
            c@ == self@,
    {
        proof {
            use_type_invariant(self);
        }
        Coordinate { text: self.text.clone() }
    }
}

/// The literal of the coordinate that a point has until one is assigned.
pub open spec fn zero_text() -> Seq<char> {
    "0.0"@
}

impl Coordinate {
    #[verifier::type_invariant]
    spec fn is_literal(self) -> bool {
        float_text(self.text@)
    }

    /// Accepts `text` as a coordinate if it is a floating-point literal, and
    /// else reports it.
    pub fn parse(text: String) -> (r: Result<Coordinate, Error>)
        ensures
            match r {
                Ok(c) => float_text(text@) && c@ == text@,
                Err(e) => !float_text(text@) && e == Error::ParseError(text),
            },
    {
        if is_float_text(text.as_str()) {
            Ok(Coordinate { text })
        } else {
            Err(Error::ParseError(text))
        }
    }

    /// The coordinate `0.0`.
    pub fn zero() -> (c: Coordinate)
        ensures
            c@ == zero_text(),
    {
        let text = String::from_str("0.0");
        proof {
            zero_is_literal();
        }
        Coordinate { text }
    }

    /// The literal.
    pub fn as_str(&self) -> (text: &str)
        ensures
            text@ == self@,
            float_text(text@),
    {
        proof {
            use_type_invariant(self);
        }
        self.text.as_str()
    }
}

/// `0.0` is a floating-point literal.
pub proof fn zero_is_literal()
    ensures
        float_text(zero_text()),
{
    reveal_strlit("0.0");
    let t = zero_text();
    assert(vstd::utf8::is_ascii_chars(t));
    vstd::utf8::is_ascii_chars_encode_utf8(t);
    let s = vstd::utf8::encode_utf8(t);
    assert(s.len() == 3 && s[0] == 0x30 && s[1] == 0x2e && s[2] == 0x30);
    reveal_with_fuel(crate::literal::digits_end, 3);
    assert(crate::literal::number_at(s, 0));
}

/// A recorded position.
#[derive(Debug, Clone)]
pub struct TrackPoint {
    pub latitude: Coordinate,
    pub longitude: Coordinate,
}

/// The value of a [`TrackPoint`]: the literals of its two coordinates.
pub struct Position {
    pub latitude: Seq<char>,
    pub longitude: Seq<char>,
}

impl View for TrackPoint {
    type V = Position;

    open spec fn view(&self) -> Position {
        Position { latitude: self.latitude@, longitude: self.longitude@ }
    }
}

impl TrackPoint {
    /// The point at the given latitude and longitude.
    pub fn new(latitude: Coordinate, longitude: Coordinate) -> (p: TrackPoint)
        ensures
            p.latitude == latitude,
            p.longitude == longitude,
    {
        TrackPoint { latitude, longitude }
    }
}

} // verus!
