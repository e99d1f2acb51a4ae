//! Why an extraction failed.

use vstd::prelude::*;

verus! {

/// The two ways in which reading a track can fail.
#[derive(Debug)]
pub enum Error {
    /// The document could not be read as XML. Carries the diagnostic: the
    /// reader's own, or this library's where the input ends too early.
    XmlError(String),
    /// A latitude or longitude is not a floating-point literal. Carries the
    /// offending text.
    ParseError(String),
}

/// The value of an [`Error`]: its kind, with the diagnostic of an XML error
/// or the text that is no number.
pub enum Failure {
    Xml(Seq<char>),
    Parse(Seq<char>),
}

impl View for Error {
    type V = Failure;

    open spec fn view(&self) -> Failure {
        match self {
            Error::XmlError(diagnostic) => Failure::Xml(diagnostic@),
            Error::ParseError(text) => Failure::Parse(text@),
        }
    }
}

/// What a message about a number that does not parse begins with.
pub open spec fn parse_error_prefix() -> Seq<char> {
    "invalid float literal: "@
}

impl Error {
    /// A description of the error for a person to read. For a number that
    /// does not parse it names the offending text; for an XML error it is the
    /// reader's own diagnostic.
    pub fn message(&self) -> (text: String)
        ensures
            match self {
                Error::XmlError(diagnostic) => text@ == diagnostic@,
                Error::ParseError(found) => text@ == parse_error_prefix() + found@,
            },
    {
        match self {
            Error::XmlError(diagnostic) => diagnostic.clone(),
            Error::ParseError(found) => {
                let mut text = String::from_str("invalid float literal: ");
                text.append(found.as_str());
                text
            },
        }
    }
}

} // verus!
