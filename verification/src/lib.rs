//! Reads the points of a GPS track out of a GPX document.
//!
//! [`Track::from_gpx_bytes`] streams the document through an XML reader and
//! collects one [`TrackPoint`] for every `trkpt` element, in the order of the
//! document. A document that fails to read, that ends inside a tag or that
//! leaves an element open gives an error and no track. A coordinate is kept
//! as the floating-point literal that the
//! document gives for it; [`Track::segments`] pairs each point with its
//! successor, which is what a length is summed over.
//!
//! - [`literal`]: which texts are floating-point literals.
//! - [`point`], [`track`], [`error`]: the data.
//! - [`xml`]: the XML reader, behind contracts that are stated and not proved.
//! - [`extract`]: what extraction comes to, and the code that does it.
//! - [`laws`]: what holds of every extraction.

pub mod error;
pub mod extract;
pub mod laws;
pub mod literal;
pub mod point;
pub mod track;
pub mod xml;

pub use error::Error;
pub use point::{Coordinate, TrackPoint};
pub use track::Track;
