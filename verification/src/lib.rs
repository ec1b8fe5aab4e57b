//! Conversion of EasyEDA footprint geometry records into KiCad
//! footprint documents.
//!
//! The library decodes one JSON-parsed record at a time into a graphic
//! primitive or pad, fits arcs with line segments, converts the
//! coordinate system at emission time, and serializes the accumulated
//! footprint as an S-expression document.  All geometry is held as
//! fixed-point integers: millionths of a mil internally, converted to
//! millimetres exactly when text is emitted.

pub mod arc;
pub mod decode;
pub mod geom;
pub mod layers;
pub mod model;
pub mod numfmt;
