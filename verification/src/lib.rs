//! Reads a geographic position out of the textual report of an image
//! metadata tool and builds a map link for it.
//!
//! The report is scanned for its position line, which gives latitude and
//! longitude in degrees, minutes and seconds with a hemisphere letter each.
//! The library finds the fields and decides the sign; turning the fields
//! into binary floating point is left to the caller.

pub mod format;
pub mod gps;
pub mod laws;
pub mod scan;
pub mod text;
pub mod url;
