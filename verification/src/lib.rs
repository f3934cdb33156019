//! Mirrors date-bearing task entries from a remote structured-document
//! database into a standards-compliant calendar feed.
//!
//! The verified core: classifying and parsing source date tokens
//! ([`token`]), expressing instants in the fixed display timezone with
//! daylight-saving correction ([`norm`]), calendar arithmetic on plain
//! year/month/day values ([`date`]), picking calendar-worthy records and
//! their date mentions out of rich-text titles ([`extract`]), building
//! start/end pairs per mention ([`engine`]), and rendering the calendar
//! document character by character ([`render`]). The general guarantees are
//! stated and proved in [`laws`]. The timezone database, the wall clock and
//! fresh identifiers are trusted, narrowly, at one boundary.

pub mod date;
pub mod engine;
pub mod extract;
pub mod laws;
pub mod norm;
pub mod render;
pub mod token;
mod tz;
