//! Extraction of event listings from one organization site's markup and
//! their projection into a calendar feed.
//!
//! The pipeline reads a fetched page, locates its event fragments,
//! parses the heterogeneous, partially missing fields of each into an
//! `record::EventRecord`, projects the dated records into
//! `project::CalendarEntry` values with fixed formatting rules, and
//! merges the entries of several sources into one serialized calendar
//! document. Fetching pages and serving the result over HTTP stay
//! outside the library.

pub mod date;
pub mod feed;
pub mod ics;
pub mod laws;
pub mod markup;
pub mod project;
pub mod record;
pub mod textops;
