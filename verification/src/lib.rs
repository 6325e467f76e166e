//! Resolution of municipal hard-waste pickup dates.
//!
//! A run enumerates the regions and streets of a jurisdiction from a street
//! directory, resolves each street to an address with the council's address
//! search, reads the next pickup date of each address from the council's
//! waste schedule, and aggregates what it found. This library holds the rules
//! of such a run, each with a contract proved in Verus: what a page or a
//! response means, what has to be retrieved next, and how results are
//! aggregated and shown. It retrieves nothing itself: a driver hands it the
//! status and the body of each response.
//!
//! - [`regions`] reads the directory: regions, and the search strings for
//!   their streets.
//! - [`address`] reads the response of the address search.
//! - [`schedule`] reads the response of the waste schedule.
//! - [`search`] steers the search for dates over a list of search strings.
//! - [`aggregate`] keeps one record per date and orders them.
//! - [`visualization`] decides colours and labels of the map.
//! - [`date`], [`record`], [`response`] and [`error`] hold the values that
//!   pass between them; [`json`], [`html`] and [`text`] read documents and
//!   handle strings.
//!
//! HTML and selectors are parsed by `scraper`, JSON by `serde_json`, dates by
//! `chrono`. What these return is taken on trust and named in the contracts;
//! everything that is decided on their results is proved.

pub mod address;
pub mod aggregate;
pub mod date;
pub mod error;
pub mod html;
pub mod json;
pub mod record;
pub mod regions;
pub mod response;
pub mod schedule;
pub mod search;
pub mod text;
pub mod visualization;
