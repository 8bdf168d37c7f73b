//! A small visit-tracking and analytics library.
//!
//! Clients report visits to one of a closed set of projects; the library
//! records each visit in a [`store::VisitStore`] and answers aggregate
//! queries (visit totals, unique visitors, per-country breakdowns, recent
//! visits), optionally scoped to a day, month, year, or inclusive date
//! range.

pub mod country;
pub mod dates;
pub mod detail;
pub mod handlers;
pub mod laws;
pub mod project;
pub mod scope;
pub mod stats;
pub mod store;
