//! A log-derived session index and reconstruction engine.
//!
//! The library scans in-memory images of append-only, line-delimited
//! session logs, derives one summary per session for listing, and
//! reconstructs a single session's full item structure on demand.
//! Every step — path canonicalization, timestamp reconciliation,
//! content extraction, per-file accumulation, sorting and pagination —
//! is specified and verified; the JSON and date-time parsers of the
//! underlying crates are called through trusted wrappers whose results
//! carry names the contracts speak of. Reading directories and files
//! is left to the caller, who hands each log in as plain lines.

pub mod chars;
pub mod extract;
pub mod index;
pub mod json;
pub mod load;
pub mod path;
pub mod scan;
pub mod timestamp;
