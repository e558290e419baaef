//! Resolution of spreadsheet named ranges into grid coordinates, batched
//! range reads, positional correlation of the response, and formatting of
//! the qualifying-cutoffs report.
//!
//! The pipeline is pure: every decision is a function from plain values to
//! plain values. Network transport (fetching spreadsheet metadata, running
//! the batched read) and the messaging channel are collaborators that the
//! caller drives; they hand the library plain values and take plain values
//! back.

pub mod digits;
pub mod error;
pub mod grid;
pub mod translate;
pub mod resolve;
pub mod batch;
pub mod correlate;
pub mod report;
pub mod pipeline;
