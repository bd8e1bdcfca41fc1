//! Detection and normalization core for an installed-runtime inventory tool:
//! classifying product names by keyword, merging candidate records from
//! several probes into one list keyed by display name, parsing line-oriented
//! probe output, and rendering a stable, human-readable report.

pub mod aggregate;
pub mod check;
pub mod classify;
pub mod parse;
pub mod record;
pub mod report;
pub mod text;
