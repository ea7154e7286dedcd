//! Builds a playlist from a weekly singles chart: takes the ranked entries
//! from a chart page, resolves each one to a catalog track by search, in chart
//! order and tolerant of entries that find nothing, and cuts the resolved
//! identifiers into the batches that the playlist service takes.

pub mod text;
pub mod chart;
pub mod resolve;
pub mod assemble;
