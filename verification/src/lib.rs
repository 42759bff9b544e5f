//! A capitalization-table aggregation engine.
//!
//! The engine consumes an already-validated sequence of equity-purchase
//! transaction records, filters them by a cutoff date, accumulates grand
//! totals and per-investor subtotals, derives ownership percentages, and
//! assembles a deterministic report. Cash amounts are held as integer
//! cents and percentages as integer basis points (hundredths of a
//! percent), so every computation is exact and reproducible; rendering
//! to two-decimal text happens only at the formatting boundary.
//!
//! Reading the transaction source and serializing the finished report
//! are the surrounding program's concern, not the engine's.

pub mod date;
pub mod error;
pub mod format;
pub mod laws;
pub mod model;
