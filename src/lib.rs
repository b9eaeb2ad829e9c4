//! In-process metrics aggregation with export to the OTLP metrics JSON format.
//!
//! Floating-point quantities (gauge values, histogram sums and bucket bounds)
//! are carried as the IEEE-754 bit patterns of `f64` values in `u64` fields;
//! the arithmetic on them, and their text, come from the caller.
pub mod float_order;
pub mod json;
pub mod metric;
pub mod otlp_recorder;
pub mod time;
pub mod transport;
