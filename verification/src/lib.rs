//! Process-monitoring engine: snapshot grouping, fixed-point metric
//! normalization, and kill-target resolution.
//!
//! Metric values are carried as fixed-point integers with two decimal
//! places (hundredths): CPU percentages in hundredths of a percent,
//! memory in hundredths of a decimal megabyte. Raw CPU readings enter
//! the engine as plain integers in any common unit (the normalizer only
//! uses the ratio of a reading to the total capacity observed in the
//! same snapshot).

pub mod groups;
pub mod kill;
pub mod laws;
pub mod numfmt;
pub mod rounding;
pub mod snapshot;
pub mod usage;
