//! Sampling-rate inference for timestamped, delimiter-separated rows.
//!
//! The crate recognises a timestamp's layout among a fixed list of patterns,
//! turns each row's timestamp into an instant, and reduces the gaps between
//! consecutive instants to a mean interval.

pub mod calendar;
pub mod estimate;
pub mod field;
pub mod instant;
pub mod pattern;
pub mod timeguess;

pub use calendar::CalendarTime;
pub use estimate::{
    formatted_time, infer_samplerate, parse_timestamp, EstimationError, RowError, Samplerate,
};
pub use field::{extract_column, is_whitespace, split_row, trim, ExtractionError};
pub use instant::Instant;
pub use pattern::TimestampPattern;
pub use timeguess::guess_time_format;
