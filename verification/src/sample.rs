//! Sampling results.
//!
//! A [`Summary`] holds what one measurement cycle gave, and
//! [`perform_sampling`] runs such a cycle. A [`SampleResult`] is the lean
//! form of a summary. Its plain wire form takes six bytes; the compact codec
//! of [`ser`] and [`de`] writes it in four: the average, then how far the
//! minimum lies below it and the maximum above it, one byte each.

pub mod de;
pub mod result;
pub mod sampling;
pub mod sensor;
pub mod ser;
pub mod summary;

pub use de::Deserializer;
pub use result::SampleResult;
pub use sampling::{perform_sampling, summarize, WARMUP_READS};
pub use sensor::SensorKind;
pub use ser::Serializer;
pub use summary::Summary;
