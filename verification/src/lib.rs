//! A signed, nanosecond-precision time-span type with saturating arithmetic,
//! together with the compact five-character codec for UTC offsets.

pub mod duration;
pub mod error;
pub mod offset;
pub mod unsigned;

pub use duration::Duration;
pub use offset::UtcOffset;
pub use unsigned::UnsignedDuration;
