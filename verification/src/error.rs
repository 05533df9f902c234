//! The two error kinds this crate surfaces.

use vstd::prelude::*;

verus! {

/// A value could not be converted between the signed and the non-negative
/// duration representation because it lies outside the target's range.
#[derive(Clone, Copy, Debug, PartialEq, Eq, Structural)]
pub struct ConversionRange;

/// Failures surfaced while parsing text.
#[derive(Clone, Copy, Debug, PartialEq, Eq, Structural)]
pub enum Parse {
    /// The UTC offset token was malformed or encodes an out-of-range offset.
    InvalidOffset,
}

} // verus!
