use vstd::prelude::*;

verus! {

/// Why a layer or grid description was rejected when it was constructed.
#[derive(Clone, Copy, Debug, PartialEq, Eq, Structural)]
pub enum ConfigError {
    /// A chunk size or half-extent was zero or negative.
    NonPositiveExtent,
    /// A colour of a ramp has a channel above full intensity.
    MalformedColorRamp,
    /// The described region does not fit the coordinate range.
    OutOfRange,
}

} // verus!
