//! Configuration errors, reported eagerly when a scene element or a camera
//! is built from invalid parameters.

use vstd::prelude::*;

verus! {

/// Why a scene or camera element was rejected at construction.
#[derive(Clone, Copy, Debug, PartialEq, Eq, Structural)]
pub enum ConfigError {
    /// A sphere radius was zero or negative.
    NonPositiveRadius,
    /// A coordinate or length exceeded the machine range of the tracer.
    OutOfRange,
    /// A color channel lay outside `[0, 1]`.
    InvalidAlbedo,
    /// A metal fuzz factor was negative.
    NegativeFuzz,
    /// A refractive index lay outside the supported `[1/4, 8]` range.
    InvalidRefractiveIndex,
    /// The camera's field of view, aspect ratio or focus distance was not
    /// positive, or its aperture was negative.
    InvalidCameraShape,
    /// The camera's eye, target and up vector give no usable basis.
    DegenerateOrientation,
}

} // verus!
