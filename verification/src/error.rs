//! Errors reported by the encoder.

use vstd::prelude::*;

verus! {

/// The file that was asked for cannot be expressed as a TIFF.
#[derive(Clone, Copy, Debug, PartialEq, Eq, Structural)]
pub enum TiffFormatError {
    /// The image dimensions `(width, height)` are not both positive.
    InvalidDimensions(u32, u32),
}

/// The encoder was configured in a way it cannot honour.
#[derive(Clone, Copy, Debug, PartialEq, Eq, Structural)]
pub enum UsageError {
    /// A tiled image was requested without a tile size.
    MissingTileDimensions,
    /// A tile size `(width, height)` that is not positive in both directions.
    InvalidTileDimensions(u64, u64),
    /// A strip height of zero rows.
    InvalidRowsPerStrip,
    /// A color type without any channel.
    EmptyColorType,
}

/// The class of a failure of the byte sink or of a codec.
#[derive(Clone, Copy, Debug, PartialEq, Eq, Structural)]
pub enum IoErrorKind {
    /// An argument or a request that cannot be served in the current state.
    InvalidInput,
    /// Data whose size or content does not match what was announced.
    InvalidData,
    /// A failure inside a compression codec.
    Other,
}

/// Any failure of an encoding operation.
#[derive(Clone, Copy, Debug, PartialEq, Eq, Structural)]
pub enum TiffError {
    /// The image cannot be expressed as a TIFF.
    FormatError(TiffFormatError),
    /// The byte sink or a codec failed.
    IoError(IoErrorKind),
    /// A number does not fit the field that has to hold it.
    IntSizeError,
    /// The encoder was used in a way it does not support.
    UsageError(UsageError),
}

/// Result of an encoding operation.
pub type TiffResult<T> = Result<T, TiffError>;

} // verus!
