//! Encoding of TIFF and BigTIFF files.
//!
//! An encoder owns the bytes of the file it builds. Image data is written chunk by chunk
//! (strips or tiles, optionally compressed) while the file offset and the byte count of
//! every chunk are recorded. The image file directory is then written with its entries in
//! ascending tag order, and the directory pointer that precedes it is patched.
//!
//! All multi-byte fields are written in little-endian byte order.

pub mod endian;
pub mod error;
pub mod tags;
pub mod encoder;

pub use crate::error::TiffError;
pub use crate::error::TiffFormatError;
pub use crate::error::TiffResult;
