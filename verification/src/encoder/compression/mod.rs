//! Compression of image data.
//!
//! A codec turns the raw bytes of one chunk into the bytes that are stored in the file.
//! What a codec emits is described by [`encoded`], over a model of the codec that holds
//! the parameters on which its output depends.

pub mod jpeg;
pub mod uncompressed;

use vstd::prelude::*;
use crate::error::TiffError;
use crate::tags::CompressionMethod;
use crate::encoder::compression::jpeg::Jpeg;
use crate::encoder::compression::jpeg::JpegColorType;
use crate::encoder::compression::jpeg::jpeg_encoded;
use crate::encoder::compression::uncompressed::Uncompressed;

verus! {

/// The parameters of a codec on which its output depends.
pub enum CompressorModel {
    /// The bytes are stored as they are.
    Uncompressed,
    /// Each chunk is stored as one baseline JPEG stream of the given frame.
    Jpeg { color_type: JpegColorType, width: u32, height: u32 },
}

/// The bytes that the codec `codec` emits for the raw bytes `raw`, or the error with which
/// it refuses them.
pub open spec fn encoded(codec: CompressorModel, raw: Seq<u8>) -> Result<Seq<u8>, TiffError> {
    match codec {
        CompressorModel::Uncompressed => Ok(raw),
        CompressorModel::Jpeg { color_type, width, height } => jpeg_encoded(
            color_type,
            width,
            height,
            raw,
        ),
    }
}

/// A codec that can be run on the bytes of a chunk.
pub trait CompressionAlgorithm {
    /// The parameters that determine the codec's output.
    spec fn model(&self) -> CompressorModel;

    /// Appends the encoding of `bytes` to `writer` and returns the number of bytes appended.
    /// Where the codec refuses `bytes`, nothing is appended.
    fn write_to(&mut self, writer: &mut Vec<u8>, bytes: &[u8]) -> (r: Result<u64, TiffError>)
        ensures
            final(self).model() == old(self).model(),
            match encoded(old(self).model(), bytes@) {
                Ok(stream) => r == Ok::<u64, TiffError>(stream.len() as u64) && final(writer)@
                    == old(writer)@ + stream,
                Err(e) => r == Err::<u64, TiffError>(e) && final(writer)@ == old(writer)@,
            },
    ;
}

/// A compression scheme that an image can be written with.
pub trait Compression: CompressionAlgorithm {
    /// The value of the `Compression` tag for this scheme.
    const COMPRESSION_METHOD: CompressionMethod;

    /// The codec that carries this scheme out.
    fn get_algorithm(&self) -> (r: Compressor)
        ensures
            r.model() == self.model(),
    ;
}

/// Any of the codecs of this library.
#[derive(Debug, Clone)]
pub enum Compressor {
    Uncompressed(Uncompressed),
    Jpeg(Jpeg),
}

impl Compressor {
    /// Whether this codec changes the bytes that it is given.
    pub fn is_active(&self) -> (r: bool)
        ensures
            r == (self.model() != CompressorModel::Uncompressed),
    {
        match self {
            Compressor::Uncompressed(_) => false,
            Compressor::Jpeg(algorithm) => {
                proof {
                    algorithm.lemma_model();
                }
                true
            },
        }
    }
}

impl Default for Compressor {
    /// The codec that stores bytes as they are.
    fn default() -> (r: Compressor)
        ensures
            r.model() == CompressorModel::Uncompressed,
    {
        Compressor::Uncompressed(Uncompressed)
    }
}

impl CompressionAlgorithm for Compressor {
    open spec fn model(&self) -> CompressorModel {
        match self {
            Compressor::Uncompressed(algorithm) => algorithm.model(),
            Compressor::Jpeg(algorithm) => algorithm.model(),
        }
    }

    fn write_to(&mut self, writer: &mut Vec<u8>, bytes: &[u8]) -> (r: Result<u64, TiffError>) {
        match self {
            Compressor::Uncompressed(algorithm) => algorithm.write_to(writer, bytes),
            Compressor::Jpeg(algorithm) => algorithm.write_to(writer, bytes),
        }
    }
}

} // verus!
