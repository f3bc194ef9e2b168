//! Storing image data as baseline JPEG streams.

use vstd::prelude::*;
use crate::error::IoErrorKind;
use crate::error::TiffError;
use crate::tags::CompressionMethod;
use crate::encoder::compression::Compression;
use crate::encoder::compression::CompressionAlgorithm;
use crate::encoder::compression::Compressor;
use crate::encoder::compression::CompressorModel;

verus! {

/// The pixel layouts that the JPEG codec accepts.
#[derive(Debug, Clone, Copy, PartialEq, Eq, Structural)]
pub enum JpegColorType {
    /// One 8-bit luminance channel.
    L8,
    /// 8-bit luminance and alpha.
    La8,
    /// 8-bit red, green and blue.
    Rgb8,
    /// 8-bit red, green, blue and alpha.
    Rgba8,
}

impl JpegColorType {
    /// The number of bytes that one pixel takes in the raw data.
    pub open spec fn spec_bytes_per_pixel(self) -> nat {
        match self {
            JpegColorType::L8 => 1,
            JpegColorType::La8 => 2,
            JpegColorType::Rgb8 => 3,
            JpegColorType::Rgba8 => 4,
        }
    }

    /// Returns the number of bytes that one pixel takes in the raw data.
    pub fn bytes_per_pixel(&self) -> (r: u8)
        ensures
            r == self.spec_bytes_per_pixel(),
    {
        match self {
            JpegColorType::L8 => 1,
            JpegColorType::La8 => 2,
            JpegColorType::Rgb8 => 3,
            JpegColorType::Rgba8 => 4,
        }
    }
}

/// The number of raw bytes of a frame of `width` by `height` pixels.
pub open spec fn jpeg_input_len(color_type: JpegColorType, width: u32, height: u32) -> nat {
    width as nat * height as nat * color_type.spec_bytes_per_pixel()
}

/// The JPEG stream that `image::codecs::jpeg::JpegEncoder::encode` writes at quality 95
/// for a frame of `width` by `height` pixels whose raw bytes are `image`.
pub uninterp spec fn jpeg_stream(
    image: Seq<u8>,
    width: u32,
    height: u32,
    color_type: JpegColorType,
) -> Seq<u8>;

/// What the JPEG codec makes of the raw bytes `raw` for a frame of `width` by `height`
/// pixels: the stream, or an error where `raw` is not exactly one frame or where a
/// dimension is beyond what a JPEG frame header can hold.
pub open spec fn jpeg_encoded(
    color_type: JpegColorType,
    width: u32,
    height: u32,
    raw: Seq<u8>,
) -> Result<Seq<u8>, TiffError> {
    if raw.len() != jpeg_input_len(color_type, width, height) {
        Err(TiffError::IoError(IoErrorKind::InvalidData))
    } else if width > 0xffff || height > 0xffff {
        Err(TiffError::IoError(IoErrorKind::Other))
    } else {
        Ok(jpeg_stream(raw, width, height, color_type))
    }
}

/// The error type of the `image` crate.
#[verifier::external_type_specification]
#[verifier::external_body]
pub struct ExImageError(image::error::ImageError);

/// Runs `image::codecs::jpeg::JpegEncoder::encode`, on an encoder made by
/// `JpegEncoder::new_with_quality` with quality 95 that writes into a fresh vector.
///
/// The encoder panics unless `image` holds exactly `width * height` pixels, and it fails
/// where a dimension exceeds 65535, the limit of a JPEG frame header; the precondition
/// rules out both. It fails in no other case for the four pixel layouts of
/// [`JpegColorType`], since writing to a vector cannot fail. The vector then holds the
/// finished stream, which depends on the arguments alone.
#[verifier::external_body]
fn encode_frame(
    image: &[u8],
    width: u32,
    height: u32,
    color_type: JpegColorType,
) -> (r: Result<Vec<u8>, image::error::ImageError>)
    requires
        image@.len() == jpeg_input_len(color_type, width, height),
        width <= 0xffff,
        height <= 0xffff,
    ensures
        r is Ok,
        r matches Ok(stream) ==> stream@ == jpeg_stream(image@, width, height, color_type),
{
    let color = match color_type {
        JpegColorType::L8 => image::ColorType::L8,
        JpegColorType::La8 => image::ColorType::La8,
        JpegColorType::Rgb8 => image::ColorType::Rgb8,
        JpegColorType::Rgba8 => image::ColorType::Rgba8,
    };
    let mut stream = Vec::new();
    let mut encoder = image::codecs::jpeg::JpegEncoder::new_with_quality(&mut stream, 95);
    match encoder.encode(image, width, height, color) {
        Ok(()) => Ok(stream),
        Err(e) => Err(e),
    }
}

/// The JPEG compression scheme, for chunks that are each one frame of a fixed size.
#[derive(Debug, Clone)]
pub struct Jpeg {
    color_type: JpegColorType,
    icc_profile: Option<Vec<u8>>,
    width: u32,
    height: u32,
}

impl Jpeg {
    /// Creates a JPEG codec for frames of `width` by `height` pixels of `color_type`.
    /// The ICC profile is kept but not written.
    pub fn new(color_type: JpegColorType, icc_profile: Option<Vec<u8>>, width: u32, height: u32) -> (r:
        Self)
        ensures
            r.model() == (CompressorModel::Jpeg { color_type, width, height }),
    {
        Jpeg { color_type, icc_profile, width, height }
    }

    /// The model of a JPEG codec is that of a JPEG codec.
    pub proof fn lemma_model(&self)
        ensures
            self.model() is Jpeg,
    {
    }

    /// Whether `len` bytes are exactly one frame.
    fn is_frame_len(&self, len: usize) -> (r: bool)
        ensures
            r == (len == jpeg_input_len(self.color_type, self.width, self.height)),
    {
        let w: u64 = self.width as u64;
        let h: u64 = self.height as u64;
        assert(w * h <= 0xffff_ffff * 0xffff_ffff) by (nonlinear_arith)
            requires
                w <= 0xffff_ffff,
                h <= 0xffff_ffff,
        ;
        let pixels: u64 = w * h;
        let bpp: u64 = self.color_type.bytes_per_pixel() as u64;
        match pixels.checked_mul(bpp) {
            Some(expected) => len as u64 == expected,
            None => false,
        }
    }
}

impl Default for Jpeg {
    /// A codec for RGB frames of 256 by 256 pixels.
    fn default() -> (r: Jpeg)
        ensures
            r.model() == (CompressorModel::Jpeg {
                color_type: JpegColorType::Rgb8,
                width: 256,
                height: 256,
            }),
    {
        Jpeg { color_type: JpegColorType::Rgb8, icc_profile: None, width: 256, height: 256 }
    }
}

impl CompressionAlgorithm for Jpeg {
    closed spec fn model(&self) -> CompressorModel {
        CompressorModel::Jpeg {
            color_type: self.color_type,
            width: self.width,
            height: self.height,
        }
    }

    fn write_to(&mut self, writer: &mut Vec<u8>, bytes: &[u8]) -> (r: Result<u64, TiffError>) {
        if !self.is_frame_len(bytes.len()) {
            return Err(TiffError::IoError(IoErrorKind::InvalidData));
        }
        if self.width > 0xffff || self.height > 0xffff {
            // a frame header cannot hold such a dimension
            return Err(TiffError::IoError(IoErrorKind::Other));
        }
        match encode_frame(bytes, self.width, self.height, self.color_type) {
            Ok(stream) => {
                let mut stream = stream;
                let emitted = stream.len() as u64;
                writer.append(&mut stream);
                Ok(emitted)
            },
            Err(_) => Err(TiffError::IoError(IoErrorKind::Other)),
        }
    }
}

impl Compression for Jpeg {
    const COMPRESSION_METHOD: CompressionMethod = CompressionMethod::JPEG;

    fn get_algorithm(&self) -> (r: Compressor) {
        Compressor::Jpeg(
            Jpeg {
                color_type: self.color_type,
                icc_profile: self.icc_profile.clone(),
                width: self.width,
                height: self.height,
            },
        )
    }
}

/// JPEG data is announced as such.
pub proof fn lemma_jpeg_method()
    ensures
        <Jpeg as Compression>::COMPRESSION_METHOD == CompressionMethod::JPEG,
{
}

} // verus!
