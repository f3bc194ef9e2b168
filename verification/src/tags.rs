//! The registries of the format: tag identifiers, field types, and the values of the
//! enumerated tags that the encoder writes.

use vstd::prelude::*;

verus! {

/// Identifier of a directory entry.
#[derive(Clone, Copy, Debug, PartialEq, Eq, Structural)]
pub enum Tag {
    NewSubfileType,
    SubfileType,
    ImageWidth,
    ImageLength,
    BitsPerSample,
    Compression,
    PhotometricInterpretation,
    Threshholding,
    CellWidth,
    CellLength,
    FillOrder,
    ImageDescription,
    Make,
    Model,
    StripOffsets,
    Orientation,
    SamplesPerPixel,
    RowsPerStrip,
    StripByteCounts,
    MinSampleValue,
    MaxSampleValue,
    XResolution,
    YResolution,
    PlanarConfiguration,
    FreeOffsets,
    FreeByteCounts,
    GrayResponseUnit,
    GrayResponseCurve,
    ResolutionUnit,
    Software,
    DateTime,
    Artist,
    HostComputer,
    Predictor,
    ColorMap,
    TileWidth,
    TileLength,
    TileOffsets,
    TileByteCounts,
    ExtraSamples,
    SampleFormat,
    SMinSampleValue,
    SMaxSampleValue,
    JPEGTables,
    Copyright,
    /// A tag that this registry does not name.
    Unknown(u16),
}

impl Tag {
    /// The number that stands for `self` in a file.
    pub open spec fn code(self) -> u16 {
        match self {
            Tag::NewSubfileType => 254u16,
            Tag::SubfileType => 255u16,
            Tag::ImageWidth => 256u16,
            Tag::ImageLength => 257u16,
            Tag::BitsPerSample => 258u16,
            Tag::Compression => 259u16,
            Tag::PhotometricInterpretation => 262u16,
            Tag::Threshholding => 263u16,
            Tag::CellWidth => 264u16,
            Tag::CellLength => 265u16,
            Tag::FillOrder => 266u16,
            Tag::ImageDescription => 270u16,
            Tag::Make => 271u16,
            Tag::Model => 272u16,
            Tag::StripOffsets => 273u16,
            Tag::Orientation => 274u16,
            Tag::SamplesPerPixel => 277u16,
            Tag::RowsPerStrip => 278u16,
            Tag::StripByteCounts => 279u16,
            Tag::MinSampleValue => 280u16,
            Tag::MaxSampleValue => 281u16,
            Tag::XResolution => 282u16,
            Tag::YResolution => 283u16,
            Tag::PlanarConfiguration => 284u16,
            Tag::FreeOffsets => 288u16,
            Tag::FreeByteCounts => 289u16,
            Tag::GrayResponseUnit => 290u16,
            Tag::GrayResponseCurve => 291u16,
            Tag::ResolutionUnit => 296u16,
            Tag::Software => 305u16,
            Tag::DateTime => 306u16,
            Tag::Artist => 315u16,
            Tag::HostComputer => 316u16,
            Tag::Predictor => 317u16,
            Tag::ColorMap => 320u16,
            Tag::TileWidth => 322u16,
            Tag::TileLength => 323u16,
            Tag::TileOffsets => 324u16,
            Tag::TileByteCounts => 325u16,
            Tag::ExtraSamples => 338u16,
            Tag::SampleFormat => 339u16,
            Tag::SMinSampleValue => 340u16,
            Tag::SMaxSampleValue => 341u16,
            Tag::JPEGTables => 347u16,
            Tag::Copyright => 33432u16,
            Tag::Unknown(n) => n,
        }
    }

    /// Returns the number that stands for `self` in a file.
    pub fn to_u16(&self) -> (r: u16)
        ensures
            r == self.code(),
    {
        match self {
            Tag::NewSubfileType => 254,
            Tag::SubfileType => 255,
            Tag::ImageWidth => 256,
            Tag::ImageLength => 257,
            Tag::BitsPerSample => 258,
            Tag::Compression => 259,
            Tag::PhotometricInterpretation => 262,
            Tag::Threshholding => 263,
            Tag::CellWidth => 264,
            Tag::CellLength => 265,
            Tag::FillOrder => 266,
            Tag::ImageDescription => 270,
            Tag::Make => 271,
            Tag::Model => 272,
            Tag::StripOffsets => 273,
            Tag::Orientation => 274,
            Tag::SamplesPerPixel => 277,
            Tag::RowsPerStrip => 278,
            Tag::StripByteCounts => 279,
            Tag::MinSampleValue => 280,
            Tag::MaxSampleValue => 281,
            Tag::XResolution => 282,
            Tag::YResolution => 283,
            Tag::PlanarConfiguration => 284,
            Tag::FreeOffsets => 288,
            Tag::FreeByteCounts => 289,
            Tag::GrayResponseUnit => 290,
            Tag::GrayResponseCurve => 291,
            Tag::ResolutionUnit => 296,
            Tag::Software => 305,
            Tag::DateTime => 306,
            Tag::Artist => 315,
            Tag::HostComputer => 316,
            Tag::Predictor => 317,
            Tag::ColorMap => 320,
            Tag::TileWidth => 322,
            Tag::TileLength => 323,
            Tag::TileOffsets => 324,
            Tag::TileByteCounts => 325,
            Tag::ExtraSamples => 338,
            Tag::SampleFormat => 339,
            Tag::SMinSampleValue => 340,
            Tag::SMaxSampleValue => 341,
            Tag::JPEGTables => 347,
            Tag::Copyright => 33432,
            Tag::Unknown(n) => *n,
        }
    }
}

/// Type of the values of a directory entry.
#[allow(non_camel_case_types)]
#[derive(Clone, Copy, Debug, PartialEq, Eq, Structural)]
pub enum Type {
    /// 8-bit unsigned integer
    BYTE,
    /// 8-bit byte holding a 7-bit character; the last byte is zero
    ASCII,
    /// 16-bit unsigned integer
    SHORT,
    /// 32-bit unsigned integer
    LONG,
    /// Fraction of two 32-bit unsigned integers
    RATIONAL,
    /// 8-bit signed integer
    SBYTE,
    /// 8-bit byte of any content
    UNDEFINED,
    /// 16-bit signed integer
    SSHORT,
    /// 32-bit signed integer
    SLONG,
    /// Fraction of two 32-bit signed integers
    SRATIONAL,
    /// 32-bit IEEE floating point number
    FLOAT,
    /// 64-bit IEEE floating point number
    DOUBLE,
    /// 32-bit unsigned offset of a directory
    IFD,
    /// 64-bit unsigned integer (BigTIFF)
    LONG8,
    /// 64-bit signed integer (BigTIFF)
    SLONG8,
    /// 64-bit unsigned offset of a directory (BigTIFF)
    IFD8,
}

impl Type {
    /// The number that stands for `self` in a file.
    pub open spec fn code(self) -> u16 {
        match self {
            Type::BYTE => 1u16,
            Type::ASCII => 2u16,
            Type::SHORT => 3u16,
            Type::LONG => 4u16,
            Type::RATIONAL => 5u16,
            Type::SBYTE => 6u16,
            Type::UNDEFINED => 7u16,
            Type::SSHORT => 8u16,
            Type::SLONG => 9u16,
            Type::SRATIONAL => 10u16,
            Type::FLOAT => 11u16,
            Type::DOUBLE => 12u16,
            Type::IFD => 13u16,
            Type::LONG8 => 16u16,
            Type::SLONG8 => 17u16,
            Type::IFD8 => 18u16,
        }
    }

    /// Returns the number that stands for `self` in a file.
    pub fn to_u16(&self) -> (r: u16)
        ensures
            r == self.code(),
    {
        match self {
            Type::BYTE => 1,
            Type::ASCII => 2,
            Type::SHORT => 3,
            Type::LONG => 4,
            Type::RATIONAL => 5,
            Type::SBYTE => 6,
            Type::UNDEFINED => 7,
            Type::SSHORT => 8,
            Type::SLONG => 9,
            Type::SRATIONAL => 10,
            Type::FLOAT => 11,
            Type::DOUBLE => 12,
            Type::IFD => 13,
            Type::LONG8 => 16,
            Type::SLONG8 => 17,
            Type::IFD8 => 18,
        }
    }
}

/// Compression scheme of the image data.
#[derive(Clone, Copy, Debug, PartialEq, Eq, Structural)]
pub enum CompressionMethod {
    /// The samples are stored as they are.
    NoCompression,
    Huffman,
    Fax3,
    Fax4,
    LZW,
    JPEG,
    ModernJPEG,
    Deflate,
    OldDeflate,
    PackBits,
}

impl CompressionMethod {
    /// The number that stands for `self` in a file.
    pub open spec fn code(self) -> u16 {
        match self {
            CompressionMethod::NoCompression => 1u16,
            CompressionMethod::Huffman => 2u16,
            CompressionMethod::Fax3 => 3u16,
            CompressionMethod::Fax4 => 4u16,
            CompressionMethod::LZW => 5u16,
            CompressionMethod::JPEG => 6u16,
            CompressionMethod::ModernJPEG => 7u16,
            CompressionMethod::Deflate => 8u16,
            CompressionMethod::OldDeflate => 32946u16,
            CompressionMethod::PackBits => 32773u16,
        }
    }

    /// Returns the number that stands for `self` in a file.
    pub fn to_u16(&self) -> (r: u16)
        ensures
            r == self.code(),
    {
        match self {
            CompressionMethod::NoCompression => 1,
            CompressionMethod::Huffman => 2,
            CompressionMethod::Fax3 => 3,
            CompressionMethod::Fax4 => 4,
            CompressionMethod::LZW => 5,
            CompressionMethod::JPEG => 6,
            CompressionMethod::ModernJPEG => 7,
            CompressionMethod::Deflate => 8,
            CompressionMethod::OldDeflate => 32946,
            CompressionMethod::PackBits => 32773,
        }
    }
}

/// Color space of the image data.
#[derive(Clone, Copy, Debug, PartialEq, Eq, Structural)]
pub enum PhotometricInterpretation {
    WhiteIsZero,
    BlackIsZero,
    RGB,
    RGBPalette,
    TransparencyMask,
    CMYK,
    YCbCr,
    CIELab,
}

impl PhotometricInterpretation {
    /// The number that stands for `self` in a file.
    pub open spec fn code(self) -> u16 {
        match self {
            PhotometricInterpretation::WhiteIsZero => 0u16,
            PhotometricInterpretation::BlackIsZero => 1u16,
            PhotometricInterpretation::RGB => 2u16,
            PhotometricInterpretation::RGBPalette => 3u16,
            PhotometricInterpretation::TransparencyMask => 4u16,
            PhotometricInterpretation::CMYK => 5u16,
            PhotometricInterpretation::YCbCr => 6u16,
            PhotometricInterpretation::CIELab => 8u16,
        }
    }

    /// Returns the number that stands for `self` in a file.
    pub fn to_u16(&self) -> (r: u16)
        ensures
            r == self.code(),
    {
        match self {
            PhotometricInterpretation::WhiteIsZero => 0,
            PhotometricInterpretation::BlackIsZero => 1,
            PhotometricInterpretation::RGB => 2,
            PhotometricInterpretation::RGBPalette => 3,
            PhotometricInterpretation::TransparencyMask => 4,
            PhotometricInterpretation::CMYK => 5,
            PhotometricInterpretation::YCbCr => 6,
            PhotometricInterpretation::CIELab => 8,
        }
    }
}

/// Unit of the resolution tags.
#[derive(Clone, Copy, Debug, PartialEq, Eq, Structural)]
pub enum ResolutionUnit {
    /// The resolution has no absolute unit.
    NoUnit,
    Inch,
    Centimeter,
}

impl ResolutionUnit {
    /// The number that stands for `self` in a file.
    pub open spec fn code(self) -> u16 {
        match self {
            ResolutionUnit::NoUnit => 1u16,
            ResolutionUnit::Inch => 2u16,
            ResolutionUnit::Centimeter => 3u16,
        }
    }

    /// Returns the number that stands for `self` in a file.
    pub fn to_u16(&self) -> (r: u16)
        ensures
            r == self.code(),
    {
        match self {
            ResolutionUnit::NoUnit => 1,
            ResolutionUnit::Inch => 2,
            ResolutionUnit::Centimeter => 3,
        }
    }
}

/// Kind of data that a directory describes.
#[derive(Clone, Copy, Debug, PartialEq, Eq, Structural)]
pub enum SubfileType {
    /// The image at its full resolution
    FullResolution,
    /// A reduced-resolution version of another image
    ReducedResolution,
    /// One page of a multi-page document
    SinglePage,
}

impl SubfileType {
    /// The number that stands for `self` in a file.
    pub open spec fn code(self) -> u16 {
        match self {
            SubfileType::FullResolution => 1u16,
            SubfileType::ReducedResolution => 2u16,
            SubfileType::SinglePage => 3u16,
        }
    }

    /// Returns the number that stands for `self` in a file.
    pub fn to_u16(&self) -> (r: u16)
        ensures
            r == self.code(),
    {
        match self {
            SubfileType::FullResolution => 1,
            SubfileType::ReducedResolution => 2,
            SubfileType::SinglePage => 3,
        }
    }
}

/// How the bits of a sample are to be read.
#[derive(Clone, Copy, Debug, PartialEq, Eq, Structural)]
pub enum SampleFormat {
    Uint,
    Int,
    IEEEFP,
    Void,
}

impl SampleFormat {
    /// The number that stands for `self` in a file.
    pub open spec fn code(self) -> u16 {
        match self {
            SampleFormat::Uint => 1u16,
            SampleFormat::Int => 2u16,
            SampleFormat::IEEEFP => 3u16,
            SampleFormat::Void => 4u16,
        }
    }

    /// Returns the number that stands for `self` in a file.
    pub fn to_u16(&self) -> (r: u16)
        ensures
            r == self.code(),
    {
        match self {
            SampleFormat::Uint => 1,
            SampleFormat::Int => 2,
            SampleFormat::IEEEFP => 3,
            SampleFormat::Void => 4,
        }
    }
}

/// How the image data is cut into chunks.
#[derive(Clone, Copy, Debug, PartialEq, Eq, Structural)]
pub enum ChunkType {
    /// Horizontal bands of full image width.
    Strip,
    /// Rectangles of one fixed size.
    Tile,
}

} // verus!
