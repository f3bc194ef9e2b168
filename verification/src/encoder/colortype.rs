//! The pixel layouts that an image can be written in.

use vstd::prelude::*;
use crate::tags::PhotometricInterpretation;
use crate::tags::SampleFormat;
use crate::encoder::tiff_value::TiffSample;

verus! {

/// A pixel layout: the type of a sample, and what the tags of an image say of its
/// channels.
pub trait ColorType {
    /// The type of one sample of the image data.
    type Inner: TiffSample;

    /// The value of the `PhotometricInterpretation` tag.
    const TIFF_VALUE: PhotometricInterpretation;

    /// The number of bits of each channel; one element per channel.
    spec fn spec_bits_per_sample() -> Seq<u16>;

    /// The format of each channel; one element per channel.
    spec fn spec_sample_format() -> Seq<SampleFormat>;

    /// Returns the number of bits of each channel.
    fn bits_per_sample() -> (r: Vec<u16>)
        ensures
            r@ == Self::spec_bits_per_sample(),
    ;

    /// Returns the format of each channel: as many formats as there are channels.
    fn sample_format() -> (r: Vec<SampleFormat>)
        ensures
            r@ == Self::spec_sample_format(),
            r@.len() == Self::spec_bits_per_sample().len(),
    ;
}

/// `n` channels of unsigned integers.
pub open spec fn unsigned_channels(n: nat) -> Seq<SampleFormat> {
    Seq::new(n, |i: int| SampleFormat::Uint)
}

/// `n` channels of `bits` bits each.
pub open spec fn uniform_bits(n: nat, bits: u16) -> Seq<u16> {
    Seq::new(n, |i: int| bits)
}

/// Builds the channel formats of a layout of `n` unsigned channels.
fn unsigned_formats(n: usize) -> (r: Vec<SampleFormat>)
    ensures
        r@ == unsigned_channels(n as nat),
{
    let mut out: Vec<SampleFormat> = Vec::new();
    let mut i: usize = 0;
    while i < n
        invariant
            i <= n,
            out@ == unsigned_channels(i as nat),
        decreases n - i,
    {
        out.push(SampleFormat::Uint);
        i += 1;
        proof {
            assert(out@ =~= unsigned_channels(i as nat));
        }
    }
    out
}

/// Builds the channel widths of a layout of `n` channels of `bits` bits each.
fn uniform_widths(n: usize, bits: u16) -> (r: Vec<u16>)
    ensures
        r@ == uniform_bits(n as nat, bits),
{
    let mut out: Vec<u16> = Vec::new();
    let mut i: usize = 0;
    while i < n
        invariant
            i <= n,
            out@ == uniform_bits(i as nat, bits),
        decreases n - i,
    {
        out.push(bits);
        i += 1;
        proof {
            assert(out@ =~= uniform_bits(i as nat, bits));
        }
    }
    out
}

/// 8-bit luminance.
pub struct Gray8;

impl ColorType for Gray8 {
    type Inner = u8;

    const TIFF_VALUE: PhotometricInterpretation = PhotometricInterpretation::BlackIsZero;

    open spec fn spec_bits_per_sample() -> Seq<u16> {
        uniform_bits(1, 8)
    }

    open spec fn spec_sample_format() -> Seq<SampleFormat> {
        unsigned_channels(1)
    }

    fn bits_per_sample() -> (r: Vec<u16>) {
        uniform_widths(1, 8)
    }

    fn sample_format() -> (r: Vec<SampleFormat>) {
        unsigned_formats(1)
    }
}

/// 16-bit luminance.
pub struct Gray16;

impl ColorType for Gray16 {
    type Inner = u16;

    const TIFF_VALUE: PhotometricInterpretation = PhotometricInterpretation::BlackIsZero;

    open spec fn spec_bits_per_sample() -> Seq<u16> {
        uniform_bits(1, 16)
    }

    open spec fn spec_sample_format() -> Seq<SampleFormat> {
        unsigned_channels(1)
    }

    fn bits_per_sample() -> (r: Vec<u16>) {
        uniform_widths(1, 16)
    }

    fn sample_format() -> (r: Vec<SampleFormat>) {
        unsigned_formats(1)
    }
}

/// 32-bit luminance.
pub struct Gray32;

impl ColorType for Gray32 {
    type Inner = u32;

    const TIFF_VALUE: PhotometricInterpretation = PhotometricInterpretation::BlackIsZero;

    open spec fn spec_bits_per_sample() -> Seq<u16> {
        uniform_bits(1, 32)
    }

    open spec fn spec_sample_format() -> Seq<SampleFormat> {
        unsigned_channels(1)
    }

    fn bits_per_sample() -> (r: Vec<u16>) {
        uniform_widths(1, 32)
    }

    fn sample_format() -> (r: Vec<SampleFormat>) {
        unsigned_formats(1)
    }
}

/// 64-bit luminance.
pub struct Gray64;

impl ColorType for Gray64 {
    type Inner = u64;

    const TIFF_VALUE: PhotometricInterpretation = PhotometricInterpretation::BlackIsZero;

    open spec fn spec_bits_per_sample() -> Seq<u16> {
        uniform_bits(1, 64)
    }

    open spec fn spec_sample_format() -> Seq<SampleFormat> {
        unsigned_channels(1)
    }

    fn bits_per_sample() -> (r: Vec<u16>) {
        uniform_widths(1, 64)
    }

    fn sample_format() -> (r: Vec<SampleFormat>) {
        unsigned_formats(1)
    }
}

/// 8-bit red, green and blue.
pub struct RGB8;

impl ColorType for RGB8 {
    type Inner = u8;

    const TIFF_VALUE: PhotometricInterpretation = PhotometricInterpretation::RGB;

    open spec fn spec_bits_per_sample() -> Seq<u16> {
        uniform_bits(3, 8)
    }

    open spec fn spec_sample_format() -> Seq<SampleFormat> {
        unsigned_channels(3)
    }

    fn bits_per_sample() -> (r: Vec<u16>) {
        uniform_widths(3, 8)
    }

    fn sample_format() -> (r: Vec<SampleFormat>) {
        unsigned_formats(3)
    }
}

/// 16-bit red, green and blue.
pub struct RGB16;

impl ColorType for RGB16 {
    type Inner = u16;

    const TIFF_VALUE: PhotometricInterpretation = PhotometricInterpretation::RGB;

    open spec fn spec_bits_per_sample() -> Seq<u16> {
        uniform_bits(3, 16)
    }

    open spec fn spec_sample_format() -> Seq<SampleFormat> {
        unsigned_channels(3)
    }

    fn bits_per_sample() -> (r: Vec<u16>) {
        uniform_widths(3, 16)
    }

    fn sample_format() -> (r: Vec<SampleFormat>) {
        unsigned_formats(3)
    }
}

/// 32-bit red, green and blue.
pub struct RGB32;

impl ColorType for RGB32 {
    type Inner = u32;

    const TIFF_VALUE: PhotometricInterpretation = PhotometricInterpretation::RGB;

    open spec fn spec_bits_per_sample() -> Seq<u16> {
        uniform_bits(3, 32)
    }

    open spec fn spec_sample_format() -> Seq<SampleFormat> {
        unsigned_channels(3)
    }

    fn bits_per_sample() -> (r: Vec<u16>) {
        uniform_widths(3, 32)
    }

    fn sample_format() -> (r: Vec<SampleFormat>) {
        unsigned_formats(3)
    }
}

/// 64-bit red, green and blue.
pub struct RGB64;

impl ColorType for RGB64 {
    type Inner = u64;

    const TIFF_VALUE: PhotometricInterpretation = PhotometricInterpretation::RGB;

    open spec fn spec_bits_per_sample() -> Seq<u16> {
        uniform_bits(3, 64)
    }

    open spec fn spec_sample_format() -> Seq<SampleFormat> {
        unsigned_channels(3)
    }

    fn bits_per_sample() -> (r: Vec<u16>) {
        uniform_widths(3, 64)
    }

    fn sample_format() -> (r: Vec<SampleFormat>) {
        unsigned_formats(3)
    }
}

/// 8-bit red, green, blue and alpha.
pub struct RGBA8;

impl ColorType for RGBA8 {
    type Inner = u8;

    const TIFF_VALUE: PhotometricInterpretation = PhotometricInterpretation::RGB;

    open spec fn spec_bits_per_sample() -> Seq<u16> {
        uniform_bits(4, 8)
    }

    open spec fn spec_sample_format() -> Seq<SampleFormat> {
        unsigned_channels(4)
    }

    fn bits_per_sample() -> (r: Vec<u16>) {
        uniform_widths(4, 8)
    }

    fn sample_format() -> (r: Vec<SampleFormat>) {
        unsigned_formats(4)
    }
}

/// 16-bit red, green, blue and alpha.
pub struct RGBA16;

impl ColorType for RGBA16 {
    type Inner = u16;

    const TIFF_VALUE: PhotometricInterpretation = PhotometricInterpretation::RGB;

    open spec fn spec_bits_per_sample() -> Seq<u16> {
        uniform_bits(4, 16)
    }

    open spec fn spec_sample_format() -> Seq<SampleFormat> {
        unsigned_channels(4)
    }

    fn bits_per_sample() -> (r: Vec<u16>) {
        uniform_widths(4, 16)
    }

    fn sample_format() -> (r: Vec<SampleFormat>) {
        unsigned_formats(4)
    }
}

/// 32-bit red, green, blue and alpha.
pub struct RGBA32;

impl ColorType for RGBA32 {
    type Inner = u32;

    const TIFF_VALUE: PhotometricInterpretation = PhotometricInterpretation::RGB;

    open spec fn spec_bits_per_sample() -> Seq<u16> {
        uniform_bits(4, 32)
    }

    open spec fn spec_sample_format() -> Seq<SampleFormat> {
        unsigned_channels(4)
    }

    fn bits_per_sample() -> (r: Vec<u16>) {
        uniform_widths(4, 32)
    }

    fn sample_format() -> (r: Vec<SampleFormat>) {
        unsigned_formats(4)
    }
}

/// 64-bit red, green, blue and alpha.
pub struct RGBA64;

impl ColorType for RGBA64 {
    type Inner = u64;

    const TIFF_VALUE: PhotometricInterpretation = PhotometricInterpretation::RGB;

    open spec fn spec_bits_per_sample() -> Seq<u16> {
        uniform_bits(4, 64)
    }

    open spec fn spec_sample_format() -> Seq<SampleFormat> {
        unsigned_channels(4)
    }

    fn bits_per_sample() -> (r: Vec<u16>) {
        uniform_widths(4, 64)
    }

    fn sample_format() -> (r: Vec<SampleFormat>) {
        unsigned_formats(4)
    }
}

/// 8-bit cyan, magenta, yellow and black.
pub struct CMYK8;

impl ColorType for CMYK8 {
    type Inner = u8;

    const TIFF_VALUE: PhotometricInterpretation = PhotometricInterpretation::CMYK;

    open spec fn spec_bits_per_sample() -> Seq<u16> {
        uniform_bits(4, 8)
    }

    open spec fn spec_sample_format() -> Seq<SampleFormat> {
        unsigned_channels(4)
    }

    fn bits_per_sample() -> (r: Vec<u16>) {
        uniform_widths(4, 8)
    }

    fn sample_format() -> (r: Vec<SampleFormat>) {
        unsigned_formats(4)
    }
}

/// 16-bit cyan, magenta, yellow and black.
pub struct CMYK16;

impl ColorType for CMYK16 {
    type Inner = u16;

    const TIFF_VALUE: PhotometricInterpretation = PhotometricInterpretation::CMYK;

    open spec fn spec_bits_per_sample() -> Seq<u16> {
        uniform_bits(4, 16)
    }

    open spec fn spec_sample_format() -> Seq<SampleFormat> {
        unsigned_channels(4)
    }

    fn bits_per_sample() -> (r: Vec<u16>) {
        uniform_widths(4, 16)
    }

    fn sample_format() -> (r: Vec<SampleFormat>) {
        unsigned_formats(4)
    }
}

/// 32-bit cyan, magenta, yellow and black.
pub struct CMYK32;

impl ColorType for CMYK32 {
    type Inner = u32;

    const TIFF_VALUE: PhotometricInterpretation = PhotometricInterpretation::CMYK;

    open spec fn spec_bits_per_sample() -> Seq<u16> {
        uniform_bits(4, 32)
    }

    open spec fn spec_sample_format() -> Seq<SampleFormat> {
        unsigned_channels(4)
    }

    fn bits_per_sample() -> (r: Vec<u16>) {
        uniform_widths(4, 32)
    }

    fn sample_format() -> (r: Vec<SampleFormat>) {
        unsigned_formats(4)
    }
}

/// 64-bit cyan, magenta, yellow and black.
pub struct CMYK64;

impl ColorType for CMYK64 {
    type Inner = u64;

    const TIFF_VALUE: PhotometricInterpretation = PhotometricInterpretation::CMYK;

    open spec fn spec_bits_per_sample() -> Seq<u16> {
        uniform_bits(4, 64)
    }

    open spec fn spec_sample_format() -> Seq<SampleFormat> {
        unsigned_channels(4)
    }

    fn bits_per_sample() -> (r: Vec<u16>) {
        uniform_widths(4, 64)
    }

    fn sample_format() -> (r: Vec<SampleFormat>) {
        unsigned_formats(4)
    }
}

/// 8-bit luminance and two chrominance channels.
pub struct YCbCr8;

impl ColorType for YCbCr8 {
    type Inner = u8;

    const TIFF_VALUE: PhotometricInterpretation = PhotometricInterpretation::YCbCr;

    open spec fn spec_bits_per_sample() -> Seq<u16> {
        uniform_bits(3, 8)
    }

    open spec fn spec_sample_format() -> Seq<SampleFormat> {
        unsigned_channels(3)
    }

    fn bits_per_sample() -> (r: Vec<u16>) {
        uniform_widths(3, 8)
    }

    fn sample_format() -> (r: Vec<SampleFormat>) {
        unsigned_formats(3)
    }
}

/// The color spaces of the color types.
pub proof fn lemma_color_constants()
    ensures
        <Gray8 as ColorType>::TIFF_VALUE == PhotometricInterpretation::BlackIsZero,
        <Gray16 as ColorType>::TIFF_VALUE == PhotometricInterpretation::BlackIsZero,
        <Gray32 as ColorType>::TIFF_VALUE == PhotometricInterpretation::BlackIsZero,
        <Gray64 as ColorType>::TIFF_VALUE == PhotometricInterpretation::BlackIsZero,
        <RGB8 as ColorType>::TIFF_VALUE == PhotometricInterpretation::RGB,
        <RGB16 as ColorType>::TIFF_VALUE == PhotometricInterpretation::RGB,
        <RGB32 as ColorType>::TIFF_VALUE == PhotometricInterpretation::RGB,
        <RGB64 as ColorType>::TIFF_VALUE == PhotometricInterpretation::RGB,
        <RGBA8 as ColorType>::TIFF_VALUE == PhotometricInterpretation::RGB,
        <RGBA16 as ColorType>::TIFF_VALUE == PhotometricInterpretation::RGB,
        <RGBA32 as ColorType>::TIFF_VALUE == PhotometricInterpretation::RGB,
        <RGBA64 as ColorType>::TIFF_VALUE == PhotometricInterpretation::RGB,
        <CMYK8 as ColorType>::TIFF_VALUE == PhotometricInterpretation::CMYK,
        <CMYK16 as ColorType>::TIFF_VALUE == PhotometricInterpretation::CMYK,
        <CMYK32 as ColorType>::TIFF_VALUE == PhotometricInterpretation::CMYK,
        <CMYK64 as ColorType>::TIFF_VALUE == PhotometricInterpretation::CMYK,
        <YCbCr8 as ColorType>::TIFF_VALUE == PhotometricInterpretation::YCbCr,
{
}

} // verus!
