use tiff_encoder::encoder::colortype::{Gray8, RGB8};
use tiff_encoder::encoder::compression::jpeg::{Jpeg, JpegColorType};
use tiff_encoder::encoder::compression::uncompressed::Uncompressed;
use tiff_encoder::encoder::compression::{Compression, CompressionAlgorithm, Compressor};
use tiff_encoder::encoder::TiffEncoder;
use tiff_encoder::error::{IoErrorKind, TiffError};
use tiff_encoder::tags::CompressionMethod;

const EXPECTED_COMPRESSED_DATA: [u8; 629] = [
    255, 216, 255, 224, 0, 16, 74, 70, 73, 70, 0, 1, 2, 0, 0, 1,
    0, 1, 0, 0, 255, 192, 0, 17, 8, 0, 2, 0, 2, 3, 1, 17,
    0, 2, 17, 1, 3, 17, 1, 255, 219, 0, 67, 0, 2, 1, 1, 1,
    1, 1, 2, 1, 1, 1, 2, 2, 2, 2, 2, 4, 3, 2, 2, 2,
    2, 5, 4, 4, 3, 4, 6, 5, 6, 6, 6, 5, 6, 6, 6, 7,
    9, 8, 6, 7, 9, 7, 6, 6, 8, 11, 8, 9, 10, 10, 10, 10,
    10, 6, 8, 11, 12, 11, 10, 12, 9, 10, 10, 10, 255, 219, 0, 67,
    1, 2, 2, 2, 2, 2, 2, 5, 3, 3, 5, 10, 7, 6, 7, 10,
    10, 10, 10, 10, 10, 10, 10, 10, 10, 10, 10, 10, 10, 10, 10, 10,
    10, 10, 10, 10, 10, 10, 10, 10, 10, 10, 10, 10, 10, 10, 10, 10,
    10, 10, 10, 10, 10, 10, 10, 10, 10, 10, 10, 10, 10, 10, 10, 10,
    10, 255, 196, 0, 31, 0, 0, 1, 5, 1, 1, 1, 1, 1, 1, 0,
    0, 0, 0, 0, 0, 0, 0, 1, 2, 3, 4, 5, 6, 7, 8, 9,
    10, 11, 255, 196, 0, 181, 16, 0, 2, 1, 3, 3, 2, 4, 3, 5,
    5, 4, 4, 0, 0, 1, 125, 1, 2, 3, 0, 4, 17, 5, 18, 33,
    49, 65, 6, 19, 81, 97, 7, 34, 113, 20, 50, 129, 145, 161, 8, 35,
    66, 177, 193, 21, 82, 209, 240, 36, 51, 98, 114, 130, 9, 10, 22, 23,
    24, 25, 26, 37, 38, 39, 40, 41, 42, 52, 53, 54, 55, 56, 57, 58,
    67, 68, 69, 70, 71, 72, 73, 74, 83, 84, 85, 86, 87, 88, 89, 90,
    99, 100, 101, 102, 103, 104, 105, 106, 115, 116, 117, 118, 119, 120, 121, 122,
    131, 132, 133, 134, 135, 136, 137, 138, 146, 147, 148, 149, 150, 151, 152, 153,
    154, 162, 163, 164, 165, 166, 167, 168, 169, 170, 178, 179, 180, 181, 182, 183,
    184, 185, 186, 194, 195, 196, 197, 198, 199, 200, 201, 202, 210, 211, 212, 213,
    214, 215, 216, 217, 218, 225, 226, 227, 228, 229, 230, 231, 232, 233, 234, 241,
    242, 243, 244, 245, 246, 247, 248, 249, 250, 255, 196, 0, 31, 1, 0, 3,
    1, 1, 1, 1, 1, 1, 1, 1, 1, 0, 0, 0, 0, 0, 0, 1,
    2, 3, 4, 5, 6, 7, 8, 9, 10, 11, 255, 196, 0, 181, 17, 0,
    2, 1, 2, 4, 4, 3, 4, 7, 5, 4, 4, 0, 1, 2, 119, 0,
    1, 2, 3, 17, 4, 5, 33, 49, 6, 18, 65, 81, 7, 97, 113, 19,
    34, 50, 129, 8, 20, 66, 145, 161, 177, 193, 9, 35, 51, 82, 240, 21,
    98, 114, 209, 10, 22, 36, 52, 225, 37, 241, 23, 24, 25, 26, 38, 39,
    40, 41, 42, 53, 54, 55, 56, 57, 58, 67, 68, 69, 70, 71, 72, 73,
    74, 83, 84, 85, 86, 87, 88, 89, 90, 99, 100, 101, 102, 103, 104, 105,
    106, 115, 116, 117, 118, 119, 120, 121, 122, 130, 131, 132, 133, 134, 135, 136,
    137, 138, 146, 147, 148, 149, 150, 151, 152, 153, 154, 162, 163, 164, 165, 166,
    167, 168, 169, 170, 178, 179, 180, 181, 182, 183, 184, 185, 186, 194, 195, 196,
    197, 198, 199, 200, 201, 202, 210, 211, 212, 213, 214, 215, 216, 217, 218, 226,
    227, 228, 229, 230, 231, 232, 233, 234, 242, 243, 244, 245, 246, 247, 248, 249,
    250, 255, 218, 0, 12, 3, 1, 0, 2, 17, 3, 17, 0, 63, 0, 253,
    252, 160, 15, 255, 217,
];

fn le(bytes: &[u8]) -> u64 {
    let mut value = 0u64;
    for (i, b) in bytes.iter().enumerate() {
        value |= (*b as u64) << (8 * i);
    }
    value
}

/// The value field of the entry `tag` of the first directory of a classic file.
fn classic_field(file: &[u8], tag: u16) -> (u16, u64, u64) {
    let at = le(&file[4..8]) as usize;
    let n = le(&file[at..at + 2]) as usize;
    for i in 0..n {
        let pos = at + 2 + 12 * i;
        if le(&file[pos..pos + 2]) as u16 == tag {
            return (
                le(&file[pos + 2..pos + 4]) as u16,
                le(&file[pos + 4..pos + 8]),
                le(&file[pos + 8..pos + 12]),
            );
        }
    }
    panic!("tag {} is missing", tag);
}

#[test]
fn test_jpeg() {
    let width = 2;
    let height = 2;
    let mut pixels = vec![0; width * height * 3]; // RGB image

    // Generate some white pixel data
    for i in 0..pixels.len() {
        pixels[i] = 255;
    }

    let mut compressed_data = Vec::<u8>::new();

    let mut jpeg_compressor = Jpeg::new(JpegColorType::Rgb8, None, 2, 2);
    let bytes_written = jpeg_compressor.write_to(&mut compressed_data, &pixels).unwrap();

    assert_eq!(bytes_written, 629);
    assert_eq!(EXPECTED_COMPRESSED_DATA, compressed_data.as_slice());
}

#[test]
fn jpeg_appends_to_what_the_writer_holds() {
    let mut out = vec![1u8, 2, 3];
    let mut codec = Jpeg::new(JpegColorType::L8, None, 3, 1);
    let n = codec.write_to(&mut out, &[10, 20, 30]).unwrap();
    assert_eq!(out.len() as u64, 3 + n);
    assert_eq!(&out[0..3], &[1, 2, 3]);
    assert_eq!(&out[3..5], &[0xff, 0xd8]);
    assert_eq!(&out[out.len() - 2..], &[0xff, 0xd9]);
    assert_ne!(&out[3..], &[10, 20, 30]);
}

#[test]
fn jpeg_is_a_function_of_its_input() {
    let pixels: Vec<u8> = (0..8 * 8 * 4).map(|i| (i * 7 % 256) as u8).collect();
    let mut first = Vec::new();
    let mut second = Vec::new();
    Jpeg::new(JpegColorType::Rgba8, None, 8, 8).write_to(&mut first, &pixels).unwrap();
    Jpeg::new(JpegColorType::Rgba8, None, 8, 8).write_to(&mut second, &pixels).unwrap();
    assert_eq!(first, second);
    let mut other = Vec::new();
    Jpeg::new(JpegColorType::La8, None, 16, 8).write_to(&mut other, &pixels).unwrap();
    assert_ne!(first, other);
}

#[test]
fn jpeg_refuses_data_that_is_not_one_frame() {
    let mut out = vec![5u8];
    let mut codec = Jpeg::new(JpegColorType::Rgb8, None, 2, 2);
    assert_eq!(
        codec.write_to(&mut out, &[0u8; 11]),
        Err(TiffError::IoError(IoErrorKind::InvalidData))
    );
    assert_eq!(
        codec.write_to(&mut out, &[0u8; 13]),
        Err(TiffError::IoError(IoErrorKind::InvalidData))
    );
    assert_eq!(out, vec![5u8]);
    // the default codec is one for frames of 256 by 256 pixels
    let mut default = Jpeg::default();
    assert_eq!(
        default.write_to(&mut out, &[0u8; 12]),
        Err(TiffError::IoError(IoErrorKind::InvalidData))
    );
    let frame = vec![128u8; 256 * 256 * 3];
    assert!(default.write_to(&mut out, &frame).unwrap() > 0);
}

#[test]
fn jpeg_refuses_frames_beyond_the_limits_of_the_format() {
    let mut out = Vec::new();
    let mut codec = Jpeg::new(JpegColorType::L8, None, 65536, 1);
    assert_eq!(
        codec.write_to(&mut out, &vec![0u8; 65536]),
        Err(TiffError::IoError(IoErrorKind::Other))
    );
    assert!(out.is_empty());
    let mut codec = Jpeg::new(JpegColorType::L8, None, 1, 65536);
    assert_eq!(
        codec.write_to(&mut out, &vec![0u8; 65536]),
        Err(TiffError::IoError(IoErrorKind::Other))
    );
    let mut codec = Jpeg::new(JpegColorType::L8, None, 65535, 1);
    assert!(codec.write_to(&mut out, &vec![0u8; 65535]).is_ok());
}

#[test]
fn bytes_per_pixel_of_the_jpeg_color_types() {
    assert_eq!(JpegColorType::L8.bytes_per_pixel(), 1);
    assert_eq!(JpegColorType::La8.bytes_per_pixel(), 2);
    assert_eq!(JpegColorType::Rgb8.bytes_per_pixel(), 3);
    assert_eq!(JpegColorType::Rgba8.bytes_per_pixel(), 4);
}

#[test]
fn uncompressed_stores_bytes_as_they_are() {
    let mut out = vec![9u8];
    let mut codec = Uncompressed;
    assert_eq!(codec.write_to(&mut out, &[1, 2, 3]), Ok(3));
    assert_eq!(out, vec![9, 1, 2, 3]);
    assert_eq!(codec.write_to(&mut out, &[]), Ok(0));
    assert_eq!(out, vec![9, 1, 2, 3]);
    let mut any = Compressor::default();
    assert_eq!(any.write_to(&mut out, &[4]), Ok(1));
    assert_eq!(out, vec![9, 1, 2, 3, 4]);
}

#[test]
fn compression_methods_and_algorithms() {
    assert_eq!(<Uncompressed as Compression>::COMPRESSION_METHOD, CompressionMethod::NoCompression);
    assert_eq!(<Jpeg as Compression>::COMPRESSION_METHOD, CompressionMethod::JPEG);
    assert!(matches!(Uncompressed.get_algorithm(), Compressor::Uncompressed(_)));
    let mut algorithm = Jpeg::new(JpegColorType::Rgb8, None, 2, 2).get_algorithm();
    assert!(matches!(algorithm, Compressor::Jpeg(_)));
    let mut out = Vec::new();
    assert_eq!(algorithm.write_to(&mut out, &[255u8; 12]), Ok(629));
    assert_eq!(out, EXPECTED_COMPRESSED_DATA.to_vec());
}

#[test]
fn lossy_image_records_the_size_that_the_codec_reports() {
    let pixels = vec![255u8; 12];
    let mut tiff = TiffEncoder::new().unwrap();
    tiff.write_image_with_compression::<RGB8, Jpeg>(
        2,
        2,
        Jpeg::new(JpegColorType::Rgb8, None, 2, 2),
        &pixels,
    )
    .unwrap();
    let file = tiff.into_bytes();

    let mut stream = Vec::new();
    let reported =
        Jpeg::new(JpegColorType::Rgb8, None, 2, 2).write_to(&mut stream, &pixels).unwrap();

    let (field_type, count, byte_count) = classic_field(&file, 279);
    assert_eq!(field_type, 4);
    assert_eq!(count, 1);
    assert_ne!(byte_count, 12);
    assert_eq!(byte_count, reported);
    assert_eq!(byte_count, 629);
    let (_, _, offset) = classic_field(&file, 273);
    assert_eq!(offset, 8);
    assert_eq!(&file[8..8 + 629], &stream[..]);
    // the directory itself is not compressed
    assert_eq!(classic_field(&file, 259), (3, 1, 6));
    assert_eq!(classic_field(&file, 256), (4, 1, 2));
}

#[test]
fn write_chunk_with_compression_records_the_emitted_size() {
    let mut tiff = TiffEncoder::new().unwrap();
    let mut image = tiff
        .new_image_with_compression::<Gray8, Jpeg>(4, 4, Jpeg::new(JpegColorType::L8, None, 4, 4))
        .unwrap();
    let pixels: Vec<u8> = (0..16).map(|i| i * 16).collect();
    image.write_chunk_with_compression(&pixels).unwrap();
    let mut stream = Vec::new();
    let reported = Jpeg::new(JpegColorType::L8, None, 4, 4).write_to(&mut stream, &pixels).unwrap();
    assert_ne!(reported, 16);
    assert_eq!(image.chunk_byte_count, vec![reported as u32]);
    assert_eq!(image.chunk_offsets, vec![8]);
    assert_eq!(image.encoder.last_written(), reported);
    image.finish().unwrap();
    let file = tiff.into_bytes();
    assert_eq!(&file[8..8 + stream.len()], &stream[..]);
    assert_eq!(classic_field(&file, 279).2, reported);
}

#[test]
fn write_chunk_without_compression_records_the_raw_size() {
    let mut tiff = TiffEncoder::new().unwrap();
    let mut image = tiff
        .new_image_with_compression::<Gray8, Jpeg>(4, 4, Jpeg::new(JpegColorType::L8, None, 4, 4))
        .unwrap();
    image.write_chunk(&[3u8; 16]).unwrap();
    assert_eq!(image.chunk_byte_count, vec![16]);
    assert_eq!(image.encoder.last_written(), 16);
}

#[test]
fn a_chunk_that_the_codec_refuses_leaves_the_image_as_it_was() {
    let mut tiff = TiffEncoder::new().unwrap();
    // the frame of the codec does not match the strip of the image
    let mut image = tiff
        .new_image_with_compression::<Gray8, Jpeg>(4, 4, Jpeg::new(JpegColorType::L8, None, 5, 5))
        .unwrap();
    assert_eq!(
        image.write_chunk_with_compression(&[0u8; 16]),
        Err(TiffError::IoError(IoErrorKind::InvalidData))
    );
    assert_eq!(image.data_idx, 0);
    assert!(image.chunk_offsets.is_empty());
    // the sink is not left with the codec active
    image.write_chunk(&[1u8; 16]).unwrap();
    assert_eq!(image.chunk_byte_count, vec![16]);

    let mut tiff = TiffEncoder::new().unwrap();
    assert_eq!(
        tiff.write_image_with_compression::<Gray8, Jpeg>(
            4,
            4,
            Jpeg::new(JpegColorType::L8, None, 5, 5),
            &[0u8; 16],
        ),
        Err(TiffError::IoError(IoErrorKind::InvalidData))
    );
    // a later directory is written uncompressed
    let mut d = tiff.new_directory().unwrap();
    d.write_data(&[1u8, 2, 3][..]).unwrap();
    assert_eq!(d.last_written(), 3);
}
