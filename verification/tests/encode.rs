use tiff_encoder::encoder::colortype::{Gray16, Gray8, RGB8};
use tiff_encoder::encoder::tiff_value::Rational;
use tiff_encoder::encoder::{
    DirectoryEncoder, ImageEncoder, TiffEncoder, TiffKind, TiffKindBig, TiffKindStandard,
};
use tiff_encoder::error::{IoErrorKind, TiffError, TiffFormatError, UsageError};
use tiff_encoder::tags::{ChunkType, ResolutionUnit, SubfileType, Tag};

/// One entry of a directory as it is read back from a file.
#[derive(Debug, Clone, PartialEq, Eq)]
struct ReadEntry {
    tag: u16,
    field_type: u16,
    count: u64,
    field: Vec<u8>,
}

fn read_le(bytes: &[u8]) -> u64 {
    let mut value = 0u64;
    for (i, b) in bytes.iter().enumerate() {
        value |= (*b as u64) << (8 * i);
    }
    value
}

fn type_len(field_type: u16) -> usize {
    match field_type {
        1 | 2 | 6 | 7 => 1,
        3 | 8 => 2,
        4 | 9 | 11 | 13 => 4,
        5 | 10 | 12 | 16 | 17 | 18 => 8,
        other => panic!("unknown field type {}", other),
    }
}

/// Reads the directory at `at` of a file with offsets of `ow` and entry counts of `cw`
/// bytes, and returns its entries and the offset of the next directory.
fn read_directory(file: &[u8], at: usize, ow: usize, cw: usize) -> (Vec<ReadEntry>, u64) {
    let n = read_le(&file[at..at + cw]) as usize;
    let mut entries = Vec::new();
    let mut pos = at + cw;
    for _ in 0..n {
        entries.push(ReadEntry {
            tag: read_le(&file[pos..pos + 2]) as u16,
            field_type: read_le(&file[pos + 2..pos + 4]) as u16,
            count: read_le(&file[pos + 4..pos + 4 + ow]),
            field: file[pos + 4 + ow..pos + 4 + 2 * ow].to_vec(),
        });
        pos += 4 + 2 * ow;
    }
    (entries, read_le(&file[pos..pos + ow]))
}

/// The values of `entry`, from its value field or from where its offset points.
fn read_values(file: &[u8], entry: &ReadEntry, ow: usize) -> Vec<u8> {
    let len = entry.count as usize * type_len(entry.field_type);
    if len <= ow {
        entry.field[..len].to_vec()
    } else {
        let at = read_le(&entry.field) as usize;
        file[at..at + len].to_vec()
    }
}

fn read_numbers(file: &[u8], entry: &ReadEntry, ow: usize) -> Vec<u64> {
    let width = type_len(entry.field_type);
    read_values(file, entry, ow).chunks(width).map(read_le).collect()
}

fn find(entries: &[ReadEntry], tag: u16) -> &ReadEntry {
    entries.iter().find(|e| e.tag == tag).expect("tag is missing")
}

fn first_directory_classic(file: &[u8]) -> (usize, Vec<ReadEntry>, u64) {
    assert_eq!(&file[0..4], &[0x49, 0x49, 42, 0]);
    let at = read_le(&file[4..8]) as usize;
    let (entries, next) = read_directory(file, at, 4, 2);
    (at, entries, next)
}

fn first_directory_big(file: &[u8]) -> (usize, Vec<ReadEntry>, u64) {
    assert_eq!(&file[0..8], &[0x49, 0x49, 43, 0, 8, 0, 0, 0]);
    let at = read_le(&file[8..16]) as usize;
    let (entries, next) = read_directory(file, at, 8, 8);
    (at, entries, next)
}

const REQUIRED_STRIP_TAGS: [u16; 11] = [256, 257, 258, 259, 262, 277, 278, 282, 283, 296, 339];

#[test]
fn white_rgb8_image_is_a_minimal_single_strip_file() {
    let mut tiff = TiffEncoder::new().unwrap();
    let data = vec![255u8; 12];
    tiff.write_image::<RGB8>(2, 2, &data).unwrap();
    let file = tiff.into_bytes();

    let (at, entries, next) = first_directory_classic(&file);
    assert_eq!(at, 56);
    assert_eq!(next, 0);
    assert_eq!(file.len(), 56 + 2 + 13 * 12 + 4);

    let tags: Vec<u16> = entries.iter().map(|e| e.tag).collect();
    assert_eq!(tags, vec![256, 257, 258, 259, 262, 273, 277, 278, 279, 282, 283, 296, 339]);
    for tag in REQUIRED_STRIP_TAGS {
        assert!(tags.contains(&tag));
    }
    let others: Vec<u16> =
        tags.iter().copied().filter(|t| !REQUIRED_STRIP_TAGS.contains(t)).collect();
    assert_eq!(others, vec![273, 279]);

    assert_eq!(read_numbers(&file, find(&entries, 279), 4), vec![12]);
    assert_eq!(read_numbers(&file, find(&entries, 273), 4), vec![8]);
    assert_eq!(&file[8..20], &data[..]);

    assert_eq!(read_numbers(&file, find(&entries, 256), 4), vec![2]);
    assert_eq!(read_numbers(&file, find(&entries, 257), 4), vec![2]);
    assert_eq!(read_numbers(&file, find(&entries, 258), 4), vec![8, 8, 8]);
    assert_eq!(read_numbers(&file, find(&entries, 259), 4), vec![1]);
    assert_eq!(read_numbers(&file, find(&entries, 262), 4), vec![2]);
    assert_eq!(read_numbers(&file, find(&entries, 277), 4), vec![3]);
    assert_eq!(read_numbers(&file, find(&entries, 278), 4), vec![166_666]);
    assert_eq!(read_values(&file, find(&entries, 282), 4), vec![1, 0, 0, 0, 1, 0, 0, 0]);
    assert_eq!(read_values(&file, find(&entries, 283), 4), vec![1, 0, 0, 0, 1, 0, 0, 0]);
    assert_eq!(read_numbers(&file, find(&entries, 296), 4), vec![1]);
    assert_eq!(read_numbers(&file, find(&entries, 339), 4), vec![1, 1, 1]);
}

#[test]
fn white_rgb8_image_has_the_expected_bytes() {
    let mut tiff = TiffEncoder::new().unwrap();
    tiff.write_image::<RGB8>(2, 2, &[255u8; 12]).unwrap();
    let file = tiff.into_bytes();
    let mut expected: Vec<u8> = vec![0x49, 0x49, 42, 0, 56, 0, 0, 0];
    expected.extend_from_slice(&[255; 12]);
    expected.extend_from_slice(&[8, 0, 8, 0, 8, 0]); // BitsPerSample
    expected.extend_from_slice(&166_666u64.to_le_bytes()); // RowsPerStrip
    expected.extend_from_slice(&[1, 0, 0, 0, 1, 0, 0, 0]); // XResolution
    expected.extend_from_slice(&[1, 0, 0, 0, 1, 0, 0, 0]); // YResolution
    expected.extend_from_slice(&[1, 0, 1, 0, 1, 0]); // SampleFormat
    expected.extend_from_slice(&[13, 0]);
    let rows: [(u16, u16, u32, [u8; 4]); 13] = [
        (256, 4, 1, [2, 0, 0, 0]),
        (257, 4, 1, [2, 0, 0, 0]),
        (258, 3, 3, [20, 0, 0, 0]),
        (259, 3, 1, [1, 0, 0, 0]),
        (262, 3, 1, [2, 0, 0, 0]),
        (273, 4, 1, [8, 0, 0, 0]),
        (277, 3, 1, [3, 0, 0, 0]),
        (278, 16, 1, [26, 0, 0, 0]),
        (279, 4, 1, [12, 0, 0, 0]),
        (282, 5, 1, [34, 0, 0, 0]),
        (283, 5, 1, [42, 0, 0, 0]),
        (296, 3, 1, [1, 0, 0, 0]),
        (339, 3, 3, [50, 0, 0, 0]),
    ];
    for (tag, field_type, count, field) in rows {
        expected.extend_from_slice(&tag.to_le_bytes());
        expected.extend_from_slice(&field_type.to_le_bytes());
        expected.extend_from_slice(&count.to_le_bytes());
        expected.extend_from_slice(&field);
    }
    expected.extend_from_slice(&[0, 0, 0, 0]);
    assert_eq!(file, expected);
}

#[test]
fn rows_per_strip_replans_before_the_first_strip_only() {
    let mut tiff = TiffEncoder::new().unwrap();
    let mut image = tiff.new_image::<RGB8>(100, 100).unwrap();
    assert_eq!(image.plan.chunk_count, 1);
    image.rows_per_strip(2).unwrap();
    assert_eq!(image.plan.chunk_count, 50);
    assert_eq!(image.plan.chunk_height, 2);
    assert_eq!(image.get_chunk_dim_counts(), (1, 50));
    assert_eq!(image.next_strip_sample_count(), 2 * 100 * 3);

    let strip = vec![7u8; 600];
    image.write_strip(&strip).unwrap();
    assert_eq!(
        image.rows_per_strip(4),
        Err(TiffError::IoError(IoErrorKind::InvalidInput))
    );
    assert_eq!(image.plan.chunk_count, 50);
    assert_eq!(image.plan.chunk_height, 2);
}

#[test]
fn rows_per_strip_of_zero_is_refused() {
    let mut tiff = TiffEncoder::new().unwrap();
    let mut image = tiff.new_image::<Gray8>(10, 10).unwrap();
    assert_eq!(
        image.rows_per_strip(0),
        Err(TiffError::UsageError(UsageError::InvalidRowsPerStrip))
    );
    assert_eq!(image.plan.chunk_count, 1);
}

#[test]
fn strips_written_one_by_one_fill_the_tables() {
    let image_data: Vec<u8> = (0..100 * 100 * 3).map(|i| (i % 251) as u8).collect();
    let mut tiff = TiffEncoder::new().unwrap();
    let mut image = tiff.new_image::<RGB8>(100, 100).unwrap();
    image.rows_per_strip(2).unwrap();
    let mut idx = 0;
    let mut strips = 0;
    while image.next_strip_sample_count() > 0 {
        let sample_count = image.next_strip_sample_count() as usize;
        image.write_strip(&image_data[idx..idx + sample_count]).unwrap();
        idx += sample_count;
        strips += 1;
    }
    assert_eq!(strips, 50);
    assert_eq!(idx, image_data.len());
    assert_eq!(image.chunk_offsets.len(), 50);
    assert_eq!(image.chunk_byte_count.len(), 50);
    image.finish().unwrap();
    let file = tiff.into_bytes();

    let (_, entries, _) = first_directory_classic(&file);
    let offsets = read_numbers(&file, find(&entries, 273), 4);
    let counts = read_numbers(&file, find(&entries, 279), 4);
    assert_eq!(offsets.len(), 50);
    assert_eq!(counts.len(), 50);
    for i in 0..50 {
        assert_eq!(offsets[i], 8 + 600 * i as u64);
        assert_eq!(counts[i], 600);
    }
    assert_eq!(&file[8..8 + image_data.len()], &image_data[..]);
    // the tag written last for RowsPerStrip has 32 bits
    assert_eq!(find(&entries, 278).field_type, 4);
    assert_eq!(read_numbers(&file, find(&entries, 278), 4), vec![2]);
}

#[test]
fn write_data_fills_the_tables_for_every_chunk() {
    let image_data: Vec<u16> = (0..30u32 * 7).map(|i| i as u16 * 3).collect();
    let mut tiff = TiffEncoder::new().unwrap();
    let mut image = tiff.new_image::<Gray16>(30, 7).unwrap();
    image.rows_per_strip(3).unwrap();
    assert_eq!(image.plan.chunk_count, 3);
    image.write_data(&image_data).unwrap();
    let file = tiff.into_bytes();

    let (_, entries, _) = first_directory_classic(&file);
    let offsets = read_numbers(&file, find(&entries, 273), 4);
    let counts = read_numbers(&file, find(&entries, 279), 4);
    assert_eq!(offsets, vec![8, 8 + 180, 8 + 360]);
    assert_eq!(counts, vec![180, 180, 60]);
    let stored: Vec<u8> = image_data.iter().flat_map(|s| s.to_le_bytes()).collect();
    assert_eq!(&file[8..8 + 420], &stored[..]);
}

#[test]
fn last_strip_is_shorter() {
    let mut tiff = TiffEncoder::new().unwrap();
    let mut image = tiff.new_image::<Gray8>(5, 7).unwrap();
    image.rows_per_strip(3).unwrap();
    assert_eq!(image.next_chunk_dimensions(), (5, 3));
    assert_eq!(image.next_chunk_sample_count(), 15);
    image.write_chunk(&[1u8; 15]).unwrap();
    assert_eq!(image.next_chunk_dimensions(), (5, 3));
    image.write_chunk(&[2u8; 15]).unwrap();
    assert_eq!(image.next_chunk_dimensions(), (5, 1));
    assert_eq!(image.next_chunk_sample_count(), 5);
    image.write_chunk(&[3u8; 5]).unwrap();
    assert_eq!(image.next_chunk_dimensions(), (0, 0));
    assert_eq!(image.next_chunk_sample_count(), 0);
    image.finish().unwrap();
}

#[test]
fn chunk_of_wrong_size_is_refused() {
    let mut tiff = TiffEncoder::new().unwrap();
    let mut image = tiff.new_image::<Gray8>(4, 4).unwrap();
    assert_eq!(image.next_chunk_sample_count(), 16);
    assert_eq!(
        image.write_chunk(&[0u8; 15]),
        Err(TiffError::IoError(IoErrorKind::InvalidData))
    );
    assert_eq!(image.data_idx, 0);
    assert_eq!(image.chunk_offsets.len(), 0);
    image.write_chunk(&[0u8; 16]).unwrap();
    assert_eq!(image.data_idx, 1);
    assert_eq!(image.chunk_offsets, vec![8]);
    assert_eq!(image.chunk_byte_count, vec![16]);
}

#[test]
fn undersized_buffer_is_refused() {
    let mut tiff = TiffEncoder::new().unwrap();
    assert_eq!(
        tiff.write_image::<RGB8>(4, 4, &[0u8; 15]),
        Err(TiffError::IoError(IoErrorKind::InvalidData))
    );
    // enough samples for the pixels, too few for all channels
    let mut tiff = TiffEncoder::new().unwrap();
    assert_eq!(
        tiff.write_image::<RGB8>(4, 4, &[0u8; 20]),
        Err(TiffError::IoError(IoErrorKind::InvalidData))
    );
}

#[test]
fn image_without_pixels_is_refused_and_nothing_is_written() {
    let mut tiff = TiffEncoder::new().unwrap();
    assert!(matches!(
        tiff.new_image::<RGB8>(0, 5),
        Err(TiffError::FormatError(TiffFormatError::InvalidDimensions(0, 5)))
    ));
    assert!(matches!(
        tiff.new_image::<RGB8>(5, 0),
        Err(TiffError::FormatError(TiffFormatError::InvalidDimensions(5, 0)))
    ));
    assert_eq!(tiff.as_bytes(), &[0x49, 0x49, 42, 0, 0, 0, 0, 0]);
}

#[test]
fn tiles_need_a_size() {
    let mut tiff = TiffEncoder::new().unwrap();
    assert!(matches!(
        tiff.new_image_with_type::<RGB8>(5, 5, ChunkType::Tile, None),
        Err(TiffError::UsageError(UsageError::MissingTileDimensions))
    ));
    assert!(matches!(
        tiff.new_image_with_type::<RGB8>(5, 5, ChunkType::Tile, Some((0, 4))),
        Err(TiffError::UsageError(UsageError::InvalidTileDimensions(0, 4)))
    ));
    assert_eq!(tiff.as_bytes().len(), 8);
}

#[test]
fn tiled_image_has_full_tiles_everywhere() {
    let mut tiff = TiffEncoder::new().unwrap();
    let mut image =
        tiff.new_image_with_type::<Gray8>(5, 3, ChunkType::Tile, Some((4, 2))).unwrap();
    assert_eq!(image.get_chunk_dim_counts(), (2, 2));
    assert_eq!(image.plan.chunk_count, 4);
    for i in 0..4u8 {
        assert_eq!(image.next_chunk_dimensions(), (4, 2));
        assert_eq!(image.next_chunk_sample_count(), 8);
        image.write_chunk(&[i; 8]).unwrap();
    }
    assert_eq!(image.next_chunk_sample_count(), 0);
    image.finish().unwrap();
    let file = tiff.into_bytes();
    let (_, entries, _) = first_directory_classic(&file);
    let tags: Vec<u16> = entries.iter().map(|e| e.tag).collect();
    assert_eq!(tags, vec![256, 257, 258, 259, 262, 277, 282, 283, 296, 322, 323, 324, 325, 339]);
    assert_eq!(read_numbers(&file, find(&entries, 322), 4), vec![4]);
    assert_eq!(read_numbers(&file, find(&entries, 323), 4), vec![2]);
    assert_eq!(read_numbers(&file, find(&entries, 324), 4), vec![8, 16, 24, 32]);
    assert_eq!(read_numbers(&file, find(&entries, 325), 4), vec![8, 8, 8, 8]);
}

#[test]
fn bigtiff_and_classic_differ_in_widths_and_offsets_only() {
    let data: Vec<u8> = (0..6 * 5 * 3).map(|i| i as u8).collect();
    let mut classic = TiffEncoder::new().unwrap();
    classic.write_image::<RGB8>(6, 5, &data).unwrap();
    let classic = classic.into_bytes();
    let mut big = TiffEncoder::new_big().unwrap();
    big.write_image::<RGB8>(6, 5, &data).unwrap();
    let big = big.into_bytes();

    assert_eq!(&classic[0..2], &big[0..2]);
    assert_eq!(read_le(&classic[2..4]), 42);
    assert_eq!(read_le(&big[2..4]), 43);

    let (_, classic_entries, classic_next) = first_directory_classic(&classic);
    let (_, big_entries, big_next) = first_directory_big(&big);
    assert_eq!(classic_next, 0);
    assert_eq!(big_next, 0);
    assert_eq!(classic_entries.len(), big_entries.len());
    for (c, b) in classic_entries.iter().zip(big_entries.iter()) {
        assert_eq!(c.tag, b.tag);
        assert_eq!(c.count, b.count);
        if c.tag == 273 || c.tag == 279 {
            // offsets and sizes have the width of the variant
            assert_eq!(c.field_type, 4);
            assert_eq!(b.field_type, 16);
            if c.tag == 279 {
                assert_eq!(read_numbers(&classic, c, 4), read_numbers(&big, b, 8));
            } else {
                assert_eq!(read_numbers(&classic, c, 4), vec![8]);
                assert_eq!(read_numbers(&big, b, 8), vec![16]);
            }
        } else {
            assert_eq!(c.field_type, b.field_type);
            assert_eq!(read_values(&classic, c, 4), read_values(&big, b, 8));
        }
    }
    assert_eq!(&classic[8..8 + data.len()], &data[..]);
    assert_eq!(&big[16..16 + data.len()], &data[..]);
}

fn directory_with_tags<K: TiffKind>(d: &mut DirectoryEncoder<K>, order: &[u16]) {
    for tag in order {
        match tag {
            270 => d.write_tag(Tag::ImageDescription, &[b'a', b'b', b'c', b'd', b'e'][..]).unwrap(),
            256 => d.write_tag(Tag::ImageWidth, 77u32).unwrap(),
            305 => d.write_tag(Tag::Software, &[1u8, 2, 3][..]).unwrap(),
            282 => d.write_tag(Tag::XResolution, Rational { n: 300, d: 7 }).unwrap(),
            40000 => d.write_tag(Tag::Unknown(40000), 9u16).unwrap(),
            other => panic!("no value for tag {}", other),
        }
    }
}

#[test]
fn entries_are_ascending_whatever_the_order_of_the_writes() {
    let orders: [[u16; 5]; 4] = [
        [256, 270, 282, 305, 40000],
        [40000, 305, 282, 270, 256],
        [282, 40000, 256, 305, 270],
        [305, 256, 40000, 270, 282],
    ];
    let mut files = Vec::new();
    for order in orders {
        let mut tiff = TiffEncoder::new().unwrap();
        let mut d = tiff.new_directory().unwrap();
        directory_with_tags(&mut d, &order);
        d.finish().unwrap();
        files.push(tiff.into_bytes());
    }
    for file in &files {
        assert_eq!(file, &files[0]);
        let (_, entries, _) = first_directory_classic(file);
        let tags: Vec<u16> = entries.iter().map(|e| e.tag).collect();
        assert_eq!(tags, vec![256, 270, 282, 305, 40000]);
        for pair in tags.windows(2) {
            assert!(pair[0] < pair[1]);
        }
    }
}

#[test]
fn last_write_for_a_tag_wins() {
    let mut tiff = TiffEncoder::new().unwrap();
    let mut d = tiff.new_directory().unwrap();
    d.write_tag(Tag::ImageWidth, 1u32).unwrap();
    d.write_tag(Tag::ImageWidth, &[5u16, 6, 7][..]).unwrap();
    d.finish().unwrap();
    let file = tiff.into_bytes();
    let (_, entries, _) = first_directory_classic(&file);
    assert_eq!(entries.len(), 1);
    assert_eq!(entries[0].field_type, 3);
    assert_eq!(entries[0].count, 3);
    assert_eq!(read_numbers(&file, &entries[0], 4), vec![5, 6, 7]);
}

#[test]
fn small_values_are_inline_and_large_ones_behind_an_offset() {
    let mut tiff = TiffEncoder::new().unwrap();
    let mut d = tiff.new_directory().unwrap();
    d.write_tag(Tag::Software, &[1u8, 2, 3][..]).unwrap(); // 3 bytes: inline, padded
    d.write_tag(Tag::Artist, &[9u8, 8, 7, 6][..]).unwrap(); // 4 bytes: inline, exactly
    d.write_tag(Tag::ImageDescription, &[b'h', b'e', b'l', b'l', b'o'][..]).unwrap(); // 5: outside
    d.finish().unwrap();
    let file = tiff.into_bytes();
    let (at, entries, _) = first_directory_classic(&file);

    let description = find(&entries, 270);
    assert_eq!(read_le(&description.field), 8);
    assert_eq!(&file[8..13], b"hello");
    assert_eq!(at, 13);

    assert_eq!(find(&entries, 305).field, vec![1, 2, 3, 0]);
    assert_eq!(find(&entries, 315).field, vec![9, 8, 7, 6]);

    // in BigTIFF the same five bytes fit the field
    let mut tiff = TiffEncoder::new_big().unwrap();
    let mut d = tiff.new_directory().unwrap();
    d.write_tag(Tag::ImageDescription, &[b'h', b'e', b'l', b'l', b'o'][..]).unwrap();
    d.write_tag(Tag::Copyright, &[1u8, 2, 3, 4, 5, 6, 7, 8, 9][..]).unwrap();
    d.finish().unwrap();
    let file = tiff.into_bytes();
    let (at, entries, _) = first_directory_big(&file);
    assert_eq!(find(&entries, 270).field, b"hello\0\0\0".to_vec());
    assert_eq!(read_le(&find(&entries, 33432).field), 16);
    assert_eq!(&file[16..25], &[1, 2, 3, 4, 5, 6, 7, 8, 9]);
    assert_eq!(at, 25);
}

#[test]
fn pointer_slot_holds_the_offset_of_the_directory() {
    let mut tiff = TiffEncoder::new().unwrap();
    let mut d = tiff.new_directory().unwrap();
    d.write_tag(Tag::ImageDescription, &[7u8; 11][..]).unwrap();
    d.write_tag(Tag::ImageWidth, 3u32).unwrap();
    assert_eq!(d.ifd_pointer_pos, 4);
    d.finish().unwrap();
    let file = tiff.into_bytes();
    let at = read_le(&file[4..8]) as usize;
    assert_eq!(at, 8 + 11);
    // the directory begins with the number of its entries
    assert_eq!(read_le(&file[at..at + 2]), 2);
    assert_eq!(read_le(&file[at + 2..at + 4]), 256);
}

#[test]
fn directories_are_chained() {
    let mut tiff = TiffEncoder::new().unwrap();
    let mut first = tiff.new_directory().unwrap();
    first.write_tag(Tag::ImageWidth, 1u32).unwrap();
    first.write_tag(Tag::ImageDescription, &[1u8; 5][..]).unwrap();
    first.finish().unwrap();
    let end_of_first = tiff.as_bytes().len();
    let mut second = tiff.new_directory().unwrap();
    assert_eq!(second.ifd_pointer_pos as usize, end_of_first - 4);
    second.write_tag(Tag::ImageWidth, 2u32).unwrap();
    second.finish().unwrap();
    let file = tiff.into_bytes();

    let (at, entries, next) = first_directory_classic(&file);
    assert_eq!(at, 13);
    assert_eq!(read_numbers(&file, find(&entries, 256), 4), vec![1]);
    // the first directory ends at an odd offset: one byte of padding follows its link
    assert_eq!(end_of_first % 2, 1);
    assert_eq!(next as usize, end_of_first + 1);
    let (entries, last) = read_directory(&file, next as usize, 4, 2);
    assert_eq!(read_numbers(&file, find(&entries, 256), 4), vec![2]);
    assert_eq!(last, 0);
}

#[test]
fn write_data_of_a_directory_returns_the_offset() {
    let mut tiff = TiffEncoder::new_big().unwrap();
    let mut d = tiff.new_directory().unwrap();
    assert_eq!(d.write_data(&[1u16, 2, 3][..]).unwrap(), 16);
    assert_eq!(d.write_data(0xAABBCCDDu32).unwrap(), 22);
    assert_eq!(d.write_data(Rational { n: 1, d: 2 }).unwrap(), 26);
    d.finish().unwrap();
    let file = tiff.into_bytes();
    assert_eq!(&file[16..22], &[1, 0, 2, 0, 3, 0]);
    assert_eq!(&file[22..26], &[0xDD, 0xCC, 0xBB, 0xAA]);
    assert_eq!(&file[26..34], &[1, 0, 0, 0, 2, 0, 0, 0]);
    assert_eq!(read_le(&file[8..16]), 34);
}

#[test]
fn setters_store_their_tags() {
    let mut tiff = TiffEncoder::new().unwrap();
    let mut image = tiff.new_image::<Gray8>(1, 1).unwrap();
    image.resolution(ResolutionUnit::Inch, Rational { n: 300, d: 1 });
    image.y_resolution(Rational { n: 150, d: 2 });
    image.subfiletype(SubfileType::ReducedResolution);
    image.encoder().write_tag(Tag::Artist, &[b'm', b'e'][..]).unwrap();
    image.write_data(&[9u8]).unwrap();
    let file = tiff.into_bytes();
    let (_, entries, _) = first_directory_classic(&file);
    assert_eq!(read_numbers(&file, find(&entries, 296), 4), vec![2]);
    assert_eq!(read_values(&file, find(&entries, 282), 4), vec![44, 1, 0, 0, 1, 0, 0, 0]);
    assert_eq!(read_values(&file, find(&entries, 283), 4), vec![150, 0, 0, 0, 2, 0, 0, 0]);
    assert_eq!(read_numbers(&file, find(&entries, 255), 4), vec![2]);
    assert_eq!(read_values(&file, find(&entries, 315), 4), b"me".to_vec());

    let mut tiff = TiffEncoder::new().unwrap();
    let mut image = tiff.new_image::<Gray8>(1, 1).unwrap();
    image.resolution_unit(ResolutionUnit::Centimeter);
    image.x_resolution(Rational { n: 5, d: 6 });
    image.write_data(&[9u8]).unwrap();
    let file = tiff.into_bytes();
    let (_, entries, _) = first_directory_classic(&file);
    assert_eq!(read_numbers(&file, find(&entries, 296), 4), vec![3]);
    assert_eq!(read_values(&file, find(&entries, 282), 4), vec![5, 0, 0, 0, 6, 0, 0, 0]);
    assert_eq!(read_values(&file, find(&entries, 283), 4), vec![1, 0, 0, 0, 1, 0, 0, 0]);
}

#[test]
fn standard_offsets_beyond_32_bits_fail_and_big_offsets_do_not() {
    assert_eq!(TiffKindStandard::convert_offset(0xffff_ffff), Ok(0xffff_ffffu32));
    assert_eq!(TiffKindStandard::convert_offset(0x1_0000_0000), Err(TiffError::IntSizeError));
    assert_eq!(TiffKindStandard::convert_offset(u64::MAX), Err(TiffError::IntSizeError));
    assert_eq!(TiffKindBig::convert_offset(0x1_0000_0000), Ok(0x1_0000_0000u64));
    assert_eq!(TiffKindBig::convert_offset(u64::MAX), Ok(u64::MAX));
}

#[test]
fn chunk_records_beyond_32_bits_fail_for_the_classic_format() {
    let mut tiff = TiffEncoder::new().unwrap();
    let mut image: ImageEncoder<Gray8, TiffKindStandard> = tiff.new_image(1, 1).unwrap();
    assert_eq!(image.record_chunk(0x1_0000_0000, 5), Err(TiffError::IntSizeError));
    assert_eq!(image.record_chunk(5, 0x1_0000_0000), Err(TiffError::IntSizeError));
    assert_eq!(image.data_idx, 0);
    image.record_chunk(0xffff_ffff, 7).unwrap();
    assert_eq!(image.chunk_offsets, vec![0xffff_ffffu32]);
    assert_eq!(image.chunk_byte_count, vec![7u32]);
    assert_eq!(image.data_idx, 1);

    let mut tiff = TiffEncoder::new_big().unwrap();
    let mut image: ImageEncoder<Gray8, TiffKindBig> = tiff.new_image(1, 1).unwrap();
    image.record_chunk(0x1_0000_0000, 0x2_0000_0000).unwrap();
    assert_eq!(image.chunk_offsets, vec![0x1_0000_0000u64]);
    assert_eq!(image.chunk_byte_count, vec![0x2_0000_0000u64]);
}

#[test]
fn too_many_entries_do_not_fit_a_classic_directory() {
    let mut tiff = TiffEncoder::new().unwrap();
    let mut d = tiff.new_directory().unwrap();
    for tag in 0..=65535u16 {
        d.write_tag(Tag::Unknown(tag), 1u8).unwrap();
    }
    assert_eq!(d.finish(), Err(TiffError::IntSizeError));

    let mut tiff = TiffEncoder::new_big().unwrap();
    let mut d = tiff.new_directory().unwrap();
    for tag in 0..=65535u16 {
        d.write_tag(Tag::Unknown(tag), 1u8).unwrap();
    }
    d.finish().unwrap();
    let file = tiff.into_bytes();
    let (at, entries, _) = first_directory_big(&file);
    assert_eq!(at, 16);
    assert_eq!(entries.len(), 65536);
    assert_eq!(entries[65535].tag, 65535);
}

/// Reads the strips of the first directory of a classic file back into one buffer.
fn read_strips_classic(file: &[u8]) -> Vec<u8> {
    let (_, entries, _) = first_directory_classic(file);
    let offsets = read_numbers(file, find(&entries, 273), 4);
    let counts = read_numbers(file, find(&entries, 279), 4);
    assert_eq!(offsets.len(), counts.len());
    let mut data = Vec::new();
    for (offset, count) in offsets.iter().zip(counts.iter()) {
        data.extend_from_slice(&file[*offset as usize..(*offset + *count) as usize]);
    }
    data
}

#[test]
fn strips_of_many_sizes_cover_the_image() {
    for width in [1u32, 2, 3, 7, 16] {
        for height in [1u32, 2, 5, 9, 16] {
            for rows in [1u32, 2, 3, 4, 8, 16, 100] {
                let samples: Vec<u8> =
                    (0..width * height * 3).map(|i| (i * 31 % 251) as u8).collect();
                let mut tiff = TiffEncoder::new().unwrap();
                let mut image = tiff.new_image::<RGB8>(width, height).unwrap();
                image.rows_per_strip(rows).unwrap();
                let expected_chunks = (height + rows - 1) / rows;
                assert_eq!(image.plan.chunk_count, expected_chunks as u64);
                assert_eq!(
                    image.plan.chunks_per_row * image.plan.chunks_per_col,
                    image.plan.chunk_count
                );
                image.write_data(&samples).unwrap();
                let file = tiff.into_bytes();
                let (at, entries, next) = first_directory_classic(&file);
                assert_eq!(next, 0);
                assert_eq!(read_numbers(&file, find(&entries, 278), 4), vec![rows as u64]);
                let offsets = read_numbers(&file, find(&entries, 273), 4);
                assert_eq!(offsets.len(), expected_chunks as usize);
                let counts = read_numbers(&file, find(&entries, 279), 4);
                assert_eq!(counts.iter().sum::<u64>(), samples.len() as u64);
                assert_eq!(read_strips_classic(&file), samples);
                // the directory lies behind the data and the values outside the entries
                assert!(at >= 8 + samples.len());
                let tags: Vec<u16> = entries.iter().map(|e| e.tag).collect();
                for pair in tags.windows(2) {
                    assert!(pair[0] < pair[1]);
                }
            }
        }
    }
}

#[test]
fn every_entry_of_a_bigtiff_image_reads_back() {
    let samples: Vec<u16> = (0..9u16 * 4).map(|i| i * 1000).collect();
    let mut tiff = TiffEncoder::new_big().unwrap();
    let mut image = tiff.new_image::<Gray16>(9, 4).unwrap();
    image.rows_per_strip(3).unwrap();
    image.write_data(&samples).unwrap();
    let file = tiff.into_bytes();
    let (_, entries, next) = first_directory_big(&file);
    assert_eq!(next, 0);
    assert_eq!(read_numbers(&file, find(&entries, 256), 8), vec![9]);
    assert_eq!(read_numbers(&file, find(&entries, 257), 8), vec![4]);
    assert_eq!(read_numbers(&file, find(&entries, 258), 8), vec![16]);
    assert_eq!(read_numbers(&file, find(&entries, 277), 8), vec![1]);
    assert_eq!(read_numbers(&file, find(&entries, 278), 8), vec![3]);
    assert_eq!(read_numbers(&file, find(&entries, 273), 8), vec![16, 16 + 54]);
    assert_eq!(read_numbers(&file, find(&entries, 279), 8), vec![54, 18]);
    assert_eq!(find(&entries, 273).field_type, 16);
    // rationals of 8 bytes fit the value field of BigTIFF
    assert_eq!(find(&entries, 282).field, vec![1, 0, 0, 0, 1, 0, 0, 0]);
    let stored: Vec<u8> = samples.iter().flat_map(|s| s.to_le_bytes()).collect();
    assert_eq!(&file[16..16 + stored.len()], &stored[..]);
}

#[test]
fn two_images_in_one_file() {
    let mut tiff = TiffEncoder::new().unwrap();
    tiff.write_image::<Gray8>(3, 1, &[1, 2, 3]).unwrap();
    tiff.write_image::<Gray8>(2, 2, &[4, 5, 6, 7]).unwrap();
    let file = tiff.into_bytes();
    let (_, first, next) = first_directory_classic(&file);
    assert_eq!(read_numbers(&file, find(&first, 256), 4), vec![3]);
    assert_ne!(next, 0);
    let (second, last) = read_directory(&file, next as usize, 4, 2);
    assert_eq!(last, 0);
    assert_eq!(read_numbers(&file, find(&second, 256), 4), vec![2]);
    let offset = read_numbers(&file, find(&second, 273), 4)[0] as usize;
    assert_eq!(&file[offset..offset + 4], &[4, 5, 6, 7]);
    // every directory starts behind data that starts at an even offset
    assert_eq!(offset % 2, 0);
}
