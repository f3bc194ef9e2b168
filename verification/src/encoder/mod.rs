//! Encoders for files, directories and images.

pub mod chunks;
pub mod colortype;
pub mod compression;
pub mod directory;
pub mod ordered;
pub mod run;
pub mod tiff_value;
pub mod writer;

use std::collections::BTreeMap;
use std::marker::PhantomData;
use vstd::prelude::*;
use crate::endian::le_bytes;
use crate::endian::lemma_le_bytes_len;
use crate::endian::lemma_le_bytes_zero;
use crate::endian::lemma_pow256_positive;
use crate::endian::lemma_pow256_values;
use crate::endian::pow256;
use crate::endian::push_all;
use crate::endian::push_le;
use crate::endian::push_zeros;
use crate::endian::zeros;
use crate::error::TiffError;
use crate::error::TiffResult;
use crate::error::IoErrorKind;
use crate::tags::ChunkType;
use crate::tags::ResolutionUnit;
use crate::tags::SampleFormat;
use crate::tags::SubfileType;
use crate::tags::Tag;
use crate::endian::lemma_pow256_monotonic;
use crate::encoder::chunks::planned;
use crate::encoder::chunks::ChunkPlan;
use crate::encoder::colortype::ColorType;
use crate::encoder::compression::encoded;
use crate::encoder::compression::Compression;
use crate::encoder::compression::CompressionAlgorithm;
use crate::encoder::compression::uncompressed::Uncompressed;
use crate::encoder::run::chunk_raw;
use crate::encoder::run::chunk_run;
use crate::encoder::run::chunks_left;
use crate::encoder::run::lemma_run_error_stays;
use crate::encoder::run::ChunkRun;
pub use crate::encoder::tiff_value::Rational;
use crate::encoder::compression::CompressorModel;
use crate::encoder::directory::directory_fits;
use crate::encoder::directory::directory_image;
use crate::encoder::directory::directory_offset;
use crate::encoder::directory::entry_models;
use crate::encoder::directory::finished_file;
use crate::encoder::directory::lemma_finished_file_len;
use crate::encoder::directory::entry_record;
use crate::encoder::directory::lemma_ordered_tags;
use crate::encoder::directory::lemma_payloads_prefix;
use crate::encoder::directory::lemma_take_next;
use crate::encoder::directory::ordered_tags;
use crate::encoder::directory::payloads;
use crate::encoder::directory::table;
use crate::encoder::directory::DirectoryEntry;
use crate::encoder::directory::EntryModel;
use crate::encoder::directory::Format;
use crate::encoder::directory::Entries;
use crate::encoder::ordered::insert_entry;
use crate::encoder::ordered::ordered_entries;
use crate::encoder::tiff_value::lemma_array_constants;
use crate::encoder::tiff_value::lemma_reference_constants;
use crate::encoder::tiff_value::lemma_sample_constants;
use crate::encoder::tiff_value::samples_bytes;
pub use crate::encoder::tiff_value::TiffSample;
pub use crate::encoder::tiff_value::TiffValue;
use crate::encoder::writer::bigtiff_signature;
use crate::encoder::writer::lemma_put_at_end;
use crate::encoder::writer::lemma_put_within;
use crate::encoder::writer::tiff_signature;
use crate::encoder::writer::write_bigtiff_header;
use crate::encoder::writer::write_tiff_header;
use crate::encoder::writer::SinkState;
use crate::encoder::writer::TiffWriter;

verus! {

/// What the classic format and BigTIFF differ in: the widths of their fields, and how
/// offsets are checked and written.
///
/// Implemented by [`TiffKindStandard`] and [`TiffKindBig`].
pub trait TiffKind {
    /// The type of an offset field: `u32` for the classic format, `u64` for BigTIFF.
    type OffsetType: TiffSample;

    /// The type of an array of offsets as a tag value.
    type OffsetArrayType: ?Sized + TiffValue;

    /// The field widths of the variant.
    spec fn format() -> Format;

    /// The first bytes of a file, up to the offset of the first directory.
    spec fn signature() -> Seq<u8>;

    /// The offset that `offset` stands for.
    spec fn offset_value(offset: Self::OffsetType) -> nat;

    /// An offset takes between 4 and 8 bytes, the number of entries between 2 and 8, and
    /// arrays of offsets are stored as their elements are.
    proof fn lemma_format()
        ensures
            4 <= Self::format().offset_width <= 8,
            2 <= Self::format().count_width <= 8,
            <Self::OffsetType as TiffSample>::BYTE_LEN == Self::format().offset_width,
            <Self::OffsetArrayType as TiffValue>::BYTE_LEN == Self::format().offset_width,
            <Self::OffsetArrayType as TiffValue>::FIELD_TYPE
                == <Self::OffsetType as TiffSample>::FIELD_TYPE,
    ;

    /// An offset is stored as its value in little-endian order, and its value fits an
    /// offset field.
    proof fn lemma_offset_bytes(offset: Self::OffsetType)
        ensures
            offset.value_bytes() == le_bytes(
                Self::offset_value(offset),
                Self::format().offset_width,
            ),
            Self::format().holds_offset(Self::offset_value(offset)),
    ;

    /// The number of bytes of an offset field.
    fn offset_width() -> (r: usize)
        ensures
            r == Self::format().offset_width,
            4 <= r <= 8,
    ;

    /// Writes the header of a file: the signature, past any codec, and a zero in the
    /// place of the offset of the first directory.
    fn write_header(writer: &mut TiffWriter) -> (r: TiffResult<()>)
        ensures
            old(writer)@.put(Self::signature()).written(
                zeros(Self::format().offset_width),
                final(writer)@,
                r,
            ),
    ;

    /// Converts a file offset to the type of an offset field. Fails with
    /// [`TiffError::IntSizeError`] if and only if the offset does not fit the field.
    fn convert_offset(offset: u64) -> (r: TiffResult<Self::OffsetType>)
        ensures
            Self::format().holds_offset(offset as nat) ==> r is Ok && Self::offset_value(r->Ok_0)
                == offset,
            !Self::format().holds_offset(offset as nat) ==> r == Err::<Self::OffsetType, TiffError>(
                TiffError::IntSizeError,
            ),
    ;

    /// Writes `offset` as an offset field. Fails with [`TiffError::IntSizeError`], and
    /// writes nothing, if the offset does not fit the field.
    fn write_offset(writer: &mut TiffWriter, offset: u64) -> (r: TiffResult<()>)
        ensures
            Self::format().holds_offset(offset as nat) ==> old(writer)@.written(
                le_bytes(offset as nat, Self::format().offset_width),
                final(writer)@,
                r,
            ),
            !Self::format().holds_offset(offset as nat) ==> r == Err::<(), TiffError>(
                TiffError::IntSizeError,
            ) && final(writer)@ == old(writer)@,
    ;

    /// Writes `count` as the number of entries of a directory. Fails with
    /// [`TiffError::IntSizeError`], and writes nothing, if the number does not fit the field.
    fn write_entry_count(writer: &mut TiffWriter, count: usize) -> (r: TiffResult<()>)
        ensures
            count < pow256(Self::format().count_width) ==> old(writer)@.written(
                le_bytes(count as nat, Self::format().count_width),
                final(writer)@,
                r,
            ),
            count >= pow256(Self::format().count_width) ==> r == Err::<(), TiffError>(
                TiffError::IntSizeError,
            ) && final(writer)@ == old(writer)@,
    ;

    /// Views offsets as a tag value: the array of them, stored element by element.
    fn convert_slice(slice: &[Self::OffsetType]) -> (r: &Self::OffsetArrayType)
        ensures
            r.spec_count() == slice@.len(),
            r.spec_data() == samples_bytes(slice@),
    ;
}

/// An offset fits the classic format if and only if it fits 32 bits, and every offset
/// fits BigTIFF.
pub proof fn lemma_offset_ranges(offset: u64)
    ensures
        TiffKindStandard::format().holds_offset(offset as nat) <==> offset <= 0xffff_ffff,
        TiffKindBig::format().holds_offset(offset as nat),
{
    lemma_pow256_values();
}

/// The classic format: offsets of 32 bits, at most 65535 entries in a directory.
pub struct TiffKindStandard;

impl TiffKind for TiffKindStandard {
    type OffsetType = u32;

    type OffsetArrayType = [u32];

    open spec fn format() -> Format {
        Format { offset_width: 4, count_width: 2 }
    }

    open spec fn signature() -> Seq<u8> {
        tiff_signature()
    }

    open spec fn offset_value(offset: u32) -> nat {
        offset as nat
    }

    proof fn lemma_format() {
        lemma_sample_constants();
        lemma_array_constants::<u32>();
    }

    proof fn lemma_offset_bytes(offset: u32) {
        lemma_pow256_values();
    }

    fn offset_width() -> (r: usize) {
        4
    }

    fn write_header(writer: &mut TiffWriter) -> (r: TiffResult<()>) {
        write_tiff_header(writer);
        proof {
            lemma_le_bytes_zero(4);
        }
        writer.write_u32(0)
    }

    fn convert_offset(offset: u64) -> (r: TiffResult<u32>) {
        proof {
            lemma_pow256_values();
        }
        if offset > 0xffff_ffff {
            Err(TiffError::IntSizeError)
        } else {
            Ok(offset as u32)
        }
    }

    fn write_offset(writer: &mut TiffWriter, offset: u64) -> (r: TiffResult<()>) {
        proof {
            lemma_pow256_values();
        }
        if offset > 0xffff_ffff {
            return Err(TiffError::IntSizeError);
        }
        writer.write_u32(offset as u32)
    }

    fn write_entry_count(writer: &mut TiffWriter, count: usize) -> (r: TiffResult<()>) {
        proof {
            lemma_pow256_values();
        }
        if count > 0xffff {
            return Err(TiffError::IntSizeError);
        }
        writer.write_u16(count as u16)
    }

    fn convert_slice(slice: &[u32]) -> (r: &[u32]) {
        slice
    }
}

/// BigTIFF: offsets and entry counts of 64 bits.
pub struct TiffKindBig;

impl TiffKind for TiffKindBig {
    type OffsetType = u64;

    type OffsetArrayType = [u64];

    open spec fn format() -> Format {
        Format { offset_width: 8, count_width: 8 }
    }

    open spec fn signature() -> Seq<u8> {
        bigtiff_signature()
    }

    open spec fn offset_value(offset: u64) -> nat {
        offset as nat
    }

    proof fn lemma_format() {
        lemma_sample_constants();
        lemma_array_constants::<u64>();
    }

    proof fn lemma_offset_bytes(offset: u64) {
        lemma_pow256_values();
    }

    fn offset_width() -> (r: usize) {
        8
    }

    fn write_header(writer: &mut TiffWriter) -> (r: TiffResult<()>) {
        write_bigtiff_header(writer);
        proof {
            lemma_le_bytes_zero(8);
        }
        writer.write_u64(0)
    }

    fn convert_offset(offset: u64) -> (r: TiffResult<u64>) {
        proof {
            lemma_pow256_values();
        }
        Ok(offset)
    }

    fn write_offset(writer: &mut TiffWriter, offset: u64) -> (r: TiffResult<()>) {
        proof {
            lemma_pow256_values();
        }
        writer.write_u64(offset)
    }

    fn write_entry_count(writer: &mut TiffWriter, count: usize) -> (r: TiffResult<()>) {
        proof {
            lemma_pow256_values();
        }
        writer.write_u64(count as u64)
    }

    fn convert_slice(slice: &[u64]) -> (r: &[u64]) {
        slice
    }
}

/// The entry that stands for `value` in a directory: the code of its field type, the
/// number of its elements, and its stored form.
pub open spec fn entry_of<T: TiffValue + ?Sized>(value: &T) -> EntryModel {
    EntryModel {
        field_type: T::FIELD_TYPE.code(),
        count: value.spec_count(),
        data: value.spec_data(),
    }
}

/// The stored form of an entry takes the bytes of one element times the number of its
/// elements.
pub proof fn lemma_entry_of_len<T: TiffValue + ?Sized>(value: &T)
    ensures
        entry_of(value).data.len() == entry_of(value).count * T::BYTE_LEN,
{
    value.lemma_data_len();
}

/// The entry that stands for an array of `values` in a directory.
pub open spec fn array_entry<S: TiffSample>(values: Seq<S>) -> EntryModel {
    EntryModel {
        field_type: S::FIELD_TYPE.code(),
        count: values.len(),
        data: samples_bytes(values),
    }
}

/// An array is stored under the field type of its elements, with its length as count,
/// and so is a reference to it.
pub proof fn lemma_entry_of_array<S: TiffSample>(values: &[S])
    ensures
        entry_of::<[S]>(values) == array_entry(values@),
        entry_of::<&[S]>(&values) == array_entry(values@),
{
    lemma_array_constants::<S>();
    lemma_reference_constants::<[S]>();
}

/// Whether the value count of every entry of `m` fits the count field of an entry.
pub open spec fn counts_fit(m: Entries, f: Format) -> bool {
    forall|t: u16| #[trigger] m.contains_key(t) ==> f.holds_offset(m[t].count)
}

/// Encoder of a file of the classic format or of BigTIFF.
///
/// The encoder owns the bytes of the file. Directories and images are encoded by
/// [`DirectoryEncoder`] and [`ImageEncoder`], which borrow it until they are finished;
/// [`into_bytes`](TiffEncoder::into_bytes) hands out the finished file.
pub struct TiffEncoder<K: TiffKind = TiffKindStandard> {
    /// The sink that holds the file.
    pub writer: TiffWriter,
    pub kind: PhantomData<K>,
}

impl TiffEncoder<TiffKindStandard> {
    /// Starts a file of the classic format: its header, with an empty slot for the
    /// offset of the first directory.
    pub fn new() -> (r: TiffResult<TiffEncoder<TiffKindStandard>>)
        ensures
            r matches Ok(encoder) && encoder.wf() && encoder.writer@.bytes
                == TiffKindStandard::signature() + zeros(4),
    {
        TiffEncoder::new_generic()
    }
}

impl TiffEncoder<TiffKindBig> {
    /// Starts a BigTIFF file: its header, with an empty slot for the offset of the
    /// first directory.
    pub fn new_big() -> (r: TiffResult<TiffEncoder<TiffKindBig>>)
        ensures
            r matches Ok(encoder) && encoder.wf() && encoder.writer@.bytes
                == TiffKindBig::signature() + zeros(8),
    {
        TiffEncoder::new_generic()
    }
}

impl<K: TiffKind> TiffEncoder<K> {
    /// A directory can be started: the sink appends, without a codec, and the bytes
    /// before the cursor hold a slot for the offset of the next directory.
    pub open spec fn wf(&self) -> bool {
        &&& self.writer@.at_end()
        &&& self.writer@.compressor == CompressorModel::Uncompressed
        &&& self.writer@.position >= K::format().offset_width
    }

    /// Whether a directory can be started, as [`wf`](TiffEncoder::wf) says.
    pub fn is_wf(&self) -> (r: bool)
        ensures
            r == self.wf(),
    {
        self.writer.is_at_end() && !self.writer.is_compressing() && self.writer.offset()
            >= K::offset_width() as u64
    }

    /// Whether `image` is an image of `plan` before its first chunk that was started on
    /// the file of `pre`: its directory holds the entries of the image and no other, and
    /// is to be linked from the last offset field of the file.
    pub open spec fn image_opened<'a, C: ColorType, D: Compression>(
        pre: Self,
        image: ImageEncoder<'a, C, K, D>,
        plan: ChunkPlan,
    ) -> bool {
        &&& image.wf()
        &&& image.plan == plan
        &&& image.data_idx == 0
        &&& image.chunk_offsets@.len() == 0
        &&& image.chunk_byte_count@.len() == 0
        &&& image.encoder.entries() == image_entries::<C, D>(Map::<u16, EntryModel>::empty(), plan)
        &&& image.encoder.ifd_pointer_pos == pre.writer@.position - K::format().offset_width
        &&& image.encoder.writer@ == pre.writer@.pad()
    }

    /// Starts a file of the variant `K`: its header, with an empty slot for the offset
    /// of the first directory.
    pub fn new_generic() -> (r: TiffResult<Self>)
        ensures
            r matches Ok(encoder) && encoder.wf() && encoder.writer@.bytes == K::signature()
                + zeros(K::format().offset_width),
    {
        let mut encoder = TiffEncoder { writer: TiffWriter::new(), kind: PhantomData };
        proof {
            K::lemma_format();
            let signed = encoder.writer@.put(K::signature());
            lemma_put_at_end(encoder.writer@, K::signature());
            lemma_put_at_end(signed, zeros(K::format().offset_width));
            assert(Seq::<u8>::empty() + K::signature() =~= K::signature());
        }
        match K::write_header(&mut encoder.writer) {
            Ok(()) => {},
            Err(e) => {
                return Err(e);
            },
        }
        Ok(encoder)
    }

    /// Starts a directory behind the bytes of the file.
    pub fn new_directory<'a>(&'a mut self) -> (r: TiffResult<DirectoryEncoder<'a, K>>)
        requires
            old(self).wf(),
        ensures
            r matches Ok(d) && d.wf() && d.entries() == Map::<u16, EntryModel>::empty()
                && d.ifd_pointer_pos == old(self).writer@.position - K::format().offset_width
                && d.writer@ == old(self).writer@.pad() && *final(d.writer) == final(self).writer,
    {
        DirectoryEncoder::new(&mut self.writer)
    }

    /// Starts an uncompressed image of `width` by `height` pixels in strips, to be
    /// written chunk by chunk. A call that fails changes nothing.
    pub fn new_image<'a, C: ColorType>(&'a mut self, width: u32, height: u32) -> (r: TiffResult<
        ImageEncoder<'a, C, K, Uncompressed>,
    >)
        requires
            old(self).wf(),
        ensures
            match image_plan::<C, Uncompressed>(width, height, ChunkType::Strip, None) {
                Err(e) => r is Err && r->Err_0 == e && final(self).writer == old(self).writer,
                Ok(plan) => r matches Ok(image) && Self::image_opened(*old(self), image, plan),
            },
            r matches Ok(image) ==> *final(image.encoder.writer) == final(self).writer,
    {
        self.new_image_with_compression_with_type(
            width,
            height,
            Uncompressed,
            ChunkType::Strip,
            None,
        )
    }

    /// Starts an uncompressed image of `width` by `height` pixels in chunks of the kind
    /// `chunk_type`; tiles take their size from `chunk_dims`. A call that fails changes
    /// nothing.
    pub fn new_image_with_type<'a, C: ColorType>(
        &'a mut self,
        width: u32,
        height: u32,
        chunk_type: ChunkType,
        chunk_dims: Option<(u64, u64)>,
    ) -> (r: TiffResult<ImageEncoder<'a, C, K, Uncompressed>>)
        requires
            old(self).wf(),
        ensures
            match image_plan::<C, Uncompressed>(width, height, chunk_type, chunk_dims) {
                Err(e) => r is Err && r->Err_0 == e && final(self).writer == old(self).writer,
                Ok(plan) => r matches Ok(image) && Self::image_opened(*old(self), image, plan),
            },
            r matches Ok(image) ==> *final(image.encoder.writer) == final(self).writer,
    {
        self.new_image_with_compression_with_type(
            width,
            height,
            Uncompressed,
            chunk_type,
            chunk_dims,
        )
    }

    /// Starts an image of `width` by `height` pixels in strips under `compression`. A
    /// call that fails changes nothing.
    pub fn new_image_with_compression<'a, C: ColorType, D: Compression>(
        &'a mut self,
        width: u32,
        height: u32,
        compression: D,
    ) -> (r: TiffResult<ImageEncoder<'a, C, K, D>>)
        requires
            old(self).wf(),
        ensures
            match image_plan::<C, D>(width, height, ChunkType::Strip, None) {
                Err(e) => r is Err && r->Err_0 == e && final(self).writer == old(self).writer,
                Ok(plan) => r matches Ok(image) && Self::image_opened(*old(self), image, plan)
                    && image.compression == compression,
            },
            r matches Ok(image) ==> *final(image.encoder.writer) == final(self).writer,
    {
        self.new_image_with_compression_with_type(
            width,
            height,
            compression,
            ChunkType::Strip,
            None,
        )
    }

    /// Starts an image of `width` by `height` pixels in chunks of the kind `chunk_type`
    /// under `compression`; tiles take their size from `chunk_dims`. A call that fails
    /// changes nothing.
    pub fn new_image_with_compression_with_type<'a, C: ColorType, D: Compression>(
        &'a mut self,
        width: u32,
        height: u32,
        compression: D,
        chunk_type: ChunkType,
        chunk_dims: Option<(u64, u64)>,
    ) -> (r: TiffResult<ImageEncoder<'a, C, K, D>>)
        requires
            old(self).wf(),
        ensures
            match image_plan::<C, D>(width, height, chunk_type, chunk_dims) {
                Err(e) => r is Err && r->Err_0 == e && final(self).writer == old(self).writer,
                Ok(plan) => r matches Ok(image) && Self::image_opened(*old(self), image, plan)
                    && image.compression == compression,
            },
            r matches Ok(image) ==> *final(image.encoder.writer) == final(self).writer,
    {
        // an image that cannot be planned must not touch the file
        let bits = C::bits_per_sample();
        match ChunkPlan::new(
            width,
            height,
            bits.len() as u64,
            <C::Inner as TiffSample>::BYTE_LEN,
            D::COMPRESSION_METHOD,
            chunk_type,
            chunk_dims,
        ) {
            Ok(_) => {},
            Err(e) => {
                return Err(e);
            },
        }
        let encoder = match DirectoryEncoder::new(&mut self.writer) {
            Ok(encoder) => encoder,
            Err(e) => {
                return Err(e);
            },
        };
        ImageEncoder::with_compression_with_type(
            encoder,
            width,
            height,
            compression,
            chunk_type,
            chunk_dims,
        )
    }

    /// Whether `r` and the sink `after` are what writing a whole image of the color type
    /// `C` from `data` to the file of `pre` gives, in strips and under a codec of the
    /// compression `D` whose parameters are `codec`.
    ///
    /// An image that cannot be planned is refused with the error of the plan, and the
    /// file stays as it was. Else the file is padded to an even length, the strips are
    /// written, and the directory of the image is written and linked from the last offset
    /// field that the file had: see [`image_written`].
    pub open spec fn whole_image_written<C: ColorType, D: Compression>(
        pre: Self,
        width: u32,
        height: u32,
        codec: CompressorModel,
        data: Seq<C::Inner>,
        after: SinkState,
        r: TiffResult<()>,
    ) -> bool {
        match image_plan::<C, D>(width, height, ChunkType::Strip, None) {
            Err(e) => r == Err::<(), TiffError>(e) && after == pre.writer@,
            Ok(plan) => image_written::<C::Inner, K>(
                plan,
                codec,
                ChunkRun {
                    bytes: pre.writer@.pad().bytes,
                    offsets: Seq::empty(),
                    byte_counts: Seq::empty(),
                    taken: 0,
                },
                0,
                (pre.writer@.position - K::format().offset_width) as nat,
                image_entries::<C, D>(Map::<u16, EntryModel>::empty(), plan),
                data,
                after,
                r,
            ),
        }
    }

    /// Writes an entire uncompressed image of `width` by `height` pixels from memory.
    pub fn write_image<C: ColorType>(&mut self, width: u32, height: u32, data: &[C::Inner]) -> (r:
        TiffResult<()>)
        requires
            old(self).wf(),
        ensures
            Self::whole_image_written::<C, Uncompressed>(
                *old(self),
                width,
                height,
                CompressorModel::Uncompressed,
                data@,
                final(self).writer@,
                r,
            ),
            r is Ok ==> final(self).wf(),
    {
        self.write_image_with_compression::<C, Uncompressed>(width, height, Uncompressed, data)
    }

    /// Writes an entire image of `width` by `height` pixels from memory under
    /// `compression`.
    pub fn write_image_with_compression<C: ColorType, D: Compression>(
        &mut self,
        width: u32,
        height: u32,
        compression: D,
        data: &[C::Inner],
    ) -> (r: TiffResult<()>)
        requires
            old(self).wf(),
        ensures
            Self::whole_image_written::<C, D>(
                *old(self),
                width,
                height,
                compression.model(),
                data@,
                final(self).writer@,
                r,
            ),
            r is Ok ==> final(self).wf(),
    {
        let image: ImageEncoder<'_, C, K, D> = match self.new_image_with_compression(
            width,
            height,
            compression,
        ) {
            Ok(image) => image,
            Err(e) => {
                return Err(e);
            },
        };
        proof {
            assert(image.offsets() =~= Seq::<nat>::empty());
            assert(image.byte_counts() =~= Seq::<nat>::empty());
        }
        image.write_data(data)
    }

    /// The bytes of the file as far as it is written.
    pub fn as_bytes(&self) -> (r: &[u8])
        ensures
            r@ == self.writer@.bytes,
    {
        self.writer.as_bytes()
    }

    /// Gives up the encoder for the bytes of the file.
    pub fn into_bytes(self) -> (r: Vec<u8>)
        ensures
            r@ == self.writer@.bytes,
    {
        self.writer.into_bytes()
    }
}

/// Low level interface to encode image file directories.
///
/// A directory borrows the sink of its file. Its entries are collected by
/// [`write_tag`](DirectoryEncoder::write_tag) and written by
/// [`finish`](DirectoryEncoder::finish), which must be called for the directory to reach
/// the file.
pub struct DirectoryEncoder<'a, K: TiffKind> {
    /// The sink of the file.
    pub writer: &'a mut TiffWriter,
    /// The position of the slot that is to receive the offset of this directory.
    pub ifd_pointer_pos: u64,
    /// The entries, by tag.
    pub ifd: BTreeMap<u16, DirectoryEntry>,
    pub kind: PhantomData<K>,
}

impl<'a, K: TiffKind> DirectoryEncoder<'a, K> {
    /// What the entries hold, by tag.
    pub open spec fn entries(&self) -> Entries {
        entry_models(self.ifd@)
    }

    /// The directory can be written: the sink appends, without a codec; the slot for the
    /// offset of the directory lies within the file; and every value count fits its field.
    pub open spec fn wf(&self) -> bool {
        &&& self.writer@.at_end()
        &&& self.writer@.compressor == CompressorModel::Uncompressed
        &&& self.ifd_pointer_pos + K::format().offset_width <= self.writer@.bytes.len()
        &&& counts_fit(self.entries(), K::format())
    }

    /// Whether the value count of every entry fits its field.
    fn all_counts_fit(&self) -> (r: bool)
        ensures
            r == counts_fit(self.entries(), K::format()),
    {
        let ghost m = self.entries();
        let ghost tags = ordered_tags(m.dom());
        proof {
            assert(m.dom() =~= self.ifd@.dom());
            lemma_ordered_tags(m.dom());
        }
        let entries = ordered_entries(&self.ifd);
        let mut i: usize = 0;
        while i < entries.len()
            invariant
                i <= entries.len(),
                m == entry_models(self.ifd@),
                tags == ordered_tags(m.dom()),
                entries@.len() == tags.len(),
                forall|k: int|
                    0 <= k < entries@.len() ==> (#[trigger] entries@[k]).0 == tags[k]
                        && self.ifd@.contains_key(entries@[k].0) && *entries@[k].1
                        == self.ifd@[entries@[k].0],
                forall|k: int|
                    0 <= k < i ==> K::format().holds_offset(m[#[trigger] tags[k]].count),
            decreases entries.len() - i,
        {
            proof {
                assert(entries@[i as int].0 == tags[i as int]);
                assert(m[tags[i as int]] == entries@[i as int].1@);
            }
            match K::convert_offset(entries[i].1.count) {
                Ok(_) => {},
                Err(_) => {
                    proof {
                        assert(m.contains_key(tags[i as int]));
                    }
                    return false;
                },
            }
            i += 1;
        }
        proof {
            assert forall|t: u16| #[trigger] m.contains_key(t) implies K::format().holds_offset(
                m[t].count,
            ) by {
                assert(tags.contains(t));
                let k = choose|k: int| 0 <= k < tags.len() && tags[k] == t;
                assert(K::format().holds_offset(m[tags[k]].count));
            }
        }
        true
    }

    /// Whether the directory can be written, as [`wf`](DirectoryEncoder::wf) says.
    pub fn is_wf(&self) -> (r: bool)
        ensures
            r == self.wf(),
    {
        let len = self.writer.as_bytes().len();
        let width = K::offset_width();
        self.writer.is_at_end() && !self.writer.is_compressing() && len >= width
            && self.ifd_pointer_pos <= (len - width) as u64 && self.all_counts_fit()
    }

    /// Starts a directory on `writer`, whose last offset field is the slot that will
    /// receive the offset of the directory. The directory is empty, and the sink is padded
    /// to an even position.
    pub fn new(writer: &'a mut TiffWriter) -> (r: TiffResult<Self>)
        requires
            old(writer)@.at_end(),
            old(writer)@.compressor == CompressorModel::Uncompressed,
            old(writer)@.position >= K::format().offset_width,
        ensures
            r matches Ok(d) && d.wf() && d.entries() == Map::<u16, EntryModel>::empty()
                && d.ifd_pointer_pos == old(writer)@.position - K::format().offset_width
                && d.writer@ == old(writer)@.pad() && *final(d.writer) == *final(writer),
    {
        // the previous word is the slot for the offset of this directory
        let ifd_pointer_pos = writer.offset() - K::offset_width() as u64;
        writer.pad_word_boundary();
        let d = DirectoryEncoder { writer, ifd_pointer_pos, ifd: BTreeMap::new(), kind: PhantomData };
        proof {
            assert(d.entries() =~= Map::<u16, EntryModel>::empty());
        }
        Ok(d)
    }

    /// Stores `value` under `tag`, in the place of any value stored there before. Nothing
    /// is written to the file yet. Fails with [`TiffError::IntSizeError`], and changes
    /// nothing, if and only if the number of elements of `value` does not fit the count
    /// field of an entry. The stored form of the entry takes the bytes of one element
    /// times the number of its elements.
    pub fn write_tag<T: TiffValue>(&mut self, tag: Tag, value: T) -> (r: TiffResult<()>)
        ensures
            *final(final(self).writer) == *final(old(self).writer),
            final(self).writer@ == old(self).writer@,
            final(self).ifd_pointer_pos == old(self).ifd_pointer_pos,
            K::format().holds_offset(value.spec_count()) ==> r is Ok && final(self).entries()
                == old(self).entries().insert(tag.code(), entry_of(&value)),
            !K::format().holds_offset(value.spec_count()) ==> r == Err::<(), TiffError>(
                TiffError::IntSizeError,
            ) && final(self).ifd@ == old(self).ifd@,
            entry_of(&value).data.len() == entry_of(&value).count * T::BYTE_LEN,
            counts_fit(old(self).entries(), K::format()) ==> counts_fit(
                final(self).entries(),
                K::format(),
            ),
            old(self).wf() ==> final(self).wf(),
    {
        proof {
            value.lemma_data_len();
        }
        let data = value.data();
        let count = value.count();
        match K::convert_offset(count as u64) {
            Ok(_) => {},
            Err(e) => {
                return Err(e);
            },
        }
        let entry = DirectoryEntry {
            data_type: T::FIELD_TYPE.to_u16(),
            count: count as u64,
            data,
        };
        insert_entry(&mut self.ifd, tag.to_u16(), entry);
        proof {
            assert(final(self).entries() =~= old(self).entries().insert(tag.code(), entry@));
        }
        Ok(())
    }

    /// Stores `value` under `tag` where the number of its elements is known to fit the
    /// count field.
    fn set_tag<T: TiffValue>(&mut self, tag: Tag, value: T)
        requires
            K::format().holds_offset(value.spec_count()),
        ensures
            *final(final(self).writer) == *final(old(self).writer),
            final(self).writer@ == old(self).writer@,
            final(self).ifd_pointer_pos == old(self).ifd_pointer_pos,
            final(self).entries() == old(self).entries().insert(tag.code(), entry_of(&value)),
            counts_fit(old(self).entries(), K::format()) ==> counts_fit(
                final(self).entries(),
                K::format(),
            ),
            old(self).wf() ==> final(self).wf(),
    {
        match self.write_tag(tag, value) {
            Ok(()) => {},
            Err(_) => {},
        }
    }

    /// Writes `value` to the file at once, through the active codec, and returns the
    /// offset at which it was written. This is how image data reaches the file.
    pub fn write_data<T: TiffValue>(&mut self, value: T) -> (r: TiffResult<u64>)
        ensures
            *final(final(self).writer) == *final(old(self).writer),
            final(self).ifd_pointer_pos == old(self).ifd_pointer_pos,
            final(self).ifd == old(self).ifd,
            match old(self).writer@.write(value.spec_data()) {
                Ok(state) => {
                    &&& r is Ok
                    &&& r->Ok_0 == old(self).writer@.position
                    &&& final(self).writer@ == state
                },
                Err(e) => r == Err::<u64, TiffError>(e) && final(self).writer@ == old(
                    self,
                ).writer@,
            },
            old(self).wf() ==> final(self).wf(),
    {
        let offset = self.writer.offset();
        proof {
            if old(self).wf() {
                lemma_put_at_end(old(self).writer@, value.spec_data());
            }
        }
        match value.write(self.writer) {
            Ok(()) => {
                proof {
                    assert(self.entries() == old(self).entries());
                }
                Ok(offset)
            },
            Err(e) => Err(e),
        }
    }

    /// Writes the payloads that do not fit their entries, then the directory itself, and
    /// returns the offset of the directory.
    fn write_directory(&mut self) -> (r: TiffResult<u64>)
        requires
            old(self).wf(),
        ensures
            *final(final(self).writer) == *final(old(self).writer),
            final(self).ifd_pointer_pos == old(self).ifd_pointer_pos,
            final(self).ifd == old(self).ifd,
            directory_fits(old(self).entries(), old(self).writer@.bytes.len(), K::format())
                ==> r is Ok,
            r is Ok ==> {
                let m = old(self).entries();
                let tags = ordered_tags(m.dom());
                let base = old(self).writer@.bytes.len();
                &&& r == Ok::<u64, TiffError>(directory_offset(m, base, K::format()) as u64)
                &&& tags.len() < pow256(K::format().count_width)
                &&& final(self).writer@.bytes == old(self).writer@.bytes + payloads(
                    m,
                    tags,
                    K::format(),
                ) + le_bytes(tags.len(), K::format().count_width) + table(
                    m,
                    tags,
                    base,
                    K::format(),
                )
                &&& final(self).writer@.at_end()
                &&& final(self).writer@.compressor == CompressorModel::Uncompressed
            },
            r is Err ==> r == Err::<u64, TiffError>(TiffError::IntSizeError) && !directory_fits(
                old(self).entries(),
                old(self).writer@.bytes.len(),
                K::format(),
            ),
    {
        let ghost f = K::format();
        let ghost m = self.entries();
        let ghost tags = ordered_tags(m.dom());
        let ghost before = self.writer@.bytes;
        let ghost base = before.len();
        proof {
            K::lemma_format();
            assert(m.dom() =~= self.ifd@.dom());
        }
        let width = K::offset_width();
        let entries = ordered_entries(&self.ifd);
        let mut records: Vec<u8> = Vec::new();
        let mut i: usize = 0;
        proof {
            assert(tags.take(0) =~= Seq::<u16>::empty());
            assert(before + payloads(m, tags.take(0), f) =~= before);
        }
        while i < entries.len()
            invariant
                i <= entries.len(),
                f == K::format(),
                1 <= width <= 8,
                width == f.offset_width,
                m == entry_models(self.ifd@),
                tags == ordered_tags(m.dom()),
                base == before.len(),
                before == old(self).writer@.bytes,
                entries@.len() == tags.len(),
                forall|k: int|
                    0 <= k < entries@.len() ==> (#[trigger] entries@[k]).0 == tags[k]
                        && self.ifd@.contains_key(entries@[k].0) && *entries@[k].1
                        == self.ifd@[entries@[k].0],
                counts_fit(m, f),
                *final(self.writer) == *final(old(self).writer),
                self.ifd_pointer_pos == old(self).ifd_pointer_pos,
                self.ifd == old(self).ifd,
                self.writer@.bytes == before + payloads(m, tags.take(i as int), f),
                self.writer@.at_end(),
                self.writer@.compressor == CompressorModel::Uncompressed,
                records@ == table(m, tags.take(i as int), base, f),
            decreases entries.len() - i,
        {
            let tag: u16 = entries[i].0;
            let entry: &DirectoryEntry = entries[i].1;
            let ghost e = m[tag];
            let ghost at = base + payloads(m, tags.take(i as int), f).len();
            proof {
                assert(entries@[i as int].0 == tags[i as int]);
                assert(m.contains_key(tag));
                assert(e == entry@);
                lemma_take_next(m, tags, base, f, i as int);
                lemma_payloads_prefix(m, tags, f, i as int);
            }
            let ghost head = records@;
            push_le(&mut records, tag as u64, 2);
            push_le(&mut records, entry.data_type as u64, 2);
            push_le(&mut records, entry.count, width);
            if entry.data.len() > width {
                let offset = self.writer.offset();
                proof {
                    lemma_put_at_end(self.writer@, entry.data@);
                }
                match self.writer.write_bytes(entry.data.as_slice()) {
                    Ok(()) => {},
                    Err(e) => {
                        return Err(e);
                    },
                }
                let mut field = TiffWriter::new();
                match K::write_offset(&mut field, offset) {
                    Ok(()) => {},
                    Err(e) => {
                        proof {
                            assert(directory_offset(m, base, f) >= offset);
                        }
                        return Err(e);
                    },
                }
                let field_bytes = field.into_bytes();
                proof {
                    lemma_le_bytes_len(offset as nat, f.offset_width);
                    assert(field_bytes@ =~= le_bytes(offset as nat, f.offset_width));
                }
                push_all(&mut records, field_bytes.as_slice());
            } else {
                push_all(&mut records, entry.data.as_slice());
                push_zeros(&mut records, width - entry.data.len());
            }
            proof {
                assert(records@ =~= head + entry_record(tag, e, at, f));
                assert(self.writer@.bytes =~= before + payloads(m, tags.take(i + 1), f));
            }
            i += 1;
        }
        proof {
            assert(tags.take(tags.len() as int) =~= tags);
        }
        let offset = self.writer.offset();
        proof {
            lemma_put_at_end(self.writer@, le_bytes(tags.len(), f.count_width));
        }
        match K::write_entry_count(self.writer, entries.len()) {
            Ok(()) => {},
            Err(e) => {
                return Err(e);
            },
        }
        proof {
            lemma_put_at_end(self.writer@, records@);
        }
        match self.writer.write_bytes(records.as_slice()) {
            Ok(()) => {},
            Err(e) => {
                return Err(e);
            },
        }
        Ok(offset)
    }

    /// Writes the directory and links it into the file: the slot reserved for its offset
    /// receives the offset, and a zero offset behind the directory ends the chain.
    fn finish_internal(&mut self) -> (r: TiffResult<()>)
        requires
            old(self).wf(),
        ensures
            *final(final(self).writer) == *final(old(self).writer),
            final(self).ifd_pointer_pos == old(self).ifd_pointer_pos,
            final(self).ifd == old(self).ifd,
            directory_fits(old(self).entries(), old(self).writer@.bytes.len(), K::format()) ==> {
                &&& r is Ok
                &&& final(self).writer@.bytes == finished_file(
                    old(self).writer@.bytes,
                    old(self).ifd_pointer_pos as nat,
                    old(self).entries(),
                    K::format(),
                )
                &&& final(self).writer@.at_end()
                &&& final(self).writer@.position >= K::format().offset_width
                &&& final(self).writer@.compressor == CompressorModel::Uncompressed
            },
            !directory_fits(old(self).entries(), old(self).writer@.bytes.len(), K::format()) ==> r
                == Err::<(), TiffError>(TiffError::IntSizeError),
    {
        let ghost f = K::format();
        let ghost m = self.entries();
        let ghost before = self.writer@.bytes;
        let ghost slot = self.ifd_pointer_pos as nat;
        proof {
            K::lemma_format();
            lemma_pow256_positive(f.offset_width);
            lemma_le_bytes_zero(f.offset_width);
        }
        let ifd_pointer = match self.write_directory() {
            Ok(offset) => offset,
            Err(e) => {
                return Err(e);
            },
        };
        let ghost written = self.writer@.bytes;
        let ghost link = le_bytes(ifd_pointer as nat, f.offset_width);
        let curr_pos = self.writer.offset();
        match self.writer.goto_offset(self.ifd_pointer_pos) {
            Ok(()) => {},
            Err(e) => {
                return Err(e);
            },
        }
        proof {
            lemma_le_bytes_len(ifd_pointer as nat, f.offset_width);
            lemma_put_within(self.writer@, link);
        }
        match K::write_offset(self.writer, ifd_pointer) {
            Ok(()) => {},
            Err(e) => {
                return Err(e);
            },
        }
        match self.writer.goto_offset(curr_pos) {
            Ok(()) => {},
            Err(e) => {
                return Err(e);
            },
        }
        proof {
            lemma_put_at_end(self.writer@, zeros(f.offset_width));
        }
        match K::write_offset(self.writer, 0) {
            Ok(()) => {},
            Err(e) => {
                return Err(e);
            },
        }
        proof {
            assert(before + directory_image(m, before.len(), f) =~= written + zeros(
                f.offset_width,
            ));
            assert(self.writer@.bytes =~= finished_file(before, slot, m, f));
            lemma_finished_file_len(before, slot, m, f);
        }
        Ok(())
    }

    /// Writes the directory to the file and links it in.
    ///
    /// Behind the bytes written so far come the values that do not fit an entry, then the
    /// directory with its entries in ascending tag order, then a zero offset. The slot
    /// reserved for the offset of this directory receives that offset. Fails with
    /// [`TiffError::IntSizeError`] if and only if the offset of the directory or the number
    /// of its entries does not fit its field; the file is then left unfinished.
    pub fn finish(self) -> (r: TiffResult<()>)
        requires
            self.wf(),
        ensures
            directory_fits(self.entries(), old(self.writer)@.bytes.len(), K::format()) ==> {
                &&& r is Ok
                &&& final(self.writer)@.bytes == finished_file(
                    old(self.writer)@.bytes,
                    self.ifd_pointer_pos as nat,
                    self.entries(),
                    K::format(),
                )
                &&& final(self.writer)@.at_end()
                &&& final(self.writer)@.position >= K::format().offset_width
                &&& final(self.writer)@.compressor == CompressorModel::Uncompressed
            },
            !directory_fits(self.entries(), old(self.writer)@.bytes.len(), K::format()) ==> r
                == Err::<(), TiffError>(TiffError::IntSizeError),
    {
        let mut directory = self;
        directory.finish_internal()
    }

    /// The number of bytes that the last write to the file emitted.
    pub fn last_written(&self) -> (r: u64)
        ensures
            r == old(self.writer)@.last_written,
    {
        self.writer.last_written()
    }
}

/// The codes of the channel formats `formats`.
pub open spec fn format_codes(formats: Seq<SampleFormat>) -> Seq<u16> {
    formats.map_values(|format: SampleFormat| format.code())
}

/// The entries of `m` and, over them, the entries that every image has: its dimensions,
/// its compression, the layout of its pixels, a resolution of one pixel per unit without
/// a unit, and the size of its chunks.
pub open spec fn image_entries<C: ColorType, D: Compression>(
    m: Entries,
    plan: ChunkPlan,
) -> Entries {
    let common = m.insert(Tag::ImageWidth.code(), entry_of(&plan.width)).insert(
        Tag::ImageLength.code(),
        entry_of(&plan.height),
    ).insert(Tag::Compression.code(), entry_of(&D::COMPRESSION_METHOD.code())).insert(
        Tag::BitsPerSample.code(),
        array_entry(C::spec_bits_per_sample()),
    ).insert(Tag::SampleFormat.code(), array_entry(format_codes(C::spec_sample_format()))).insert(
        Tag::PhotometricInterpretation.code(),
        entry_of(&C::TIFF_VALUE.code()),
    ).insert(Tag::SamplesPerPixel.code(), entry_of(&(plan.sample_unit_size as u16))).insert(
        Tag::XResolution.code(),
        entry_of(&Rational { n: 1, d: 1 }),
    ).insert(Tag::YResolution.code(), entry_of(&Rational { n: 1, d: 1 })).insert(
        Tag::ResolutionUnit.code(),
        entry_of(&ResolutionUnit::NoUnit.code()),
    );
    match plan.chunk_type {
        ChunkType::Strip => common.insert(Tag::RowsPerStrip.code(), entry_of(&plan.chunk_height)),
        ChunkType::Tile => common.insert(Tag::TileWidth.code(), entry_of(&plan.chunk_width)).insert(
            Tag::TileLength.code(),
            entry_of(&plan.chunk_height),
        ),
    }
}

/// The geometry of an image of `width` by `height` pixels of the color type `C` under the
/// compression `D`, or the reason why there is none.
pub open spec fn image_plan<C: ColorType, D: Compression>(
    width: u32,
    height: u32,
    chunk_type: ChunkType,
    chunk_dims: Option<(u64, u64)>,
) -> TiffResult<ChunkPlan> {
    planned(
        width,
        height,
        C::spec_bits_per_sample().len() as u64,
        <C::Inner as TiffSample>::BYTE_LEN,
        D::COMPRESSION_METHOD,
        chunk_type,
        chunk_dims,
    )
}

/// The offsets that `offsets` stand for.
pub open spec fn offset_values<K: TiffKind>(offsets: Seq<K::OffsetType>) -> Seq<nat> {
    offsets.map_values(|offset: K::OffsetType| K::offset_value(offset))
}

/// The stored form of an array of offsets of `width` bytes each.
pub open spec fn offsets_bytes(values: Seq<nat>, width: nat) -> Seq<u8>
    decreases values.len(),
{
    if values.len() == 0 {
        Seq::empty()
    } else {
        offsets_bytes(values.drop_last(), width) + le_bytes(values.last(), width)
    }
}

/// The entry that stands for an array of offsets, or of numbers of bytes, in a directory
/// of the variant `K`.
pub open spec fn offsets_entry<K: TiffKind>(values: Seq<nat>) -> EntryModel {
    EntryModel {
        field_type: <K::OffsetType as TiffSample>::FIELD_TYPE.code(),
        count: values.len(),
        data: offsets_bytes(values, K::format().offset_width),
    }
}

/// An array of offset fields is stored as the array of the offsets that they stand for.
pub proof fn lemma_offsets_entry<K: TiffKind>(offsets: Seq<K::OffsetType>)
    ensures
        array_entry(offsets) == offsets_entry::<K>(offset_values::<K>(offsets)),
    decreases offsets.len(),
{
    let values = offset_values::<K>(offsets);
    if offsets.len() > 0 {
        lemma_offsets_entry::<K>(offsets.drop_last());
        K::lemma_offset_bytes(offsets.last());
        assert(offset_values::<K>(offsets.drop_last()) =~= values.drop_last());
        assert(values.last() == K::offset_value(offsets.last()));
    }
}

/// The entries of `m` and, over them, the two entries that tell where the chunks of an
/// image lie: their offsets, and the numbers of bytes that they take in the file.
pub open spec fn chunk_table_entries<K: TiffKind>(
    m: Entries,
    chunk_type: ChunkType,
    offsets: Seq<nat>,
    byte_counts: Seq<nat>,
) -> Entries {
    match chunk_type {
        ChunkType::Strip => m.insert(Tag::StripOffsets.code(), offsets_entry::<K>(offsets)).insert(
            Tag::StripByteCounts.code(),
            offsets_entry::<K>(byte_counts),
        ),
        ChunkType::Tile => m.insert(Tag::TileOffsets.code(), offsets_entry::<K>(offsets)).insert(
            Tag::TileByteCounts.code(),
            offsets_entry::<K>(byte_counts),
        ),
    }
}

/// The directories of an image in the classic format and in BigTIFF hold the same tags,
/// and so list them in the same order; and but for the chunk tables, whose elements have
/// the width of an offset, they hold the same entries.
pub proof fn lemma_variants_agree(
    m: Entries,
    chunk_type: ChunkType,
    classic_offsets: Seq<nat>,
    classic_byte_counts: Seq<nat>,
    big_offsets: Seq<nat>,
    big_byte_counts: Seq<nat>,
)
    ensures
        ({
            let classic = chunk_table_entries::<TiffKindStandard>(
                m,
                chunk_type,
                classic_offsets,
                classic_byte_counts,
            );
            let big = chunk_table_entries::<TiffKindBig>(
                m,
                chunk_type,
                big_offsets,
                big_byte_counts,
            );
            &&& classic.dom() == big.dom()
            &&& ordered_tags(classic.dom()) == ordered_tags(big.dom())
            &&& forall|t: u16|
                m.contains_key(t) && t != Tag::StripOffsets.code() && t
                    != Tag::StripByteCounts.code() && t != Tag::TileOffsets.code() && t
                    != Tag::TileByteCounts.code() ==> #[trigger] classic[t] == m[t] && big[t]
                    == m[t]
        }),
{
    let classic = chunk_table_entries::<TiffKindStandard>(
        m,
        chunk_type,
        classic_offsets,
        classic_byte_counts,
    );
    let big = chunk_table_entries::<TiffKindBig>(m, chunk_type, big_offsets, big_byte_counts);
    assert(classic.dom() =~= big.dom());
}

/// Whether `r` and the sink `after` are what finishing an image gives whose chunks lie
/// at `offsets` and take `byte_counts` bytes, whose directory holds the entries `given`,
/// and whose file holds the bytes `before`.
///
/// The directory receives the offsets and the stored sizes of the chunks. It is then
/// written to the file and linked in, as [`finished_file`] says. This fails with
/// [`TiffError::IntSizeError`] if and only if the number of chunks does not fit a count
/// field or the directory does not fit the file.
pub open spec fn image_finished<K: TiffKind>(
    before: Seq<u8>,
    slot: nat,
    given: Entries,
    chunk_type: ChunkType,
    offsets: Seq<nat>,
    byte_counts: Seq<nat>,
    after: SinkState,
    r: TiffResult<()>,
) -> bool {
    let entries = chunk_table_entries::<K>(given, chunk_type, offsets, byte_counts);
    if K::format().holds_offset(offsets.len()) && directory_fits(
        entries,
        before.len(),
        K::format(),
    ) {
        &&& r is Ok
        &&& after.bytes == finished_file(before, slot, entries, K::format())
        &&& after.at_end()
        &&& after.position >= K::format().offset_width
        &&& after.compressor == CompressorModel::Uncompressed
    } else {
        r == Err::<(), TiffError>(TiffError::IntSizeError)
    }
}

/// Whether `r` and the sink `after` are what writing an image from the buffer `data`
/// gives, where the image is one of `plan` whose next chunk is number `first`, the run of
/// chunk writes starts at `start`, and the directory holds the entries `given` and is to
/// be linked from the slot at `slot`.
///
/// A buffer with fewer samples than the image has pixels is refused as invalid data (and
/// an image with more pixels than a buffer can have as invalid input). Else the chunks
/// that are left are cut from `data` and written under the codec `codec`, as
/// [`chunk_run`] says, and the image is finished, as [`image_finished`] says. The first
/// error on the way is the result.
pub open spec fn image_written<T: TiffSample, K: TiffKind>(
    plan: ChunkPlan,
    codec: CompressorModel,
    start: ChunkRun,
    first: nat,
    slot: nat,
    given: Entries,
    data: Seq<T>,
    after: SinkState,
    r: TiffResult<()>,
) -> bool {
    let pixels = plan.width as nat * plan.height as nat;
    if pixels > usize::MAX {
        r == Err::<(), TiffError>(TiffError::IoError(IoErrorKind::InvalidInput))
    } else if data.len() < pixels {
        r == Err::<(), TiffError>(TiffError::IoError(IoErrorKind::InvalidData))
    } else {
        match chunk_run(plan, codec, K::format(), data, start, first, chunks_left(plan, first)) {
            Err(e) => r == Err::<(), TiffError>(e),
            Ok(run) => image_finished::<K>(
                run.bytes,
                slot,
                given,
                plan.chunk_type,
                run.offsets,
                run.byte_counts,
                after,
                r,
            ),
        }
    }
}

/// Builds the codes of the channel formats `formats`.
fn encode_formats(formats: &Vec<SampleFormat>) -> (r: Vec<u16>)
    ensures
        r@ == format_codes(formats@),
{
    let mut codes: Vec<u16> = Vec::new();
    let mut i: usize = 0;
    while i < formats.len()
        invariant
            i <= formats.len(),
            codes@ == format_codes(formats@.subrange(0, i as int)),
        decreases formats.len() - i,
    {
        codes.push(formats[i].to_u16());
        i += 1;
        proof {
            assert(codes@ =~= format_codes(formats@.subrange(0, i as int)));
        }
    }
    proof {
        assert(formats@.subrange(0, formats@.len() as int) =~= formats@);
    }
    codes
}

/// Encoder of one image, chunk by chunk.
///
/// The chunks are written in order, each with as many samples as
/// [`next_chunk_sample_count`](ImageEncoder::next_chunk_sample_count) tells. The offset
/// and the stored size of every chunk are kept, and written with the directory of the
/// image by [`finish`](ImageEncoder::finish), which must be called for the image to
/// reach the file.
pub struct ImageEncoder<'a, C: ColorType, K: TiffKind, D: Compression = Uncompressed> {
    /// The directory of the image.
    pub encoder: DirectoryEncoder<'a, K>,
    /// The number of the next chunk.
    pub data_idx: u64,
    /// The geometry of the chunks.
    pub plan: ChunkPlan,
    /// The number of bytes that each chunk written so far takes in the file.
    pub chunk_byte_count: Vec<K::OffsetType>,
    /// The offset of each chunk written so far.
    pub chunk_offsets: Vec<K::OffsetType>,
    /// The compression of the image data.
    pub compression: D,
    pub _phantom: PhantomData<C>,
}

impl<'a, C: ColorType, K: TiffKind, D: Compression> ImageEncoder<'a, C, K, D> {
    /// The encoder can take a chunk: the plan is sound, one offset and one size are kept
    /// for every chunk written, the sink appends, and the directory is well formed but
    /// for a codec that may be active.
    pub open spec fn ready(&self) -> bool {
        &&& self.plan.wf()
        &&& self.chunk_offsets@.len() == self.data_idx
        &&& self.chunk_byte_count@.len() == self.data_idx
        &&& self.encoder.writer@.at_end()
        &&& self.encoder.ifd_pointer_pos + K::format().offset_width
            <= self.encoder.writer@.bytes.len()
        &&& counts_fit(self.encoder.entries(), K::format())
    }

    /// The encoder is ready and no codec is active.
    pub open spec fn wf(&self) -> bool {
        &&& self.ready()
        &&& self.encoder.writer@.compressor == CompressorModel::Uncompressed
    }

    /// Whether the encoder can take a chunk and no codec is active, as
    /// [`wf`](ImageEncoder::wf) says.
    pub fn is_wf(&self) -> (r: bool)
        ensures
            r == self.wf(),
    {
        self.plan.is_wf() && self.chunk_offsets.len() as u64 == self.data_idx
            && self.chunk_byte_count.len() as u64 == self.data_idx && self.encoder.is_wf()
    }

    /// The offsets of the chunks written so far.
    pub open spec fn offsets(&self) -> Seq<nat> {
        offset_values::<K>(self.chunk_offsets@)
    }

    /// The numbers of bytes that the chunks written so far take in the file.
    pub open spec fn byte_counts(&self) -> Seq<nat> {
        offset_values::<K>(self.chunk_byte_count@)
    }

    /// Starts an image of `width` by `height` pixels in strips, under the default value
    /// of the compression `D`.
    pub fn new(encoder: DirectoryEncoder<'a, K>, width: u32, height: u32) -> (r: TiffResult<
        Self,
    >) where D: Default
        requires
            encoder.wf(),
        ensures
            Self::started(encoder, width, height, ChunkType::Strip, None, r),
            r is Err ==> *final(encoder.writer) == *old(encoder.writer),
            r matches Ok(image) ==> *final(image.encoder.writer) == *final(encoder.writer),
    {
        Self::with_compression(encoder, width, height, D::default())
    }

    /// Starts an image of `width` by `height` pixels in chunks of the kind `chunk_type`,
    /// under the default value of the compression `D`.
    pub fn new_with_type(
        encoder: DirectoryEncoder<'a, K>,
        width: u32,
        height: u32,
        chunk_type: ChunkType,
        chunk_dims: Option<(u64, u64)>,
    ) -> (r: TiffResult<Self>) where D: Default
        requires
            encoder.wf(),
        ensures
            Self::started(encoder, width, height, chunk_type, chunk_dims, r),
            r is Err ==> *final(encoder.writer) == *old(encoder.writer),
            r matches Ok(image) ==> *final(image.encoder.writer) == *final(encoder.writer),
    {
        Self::with_compression_with_type(
            encoder,
            width,
            height,
            D::default(),
            chunk_type,
            chunk_dims,
        )
    }

    /// Starts an image of `width` by `height` pixels in strips, under `compression`.
    pub fn with_compression(
        encoder: DirectoryEncoder<'a, K>,
        width: u32,
        height: u32,
        compression: D,
    ) -> (r: TiffResult<Self>)
        requires
            encoder.wf(),
        ensures
            Self::started(encoder, width, height, ChunkType::Strip, None, r),
            r is Err ==> *final(encoder.writer) == *old(encoder.writer),
            r matches Ok(image) ==> *final(image.encoder.writer) == *final(encoder.writer),
            r matches Ok(image) ==> image.compression == compression,
    {
        Self::with_compression_with_type(
            encoder,
            width,
            height,
            compression,
            ChunkType::Strip,
            None,
        )
    }

    /// Starts an image of `width` by `height` pixels in chunks of the kind `chunk_type`,
    /// under `compression`. Tiles take their size from `chunk_dims`.
    pub fn with_compression_with_type(
        encoder: DirectoryEncoder<'a, K>,
        width: u32,
        height: u32,
        compression: D,
        chunk_type: ChunkType,
        chunk_dims: Option<(u64, u64)>,
    ) -> (r: TiffResult<Self>)
        requires
            encoder.wf(),
        ensures
            Self::started(encoder, width, height, chunk_type, chunk_dims, r),
            r is Err ==> *final(encoder.writer) == *old(encoder.writer),
            r matches Ok(image) ==> *final(image.encoder.writer) == *final(encoder.writer),
            r matches Ok(image) ==> image.compression == compression,
    {
        let mut encoder = encoder;
        let bits = C::bits_per_sample();
        let plan = match ChunkPlan::new(
            width,
            height,
            bits.len() as u64,
            <C::Inner as TiffSample>::BYTE_LEN,
            D::COMPRESSION_METHOD,
            chunk_type,
            chunk_dims,
        ) {
            Ok(plan) => plan,
            Err(e) => {
                return Err(e);
            },
        };
        proof {
            K::lemma_format();
            lemma_pow256_values();
            lemma_pow256_monotonic(4, K::format().offset_width);
        }
        let ghost given = encoder.entries();
        encoder.set_tag(Tag::ImageWidth, width);
        encoder.set_tag(Tag::ImageLength, height);
        encoder.set_tag(Tag::Compression, D::COMPRESSION_METHOD.to_u16());
        let bits_per_sample = bits.as_slice();
        proof {
            lemma_entry_of_array::<u16>(bits_per_sample);
        }
        encoder.set_tag(Tag::BitsPerSample, bits_per_sample);
        let formats = C::sample_format();
        let format_codes = encode_formats(&formats);
        let sample_format = format_codes.as_slice();
        proof {
            lemma_entry_of_array::<u16>(sample_format);
        }
        encoder.set_tag(Tag::SampleFormat, sample_format);
        encoder.set_tag(Tag::PhotometricInterpretation, C::TIFF_VALUE.to_u16());
        encoder.set_tag(Tag::SamplesPerPixel, bits.len() as u16);
        encoder.set_tag(Tag::XResolution, Rational { n: 1, d: 1 });
        encoder.set_tag(Tag::YResolution, Rational { n: 1, d: 1 });
        encoder.set_tag(Tag::ResolutionUnit, ResolutionUnit::NoUnit.to_u16());
        match chunk_type {
            ChunkType::Strip => {
                encoder.set_tag(Tag::RowsPerStrip, plan.chunk_height);
            },
            ChunkType::Tile => {
                encoder.set_tag(Tag::TileWidth, plan.chunk_width);
                encoder.set_tag(Tag::TileLength, plan.chunk_height);
            },
        }
        proof {
            assert(encoder.entries() == image_entries::<C, D>(given, plan));
        }
        Ok(
            ImageEncoder {
                encoder,
                data_idx: 0,
                plan,
                chunk_byte_count: Vec::new(),
                chunk_offsets: Vec::new(),
                compression,
                _phantom: PhantomData,
            },
        )
    }

    /// The width and the height of the next chunk, in pixels; zero when all chunks of
    /// the image are written.
    pub fn next_chunk_dimensions(&self) -> (r: (u64, u64))
        requires
            self.plan.wf(),
        ensures
            r.0 == self.plan.chunk_dimensions(self.data_idx as nat).0,
            r.1 == self.plan.chunk_dimensions(self.data_idx as nat).1,
    {
        self.plan.dimensions_of(self.data_idx)
    }

    /// The number of samples that the next strip must have.
    pub fn next_strip_sample_count(&self) -> (r: u64)
        requires
            self.plan.wf(),
        ensures
            r == self.plan.chunk_samples(self.data_idx as nat),
    {
        self.next_chunk_sample_count()
    }

    /// The number of samples that the next chunk must have; zero when all chunks of the
    /// image are written.
    pub fn next_chunk_sample_count(&self) -> (r: u64)
        requires
            self.plan.wf(),
        ensures
            r == self.plan.chunk_samples(self.data_idx as nat),
    {
        self.plan.samples_of(self.data_idx)
    }

    /// The number of chunks side by side and the number of chunks above one another.
    pub fn get_chunk_dim_counts(&self) -> (r: (u64, u64))
        ensures
            r == (self.plan.chunks_per_row, self.plan.chunks_per_col),
    {
        (self.plan.chunks_per_row, self.plan.chunks_per_col)
    }

    /// Whether nothing but the sink, the chunk tables and the chunk number lies between
    /// `pre` and `post`.
    pub open spec fn same_image(pre: Self, post: Self) -> bool {
        &&& post.plan == pre.plan
        &&& post.compression == pre.compression
        &&& post.encoder.ifd == pre.encoder.ifd
        &&& post.encoder.ifd_pointer_pos == pre.encoder.ifd_pointer_pos
    }

    /// Whether the chunk tables and the chunk number of `post` are those of `pre`.
    pub open spec fn same_tables(pre: Self, post: Self) -> bool {
        &&& post.chunk_offsets == pre.chunk_offsets
        &&& post.chunk_byte_count == pre.chunk_byte_count
        &&& post.data_idx == pre.data_idx
    }

    /// Whether the write of the chunk `samples` under the codec `codec` that ended with
    /// `r` led from `pre` to `post`.
    ///
    /// A chunk of another size than the next chunk of the plan is refused as invalid data,
    /// and so is one that the codec refuses, with the error of the codec; nothing is
    /// written then. Else the bytes that the codec emits are appended to the file. Their
    /// offset and their number are appended to the chunk tables, unless one of them does
    /// not fit an offset field: then the chunk is in the file, the tables are as before,
    /// and the error is [`TiffError::IntSizeError`].
    pub open spec fn chunk_step(
        pre: Self,
        post: Self,
        codec: CompressorModel,
        samples: Seq<C::Inner>,
        r: TiffResult<()>,
    ) -> bool {
        let sink = pre.encoder.writer@;
        let after = post.encoder.writer@;
        &&& Self::same_image(pre, post)
        &&& after.compressor == sink.compressor
        &&& if samples.len() != pre.plan.chunk_samples(pre.data_idx as nat) {
            &&& r == Err::<(), TiffError>(TiffError::IoError(IoErrorKind::InvalidData))
            &&& after == sink
            &&& Self::same_tables(pre, post)
        } else {
            match encoded(codec, samples_bytes(samples)) {
                Err(e) => {
                    &&& r == Err::<(), TiffError>(e)
                    &&& after == sink
                    &&& Self::same_tables(pre, post)
                },
                Ok(stream) => {
                    &&& after.bytes == sink.bytes + stream
                    &&& after.at_end()
                    &&& after.last_written == stream.len()
                    &&& if K::format().holds_offset(sink.position) && K::format().holds_offset(
                        stream.len(),
                    ) {
                        &&& r is Ok
                        &&& post.offsets() == pre.offsets().push(sink.position)
                        &&& post.byte_counts() == pre.byte_counts().push(stream.len())
                        &&& post.data_idx == pre.data_idx + 1
                    } else {
                        &&& r == Err::<(), TiffError>(TiffError::IntSizeError)
                        &&& Self::same_tables(pre, post)
                    }
                },
            }
        }
    }

    /// Records a chunk that was written at `offset` and takes `byte_count` bytes in the
    /// file. Fails with [`TiffError::IntSizeError`], and records nothing, if and only if
    /// one of the two numbers does not fit an offset field.
    pub fn record_chunk(&mut self, offset: u64, byte_count: u64) -> (r: TiffResult<()>)
        requires
            old(self).chunk_offsets@.len() == old(self).data_idx,
            old(self).chunk_byte_count@.len() == old(self).data_idx,
        ensures
            final(self).encoder == old(self).encoder,
            final(self).plan == old(self).plan,
            final(self).compression == old(self).compression,
            final(self).chunk_offsets@.len() == final(self).data_idx,
            final(self).chunk_byte_count@.len() == final(self).data_idx,
            K::format().holds_offset(offset as nat) && K::format().holds_offset(byte_count as nat)
                ==> {
                &&& r is Ok
                &&& final(self).offsets() == old(self).offsets().push(offset as nat)
                &&& final(self).byte_counts() == old(self).byte_counts().push(byte_count as nat)
                &&& final(self).data_idx == old(self).data_idx + 1
            },
            !(K::format().holds_offset(offset as nat) && K::format().holds_offset(
                byte_count as nat,
            )) ==> r == Err::<(), TiffError>(TiffError::IntSizeError) && Self::same_tables(
                *old(self),
                *final(self),
            ),
    {
        let at = match K::convert_offset(offset) {
            Ok(at) => at,
            Err(e) => {
                return Err(e);
            },
        };
        let size = match K::convert_offset(byte_count) {
            Ok(size) => size,
            Err(e) => {
                return Err(e);
            },
        };
        self.chunk_offsets.push(at);
        self.chunk_byte_count.push(size);
        self.data_idx = self.chunk_offsets.len() as u64;
        proof {
            assert(self.offsets() =~= old(self).offsets().push(offset as nat));
            assert(self.byte_counts() =~= old(self).byte_counts().push(byte_count as nat));
        }
        Ok(())
    }

    /// Writes the next chunk through whatever codec is active on the sink.
    fn write_chunk_inner(&mut self, value: &[C::Inner]) -> (r: TiffResult<()>)
        requires
            old(self).ready(),
        ensures
            *final(final(self).encoder.writer) == *final(old(self).encoder.writer),
            Self::chunk_step(
                *old(self),
                *final(self),
                old(self).encoder.writer@.compressor,
                value@,
                r,
            ),
            final(self).ready(),
    {
        let samples = self.next_chunk_sample_count();
        if value.len() as u64 != samples {
            return Err(TiffError::IoError(IoErrorKind::InvalidData));
        }
        let ghost sink = self.encoder.writer@;
        proof {
            if encoded(sink.compressor, samples_bytes(value@)) is Ok {
                lemma_put_at_end(sink, encoded(sink.compressor, samples_bytes(value@))->Ok_0);
            }
        }
        // write the (possibly compressed) data
        let offset = match self.encoder.write_data(value) {
            Ok(offset) => offset,
            Err(e) => {
                proof {
                    assert(self.encoder.entries() == old(self).encoder.entries());
                }
                return Err(e);
            },
        };
        let byte_count = self.encoder.last_written();
        proof {
            assert(self.encoder.entries() == old(self).encoder.entries());
        }
        self.record_chunk(offset, byte_count)
    }

    /// Writes the next chunk of the image, uncompressed.
    ///
    /// `value` must hold exactly the samples of the chunk, as many as
    /// [`next_chunk_sample_count`](ImageEncoder::next_chunk_sample_count) tells. The
    /// offset of the chunk and the number of bytes written are recorded.
    pub fn write_chunk(&mut self, value: &[C::Inner]) -> (r: TiffResult<()>)
        requires
            old(self).wf(),
        ensures
            *final(final(self).encoder.writer) == *final(old(self).encoder.writer),
            Self::chunk_step(*old(self), *final(self), CompressorModel::Uncompressed, value@, r),
            final(self).wf(),
    {
        self.write_chunk_inner(value)
    }

    /// Writes the next chunk of the image through the codec of its compression.
    ///
    /// The number of bytes recorded for the chunk is the number that the codec emitted.
    pub fn write_chunk_with_compression(&mut self, value: &[C::Inner]) -> (r: TiffResult<()>)
        requires
            old(self).wf(),
        ensures
            *final(final(self).encoder.writer) == *final(old(self).encoder.writer),
            Self::chunk_step(*old(self), *final(self), old(self).compression.model(), value@, r),
            final(self).wf(),
    {
        self.encoder.writer.set_compression(self.compression.get_algorithm());
        proof {
            assert(self.encoder.entries() == old(self).encoder.entries());
        }
        let result = self.write_chunk_inner(value);
        self.encoder.writer.reset_compression();
        result
    }

    /// Writes the next strip of the image, uncompressed.
    pub fn write_strip(&mut self, value: &[C::Inner]) -> (r: TiffResult<()>)
        requires
            old(self).wf(),
        ensures
            *final(final(self).encoder.writer) == *final(old(self).encoder.writer),
            Self::chunk_step(*old(self), *final(self), CompressorModel::Uncompressed, value@, r),
            final(self).wf(),
    {
        self.write_chunk(value)
    }

    /// Whether `r` and the sink `after` are what writing the image `pre` from the buffer
    /// `data` gives: see [`image_written`].
    pub open spec fn bulk_written(
        pre: Self,
        data: Seq<C::Inner>,
        after: SinkState,
        r: TiffResult<()>,
    ) -> bool {
        image_written::<C::Inner, K>(
            pre.plan,
            pre.compression.model(),
            pre.run_start(),
            pre.data_idx as nat,
            pre.encoder.ifd_pointer_pos as nat,
            pre.encoder.entries(),
            data,
            after,
            r,
        )
    }

    /// Where a run of chunk writes from a buffer starts: at the file and the chunk tables
    /// as they are, with no sample taken.
    pub open spec fn run_start(&self) -> ChunkRun {
        ChunkRun {
            bytes: self.encoder.writer@.bytes,
            offsets: self.offsets(),
            byte_counts: self.byte_counts(),
            taken: 0,
        }
    }

    /// Writes the chunks of the image that are left from `data`, under the codec of the
    /// compression, and finishes the image.
    ///
    /// The samples of the chunks are taken from the start of `data`, one chunk behind the
    /// other; samples that are left over are ignored.
    pub fn write_data(self, data: &[C::Inner]) -> (r: TiffResult<()>)
        requires
            self.wf(),
        ensures
            Self::bulk_written(self, data@, final(self.encoder.writer)@, r),
    {
        let mut image = self;
        let width = image.plan.width as usize;
        let height = image.plan.height as usize;
        let num_pix = match width.checked_mul(height) {
            Some(num_pix) => num_pix,
            None => {
                return Err(TiffError::IoError(IoErrorKind::InvalidInput));
            },
        };
        if data.len() < num_pix {
            return Err(TiffError::IoError(IoErrorKind::InvalidData));
        }
        let ghost f = K::format();
        let ghost codec = image.compression.model();
        let ghost start = image.run_start();
        let ghost first = image.data_idx as nat;
        let ghost total = chunks_left(image.plan, first);
        image.encoder.writer.set_compression(image.compression.get_algorithm());
        proof {
            assert(image.encoder.entries() == self.encoder.entries());
        }
        let mut idx: usize = 0;
        while image.next_chunk_sample_count() > 0
            invariant
                image.ready(),
                Self::same_image(self, image),
                *final(image.encoder.writer) == *final(self.encoder.writer),
                image.encoder.writer@.compressor == codec,
                codec == self.compression.model(),
                f == K::format(),
                start == self.run_start(),
                first == self.data_idx,
                total == chunks_left(self.plan, first),
                idx <= data@.len(),
                self.plan.width as nat * self.plan.height as nat <= usize::MAX,
                data@.len() >= self.plan.width as nat * self.plan.height as nat,
                first <= image.data_idx,
                image.data_idx - first <= total,
                first <= self.plan.chunk_count ==> image.data_idx <= self.plan.chunk_count,
                chunk_run(
                    self.plan,
                    codec,
                    f,
                    data@,
                    start,
                    first,
                    (image.data_idx - first) as nat,
                ) == Ok::<ChunkRun, TiffError>(
                    ChunkRun {
                        bytes: image.encoder.writer@.bytes,
                        offsets: image.offsets(),
                        byte_counts: image.byte_counts(),
                        taken: idx as nat,
                    },
                ),
            decreases self.plan.chunk_count - image.data_idx,
        {
            let ghost done = (image.data_idx - first) as nat;
            let ghost chunk = image.data_idx as nat;
            proof {
                image.plan.lemma_chunk_samples(chunk);
            }
            let sample_count = image.next_chunk_sample_count();
            if sample_count > (data.len() - idx) as u64 {
                image.encoder.writer.reset_compression();
                proof {
                    lemma_run_error_stays(
                        self.plan,
                        codec,
                        f,
                        data@,
                        start,
                        first,
                        done + 1,
                        total,
                    );
                }
                return Err(TiffError::IoError(IoErrorKind::InvalidData));
            }
            let end: usize = idx + sample_count as usize;
            let ghost before = image;
            let written = image.write_chunk_inner(&data[idx..end]);
            proof {
                assert(data@.subrange(idx as int, end as int).len() == sample_count);
                assert(chunk_raw(self.plan, data@, idx as nat, chunk) == samples_bytes(
                    data@.subrange(idx as int, end as int),
                ));
            }
            match written {
                Ok(()) => {},
                Err(e) => {
                    image.encoder.writer.reset_compression();
                    proof {
                        lemma_run_error_stays(
                            self.plan,
                            codec,
                            f,
                            data@,
                            start,
                            first,
                            done + 1,
                            total,
                        );
                    }
                    return Err(e);
                },
            }
            idx = end;
        }
        proof {
            image.plan.lemma_chunk_samples(image.data_idx as nat);
            assert(image.data_idx - first == total);
        }
        image.encoder.writer.reset_compression();
        proof {
            assert(image.encoder.entries() == self.encoder.entries());
        }
        image.finish_internal()
    }

    /// Whether `post` differs from `pre` in the entries of its directory only, which
    /// are `entries`.
    pub open spec fn retagged(pre: Self, post: Self, entries: Entries) -> bool {
        &&& post.encoder.entries() == entries
        &&& post.encoder.writer@ == pre.encoder.writer@
        &&& post.encoder.ifd_pointer_pos == pre.encoder.ifd_pointer_pos
        &&& post.plan == pre.plan
        &&& post.compression == pre.compression
        &&& Self::same_tables(pre, post)
    }

    /// Sets the resolution of the image, in both directions, and its unit.
    pub fn resolution(&mut self, unit: ResolutionUnit, value: Rational)
        ensures
            *final(final(self).encoder.writer) == *final(old(self).encoder.writer),
            Self::retagged(
                *old(self),
                *final(self),
                old(self).encoder.entries().insert(
                    Tag::ResolutionUnit.code(),
                    entry_of(&unit.code()),
                ).insert(Tag::XResolution.code(), entry_of(&value)).insert(
                    Tag::YResolution.code(),
                    entry_of(&value),
                ),
            ),
            old(self).ready() ==> final(self).ready(),
            old(self).wf() ==> final(self).wf(),
    {
        proof {
            K::lemma_format();
            lemma_pow256_positive(K::format().offset_width);
            lemma_pow256_values();
            lemma_pow256_monotonic(4, K::format().offset_width);
        }
        self.encoder.set_tag(Tag::ResolutionUnit, unit.to_u16());
        self.encoder.set_tag(Tag::XResolution, value);
        self.encoder.set_tag(Tag::YResolution, value);
    }

    /// Sets the unit of the resolution of the image.
    pub fn resolution_unit(&mut self, unit: ResolutionUnit)
        ensures
            *final(final(self).encoder.writer) == *final(old(self).encoder.writer),
            Self::retagged(
                *old(self),
                *final(self),
                old(self).encoder.entries().insert(
                    Tag::ResolutionUnit.code(),
                    entry_of(&unit.code()),
                ),
            ),
            old(self).ready() ==> final(self).ready(),
            old(self).wf() ==> final(self).wf(),
    {
        proof {
            K::lemma_format();
            lemma_pow256_values();
            lemma_pow256_monotonic(4, K::format().offset_width);
        }
        self.encoder.set_tag(Tag::ResolutionUnit, unit.to_u16());
    }

    /// Sets the horizontal resolution of the image.
    pub fn x_resolution(&mut self, value: Rational)
        ensures
            *final(final(self).encoder.writer) == *final(old(self).encoder.writer),
            Self::retagged(
                *old(self),
                *final(self),
                old(self).encoder.entries().insert(Tag::XResolution.code(), entry_of(&value)),
            ),
            old(self).ready() ==> final(self).ready(),
            old(self).wf() ==> final(self).wf(),
    {
        proof {
            K::lemma_format();
            lemma_pow256_values();
            lemma_pow256_monotonic(4, K::format().offset_width);
        }
        self.encoder.set_tag(Tag::XResolution, value);
    }

    /// Sets the vertical resolution of the image.
    pub fn y_resolution(&mut self, value: Rational)
        ensures
            *final(final(self).encoder.writer) == *final(old(self).encoder.writer),
            Self::retagged(
                *old(self),
                *final(self),
                old(self).encoder.entries().insert(Tag::YResolution.code(), entry_of(&value)),
            ),
            old(self).ready() ==> final(self).ready(),
            old(self).wf() ==> final(self).wf(),
    {
        proof {
            K::lemma_format();
            lemma_pow256_values();
            lemma_pow256_monotonic(4, K::format().offset_width);
        }
        self.encoder.set_tag(Tag::YResolution, value);
    }

    /// Sets the kind of data that the directory of the image describes.
    pub fn subfiletype(&mut self, value: SubfileType)
        ensures
            *final(final(self).encoder.writer) == *final(old(self).encoder.writer),
            Self::retagged(
                *old(self),
                *final(self),
                old(self).encoder.entries().insert(
                    Tag::SubfileType.code(),
                    entry_of(&value.code()),
                ),
            ),
            old(self).ready() ==> final(self).ready(),
            old(self).wf() ==> final(self).wf(),
    {
        proof {
            K::lemma_format();
            lemma_pow256_values();
            lemma_pow256_monotonic(4, K::format().offset_width);
        }
        self.encoder.set_tag(Tag::SubfileType, value.to_u16());
    }

    /// Sets the number of rows of a strip, and plans the chunks of the image anew.
    ///
    /// This is possible before the first chunk is written only: afterwards the call fails
    /// with an invalid-input error. Zero rows are refused with
    /// [`UsageError::InvalidRowsPerStrip`](crate::error::UsageError), and rows that make
    /// a strip of more samples than can be counted with [`TiffError::IntSizeError`]. A
    /// call that fails changes nothing.
    pub fn rows_per_strip(&mut self, value: u32) -> (r: TiffResult<()>)
        requires
            old(self).plan.wf(),
        ensures
            *final(final(self).encoder.writer) == *final(old(self).encoder.writer),
            old(self).data_idx != 0 ==> r == Err::<(), TiffError>(
                TiffError::IoError(IoErrorKind::InvalidInput),
            ),
            old(self).data_idx == 0 ==> match old(self).plan.replanned(value) {
                Ok(plan) => {
                    &&& r is Ok
                    &&& final(self).plan == plan
                    &&& final(self).encoder.entries() == old(self).encoder.entries().insert(
                        Tag::RowsPerStrip.code(),
                        entry_of(&value),
                    )
                },
                Err(e) => r == Err::<(), TiffError>(e),
            },
            r is Err ==> final(self).plan == old(self).plan && final(self).encoder.ifd == old(
                self,
            ).encoder.ifd,
            final(self).encoder.writer@ == old(self).encoder.writer@,
            final(self).encoder.ifd_pointer_pos == old(self).encoder.ifd_pointer_pos,
            final(self).compression == old(self).compression,
            Self::same_tables(*old(self), *final(self)),
            old(self).ready() ==> final(self).ready(),
            old(self).wf() ==> final(self).wf(),
    {
        if self.data_idx != 0 {
            return Err(TiffError::IoError(IoErrorKind::InvalidInput));
        }
        let plan = match self.plan.replan(value) {
            Ok(plan) => plan,
            Err(e) => {
                return Err(e);
            },
        };
        proof {
            K::lemma_format();
            lemma_pow256_values();
            lemma_pow256_monotonic(4, K::format().offset_width);
        }
        // the tag holds 32 bits
        self.encoder.set_tag(Tag::RowsPerStrip, value);
        self.plan = plan;
        Ok(())
    }

    /// The directory of the image, to store further entries in.
    pub fn encoder(&mut self) -> (r: &mut DirectoryEncoder<'a, K>)
        ensures
            *r == old(self).encoder,
            final(self).encoder == *final(r),
            final(self).plan == old(self).plan,
            final(self).compression == old(self).compression,
            Self::same_tables(*old(self), *final(self)),
    {
        &mut self.encoder
    }

    /// Stores the chunk tables in the directory, and writes the directory.
    fn finish_internal(&mut self) -> (r: TiffResult<()>)
        requires
            old(self).wf(),
        ensures
            *final(final(self).encoder.writer) == *final(old(self).encoder.writer),
            Self::finished(
                *old(self),
                final(self).encoder.writer@,
                r,
            ),
    {
        let ghost given = self.encoder.entries();
        let offsets = K::convert_slice(self.chunk_offsets.as_slice());
        let byte_counts = K::convert_slice(self.chunk_byte_count.as_slice());
        proof {
            K::lemma_format();
            lemma_reference_constants::<K::OffsetArrayType>();
            lemma_offsets_entry::<K>(self.chunk_offsets@);
            lemma_offsets_entry::<K>(self.chunk_byte_count@);
            assert(entry_of(&offsets) == offsets_entry::<K>(self.offsets()));
            assert(entry_of(&byte_counts) == offsets_entry::<K>(self.byte_counts()));
        }
        match self.plan.chunk_type {
            ChunkType::Strip => {
                match self.encoder.write_tag(Tag::StripOffsets, offsets) {
                    Ok(()) => {},
                    Err(e) => {
                        return Err(e);
                    },
                }
                match self.encoder.write_tag(Tag::StripByteCounts, byte_counts) {
                    Ok(()) => {},
                    Err(e) => {
                        return Err(e);
                    },
                }
            },
            ChunkType::Tile => {
                match self.encoder.write_tag(Tag::TileOffsets, offsets) {
                    Ok(()) => {},
                    Err(e) => {
                        return Err(e);
                    },
                }
                match self.encoder.write_tag(Tag::TileByteCounts, byte_counts) {
                    Ok(()) => {},
                    Err(e) => {
                        return Err(e);
                    },
                }
            },
        }
        self.encoder.finish_internal()
    }

    /// Whether `r` and the sink `after` are what finishing the image `pre` gives: see
    /// [`image_finished`].
    pub open spec fn finished(pre: Self, after: SinkState, r: TiffResult<()>) -> bool {
        image_finished::<K>(
            pre.encoder.writer@.bytes,
            pre.encoder.ifd_pointer_pos as nat,
            pre.encoder.entries(),
            pre.plan.chunk_type,
            pre.offsets(),
            pre.byte_counts(),
            after,
            r,
        )
    }

    /// Writes the directory of the image, with the offsets and the stored sizes of the
    /// chunks written so far, and links it into the file.
    pub fn finish(self) -> (r: TiffResult<()>)
        requires
            self.wf(),
        ensures
            Self::finished(self, final(self.encoder.writer)@, r),
    {
        let mut image = self;
        image.finish_internal()
    }

    /// Whether `r` is what starting an image on `encoder` gives: the error of the plan, or
    /// an encoder before its first chunk, whose directory holds the entries of `encoder`
    /// and those of the image.
    pub open spec fn started(
        encoder: DirectoryEncoder<'a, K>,
        width: u32,
        height: u32,
        chunk_type: ChunkType,
        chunk_dims: Option<(u64, u64)>,
        r: TiffResult<Self>,
    ) -> bool {
        match image_plan::<C, D>(width, height, chunk_type, chunk_dims) {
            Err(e) => r is Err && r->Err_0 == e,
            Ok(plan) => {
                &&& r matches Ok(image)
                &&& image.wf()
                &&& image.plan == plan
                &&& image.data_idx == 0
                &&& image.encoder.entries() == image_entries::<C, D>(encoder.entries(), plan)
                &&& image.encoder.ifd_pointer_pos == encoder.ifd_pointer_pos
                &&& image.encoder.writer@ == encoder.writer@
            },
        }
    }
}

} // verus!
