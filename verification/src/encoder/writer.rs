//! The byte sink of an encoder: the bytes of the file so far, with a write cursor.

use vstd::prelude::*;
use crate::endian::le_bytes;
use crate::endian::le_encode;
use crate::endian::zeros;
use crate::error::IoErrorKind;
use crate::error::TiffError;
use crate::error::TiffResult;
use crate::encoder::compression::encoded;
use crate::encoder::compression::CompressionAlgorithm;
use crate::encoder::compression::Compressor;
use crate::encoder::compression::CompressorModel;

verus! {

/// `data` with the bytes from position `pos` on replaced by `chunk`. Where `chunk` reaches
/// beyond the end of `data`, the result is longer than `data`; where `pos` lies beyond the
/// end, the gap is filled with zero bytes.
pub open spec fn splice(data: Seq<u8>, pos: nat, chunk: Seq<u8>) -> Seq<u8> {
    let padded = if pos > data.len() {
        data + zeros((pos - data.len()) as nat)
    } else {
        data
    };
    let end = pos + chunk.len();
    let tail = if end < padded.len() {
        padded.subrange(end as int, padded.len() as int)
    } else {
        Seq::empty()
    };
    padded.subrange(0, pos as int) + chunk + tail
}

/// What a sink holds: the bytes written so far, the position of the write cursor, the
/// number of bytes that the last write emitted, and the active codec.
pub struct SinkState {
    pub bytes: Seq<u8>,
    pub position: nat,
    pub last_written: nat,
    pub compressor: CompressorModel,
}

impl SinkState {
    /// The cursor stands at the end of the bytes, so that a write appends.
    pub open spec fn at_end(self) -> bool {
        self.position == self.bytes.len()
    }

    /// The state after `chunk` was put at the cursor, without a codec and without
    /// counting it as a write.
    pub open spec fn put(self, chunk: Seq<u8>) -> SinkState {
        SinkState {
            bytes: splice(self.bytes, self.position, chunk),
            position: self.position + chunk.len(),
            ..self
        }
    }

    /// The state after the write of `chunk`, bytes that a codec has already emitted.
    pub open spec fn emit(self, chunk: Seq<u8>) -> SinkState {
        SinkState { last_written: chunk.len(), ..self.put(chunk) }
    }

    /// The state after the write of the raw bytes `raw` through the active codec, or the
    /// error with which the codec refuses them.
    pub open spec fn write(self, raw: Seq<u8>) -> Result<SinkState, TiffError> {
        match encoded(self.compressor, raw) {
            Ok(stream) => Ok(self.emit(stream)),
            Err(e) => Err(e),
        }
    }

    /// Whether a write of the raw bytes `raw` that ended with `r` led from `self` to `after`:
    /// on success as `write` says, on failure with the error of the codec and nowhere.
    pub open spec fn written(self, raw: Seq<u8>, after: SinkState, r: TiffResult<()>) -> bool {
        match self.write(raw) {
            Ok(state) => r is Ok && after == state,
            Err(e) => r == Err::<(), TiffError>(e) && after == self,
        }
    }

    /// The state after the cursor was moved to `pos`.
    pub open spec fn seek(self, pos: nat) -> SinkState {
        SinkState { position: pos, ..self }
    }

    /// The state after the cursor was brought to an even position by at most one zero byte.
    pub open spec fn pad(self) -> SinkState {
        if self.position % 2 == 1 {
            self.put(seq![0u8])
        } else {
            self
        }
    }
}

/// A write at the end of the bytes appends, and leaves the cursor at the end.
pub proof fn lemma_put_at_end(state: SinkState, chunk: Seq<u8>)
    requires
        state.at_end(),
    ensures
        state.put(chunk).bytes == state.bytes + chunk,
        state.put(chunk).at_end(),
        state.emit(chunk).bytes == state.bytes + chunk,
        state.emit(chunk).at_end(),
{
    assert(state.put(chunk).bytes =~= state.bytes + chunk);
}

/// A write within the bytes replaces as many bytes as it is long, and nothing else.
pub proof fn lemma_put_within(state: SinkState, chunk: Seq<u8>)
    requires
        state.position + chunk.len() <= state.bytes.len(),
    ensures
        state.put(chunk).bytes.len() == state.bytes.len(),
        forall|i: int|
            0 <= i < state.bytes.len() ==> #[trigger] state.put(chunk).bytes[i] == if state.position
                <= i < state.position + chunk.len() {
                chunk[i - state.position]
            } else {
                state.bytes[i]
            },
{
}

/// An in-memory byte sink that tracks its write position.
///
/// Writes go through the active codec; [`TiffWriter::last_written`] tells how many bytes
/// the last of them emitted.
pub struct TiffWriter {
    buffer: Vec<u8>,
    offset: usize,
    byte_count: usize,
    compressor: Compressor,
}

impl View for TiffWriter {
    type V = SinkState;

    closed spec fn view(&self) -> SinkState {
        SinkState {
            bytes: self.buffer@,
            position: self.offset as nat,
            last_written: self.byte_count as nat,
            compressor: self.compressor.model(),
        }
    }
}

impl TiffWriter {
    /// Creates an empty sink without compression.
    pub fn new() -> (r: TiffWriter)
        ensures
            r@ == (SinkState {
                bytes: Seq::empty(),
                position: 0,
                last_written: 0,
                compressor: CompressorModel::Uncompressed,
            }),
    {
        TiffWriter { buffer: Vec::new(), offset: 0, byte_count: 0, compressor: Compressor::default() }
    }

    /// Makes `compressor` the active codec.
    pub fn set_compression(&mut self, compressor: Compressor)
        ensures
            final(self)@ == (SinkState { compressor: compressor.model(), ..old(self)@ }),
    {
        self.compressor = compressor;
    }

    /// Ends compression: later writes store their bytes as they are.
    pub fn reset_compression(&mut self)
        ensures
            final(self)@ == (SinkState { compressor: CompressorModel::Uncompressed, ..old(self)@ }),
    {
        self.compressor = Compressor::default();
    }

    /// The position of the write cursor.
    pub fn offset(&self) -> (r: u64)
        ensures
            r == self@.position,
            self@.position <= usize::MAX,
            self@.bytes.len() <= usize::MAX,
    {
        let _len = self.buffer.len();
        self.offset as u64
    }

    /// The number of bytes that the last write emitted.
    pub fn last_written(&self) -> (r: u64)
        ensures
            r == self@.last_written,
    {
        self.byte_count as u64
    }

    /// Whether the cursor stands at the end of the bytes, so that a write appends.
    pub fn is_at_end(&self) -> (r: bool)
        ensures
            r == self@.at_end(),
    {
        self.offset == self.buffer.len()
    }

    /// Whether a codec is active that changes the bytes written.
    pub fn is_compressing(&self) -> (r: bool)
        ensures
            r == (self@.compressor != CompressorModel::Uncompressed),
    {
        self.compressor.is_active()
    }

    /// The bytes written so far.
    pub fn as_bytes(&self) -> (r: &[u8])
        ensures
            r@ == self@.bytes,
    {
        self.buffer.as_slice()
    }

    /// Gives up the sink for the bytes written so far.
    pub fn into_bytes(self) -> (r: Vec<u8>)
        ensures
            r@ == self@.bytes,
    {
        self.buffer
    }

    /// Puts `chunk` at the cursor: over the bytes that are there, and beyond the end where
    /// they run out.
    fn put(&mut self, chunk: &[u8])
        ensures
            final(self)@ == old(self)@.put(chunk@),
    {
        let ghost before = self.buffer@;
        let start: usize = self.offset;
        while self.buffer.len() < start
            invariant
                start == self.offset,
                self.byte_count == old(self).byte_count,
                self.compressor == old(self).compressor,
                before.len() <= self.buffer@.len(),
                self.buffer@.len() == before.len() || self.buffer@.len() <= start,
                self.buffer@ == before + zeros((self.buffer@.len() - before.len()) as nat),
            decreases start - self.buffer@.len(),
        {
            self.buffer.push(0);
            proof {
                assert(self.buffer@ =~= before + zeros((self.buffer@.len() - before.len()) as nat));
            }
        }
        let ghost padded = self.buffer@;
        let mut i: usize = 0;
        proof {
            assert(padded =~= before + zeros((padded.len() - before.len()) as nat));
            assert(self.buffer@ =~= splice(before, start as nat, chunk@.subrange(0, 0)));
        }
        while i < chunk.len()
            invariant
                i <= chunk.len(),
                start <= padded.len(),
                start == self.offset,
                self.byte_count == old(self).byte_count,
                self.compressor == old(self).compressor,
                padded == if start > before.len() {
                    before + zeros((start - before.len()) as nat)
                } else {
                    before
                },
                self.buffer@ == splice(before, start as nat, chunk@.subrange(0, i as int)),
            decreases chunk.len() - i,
        {
            let len = self.buffer.len();
            assert(start + i <= len);
            let at: usize = start + i;
            if at < len {
                self.buffer.set(at, chunk[i]);
            } else {
                self.buffer.push(chunk[i]);
            }
            i += 1;
            proof {
                assert(self.buffer@ =~= splice(before, start as nat, chunk@.subrange(0, i as int)));
            }
        }
        proof {
            assert(chunk@.subrange(0, chunk@.len() as int) =~= chunk@);
            assert(start + chunk@.len() <= self.buffer@.len());
        }
        let _len = self.buffer.len();
        self.offset = self.offset + chunk.len();
    }

    /// Writes bytes that are already in their stored form, whatever the active codec.
    pub fn write_raw(&mut self, chunk: &[u8])
        ensures
            final(self)@ == old(self)@.emit(chunk@),
    {
        self.put(chunk);
        self.byte_count = chunk.len();
    }

    /// Writes `bytes` through the active codec. Where the codec refuses them, the sink
    /// stays as it was.
    pub fn write_bytes(&mut self, bytes: &[u8]) -> (r: TiffResult<()>)
        ensures
            old(self)@.written(bytes@, final(self)@, r),
    {
        let mut stream: Vec<u8> = Vec::new();
        match self.compressor.write_to(&mut stream, bytes) {
            Ok(_) => {
                proof {
                    assert(Seq::<u8>::empty() + stream@ =~= stream@);
                }
                self.write_raw(stream.as_slice());
                Ok(())
            },
            Err(e) => Err(e),
        }
    }

    /// Writes one byte through the active codec.
    pub fn write_u8(&mut self, n: u8) -> (r: TiffResult<()>)
        ensures
            old(self)@.written(le_bytes(n as nat, 1), final(self)@, r),
    {
        let bytes = le_encode(n as u64, 1);
        self.write_bytes(bytes.as_slice())
    }

    /// Writes a 16-bit number through the active codec.
    pub fn write_u16(&mut self, n: u16) -> (r: TiffResult<()>)
        ensures
            old(self)@.written(le_bytes(n as nat, 2), final(self)@, r),
    {
        let bytes = le_encode(n as u64, 2);
        self.write_bytes(bytes.as_slice())
    }

    /// Writes a 32-bit number through the active codec.
    pub fn write_u32(&mut self, n: u32) -> (r: TiffResult<()>)
        ensures
            old(self)@.written(le_bytes(n as nat, 4), final(self)@, r),
    {
        let bytes = le_encode(n as u64, 4);
        self.write_bytes(bytes.as_slice())
    }

    /// Writes a 64-bit number through the active codec.
    pub fn write_u64(&mut self, n: u64) -> (r: TiffResult<()>)
        ensures
            old(self)@.written(le_bytes(n as nat, 8), final(self)@, r),
    {
        let bytes = le_encode(n, 8);
        self.write_bytes(bytes.as_slice())
    }

    /// Brings the cursor to an even position, by one zero byte if it is odd.
    pub fn pad_word_boundary(&mut self)
        ensures
            final(self)@ == old(self)@.pad(),
    {
        if self.offset % 2 == 1 {
            let padding: [u8; 1] = [0];
            proof {
                assert(padding@ =~= seq![0u8]);
            }
            self.put(&padding);
        }
    }

    /// Moves the cursor to `offset`. A later write there fills any gap behind the bytes
    /// written so far with zeros. An offset that no buffer in memory can reach is refused.
    pub fn goto_offset(&mut self, offset: u64) -> (r: TiffResult<()>)
        ensures
            offset <= usize::MAX ==> r is Ok && final(self)@ == old(self)@.seek(offset as nat),
            offset > usize::MAX ==> r == Err::<(), TiffError>(
                TiffError::IoError(IoErrorKind::InvalidInput),
            ) && final(self)@ == old(self)@,
    {
        if offset > usize::MAX as u64 {
            return Err(TiffError::IoError(IoErrorKind::InvalidInput));
        }
        self.offset = offset as usize;
        Ok(())
    }
}

/// The signature of a little-endian file of the classic format: byte order and version 42.
pub open spec fn tiff_signature() -> Seq<u8> {
    seq![0x49u8, 0x49u8] + le_bytes(42, 2)
}

/// The signature of a little-endian BigTIFF file: byte order, version 43, the size of an
/// offset and a reserved zero.
pub open spec fn bigtiff_signature() -> Seq<u8> {
    seq![0x49u8, 0x49u8] + le_bytes(43, 2) + le_bytes(8, 2) + le_bytes(0, 2)
}

/// Puts the signature of the classic format at the cursor, past any codec.
pub fn write_tiff_header(writer: &mut TiffWriter)
    ensures
        final(writer)@ == old(writer)@.put(tiff_signature()),
{
    let mut header: Vec<u8> = Vec::new();
    header.push(0x49);
    header.push(0x49);
    crate::endian::push_le(&mut header, 42, 2);
    proof {
        assert(header@ =~= tiff_signature());
    }
    writer.put(header.as_slice());
}

/// Puts the signature of BigTIFF at the cursor, past any codec.
pub fn write_bigtiff_header(writer: &mut TiffWriter)
    ensures
        final(writer)@ == old(writer)@.put(bigtiff_signature()),
{
    let mut header: Vec<u8> = Vec::new();
    header.push(0x49);
    header.push(0x49);
    crate::endian::push_le(&mut header, 43, 2);
    crate::endian::push_le(&mut header, 8, 2);
    crate::endian::push_le(&mut header, 0, 2);
    proof {
        assert(header@ =~= bigtiff_signature());
    }
    writer.put(header.as_slice());
}

} // verus!
