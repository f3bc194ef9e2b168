//! Writing the chunks of an image one after another from one buffer of samples.

use vstd::prelude::*;
use crate::error::IoErrorKind;
use crate::error::TiffError;
use crate::encoder::chunks::ChunkPlan;
use crate::encoder::compression::encoded;
use crate::encoder::compression::CompressorModel;
use crate::encoder::directory::Format;
use crate::encoder::tiff_value::samples_bytes;
use crate::encoder::tiff_value::TiffSample;

verus! {

/// Where a run of chunk writes stands: the bytes of the file, the offsets and the stored
/// sizes of the chunks written, and the number of samples taken from the buffer.
pub struct ChunkRun {
    pub bytes: Seq<u8>,
    pub offsets: Seq<nat>,
    pub byte_counts: Seq<nat>,
    pub taken: nat,
}

/// The raw bytes of the chunk number `chunk` of `plan` when its samples are those of
/// `data` from position `taken` on.
pub open spec fn chunk_raw<T: TiffSample>(
    plan: ChunkPlan,
    data: Seq<T>,
    taken: nat,
    chunk: nat,
) -> Seq<u8> {
    samples_bytes(data.subrange(taken as int, (taken + plan.chunk_samples(chunk)) as int))
}

/// Where a run stands after `n` chunks of `plan`, from chunk number `first` on, were cut
/// from `data` one behind the other and written under the codec `codec`; or the first
/// error on the way.
///
/// A chunk for which `data` has too few samples left ends the run with an invalid-data
/// error, and one that the codec refuses with the error of the codec. A chunk whose offset
/// or whose stored size does not fit an offset field ends it with
/// [`TiffError::IntSizeError`].
pub open spec fn chunk_run<T: TiffSample>(
    plan: ChunkPlan,
    codec: CompressorModel,
    f: Format,
    data: Seq<T>,
    start: ChunkRun,
    first: nat,
    n: nat,
) -> Result<ChunkRun, TiffError>
    decreases n,
{
    if n == 0 {
        Ok(start)
    } else {
        match chunk_run(plan, codec, f, data, start, first, (n - 1) as nat) {
            Err(e) => Err(e),
            Ok(prev) => {
                let chunk = (first + n - 1) as nat;
                if prev.taken + plan.chunk_samples(chunk) > data.len() {
                    Err(TiffError::IoError(IoErrorKind::InvalidData))
                } else {
                    match encoded(codec, chunk_raw(plan, data, prev.taken, chunk)) {
                        Err(e) => Err(e),
                        Ok(stream) => if f.holds_offset(prev.bytes.len()) && f.holds_offset(
                            stream.len(),
                        ) {
                            Ok(
                                ChunkRun {
                                    bytes: prev.bytes + stream,
                                    offsets: prev.offsets.push(prev.bytes.len()),
                                    byte_counts: prev.byte_counts.push(stream.len()),
                                    taken: prev.taken + plan.chunk_samples(chunk),
                                },
                            )
                        } else {
                            Err(TiffError::IntSizeError)
                        },
                    }
                }
            },
        }
    }
}

/// The number of chunks of `plan` that are left to write when chunk number `first` is
/// the next.
pub open spec fn chunks_left(plan: ChunkPlan, first: nat) -> nat {
    if first <= plan.chunk_count {
        (plan.chunk_count - first) as nat
    } else {
        0
    }
}

/// A run that has failed stays failed, with the same error.
pub proof fn lemma_run_error_stays<T: TiffSample>(
    plan: ChunkPlan,
    codec: CompressorModel,
    f: Format,
    data: Seq<T>,
    start: ChunkRun,
    first: nat,
    k: nat,
    n: nat,
)
    requires
        k <= n,
        chunk_run(plan, codec, f, data, start, first, k) is Err,
    ensures
        chunk_run(plan, codec, f, data, start, first, n) == chunk_run(
            plan,
            codec,
            f,
            data,
            start,
            first,
            k,
        ),
    decreases n,
{
    if k < n {
        lemma_run_error_stays(plan, codec, f, data, start, first, k, (n - 1) as nat);
    }
}

/// A run of `n` chunks adds one offset and one stored size for each of them to the chunk
/// tables, and keeps what the tables held.
pub proof fn lemma_run_lengths<T: TiffSample>(
    plan: ChunkPlan,
    codec: CompressorModel,
    f: Format,
    data: Seq<T>,
    start: ChunkRun,
    first: nat,
    n: nat,
)
    requires
        chunk_run(plan, codec, f, data, start, first, n) is Ok,
    ensures
        ({
            let run = chunk_run(plan, codec, f, data, start, first, n)->Ok_0;
            &&& run.offsets.len() == start.offsets.len() + n
            &&& run.byte_counts.len() == start.byte_counts.len() + n
            &&& run.offsets.subrange(0, start.offsets.len() as int) == start.offsets
            &&& run.byte_counts.subrange(0, start.byte_counts.len() as int)
                == start.byte_counts
        }),
    decreases n,
{
    let run = chunk_run(plan, codec, f, data, start, first, n)->Ok_0;
    if n > 0 {
        lemma_run_lengths(plan, codec, f, data, start, first, (n - 1) as nat);
        let prev = chunk_run(plan, codec, f, data, start, first, (n - 1) as nat)->Ok_0;
        assert(run.offsets.subrange(0, start.offsets.len() as int) =~= prev.offsets.subrange(
            0,
            start.offsets.len() as int,
        ));
        assert(run.byte_counts.subrange(0, start.byte_counts.len() as int)
            =~= prev.byte_counts.subrange(0, start.byte_counts.len() as int));
    } else {
        assert(run.offsets.subrange(0, start.offsets.len() as int) =~= start.offsets);
        assert(run.byte_counts.subrange(0, start.byte_counts.len() as int)
            =~= start.byte_counts);
    }
}

/// In a run of `n` chunks, the offset recorded for the chunk written as number `i` is
/// the length of the file before it was written, and its stored size is the number of
/// bytes that the codec emitted for it: not the number of its raw bytes.
pub proof fn lemma_run_chunk<T: TiffSample>(
    plan: ChunkPlan,
    codec: CompressorModel,
    f: Format,
    data: Seq<T>,
    start: ChunkRun,
    first: nat,
    n: nat,
    i: nat,
)
    requires
        i < n,
        chunk_run(plan, codec, f, data, start, first, n) is Ok,
    ensures
        ({
            let run = chunk_run(plan, codec, f, data, start, first, n)->Ok_0;
            let before = chunk_run(plan, codec, f, data, start, first, i);
            let stream = encoded(codec, chunk_raw(plan, data, before->Ok_0.taken, first + i));
            &&& before is Ok
            &&& stream is Ok
            &&& start.offsets.len() + i < run.offsets.len()
            &&& start.byte_counts.len() + i < run.byte_counts.len()
            &&& run.offsets[(start.offsets.len() + i) as int] == before->Ok_0.bytes.len()
            &&& run.byte_counts[(start.byte_counts.len() + i) as int] == stream->Ok_0.len()
        }),
    decreases n,
{
    let m = (n - 1) as nat;
    lemma_run_lengths(plan, codec, f, data, start, first, n);
    lemma_run_lengths(plan, codec, f, data, start, first, m);
    if i < m {
        lemma_run_chunk(plan, codec, f, data, start, first, m, i);
    }
}

/// A run takes the samples of its chunks from the buffer, and no others: after `n` chunks
/// from chunk number `first` on, as many samples are taken as these chunks hold.
pub proof fn lemma_run_taken<T: TiffSample>(
    plan: ChunkPlan,
    codec: CompressorModel,
    f: Format,
    data: Seq<T>,
    start: ChunkRun,
    first: nat,
    n: nat,
)
    requires
        chunk_run(plan, codec, f, data, start, first, n) is Ok,
    ensures
        chunk_run(plan, codec, f, data, start, first, n)->Ok_0.taken + plan.samples_before(first)
            == start.taken + plan.samples_before(first + n),
        chunk_run(plan, codec, f, data, start, first, n)->Ok_0.taken <= data.len() || n == 0,
    decreases n,
{
    if n > 0 {
        lemma_run_taken(plan, codec, f, data, start, first, (n - 1) as nat);
    }
}

/// After all chunks of an image are written from a buffer, each chunk table has as many
/// elements as the image has chunks.
pub proof fn lemma_full_run_tables<T: TiffSample>(
    plan: ChunkPlan,
    codec: CompressorModel,
    f: Format,
    data: Seq<T>,
    start: ChunkRun,
    first: nat,
)
    requires
        first <= plan.chunk_count,
        start.offsets.len() == first,
        start.byte_counts.len() == first,
        chunk_run(plan, codec, f, data, start, first, chunks_left(plan, first)) is Ok,
    ensures
        ({
            let run = chunk_run(plan, codec, f, data, start, first, chunks_left(plan, first))->Ok_0;
            &&& run.offsets.len() == plan.chunk_count
            &&& run.byte_counts.len() == plan.chunk_count
        }),
{
    lemma_run_lengths(plan, codec, f, data, start, first, chunks_left(plan, first));
}

} // verus!
