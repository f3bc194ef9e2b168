//! How an image is cut into strips or tiles.

use vstd::prelude::*;
use crate::error::TiffError;
use crate::error::TiffFormatError;
use crate::error::TiffResult;
use crate::error::UsageError;
use crate::tags::ChunkType;
use crate::tags::CompressionMethod;

verus! {

/// The number of pieces of length `b` that are needed to cover a length of `a`.
pub open spec fn ceil_div(a: nat, b: nat) -> nat
    recommends
        b > 0,
{
    if a % b == 0 {
        a / b
    } else {
        a / b + 1
    }
}

/// `ceil_div(a, b)` pieces cover `a`, and one piece less does not.
pub proof fn lemma_ceil_div(a: nat, b: nat)
    requires
        b > 0,
    ensures
        ceil_div(a, b) * b >= a,
        a > 0 ==> ceil_div(a, b) >= 1 && (ceil_div(a, b) - 1) * b < a,
        ceil_div(a, b) <= a,
{
    let q = a / b;
    let r = a % b;
    assert(a == q * b + r && 0 <= r < b) by (nonlinear_arith)
        requires
            q == a / b,
            r == a % b,
            b > 0,
    ;
    if r == 0 {
        assert(a > 0 ==> q >= 1) by (nonlinear_arith)
            requires
                a == q * b,
                b > 0,
        ;
        assert((q - 1) * b == q * b - b) by (nonlinear_arith);
        assert(q <= q * b) by (nonlinear_arith)
            requires
                b > 0,
                q >= 0,
        ;
    } else {
        assert((q + 1) * b == q * b + b) by (nonlinear_arith);
        assert(q + 1 <= q * b + r) by (nonlinear_arith)
            requires
                b > 0,
                q >= 0,
                r >= 1,
        ;
    }
}

/// The smaller of two numbers.
pub open spec fn min_nat(a: nat, b: nat) -> nat {
    if a <= b {
        a
    } else {
        b
    }
}

/// The geometry of the chunks of an image.
#[derive(Clone, Copy, Debug, PartialEq, Eq, Structural)]
pub struct ChunkPlan {
    /// Whether the chunks are strips or tiles.
    pub chunk_type: ChunkType,
    /// The width of the image in pixels.
    pub width: u32,
    /// The height of the image in pixels.
    pub height: u32,
    /// The width of a chunk in pixels; for strips, that of the image.
    pub chunk_width: u64,
    /// The height of a chunk in pixels. The last strip of an image may have fewer rows.
    pub chunk_height: u64,
    /// The number of chunks side by side; 1 for strips.
    pub chunks_per_row: u64,
    /// The number of chunks above one another.
    pub chunks_per_col: u64,
    /// The number of chunks of the image.
    pub chunk_count: u64,
    /// The number of samples of a pixel.
    pub sample_unit_size: u64,
}

impl ChunkPlan {
    /// The largest number of samples that a chunk of this plan holds.
    pub open spec fn max_chunk_samples(self) -> nat {
        match self.chunk_type {
            ChunkType::Strip => self.width as nat * min_nat(
                self.chunk_height as nat,
                self.height as nat,
            ) * self.sample_unit_size as nat,
            ChunkType::Tile => self.chunk_width as nat * self.chunk_height as nat
                * self.sample_unit_size as nat,
        }
    }

    /// The plan is one of an image with pixels: no dimension is zero, the chunks cover
    /// the image, there are as many as `chunk_count` says, and the number of samples of a
    /// chunk can be counted.
    pub open spec fn wf(self) -> bool {
        &&& self.width >= 1
        &&& self.height >= 1
        &&& self.chunk_width >= 1
        &&& self.chunk_height >= 1
        &&& self.sample_unit_size >= 1
        &&& self.chunk_type is Strip ==> self.chunk_width == self.width
        &&& self.chunks_per_row == ceil_div(self.width as nat, self.chunk_width as nat)
        &&& self.chunks_per_col == ceil_div(self.height as nat, self.chunk_height as nat)
        &&& self.chunk_count == self.chunks_per_row * self.chunks_per_col
        &&& self.chunk_count >= 1
        &&& self.max_chunk_samples() <= u64::MAX
    }

    /// The width and the height of chunk number `i`, in pixels. A strip ends where the
    /// image ends; a tile has its full size wherever it lies. Behind the last chunk the
    /// dimensions are zero.
    pub open spec fn chunk_dimensions(self, i: nat) -> (nat, nat) {
        if i >= self.chunk_count {
            (0, 0)
        } else {
            match self.chunk_type {
                ChunkType::Strip => (
                    self.width as nat,
                    (min_nat(self.height as nat, (i + 1) * self.chunk_height as nat) - min_nat(
                        self.height as nat,
                        i * self.chunk_height as nat,
                    )) as nat,
                ),
                ChunkType::Tile => (self.chunk_width as nat, self.chunk_height as nat),
            }
        }
    }

    /// The number of samples of chunk number `i`; zero behind the last chunk.
    pub open spec fn chunk_samples(self, i: nat) -> nat {
        self.chunk_dimensions(i).0 * self.chunk_dimensions(i).1 * self.sample_unit_size as nat
    }

    /// The number of samples of all chunks before chunk number `i`.
    pub open spec fn samples_before(self, i: nat) -> nat
        decreases i,
    {
        if i == 0 {
            0
        } else {
            self.samples_before((i - 1) as nat) + self.chunk_samples((i - 1) as nat)
        }
    }

    /// The plan that differs from `self` in the height of its chunks only: as many chunks
    /// above one another as it takes to cover the image.
    pub open spec fn with_chunk_height(self, rows: u64) -> ChunkPlan {
        let per_col = ceil_div(self.height as nat, rows as nat);
        ChunkPlan {
            chunk_height: rows,
            chunks_per_col: per_col as u64,
            chunk_count: (self.chunks_per_row * per_col) as u64,
            ..self
        }
    }
}

/// The height of the strips of an image when none is asked for: one row under a codec
/// that must not run across rows, else as many rows as fit a million bytes, and at
/// least one.
pub open spec fn default_strip_height(row_bytes: nat, method: CompressionMethod) -> nat {
    if method == CompressionMethod::PackBits {
        1
    } else if 1_000_000nat / row_bytes >= 1 {
        1_000_000nat / row_bytes
    } else {
        1
    }
}

/// The geometry of an image of `width` by `height` pixels of `channels` samples of
/// `byte_len` bytes each, or the reason why there is none.
///
/// An image without pixels is refused first; then tiles without a size, or of a size of
/// zero; then pixels without samples, or with more samples than the `SamplesPerPixel` tag
/// can tell; last a chunk with more samples than can be counted.
pub open spec fn planned(
    width: u32,
    height: u32,
    channels: u64,
    byte_len: u8,
    method: CompressionMethod,
    chunk_type: ChunkType,
    chunk_dims: Option<(u64, u64)>,
) -> TiffResult<ChunkPlan> {
    if width == 0 || height == 0 {
        Err(TiffError::FormatError(TiffFormatError::InvalidDimensions(width, height)))
    } else if chunk_type is Tile && chunk_dims is None {
        Err(TiffError::UsageError(UsageError::MissingTileDimensions))
    } else if chunk_type is Tile && (chunk_dims->Some_0.0 == 0 || chunk_dims->Some_0.1 == 0) {
        Err(
            TiffError::UsageError(
                UsageError::InvalidTileDimensions(chunk_dims->Some_0.0, chunk_dims->Some_0.1),
            ),
        )
    } else if channels == 0 || byte_len == 0 {
        Err(TiffError::UsageError(UsageError::EmptyColorType))
    } else if channels > 0xffff {
        Err(TiffError::IntSizeError)
    } else {
        let (chunk_width, chunk_height) = match chunk_type {
            ChunkType::Strip => (
                width as nat,
                default_strip_height(channels as nat * width as nat * byte_len as nat, method),
            ),
            ChunkType::Tile => (chunk_dims->Some_0.0 as nat, chunk_dims->Some_0.1 as nat),
        };
        let per_row = ceil_div(width as nat, chunk_width);
        let per_col = ceil_div(height as nat, chunk_height);
        let plan = ChunkPlan {
            chunk_type,
            width,
            height,
            chunk_width: chunk_width as u64,
            chunk_height: chunk_height as u64,
            chunks_per_row: per_row as u64,
            chunks_per_col: per_col as u64,
            chunk_count: (per_row * per_col) as u64,
            sample_unit_size: channels,
        };
        if plan.max_chunk_samples() > u64::MAX {
            Err(TiffError::IntSizeError)
        } else {
            Ok(plan)
        }
    }
}

/// Computes `ceil_div(a, b)` for a length that fits 32 bits.
fn ceil_div_exec(a: u32, b: u64) -> (r: u64)
    requires
        b > 0,
    ensures
        r == ceil_div(a as nat, b as nat),
        r <= a,
{
    proof {
        lemma_ceil_div(a as nat, b as nat);
    }
    let a64: u64 = a as u64;
    if a64 % b == 0 {
        a64 / b
    } else {
        a64 / b + 1
    }
}

/// Whether `a * b * c` exceeds what 64 bits hold.
fn product_overflows(a: u64, b: u64, c: u64) -> (r: bool)
    ensures
        r == (a as nat * b as nat * c as nat > u64::MAX),
{
    match a.checked_mul(b) {
        None => {
            if c == 0 {
                assert(a as nat * b as nat * 0 == 0) by (nonlinear_arith);
                false
            } else {
                assert(a as nat * b as nat * c as nat >= a as nat * b as nat) by (nonlinear_arith)
                    requires
                        c >= 1,
                ;
                true
            }
        },
        Some(ab) => {
            match ab.checked_mul(c) {
                None => true,
                Some(_) => false,
            }
        },
    }
}

impl ChunkPlan {
    /// Plans the chunks of an image of `width` by `height` pixels of `channels` samples of
    /// `byte_len` bytes each, to be compressed by `method`. Tiles take their size from
    /// `chunk_dims`; strips are as wide as the image and get their height by
    /// [`default_strip_height`].
    pub fn new(
        width: u32,
        height: u32,
        channels: u64,
        byte_len: u8,
        method: CompressionMethod,
        chunk_type: ChunkType,
        chunk_dims: Option<(u64, u64)>,
    ) -> (r: TiffResult<ChunkPlan>)
        ensures
            r == planned(width, height, channels, byte_len, method, chunk_type, chunk_dims),
            r matches Ok(plan) ==> plan.wf(),
    {
        if width == 0 || height == 0 {
            return Err(TiffError::FormatError(TiffFormatError::InvalidDimensions(width, height)));
        }
        let (chunk_width, chunk_height): (u64, u64) = match chunk_type {
            ChunkType::Strip => {
                if channels == 0 || byte_len == 0 {
                    return Err(TiffError::UsageError(UsageError::EmptyColorType));
                }
                if channels > 0xffff {
                    return Err(TiffError::IntSizeError);
                }
                assert(channels as nat * width as nat * byte_len as nat <= 0xffff * 0xffff_ffff
                    * 0xff && channels as nat * width as nat >= 1 && channels as nat * width as nat
                    <= 0xffff * 0xffff_ffff && channels as nat * width as nat * byte_len as nat
                    >= 1) by (nonlinear_arith)
                    requires
                        1 <= channels <= 0xffff,
                        1 <= width <= 0xffff_ffff,
                        1 <= byte_len <= 0xff,
                ;
                let row_bytes: u64 = channels * width as u64 * byte_len as u64;
                let rows: u64 = match method {
                    // each row is packed on its own
                    CompressionMethod::PackBits => 1,
                    _ => {
                        let fitting: u64 = 1_000_000 / row_bytes;
                        if fitting >= 1 {
                            fitting
                        } else {
                            1
                        }
                    },
                };
                (width as u64, rows)
            },
            ChunkType::Tile => {
                match chunk_dims {
                    None => {
                        return Err(TiffError::UsageError(UsageError::MissingTileDimensions));
                    },
                    Some((tile_width, tile_height)) => {
                        if tile_width == 0 || tile_height == 0 {
                            return Err(
                                TiffError::UsageError(
                                    UsageError::InvalidTileDimensions(tile_width, tile_height),
                                ),
                            );
                        }
                        if channels == 0 || byte_len == 0 {
                            return Err(TiffError::UsageError(UsageError::EmptyColorType));
                        }
                        if channels > 0xffff {
                            return Err(TiffError::IntSizeError);
                        }
                        (tile_width, tile_height)
                    },
                }
            },
        };
        let chunks_per_row = ceil_div_exec(width, chunk_width);
        let chunks_per_col = ceil_div_exec(height, chunk_height);
        proof {
            lemma_ceil_div(width as nat, chunk_width as nat);
            lemma_ceil_div(height as nat, chunk_height as nat);
            assert(1 <= chunks_per_row * chunks_per_col <= 0xffff_ffff * 0xffff_ffff)
                by (nonlinear_arith)
                requires
                    1 <= chunks_per_row <= 0xffff_ffff,
                    1 <= chunks_per_col <= 0xffff_ffff,
            ;
        }
        let plan = ChunkPlan {
            chunk_type,
            width,
            height,
            chunk_width,
            chunk_height,
            chunks_per_row,
            chunks_per_col,
            chunk_count: chunks_per_row * chunks_per_col,
            sample_unit_size: channels,
        };
        if plan.exceeds_count() {
            return Err(TiffError::IntSizeError);
        }
        Ok(plan)
    }

    /// The plan for chunks of `rows` rows in the place of the chunk height of `self`, or
    /// the reason why there is none: zero rows, or a chunk of more samples than can be
    /// counted.
    pub open spec fn replanned(self, rows: u32) -> TiffResult<ChunkPlan> {
        if rows == 0 {
            Err(TiffError::UsageError(UsageError::InvalidRowsPerStrip))
        } else if self.with_chunk_height(rows as u64).max_chunk_samples() > u64::MAX {
            Err(TiffError::IntSizeError)
        } else {
            Ok(self.with_chunk_height(rows as u64))
        }
    }

    /// Plans the chunks anew for chunks of `rows` rows.
    pub fn replan(&self, rows: u32) -> (r: TiffResult<ChunkPlan>)
        requires
            self.wf(),
        ensures
            r == self.replanned(rows),
            r matches Ok(plan) ==> plan.wf(),
    {
        if rows == 0 {
            return Err(TiffError::UsageError(UsageError::InvalidRowsPerStrip));
        }
        let chunks_per_col = ceil_div_exec(self.height, rows as u64);
        proof {
            lemma_ceil_div(self.width as nat, self.chunk_width as nat);
            lemma_ceil_div(self.height as nat, rows as nat);
            assert(1 <= self.chunks_per_row * chunks_per_col <= 0xffff_ffff * 0xffff_ffff)
                by (nonlinear_arith)
                requires
                    1 <= self.chunks_per_row <= 0xffff_ffff,
                    1 <= chunks_per_col <= 0xffff_ffff,
            ;
        }
        let plan = ChunkPlan {
            chunk_type: self.chunk_type,
            width: self.width,
            height: self.height,
            chunk_width: self.chunk_width,
            chunk_height: rows as u64,
            chunks_per_row: self.chunks_per_row,
            chunks_per_col,
            chunk_count: self.chunks_per_row * chunks_per_col,
            sample_unit_size: self.sample_unit_size,
        };
        if plan.exceeds_count() {
            return Err(TiffError::IntSizeError);
        }
        Ok(plan)
    }

    /// Returns the width and the height of chunk number `i`.
    pub fn dimensions_of(&self, i: u64) -> (r: (u64, u64))
        requires
            self.wf(),
        ensures
            r.0 == self.chunk_dimensions(i as nat).0,
            r.1 == self.chunk_dimensions(i as nat).1,
    {
        if i >= self.chunk_count {
            return (0, 0);
        }
        match self.chunk_type {
            ChunkType::Strip => {
                let height: u64 = self.height as u64;
                proof {
                    self.lemma_strip_start(i as nat);
                }
                let start_row: u64 = i * self.chunk_height;
                let rows: u64 = if self.chunk_height >= height - start_row {
                    height - start_row
                } else {
                    self.chunk_height
                };
                proof {
                    assert((i + 1) * self.chunk_height == i * self.chunk_height
                        + self.chunk_height) by (nonlinear_arith);
                }
                (self.width as u64, rows)
            },
            ChunkType::Tile => (self.chunk_width, self.chunk_height),
        }
    }

    /// Every strip of the plan starts within the image.
    pub proof fn lemma_strip_start(self, i: nat)
        requires
            self.wf(),
            self.chunk_type is Strip,
            i < self.chunk_count,
        ensures
            i * self.chunk_height < self.height,
    {
        lemma_ceil_div(self.width as nat, self.chunk_width as nat);
        lemma_ceil_div(self.height as nat, self.chunk_height as nat);
        let per_col = self.chunks_per_col as nat;
        let rows = self.chunk_height as nat;
        assert(self.chunks_per_row == 1) by {
            assert(self.width as nat / self.width as nat == 1 && self.width as nat
                % self.width as nat == 0) by (nonlinear_arith)
                requires
                    self.width >= 1,
            ;
        }
        assert(self.chunk_count == per_col) by (nonlinear_arith)
            requires
                self.chunk_count == self.chunks_per_row * self.chunks_per_col,
                self.chunks_per_row == 1,
                per_col == self.chunks_per_col,
        ;
        assert(i * rows <= (per_col - 1) * rows) by (nonlinear_arith)
            requires
                i <= per_col - 1,
                rows >= 0,
        ;
    }

    /// No chunk of the plan holds more samples than the largest, and every chunk of the
    /// image holds at least one.
    pub proof fn lemma_chunk_samples(self, i: nat)
        requires
            self.wf(),
        ensures
            self.chunk_samples(i) <= self.max_chunk_samples(),
            i < self.chunk_count ==> self.chunk_samples(i) >= 1,
            i >= self.chunk_count ==> self.chunk_samples(i) == 0,
    {
        let unit = self.sample_unit_size as nat;
        let (w, h) = self.chunk_dimensions(i);
        if i >= self.chunk_count {
            assert(0 * 0 * unit == 0) by (nonlinear_arith);
            assert(self.max_chunk_samples() >= 0);
        } else {
            match self.chunk_type {
                ChunkType::Strip => {
                    self.lemma_strip_start(i);
                    let rows = self.chunk_height as nat;
                    let cap = min_nat(rows, self.height as nat);
                    assert((i + 1) * rows == i * rows + rows) by (nonlinear_arith);
                    assert(1 <= h <= cap);
                    assert(w * h * unit <= w * cap * unit && w * h * unit >= 1)
                        by (nonlinear_arith)
                        requires
                            1 <= h <= cap,
                            w >= 1,
                            unit >= 1,
                    ;
                },
                ChunkType::Tile => {
                    assert(w * h * unit >= 1) by (nonlinear_arith)
                        requires
                            h >= 1,
                            w >= 1,
                            unit >= 1,
                    ;
                },
            }
        }
    }

    /// The strips before strip number `i` hold the samples of the rows above it.
    pub proof fn lemma_strips_rows(self, i: nat)
        requires
            self.wf(),
            self.chunk_type is Strip,
            i <= self.chunk_count,
        ensures
            self.samples_before(i) == self.width as nat * min_nat(
                self.height as nat,
                i * self.chunk_height as nat,
            ) * self.sample_unit_size as nat,
        decreases i,
    {
        let w = self.width as nat;
        let h = self.height as nat;
        let rows = self.chunk_height as nat;
        let unit = self.sample_unit_size as nat;
        if i == 0 {
            assert(0 * rows == 0) by (nonlinear_arith);
            assert(w * 0 * unit == 0) by (nonlinear_arith);
        } else {
            let j = (i - 1) as nat;
            self.lemma_strips_rows(j);
            self.lemma_strip_start(j);
            let above = min_nat(h, j * rows);
            let below = min_nat(h, i * rows);
            assert(i * rows == j * rows + rows) by (nonlinear_arith)
                requires
                    i == j + 1,
            ;
            assert(above <= below);
            assert(w * above * unit + w * ((below - above) as nat) * unit == w * below * unit)
                by (nonlinear_arith)
                requires
                    above <= below,
            ;
        }
    }

    /// The strips of an image hold its samples, each once: as many samples as the image
    /// has pixels times the samples of a pixel.
    pub proof fn lemma_strips_cover_image(self)
        requires
            self.wf(),
            self.chunk_type is Strip,
        ensures
            self.samples_before(self.chunk_count as nat) == self.width as nat * self.height as nat
                * self.sample_unit_size as nat,
    {
        self.lemma_strips_rows(self.chunk_count as nat);
        lemma_ceil_div(self.width as nat, self.chunk_width as nat);
        lemma_ceil_div(self.height as nat, self.chunk_height as nat);
        let per_col = self.chunks_per_col as nat;
        assert(self.chunks_per_row == 1) by {
            assert(self.width as nat / self.width as nat == 1 && self.width as nat
                % self.width as nat == 0) by (nonlinear_arith)
                requires
                    self.width >= 1,
            ;
        }
        assert(self.chunk_count == per_col) by (nonlinear_arith)
            requires
                self.chunk_count == self.chunks_per_row * self.chunks_per_col,
                self.chunks_per_row == 1,
                per_col == self.chunks_per_col,
        ;
    }

    /// The tiles before tile number `i` hold `i` full tiles of samples.
    pub proof fn lemma_tiles_samples(self, i: nat)
        requires
            self.wf(),
            self.chunk_type is Tile,
            i <= self.chunk_count,
        ensures
            self.samples_before(i) == i * (self.chunk_width as nat * self.chunk_height as nat
                * self.sample_unit_size as nat),
        decreases i,
    {
        let tile = self.chunk_width as nat * self.chunk_height as nat
            * self.sample_unit_size as nat;
        if i == 0 {
            assert(0 * tile == 0) by (nonlinear_arith);
        } else {
            let j = (i - 1) as nat;
            self.lemma_tiles_samples(j);
            assert(j * tile + tile == i * tile) by (nonlinear_arith)
                requires
                    i == j + 1,
            ;
        }
    }

    /// Returns the number of samples of chunk number `i`.
    pub fn samples_of(&self, i: u64) -> (r: u64)
        requires
            self.wf(),
        ensures
            r == self.chunk_samples(i as nat),
    {
        let dims = self.dimensions_of(i);
        proof {
            self.lemma_chunk_samples(i as nat);
            assert(dims.0 * dims.1 <= dims.0 * dims.1 * self.sample_unit_size) by (nonlinear_arith)
                requires
                    self.sample_unit_size >= 1,
            ;
        }
        dims.0 * dims.1 * self.sample_unit_size
    }

    /// Whether the plan is sound, as [`wf`](ChunkPlan::wf) says.
    pub fn is_wf(&self) -> (r: bool)
        ensures
            r == self.wf(),
    {
        if self.width == 0 || self.height == 0 || self.chunk_width == 0 || self.chunk_height == 0
            || self.sample_unit_size == 0 {
            return false;
        }
        match self.chunk_type {
            ChunkType::Strip => {
                if self.chunk_width != self.width as u64 {
                    return false;
                }
            },
            ChunkType::Tile => {},
        }
        if self.chunks_per_row != ceil_div_exec(self.width, self.chunk_width)
            || self.chunks_per_col != ceil_div_exec(self.height, self.chunk_height) {
            return false;
        }
        proof {
            lemma_ceil_div(self.width as nat, self.chunk_width as nat);
            lemma_ceil_div(self.height as nat, self.chunk_height as nat);
            assert(1 <= self.chunks_per_row * self.chunks_per_col <= 0xffff_ffff * 0xffff_ffff)
                by (nonlinear_arith)
                requires
                    1 <= self.chunks_per_row <= 0xffff_ffff,
                    1 <= self.chunks_per_col <= 0xffff_ffff,
            ;
        }
        self.chunk_count == self.chunks_per_row * self.chunks_per_col && !self.exceeds_count()
    }

    /// Whether a chunk of this plan can hold more samples than can be counted.
    fn exceeds_count(&self) -> (r: bool)
        ensures
            r == (self.max_chunk_samples() > u64::MAX),
    {
        match self.chunk_type {
            ChunkType::Strip => {
                let rows: u64 = if self.chunk_height <= self.height as u64 {
                    self.chunk_height
                } else {
                    self.height as u64
                };
                product_overflows(self.width as u64, rows, self.sample_unit_size)
            },
            ChunkType::Tile => product_overflows(
                self.chunk_width,
                self.chunk_height,
                self.sample_unit_size,
            ),
        }
    }
}

} // verus!
