//! Storing image data as it is.

use vstd::prelude::*;
use crate::error::TiffError;
use crate::tags::CompressionMethod;
use crate::encoder::compression::Compression;
use crate::encoder::compression::CompressionAlgorithm;
use crate::encoder::compression::Compressor;
use crate::encoder::compression::CompressorModel;

verus! {

/// The scheme that stores every chunk as its raw bytes.
#[derive(Debug, Clone, Copy)]
pub struct Uncompressed;

impl Default for Uncompressed {
    fn default() -> (r: Uncompressed)
        ensures
            r.model() == CompressorModel::Uncompressed,
    {
        Uncompressed
    }
}

impl CompressionAlgorithm for Uncompressed {
    open spec fn model(&self) -> CompressorModel {
        CompressorModel::Uncompressed
    }

    fn write_to(&mut self, writer: &mut Vec<u8>, bytes: &[u8]) -> (r: Result<u64, TiffError>) {
        let ghost before = writer@;
        let mut i: usize = 0;
        while i < bytes.len()
            invariant
                i <= bytes.len(),
                writer@ == before + bytes@.subrange(0, i as int),
            decreases bytes.len() - i,
        {
            writer.push(bytes[i]);
            i += 1;
        }
        proof {
            assert(bytes@.subrange(0, bytes@.len() as int) =~= bytes@);
        }
        Ok(bytes.len() as u64)
    }
}

impl Compression for Uncompressed {
    const COMPRESSION_METHOD: CompressionMethod = CompressionMethod::NoCompression;

    fn get_algorithm(&self) -> (r: Compressor) {
        Compressor::Uncompressed(*self)
    }
}

/// Uncompressed data is announced as such.
pub proof fn lemma_uncompressed_method()
    ensures
        <Uncompressed as Compression>::COMPRESSION_METHOD == CompressionMethod::NoCompression,
{
}

} // verus!
