//! The values that can be stored in a file: numbers, fractions, and sequences of them.

use vstd::prelude::*;
use crate::endian::le_bytes;
use crate::endian::lemma_le_bytes_len;
use crate::endian::push_le;
use crate::error::TiffResult;
use crate::tags::Type;
use crate::encoder::writer::TiffWriter;

verus! {

/// A number that is stored in a fixed number of bytes: an element of the image data or
/// of an array-valued tag.
pub trait TiffSample: Copy + Sized {
    /// The number of bytes of one stored value, between 1 and 8.
    const BYTE_LEN: u8;

    /// The field type under which values are stored.
    const FIELD_TYPE: Type;

    /// The stored form of `self`.
    spec fn value_bytes(self) -> Seq<u8>;

    /// The stored form has the announced length.
    proof fn lemma_value_bytes_len(self)
        ensures
            self.value_bytes().len() == Self::BYTE_LEN,
            1 <= Self::BYTE_LEN <= 8,
    ;

    /// Appends the stored form of `self` to `out`.
    fn push_bytes(self, out: &mut Vec<u8>)
        ensures
            final(out)@ == old(out)@ + self.value_bytes(),
    ;
}

impl TiffSample for u8 {
    const BYTE_LEN: u8 = 1;

    const FIELD_TYPE: Type = Type::BYTE;

    open spec fn value_bytes(self) -> Seq<u8> {
        le_bytes(self as nat, 1)
    }

    proof fn lemma_value_bytes_len(self) {
        lemma_le_bytes_len(self as nat, 1);
    }

    fn push_bytes(self, out: &mut Vec<u8>) {
        push_le(out, self as u64, 1);
    }
}

impl TiffSample for u16 {
    const BYTE_LEN: u8 = 2;

    const FIELD_TYPE: Type = Type::SHORT;

    open spec fn value_bytes(self) -> Seq<u8> {
        le_bytes(self as nat, 2)
    }

    proof fn lemma_value_bytes_len(self) {
        lemma_le_bytes_len(self as nat, 2);
    }

    fn push_bytes(self, out: &mut Vec<u8>) {
        push_le(out, self as u64, 2);
    }
}

impl TiffSample for u32 {
    const BYTE_LEN: u8 = 4;

    const FIELD_TYPE: Type = Type::LONG;

    open spec fn value_bytes(self) -> Seq<u8> {
        le_bytes(self as nat, 4)
    }

    proof fn lemma_value_bytes_len(self) {
        lemma_le_bytes_len(self as nat, 4);
    }

    fn push_bytes(self, out: &mut Vec<u8>) {
        push_le(out, self as u64, 4);
    }
}

impl TiffSample for u64 {
    const BYTE_LEN: u8 = 8;

    const FIELD_TYPE: Type = Type::LONG8;

    open spec fn value_bytes(self) -> Seq<u8> {
        le_bytes(self as nat, 8)
    }

    proof fn lemma_value_bytes_len(self) {
        lemma_le_bytes_len(self as nat, 8);
    }

    fn push_bytes(self, out: &mut Vec<u8>) {
        push_le(out, self, 8);
    }
}

/// The stored form of a sequence of samples: the stored forms of its elements, in order.
pub open spec fn samples_bytes<T: TiffSample>(samples: Seq<T>) -> Seq<u8>
    decreases samples.len(),
{
    if samples.len() == 0 {
        Seq::empty()
    } else {
        samples_bytes(samples.drop_last()) + samples.last().value_bytes()
    }
}

/// A sequence of samples takes the bytes of one sample times its length.
pub proof fn lemma_samples_bytes_len<T: TiffSample>(samples: Seq<T>)
    ensures
        samples_bytes(samples).len() == samples.len() * T::BYTE_LEN,
    decreases samples.len(),
{
    if samples.len() > 0 {
        lemma_samples_bytes_len(samples.drop_last());
        samples.last().lemma_value_bytes_len();
        assert((samples.len() - 1) * T::BYTE_LEN + T::BYTE_LEN == samples.len() * T::BYTE_LEN)
            by (nonlinear_arith);
    }
}

/// A value that can be stored as the payload of a directory entry or as image data.
pub trait TiffValue {
    /// The number of bytes of one element.
    const BYTE_LEN: u8;

    /// The field type under which the value is stored.
    const FIELD_TYPE: Type;

    /// The number of elements of `self`.
    spec fn spec_count(&self) -> nat;

    /// The stored form of `self`.
    spec fn spec_data(&self) -> Seq<u8>;

    /// The stored form takes the bytes of one element times the number of elements.
    proof fn lemma_data_len(&self)
        ensures
            self.spec_data().len() == self.spec_count() * Self::BYTE_LEN,
    ;

    /// Returns the number of elements of `self`.
    fn count(&self) -> (r: usize)
        ensures
            r == self.spec_count(),
    ;

    /// Returns the stored form of `self`.
    fn data(&self) -> (r: Vec<u8>)
        ensures
            r@ == self.spec_data(),
    ;

    /// Writes the stored form of `self` through the active codec of `writer`.
    fn write(&self, writer: &mut TiffWriter) -> (r: TiffResult<()>)
        ensures
            old(writer)@.written(self.spec_data(), final(writer)@, r),
    {
        let data = self.data();
        writer.write_bytes(data.as_slice())
    }
}

impl<T: TiffSample> TiffValue for [T] {
    const BYTE_LEN: u8 = T::BYTE_LEN;

    const FIELD_TYPE: Type = T::FIELD_TYPE;

    open spec fn spec_count(&self) -> nat {
        self@.len()
    }

    open spec fn spec_data(&self) -> Seq<u8> {
        samples_bytes(self@)
    }

    proof fn lemma_data_len(&self) {
        lemma_samples_bytes_len(self@);
    }

    fn count(&self) -> (r: usize) {
        self.len()
    }

    fn data(&self) -> (r: Vec<u8>) {
        let mut out: Vec<u8> = Vec::new();
        let mut i: usize = 0;
        while i < self.len()
            invariant
                i <= self.len(),
                out@ == samples_bytes(self@.subrange(0, i as int)),
            decreases self.len() - i,
        {
            proof {
                let next = self@.subrange(0, i + 1);
                assert(next.drop_last() =~= self@.subrange(0, i as int));
                assert(next.last() == self@[i as int]);
            }
            self[i].push_bytes(&mut out);
            i += 1;
        }
        proof {
            assert(self@.subrange(0, self@.len() as int) =~= self@);
        }
        out
    }
}

impl TiffValue for u8 {
    const BYTE_LEN: u8 = 1;

    const FIELD_TYPE: Type = Type::BYTE;

    open spec fn spec_count(&self) -> nat {
        1
    }

    open spec fn spec_data(&self) -> Seq<u8> {
        self.value_bytes()
    }

    proof fn lemma_data_len(&self) {
        lemma_le_bytes_len(*self as nat, 1);
    }

    fn count(&self) -> (r: usize) {
        1
    }

    fn data(&self) -> (r: Vec<u8>) {
        let mut out: Vec<u8> = Vec::new();
        self.push_bytes(&mut out);
        proof {
            assert(Seq::<u8>::empty() + self.value_bytes() =~= self.value_bytes());
        }
        out
    }
}

impl TiffValue for u16 {
    const BYTE_LEN: u8 = 2;

    const FIELD_TYPE: Type = Type::SHORT;

    open spec fn spec_count(&self) -> nat {
        1
    }

    open spec fn spec_data(&self) -> Seq<u8> {
        self.value_bytes()
    }

    proof fn lemma_data_len(&self) {
        lemma_le_bytes_len(*self as nat, 2);
    }

    fn count(&self) -> (r: usize) {
        1
    }

    fn data(&self) -> (r: Vec<u8>) {
        let mut out: Vec<u8> = Vec::new();
        self.push_bytes(&mut out);
        proof {
            assert(Seq::<u8>::empty() + self.value_bytes() =~= self.value_bytes());
        }
        out
    }
}

impl TiffValue for u32 {
    const BYTE_LEN: u8 = 4;

    const FIELD_TYPE: Type = Type::LONG;

    open spec fn spec_count(&self) -> nat {
        1
    }

    open spec fn spec_data(&self) -> Seq<u8> {
        self.value_bytes()
    }

    proof fn lemma_data_len(&self) {
        lemma_le_bytes_len(*self as nat, 4);
    }

    fn count(&self) -> (r: usize) {
        1
    }

    fn data(&self) -> (r: Vec<u8>) {
        let mut out: Vec<u8> = Vec::new();
        self.push_bytes(&mut out);
        proof {
            assert(Seq::<u8>::empty() + self.value_bytes() =~= self.value_bytes());
        }
        out
    }
}

impl TiffValue for u64 {
    const BYTE_LEN: u8 = 8;

    const FIELD_TYPE: Type = Type::LONG8;

    open spec fn spec_count(&self) -> nat {
        1
    }

    open spec fn spec_data(&self) -> Seq<u8> {
        self.value_bytes()
    }

    proof fn lemma_data_len(&self) {
        lemma_le_bytes_len(*self as nat, 8);
    }

    fn count(&self) -> (r: usize) {
        1
    }

    fn data(&self) -> (r: Vec<u8>) {
        let mut out: Vec<u8> = Vec::new();
        self.push_bytes(&mut out);
        proof {
            assert(Seq::<u8>::empty() + self.value_bytes() =~= self.value_bytes());
        }
        out
    }
}

/// The widths and field types of the numbers and of arrays of them.
pub proof fn lemma_sample_constants()
    ensures
        <u8 as TiffSample>::BYTE_LEN == 1 && <u8 as TiffSample>::FIELD_TYPE == Type::BYTE,
        <u16 as TiffSample>::BYTE_LEN == 2 && <u16 as TiffSample>::FIELD_TYPE == Type::SHORT,
        <u32 as TiffSample>::BYTE_LEN == 4 && <u32 as TiffSample>::FIELD_TYPE == Type::LONG,
        <u64 as TiffSample>::BYTE_LEN == 8 && <u64 as TiffSample>::FIELD_TYPE == Type::LONG8,
        <u8 as TiffValue>::BYTE_LEN == 1 && <u8 as TiffValue>::FIELD_TYPE == Type::BYTE,
        <u16 as TiffValue>::BYTE_LEN == 2 && <u16 as TiffValue>::FIELD_TYPE == Type::SHORT,
        <u32 as TiffValue>::BYTE_LEN == 4 && <u32 as TiffValue>::FIELD_TYPE == Type::LONG,
        <u64 as TiffValue>::BYTE_LEN == 8 && <u64 as TiffValue>::FIELD_TYPE == Type::LONG8,
        <Rational as TiffValue>::BYTE_LEN == 8 && <Rational as TiffValue>::FIELD_TYPE
            == Type::RATIONAL,
{
}

/// An array of samples is stored under the width and the field type of its elements.
pub proof fn lemma_array_constants<T: TiffSample>()
    ensures
        <[T] as TiffValue>::BYTE_LEN == T::BYTE_LEN,
        <[T] as TiffValue>::FIELD_TYPE == T::FIELD_TYPE,
{
}

/// A reference is stored as what it refers to.
pub proof fn lemma_reference_constants<'a, T: TiffValue + ?Sized>()
    ensures
        <&'a T as TiffValue>::BYTE_LEN == T::BYTE_LEN,
        <&'a T as TiffValue>::FIELD_TYPE == T::FIELD_TYPE,
{
}

/// A fraction of two unsigned 32-bit numbers.
#[derive(Clone, Copy, Debug, PartialEq, Eq, Structural)]
pub struct Rational {
    /// The numerator.
    pub n: u32,
    /// The denominator.
    pub d: u32,
}

impl TiffValue for Rational {
    const BYTE_LEN: u8 = 8;

    const FIELD_TYPE: Type = Type::RATIONAL;

    open spec fn spec_count(&self) -> nat {
        1
    }

    open spec fn spec_data(&self) -> Seq<u8> {
        le_bytes(self.n as nat, 4) + le_bytes(self.d as nat, 4)
    }

    proof fn lemma_data_len(&self) {
        lemma_le_bytes_len(self.n as nat, 4);
        lemma_le_bytes_len(self.d as nat, 4);
    }

    fn count(&self) -> (r: usize) {
        1
    }

    fn data(&self) -> (r: Vec<u8>) {
        let mut out: Vec<u8> = Vec::new();
        push_le(&mut out, self.n as u64, 4);
        push_le(&mut out, self.d as u64, 4);
        proof {
            assert(out@ =~= self.spec_data());
        }
        out
    }
}

impl<'a, T: TiffValue + ?Sized> TiffValue for &'a T {
    const BYTE_LEN: u8 = T::BYTE_LEN;

    const FIELD_TYPE: Type = T::FIELD_TYPE;

    open spec fn spec_count(&self) -> nat {
        (**self).spec_count()
    }

    open spec fn spec_data(&self) -> Seq<u8> {
        (**self).spec_data()
    }

    proof fn lemma_data_len(&self) {
        (**self).lemma_data_len();
    }

    fn count(&self) -> (r: usize) {
        (**self).count()
    }

    fn data(&self) -> (r: Vec<u8>) {
        (**self).data()
    }
}

} // verus!
