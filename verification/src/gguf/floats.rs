//! Tensors of floating-point numbers, as bit patterns.

use vstd::prelude::*;

use crate::gguf::bytes::{
    law_word_of_four, law_word_of_two, le_u16_at, le_u32_at, read_u16, read_u32,
};
use crate::gguf::tensor::ScaledInt;

verus! {

/// Floating-point numbers.
pub enum FloatBits {
    /// The bit patterns of 32-bit floats.
    Single(Vec<u32>),
    /// The bit patterns of 16-bit floats.
    Half(Vec<u16>),
    /// Products of a scale and a small integer.
    Scaled(Vec<ScaledInt>),
}

/// What [`FloatBits`] stand for.
#[verifier::ext_equal]
pub enum FloatsView {
    Single(Seq<u32>),
    Half(Seq<u16>),
    Scaled(Seq<ScaledInt>),
}

impl FloatsView {
    /// How many numbers there are.
    pub open spec fn count(self) -> nat {
        match self {
            FloatsView::Single(s) => s.len(),
            FloatsView::Half(s) => s.len(),
            FloatsView::Scaled(s) => s.len(),
        }
    }
}

impl View for FloatBits {
    type V = FloatsView;

    open spec fn view(&self) -> FloatsView {
        match self {
            FloatBits::Single(v) => FloatsView::Single(v@),
            FloatBits::Half(v) => FloatsView::Half(v@),
            FloatBits::Scaled(v) => FloatsView::Scaled(v@),
        }
    }
}

/// A tensor of floating-point numbers; the last dimension varies fastest.
pub struct FloatTensor {
    pub shape: Vec<usize>,
    pub values: FloatBits,
}

/// What a [`FloatTensor`] stands for.
#[verifier::ext_equal]
pub struct FloatTensorView {
    pub shape: Seq<usize>,
    pub values: FloatsView,
}

impl View for FloatTensor {
    type V = FloatTensorView;

    open spec fn view(&self) -> FloatTensorView {
        FloatTensorView { shape: self.shape@, values: self.values@ }
    }
}

/// The 32-bit words in `data`, the lowest byte of each first.
pub open spec fn singles(data: Seq<u8>) -> Seq<u32> {
    Seq::new(data.len() / 4, |i: int| le_u32_at(data, 4 * i))
}

/// The 16-bit words in `data`, the lowest byte of each first.
pub open spec fn halves(data: Seq<u8>) -> Seq<u16> {
    Seq::new(data.len() / 2, |i: int| le_u16_at(data, 2 * i))
}

/// The words of four bytes and of two bytes come in the order of the data, each with its
/// lowest byte first; bytes that are left over at the end are no word.
pub proof fn law_words_in_order(data: Seq<u8>)
    ensures
        singles(data).len() == data.len() / 4,
        forall|i: int|
            0 <= i < data.len() / 4 ==> #[trigger] singles(data)[i] == data[4 * i] + 0x100 * data[4
                * i + 1] + 0x1_0000 * data[4 * i + 2] + 0x100_0000 * data[4 * i + 3],
        halves(data).len() == data.len() / 2,
        forall|i: int|
            0 <= i < data.len() / 2 ==> #[trigger] halves(data)[i] == data[2 * i] + 0x100 * data[2
                * i + 1],
{
    assert forall|i: int| 0 <= i < data.len() / 4 implies #[trigger] singles(data)[i] == data[4 * i]
        + 0x100 * data[4 * i + 1] + 0x1_0000 * data[4 * i + 2] + 0x100_0000 * data[4 * i + 3] by {
        law_word_of_four(data, 4 * i);
    }
    assert forall|i: int| 0 <= i < data.len() / 2 implies #[trigger] halves(data)[i] == data[2 * i]
        + 0x100 * data[2 * i + 1] by {
        law_word_of_two(data, 2 * i);
    }
}

/// Decodes 32-bit words; up to three bytes at the end are left over.
pub fn decode_singles(data: &[u8]) -> (r: Vec<u32>)
    ensures
        r@ == singles(data@),
        r@.len() == data@.len() / 4,
        forall|i: int|
            0 <= i < r@.len() ==> #[trigger] r@[i] == data@[4 * i] + 0x100 * data@[4 * i + 1]
                + 0x1_0000 * data@[4 * i + 2] + 0x100_0000 * data@[4 * i + 3],
{
    let n: usize = data.len() / 4;
    let mut out: Vec<u32> = Vec::with_capacity(n);
    let mut i: usize = 0;
    while i < n
        invariant
            i <= n,
            n == data.len() / 4,
            out@ == singles(data@).take(i as int),
            forall|j: int|
                0 <= j < i ==> #[trigger] out@[j] == data@[4 * j] + 0x100 * data@[4 * j + 1]
                    + 0x1_0000 * data@[4 * j + 2] + 0x100_0000 * data@[4 * j + 3],
        decreases n - i,
    {
        out.push(read_u32(data, 4 * i));
        i = i + 1;
        assert(out@ =~= singles(data@).take(i as int));
    }
    assert(out@ =~= singles(data@));
    out
}

/// Decodes 16-bit words; an odd byte at the end is left over.
pub fn decode_halves(data: &[u8]) -> (r: Vec<u16>)
    ensures
        r@ == halves(data@),
        r@.len() == data@.len() / 2,
        forall|i: int|
            0 <= i < r@.len() ==> #[trigger] r@[i] == data@[2 * i] + 0x100 * data@[2 * i + 1],
{
    let n: usize = data.len() / 2;
    let mut out: Vec<u16> = Vec::with_capacity(n);
    let mut i: usize = 0;
    while i < n
        invariant
            i <= n,
            n == data.len() / 2,
            out@ == halves(data@).take(i as int),
            forall|j: int|
                0 <= j < i ==> #[trigger] out@[j] == data@[2 * j] + 0x100 * data@[2 * j + 1],
        decreases n - i,
    {
        out.push(read_u16(data, 2 * i));
        i = i + 1;
        assert(out@ =~= halves(data@).take(i as int));
    }
    assert(out@ =~= halves(data@));
    out
}

} // verus!
