//! Quantized weight tensors (Q4_0 and Q8_0).
//!
//! A [`Q4Tensor`] describes a matrix whose elements are stored in quantized
//! blocks, laid out exactly as in a GGUF file, and holds the image of these
//! blocks that goes into a GPU storage buffer. What is read back from such a
//! buffer is handed to [`Q4Tensor::read_bytes`] and [`Q4Tensor::dequantize`].

use vstd::prelude::*;
use vstd::slice::{slice_subrange, slice_to_vec};

use crate::gguf::block_laws::law_elements_of_bytes;
use crate::gguf::bytes::read_u16;
use crate::gguf::reader::GgmlDtype;

verus! {

/// Elements in a Q4_0 block.
pub const Q4_BLOCK_SIZE: usize = 32;

/// Bytes in a Q4_0 block: the scale, then two elements in each byte.
pub const Q4_BLOCK_BYTES: usize = 18;

/// Elements in a Q8_0 block.
pub const Q8_BLOCK_SIZE: usize = 32;

/// Bytes in a Q8_0 block: the scale, then one element in each byte.
pub const Q8_BLOCK_BYTES: usize = 34;

/// Whether elements of this kind are stored in quantized blocks.
pub open spec fn is_quantized(dtype: GgmlDtype) -> bool {
    dtype == GgmlDtype::Q4_0 || dtype == GgmlDtype::Q8_0
}

/// The elements that one block holds, whatever its kind.
pub open spec fn block_size() -> nat {
    32
}

/// The bytes that one block takes.
pub open spec fn block_bytes_of(dtype: GgmlDtype) -> nat {
    if dtype == GgmlDtype::Q4_0 {
        18
    } else {
        34
    }
}

/// The place of block number `block`.
pub open spec fn block_start(dtype: GgmlDtype, block: int) -> int {
    if dtype == GgmlDtype::Q4_0 {
        block * 18
    } else {
        block * 34
    }
}

/// The bytes of the blocks that `count` elements fill.
pub open spec fn quantized_len(dtype: GgmlDtype, count: nat) -> nat {
    block_start(dtype, (count / block_size()) as int) as nat
}

/// A number `scale * quant`, where `scale` is the bit pattern of a 16-bit float.
#[derive(Clone, Copy, Debug, PartialEq, Eq, Structural)]
pub struct ScaledInt {
    pub scale: u16,
    pub quant: i8,
}

/// The signed number whose two's complement is `byte`.
pub open spec fn signed(byte: u8) -> i8 {
    if byte < 128 {
        byte as i8
    } else {
        (byte - 256) as i8
    }
}

/// The element number `i` of the blocks in `raw`.
///
/// The first half of a Q4_0 block lies in the low halves of its bytes, the second
/// half in the high halves; each is stored with 8 added to it.
pub open spec fn element(raw: Seq<u8>, dtype: GgmlDtype, i: int) -> ScaledInt {
    let offset = block_start(dtype, i / block_size() as int);
    let j = i % block_size() as int;
    let scale = crate::gguf::bytes::le_u16_at(raw, offset);
    let quant = if dtype == GgmlDtype::Q4_0 {
        if j < 16 {
            (raw[offset + 2 + j] % 16 - 8) as i8
        } else {
            (raw[offset + 2 + j - 16] / 16 - 8) as i8
        }
    } else {
        signed(raw[offset + 2 + j])
    };
    ScaledInt { scale, quant }
}

/// The first `count` elements of the blocks in `raw`.
pub open spec fn elements(raw: Seq<u8>, dtype: GgmlDtype, count: nat) -> Seq<ScaledInt> {
    Seq::new(count, |i: int| element(raw, dtype, i))
}

/// `raw` with zeros behind it up to a whole number of 32-bit words.
pub open spec fn padded(raw: Seq<u8>) -> Seq<u8> {
    raw + Seq::new(((4 - raw.len() % 4) % 4) as nat, |i: int| 0u8)
}

/// Why bytes are no quantized matrix of the wanted shape.
#[derive(Clone, Copy, Debug, PartialEq, Eq, Structural)]
pub enum QuantError {
    /// Elements of this kind are not quantized.
    UnsupportedDtype { dtype: GgmlDtype },
    /// The elements do not fill whole blocks.
    PartialBlock { dtype: GgmlDtype, num_elements: usize },
    /// The blocks take another number of bytes.
    ByteCount { dtype: GgmlDtype, expected: usize, num_blocks: usize, got: usize },
}

/// What keeps `len` bytes from being a quantized matrix of `rows` times `cols`
/// elements, if anything does.
pub open spec fn quant_failure(len: nat, rows: nat, cols: nat, dtype: GgmlDtype) -> Option<
    QuantError,
> {
    let count = rows * cols;
    if !is_quantized(dtype) {
        Some(QuantError::UnsupportedDtype { dtype })
    } else if count % block_size() != 0 {
        Some(QuantError::PartialBlock { dtype, num_elements: count as usize })
    } else if len != quantized_len(dtype, count) {
        Some(
            QuantError::ByteCount {
                dtype,
                expected: quantized_len(dtype, count) as usize,
                num_blocks: (count / block_size()) as usize,
                got: len as usize,
            },
        )
    } else {
        None
    }
}

/// Whether the element count and the byte count of a matrix are machine numbers.
pub open spec fn quant_fits(rows: nat, cols: nat, dtype: GgmlDtype) -> bool {
    &&& rows * cols <= usize::MAX
    &&& is_quantized(dtype) && (rows * cols) % block_size() == 0 ==> quantized_len(
        dtype,
        rows * cols,
    ) <= usize::MAX
}

/// What a [`Q4Tensor`] stands for: a matrix and the blocks that hold it.
#[verifier::ext_equal]
pub struct QuantView {
    pub raw: Seq<u8>,
    pub rows: nat,
    pub cols: nat,
    pub dtype: GgmlDtype,
}

impl QuantView {
    /// The blocks hold exactly the elements of the matrix.
    pub open spec fn valid(self) -> bool {
        quant_failure(self.raw.len(), self.rows, self.cols, self.dtype) is None
    }

    /// The elements of the matrix, row after row.
    pub open spec fn values(self) -> Seq<ScaledInt> {
        elements(self.raw, self.dtype, self.rows * self.cols)
    }
}

/// Whether the rows of two matrices can be stacked into one matrix.
pub open spec fn stackable(a: QuantView, b: QuantView) -> bool {
    &&& a.dtype == b.dtype
    &&& a.cols == b.cols
    &&& a.rows + b.rows <= usize::MAX
    &&& quant_fits(a.rows + b.rows, a.cols, a.dtype)
}

/// The matrix with the rows of `a` and, below them, those of `b`.
pub open spec fn stack(a: QuantView, b: QuantView) -> QuantView {
    QuantView { raw: a.raw + b.raw, rows: a.rows + b.rows, cols: a.cols, dtype: a.dtype }
}

/// The blocks of stacked matrices are those of a matrix.
pub proof fn lemma_stack_valid(a: QuantView, b: QuantView)
    requires
        a.valid(),
        b.valid(),
        a.dtype == b.dtype,
        a.cols == b.cols,
    ensures
        stack(a, b).valid(),
        (a.rows + b.rows) * a.cols == a.rows * a.cols + b.rows * b.cols,
{
    assert((a.rows + b.rows) * a.cols == a.rows * a.cols + b.rows * a.cols) by (nonlinear_arith);
}

/// Whether the element count and the byte count of a matrix are machine numbers.
pub fn matrix_fits(rows: usize, cols: usize, dtype: GgmlDtype) -> (r: bool)
    ensures
        r == quant_fits(rows as nat, cols as nat, dtype),
{
    match rows.checked_mul(cols) {
        None => false,
        Some(count) => match dtype {
            GgmlDtype::Q4_0 => count % 32 != 0 || (count / 32).checked_mul(18).is_some(),
            GgmlDtype::Q8_0 => count % 32 != 0 || (count / 32).checked_mul(34).is_some(),
            _ => true,
        },
    }
}

/// Decodes one element of quantized blocks.
fn decode_element(raw: &[u8], dtype: GgmlDtype, i: usize, count: usize) -> (r: ScaledInt)
    requires
        is_quantized(dtype),
        i < count,
        count as nat % block_size() == 0,
        quantized_len(dtype, count as nat) <= raw@.len(),
    ensures
        r == element(raw@, dtype, i as int),
{
    let block: usize = i / 32;
    let j: usize = i % 32;
    proof {
        assert(block + 1 <= count / 32);
    }
    match dtype {
        GgmlDtype::Q4_0 => {
            let offset: usize = block * Q4_BLOCK_BYTES;
            let scale: u16 = read_u16(raw, offset);
            let quant: i8 = if j < 16 {
                (raw[offset + 2 + j] % 16) as i8 - 8
            } else {
                (raw[offset + 2 + (j - 16)] / 16) as i8 - 8
            };
            ScaledInt { scale, quant }
        },
        _ => {
            assert(34 * (block + 1) <= raw.len());
            let offset: usize = block * Q8_BLOCK_BYTES;
            let scale: u16 = read_u16(raw, offset);
            let byte: u8 = raw[offset + 2 + j];
            let quant: i8 = if byte < 128 {
                byte as i8
            } else {
                (byte as i16 - 256) as i8
            };
            ScaledInt { scale, quant }
        },
    }
}

/// Decodes the first `count` elements of quantized blocks.
pub fn decode_elements(raw: &[u8], dtype: GgmlDtype, count: usize) -> (r: Vec<ScaledInt>)
    requires
        is_quantized(dtype),
        count as nat % block_size() == 0,
        quantized_len(dtype, count as nat) <= raw@.len(),
    ensures
        r@ == elements(raw@, dtype, count as nat),
        r@.len() == count,
        forall|b: int, i: int|
            #![trigger raw@[18 * b + 2 + i]]
            dtype == GgmlDtype::Q4_0 && 0 <= b && 32 * b + 32 <= count && 0 <= i < 16 ==> {
                &&& r@[32 * b + i].quant == raw@[18 * b + 2 + i] as int % 16 - 8
                &&& r@[32 * b + 16 + i].quant == raw@[18 * b + 2 + i] as int / 16 - 8
                &&& r@[32 * b + i].scale == raw@[18 * b] + 0x100 * raw@[18 * b + 1]
                &&& r@[32 * b + 16 + i].scale == raw@[18 * b] + 0x100 * raw@[18 * b + 1]
            },
        forall|b: int, i: int|
            #![trigger raw@[34 * b + 2 + i]]
            dtype == GgmlDtype::Q8_0 && 0 <= b && 32 * b + 32 <= count && 0 <= i < 32 ==> {
                &&& raw@[34 * b + 2 + i] < 128 ==> r@[32 * b + i].quant == raw@[34 * b + 2 + i]
                &&& raw@[34 * b + 2 + i] >= 128 ==> r@[32 * b + i].quant == raw@[34 * b + 2 + i]
                    - 256
                &&& r@[32 * b + i].scale == raw@[34 * b] + 0x100 * raw@[34 * b + 1]
            },
{
    let mut out: Vec<ScaledInt> = Vec::with_capacity(count);
    let mut i: usize = 0;
    while i < count
        invariant
            i <= count,
            is_quantized(dtype),
            count as nat % block_size() == 0,
            quantized_len(dtype, count as nat) <= raw@.len(),
            out@ == elements(raw@, dtype, i as nat),
        decreases count - i,
    {
        out.push(decode_element(raw, dtype, i, count));
        i = i + 1;
        assert(out@ =~= elements(raw@, dtype, i as nat));
    }
    proof {
        law_elements_of_bytes(raw@, dtype, count as nat, out@);
    }
    out
}

/// A quantized weight matrix.
///
/// Shape is `[N, K]` = `[out_features, in_features]`.
pub struct Q4Tensor {
    image: Vec<u8>,
    shape: [usize; 2],
    num_blocks: usize,
    dtype: GgmlDtype,
}

impl View for Q4Tensor {
    type V = QuantView;

    closed spec fn view(&self) -> QuantView {
        QuantView {
            raw: self.image@.subrange(
                0,
                quantized_len(self.dtype, (self.shape[0] * self.shape[1]) as nat) as int,
            ),
            rows: self.shape[0] as nat,
            cols: self.shape[1] as nat,
            dtype: self.dtype,
        }
    }
}

impl Q4Tensor {
    #[verifier::type_invariant]
    spec fn inv(self) -> bool {
        let len = quantized_len(self.dtype, (self.shape[0] * self.shape[1]) as nat);
        &&& quant_fits(self.shape[0] as nat, self.shape[1] as nat, self.dtype)
        &&& len <= self.image@.len()
        &&& quant_failure(len, self.shape[0] as nat, self.shape[1] as nat, self.dtype) is None
        &&& self.num_blocks == (self.shape[0] * self.shape[1]) as nat / block_size()
        &&& self.image@ == padded(self.image@.subrange(0, len as int))
    }

    /// The matrix whose Q4_0 blocks are `raw_bytes`.
    ///
    /// There must be exactly `(N * K / 32) * 18` bytes, and `N * K` must be
    /// divisible by 32.
    pub fn from_q4_bytes(raw_bytes: &[u8], shape: [usize; 2]) -> (r: Result<Self, QuantError>)
        requires
            quant_fits(shape[0] as nat, shape[1] as nat, GgmlDtype::Q4_0),
        ensures
            match r {
                Ok(t) => t@ == (QuantView {
                    raw: raw_bytes@,
                    rows: shape[0] as nat,
                    cols: shape[1] as nat,
                    dtype: GgmlDtype::Q4_0,
                }) && t@.valid(),
                Err(e) => quant_failure(
                    raw_bytes@.len(),
                    shape[0] as nat,
                    shape[1] as nat,
                    GgmlDtype::Q4_0,
                ) == Some(e),
            },
    {
        Self::from_quantized_bytes(raw_bytes, shape, GgmlDtype::Q4_0)
    }

    /// The matrix whose Q8_0 blocks are `raw_bytes`.
    ///
    /// There must be exactly `(N * K / 32) * 34` bytes, and `N * K` must be
    /// divisible by 32.
    pub fn from_q8_bytes(raw_bytes: &[u8], shape: [usize; 2]) -> (r: Result<Self, QuantError>)
        requires
            quant_fits(shape[0] as nat, shape[1] as nat, GgmlDtype::Q8_0),
        ensures
            match r {
                Ok(t) => t@ == (QuantView {
                    raw: raw_bytes@,
                    rows: shape[0] as nat,
                    cols: shape[1] as nat,
                    dtype: GgmlDtype::Q8_0,
                }) && t@.valid(),
                Err(e) => quant_failure(
                    raw_bytes@.len(),
                    shape[0] as nat,
                    shape[1] as nat,
                    GgmlDtype::Q8_0,
                ) == Some(e),
            },
    {
        Self::from_quantized_bytes(raw_bytes, shape, GgmlDtype::Q8_0)
    }

    /// The matrix whose blocks, Q4_0 or Q8_0, are `raw_bytes`.
    pub fn from_quantized_bytes(raw_bytes: &[u8], shape: [usize; 2], dtype: GgmlDtype) -> (r:
        Result<Self, QuantError>)
        requires
            quant_fits(shape[0] as nat, shape[1] as nat, dtype),
        ensures
            match r {
                Ok(t) => t@ == (QuantView {
                    raw: raw_bytes@,
                    rows: shape[0] as nat,
                    cols: shape[1] as nat,
                    dtype,
                }) && t@.valid(),
                Err(e) => quant_failure(raw_bytes@.len(), shape[0] as nat, shape[1] as nat, dtype)
                    == Some(e),
            },
    {
        let num_elements: usize = shape[0] * shape[1];
        let (block_size, block_bytes): (usize, usize) = match dtype {
            GgmlDtype::Q4_0 => (Q4_BLOCK_SIZE, Q4_BLOCK_BYTES),
            GgmlDtype::Q8_0 => (Q8_BLOCK_SIZE, Q8_BLOCK_BYTES),
            _ => {
                return Err(QuantError::UnsupportedDtype { dtype });
            },
        };
        if num_elements % block_size != 0 {
            return Err(QuantError::PartialBlock { dtype, num_elements });
        }
        let num_blocks: usize = num_elements / block_size;
        let expected: usize = num_blocks * block_bytes;
        if raw_bytes.len() != expected {
            return Err(
                QuantError::ByteCount { dtype, expected, num_blocks, got: raw_bytes.len() },
            );
        }
        // The shader reads the buffer as an array of 32-bit words.
        let mut image: Vec<u8> = slice_to_vec(raw_bytes);
        while image.len() % 4 != 0
            invariant
                raw_bytes@.len() <= image@.len(),
                image@ == raw_bytes@ + Seq::new(
                    (image@.len() - raw_bytes@.len()) as nat,
                    |i: int| 0u8,
                ),
                (4 - image@.len() % 4) % 4 + image@.len() == (4 - raw_bytes@.len() % 4) % 4
                    + raw_bytes@.len(),
            decreases (4 - image@.len() % 4) % 4,
        {
            image.push(0);
            assert(image@ =~= raw_bytes@ + Seq::new(
                (image@.len() - raw_bytes@.len()) as nat,
                |i: int| 0u8,
            ));
        }
        proof {
            assert(image@.subrange(0, expected as int) =~= raw_bytes@);
            assert(image@ =~= padded(raw_bytes@));
        }
        Ok(Q4Tensor { image, shape, num_blocks, dtype })
    }

    /// Logical weight dimensions `[N, K]` = `[out_features, in_features]`.
    pub fn shape(&self) -> (r: [usize; 2])
        ensures
            r[0] as nat == self@.rows,
            r[1] as nat == self@.cols,
            self@.valid(),
    {
        proof {
            use_type_invariant(self);
        }
        self.shape
    }

    /// Number of quantized blocks in the tensor.
    pub fn num_blocks(&self) -> (r: usize)
        ensures
            r as nat == self@.rows * self@.cols / block_size(),
            r * block_size() == self@.rows * self@.cols,
    {
        proof {
            use_type_invariant(self);
        }
        self.num_blocks
    }

    /// The quantization dtype (Q4_0 or Q8_0).
    pub fn dtype(&self) -> (r: GgmlDtype)
        ensures
            r == self@.dtype,
            is_quantized(r),
    {
        proof {
            use_type_invariant(self);
        }
        self.dtype
    }

    /// Bytes per block for this tensor's quantization type.
    pub fn block_bytes(&self) -> (r: usize)
        ensures
            r as nat == block_bytes_of(self@.dtype),
    {
        proof {
            use_type_invariant(self);
        }
        match self.dtype {
            GgmlDtype::Q4_0 => Q4_BLOCK_BYTES,
            _ => Q8_BLOCK_BYTES,
        }
    }

    /// The bytes to place in a GPU storage buffer: the blocks, with zeros behind
    /// them up to a whole number of 32-bit words.
    pub fn image(&self) -> (r: &[u8])
        ensures
            r@ == padded(self@.raw),
            r@.len() % 4 == 0,
    {
        proof {
            use_type_invariant(self);
        }
        self.image.as_slice()
    }

    /// The blocks out of what the GPU storage buffer holds, which may be longer.
    pub fn read_bytes(&self, buffer: &[u8]) -> (r: Vec<u8>)
        requires
            quantized_len(self@.dtype, self@.rows * self@.cols) <= buffer@.len(),
        ensures
            r@ == buffer@.subrange(0, quantized_len(self@.dtype, self@.rows * self@.cols) as int),
            r@.len() == self@.rows * self@.cols / block_size() * block_bytes_of(self@.dtype),
            padded(self@.raw).is_prefix_of(buffer@) ==> r@ == self@.raw,
    {
        proof {
            use_type_invariant(self);
        }
        let expected: usize = self.num_blocks * self.block_bytes();
        proof {
            let image = padded(self@.raw);
            if image.is_prefix_of(buffer@) {
                assert(buffer@.subrange(0, expected as int) =~= image.subrange(0, expected as int));
                assert(image.subrange(0, expected as int) =~= self@.raw);
            }
        }
        slice_to_vec(slice_subrange(buffer, 0, expected))
    }

    /// The matrix with the rows of this one and, below them, those of `below`; both
    /// must have rows of the same length and the same kind of blocks.
    pub fn stacked(&self, below: &Q4Tensor) -> (r: Option<Q4Tensor>)
        ensures
            match r {
                Some(t) => stackable(self@, below@) && t@ == stack(self@, below@) && t@.valid(),
                None => !stackable(self@, below@),
            },
    {
        proof {
            use_type_invariant(self);
            use_type_invariant(below);
        }
        if self.dtype != below.dtype || self.shape[1] != below.shape[1] {
            return None;
        }
        proof {
            lemma_stack_valid(self@, below@);
        }
        let rows: usize = match self.shape[0].checked_add(below.shape[0]) {
            Some(n) => n,
            None => {
                return None;
            },
        };
        if !matrix_fits(rows, self.shape[1], self.dtype) {
            return None;
        }
        let mut raw: Vec<u8> = self.read_bytes(self.image());
        let more: Vec<u8> = below.read_bytes(below.image());
        raw.extend_from_slice(more.as_slice());
        assert(raw@ =~= self@.raw + below@.raw);
        match Self::from_quantized_bytes(raw.as_slice(), [rows, self.shape[1]], self.dtype) {
            Ok(t) => Some(t),
            Err(_) => None,
        }
    }

    /// The elements of the matrix, row after row, out of what the GPU storage
    /// buffer holds.
    pub fn dequantize(&self, buffer: &[u8]) -> (r: Vec<ScaledInt>)
        requires
            quantized_len(self@.dtype, self@.rows * self@.cols) <= buffer@.len(),
        ensures
            r@ == elements(buffer@, self@.dtype, self@.rows * self@.cols),
            r@.len() == self@.rows * self@.cols,
            forall|b: int, i: int|
                #![trigger buffer@[18 * b + 2 + i]]
                self@.dtype == GgmlDtype::Q4_0 && 0 <= b && 32 * b + 32 <= r@.len() && 0 <= i < 16
                    ==> {
                    &&& r@[32 * b + i].quant == buffer@[18 * b + 2 + i] as int % 16 - 8
                    &&& r@[32 * b + 16 + i].quant == buffer@[18 * b + 2 + i] as int / 16 - 8
                    &&& r@[32 * b + i].scale == buffer@[18 * b] + 0x100 * buffer@[18 * b + 1]
                    &&& r@[32 * b + 16 + i].scale == buffer@[18 * b] + 0x100 * buffer@[18 * b + 1]
                },
            forall|b: int, i: int|
                #![trigger buffer@[34 * b + 2 + i]]
                self@.dtype == GgmlDtype::Q8_0 && 0 <= b && 32 * b + 32 <= r@.len() && 0 <= i < 32
                    ==> {
                    &&& buffer@[34 * b + 2 + i] < 128 ==> r@[32 * b + i].quant == buffer@[34 * b
                        + 2 + i]
                    &&& buffer@[34 * b + 2 + i] >= 128 ==> r@[32 * b + i].quant == buffer@[34 * b
                        + 2 + i] - 256
                    &&& r@[32 * b + i].scale == buffer@[34 * b] + 0x100 * buffer@[34 * b + 1]
                },
    {
        proof {
            use_type_invariant(self);
        }
        let num_elements: usize = self.shape[0] * self.shape[1];
        decode_elements(buffer, self.dtype, num_elements)
    }
}

} // verus!
