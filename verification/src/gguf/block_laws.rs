//! What quantized blocks hold, byte by byte.

use vstd::prelude::*;

use crate::gguf::bytes::law_word_of_two;
use crate::gguf::reader::GgmlDtype;
use crate::gguf::tensor::{
    block_bytes_of, block_size, block_start, element, elements, is_quantized, padded, quant_failure,
    quant_fits, quantized_len, stack, stackable, QuantError, QuantView, ScaledInt,
};

verus! {

/// Byte number `i` behind the scale of a Q4_0 block holds element `i` of the block in its
/// low half, and element `16 + i` in its high half, each with 8 added to it; the scale is
/// in the first two bytes of the block.
pub proof fn law_q4_halves(raw: Seq<u8>, b: int, i: int, lo: int, hi: int)
    requires
        0 <= b,
        0 <= i < 16,
        18 * b + 18 <= raw.len(),
        0 <= lo < 16,
        0 <= hi < 16,
        raw[18 * b + 2 + i] == lo + 16 * hi,
    ensures
        element(raw, GgmlDtype::Q4_0, 32 * b + i).quant == lo - 8,
        element(raw, GgmlDtype::Q4_0, 32 * b + 16 + i).quant == hi - 8,
        element(raw, GgmlDtype::Q4_0, 32 * b + i).scale == raw[18 * b] + 0x100 * raw[18 * b + 1],
        element(raw, GgmlDtype::Q4_0, 32 * b + 16 + i).scale == raw[18 * b] + 0x100 * raw[18 * b
            + 1],
{
    assert((32 * b + i) / 32 == b && (32 * b + i) % 32 == i);
    assert((32 * b + 16 + i) / 32 == b && (32 * b + 16 + i) % 32 == 16 + i);
    law_word_of_two(raw, 18 * b);
}

/// Byte number `i` behind the scale of a Q8_0 block is the two's complement of element `i`
/// of the block; the scale is in the first two bytes of the block.
pub proof fn law_q8_bytes(raw: Seq<u8>, b: int, i: int)
    requires
        0 <= b,
        0 <= i < 32,
        34 * b + 34 <= raw.len(),
    ensures
        ({
            let e = element(raw, GgmlDtype::Q8_0, 32 * b + i);
            let byte = raw[34 * b + 2 + i];
            &&& e.quant >= 0 ==> e.quant == byte
            &&& e.quant < 0 ==> e.quant == byte - 256
            &&& e.quant >= 0 <==> byte < 128
            &&& e.scale == raw[34 * b] + 0x100 * raw[34 * b + 1]
        }),
{
    assert((32 * b + i) / 32 == b && (32 * b + i) % 32 == i);
    law_word_of_two(raw, 34 * b);
}

/// Elements come in the order of the blocks, each as its bytes say.
pub proof fn law_elements_of_bytes(
    raw: Seq<u8>,
    dtype: GgmlDtype,
    count: nat,
    r: Seq<ScaledInt>,
)
    requires
        r == elements(raw, dtype, count),
        count % 32 == 0,
        dtype == GgmlDtype::Q4_0 ==> 18 * (count / 32) <= raw.len(),
        dtype == GgmlDtype::Q8_0 ==> 34 * (count / 32) <= raw.len(),
    ensures
        r.len() == count,
        forall|b: int, i: int|
            #![trigger raw[18 * b + 2 + i]]
            dtype == GgmlDtype::Q4_0 && 0 <= b && 32 * b + 32 <= count && 0 <= i < 16 ==> {
                &&& r[32 * b + i].quant == raw[18 * b + 2 + i] as int % 16 - 8
                &&& r[32 * b + 16 + i].quant == raw[18 * b + 2 + i] as int / 16 - 8
                &&& r[32 * b + i].scale == raw[18 * b] + 0x100 * raw[18 * b + 1]
                &&& r[32 * b + 16 + i].scale == raw[18 * b] + 0x100 * raw[18 * b + 1]
            },
        forall|b: int, i: int|
            #![trigger raw[34 * b + 2 + i]]
            dtype == GgmlDtype::Q8_0 && 0 <= b && 32 * b + 32 <= count && 0 <= i < 32 ==> {
                &&& raw[34 * b + 2 + i] < 128 ==> r[32 * b + i].quant == raw[34 * b + 2 + i]
                &&& raw[34 * b + 2 + i] >= 128 ==> r[32 * b + i].quant == raw[34 * b + 2 + i]
                    - 256
                &&& r[32 * b + i].scale == raw[34 * b] + 0x100 * raw[34 * b + 1]
            },
{
    assert forall|b: int, i: int|
        #![trigger raw[18 * b + 2 + i]]
        dtype == GgmlDtype::Q4_0 && 0 <= b && 32 * b + 32 <= count && 0 <= i < 16 implies {
        &&& r[32 * b + i].quant == raw[18 * b + 2 + i] as int % 16 - 8
        &&& r[32 * b + 16 + i].quant == raw[18 * b + 2 + i] as int / 16 - 8
        &&& r[32 * b + i].scale == raw[18 * b] + 0x100 * raw[18 * b + 1]
        &&& r[32 * b + 16 + i].scale == raw[18 * b] + 0x100 * raw[18 * b + 1]
    } by {
        let byte = raw[18 * b + 2 + i] as int;
        law_q4_halves(raw, b, i, byte % 16, byte / 16);
    }
    assert forall|b: int, i: int|
        #![trigger raw[34 * b + 2 + i]]
        dtype == GgmlDtype::Q8_0 && 0 <= b && 32 * b + 32 <= count && 0 <= i < 32 implies {
        &&& raw[34 * b + 2 + i] < 128 ==> r[32 * b + i].quant == raw[34 * b + 2 + i]
        &&& raw[34 * b + 2 + i] >= 128 ==> r[32 * b + i].quant == raw[34 * b + 2 + i] - 256
        &&& r[32 * b + i].scale == raw[34 * b] + 0x100 * raw[34 * b + 1]
    } by {
        law_q8_bytes(raw, b, i);
    }
}

/// The bytes of Q4_0 blocks that hold `values`.
pub open spec fn packed_q4(values: Seq<ScaledInt>) -> Seq<u8> {
    Seq::new(
        values.len() / 32 * 18,
        |k: int|
            {
                let first = k / 18 * 32;
                let j = k % 18;
                if j == 0 {
                    (values[first].scale % 0x100) as u8
                } else if j == 1 {
                    (values[first].scale / 0x100) as u8
                } else {
                    (values[first + j - 2].quant + 8 + 16 * (values[first + j + 14].quant
                        + 8)) as u8
                }
            },
    )
}

/// The bytes of Q8_0 blocks that hold `values`.
pub open spec fn packed_q8(values: Seq<ScaledInt>) -> Seq<u8> {
    Seq::new(
        values.len() / 32 * 34,
        |k: int|
            {
                let first = k / 34 * 32;
                let j = k % 34;
                if j == 0 {
                    (values[first].scale % 0x100) as u8
                } else if j == 1 {
                    (values[first].scale / 0x100) as u8
                } else if values[first + j - 2].quant < 0 {
                    (values[first + j - 2].quant + 256) as u8
                } else {
                    values[first + j - 2].quant as u8
                }
            },
    )
}

/// Whether number `i` has the scale of the first number of its block.
pub open spec fn shares_scale(values: Seq<ScaledInt>, i: int) -> bool {
    values[i].scale == values[i / 32 * 32].scale
}

/// Whether `values` fill whole blocks, each with one scale.
pub open spec fn in_blocks(values: Seq<ScaledInt>) -> bool {
    &&& values.len() % 32 == 0
    &&& forall|i: int| 0 <= i < values.len() ==> #[trigger] shares_scale(values, i)
}

/// The bytes of a packed Q4_0 block.
proof fn lemma_packed_q4_bytes(values: Seq<ScaledInt>, b: int, i: int)
    requires
        values.len() % 32 == 0,
        0 <= b < values.len() / 32,
        0 <= i < 16,
        -8 <= values[32 * b + i].quant <= 7,
        -8 <= values[32 * b + 16 + i].quant <= 7,
    ensures
        18 * b + 18 <= packed_q4(values).len(),
        packed_q4(values)[18 * b] + 0x100 * packed_q4(values)[18 * b + 1] == values[32 * b].scale,
        packed_q4(values)[18 * b + 2 + i] == (values[32 * b + i].quant + 8) + 16 * (values[32 * b
            + 16 + i].quant + 8),
{
    let k = 18 * b + 2 + i;
    assert(k / 18 == b && k % 18 == 2 + i);
    assert((18 * b) / 18 == b && (18 * b) % 18 == 0);
    assert((18 * b + 1) / 18 == b && (18 * b + 1) % 18 == 1);
}

/// Two elements of a packed Q4_0 block.
proof fn lemma_packed_q4_elements(values: Seq<ScaledInt>, b: int, i: int)
    requires
        in_blocks(values),
        0 <= b < values.len() / 32,
        0 <= i < 16,
        -8 <= values[32 * b + i].quant <= 7,
        -8 <= values[32 * b + 16 + i].quant <= 7,
    ensures
        element(packed_q4(values), GgmlDtype::Q4_0, 32 * b + i) == values[32 * b + i],
        element(packed_q4(values), GgmlDtype::Q4_0, 32 * b + 16 + i) == values[32 * b + 16 + i],
{
    lemma_packed_q4_bytes(values, b, i);
    law_q4_halves(
        packed_q4(values),
        b,
        i,
        values[32 * b + i].quant + 8,
        values[32 * b + 16 + i].quant + 8,
    );
    assert(shares_scale(values, 32 * b + i));
    assert(shares_scale(values, 32 * b + 16 + i));
    assert((32 * b + i) / 32 == b);
    assert((32 * b + 16 + i) / 32 == b);
}

/// Numbers from -8 up to 7 that are packed into Q4_0 blocks come out again, in order.
pub proof fn law_q4_round_trip(values: Seq<ScaledInt>)
    requires
        in_blocks(values),
        forall|i: int| 0 <= i < values.len() ==> -8 <= (#[trigger] values[i]).quant <= 7,
    ensures
        packed_q4(values).len() == 18 * (values.len() / 32),
        elements(packed_q4(values), GgmlDtype::Q4_0, values.len()) == values,
{
    let raw = packed_q4(values);
    assert forall|n: int| 0 <= n < values.len() implies element(raw, GgmlDtype::Q4_0, n)
        == values[n] by {
        let b = n / 32;
        let i = n % 16;
        assert(0 <= b < values.len() / 32);
        assert(n == 32 * b + i || n == 32 * b + 16 + i);
        lemma_packed_q4_elements(values, b, i);
    }
    assert(elements(raw, GgmlDtype::Q4_0, values.len()) =~= values);
}

/// Numbers of eight bits that are packed into Q8_0 blocks come out again, in order.
pub proof fn law_q8_round_trip(values: Seq<ScaledInt>)
    requires
        in_blocks(values),
    ensures
        packed_q8(values).len() == 34 * (values.len() / 32),
        elements(packed_q8(values), GgmlDtype::Q8_0, values.len()) == values,
{
    let raw = packed_q8(values);
    assert forall|n: int| 0 <= n < values.len() implies element(raw, GgmlDtype::Q8_0, n)
        == values[n] by {
        let b = n / 32;
        let i = n % 32;
        let k = 34 * b + 2 + i;
        assert(b < values.len() / 32);
        assert(k / 34 == b && k % 34 == 2 + i);
        assert((34 * b) / 34 == b && (34 * b) % 34 == 0);
        assert((34 * b + 1) / 34 == b && (34 * b + 1) % 34 == 1);
        law_q8_bytes(raw, b, i);
        assert(shares_scale(values, n));
    }
    assert(elements(raw, GgmlDtype::Q8_0, values.len()) =~= values);
}

/// Blocks that are unpacked and packed again are the same bytes: no two different blocks
/// hold the same numbers.
pub proof fn law_blocks_repack(raw: Seq<u8>, count: nat)
    requires
        count % 32 == 0,
    ensures
        raw.len() == 18 * (count / 32) ==> packed_q4(elements(raw, GgmlDtype::Q4_0, count)) == raw,
        raw.len() == 34 * (count / 32) ==> packed_q8(elements(raw, GgmlDtype::Q8_0, count)) == raw,
{
    if raw.len() == 18 * (count / 32) {
        let values = elements(raw, GgmlDtype::Q4_0, count);
        assert forall|k: int| 0 <= k < raw.len() implies packed_q4(values)[k] == raw[k] by {
            let b = k / 18;
            let j = k % 18;
            let i = if j < 2 {
                0
            } else {
                j - 2
            };
            let byte = raw[18 * b + 2 + i];
            assert(b < count / 32);
            law_q4_halves(raw, b, i, byte as int % 16, byte as int / 16);
            law_q4_halves(raw, b, 0, raw[18 * b + 2] as int % 16, raw[18 * b + 2] as int / 16);
        }
        assert(packed_q4(values) =~= raw);
    }
    if raw.len() == 34 * (count / 32) {
        let values = elements(raw, GgmlDtype::Q8_0, count);
        assert forall|k: int| 0 <= k < raw.len() implies packed_q8(values)[k] == raw[k] by {
            let b = k / 34;
            let j = k % 34;
            let i = if j < 2 {
                0
            } else {
                j - 2
            };
            assert(b < count / 32);
            law_q8_bytes(raw, b, i);
            law_q8_bytes(raw, b, 0);
        }
        assert(packed_q8(values) =~= raw);
    }
}

/// A block has 32 elements, and takes 18 bytes in Q4_0 and 34 in Q8_0; blocks lie one
/// behind the other.
pub proof fn law_block_sizes(count: nat, b: int)
    ensures
        block_size() == 32,
        block_bytes_of(GgmlDtype::Q4_0) == 18,
        block_bytes_of(GgmlDtype::Q8_0) == 34,
        block_start(GgmlDtype::Q4_0, b) == 18 * b,
        block_start(GgmlDtype::Q8_0, b) == 34 * b,
        quantized_len(GgmlDtype::Q4_0, count) == 18 * (count / 32),
        quantized_len(GgmlDtype::Q8_0, count) == 34 * (count / 32),
        is_quantized(GgmlDtype::Q4_0),
        is_quantized(GgmlDtype::Q8_0),
        !is_quantized(GgmlDtype::F32),
        !is_quantized(GgmlDtype::F16),
{
}

/// Bytes are a quantized matrix exactly if the elements fill whole blocks and the blocks
/// take exactly these bytes; otherwise the first of these conditions that does not hold is
/// reported, with the numbers that it is about.
pub proof fn law_quantized_matrices(len: nat, rows: nat, cols: nat, count: nat)
    requires
        count == rows * cols,
        count <= usize::MAX,
        len <= usize::MAX,
        34 * (count / 32) <= usize::MAX,
    ensures
        quant_failure(len, rows, cols, GgmlDtype::F32) == Some(
            QuantError::UnsupportedDtype { dtype: GgmlDtype::F32 },
        ),
        quant_failure(len, rows, cols, GgmlDtype::F16) == Some(
            QuantError::UnsupportedDtype { dtype: GgmlDtype::F16 },
        ),
        count % 32 != 0 ==> quant_failure(len, rows, cols, GgmlDtype::Q4_0) == Some(
            QuantError::PartialBlock { dtype: GgmlDtype::Q4_0, num_elements: count as usize },
        ),
        count % 32 != 0 ==> quant_failure(len, rows, cols, GgmlDtype::Q8_0) == Some(
            QuantError::PartialBlock { dtype: GgmlDtype::Q8_0, num_elements: count as usize },
        ),
        count % 32 == 0 && len != 18 * (count / 32) ==> quant_failure(
            len,
            rows,
            cols,
            GgmlDtype::Q4_0,
        ) == Some(
            QuantError::ByteCount {
                dtype: GgmlDtype::Q4_0,
                expected: (18 * (count / 32)) as usize,
                num_blocks: (count / 32) as usize,
                got: len as usize,
            },
        ),
        count % 32 == 0 && len != 34 * (count / 32) ==> quant_failure(
            len,
            rows,
            cols,
            GgmlDtype::Q8_0,
        ) == Some(
            QuantError::ByteCount {
                dtype: GgmlDtype::Q8_0,
                expected: (34 * (count / 32)) as usize,
                num_blocks: (count / 32) as usize,
                got: len as usize,
            },
        ),
        quant_failure(len, rows, cols, GgmlDtype::Q4_0) is None <==> count % 32 == 0 && len == 18
            * (count / 32),
        quant_failure(len, rows, cols, GgmlDtype::Q8_0) is None <==> count % 32 == 0 && len == 34
            * (count / 32),
        quant_fits(rows, cols, GgmlDtype::Q4_0),
        quant_fits(rows, cols, GgmlDtype::Q8_0),
{
}

/// A matrix has its elements row after row, as many as its shape says, each as its bytes
/// say.
pub proof fn law_matrix_elements(t: QuantView)
    requires
        t.valid(),
    ensures
        t.values().len() == t.rows * t.cols,
        t.dtype == GgmlDtype::Q4_0 || t.dtype == GgmlDtype::Q8_0,
        forall|b: int, i: int|
            #![trigger t.raw[18 * b + 2 + i]]
            t.dtype == GgmlDtype::Q4_0 && 0 <= b && 32 * b + 32 <= t.rows * t.cols && 0 <= i < 16
                ==> t.values()[32 * b + i].quant == t.raw[18 * b + 2 + i] as int % 16 - 8
                && t.values()[32 * b + 16 + i].quant == t.raw[18 * b + 2 + i] as int / 16 - 8
                && t.values()[32 * b + i].scale == t.raw[18 * b] + 0x100 * t.raw[18 * b + 1]
                && t.values()[32 * b + 16 + i].scale == t.raw[18 * b] + 0x100 * t.raw[18 * b + 1],
        t.dtype == GgmlDtype::Q4_0 ==> packed_q4(t.values()) == t.raw,
        t.dtype == GgmlDtype::Q8_0 ==> packed_q8(t.values()) == t.raw,
{
    let count = t.rows * t.cols;
    law_blocks_repack(t.raw, count);
    assert forall|b: int, i: int|
        #![trigger t.raw[18 * b + 2 + i]]
        t.dtype == GgmlDtype::Q4_0 && 0 <= b && 32 * b + 32 <= count && 0 <= i < 16 implies
        t.values()[32 * b + i].quant == t.raw[18 * b + 2 + i] as int % 16 - 8
        && t.values()[32 * b + 16 + i].quant == t.raw[18 * b + 2 + i] as int / 16 - 8
        && t.values()[32 * b + i].scale == t.raw[18 * b] + 0x100 * t.raw[18 * b + 1]
        && t.values()[32 * b + 16 + i].scale == t.raw[18 * b] + 0x100 * t.raw[18 * b + 1] by {
        let byte = t.raw[18 * b + 2 + i];
        law_q4_halves(t.raw, b, i, byte as int % 16, byte as int / 16);
    }
}

/// Behind the blocks, an image holds zeros up to the next multiple of four bytes.
pub proof fn law_image(raw: Seq<u8>)
    ensures
        padded(raw).len() % 4 == 0,
        raw.len() <= padded(raw).len() < raw.len() + 4,
        forall|i: int| 0 <= i < raw.len() ==> #[trigger] padded(raw)[i] == raw[i],
        forall|i: int| raw.len() <= i < padded(raw).len() ==> #[trigger] padded(raw)[i] == 0,
{
}

/// Two matrices can be stacked exactly if they have the same kind of blocks and rows of
/// the same length, and the sizes of the whole are machine numbers; the whole has the
/// blocks of the upper one first.
pub proof fn law_stacking(a: QuantView, b: QuantView)
    requires
        a.valid(),
        b.valid(),
    ensures
        stackable(a, b) <==> a.dtype == b.dtype && a.cols == b.cols && a.rows + b.rows <= usize::MAX
            && (a.rows + b.rows) * a.cols <= usize::MAX && (((a.rows + b.rows) * a.cols) % 32 == 0
            ==> if a.dtype == GgmlDtype::Q4_0 {
            18 * (((a.rows + b.rows) * a.cols) / 32) <= usize::MAX
        } else {
            34 * (((a.rows + b.rows) * a.cols) / 32) <= usize::MAX
        }),
        stack(a, b).rows == a.rows + b.rows,
        stack(a, b).cols == a.cols,
        stack(a, b).dtype == a.dtype,
        stack(a, b).raw == a.raw + b.raw,
{
}

} // verus!
