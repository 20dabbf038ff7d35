//! What holds of the library as a whole.

use vstd::prelude::*;

use crate::gguf::bytes::joined;
use crate::gguf::floats::{FloatTensorView, FloatsView};
use crate::gguf::layout::{
    common_slots, deferred_slots, model_slots, plain, tok_embeddings_name, tok_embeddings_slot,
};
use crate::gguf::linear::{
    fused_gate_up, fused_qkv, in_columns, Columns, FusedGateUpView, FusedQkvView,
};
use crate::gguf::loader::{lemma_all_load_both, shape_of, Purpose};
use crate::gguf::names::{decimal, digit};
use crate::gguf::reader::{
    decode, element_count, lemma_matrix_count, GgmlDtype, GgufFile, TensorError,
};
use crate::gguf::tensor::{
    block_bytes_of, block_size, block_start, element, elements, is_quantized, lemma_stack_valid,
    padded, quantized_len, stack, QuantError, QuantView,
};
use crate::gguf::tts_loader::Q4TtsModelParts;
use crate::gguf::tts_model::{Q4TtsBackbone, Q4TtsDecoderLayer};

verus! {

/// The image of a matrix consists of whole 32-bit words, and less than one word of it
/// is padding.
pub proof fn law_padding(raw: Seq<u8>)
    ensures
        padded(raw).len() % 4 == 0,
        padded(raw).len() < raw.len() + 4,
        raw.is_prefix_of(padded(raw)),
{
    assert(raw =~= padded(raw).subrange(0, raw.len() as int));
}

/// A buffer that starts with the image of a matrix gives back the blocks of the
/// matrix and its elements.
pub proof fn law_upload_reads_back(t: QuantView, buffer: Seq<u8>)
    requires
        t.valid(),
        padded(t.raw).is_prefix_of(buffer),
    ensures
        buffer.subrange(0, quantized_len(t.dtype, t.rows * t.cols) as int) == t.raw,
        elements(buffer, t.dtype, t.rows * t.cols) == t.values(),
{
    let len = t.raw.len() as int;
    let image = padded(t.raw);
    assert(image =~= buffer.subrange(0, image.len() as int));
    assert(buffer.subrange(0, len) =~= t.raw) by {
        assert forall|i: int| 0 <= i < len implies buffer[i] == t.raw[i] by {
            assert(image[i] == buffer[i]);
        }
    }
    let rest = buffer.subrange(len, buffer.len() as int);
    assert(buffer =~= t.raw + rest);
    let count = t.rows * t.cols;
    assert forall|i: int| 0 <= i < count implies element(buffer, t.dtype, i) == element(
        t.raw,
        t.dtype,
        i,
    ) by {
        lemma_element_in_front(t.raw, rest, t.dtype, count, i);
    }
    assert(elements(buffer, t.dtype, count) =~= t.values());
}

/// What follows the blocks does not matter for their elements.
proof fn lemma_element_in_front(
    raw: Seq<u8>,
    rest: Seq<u8>,
    dtype: GgmlDtype,
    count: nat,
    i: int,
)
    requires
        is_quantized(dtype),
        count % block_size() == 0,
        raw.len() == quantized_len(dtype, count),
        0 <= i < count,
    ensures
        element(raw + rest, dtype, i) == element(raw, dtype, i),
{
    let offset = block_start(dtype, i / 32);
    assert(i / 32 + 1 <= count / 32);
    assert(offset + block_bytes_of(dtype) <= raw.len());
    assert((raw + rest).subrange(offset, offset + 2) =~= raw.subrange(offset, offset + 2));
}

/// Elements behind other blocks are numbered on.
proof fn lemma_element_behind(
    front: Seq<u8>,
    raw: Seq<u8>,
    dtype: GgmlDtype,
    before: nat,
    count: nat,
    i: int,
)
    requires
        is_quantized(dtype),
        before % block_size() == 0,
        count % block_size() == 0,
        front.len() == quantized_len(dtype, before),
        raw.len() == quantized_len(dtype, count),
        0 <= i < count,
    ensures
        element(front + raw, dtype, before + i) == element(raw, dtype, i),
{
    let offset = block_start(dtype, i / 32);
    assert((before + i) / 32 == before / 32 + i / 32);
    assert((before + i) % 32 == i % 32);
    assert(i / 32 + 1 <= count / 32);
    assert(block_start(dtype, (before + i) / 32) == front.len() + offset);
    assert(offset + block_bytes_of(dtype) <= raw.len());
    assert((front + raw).subrange(front.len() + offset, front.len() + offset + 2) =~= raw.subrange(
        offset,
        offset + 2,
    ));
}

/// Stacking matrices puts their elements one after the other: the rows of the
/// parts are the rows of the whole.
pub proof fn law_stack_values(a: QuantView, b: QuantView)
    requires
        a.valid(),
        b.valid(),
        a.dtype == b.dtype,
        a.cols == b.cols,
    ensures
        stack(a, b).values() == a.values() + b.values(),
{
    lemma_stack_valid(a, b);
    let na = a.rows * a.cols;
    let nb = b.rows * b.cols;
    let whole = stack(a, b).values();
    assert forall|i: int| 0 <= i < whole.len() implies whole[i] == (a.values() + b.values())[i] by {
        if i < na {
            lemma_element_in_front(a.raw, b.raw, a.dtype, na, i);
        } else {
            lemma_element_behind(a.raw, b.raw, a.dtype, na, nb, i - na);
        }
    }
    assert(whole =~= a.values() + b.values());
}

/// The weights of a fused Q/K/V projection are the weights of the three projections,
/// and the output splits into columns for each of them, without a gap or an overlap.
pub proof fn law_fused_qkv(q: QuantView, k: QuantView, v: QuantView)
    requires
        q.valid(),
        k.valid(),
        v.valid(),
        fused_qkv(q, k, v) is Some,
        q.rows <= usize::MAX,
        k.rows <= usize::MAX,
        v.rows <= usize::MAX,
    ensures
        ({
            let f = fused_qkv(q, k, v)->0;
            &&& f.weights.valid()
            &&& f.weights.values() == q.values() + k.values() + v.values()
            &&& f.columns().0.start == 0
            &&& f.columns().0.start + f.columns().0.len == f.columns().1.start
            &&& f.columns().1.start + f.columns().1.len == f.columns().2.start
            &&& f.columns().2.start + f.columns().2.len == f.weights.rows
            &&& f.columns().0.len == q.rows
            &&& f.columns().1.len == k.rows
            &&& f.columns().2.len == v.rows
        }),
{
    lemma_stack_valid(q, k);
    lemma_stack_valid(stack(q, k), v);
    law_stack_values(q, k);
    law_stack_values(stack(q, k), v);
}

/// The same of a fused gate and up projection.
pub proof fn law_fused_gate_up(gate: QuantView, up: QuantView)
    requires
        gate.valid(),
        up.valid(),
        fused_gate_up(gate, up) is Some,
        gate.rows <= usize::MAX,
        up.rows <= usize::MAX,
    ensures
        ({
            let f = fused_gate_up(gate, up)->0;
            &&& f.weights.valid()
            &&& f.weights.values() == gate.values() + up.values()
            &&& f.columns().0.start == 0
            &&& f.columns().0.start + f.columns().0.len == f.columns().1.start
            &&& f.columns().1.start + f.columns().1.len == f.weights.rows
            &&& f.columns().0.len == gate.rows
            &&& f.columns().1.len == up.rows
        }),
{
    lemma_stack_valid(gate, up);
    law_stack_values(gate, up);
}

/// Row number `r` of a table with rows of `width` numbers.
pub open spec fn row(values: Seq<u32>, width: int, r: int) -> Seq<u32> {
    values.subrange(r * width, r * width + width)
}

/// Narrowing a table to some of its columns narrows each of its rows.
pub proof fn law_narrow_rows(values: Seq<u32>, width: int, columns: Columns, rows: int, r: int)
    requires
        0 < columns.len,
        columns.start + columns.len <= width,
        values.len() == rows * width,
        0 <= r < rows,
    ensures
        in_columns(values, width, columns).len() == rows * columns.len,
        row(in_columns(values, width, columns), columns.len as int, r) == row(
            values,
            width,
            r,
        ).subrange(columns.start as int, columns.start + columns.len),
{
    let len = columns.len as int;
    let part = in_columns(values, width, columns);
    vstd::arithmetic::div_mod::lemma_fundamental_div_mod_converse(
        values.len() as int,
        width,
        rows,
        0,
    );
    assert(part.len() == rows * len);
    assert(r * len + len <= rows * len) by (nonlinear_arith)
        requires
            r + 1 <= rows,
            0 < len,
    ;
    assert(0 <= r * len) by (nonlinear_arith)
        requires
            0 <= r,
            0 < len,
    ;
    assert(r * width + width <= rows * width) by (nonlinear_arith)
        requires
            r + 1 <= rows,
            0 < width,
    ;
    assert(0 <= r * width) by (nonlinear_arith)
        requires
            0 <= r,
            0 < width,
    ;
    assert forall|c: int| 0 <= c < len implies #[trigger] part[r * len + c] == values[r * width
        + columns.start + c] by {
        vstd::arithmetic::div_mod::lemma_fundamental_div_mod_converse(r * len + c, len, r, c);
    }
    assert(row(part, len, r) =~= row(values, width, r).subrange(
        columns.start as int,
        columns.start + columns.len,
    )) by {
        assert forall|c: int| 0 <= c < len implies row(part, len, r)[c] == row(
            values,
            width,
            r,
        ).subrange(columns.start as int, columns.start + columns.len)[c] by {
            assert(row(part, len, r)[c] == part[r * len + c]);
        }
    }
}

/// Splitting the output of a fused projection loses nothing: each of its rows is the
/// row of the first part, then that of the second, then that of the third.
pub proof fn law_split_rejoins(f: FusedQkvView, values: Seq<u32>, rows: int, r: int)
    requires
        f.splits(f.weights.rows as int),
        f.q_out + f.k_out + f.v_out == f.weights.rows,
        f.weights.rows <= usize::MAX,
        values.len() == rows * f.weights.rows,
        0 <= r < rows,
    ensures
        ({
            let width = f.weights.rows as int;
            let q = in_columns(values, width, f.columns().0);
            let k = in_columns(values, width, f.columns().1);
            let v = in_columns(values, width, f.columns().2);
            row(values, width, r) == row(q, f.q_out as int, r) + row(k, f.k_out as int, r) + row(
                v,
                f.v_out as int,
                r,
            )
        }),
{
    let width = f.weights.rows as int;
    law_narrow_rows(values, width, f.columns().0, rows, r);
    law_narrow_rows(values, width, f.columns().1, rows, r);
    law_narrow_rows(values, width, f.columns().2, rows, r);
    assert(r * width + width <= rows * width) by (nonlinear_arith)
        requires
            r + 1 <= rows,
            0 < width,
    ;
    assert(0 <= r * width) by (nonlinear_arith)
        requires
            0 <= r,
            0 < width,
    ;
    let whole = row(values, width, r);
    let (a, b, c) = f.columns();
    assert(whole =~= whole.subrange(0, f.q_out as int) + whole.subrange(
        b.start as int,
        b.start + b.len,
    ) + whole.subrange(c.start as int, c.start + c.len));
}

/// The same of a fused gate and up projection.
pub proof fn law_gate_up_rejoins(f: FusedGateUpView, values: Seq<u32>, rows: int, r: int)
    requires
        f.splits(f.weights.rows as int),
        f.gate_out + f.up_out == f.weights.rows,
        values.len() == rows * f.weights.rows,
        0 <= r < rows,
    ensures
        ({
            let width = f.weights.rows as int;
            let gate = in_columns(values, width, f.columns().0);
            let up = in_columns(values, width, f.columns().1);
            row(values, width, r) == row(gate, f.gate_out as int, r) + row(up, f.up_out as int, r)
        }),
{
    let width = f.weights.rows as int;
    law_narrow_rows(values, width, f.columns().0, rows, r);
    law_narrow_rows(values, width, f.columns().1, rows, r);
    assert(r * width + width <= rows * width) by (nonlinear_arith)
        requires
            r + 1 <= rows,
            0 < width,
    ;
    assert(0 <= r * width) by (nonlinear_arith)
        requires
            0 <= r,
            0 < width,
    ;
    let whole = row(values, width, r);
    let (a, b) = f.columns();
    assert(whole =~= whole.subrange(0, a.len as int) + whole.subrange(
        b.start as int,
        b.start + b.len,
    ));
}

/// A file can be cut into shards at any place: what was joined from two lists of
/// shards is joined from both lists together, and a single shard is the file.
pub proof fn law_shards_join(front: Seq<Vec<u8>>, back: Seq<Vec<u8>>, whole: Vec<u8>)
    ensures
        joined(front + back) == joined(front) + joined(back),
        joined(seq![whole]) == whole@,
    decreases back.len(),
{
    reveal_with_fuel(joined, 2);
    assert(seq![whole].drop_last() =~= Seq::<Vec<u8>>::empty());
    assert(joined(seq![whole]) =~= whole@);
    if back.len() == 0 {
        assert(front + back =~= front);
        assert(joined(front + back) =~= joined(front) + joined(back));
    } else {
        law_shards_join(front, back.drop_last(), whole);
        assert((front + back).drop_last() =~= front + back.drop_last());
        assert((front + back).last() == back.last());
        assert(joined(front + back) =~= joined(front) + joined(back));
    }
}

/// Cutting a shard in two does not change what the file holds.
pub proof fn law_cut_shard(
    front: Seq<Vec<u8>>,
    whole: Vec<u8>,
    a: Vec<u8>,
    b: Vec<u8>,
    back: Seq<Vec<u8>>,
)
    requires
        whole@ == a@ + b@,
    ensures
        decode(joined(front + seq![a, b] + back)) == decode(joined(front + seq![whole] + back)),
{
    law_shards_join(front + seq![a, b], back, whole);
    law_shards_join(front + seq![whole], back, whole);
    law_shards_join(front, seq![a, b], a);
    law_shards_join(front, seq![whole], whole);
    law_shards_join(seq![a], seq![b], a);
    law_shards_join(seq![a], seq![b], b);
    assert(seq![a] + seq![b] =~= seq![a, b]);
}

/// The elements of Q4_0 blocks are multiples of their scale from -8 up to 7.
pub proof fn law_q4_range(raw: Seq<u8>, i: int)
    ensures
        -8 <= element(raw, GgmlDtype::Q4_0, i).quant <= 7,
{
}

/// Distinct layers have no tensor in common: their names differ, whatever follows
/// the number of the layer.
pub proof fn law_layers_have_own_names(
    prefix: Seq<char>,
    i: nat,
    j: nat,
    s: Seq<char>,
    t: Seq<char>,
)
    requires
        i != j,
        s.len() > 0 ==> s[0] == '.',
        t.len() > 0 ==> t[0] == '.',
    ensures
        prefix + decimal(i) + s != prefix + decimal(j) + t,
{
    let a = prefix + decimal(i) + s;
    let b = prefix + decimal(j) + t;
    if a == b {
        let n = prefix.len() as int;
        lemma_decimal_digits(i);
        lemma_decimal_digits(j);
        let li = decimal(i).len() as int;
        let lj = decimal(j).len() as int;
        assert(a.len() == b.len());
        if li < lj {
            assert(b[n + li] == decimal(j)[li]);
            assert(a[n + li] == s[0]);
        } else if lj < li {
            assert(a[n + lj] == decimal(i)[lj]);
            assert(b[n + lj] == t[0]);
        } else {
            assert forall|k: int| 0 <= k < li implies decimal(i)[k] == decimal(j)[k] by {
                assert(a[n + k] == decimal(i)[k]);
                assert(b[n + k] == decimal(j)[k]);
            }
            assert(decimal(i) =~= decimal(j));
            lemma_decimal_injective(i, j);
        }
    }
}

/// A number is written with digits.
proof fn lemma_decimal_digits(n: nat)
    ensures
        decimal(n).len() > 0,
        forall|k: int| 0 <= k < decimal(n).len() ==> #[trigger] decimal(n)[k] != '.',
    decreases n,
{
    if n >= 10 {
        lemma_decimal_digits(n / 10);
    }
}

/// A number can be told from its notation.
proof fn lemma_decimal_injective(m: nat, n: nat)
    requires
        decimal(m) == decimal(n),
    ensures
        m == n,
    decreases m,
{
    lemma_decimal_digits(m / 10);
    lemma_decimal_digits(n / 10);
    assert(decimal(m).last() == digit(m % 10));
    assert(decimal(n).last() == digit(n % 10));
    if m >= 10 && n >= 10 {
        assert(decimal(m).drop_last() =~= decimal(m / 10));
        assert(decimal(n).drop_last() =~= decimal(n / 10));
        lemma_decimal_injective(m / 10, n / 10);
    }
}

/// Loading in two phases succeeds wherever loading at once does; and, if the token
/// embeddings are a matrix, nowhere else.
pub proof fn law_deferred_loads(file: GgufFile)
    ensures
        file.all_load(model_slots()) ==> file.all_load(deferred_slots()),
        ({
            &&& file.entry(tok_embeddings_name()) matches Some(entry)
            &&& entry.dims.len() == 2
            &&& file.all_load(deferred_slots())
        }) ==> file.all_load(model_slots()),
{
    let table = tok_embeddings_slot();
    let bytes = plain(tok_embeddings_name(), Purpose::Bytes);
    let matrix = plain(tok_embeddings_name(), Purpose::Matrix);
    lemma_all_load_both(file, seq![table], common_slots());
    lemma_all_load_both(file, seq![bytes], common_slots());
    lemma_all_load_both(file, seq![bytes] + common_slots(), seq![matrix]);
    assert(seq![table][0] == table);
    assert(seq![bytes][0] == bytes);
    assert(seq![matrix][0] == matrix);
    if file.entry(tok_embeddings_name()) is Some {
        let entry = file.entry(tok_embeddings_name())->0;
        if entry.dims.len() == 2 {
            lemma_matrix_count(entry.dims);
        }
        if file.all_load(seq![table]) {
            assert(file.failure(table) is None);
            assert(file.failure(bytes) is None);
            assert(file.failure(matrix) is None);
        }
        if file.all_load(seq![bytes]) && entry.dims.len() == 2 {
            assert(file.failure(bytes) is None);
            assert(file.failure(table) is None);
        }
    } else {
        assert(file.failure(table) is Some);
    }
}

/// Token embeddings that are a matrix can be set up in the second phase exactly if
/// they are quantized, and are then those that loading at once gives.
pub proof fn law_finalize(file: GgufFile, parts: Q4TtsModelParts)
    requires
        file.all_load(deferred_slots()),
        parts.loaded_from(file),
        file.entry(tok_embeddings_name()) matches Some(entry) && entry.dims.len() == 2,
    ensures
        is_quantized(parts.tok_embed_dtype) ==> parts.finalize_failure() is None,
        is_quantized(parts.tok_embed_dtype) ==> file.table_value(tok_embeddings_name())
            == (FloatTensorView {
            shape: parts.tok_embed_shape@,
            values: FloatsView::Scaled(parts.tok_embeddings().values()),
        }),
        !is_quantized(parts.tok_embed_dtype) ==> parts.finalize_failure() == Some(
            TensorError::Quant {
                error: QuantError::UnsupportedDtype { dtype: parts.tok_embed_dtype },
            },
        ),
{
    let entry = file.entry(tok_embeddings_name())->0;
    lemma_matrix_count(entry.dims);
    assert(parts.tok_embed_shape@ =~= seq![shape_of(entry)[0], shape_of(entry)[1]]);
}

impl Q4TtsDecoderLayer {
    /// Whether two layers have the same weights.
    pub open spec fn same_weights(self, other: Q4TtsDecoderLayer) -> bool {
        &&& self.attention_norm.weight@ == other.attention_norm.weight@
        &&& self.attention.wq@ == other.attention.wq@
        &&& self.attention.wk@ == other.attention.wk@
        &&& self.attention.wv@ == other.attention.wv@
        &&& self.attention.wo@ == other.attention.wo@
        &&& self.ffn_norm.weight@ == other.ffn_norm.weight@
        &&& self.ffn.w1@ == other.ffn.w1@
        &&& self.ffn.w2@ == other.ffn.w2@
        &&& self.ffn.w3@ == other.ffn.w3@
    }
}

/// The layers of a model that was loaded in two phases and finalized have the weights
/// that loading at once gives.
pub proof fn law_same_layers(
    file: GgufFile,
    backbone: Q4TtsBackbone,
    parts: Q4TtsModelParts,
    finalized: Seq<Q4TtsDecoderLayer>,
    i: int,
)
    requires
        backbone.loaded_from(file),
        parts.loaded_from(file),
        finalized.len() == parts.backbone_layers@.len(),
        forall|k: int|
            0 <= k < finalized.len() ==> (#[trigger] finalized[k]).is_fused(
                parts.backbone_layers@[k],
            ),
        0 <= i < finalized.len(),
    ensures
        finalized.len() == backbone.layers@.len(),
        finalized[i].same_weights(backbone.layers@[i]),
{
    let a = finalized[i];
    assert(a.is_fused(parts.backbone_layers@[i]));
    assert(parts.backbone_layers@[i].loaded_from(
        file,
        "layers."@ + decimal(i as nat),
        parts.config,
    ));
    assert(backbone.layers@[i].loaded_from(file, "layers."@ + decimal(i as nat), backbone.config));
}

/// Fusing the projections of a layer once more changes nothing.
pub proof fn law_fusing_twice(
    layer: Q4TtsDecoderLayer,
    once: Q4TtsDecoderLayer,
    twice: Q4TtsDecoderLayer,
)
    requires
        once.is_fused(layer),
        twice.is_fused(once),
    ensures
        twice.is_fused(layer),
        twice.attention.fused_qkv is Some <==> once.attention.fused_qkv is Some,
        twice.attention.fused_qkv matches Some(f) ==> f@ == once.attention.fused_qkv->0@,
        twice.ffn.fused_gate_up is Some <==> once.ffn.fused_gate_up is Some,
        twice.ffn.fused_gate_up matches Some(f) ==> f@ == once.ffn.fused_gate_up->0@,
{
}

/// The number of elements with one more dimension in front.
proof fn lemma_count_front(d: usize, dims: Seq<usize>)
    ensures
        element_count(seq![d] + dims) == d * element_count(dims),
    decreases dims.len(),
{
    let more = seq![d] + dims;
    if dims.len() == 0 {
        reveal_with_fuel(element_count, 2);
        assert(more.drop_last() =~= dims);
        assert(1 * d == d * 1) by (nonlinear_arith);
    } else {
        lemma_count_front(d, dims.drop_last());
        assert(more.drop_last() =~= seq![d] + dims.drop_last());
        let a = element_count(dims.drop_last()) as int;
        let b = dims.last() as int;
        assert((d * a) * b == d * (a * b)) by (nonlinear_arith);
    }
}

/// The order of the dimensions does not matter for the number of elements.
proof fn lemma_count_reverse(dims: Seq<usize>)
    ensures
        element_count(dims.reverse()) == element_count(dims),
    decreases dims.len(),
{
    if dims.len() == 0 {
        assert(dims.reverse() =~= dims);
    } else {
        let init = dims.drop_last();
        lemma_count_reverse(init);
        lemma_count_front(dims.last(), init.reverse());
        assert(dims.reverse() =~= seq![dims.last()] + init.reverse());
        let a = element_count(init) as int;
        let b = dims.last() as int;
        assert(a * b == b * a) by (nonlinear_arith);
    }
}

/// A tensor of floats has the wanted rank, and as many numbers as its shape says.
pub proof fn law_floats_fill_shape(file: GgufFile, name: Seq<char>, rank: usize)
    requires
        file.float_failure(name, rank) is None,
    ensures
        file.float_value(name).shape.len() == rank,
        file.float_value(name).values.count() == element_count(file.float_value(name).shape),
{
    lemma_count_reverse(file.entry(name)->0.dims);
}

/// A table of floats has rows and columns, and as many numbers as its shape says.
pub proof fn law_table_fills_shape(file: GgufFile, name: Seq<char>)
    requires
        file.table_failure(name) is None,
    ensures
        file.table_value(name).shape.len() == 2,
        file.table_value(name).values.count() == element_count(file.table_value(name).shape),
{
    let entry = file.entry(name)->0;
    if is_quantized(entry.dtype) {
        let shape = file.table_value(name).shape;
        lemma_matrix_count(shape);
        assert(shape.reverse()[0] == shape[1] && shape.reverse()[1] == shape[0]);
        let a = shape[0] as int;
        let b = shape[1] as int;
        assert(a * b == b * a) by (nonlinear_arith);
    } else {
        law_floats_fill_shape(file, name, 2);
    }
}

} // verus!
