//! Why fused projections can stand in for separate ones.

use vstd::arithmetic::div_mod::{lemma_fundamental_div_mod, lemma_fundamental_div_mod_converse};
use vstd::prelude::*;

use crate::gguf::laws::{law_narrow_rows, law_stack_values, row};
use crate::gguf::linear::{
    fused_gate_up, fused_qkv, in_columns, is_narrowed, Activations, Columns, FusedGateUpView,
    FusedQkvView,
};
use crate::gguf::tensor::{lemma_stack_valid, stack, stackable, QuantView, ScaledInt};
use crate::gguf::tts_model::Q4TtsDecoderLayer;

verus! {

/// Row number `r` of a table lies in the table.
proof fn lemma_row_fits(rows: int, width: int, r: int)
    requires
        0 <= r < rows,
        0 <= width,
    ensures
        0 <= r * width,
        r * width + width <= rows * width,
{
    assert(0 <= r * width) by (nonlinear_arith)
        requires
            0 <= r,
            0 <= width,
    ;
    assert(r * width + width <= rows * width) by (nonlinear_arith)
        requires
            r + 1 <= rows,
            0 <= width,
    ;
}

/// A table is given by its rows.
proof fn lemma_same_rows(a: Seq<u32>, b: Seq<u32>, width: int, rows: int)
    requires
        0 < width,
        0 <= rows,
        a.len() == rows * width,
        b.len() == rows * width,
        forall|r: int| 0 <= r < rows ==> #[trigger] row(a, width, r) == row(b, width, r),
    ensures
        a == b,
{
    assert forall|i: int| 0 <= i < a.len() implies a[i] == b[i] by {
        let r = i / width;
        let c = i % width;
        lemma_fundamental_div_mod(i, width);
        assert(0 <= r < rows) by (nonlinear_arith)
            requires
                0 <= i < rows * width,
                0 < width,
                i == width * r + c,
                0 <= c < width,
        ;
        assert(width * r == r * width) by (nonlinear_arith);
        lemma_row_fits(rows, width, r);
        assert(row(a, width, r) == row(b, width, r));
        assert(row(a, width, r)[c] == a[i]);
        assert(row(b, width, r)[c] == b[i]);
    }
    assert(a =~= b);
}

/// Columns whose part of each row is the row of `part` are `part`.
proof fn lemma_columns_are(
    values: Seq<u32>,
    width: int,
    columns: Columns,
    part: Seq<u32>,
    rows: int,
)
    requires
        0 <= rows,
        0 < columns.len,
        columns.start + columns.len <= width,
        values.len() == rows * width,
        part.len() == rows * columns.len,
        forall|r: int|
            0 <= r < rows ==> (#[trigger] row(values, width, r)).subrange(
                columns.start as int,
                columns.start + columns.len,
            ) == row(part, columns.len as int, r),
    ensures
        in_columns(values, width, columns) == part,
{
    let narrowed = in_columns(values, width, columns);
    lemma_fundamental_div_mod_converse(values.len() as int, width, rows, 0);
    assert(0 <= rows * columns.len) by (nonlinear_arith)
        requires
            0 <= rows,
            0 <= columns.len,
    ;
    assert forall|r: int| 0 <= r < rows implies #[trigger] row(narrowed, columns.len as int, r)
        == row(part, columns.len as int, r) by {
        law_narrow_rows(values, width, columns, rows, r);
        assert(row(values, width, r).subrange(
            columns.start as int,
            columns.start + columns.len,
        ) == row(part, columns.len as int, r));
    }
    lemma_same_rows(narrowed, part, columns.len as int, rows);
}

/// Splitting an output keeps its first two dimensions, and number `c` of a part is number
/// `start + c` of the output in the same place.
pub proof fn law_parts_in_place(
    t: Activations,
    columns: Columns,
    part: Activations,
    b: int,
    m: int,
    c: int,
)
    requires
        t.valid(),
        0 < columns.len,
        columns.start + columns.len <= t.shape[2],
        is_narrowed(part, t, columns),
        0 <= b < t.shape[0],
        0 <= m < t.shape[1],
        0 <= c < columns.len,
    ensures
        part.shape[0] == t.shape[0],
        part.shape[1] == t.shape[1],
        part.shape[2] == columns.len,
        part.values@.len() == t.shape[0] * t.shape[1] * columns.len,
        part.values@[(b * t.shape[1] + m) * columns.len + c] == t.values@[(b * t.shape[1] + m)
            * t.shape[2] + columns.start + c],
{
    let rows = t.shape[0] * t.shape[1];
    let width = t.shape[2] as int;
    let len = columns.len as int;
    let r = b * t.shape[1] + m;
    assert(0 <= r < rows) by (nonlinear_arith)
        requires
            0 <= b < t.shape[0],
            0 <= m < t.shape[1],
            r == b * t.shape[1] + m,
            rows == t.shape[0] * t.shape[1],
    ;
    law_narrow_rows(t.values@, width, columns, rows, r);
    lemma_row_fits(rows, width, r);
    lemma_row_fits(rows, len, r);
    let whole = row(t.values@, width, r);
    let split = row(part.values@, len, r);
    assert(split[c] == part.values@[r * len + c]);
    assert(split[c] == whole[columns.start + c]);
}

/// Where the parts of a fused output lie: one behind the other, from the start of a row.
pub proof fn law_part_columns(qkv: FusedQkvView, gate_up: FusedGateUpView)
    requires
        qkv.q_out + qkv.k_out <= usize::MAX,
    ensures
        qkv.columns().0 == (Columns { start: 0, len: qkv.q_out }),
        qkv.columns().1 == (Columns { start: qkv.q_out, len: qkv.k_out }),
        qkv.columns().2.start == qkv.q_out + qkv.k_out,
        qkv.columns().2.len == qkv.v_out,
        gate_up.columns().0 == (Columns { start: 0, len: gate_up.gate_out }),
        gate_up.columns().1 == (Columns { start: gate_up.gate_out, len: gate_up.up_out }),
{
}

/// A layer with fused projections is the same layer, with the blocks of the queries, keys
/// and values, and those of `w1` and `w3`, one behind the other; projections are fused
/// whenever they can be.
pub proof fn law_fused_layer(old: Q4TtsDecoderLayer, new: Q4TtsDecoderLayer)
    requires
        new.is_fused(old),
        old.attention.wq@.weights.rows <= usize::MAX,
        old.attention.wk@.weights.rows <= usize::MAX,
        old.attention.wv@.weights.rows <= usize::MAX,
        old.ffn.w1@.weights.rows <= usize::MAX,
        old.ffn.w3@.weights.rows <= usize::MAX,
    ensures
        new.attention_norm == old.attention_norm,
        new.ffn_norm == old.ffn_norm,
        new.attention.wq == old.attention.wq,
        new.attention.wk == old.attention.wk,
        new.attention.wv == old.attention.wv,
        new.attention.wo == old.attention.wo,
        new.attention.n_heads == old.attention.n_heads,
        new.attention.n_kv_heads == old.attention.n_kv_heads,
        new.attention.head_dim == old.attention.head_dim,
        new.attention.sliding_window == old.attention.sliding_window,
        new.ffn.w1 == old.ffn.w1,
        new.ffn.w2 == old.ffn.w2,
        new.ffn.w3 == old.ffn.w3,
        new.attention.fused_qkv matches Some(f) ==> {
            &&& f@.weights.raw == old.attention.wq@.weights.raw + old.attention.wk@.weights.raw
                + old.attention.wv@.weights.raw
            &&& f@.weights.rows == old.attention.wq@.weights.rows + old.attention.wk@.weights.rows
                + old.attention.wv@.weights.rows
            &&& f@.weights.cols == old.attention.wq@.weights.cols
            &&& f@.weights.dtype == old.attention.wq@.weights.dtype
            &&& f@.q_out == old.attention.wq@.weights.rows
            &&& f@.k_out == old.attention.wk@.weights.rows
            &&& f@.v_out == old.attention.wv@.weights.rows
        },
        new.ffn.fused_gate_up matches Some(f) ==> {
            &&& f@.weights.raw == old.ffn.w1@.weights.raw + old.ffn.w3@.weights.raw
            &&& f@.weights.rows == old.ffn.w1@.weights.rows + old.ffn.w3@.weights.rows
            &&& f@.weights.cols == old.ffn.w1@.weights.cols
            &&& f@.weights.dtype == old.ffn.w1@.weights.dtype
            &&& f@.gate_out == old.ffn.w1@.weights.rows
            &&& f@.up_out == old.ffn.w3@.weights.rows
        },
        new.attention.fused_qkv is Some <==> stackable(
            old.attention.wq@.weights,
            old.attention.wk@.weights,
        ) && stackable(
            stack(old.attention.wq@.weights, old.attention.wk@.weights),
            old.attention.wv@.weights,
        ),
        new.ffn.fused_gate_up is Some <==> stackable(old.ffn.w1@.weights, old.ffn.w3@.weights),
{
}

/// If each row of a product consists of a row of `q`, one of `k` and one of `v`, then
/// splitting it gives `q`, `k` and `v`.
pub proof fn law_split_of_joined(
    f: FusedQkvView,
    fused: Seq<u32>,
    q: Seq<u32>,
    k: Seq<u32>,
    v: Seq<u32>,
    rows: int,
)
    requires
        f.splits(f.q_out + f.k_out + f.v_out),
        f.q_out + f.k_out <= usize::MAX,
        0 <= rows,
        fused.len() == rows * (f.q_out + f.k_out + f.v_out),
        q.len() == rows * f.q_out,
        k.len() == rows * f.k_out,
        v.len() == rows * f.v_out,
        forall|r: int|
            0 <= r < rows ==> #[trigger] row(fused, f.q_out + f.k_out + f.v_out, r) == row(
                q,
                f.q_out as int,
                r,
            ) + row(k, f.k_out as int, r) + row(v, f.v_out as int, r),
    ensures
        in_columns(fused, f.q_out + f.k_out + f.v_out, f.columns().0) == q,
        in_columns(fused, f.q_out + f.k_out + f.v_out, f.columns().1) == k,
        in_columns(fused, f.q_out + f.k_out + f.v_out, f.columns().2) == v,
{
    let width = f.q_out + f.k_out + f.v_out;
    let (a, b, c) = f.columns();
    assert forall|r: int| 0 <= r < rows implies ({
        &&& (#[trigger] row(fused, width, r)).subrange(0, a.len as int) == row(q, a.len as int, r)
        &&& row(fused, width, r).subrange(b.start as int, b.start + b.len) == row(
            k,
            b.len as int,
            r,
        )
        &&& row(fused, width, r).subrange(c.start as int, c.start + c.len) == row(
            v,
            c.len as int,
            r,
        )
    }) by {
        lemma_row_fits(rows, f.q_out as int, r);
        lemma_row_fits(rows, f.k_out as int, r);
        lemma_row_fits(rows, f.v_out as int, r);
        let whole = row(fused, width, r);
        assert(whole.subrange(0, a.len as int) =~= row(q, a.len as int, r));
        assert(whole.subrange(b.start as int, b.start + b.len) =~= row(k, b.len as int, r));
        assert(whole.subrange(c.start as int, c.start + c.len) =~= row(v, c.len as int, r));
    }
    lemma_columns_are(fused, width, a, q, rows);
    lemma_columns_are(fused, width, b, k, rows);
    lemma_columns_are(fused, width, c, v, rows);
}

/// If each row of a product consists of a row of `gate` and one of `up`, then splitting
/// it gives `gate` and `up`.
pub proof fn law_gate_up_of_joined(
    f: FusedGateUpView,
    fused: Seq<u32>,
    gate: Seq<u32>,
    up: Seq<u32>,
    rows: int,
)
    requires
        f.splits(f.gate_out + f.up_out),
        0 <= rows,
        fused.len() == rows * (f.gate_out + f.up_out),
        gate.len() == rows * f.gate_out,
        up.len() == rows * f.up_out,
        forall|r: int|
            0 <= r < rows ==> #[trigger] row(fused, f.gate_out + f.up_out, r) == row(
                gate,
                f.gate_out as int,
                r,
            ) + row(up, f.up_out as int, r),
    ensures
        in_columns(fused, f.gate_out + f.up_out, f.columns().0) == gate,
        in_columns(fused, f.gate_out + f.up_out, f.columns().1) == up,
{
    let width = f.gate_out + f.up_out;
    let (a, b) = f.columns();
    assert forall|r: int| 0 <= r < rows implies ({
        &&& (#[trigger] row(fused, width, r)).subrange(0, a.len as int) == row(
            gate,
            a.len as int,
            r,
        )
        &&& row(fused, width, r).subrange(b.start as int, b.start + b.len) == row(
            up,
            b.len as int,
            r,
        )
    }) by {
        lemma_row_fits(rows, f.gate_out as int, r);
        lemma_row_fits(rows, f.up_out as int, r);
        let whole = row(fused, width, r);
        assert(whole.subrange(0, a.len as int) =~= row(gate, a.len as int, r));
        assert(whole.subrange(b.start as int, b.start + b.len) =~= row(up, b.len as int, r));
    }
    lemma_columns_are(fused, width, a, gate, rows);
    lemma_columns_are(fused, width, b, up, rows);
}

/// Row number `n` of a matrix.
pub open spec fn weight_row(w: QuantView, n: int) -> Seq<ScaledInt> {
    w.values().subrange(n * w.cols, n * w.cols + w.cols)
}

/// The product of `rows` input rows in `x` with the rows of `w`, whatever function `dot`
/// of an input row and a row of weights gives its numbers.
pub open spec fn product(
    dot: spec_fn(Seq<u32>, Seq<ScaledInt>) -> u32,
    x: Seq<u32>,
    rows: nat,
    w: QuantView,
) -> Seq<u32> {
    Seq::new(
        rows * w.rows,
        |i: int| dot(row(x, w.cols as int, i / w.rows as int), weight_row(w, i % w.rows as int)),
    )
}

/// A row of a product.
proof fn lemma_product_row(
    dot: spec_fn(Seq<u32>, Seq<ScaledInt>) -> u32,
    x: Seq<u32>,
    rows: nat,
    w: QuantView,
    r: int,
)
    requires
        0 < w.rows,
        0 <= r < rows,
    ensures
        row(product(dot, x, rows, w), w.rows as int, r) == Seq::new(
            w.rows,
            |c: int| dot(row(x, w.cols as int, r), weight_row(w, c)),
        ),
{
    let all = product(dot, x, rows, w);
    let n = w.rows as int;
    lemma_row_fits(rows as int, n, r);
    let expected = Seq::new(w.rows, |c: int| dot(row(x, w.cols as int, r), weight_row(w, c)));
    assert forall|c: int| 0 <= c < n implies row(all, n, r)[c] == expected[c] by {
        lemma_fundamental_div_mod_converse(r * n + c, n, r, c);
        assert(row(all, n, r)[c] == all[r * n + c]);
    }
    assert(row(all, n, r) =~= expected);
}

/// The rows of stacked matrices.
proof fn lemma_stacked_row(a: QuantView, b: QuantView, n: int)
    requires
        a.valid(),
        b.valid(),
        a.dtype == b.dtype,
        a.cols == b.cols,
        0 <= n < a.rows + b.rows,
    ensures
        weight_row(stack(a, b), n) == if n < a.rows {
            weight_row(a, n)
        } else {
            weight_row(b, n - a.rows)
        },
{
    law_stack_values(a, b);
    let cols = a.cols as int;
    let whole = stack(a, b).values();
    assert(whole == a.values() + b.values());
    if n < a.rows {
        lemma_row_fits(a.rows as int, cols, n);
        assert(weight_row(stack(a, b), n) =~= weight_row(a, n));
    } else {
        lemma_row_fits(b.rows as int, cols, n - a.rows);
        assert(n * cols == a.rows * cols + (n - a.rows) * cols) by (nonlinear_arith);
        assert(weight_row(stack(a, b), n) =~= weight_row(b, n - a.rows));
    }
}

/// The rows of a product with stacked matrices.
proof fn lemma_product_of_stack(
    dot: spec_fn(Seq<u32>, Seq<ScaledInt>) -> u32,
    x: Seq<u32>,
    rows: nat,
    a: QuantView,
    b: QuantView,
    r: int,
)
    requires
        a.valid(),
        b.valid(),
        a.dtype == b.dtype,
        a.cols == b.cols,
        0 < a.rows,
        0 < b.rows,
        0 <= r < rows,
    ensures
        row(product(dot, x, rows, stack(a, b)), (a.rows + b.rows) as int, r) == row(
            product(dot, x, rows, a),
            a.rows as int,
            r,
        ) + row(product(dot, x, rows, b), b.rows as int, r),
{
    let both = stack(a, b);
    lemma_product_row(dot, x, rows, both, r);
    lemma_product_row(dot, x, rows, a, r);
    lemma_product_row(dot, x, rows, b, r);
    let whole = row(product(dot, x, rows, both), (a.rows + b.rows) as int, r);
    let left = row(product(dot, x, rows, a), a.rows as int, r);
    let right = row(product(dot, x, rows, b), b.rows as int, r);
    assert forall|c: int| 0 <= c < whole.len() implies whole[c] == (left + right)[c] by {
        lemma_stacked_row(a, b, c);
    }
    assert(whole =~= left + right);
}

/// Splitting the product with a fused Q/K/V projection gives the products with the three
/// projections.
pub proof fn law_fused_qkv_product(
    dot: spec_fn(Seq<u32>, Seq<ScaledInt>) -> u32,
    x: Seq<u32>,
    rows: nat,
    q: QuantView,
    k: QuantView,
    v: QuantView,
)
    requires
        q.valid(),
        k.valid(),
        v.valid(),
        fused_qkv(q, k, v) is Some,
        0 < q.rows <= usize::MAX,
        0 < k.rows <= usize::MAX,
        0 < v.rows <= usize::MAX,
    ensures
        ({
            let f = fused_qkv(q, k, v)->0;
            let fused = product(dot, x, rows, f.weights);
            let width = f.weights.rows as int;
            &&& f.splits(width)
            &&& in_columns(fused, width, f.columns().0) == product(dot, x, rows, q)
            &&& in_columns(fused, width, f.columns().1) == product(dot, x, rows, k)
            &&& in_columns(fused, width, f.columns().2) == product(dot, x, rows, v)
        }),
{
    let f = fused_qkv(q, k, v)->0;
    let qk = stack(q, k);
    let fused = product(dot, x, rows, f.weights);
    lemma_stack_valid(q, k);
    assert forall|r: int| 0 <= r < rows implies #[trigger] row(
        fused,
        f.q_out + f.k_out + f.v_out,
        r,
    ) == row(product(dot, x, rows, q), f.q_out as int, r) + row(
        product(dot, x, rows, k),
        f.k_out as int,
        r,
    ) + row(product(dot, x, rows, v), f.v_out as int, r) by {
        lemma_product_of_stack(dot, x, rows, qk, v, r);
        lemma_product_of_stack(dot, x, rows, q, k, r);
    }
    law_split_of_joined(
        f,
        fused,
        product(dot, x, rows, q),
        product(dot, x, rows, k),
        product(dot, x, rows, v),
        rows as int,
    );
}

/// Splitting the product with a fused gate and up projection gives the products with the
/// two projections.
pub proof fn law_fused_gate_up_product(
    dot: spec_fn(Seq<u32>, Seq<ScaledInt>) -> u32,
    x: Seq<u32>,
    rows: nat,
    gate: QuantView,
    up: QuantView,
)
    requires
        gate.valid(),
        up.valid(),
        fused_gate_up(gate, up) is Some,
        0 < gate.rows <= usize::MAX,
        0 < up.rows <= usize::MAX,
    ensures
        ({
            let f = fused_gate_up(gate, up)->0;
            let fused = product(dot, x, rows, f.weights);
            let width = f.weights.rows as int;
            &&& f.splits(width)
            &&& in_columns(fused, width, f.columns().0) == product(dot, x, rows, gate)
            &&& in_columns(fused, width, f.columns().1) == product(dot, x, rows, up)
        }),
{
    let f = fused_gate_up(gate, up)->0;
    let fused = product(dot, x, rows, f.weights);
    assert forall|r: int| 0 <= r < rows implies #[trigger] row(fused, f.gate_out + f.up_out, r)
        == row(product(dot, x, rows, gate), f.gate_out as int, r) + row(
        product(dot, x, rows, up),
        f.up_out as int,
        r,
    ) by {
        lemma_product_of_stack(dot, x, rows, gate, up, r);
    }
    law_gate_up_of_joined(
        f,
        fused,
        product(dot, x, rows, gate),
        product(dot, x, rows, up),
        rows as int,
    );
}

} // verus!
