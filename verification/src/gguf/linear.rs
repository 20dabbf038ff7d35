//! Quantized linear layers (Q4_0 and Q8_0).
//!
//! A layer holds its weights; the product of its input with the weights is
//! computed on the GPU. Projections that share their input can be fused into one
//! product, whose result is then split again.

use vstd::arithmetic::div_mod::{lemma_fundamental_div_mod, lemma_fundamental_div_mod_converse};
use vstd::prelude::*;

use crate::gguf::floats::{FloatTensor, FloatTensorView};
use crate::gguf::tensor::{stack, stackable, Q4Tensor, QuantView};

verus! {

/// A linear layer with quantized weights (Q4_0 or Q8_0).
///
/// Stores weights as `[out_features, in_features]` and an optional bias vector.
/// It maps `x` to `x @ weights^T + bias`.
pub struct Q4Linear {
    weights: Q4Tensor,
    bias: Option<FloatTensor>,
}

/// What a [`Q4Linear`] stands for.
pub struct LinearView {
    pub weights: QuantView,
    pub bias: Option<FloatTensorView>,
}

impl View for Q4Linear {
    type V = LinearView;

    closed spec fn view(&self) -> LinearView {
        LinearView {
            weights: self.weights@,
            bias: match self.bias {
                Some(b) => Some(b@),
                None => None,
            },
        }
    }
}

impl Q4Linear {
    /// Create a new quantized linear layer.
    ///
    /// `weights` shape must be `[out_features, in_features]`.
    pub fn new(weights: Q4Tensor, bias: Option<FloatTensor>) -> (r: Self)
        ensures
            r@.weights == weights@,
            match bias {
                Some(b) => r@.bias == Some(b@),
                None => r@.bias is None,
            },
    {
        Q4Linear { weights, bias }
    }

    /// Access the underlying quantized weight tensor.
    pub fn weights(&self) -> (r: &Q4Tensor)
        ensures
            r@ == self@.weights,
    {
        &self.weights
    }

    /// Access the bias vector.
    pub fn bias(&self) -> (r: Option<&FloatTensor>)
        ensures
            match r {
                Some(b) => self@.bias == Some(b@),
                None => self@.bias is None,
            },
    {
        match &self.bias {
            Some(b) => Some(b),
            None => None,
        }
    }
}

/// The output of a layer: a tensor of three dimensions, the last of which varies
/// fastest, as the bit patterns of 32-bit floats.
pub struct Activations {
    pub shape: [usize; 3],
    pub values: Vec<u32>,
}

impl Activations {
    /// There are as many numbers as the shape says.
    pub open spec fn valid(self) -> bool {
        self.values@.len() == self.shape[0] * self.shape[1] * self.shape[2]
    }
}

/// Columns of a table that is stored row after row.
#[derive(Clone, Copy, Debug, PartialEq, Eq, Structural)]
pub struct Columns {
    pub start: usize,
    pub len: usize,
}

/// What a table with rows of `width` numbers holds in the given columns, row
/// after row.
pub open spec fn in_columns(values: Seq<u32>, width: int, columns: Columns) -> Seq<u32> {
    Seq::new(
        (values.len() as int / width * columns.len) as nat,
        |i: int| values[i / columns.len as int * width + columns.start + i % columns.len as int],
    )
}

/// Whether `r` is what `t` holds in the given columns.
pub open spec fn is_narrowed(r: Activations, t: Activations, columns: Columns) -> bool {
    &&& r.shape[0] == t.shape[0]
    &&& r.shape[1] == t.shape[1]
    &&& r.shape[2] == columns.len
    &&& r.values@ == in_columns(t.values@, t.shape[2] as int, columns)
    &&& r.valid()
}

/// Element number `i` of the columns of a table lies in the table.
proof fn lemma_in_table(rows: int, width: int, columns: Columns, i: int)
    requires
        0 < columns.len,
        columns.start + columns.len <= width,
        0 <= i < rows * columns.len,
    ensures
        0 <= i / columns.len as int,
        i / columns.len as int * width + columns.start + i % columns.len as int <= (rows - 1)
            * width + width - 1,
        0 <= i / columns.len as int * width,
        (i / columns.len as int) < rows,
{
    let len = columns.len as int;
    let row = i / len;
    lemma_fundamental_div_mod(i, len);
    assert(0 <= row < rows) by (nonlinear_arith)
        requires
            0 <= i < rows * len,
            0 < len,
            i == len * row + i % len,
            0 <= i % len < len,
    ;
    assert(row * width <= (rows - 1) * width) by (nonlinear_arith)
        requires
            row <= rows - 1,
            0 <= width,
    ;
    assert(0 <= row * width) by (nonlinear_arith)
        requires
            0 <= row,
            0 <= width,
    ;
}

/// What `t` holds in the given columns.
fn narrow(t: &Activations, columns: Columns) -> (r: Activations)
    requires
        t.valid(),
        0 < columns.len,
        columns.start + columns.len <= t.shape[2],
    ensures
        is_narrowed(r, *t, columns),
{
    let width: usize = t.shape[2];
    let rows: usize = t.values.len() / width;
    let ghost planes = t.shape[0] * t.shape[1];
    proof {
        assert(rows == planes) by {
            lemma_fundamental_div_mod_converse(t.values@.len() as int, width as int, planes, 0);
        }
        assert(rows * width == t.values@.len());
        assert(rows * columns.len <= rows * width) by (nonlinear_arith)
            requires
                columns.len <= width,
                0 <= rows,
        ;
    }
    let count: usize = rows * columns.len;
    let mut values: Vec<u32> = Vec::with_capacity(count);
    let mut i: usize = 0;
    while i < count
        invariant
            i <= count,
            count == rows * columns.len,
            width == t.shape[2],
            rows == t.values@.len() as int / width as int,
            rows * width == t.values.len(),
            0 < columns.len,
            columns.start + columns.len <= width,
            values@ == in_columns(t.values@, width as int, columns).take(i as int),
        decreases count - i,
    {
        proof {
            lemma_in_table(rows as int, width as int, columns, i as int);
            assert((rows - 1) * width + width == rows * width) by (nonlinear_arith);
        }
        values.push(t.values[i / columns.len * width + columns.start + i % columns.len]);
        i = i + 1;
        assert(values@ =~= in_columns(t.values@, width as int, columns).take(i as int));
    }
    assert(values@ =~= in_columns(t.values@, width as int, columns));
    Activations { shape: [t.shape[0], t.shape[1], columns.len], values }
}

/// Fused Q/K/V projection: stores concatenated quantized weights and splits output.
///
/// Instead of 3 separate products for wq, wk, wv, uses a single concatenated weight
/// matrix `[q_out + k_out + v_out, in_features]`.
pub struct Q4FusedQKV {
    weights: Q4Tensor,
    q_out: usize,
    k_out: usize,
    v_out: usize,
}

/// What a [`Q4FusedQKV`] stands for.
pub struct FusedQkvView {
    pub weights: QuantView,
    pub q_out: usize,
    pub k_out: usize,
    pub v_out: usize,
}

impl View for Q4FusedQKV {
    type V = FusedQkvView;

    closed spec fn view(&self) -> FusedQkvView {
        FusedQkvView {
            weights: self.weights@,
            q_out: self.q_out,
            k_out: self.k_out,
            v_out: self.v_out,
        }
    }
}

impl FusedQkvView {
    /// The columns of the output that belong to each projection.
    pub open spec fn columns(self) -> (Columns, Columns, Columns) {
        (
            Columns { start: 0, len: self.q_out },
            Columns { start: self.q_out, len: self.k_out },
            Columns { start: (self.q_out + self.k_out) as usize, len: self.v_out },
        )
    }

    /// Whether an output with rows of `width` numbers can be split.
    pub open spec fn splits(self, width: int) -> bool {
        &&& 0 < self.q_out
        &&& 0 < self.k_out
        &&& 0 < self.v_out
        &&& self.q_out + self.k_out + self.v_out <= width
    }
}

/// The fused projection of three matrices, if they can be stacked.
pub open spec fn fused_qkv(q: QuantView, k: QuantView, v: QuantView) -> Option<FusedQkvView> {
    if stackable(q, k) && stackable(stack(q, k), v) {
        Some(
            FusedQkvView {
                weights: stack(stack(q, k), v),
                q_out: q.rows as usize,
                k_out: k.rows as usize,
                v_out: v.rows as usize,
            },
        )
    } else {
        None
    }
}

impl Q4FusedQKV {
    /// Fuses three projections that share their input.
    pub fn fuse(q: &Q4Tensor, k: &Q4Tensor, v: &Q4Tensor) -> (r: Option<Self>)
        ensures
            match r {
                Some(f) => fused_qkv(q@, k@, v@) == Some(f@),
                None => fused_qkv(q@, k@, v@) is None,
            },
    {
        let qk: Q4Tensor = match q.stacked(k) {
            Some(t) => t,
            None => {
                return None;
            },
        };
        match qk.stacked(v) {
            Some(weights) => Some(
                Q4FusedQKV::new(weights, q.shape()[0], k.shape()[0], v.shape()[0]),
            ),
            None => None,
        }
    }

    /// Create from a pre-built concatenated quantized tensor.
    pub fn new(weights: Q4Tensor, q_out: usize, k_out: usize, v_out: usize) -> (r: Self)
        ensures
            r@ == (FusedQkvView { weights: weights@, q_out, k_out, v_out }),
    {
        Q4FusedQKV { weights, q_out, k_out, v_out }
    }

    /// Access the concatenated quantized weight tensor.
    pub fn weights(&self) -> (r: &Q4Tensor)
        ensures
            r@ == self@.weights,
    {
        &self.weights
    }

    /// The columns of the output that belong to each projection, if their places are
    /// machine numbers.
    pub fn columns(&self) -> (r: Option<(Columns, Columns, Columns)>)
        ensures
            match r {
                Some(c) => self@.q_out + self@.k_out <= usize::MAX && c == self@.columns(),
                None => self@.q_out + self@.k_out > usize::MAX,
            },
    {
        match self.q_out.checked_add(self.k_out) {
            Some(qk_out) => Some(
                (
                    Columns { start: 0, len: self.q_out },
                    Columns { start: self.q_out, len: self.k_out },
                    Columns { start: qk_out, len: self.v_out },
                ),
            ),
            None => None,
        }
    }

    /// Splits the product of an input `[B, M, K]` with the weights into
    /// `(q [B, M, q_out], k [B, M, k_out], v [B, M, v_out])`.
    pub fn forward(&self, fused: &Activations) -> (r: (Activations, Activations, Activations))
        requires
            fused.valid(),
            self@.splits(fused.shape[2] as int),
        ensures
            is_narrowed(r.0, *fused, self@.columns().0),
            is_narrowed(r.1, *fused, self@.columns().1),
            is_narrowed(r.2, *fused, self@.columns().2),
    {
        let q: Columns = Columns { start: 0, len: self.q_out };
        let k: Columns = Columns { start: self.q_out, len: self.k_out };
        let v: Columns = Columns { start: self.q_out + self.k_out, len: self.v_out };
        (narrow(fused, q), narrow(fused, k), narrow(fused, v))
    }
}

/// Fused gate+up projection for SwiGLU: stores concatenated w1||w3 quantized weights.
///
/// Reduces 2 products to 1 per feed-forward layer.
pub struct Q4FusedGateUp {
    weights: Q4Tensor,
    gate_out: usize,
    up_out: usize,
}

/// What a [`Q4FusedGateUp`] stands for.
pub struct FusedGateUpView {
    pub weights: QuantView,
    pub gate_out: usize,
    pub up_out: usize,
}

impl View for Q4FusedGateUp {
    type V = FusedGateUpView;

    closed spec fn view(&self) -> FusedGateUpView {
        FusedGateUpView {
            weights: self.weights@,
            gate_out: self.gate_out,
            up_out: self.up_out,
        }
    }
}

impl FusedGateUpView {
    /// The columns of the output that belong to each projection.
    pub open spec fn columns(self) -> (Columns, Columns) {
        (
            Columns { start: 0, len: self.gate_out },
            Columns { start: self.gate_out, len: self.up_out },
        )
    }

    /// Whether an output with rows of `width` numbers can be split.
    pub open spec fn splits(self, width: int) -> bool {
        &&& 0 < self.gate_out
        &&& 0 < self.up_out
        &&& self.gate_out + self.up_out <= width
    }
}

/// The fused projection of two matrices, if they can be stacked.
pub open spec fn fused_gate_up(gate: QuantView, up: QuantView) -> Option<FusedGateUpView> {
    if stackable(gate, up) {
        Some(
            FusedGateUpView {
                weights: stack(gate, up),
                gate_out: gate.rows as usize,
                up_out: up.rows as usize,
            },
        )
    } else {
        None
    }
}

impl Q4FusedGateUp {
    /// Fuses two projections that share their input.
    pub fn fuse(gate: &Q4Tensor, up: &Q4Tensor) -> (r: Option<Self>)
        ensures
            match r {
                Some(f) => fused_gate_up(gate@, up@) == Some(f@),
                None => fused_gate_up(gate@, up@) is None,
            },
    {
        match gate.stacked(up) {
            Some(weights) => Some(Q4FusedGateUp::new(weights, gate.shape()[0], up.shape()[0])),
            None => None,
        }
    }

    /// Create from a pre-built concatenated quantized tensor.
    pub fn new(weights: Q4Tensor, gate_out: usize, up_out: usize) -> (r: Self)
        ensures
            r@ == (FusedGateUpView { weights: weights@, gate_out, up_out }),
    {
        Q4FusedGateUp { weights, gate_out, up_out }
    }

    /// Access the concatenated quantized weight tensor.
    pub fn weights(&self) -> (r: &Q4Tensor)
        ensures
            r@ == self@.weights,
    {
        &self.weights
    }

    /// The columns of the output that belong to each projection.
    pub fn columns(&self) -> (r: (Columns, Columns))
        ensures
            r == self@.columns(),
    {
        (
            Columns { start: 0, len: self.gate_out },
            Columns { start: self.gate_out, len: self.up_out },
        )
    }

    /// Splits the product of an input with the weights into `(gate, up)`.
    pub fn forward(&self, fused: &Activations) -> (r: (Activations, Activations))
        requires
            fused.valid(),
            self@.splits(fused.shape[2] as int),
        ensures
            is_narrowed(r.0, *fused, self@.columns().0),
            is_narrowed(r.1, *fused, self@.columns().1),
    {
        let (gate, up): (Columns, Columns) = self.columns();
        (narrow(fused, gate), narrow(fused, up))
    }
}

} // verus!
