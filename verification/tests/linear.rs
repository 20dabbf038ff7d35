use voxtral_mini_realtime::gguf::floats::{FloatBits, FloatTensor};
use voxtral_mini_realtime::gguf::linear::{
    Activations, Columns, Q4FusedGateUp, Q4FusedQKV, Q4Linear,
};
use voxtral_mini_realtime::gguf::model::{Q4Attention, Q4FeedForward};
use voxtral_mini_realtime::gguf::tensor::Q4Tensor;

/// A matrix of `rows` rows of 32 elements; the scale of row `r` is `first + r`.
fn matrix(rows: usize, first: u16) -> Q4Tensor {
    let mut raw = Vec::new();
    for r in 0..rows {
        raw.extend_from_slice(&(first + r as u16).to_le_bytes());
        raw.extend_from_slice(&[0x88; 16]);
    }
    Q4Tensor::from_q4_bytes(&raw, [rows, 32]).unwrap()
}

fn scales(t: &Q4Tensor) -> Vec<u16> {
    t.dequantize(t.image()).iter().step_by(32).map(|v| v.scale).collect()
}

#[test]
fn linear_layer_keeps_weights_and_bias() {
    let l = Q4Linear::new(matrix(2, 7), None);
    assert_eq!(l.weights().shape(), [2, 32]);
    assert!(l.bias().is_none());

    let bias = FloatTensor { shape: vec![2], values: FloatBits::Single(vec![0x3F80_0000, 0]) };
    let l = Q4Linear::new(matrix(2, 7), Some(bias));
    assert_eq!(scales(l.weights()), vec![7, 8]);
    let b = l.bias().unwrap();
    assert_eq!(b.shape, vec![2]);
    assert!(matches!(&b.values, FloatBits::Single(v) if v == &vec![0x3F80_0000, 0]));
}

#[test]
fn fused_qkv_splits_each_row() {
    let f = Q4FusedQKV::new(matrix(6, 0), 3, 2, 1);
    assert_eq!(
        f.columns(),
        Some((
            Columns { start: 0, len: 3 },
            Columns { start: 3, len: 2 },
            Columns { start: 5, len: 1 }
        ))
    );
    let out = Activations { shape: [1, 2, 6], values: (0..12).collect() };
    let (q, k, v) = f.forward(&out);
    assert_eq!(q.shape, [1, 2, 3]);
    assert_eq!(q.values, vec![0, 1, 2, 6, 7, 8]);
    assert_eq!(k.shape, [1, 2, 2]);
    assert_eq!(k.values, vec![3, 4, 9, 10]);
    assert_eq!(v.shape, [1, 2, 1]);
    assert_eq!(v.values, vec![5, 11]);
}

#[test]
fn fused_qkv_leaves_columns_that_nothing_names() {
    let f = Q4FusedQKV::new(matrix(6, 0), 1, 1, 1);
    let out = Activations { shape: [2, 1, 5], values: (0..10).collect() };
    let (q, k, v) = f.forward(&out);
    assert_eq!(q.values, vec![0, 5]);
    assert_eq!(k.values, vec![1, 6]);
    assert_eq!(v.values, vec![2, 7]);
    assert_eq!(v.shape, [2, 1, 1]);
}

#[test]
fn fused_gate_up_splits_each_row() {
    let f = Q4FusedGateUp::new(matrix(5, 0), 2, 3);
    assert_eq!(f.columns(), (Columns { start: 0, len: 2 }, Columns { start: 2, len: 3 }));
    let out = Activations { shape: [2, 1, 5], values: (10..20).collect() };
    let (gate, up) = f.forward(&out);
    assert_eq!(gate.shape, [2, 1, 2]);
    assert_eq!(gate.values, vec![10, 11, 15, 16]);
    assert_eq!(up.shape, [2, 1, 3]);
    assert_eq!(up.values, vec![12, 13, 14, 17, 18, 19]);
}

#[test]
fn split_rows_rejoin() {
    let f = Q4FusedQKV::fuse(&matrix(2, 0), &matrix(1, 0), &matrix(3, 0)).unwrap();
    let out = Activations { shape: [1, 3, 6], values: (100..118).collect() };
    let (q, k, v) = f.forward(&out);
    let mut again = Vec::new();
    for r in 0..3 {
        again.extend_from_slice(&q.values[2 * r..2 * r + 2]);
        again.extend_from_slice(&k.values[r..r + 1]);
        again.extend_from_slice(&v.values[3 * r..3 * r + 3]);
    }
    assert_eq!(again, out.values);
}

#[test]
fn splitting_joined_products_gives_the_products() {
    let q = [1u32, 2, 3, 4, 5, 6];
    let k = [10u32, 20, 30];
    let v = [100u32, 101, 200, 201, 300, 301];
    let mut joined = Vec::new();
    for r in 0..3 {
        joined.extend_from_slice(&q[2 * r..2 * r + 2]);
        joined.extend_from_slice(&k[r..r + 1]);
        joined.extend_from_slice(&v[2 * r..2 * r + 2]);
    }
    let f = Q4FusedQKV::fuse(&matrix(2, 0), &matrix(1, 0), &matrix(2, 0)).unwrap();
    let out = f.forward(&Activations { shape: [3, 1, 5], values: joined });
    assert_eq!(out.0.values, q);
    assert_eq!(out.1.values, k);
    assert_eq!(out.2.values, v);
}

#[test]
fn fused_products_split_into_the_separate_products() {
    // Any function of an input row and a row of weights will do for a product.
    let product = |x: &[u32], w: &Q4Tensor| -> Vec<u32> {
        let values = w.dequantize(w.image());
        let mut out = Vec::new();
        for input in x {
            for row in values.chunks(32) {
                out.push(input * 1000 + row[0].scale as u32);
            }
        }
        out
    };
    let x = [3, 7];
    let (w1, w3) = (matrix(2, 40), matrix(3, 60));
    let f = Q4FusedGateUp::fuse(&w1, &w3).unwrap();
    let fused = Activations { shape: [1, 2, 5], values: product(&x, f.weights()) };
    let (gate, up) = f.forward(&fused);
    assert_eq!(gate.values, product(&x, &w1));
    assert_eq!(up.values, product(&x, &w3));
}

#[test]
fn no_rows_split_into_no_rows() {
    let f = Q4FusedGateUp::new(matrix(2, 0), 1, 1);
    let (gate, up) = f.forward(&Activations { shape: [0, 4, 2], values: vec![] });
    assert_eq!(gate.shape, [0, 4, 1]);
    assert!(gate.values.is_empty());
    assert!(up.values.is_empty());
}

#[test]
fn fusing_stacks_the_projections() {
    let f = Q4FusedQKV::fuse(&matrix(4, 10), &matrix(2, 20), &matrix(1, 30)).unwrap();
    assert_eq!(f.weights().shape(), [7, 32]);
    assert_eq!(scales(f.weights()), vec![10, 11, 12, 13, 20, 21, 30]);
    let (_, k, v) = f.columns().unwrap();
    assert_eq!(k, Columns { start: 4, len: 2 });
    assert_eq!(v, Columns { start: 6, len: 1 });
    assert_eq!(Q4FusedQKV::new(matrix(1, 0), usize::MAX, 1, 1).columns(), None);

    let f = Q4FusedGateUp::fuse(&matrix(1, 5), &matrix(2, 9)).unwrap();
    assert_eq!(scales(f.weights()), vec![5, 9, 10]);
    assert_eq!(f.columns().1, Columns { start: 1, len: 2 });
}

#[test]
fn unlike_projections_are_not_fused() {
    let narrow = Q4Tensor::from_q4_bytes(&[0; 18], [2, 16]).unwrap();
    assert!(Q4FusedQKV::fuse(&matrix(1, 0), &matrix(1, 0), &narrow).is_none());
    assert!(Q4FusedQKV::fuse(&narrow, &matrix(1, 0), &matrix(1, 0)).is_none());
    assert!(Q4FusedGateUp::fuse(&matrix(1, 0), &narrow).is_none());
}

#[test]
fn attention_fuses_queries_keys_and_values() {
    let mut attention = Q4Attention {
        wq: Q4Linear::new(matrix(4, 10), None),
        wk: Q4Linear::new(matrix(2, 20), None),
        wv: Q4Linear::new(matrix(2, 30), None),
        wo: Q4Linear::new(matrix(4, 40), None),
        fused_qkv: None,
        n_heads: 4,
        n_kv_heads: 2,
        head_dim: 1,
        sliding_window: None,
    };
    attention.fuse_projections();
    let fused = attention.fused_qkv.as_ref().unwrap();
    assert_eq!(scales(fused.weights()), vec![10, 11, 12, 13, 20, 21, 30, 31]);
    assert_eq!(scales(attention.wq.weights()), vec![10, 11, 12, 13]);
    assert_eq!(scales(attention.wo.weights()), vec![40, 41, 42, 43]);
    assert_eq!(attention.n_heads, 4);
}

#[test]
fn feed_forward_fuses_gate_and_up() {
    let mut ffn = Q4FeedForward {
        w1: Q4Linear::new(matrix(2, 10), None),
        w2: Q4Linear::new(matrix(1, 20), None),
        w3: Q4Linear::new(matrix(2, 30), None),
        fused_gate_up: None,
    };
    ffn.fuse_projections();
    let fused = ffn.fused_gate_up.as_ref().unwrap();
    assert_eq!(scales(fused.weights()), vec![10, 11, 30, 31]);
    assert_eq!(scales(ffn.w2.weights()), vec![20]);
}
