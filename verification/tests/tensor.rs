use voxtral_mini_realtime::gguf::reader::GgmlDtype;
use voxtral_mini_realtime::gguf::tensor::{
    decode_elements, matrix_fits, Q4Tensor, QuantError, ScaledInt, Q4_BLOCK_BYTES, Q4_BLOCK_SIZE,
    Q8_BLOCK_BYTES, Q8_BLOCK_SIZE,
};

/// One Q4_0 block: the scale and sixteen bytes.
fn q4_block(scale: u16, bytes: [u8; 16]) -> Vec<u8> {
    let mut out = scale.to_le_bytes().to_vec();
    out.extend_from_slice(&bytes);
    out
}

/// One Q8_0 block: the scale and thirty-two elements.
fn q8_block(scale: u16, quants: [i8; 32]) -> Vec<u8> {
    let mut out = scale.to_le_bytes().to_vec();
    for q in quants {
        out.push(q as u8);
    }
    out
}

fn quants(values: &[ScaledInt]) -> Vec<i8> {
    values.iter().map(|v| v.quant).collect()
}

#[test]
fn block_constants() {
    assert_eq!(Q4_BLOCK_SIZE, 32);
    assert_eq!(Q4_BLOCK_BYTES, 18);
    assert_eq!(Q8_BLOCK_SIZE, 32);
    assert_eq!(Q8_BLOCK_BYTES, 34);
}

#[test]
fn q4_tensor_describes_its_matrix() {
    let mut raw = Vec::new();
    for i in 0..4u8 {
        raw.extend_from_slice(&q4_block(0x3C00, [i; 16]));
    }
    let t = Q4Tensor::from_q4_bytes(&raw, [2, 64]).unwrap();
    assert_eq!(t.shape(), [2, 64]);
    assert_eq!(t.num_blocks(), 4);
    assert_eq!(t.dtype(), GgmlDtype::Q4_0);
    assert_eq!(t.block_bytes(), 18);
}

#[test]
fn q8_tensor_describes_its_matrix() {
    let raw = q8_block(0x3C00, [1; 32]);
    let t = Q4Tensor::from_q8_bytes(&raw, [4, 8]).unwrap();
    assert_eq!(t.shape(), [4, 8]);
    assert_eq!(t.num_blocks(), 1);
    assert_eq!(t.dtype(), GgmlDtype::Q8_0);
    assert_eq!(t.block_bytes(), 34);
}

#[test]
fn q4_low_halves_come_before_high_halves() {
    let mut bytes = [0x88u8; 16];
    bytes[0] = 0xF0;
    bytes[1] = 0x19;
    let raw = q4_block(0x1234, bytes);
    let t = Q4Tensor::from_q4_bytes(&raw, [1, 32]).unwrap();
    let values = t.dequantize(t.image());
    assert_eq!(values.len(), 32);
    assert!(values.iter().all(|v| v.scale == 0x1234));
    let q = quants(&values);
    assert_eq!(q[0], -8);
    assert_eq!(q[1], 1);
    assert_eq!(q[2], 0);
    assert_eq!(q[16], 7);
    assert_eq!(q[17], -7);
    assert_eq!(q[18], 0);
}

#[test]
fn q8_elements_are_signed_bytes() {
    let mut block = [0i8; 32];
    block[0] = 127;
    block[1] = -128;
    block[2] = -1;
    block[31] = 64;
    let raw = q8_block(0xBEEF, block);
    let t = Q4Tensor::from_q8_bytes(&raw, [32, 1]).unwrap();
    let values = t.dequantize(t.image());
    assert_eq!(quants(&values), block.to_vec());
    assert!(values.iter().all(|v| v.scale == 0xBEEF));
}

#[test]
fn each_block_has_its_own_scale() {
    let mut raw = q8_block(1, [5; 32]);
    raw.extend_from_slice(&q8_block(2, [6; 32]));
    let t = Q4Tensor::from_quantized_bytes(&raw, [2, 32], GgmlDtype::Q8_0).unwrap();
    let values = t.dequantize(t.image());
    assert_eq!(values[31], ScaledInt { scale: 1, quant: 5 });
    assert_eq!(values[32], ScaledInt { scale: 2, quant: 6 });
    assert_eq!(values.len(), 64);
}

#[test]
fn dequantized_numbers_are_products() {
    let mut bytes = [0x88u8; 16];
    bytes[3] = 0x3F;
    let t = Q4Tensor::from_q4_bytes(&q4_block(0x3800, bytes), [1, 32]).unwrap();
    let values = t.dequantize(t.image());
    let number = |v: ScaledInt| half::f16::from_bits(v.scale).to_f32() * v.quant as f32;
    assert_eq!(number(values[3]), 3.5);
    assert_eq!(number(values[19]), -2.5);
    assert_eq!(number(values[0]), 0.0);
}

#[test]
fn image_is_padded_to_whole_words() {
    let one = q4_block(7, [9; 16]);
    let t = Q4Tensor::from_q4_bytes(&one, [1, 32]).unwrap();
    assert_eq!(t.image().len(), 20);
    assert_eq!(&t.image()[..18], one.as_slice());
    assert_eq!(&t.image()[18..], &[0, 0]);

    let mut two = one.clone();
    two.extend_from_slice(&one);
    let t = Q4Tensor::from_q4_bytes(&two, [2, 32]).unwrap();
    assert_eq!(t.image(), two.as_slice());
}

#[test]
fn buffer_gives_back_the_blocks() {
    let raw = q8_block(3, [-4; 32]);
    let t = Q4Tensor::from_q8_bytes(&raw, [1, 32]).unwrap();
    let mut buffer = t.image().to_vec();
    assert_eq!(buffer.len(), 36);
    buffer.extend_from_slice(&[0xAA; 100]);
    assert_eq!(t.read_bytes(&buffer), raw);
    assert_eq!(t.dequantize(&buffer), t.dequantize(t.image()));
    assert_eq!(t.read_bytes(&raw), raw);
}

#[test]
fn buffer_contents_decide_what_is_read() {
    let t = Q4Tensor::from_q8_bytes(&q8_block(3, [-4; 32]), [1, 32]).unwrap();
    let other = q8_block(5, [6; 32]);
    assert_eq!(t.read_bytes(&other), other);
    assert_eq!(t.dequantize(&other)[0], ScaledInt { scale: 5, quant: 6 });
}

#[test]
fn empty_matrix_is_accepted() {
    let t = Q4Tensor::from_q4_bytes(&[], [0, 64]).unwrap();
    assert_eq!(t.num_blocks(), 0);
    assert_eq!(t.image().len(), 0);
    assert_eq!(t.dequantize(&[]), Vec::new());
    assert_eq!(t.read_bytes(&[1, 2, 3]), Vec::<u8>::new());
}

#[test]
fn floats_are_no_quantized_matrix() {
    let e = Q4Tensor::from_quantized_bytes(&[0; 128], [1, 32], GgmlDtype::F32).err().unwrap();
    assert_eq!(e, QuantError::UnsupportedDtype { dtype: GgmlDtype::F32 });
    let e = Q4Tensor::from_quantized_bytes(&[0; 3], [1, 7], GgmlDtype::F16).err().unwrap();
    assert_eq!(e, QuantError::UnsupportedDtype { dtype: GgmlDtype::F16 });
}

#[test]
fn elements_must_fill_whole_blocks() {
    let e = Q4Tensor::from_q4_bytes(&[0; 18], [3, 11]).err().unwrap();
    assert_eq!(e, QuantError::PartialBlock { dtype: GgmlDtype::Q4_0, num_elements: 33 });
    let e = Q4Tensor::from_q8_bytes(&[0; 34], [1, 31]).err().unwrap();
    assert_eq!(e, QuantError::PartialBlock { dtype: GgmlDtype::Q8_0, num_elements: 31 });
}

#[test]
fn byte_count_must_match() {
    let e = Q4Tensor::from_q4_bytes(&[0; 37], [2, 32]).err().unwrap();
    assert_eq!(
        e,
        QuantError::ByteCount { dtype: GgmlDtype::Q4_0, expected: 36, num_blocks: 2, got: 37 }
    );
    let e = Q4Tensor::from_q8_bytes(&[0; 33], [1, 32]).err().unwrap();
    assert_eq!(
        e,
        QuantError::ByteCount { dtype: GgmlDtype::Q8_0, expected: 34, num_blocks: 1, got: 33 }
    );
}

#[test]
fn sizes_beyond_machine_numbers_do_not_fit() {
    assert!(matrix_fits(3072, 9216, GgmlDtype::Q4_0));
    assert!(matrix_fits(0, usize::MAX, GgmlDtype::Q8_0));
    assert!(!matrix_fits(usize::MAX, 2, GgmlDtype::Q4_0));
    // The elements can be counted, the bytes of their blocks cannot.
    let most = usize::MAX / 32;
    assert!(!matrix_fits(most, 32, GgmlDtype::Q8_0));
    assert!(matrix_fits(most, 32, GgmlDtype::Q4_0));
    assert!(matrix_fits(most, 32, GgmlDtype::F32));
}

#[test]
fn a_part_of_the_elements_can_be_decoded() {
    let mut raw = q8_block(1, [5; 32]);
    raw.extend_from_slice(&q8_block(2, [6; 32]));
    let values = decode_elements(&raw, GgmlDtype::Q8_0, 32);
    assert_eq!(values, vec![ScaledInt { scale: 1, quant: 5 }; 32]);
}

#[test]
fn stacked_matrices_keep_their_rows() {
    let a = Q4Tensor::from_q4_bytes(&q4_block(1, [0x12; 16]), [1, 32]).unwrap();
    let mut raw = q4_block(2, [0x34; 16]);
    raw.extend_from_slice(&q4_block(3, [0x56; 16]));
    let b = Q4Tensor::from_q4_bytes(&raw, [2, 32]).unwrap();
    let both = a.stacked(&b).unwrap();
    assert_eq!(both.shape(), [3, 32]);
    assert_eq!(both.dtype(), GgmlDtype::Q4_0);
    let mut expected = a.dequantize(a.image());
    expected.extend(b.dequantize(b.image()));
    assert_eq!(both.dequantize(both.image()), expected);
    assert_eq!(both.image().len(), 56);
}

#[test]
fn unlike_matrices_cannot_be_stacked() {
    let a = Q4Tensor::from_q4_bytes(&q4_block(1, [0; 16]), [1, 32]).unwrap();
    let b = Q4Tensor::from_q4_bytes(&q4_block(1, [0; 16]), [2, 16]).unwrap();
    let c = Q4Tensor::from_q8_bytes(&q8_block(1, [0; 32]), [1, 32]).unwrap();
    assert!(a.stacked(&b).is_none());
    assert!(a.stacked(&c).is_none());
    assert!(a.stacked(&a).is_some());
}
