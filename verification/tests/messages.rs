use voxtral_mini_realtime::gguf::loader::load_error;
use voxtral_mini_realtime::gguf::reader::{GgmlDtype, GgufError, TensorError};
use voxtral_mini_realtime::gguf::tensor::{Q4Tensor, QuantError};

#[test]
fn quantization_errors_are_worded() {
    let e = Q4Tensor::from_quantized_bytes(&[], [1, 1], GgmlDtype::F16).err().unwrap();
    assert_eq!(e.message(), "from_quantized_bytes only supports Q4_0 and Q8_0, got F16");
    let e = Q4Tensor::from_q4_bytes(&[], [3, 11]).err().unwrap();
    assert_eq!(e.message(), "Q4_0 requires element count divisible by 32, got 33");
    let e = Q4Tensor::from_q8_bytes(&[0; 100], [2, 64]).err().unwrap();
    assert_eq!(e.message(), "Q8_0 byte count mismatch: expected 136 for 4 blocks, got 100");
}

#[test]
fn tensor_errors_are_worded() {
    assert_eq!(
        load_error("norm.weight", TensorError::Missing).message(),
        "Tensor 'norm.weight' not found"
    );
    let cases: [(TensorError, &str); 9] = [
        (TensorError::TooLarge, "Tensor 't': too large"),
        (TensorError::PartialBlock, "Tensor 't': element count not divisible by 32"),
        (TensorError::Truncated, "Tensor 't': data ends too early"),
        (
            TensorError::NotFloat { dtype: GgmlDtype::Q8_0 },
            "Tensor 't': expected F32 or F16, got Q8_0",
        ),
        (
            TensorError::Rank { expected: 3, found: 12 },
            "Tensor 't': expected 3 dimensions, got 12",
        ),
        (
            TensorError::TooFewDims { found: 1 },
            "Tensor 't': expected a matrix, got 1 dimensions",
        ),
        (
            TensorError::Count { expected: 100, found: 99 },
            "Tensor 't': expected 100 values, got 99",
        ),
        (
            TensorError::Quant {
                error: QuantError::UnsupportedDtype { dtype: GgmlDtype::F32 },
            },
            "Tensor 't': from_quantized_bytes only supports Q4_0 and Q8_0, got F32",
        ),
        (
            TensorError::Quant {
                error: QuantError::PartialBlock { dtype: GgmlDtype::Q4_0, num_elements: 31 },
            },
            "Tensor 't': Q4_0 requires element count divisible by 32, got 31",
        ),
    ];
    for (error, text) in cases {
        assert_eq!(load_error("t", error).message(), text);
    }
}

#[test]
fn file_errors_are_worded() {
    assert_eq!(GgufError::BadMagic.message(), "not a GGUF file");
    assert_eq!(
        GgufError::UnsupportedVersion { version: 4 }.message(),
        "unsupported GGUF version 4"
    );
    assert_eq!(GgufError::Truncated.message(), "GGUF file ends too early");
    assert_eq!(GgufError::TooLarge.message(), "GGUF file holds a size that is too large");
    assert_eq!(GgufError::BadValueType { code: 13 }.message(), "unknown GGUF metadata type 13");
    assert_eq!(GgufError::UnsupportedDtype { code: 7 }.message(), "unsupported GGML dtype 7");
    assert_eq!(GgufError::BadAlignment.message(), "GGUF alignment is zero");
}
